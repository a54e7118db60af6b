use safe_cargo::error::Error;
use safe_cargo::keychain::{
    credentials_present, delete_credentials, get_token, has_credentials, keychain_failure,
    store_credentials, KeychainOperation, KeyringFailure,
};

#[test]
fn failures_map_to_errors() {
    assert!(matches!(
        keychain_failure("a/b", KeychainOperation::Read, KeyringFailure::NoEntry("none".into())),
        Error::KeychainNotConfigured { repo } if repo == "a/b"
    ));
    assert!(matches!(
        keychain_failure("a/b", KeychainOperation::Store, KeyringFailure::Ambiguous("two".into())),
        Error::KeychainAccessDenied { repo, reason } if repo == "a/b" && reason == "two"
    ));
    assert!(matches!(
        keychain_failure("a/b", KeychainOperation::Delete, KeyringFailure::PlatformFailure("os".into())),
        Error::KeychainAccessDenied { reason, .. } if reason == "os"
    ));
    assert!(matches!(
        keychain_failure("a/b", KeychainOperation::Store, KeyringFailure::Other("x".into())),
        Error::KeychainStoreFailed { reason, .. } if reason == "x"
    ));
    assert!(matches!(
        keychain_failure("a/b", KeychainOperation::Read, KeyringFailure::Other("x".into())),
        Error::KeychainAccessDenied { reason, .. } if reason == "x"
    ));
    assert!(matches!(
        keychain_failure("a/b", KeychainOperation::Delete, KeyringFailure::Other("x".into())),
        Error::KeychainDeleteFailed { reason, .. } if reason == "x"
    ));
}

#[test]
fn presence_of_credentials() {
    assert!(credentials_present("a/b", Ok("tok".into())).unwrap());
    assert!(!credentials_present("a/b", Err(KeyringFailure::NoEntry("none".into()))).unwrap());
    assert!(matches!(
        credentials_present("a/b", Err(KeyringFailure::Other("locked".into()))),
        Err(Error::KeychainAccessDenied { repo, reason }) if repo == "a/b" && reason == "locked"
    ));
}

#[test]
fn store_round_trip_errors_name_the_repo() {
    let repo = "owner/keychain-test";
    if let Err(e) = store_credentials(repo, "tok") {
        assert!(matches!(
            e,
            Error::KeychainNotConfigured { .. } | Error::KeychainAccessDenied { .. } | Error::KeychainStoreFailed { .. }
        ));
    }
    match get_token(repo) {
        Ok(_) => {}
        Err(Error::KeychainNotConfigured { repo: r }) | Err(Error::KeychainAccessDenied { repo: r, .. }) => {
            assert_eq!(r, repo)
        }
        Err(other) => panic!("unexpected {other:?}"),
    }
    match has_credentials(repo) {
        Ok(_) => {}
        Err(Error::KeychainAccessDenied { repo: r, .. }) => assert_eq!(r, repo),
        Err(other) => panic!("unexpected {other:?}"),
    }
    if let Err(e) = delete_credentials(repo) {
        assert!(matches!(
            e,
            Error::KeychainNotConfigured { .. } | Error::KeychainAccessDenied { .. } | Error::KeychainDeleteFailed { .. }
        ));
    }
}
