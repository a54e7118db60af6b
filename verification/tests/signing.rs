use safe_cargo::cargo::LockPackage;
use safe_cargo::commands::audit::{cached_report_verified, split_for_analysis, CachedReport};
use safe_cargo::commands::setup::{
    branch_choice, signing_key_problem, token_problem, trim_input, SetupProblem,
};
use safe_cargo::error::Error;
use safe_cargo::signing::{is_valid_public_key, verify};

const KEY: &str = "RWQf6LRCGA9i53mlYecO4IzT51TGPpvWucNSCh1CBM0QTaLn73Y7GFO3";
const SIG: &str = "untrusted comment: signature from minisign secret key\nRUQf6LRCGA9i559r3g7V1qNyJDApGip8MfqcadIgT9CuhV3EMhHoN1mGTkUidF/z7SrlQgXdy8ofjb7bNJJylDOocrCo8KLzZwo=\ntrusted comment: timestamp:1556193335\tfile:test\ny/rUw2y8/hOUYjZU71eHp/Wo1KZ40fGy2VJEDl34XMJM+TX48Ss/17u3IvIfbVR1FkZZSNCisQbuQY+bHwhEBg==";

#[test]
fn signature_accepts_signed_data() {
    assert!(verify(KEY, b"test", SIG).is_ok());
}

#[test]
fn signature_rejects_other_data() {
    match verify(KEY, b"Test", SIG) {
        Err(Error::ReportParse { name, reason }) => {
            assert_eq!(name, "<signature>");
            assert!(reason.starts_with("signature verification failed: "));
        }
        other => panic!("unexpected {other:?}"),
    }
}

#[test]
fn signature_bad_key_and_bad_signature() {
    match verify("not a key", b"test", SIG) {
        Err(Error::ConfigParse { path, reason }) => {
            assert_eq!(path, "<signing_key>");
            assert!(reason.starts_with("invalid signing public key: "));
        }
        other => panic!("unexpected {other:?}"),
    }
    match verify(KEY, b"test", "garbage") {
        Err(Error::ReportParse { name, reason }) => {
            assert_eq!(name, "<signature>");
            assert!(reason.starts_with("invalid signature format: "));
        }
        other => panic!("unexpected {other:?}"),
    }
    assert!(is_valid_public_key(KEY));
    assert!(!is_valid_public_key("RWQ"));
}

#[test]
fn audit_needs_both_files_and_a_good_signature() {
    assert!(cached_report_verified(KEY, Some("test".into()), Some(SIG.into())));
    assert!(!cached_report_verified(KEY, Some("tampered".into()), Some(SIG.into())));
    assert!(!cached_report_verified(KEY, Some("test".into()), None));
    assert!(!cached_report_verified(KEY, None, Some(SIG.into())));
}

#[test]
fn setup_answers() {
    assert_eq!(trim_input("  ghp_abc \n"), "ghp_abc");
    assert_eq!(branch_choice("   "), "main");
    assert_eq!(branch_choice(" reports \n"), "reports");
    assert_eq!(token_problem(""), Some(SetupProblem::MissingToken));
    assert_eq!(token_problem("tok"), None);
    assert_eq!(signing_key_problem(""), Some(SetupProblem::MissingSigningKey));
    assert_eq!(signing_key_problem("bogus"), Some(SetupProblem::InvalidSigningKey));
    assert_eq!(signing_key_problem(KEY), None);
}

fn cached(name: &str, raw: Option<&str>, sig: Option<&str>) -> CachedReport {
    CachedReport {
        package: LockPackage { name: name.into(), version: "1.0.0".into() },
        raw: raw.map(String::from),
        sig: sig.map(String::from),
    }
}

#[test]
fn audit_split_keeps_order_of_unverified() {
    let list = vec![
        cached("a", Some("test"), Some(SIG)),
        cached("b", None, None),
        cached("c", Some("tampered"), Some(SIG)),
        cached("d", Some("test"), Some(SIG)),
        cached("e", Some("test"), None),
    ];
    let (pending, analyzed) = split_for_analysis(KEY, &list);
    let names: Vec<&str> = pending.iter().map(|p| p.name.as_str()).collect();
    assert_eq!(names, vec!["b", "c", "e"]);
    assert_eq!(analyzed, 2);
    let (pending, analyzed) = split_for_analysis(KEY, &vec![]);
    assert!(pending.is_empty());
    assert_eq!(analyzed, 0);
}
