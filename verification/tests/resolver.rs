use safe_cargo::error::Error;
use safe_cargo::http::{HttpOutcome, MAX_RESPONSE_SIZE};
use safe_cargo::resolver::{
    crate_info_url, registry_body, resolve_version, throttle_delay, CrateVersion, RATE_LIMIT_NANOS,
};
use safe_cargo::versions::{SemVersion, SemVersionReq};

#[test]
fn parse_version_req_valid() {
    let req = SemVersionReq::parse("^1.2").expect("should parse");
    assert!(req.matches(&SemVersion::new(1, 3, 0)));
    assert!(!req.matches(&SemVersion::new(2, 0, 0)));
}

#[test]
fn parse_version_req_invalid() {
    assert!(SemVersionReq::parse("not-a-version").is_err());
}

fn listed(entries: &[(&str, bool)]) -> Vec<CrateVersion> {
    entries
        .iter()
        .map(|(num, yanked)| CrateVersion {
            num: num.to_string(),
            created_at: "2024-01-01T00:00:00Z".to_string(),
            yanked: *yanked,
        })
        .collect()
}

fn failure<T>(r: Result<T, Error>) -> Error {
    match r {
        Ok(_) => panic!("expected an error"),
        Err(e) => e,
    }
}

fn api_message(e: Error) -> String {
    match e {
        Error::CratesIoApi(m) => m,
        other => panic!("unexpected error {other:?}"),
    }
}

#[test]
fn resolve_latest_non_yanked() {
    let versions = listed(&[("1.0.0", false), ("1.2.0", false), ("1.3.0", true), ("1.1.5", false)]);
    let v = resolve_version("demo", None, &versions).unwrap();
    assert_eq!(v.to_text(), "1.2.0");
}

#[test]
fn resolve_with_requirement() {
    let versions = listed(&[
        ("0.9.0", false),
        ("1.4.2", false),
        ("2.0.0", false),
        ("1.10.0", false),
        ("1.11.0", true),
    ]);
    let v = resolve_version("demo", Some("^1.2"), &versions).unwrap();
    assert_eq!((v.major(), v.minor(), v.patch()), (1, 10, 0));
    let v = resolve_version("demo", Some(">=0.3, <1.0"), &versions).unwrap();
    assert_eq!(v.to_text(), "0.9.0");
}

#[test]
fn resolve_prefers_release_over_prerelease() {
    let versions = listed(&[("2.0.0-beta.1", false), ("2.0.0", false), ("2.0.0-rc.1", false)]);
    let v = resolve_version("demo", None, &versions).unwrap();
    assert_eq!(v.to_text(), "2.0.0");
    assert_eq!(v.pre(), "");
}

#[test]
fn resolve_errors() {
    let versions = listed(&[("1.0.0", true)]);
    assert_eq!(
        api_message(failure(resolve_version("demo", None, &versions))),
        "no non-yanked versions found for crate 'demo'"
    );
    let versions = listed(&[("1.0.0", false)]);
    assert_eq!(
        api_message(failure(resolve_version("demo", Some("^2"), &versions))),
        "no non-yanked version of 'demo' matches requirement '^2'"
    );
    let m = api_message(failure(resolve_version("demo", Some("not-a-version"), &versions)));
    assert!(m.starts_with("invalid version requirement 'not-a-version' for crate 'demo': "));
    let versions = listed(&[("1.0.0", false), ("garbage", false)]);
    let m = api_message(failure(resolve_version("demo", None, &versions)));
    assert!(m.starts_with("crates.io returned unparseable version 'garbage' for crate 'demo': "));
    let versions = listed(&[("garbage", true), ("1.0.0", false)]);
    assert_eq!(resolve_version("demo", None, &versions).unwrap().to_text(), "1.0.0");
}

#[test]
fn version_text_and_parts() {
    let v = SemVersion::parse("1.2.3-alpha.1+build.5").unwrap();
    assert_eq!((v.major(), v.minor(), v.patch()), (1, 2, 3));
    assert_eq!(v.pre(), "alpha.1");
    assert_eq!(v.build(), "build.5");
    assert_eq!(v.to_text(), "1.2.3-alpha.1+build.5");
    assert_eq!(SemVersion::new(0, 10, 7).to_text(), "0.10.7");
    assert!(SemVersion::new(1, 10, 0).greater_than(&SemVersion::new(1, 9, 9)));
    assert!(!SemVersion::new(1, 0, 0).greater_than(&SemVersion::new(1, 0, 0)));
    assert!(SemVersion::parse("1.2").is_err());
    assert_eq!(SemVersionReq::parse("^1.2").unwrap().text(), "^1.2");
}

#[test]
fn crate_urls() {
    assert_eq!(crate_info_url("serde").unwrap(), "https://crates.io/api/v1/crates/serde");
    assert!(matches!(crate_info_url("../x"), Err(Error::ConfigParse { .. })));
}

#[test]
fn throttle_delays() {
    assert_eq!(throttle_delay(None), 0);
    assert_eq!(throttle_delay(Some(0)), RATE_LIMIT_NANOS);
    assert_eq!(throttle_delay(Some(250_000_000)), 750_000_000);
    assert_eq!(throttle_delay(Some(RATE_LIMIT_NANOS)), 0);
    assert_eq!(throttle_delay(Some(5 * RATE_LIMIT_NANOS)), 0);
}

#[test]
fn registry_responses() {
    let url = "https://crates.io/api/v1/crates/serde";
    assert_eq!(registry_body(url, HttpOutcome::Body("{}".into())).unwrap(), "{}");
    assert_eq!(
        api_message(registry_body(url, HttpOutcome::Status(404)).unwrap_err()),
        "not found (404)"
    );
    assert_eq!(
        api_message(registry_body(url, HttpOutcome::Status(429)).unwrap_err()),
        "rate limited by crates.io (429)"
    );
    assert_eq!(api_message(registry_body(url, HttpOutcome::Status(503)).unwrap_err()), "HTTP 503");
    assert_eq!(
        api_message(registry_body(url, HttpOutcome::ReadFailed("eof".into())).unwrap_err()),
        "failed to read response: eof"
    );
    match registry_body(url, HttpOutcome::Transport("dns".into())) {
        Err(Error::Network(m)) => assert_eq!(m, "dns"),
        other => panic!("unexpected {other:?}"),
    }
    let big = "x".repeat(MAX_RESPONSE_SIZE + 1);
    match registry_body(url, HttpOutcome::Body(big)) {
        Err(Error::ResponseTooLarge(u, n)) => {
            assert_eq!(u, url);
            assert_eq!(n, 2 * 1024 * 1024);
        }
        other => panic!("unexpected {other:?}"),
    }
    let exact = "y".repeat(MAX_RESPONSE_SIZE);
    assert_eq!(registry_body(url, HttpOutcome::Body(exact)).unwrap().len(), MAX_RESPONSE_SIZE);
}
