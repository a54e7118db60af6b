use safe_cargo::error::Error;
use safe_cargo::github::{contents_body, optional_body, GitHubClient};
use safe_cargo::http::{HttpOutcome, MAX_RESPONSE_SIZE};

fn client() -> GitHubClient {
    GitHubClient::new("acme/reports", "prod", "tok123")
}

#[test]
fn client_urls() {
    let c = client();
    assert_eq!(c.repo(), "acme/reports");
    assert_eq!(c.authorization(), "Bearer tok123");
    assert_eq!(
        c.contents_url("a/b.json"),
        "https://api.github.com/repos/acme/reports/contents/a/b.json?ref=prod"
    );
    assert_eq!(
        c.report_url("tokio", "1.38.0").unwrap(),
        "https://api.github.com/repos/acme/reports/contents/reports/tokio/1.38.0.json?ref=prod"
    );
    assert_eq!(
        c.report_signature_url("tokio", "1.38.0").unwrap(),
        "https://api.github.com/repos/acme/reports/contents/reports/tokio/1.38.0.json.minisig?ref=prod"
    );
    assert_eq!(
        c.manifest_url("tokio", "1.38.0").unwrap(),
        "https://api.github.com/repos/acme/reports/contents/reports/_manifests/tokio-1.38.0.json?ref=prod"
    );
    assert_eq!(
        c.manifest_signature_url("tokio", "1.38.0").unwrap(),
        "https://api.github.com/repos/acme/reports/contents/reports/_manifests/tokio-1.38.0.json.minisig?ref=prod"
    );
    assert_eq!(
        c.workflow_dispatch_url("tokio", "1.38.0").unwrap(),
        "https://api.github.com/repos/acme/reports/actions/workflows/analyze.yml/dispatches"
    );
    assert_eq!(
        c.latest_pr_url("tokio").unwrap(),
        "https://api.github.com/repos/acme/reports/pulls?state=open&head=acme/reports:analyze/tokio-"
    );
}

#[test]
fn client_rejects_bad_requests() {
    let c = client();
    match c.report_url("../etc", "1.0.0") {
        Err(Error::ConfigParse { path, .. }) => assert_eq!(path, "<input>"),
        other => panic!("unexpected {other:?}"),
    }
    match c.manifest_url("tokio", "latest") {
        Err(Error::ConfigParse { path, reason }) => {
            assert_eq!(path, "<input>");
            assert!(reason.starts_with("invalid version 'latest': "));
        }
        other => panic!("unexpected {other:?}"),
    }
    assert!(c.latest_pr_url("9lives").is_err());
    assert!(c.workflow_dispatch_url("tokio", "1").is_err());
}

#[test]
fn contents_responses() {
    let url = "https://api.github.com/x";
    assert_eq!(contents_body(url, HttpOutcome::Body("abc".into())).unwrap(), "abc");
    match contents_body(url, HttpOutcome::Status(404)) {
        Err(Error::ReportNotFound { name, version }) => {
            assert_eq!(name, url);
            assert_eq!(version, "");
        }
        other => panic!("unexpected {other:?}"),
    }
    match contents_body(url, HttpOutcome::Status(401)) {
        Err(Error::GitHubApi(m)) => assert_eq!(m, "HTTP 401 from https://api.github.com/x"),
        other => panic!("unexpected {other:?}"),
    }
    match contents_body(url, HttpOutcome::Transport("timeout".into())) {
        Err(Error::Network(m)) => assert_eq!(m, "request to https://api.github.com/x failed: timeout"),
        other => panic!("unexpected {other:?}"),
    }
    match contents_body(url, HttpOutcome::ReadFailed("reset".into())) {
        Err(Error::Network(m)) => {
            assert_eq!(m, "failed to read response from https://api.github.com/x: reset")
        }
        other => panic!("unexpected {other:?}"),
    }
    match contents_body(url, HttpOutcome::Body("z".repeat(MAX_RESPONSE_SIZE + 1))) {
        Err(Error::ResponseTooLarge(u, n)) => {
            assert_eq!(u, url);
            assert_eq!(n, MAX_RESPONSE_SIZE);
        }
        other => panic!("unexpected {other:?}"),
    }
}

#[test]
fn optional_bodies() {
    assert_eq!(optional_body(Ok("x".into())).unwrap(), Some("x".to_string()));
    assert_eq!(
        optional_body(Err(Error::ReportNotFound { name: "u".into(), version: String::new() })).unwrap(),
        None
    );
    assert!(matches!(optional_body(Err(Error::GitHubApi("boom".into()))), Err(Error::GitHubApi(_))));
}
