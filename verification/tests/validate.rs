use safe_cargo::error::Error;
use safe_cargo::validate::{
    branch_name, crate_name, github_repo, normalize_crate_name, safe_path_component, version,
};

fn config_reason(e: Error) -> String {
    match e {
        Error::ConfigParse { path, reason } => {
            assert_eq!(path, "<input>");
            reason
        }
        other => panic!("unexpected error {other:?}"),
    }
}

#[test]
fn valid_crate_names() {
    assert!(crate_name("tokio").is_ok());
    assert!(crate_name("serde_json").is_ok());
    assert!(crate_name("my-crate").is_ok());
}

#[test]
fn invalid_crate_names() {
    assert!(crate_name("").is_err());
    assert!(crate_name("123abc").is_err());
    assert!(crate_name("my crate").is_err());
    assert!(crate_name("../evil").is_err());
    assert!(crate_name(&"a".repeat(65)).is_err());
}

#[test]
fn valid_versions() {
    assert!(version("1.0.0").is_ok());
    assert!(version("0.1.0-beta.1").is_ok());
}

#[test]
fn invalid_versions() {
    assert!(version("not-a-version").is_err());
    assert!(version("").is_err());
}

#[test]
fn valid_repos() {
    assert!(github_repo("user/repo").is_ok());
    assert!(github_repo("my-org/my-repo").is_ok());
}

#[test]
fn invalid_repos() {
    assert!(github_repo("noslash").is_err());
    assert!(github_repo("").is_err());
    assert!(github_repo("a/b/c").is_err());
}

#[test]
fn safe_paths() {
    assert!(safe_path_component("tokio").is_ok());
    assert!(safe_path_component("../etc/passwd").is_err());
    assert!(safe_path_component("/root").is_err());
}

#[test]
fn valid_branches() {
    assert!(branch_name("main").is_ok());
    assert!(branch_name("feature/foo").is_ok());
}

#[test]
fn invalid_branches() {
    assert!(branch_name("").is_err());
    assert!(branch_name("a..b").is_err());
    assert!(branch_name("-starts-with-dash").is_err());
}

#[test]
fn crate_name_reasons_name_the_first_problem() {
    assert_eq!(
        config_reason(crate_name("").unwrap_err()),
        "crate name must be 1-64 characters, got: ''"
    );
    assert_eq!(
        config_reason(crate_name("1abc").unwrap_err()),
        "crate name must start with a letter, got: '1abc'"
    );
    assert_eq!(
        config_reason(crate_name("ab!c").unwrap_err()),
        "crate name contains invalid characters: 'ab!c'"
    );
}

#[test]
fn crate_name_length_counts_bytes() {
    assert!(crate_name(&"a".repeat(64)).is_ok());
    // 32 two-byte characters after a letter: 65 bytes although 33 characters.
    let long = format!("a{}", "é".repeat(32));
    assert_eq!(
        config_reason(crate_name(&long).unwrap_err()),
        format!("crate name must be 1-64 characters, got: '{long}'")
    );
    // 20 two-byte characters: within the length, but not allowed characters.
    let short = format!("a{}", "é".repeat(20));
    assert_eq!(
        config_reason(crate_name(&short).unwrap_err()),
        format!("crate name contains invalid characters: '{short}'")
    );
}

#[test]
fn version_error_carries_semver_message() {
    let reason = config_reason(version("1.0").unwrap_err());
    assert!(reason.starts_with("invalid version '1.0': "), "{reason}");
    assert!(reason.len() > "invalid version '1.0': ".len());
}

#[test]
fn repo_reasons() {
    assert_eq!(
        config_reason(github_repo("a/").unwrap_err()),
        "repo must be in owner/name format, got: 'a/'"
    );
    assert_eq!(
        config_reason(github_repo("/b").unwrap_err()),
        "repo must be in owner/name format, got: '/b'"
    );
    assert_eq!(
        config_reason(github_repo("a b/c").unwrap_err()),
        "repo contains invalid characters: 'a b/c'"
    );
    assert!(github_repo("my.org_1/re-po.rs").is_ok());
}

#[test]
fn branch_edge_cases() {
    assert_eq!(config_reason(branch_name("").unwrap_err()), "branch name cannot be empty");
    for bad in ["a b", "a~b", "a^b", "a:b", "a\\b", "ends/", "x.lock", "-x"] {
        assert_eq!(
            config_reason(branch_name(bad).unwrap_err()),
            format!("branch name contains invalid characters: '{bad}'")
        );
    }
    assert!(branch_name("release/v1.lockfile").is_ok());
    assert!(branch_name("a.b").is_ok());
}

#[test]
fn path_component_errors() {
    match safe_path_component("").unwrap_err() {
        Error::InvalidInput(m) => assert_eq!(m, "path component cannot be empty"),
        e => panic!("{e:?}"),
    }
    for t in [".", ".."] {
        match safe_path_component(t).unwrap_err() {
            Error::InvalidInput(m) => assert_eq!(m, "path traversal not allowed"),
            e => panic!("{e:?}"),
        }
    }
    match safe_path_component("a/b").unwrap_err() {
        Error::InvalidInput(m) => assert_eq!(m, "invalid characters in path component: a/b"),
        e => panic!("{e:?}"),
    }
    assert_eq!(safe_path_component("1.1.2+spec-1.1.0").unwrap(), "1.1.2+spec-1.1.0");
    assert_eq!(safe_path_component("...").unwrap(), "...");
}

#[test]
fn normalize_replaces_hyphens() {
    assert_eq!(normalize_crate_name("my-crate-name"), "my_crate_name");
    assert_eq!(normalize_crate_name("serde_json"), "serde_json");
    let once = normalize_crate_name("a-b_c-");
    assert_eq!(normalize_crate_name(&once), once);
}

#[test]
fn crate_names_are_safe_path_components() {
    for name in ["tokio", "serde_json", "my-crate", "A1"] {
        assert!(crate_name(name).is_ok());
        assert!(safe_path_component(name).is_ok());
    }
}

#[test]
fn branches_refuse_query_and_control_characters() {
    for b in ["main?x", "a#b", "a&b=c", "ma\nin", "tab\tbranch", "del\u{7f}"] {
        assert!(branch_name(b).is_err(), "{b:?}");
    }
    assert!(branch_name("release/v1.2-rc_3").is_ok());
}
