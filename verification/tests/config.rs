use safe_cargo::commands::add::github_repo_from_client;
use safe_cargo::config::{AllowEntry, AllowTable, SafeCargoConfig};
use safe_cargo::error::Error;

#[test]
fn default_config_values() {
    let cfg = SafeCargoConfig::default();
    assert_eq!(cfg.registry.repo, "user/safe-cargo");
    assert_eq!(cfg.registry.branch, "main");
    assert_eq!(cfg.policy.min_release_age, "3d");
    assert_eq!(cfg.policy.max_score, 40);
    assert!(cfg.policy.require_report);
    assert!(cfg.allow.is_empty());
}

#[test]
fn is_allowed_matches() {
    let mut cfg = SafeCargoConfig::default();
    cfg.allow.insert(
        "openssl-sys".into(),
        AllowEntry {
            version: "0.9.102".into(),
            reason: "audited 2026-05-20".into(),
        },
    );

    assert!(cfg.is_allowed("openssl-sys", "0.9.102"));
    assert!(!cfg.is_allowed("openssl-sys", "0.9.103"));
    assert!(!cfg.is_allowed("serde", "1.0.0"));
}

fn entry(version: &str, reason: &str) -> AllowEntry {
    AllowEntry { version: version.into(), reason: reason.into() }
}

#[test]
fn allow_table_insert_replaces() {
    let mut t = AllowTable::new();
    assert!(t.is_empty());
    assert_eq!(t.len(), 0);
    assert!(t.insert("a".into(), entry("1.0.0", "first")).is_none());
    assert!(t.insert("b".into(), entry("2.0.0", "second")).is_none());
    assert_eq!(t.len(), 2);
    let old = t.insert("a".into(), entry("1.1.0", "again")).expect("a was present");
    assert_eq!(old.version, "1.0.0");
    assert_eq!(old.reason, "first");
    assert_eq!(t.len(), 2);
    assert_eq!(t.get("a").unwrap().version, "1.1.0");
    assert_eq!(t.get("a").unwrap().reason, "again");
    assert_eq!(t.get("b").unwrap().version, "2.0.0");
    assert!(t.get("c").is_none());
    assert!(!t.is_empty());
}

#[test]
fn allowed_after_insert_example() {
    let mut cfg = SafeCargoConfig::default();
    cfg.allow.insert("ring".into(), entry("0.17.8", "vendored"));
    cfg.allow.insert("libc".into(), entry("0.2.155", "core"));
    cfg.allow.insert("ring".into(), entry("0.17.9", "bumped"));
    assert!(cfg.is_allowed("ring", "0.17.9"));
    assert!(!cfg.is_allowed("ring", "0.17.8"));
    assert!(cfg.is_allowed("libc", "0.2.155"));
    assert!(!cfg.is_allowed("Ring", "0.17.9"));
}

#[test]
fn allow_table_names() {
    let mut t = AllowTable::new();
    assert!(t.names().is_empty());
    t.insert("b".into(), entry("1.0.0", "x"));
    t.insert("a".into(), entry("1.0.0", "y"));
    t.insert("b".into(), entry("2.0.0", "z"));
    assert_eq!(t.names(), vec!["b".to_string(), "a".to_string()]);
}

#[test]
fn config_location_prefers_the_nearest_project_file() {
    let c = |p: &str, e: bool| (p.to_string(), e);
    let global = Some(("/g/config.toml".to_string(), true));
    let cands = vec![c("/a/b/safe-cargo.toml", false), c("/a/safe-cargo.toml", true), c("/safe-cargo.toml", true)];
    assert_eq!(SafeCargoConfig::load(&cands, global.clone()).unwrap(), "/a/safe-cargo.toml");
    let none = vec![c("/a/b/safe-cargo.toml", false), c("/safe-cargo.toml", false)];
    assert_eq!(SafeCargoConfig::load(&none, global).unwrap(), "/g/config.toml");
    assert!(matches!(
        SafeCargoConfig::load(&none, Some(("/g/config.toml".to_string(), false))),
        Err(Error::ConfigNotFound)
    ));
    assert!(matches!(SafeCargoConfig::load(&vec![], None), Err(Error::ConfigNotFound)));
}

#[test]
fn repo_hint() {
    let mut cfg = SafeCargoConfig::default();
    cfg.registry.repo = "acme/reports".into();
    assert_eq!(github_repo_from_client(Some(&cfg)), "acme/reports");
    assert_eq!(github_repo_from_client(None), "<your-repo>");
}

#[test]
fn readme_allow_example_with_pinned_key() {
    let mut cfg = SafeCargoConfig::default();
    cfg.allow.insert(
        "my-internal-crate@1.0.0".into(),
        entry("1.0.0", "Internal crate, reviewed by team"),
    );
    assert!(cfg.is_allowed("my-internal-crate", "1.0.0"));
    assert!(!cfg.is_allowed("my-internal-crate", "1.0.1"));
    assert!(!cfg.is_allowed("my-internal", "crate@1.0.0"));
}
