use safe_cargo::commands::add::{cargo_add_argument, decide, manifest_matches, validate_dependency, AddDecision};
use safe_cargo::commands::allow::{
    add_allow_entry, allow_request, parse_crate_spec, plan_allow_edit, AllowSlot,
};
use safe_cargo::commands::setup::setup_config;
use safe_cargo::commands::check::{label, DependencyOutcome, DependencyTally, LabelStyle};
use safe_cargo::commands::status::{package_status, PackageStatus};
use safe_cargo::config::{AllowEntry, SafeCargoConfig};
use safe_cargo::error::Error;
use safe_cargo::reports::{CrateMetadata, Delta, Manifest, Report, Verdict};

fn report(name: &str, version: &str, score: u32, age: u64, verdict: Verdict) -> Report {
    Report {
        crate_name: name.into(),
        version: version.into(),
        published_at: None,
        analyzed_at: "2026-01-01T00:00:00Z".into(),
        release_age_days: age,
        score,
        verdict,
        triggered_rules: vec![],
        delta: Delta {
            compared_versions: vec![],
            lines_added: 0,
            lines_removed: 0,
            new_files: vec![],
            build_rs_changed: false,
            deps_added: vec![],
            deps_removed: vec![],
        },
        rules_executed: vec![],
        metadata: CrateMetadata { owners: vec![], repository: None, downloads: 0 },
    }
}

fn config() -> SafeCargoConfig {
    let mut cfg = SafeCargoConfig::default();
    cfg.allow.insert("openssl-sys".into(), AllowEntry { version: "0.9.102".into(), reason: "audited".into() });
    cfg
}

#[test]
fn labels() {
    assert_eq!(label(LabelStyle::Lockfile, "serde", "1.0.0", false), "serde@1.0.0");
    assert_eq!(label(LabelStyle::Lockfile, "serde", "1.0.0", true), "serde@1.0.0");
    assert_eq!(label(LabelStyle::Manifest, "serde", "1.0.0", false), "serde v1.0.0");
    assert_eq!(label(LabelStyle::Manifest, "serde", "1.0.0", true), "serde v1.0.0 (allowlisted)");
}

#[test]
fn tally_records_each_judgement() {
    let cfg = config();
    let mut t = DependencyTally::new();
    let good = report("serde", "1.0.0", 5, 30, Verdict::Pass);
    let risky = report("evil", "0.1.0", 90, 30, Verdict::Pass);
    let warned = report("meh", "2.0.0", 10, 30, Verdict::Warn);
    assert_eq!(
        t.record(LabelStyle::Lockfile, &cfg, "openssl-sys", "0.9.102", None).unwrap(),
        DependencyOutcome::Allowed
    );
    assert_eq!(
        t.record(LabelStyle::Lockfile, &cfg, "serde", "1.0.0", Some(&good)).unwrap(),
        DependencyOutcome::Passed { score: 5 }
    );
    assert_eq!(
        t.record(LabelStyle::Lockfile, &cfg, "evil", "0.1.0", Some(&risky)).unwrap(),
        DependencyOutcome::Failed { score: 90 }
    );
    assert_eq!(
        t.record(LabelStyle::Lockfile, &cfg, "meh", "2.0.0", Some(&warned)).unwrap(),
        DependencyOutcome::Warned { score: 10 }
    );
    assert_eq!(
        t.record(LabelStyle::Lockfile, &cfg, "unknown", "1.0.0", None).unwrap(),
        DependencyOutcome::Missing
    );
    assert_eq!(t.passed(), &vec!["openssl-sys@0.9.102".to_string(), "serde@1.0.0".to_string()]);
    assert_eq!(t.failed().len(), 2);
    assert_eq!(t.failed()[0].0, "evil@0.1.0");
    assert_eq!(t.failed()[0].1, vec!["risk score 90 exceeds maximum allowed 40".to_string()]);
    assert_eq!(t.failed()[1].0, "meh@2.0.0");
    assert_eq!(t.failed()[1].1, vec!["Report has WARN verdict (score: 10)".to_string()]);
    assert_eq!(t.missing(), &vec!["unknown@1.0.0".to_string()]);
    match t.check_outcome() {
        Err(Error::UnanalyzedDeps { crates }) => assert_eq!(
            crates,
            vec!["evil@0.1.0".to_string(), "meh@2.0.0".to_string(), "unknown@1.0.0".to_string()]
        ),
        other => panic!("unexpected {other:?}"),
    }
    assert_eq!(decide(&t), AddDecision::AwaitAnalysis);
}

#[test]
fn tally_rejects_mismatched_report() {
    let cfg = config();
    let mut t = DependencyTally::new();
    let wrong = report("serde", "1.0.1", 0, 30, Verdict::Pass);
    match t.record(LabelStyle::Manifest, &cfg, "serde", "1.0.0", Some(&wrong)) {
        Err(Error::ReportIntegrityFailure(n, v)) => {
            assert_eq!(n, "serde");
            assert_eq!(v, "1.0.0");
        }
        other => panic!("unexpected {other:?}"),
    }
    assert!(t.passed().is_empty() && t.failed().is_empty() && t.missing().is_empty());
    assert!(t.check_outcome().is_ok());
}

#[test]
fn tally_reports_bad_policy() {
    let mut cfg = config();
    cfg.policy.min_release_age = "3x".into();
    let mut t = DependencyTally::new();
    let r = report("serde", "1.0.0", 0, 30, Verdict::Pass);
    assert!(matches!(
        t.record(LabelStyle::Lockfile, &cfg, "serde", "1.0.0", Some(&r)),
        Err(Error::ConfigParse { .. })
    ));
    assert_eq!(
        t.record(LabelStyle::Lockfile, &cfg, "openssl-sys", "0.9.102", Some(&r)).unwrap(),
        DependencyOutcome::Allowed
    );
}

#[test]
fn add_decisions() {
    let cfg = config();
    let mut t = DependencyTally::new();
    assert_eq!(decide(&t), AddDecision::Install);
    let ok = report("serde", "1.0.0", 1, 30, Verdict::Pass);
    t.record(LabelStyle::Manifest, &cfg, "serde", "1.0.0", Some(&ok)).unwrap();
    assert_eq!(decide(&t), AddDecision::Install);
    assert!(t.check_outcome().is_ok());
    let young = report("fresh", "0.0.1", 1, 0, Verdict::Pass);
    t.record(LabelStyle::Manifest, &cfg, "fresh", "0.0.1", Some(&young)).unwrap();
    assert_eq!(decide(&t), AddDecision::Block);
    assert_eq!(t.failed()[0].0, "fresh v0.0.1");
    assert_eq!(
        t.failed()[0].1,
        vec!["release age 0 day(s) is below minimum 3 day(s)".to_string()]
    );
    assert_eq!(cargo_add_argument("tokio", "1.38.0"), "tokio@1.38.0");
}

#[test]
fn manifest_checks() {
    let m = Manifest {
        requested_crate: "tokio".into(),
        requested_version: "1.38.0".into(),
        analyzed_at: "2026-01-01T00:00:00Z".into(),
        dependencies: vec![],
    };
    assert!(manifest_matches(&m, "tokio", "1.38.0"));
    assert!(!manifest_matches(&m, "tokio", "1.38.1"));
    assert!(!manifest_matches(&m, "mio", "1.38.0"));
    assert!(validate_dependency("mio", "1.0.2").is_ok());
    assert!(validate_dependency("mio", "x").is_err());
    assert!(validate_dependency("", "1.0.0").is_err());
}

fn spec_reason(r: Result<(String, String), Error>) -> String {
    match r {
        Err(Error::ConfigParse { path, reason }) => {
            assert_eq!(path, "<crate_spec>");
            reason
        }
        other => panic!("unexpected {other:?}"),
    }
}

#[test]
fn allow_specs() {
    assert_eq!(
        parse_crate_spec("openssl-sys@0.9.102").unwrap(),
        ("openssl-sys".to_string(), "0.9.102".to_string())
    );
    assert_eq!(
        spec_reason(parse_crate_spec("openssl-sys")),
        "crate spec must be in name@version format (e.g. \"openssl-sys@0.9.102\"), got: openssl-sys"
    );
    assert_eq!(spec_reason(parse_crate_spec("@1.0.0")), "crate name cannot be empty");
    assert_eq!(
        spec_reason(parse_crate_spec("serde@")),
        "version is required (e.g. \"openssl-sys@0.9.102\")"
    );
    assert_eq!(allow_request("serde@1.0.0").unwrap(), ("serde".to_string(), "1.0.0".to_string()));
    match allow_request("serde@one") {
        Err(Error::ConfigParse { path, .. }) => assert_eq!(path, "<input>"),
        other => panic!("unexpected {other:?}"),
    }
    assert!(allow_request("bad name@1.0.0").is_err());
}

#[test]
fn allow_edits() {
    assert_eq!(plan_allow_edit("c.toml", true, AllowSlot::Missing).unwrap(), true);
    assert_eq!(plan_allow_edit("c.toml", true, AllowSlot::Table).unwrap(), false);
    match plan_allow_edit("c.toml", true, AllowSlot::Other) {
        Err(Error::ConfigParse { path, reason }) => {
            assert_eq!(path, "c.toml");
            assert_eq!(reason, "[allow] is not a table");
        }
        other => panic!("unexpected {other:?}"),
    }
    match plan_allow_edit("c.toml", false, AllowSlot::Table) {
        Err(Error::ConfigParse { reason, .. }) => assert_eq!(reason, "config root is not a TOML table"),
        other => panic!("unexpected {other:?}"),
    }
}

#[test]
fn statuses() {
    let r = report("serde", "1.0.0", 12, 30, Verdict::Warn);
    assert_eq!(package_status("serde", "1.0.0", Some(&r)), PackageStatus::Analyzed(Verdict::Warn, 12));
    assert_eq!(package_status("serde", "1.0.1", Some(&r)), PackageStatus::IntegrityMismatch);
    assert_eq!(package_status("serde", "1.0.0", None), PackageStatus::Missing);
}

#[test]
fn unreadable_policy_needs_no_evaluation_for_allowed_or_missing() {
    let mut cfg = config();
    cfg.policy.min_release_age = "3é".into();
    let mut t = DependencyTally::new();
    assert_eq!(
        t.record(LabelStyle::Lockfile, &cfg, "openssl-sys", "0.9.102", None).unwrap(),
        DependencyOutcome::Allowed
    );
    assert_eq!(
        t.record(LabelStyle::Lockfile, &cfg, "serde", "1.0.0", None).unwrap(),
        DependencyOutcome::Missing
    );
    let other = report("serde", "9.9.9", 0, 30, Verdict::Pass);
    assert!(matches!(
        t.record(LabelStyle::Lockfile, &cfg, "serde", "1.0.0", Some(&other)),
        Err(Error::ReportIntegrityFailure(..))
    ));
}

#[test]
fn missing_reports_pass_when_not_required() {
    let mut cfg = config();
    cfg.policy.require_report = false;
    let mut t = DependencyTally::new();
    assert_eq!(
        t.record(LabelStyle::Manifest, &cfg, "serde", "1.0.0", None).unwrap(),
        DependencyOutcome::Unreported
    );
    assert_eq!(t.passed(), &vec!["serde v1.0.0".to_string()]);
    assert!(t.missing().is_empty());
    assert_eq!(decide(&t), AddDecision::Install);
    assert!(t.check_outcome().is_ok());
}

#[test]
fn unreadable_policy_is_a_config_error_when_evaluated() {
    let mut cfg = config();
    cfg.policy.min_release_age = "3é".into();
    let mut t = DependencyTally::new();
    let r = report("serde", "1.0.0", 0, 30, Verdict::Pass);
    match t.record(LabelStyle::Lockfile, &cfg, "serde", "1.0.0", Some(&r)) {
        Err(Error::ConfigParse { path, reason }) => {
            assert_eq!(path, "<inline>");
            assert_eq!(reason, "unknown duration suffix 'é' in '3é'");
        }
        other => panic!("unexpected {other:?}"),
    }
}

fn parsed(text: &str) -> toml::Value {
    toml::from_str(text).expect("valid TOML")
}

#[test]
fn allow_entry_into_empty_config() {
    let out = add_allow_entry("c.toml", "", "openssl-sys", "0.9.102", "audited").unwrap();
    let doc = parsed(&out);
    assert_eq!(doc["allow"]["openssl-sys"]["version"].as_str(), Some("0.9.102"));
    assert_eq!(doc["allow"]["openssl-sys"]["reason"].as_str(), Some("audited"));
    assert_eq!(doc.as_table().unwrap().len(), 1);
}

#[test]
fn allow_entry_keeps_the_rest_of_the_config() {
    let before = "[registry]\nrepo = \"a/b\"\n\n[policy]\nmax_score = 4\nratio = 1.5\n\n[allow]\nring = { version = \"0.17.8\", reason = \"old\" }\nlibc = { version = \"0.2.1\", reason = \"core\" }\n";
    let out = add_allow_entry("c.toml", before, "ring", "0.17.9", "bumped").unwrap();
    let doc = parsed(&out);
    let old = parsed(before);
    assert_eq!(doc["registry"], old["registry"]);
    assert_eq!(doc["policy"], old["policy"]);
    assert_eq!(doc["allow"]["libc"], old["allow"]["libc"]);
    assert_eq!(doc["allow"]["ring"]["version"].as_str(), Some("0.17.9"));
    assert_eq!(doc["allow"]["ring"]["reason"].as_str(), Some("bumped"));
    assert_eq!(doc["allow"].as_table().unwrap().len(), 2);
}

#[test]
fn allow_entry_errors() {
    match add_allow_entry("c.toml", "allow = 3\n", "x", "1.0.0", "r") {
        Err(Error::ConfigParse { path, reason }) => {
            assert_eq!(path, "c.toml");
            assert_eq!(reason, "[allow] is not a table");
        }
        other => panic!("unexpected {other:?}"),
    }
    assert!(matches!(
        add_allow_entry("c.toml", "this is = = not toml", "x", "1.0.0", "r"),
        Err(Error::TomlDeserialize(_))
    ));
}

#[test]
fn setup_writes_registry_and_default_policy() {
    let out = setup_config("acme/reports", "main", "RWQkey").unwrap();
    let doc = parsed(&out);
    assert_eq!(doc["registry"]["repo"].as_str(), Some("acme/reports"));
    assert_eq!(doc["registry"]["branch"].as_str(), Some("main"));
    assert_eq!(doc["registry"]["signing_key"].as_str(), Some("RWQkey"));
    assert_eq!(doc["policy"]["min_release_age"].as_str(), Some("3d"));
    assert_eq!(doc["policy"]["max_score"].as_integer(), Some(40));
    assert_eq!(doc["policy"]["require_report"].as_bool(), Some(true));
}
