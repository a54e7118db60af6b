use safe_cargo::config::PolicyConfig;
use safe_cargo::error::Error;
use safe_cargo::policy::{evaluate, parse_duration};
use safe_cargo::reports::{CrateMetadata, Delta, Report, Verdict};

fn sample_report(score: u32, release_age_days: u64) -> Report {
    Report {
        crate_name: "test-crate".into(),
        version: "1.0.0".into(),
        published_at: Some(chrono::Utc::now().to_rfc3339()),
        analyzed_at: chrono::Utc::now().to_rfc3339(),
        release_age_days,
        score,
        verdict: Verdict::Pass,
        triggered_rules: vec![],
        delta: Delta {
            compared_versions: vec![],
            lines_added: 0,
            lines_removed: 0,
            new_files: vec![],
            build_rs_changed: false,
            deps_added: vec![],
            deps_removed: vec![],
        },
        rules_executed: vec![],
        metadata: CrateMetadata {
            owners: vec![],
            repository: None,
            downloads: 0,
        },
    }
}

fn default_policy() -> PolicyConfig {
    PolicyConfig {
        min_release_age: "3d".into(),
        max_score: 40,
        require_report: true,
    }
}

fn inline_reason(e: Error) -> String {
    match e {
        Error::ConfigParse { path, reason } => {
            assert_eq!(path, "<inline>");
            reason
        }
        other => panic!("unexpected error {other:?}"),
    }
}

#[test]
fn parse_duration_days() {
    assert_eq!(parse_duration("3d").unwrap(), 3);
    assert_eq!(parse_duration("0d").unwrap(), 0);
    assert_eq!(parse_duration("30d").unwrap(), 30);
}

#[test]
fn parse_duration_weeks() {
    assert_eq!(parse_duration("1w").unwrap(), 7);
    assert_eq!(parse_duration("2w").unwrap(), 14);
}

#[test]
fn parse_duration_hours() {
    assert_eq!(parse_duration("12h").unwrap(), 0);
    assert_eq!(parse_duration("48h").unwrap(), 2);
    assert_eq!(parse_duration("72h").unwrap(), 3);
}

#[test]
fn parse_duration_invalid_suffix() {
    assert!(parse_duration("3x").is_err());
}

#[test]
fn parse_duration_invalid_number() {
    assert!(parse_duration("abcd").is_err());
}

#[test]
fn parse_duration_empty() {
    assert!(parse_duration("").is_err());
}

#[test]
fn evaluate_pass() {
    let report = sample_report(10, 5);
    let policy = default_policy();
    let result = evaluate(&report, &policy).unwrap();
    assert_eq!(result.verdict, Verdict::Pass);
    assert!(result.reasons.is_empty());
}

#[test]
fn evaluate_fail_score() {
    let report = sample_report(50, 45);
    let policy = default_policy();
    let result = evaluate(&report, &policy).unwrap();
    assert_eq!(result.verdict, Verdict::Fail);
    assert!(result.reasons[0].contains("risk score"));
}

#[test]
fn evaluate_fail_age() {
    let report = sample_report(5, 1);
    let policy = default_policy();
    let result = evaluate(&report, &policy).unwrap();
    assert_eq!(result.verdict, Verdict::Fail);
    assert!(result.reasons[0].contains("release age"));
}

#[test]
fn evaluate_fail_both() {
    let report = sample_report(50, 1);
    let policy = default_policy();
    let result = evaluate(&report, &policy).unwrap();
    assert_eq!(result.verdict, Verdict::Fail);
    assert_eq!(result.reasons.len(), 2);
}

#[test]
fn evaluate_fail_when_report_verdict_is_fail_even_with_low_score() {
    let mut report = sample_report(0, 30);
    report.verdict = Verdict::Fail;
    let policy = default_policy();
    let result = evaluate(&report, &policy).unwrap();
    assert_eq!(result.verdict, Verdict::Fail);
    assert!(result
        .reasons
        .iter()
        .any(|r| r.contains("analyzer verdict")));
}

#[test]
fn duration_details() {
    assert_eq!(parse_duration("  5d\n").unwrap(), 5);
    assert_eq!(parse_duration("+2d").unwrap(), 2);
    assert_eq!(parse_duration("23h").unwrap(), 0);
    assert_eq!(parse_duration("18446744073709551615d").unwrap(), u64::MAX);
    assert_eq!(parse_duration("18446744073709551615w").unwrap(), u64::MAX);
    assert_eq!(parse_duration("3000000000000000000w").unwrap(), u64::MAX);
    assert_eq!(parse_duration("2635249153387078802w").unwrap(), 18446744073709551614);
    assert_eq!(
        inline_reason(parse_duration("18446744073709551616d").unwrap_err()),
        "invalid duration number in '18446744073709551616d'"
    );
}

#[test]
fn duration_messages() {
    assert_eq!(inline_reason(parse_duration("   ").unwrap_err()), "empty duration string");
    assert_eq!(
        inline_reason(parse_duration(" abcd ").unwrap_err()),
        "invalid duration number in 'abcd'"
    );
    assert_eq!(
        inline_reason(parse_duration("d").unwrap_err()),
        "invalid duration number in 'd'"
    );
    assert_eq!(
        inline_reason(parse_duration("-3d").unwrap_err()),
        "invalid duration number in '-3d'"
    );
    assert_eq!(
        inline_reason(parse_duration("3x").unwrap_err()),
        "unknown duration suffix 'x' in '3x'"
    );
}

#[test]
fn non_ascii_suffix_is_unknown() {
    assert_eq!(inline_reason(parse_duration("3é").unwrap_err()), "unknown duration suffix 'é' in '3é'");
    assert_eq!(inline_reason(parse_duration(" 3é  ").unwrap_err()), "unknown duration suffix 'é' in '3é'");
    assert_eq!(inline_reason(parse_duration("é3d").unwrap_err()), "invalid duration number in 'é3d'");
}

#[test]
fn evaluate_exact_reasons() {
    let policy = default_policy();
    let result = evaluate(&sample_report(50, 1), &policy).unwrap();
    assert_eq!(
        result.reasons,
        vec![
            "risk score 50 exceeds maximum allowed 40".to_string(),
            "release age 1 day(s) is below minimum 3 day(s)".to_string(),
        ]
    );

    let mut warn = sample_report(20, 10);
    warn.verdict = Verdict::Warn;
    let result = evaluate(&warn, &policy).unwrap();
    assert_eq!(result.verdict, Verdict::Warn);
    assert_eq!(result.reasons, vec!["Report has WARN verdict (score: 20)".to_string()]);

    let mut fail = sample_report(41, 3);
    fail.verdict = Verdict::Fail;
    let result = evaluate(&fail, &policy).unwrap();
    assert_eq!(result.verdict, Verdict::Fail);
    assert_eq!(
        result.reasons,
        vec![
            "risk score 41 exceeds maximum allowed 40".to_string(),
            "analyzer verdict is FAIL".to_string(),
        ]
    );
}

#[test]
fn evaluate_boundaries_pass() {
    let policy = default_policy();
    let result = evaluate(&sample_report(40, 3), &policy).unwrap();
    assert_eq!(result.verdict, Verdict::Pass);
    assert!(result.reasons.is_empty());
}

#[test]
fn evaluate_reports_bad_policy_duration() {
    let policy = PolicyConfig {
        min_release_age: "3 days".into(),
        max_score: 40,
        require_report: true,
    };
    let err = evaluate(&sample_report(0, 100), &policy).unwrap_err();
    assert_eq!(inline_reason(err), "invalid duration number in '3 days'");
    let policy = PolicyConfig {
        min_release_age: "3m".into(),
        max_score: 40,
        require_report: true,
    };
    let err = evaluate(&sample_report(0, 100), &policy).unwrap_err();
    assert_eq!(inline_reason(err), "unknown duration suffix 'm' in '3m'");
}

#[test]
fn evaluate_weeks_policy() {
    let policy = PolicyConfig {
        min_release_age: "1w".into(),
        max_score: 100,
        require_report: false,
    };
    assert_eq!(evaluate(&sample_report(0, 7), &policy).unwrap().verdict, Verdict::Pass);
    assert_eq!(evaluate(&sample_report(0, 6), &policy).unwrap().verdict, Verdict::Fail);
}
