//! The policy engine: durations and the evaluation of a report.
use vstd::prelude::*;

use crate::config::PolicyConfig;
use crate::error::{config_parse, config_parse_view, strings_view, ErrorView, Result};
use crate::reports::{Report, Verdict};
use crate::text::{
    all_digits, cat2, cat3, cat4, cat5, chars_of, contains, contains_seq, decimal, occurs_at,
    decimal_string, digit_char, digit_value, digits_value, is_ascii_digit, is_unicode_whitespace,
    parse_u64, parse_u64_spec, string_of, trim, trim_end, trim_start, trimmed, unsigned_digits,
};

verus! {

/// The outcome of evaluating a single report against a policy.
#[derive(Debug)]
pub struct PolicyResult {
    pub verdict: Verdict,
    pub reasons: Vec<String>,
}

// ---------------------------------------------------------------------------
// Durations
// ---------------------------------------------------------------------------

/// `v * 7`, or `u64::MAX` when that does not fit.
pub open spec fn saturating_times_seven(v: u64) -> u64 {
    if v * 7 > u64::MAX {
        u64::MAX
    } else {
        (v * 7) as u64
    }
}

/// The number of whole days `s` stands for, or why it stands for none.
pub open spec fn duration_days(s: Seq<char>) -> std::result::Result<u64, Seq<char>> {
    let t = trim(s);
    if t.len() == 0 {
        Err("empty duration string"@)
    } else {
        match parse_u64_spec(t.drop_last()) {
            None => Err("invalid duration number in '"@ + t + "'"@),
            Some(v) => if t.last() == 'd' {
                Ok(v)
            } else if t.last() == 'w' {
                Ok(saturating_times_seven(v))
            } else if t.last() == 'h' {
                Ok(v / 24)
            } else {
                Err("unknown duration suffix '"@ + seq![t.last()] + "' in '"@ + t + "'"@)
            },
        }
    }
}

/// The view of the error `parse_duration` reports.
pub open spec fn duration_error(reason: Seq<char>) -> ErrorView {
    config_parse_view("<inline>"@, reason)
}

/// Parse a human-friendly duration string into whole days.
///
/// Supported suffixes:
/// - `d` — days   (e.g. "3d" → 3)
/// - `w` — weeks  (e.g. "1w" → 7)
/// - `h` — hours  (e.g. "12h" → 0, rounds down)
///
/// Returns an error for unrecognised suffixes or invalid numbers.
pub fn parse_duration(s: &str) -> (r: Result<u64>)
    ensures
        match duration_days(s@) {
            Ok(days) => r matches Ok(d) && d == days,
            Err(reason) => r matches Err(e) && e@ == duration_error(reason),
        },
{
    let t = trimmed(&chars_of(s));
    if t.len() == 0 {
        return Err(config_parse("<inline>", string_of_str("empty duration string")));
    }
    let text = string_of(&t);
    let last = t[t.len() - 1];
    let mut num: Vec<char> = Vec::new();
    let mut i: usize = 0;
    while i + 1 < t.len()
        invariant
            t@.len() > 0,
            i < t@.len(),
            num@ == t@.subrange(0, i as int),
        decreases t.len() - i,
    {
        num.push(t[i]);
        i = i + 1;
    }
    assert(num@ =~= t@.drop_last());
    match parse_u64(&num) {
        None => Err(
            config_parse("<inline>", cat3("invalid duration number in '", text.as_str(), "'")),
        ),
        Some(v) => {
            if last == 'd' {
                Ok(v)
            } else if last == 'w' {
                match v.checked_mul(7) {
                    Some(w) => Ok(w),
                    None => Ok(u64::MAX),
                }
            } else if last == 'h' {
                Ok(v / 24)
            } else {
                let mut other: Vec<char> = Vec::new();
                other.push(last);
                let other = string_of(&other);
                Err(
                    config_parse(
                        "<inline>",
                        cat5(
                            "unknown duration suffix '",
                            other.as_str(),
                            "' in '",
                            text.as_str(),
                            "'",
                        ),
                    ),
                )
            }
        },
    }
}

fn string_of_str(s: &str) -> (r: String)
    ensures
        r@ == s@,
{
    s.to_owned()
}

// ---------------------------------------------------------------------------
// Evaluation
// ---------------------------------------------------------------------------

/// The reason recorded when the score is above the maximum.
pub open spec fn score_reason(score: u32, max: u32) -> Seq<char> {
    "risk score "@ + decimal(score as nat) + " exceeds maximum allowed "@ + decimal(max as nat)
}

/// The reason recorded when the release is younger than the minimum age.
pub open spec fn age_reason(age: u64, min: u64) -> Seq<char> {
    "release age "@ + decimal(age as nat) + " day(s) is below minimum "@ + decimal(min as nat)
        + " day(s)"@
}

/// The warning recorded for a report whose analyzer verdict is WARN.
pub open spec fn warn_reason(score: u32) -> Seq<char> {
    "Report has WARN verdict (score: "@ + decimal(score as nat) + ")"@
}

/// The marker that an analyzer FAIL has already been recorded.
pub open spec fn analyzer_marker() -> Seq<char> {
    "analyzer verdict"@
}

/// The failures measured from the score and the release age, in order.
pub open spec fn measured_reasons(score: u32, max: u32, age: u64, min: u64) -> Seq<Seq<char>> {
    let by_score = if score > max {
        seq![score_reason(score, max)]
    } else {
        Seq::empty()
    };
    if age < min {
        by_score.push(age_reason(age, min))
    } else {
        by_score
    }
}

/// Some reason in `rs` mentions the analyzer verdict.
pub open spec fn mentions_analyzer(rs: Seq<Seq<char>>) -> bool {
    exists|i: int| 0 <= i < rs.len() && contains_seq(#[trigger] rs[i], analyzer_marker())
}

/// The hard failures for a report, in the order they are found.
pub open spec fn hard_reasons(score: u32, max: u32, age: u64, min: u64, verdict: Verdict) -> Seq<
    Seq<char>,
> {
    let measured = measured_reasons(score, max, age, min);
    if verdict == Verdict::Fail && !mentions_analyzer(measured) {
        measured.push("analyzer verdict is FAIL"@)
    } else {
        measured
    }
}

/// The warnings for a report.
pub open spec fn warn_reasons(score: u32, verdict: Verdict) -> Seq<Seq<char>> {
    if verdict == Verdict::Warn {
        seq![warn_reason(score)]
    } else {
        Seq::empty()
    }
}

/// The verdict of the policy: FAIL on any hard failure, else WARN on any
/// warning, else PASS.
pub open spec fn policy_verdict(score: u32, max: u32, age: u64, min: u64, verdict: Verdict) -> Verdict {
    if hard_reasons(score, max, age, min, verdict).len() > 0 {
        Verdict::Fail
    } else if warn_reasons(score, verdict).len() > 0 {
        Verdict::Warn
    } else {
        Verdict::Pass
    }
}

/// Every reason the policy gives: the hard failures, then the warnings.
pub open spec fn policy_reasons(score: u32, max: u32, age: u64, min: u64, verdict: Verdict) -> Seq<
    Seq<char>,
> {
    hard_reasons(score, max, age, min, verdict) + warn_reasons(score, verdict)
}

/// Evaluate a report against the given policy, returning all triggered reasons.
pub fn evaluate(report: &Report, policy: &PolicyConfig) -> (r: Result<PolicyResult>)
    ensures
        match duration_days(policy.min_release_age@) {
            Ok(min) => r matches Ok(res) && res.verdict == policy_verdict(
                report.score,
                policy.max_score,
                report.release_age_days,
                min,
                report.verdict,
            ) && strings_view(res.reasons@) == policy_reasons(
                report.score,
                policy.max_score,
                report.release_age_days,
                min,
                report.verdict,
            ),
            Err(reason) => r matches Err(e) && e@ == duration_error(reason),
        },
{
    let mut reasons: Vec<String> = Vec::new();

    // --- score check ---
    if report.score > policy.max_score {
        let score = decimal_string(report.score as u64);
        let max = decimal_string(policy.max_score as u64);
        reasons.push(
            cat4("risk score ", score.as_str(), " exceeds maximum allowed ", max.as_str()),
        );
    }
    // --- release age check ---

    let min_age_days = match parse_duration(policy.min_release_age.as_str()) {
        Ok(d) => d,
        Err(e) => {
            return Err(e);
        },
    };
    if report.release_age_days < min_age_days {
        let age = decimal_string(report.release_age_days);
        let min = decimal_string(min_age_days);
        let head = cat4("release age ", age.as_str(), " day(s) is below minimum ", min.as_str());
        reasons.push(cat2(head.as_str(), " day(s)"));
    }
    let ghost measured = strings_view(reasons@);
    assert(measured =~= measured_reasons(
        report.score,
        policy.max_score,
        report.release_age_days,
        min_age_days,
    ));
    // Report verdict acts as a floor — if the analyzer said FAIL, we FAIL
    let mentioned = any_mentions_analyzer(&reasons);
    if report.verdict == Verdict::Fail && !mentioned {
        reasons.push(string_of_str("analyzer verdict is FAIL"));
        assert(strings_view(reasons@) =~= measured.push("analyzer verdict is FAIL"@));
    }
    let ghost hard = strings_view(reasons@);
    assert(hard =~= hard_reasons(
        report.score,
        policy.max_score,
        report.release_age_days,
        min_age_days,
        report.verdict,
    ));

    // Track warn-level signals separately
    let mut warnings: Vec<String> = Vec::new();
    if report.verdict == Verdict::Warn {
        let score = decimal_string(report.score as u64);
        warnings.push(cat3("Report has WARN verdict (score: ", score.as_str(), ")"));
    }
    assert(strings_view(warnings@) =~= warn_reasons(report.score, report.verdict));

    let has_hard_failures = reasons.len() != 0;

    let verdict = if has_hard_failures {
        Verdict::Fail
    } else if warnings.len() != 0 {
        Verdict::Warn
    } else {
        Verdict::Pass
    };

    // Merge warnings into reasons so callers can display them
    let ghost w = strings_view(warnings@);
    let ghost before = reasons@;
    reasons.append(&mut warnings);
    assert(strings_view(reasons@) =~= hard + w);
    Ok(PolicyResult { verdict, reasons })
}

// ---------------------------------------------------------------------------
// Laws
// ---------------------------------------------------------------------------

/// The analyzer's verdict is a floor: when the analyzer said FAIL, the
/// policy says FAIL, whatever the score and the age.
pub proof fn law_analyzer_fail_is_floor(score: u32, max: u32, age: u64, min: u64)
    ensures
        policy_verdict(score, max, age, min, Verdict::Fail) == Verdict::Fail,
{
    let m = measured_reasons(score, max, age, min);
    if mentions_analyzer(m) {
        let i = choose|i: int| 0 <= i < m.len() && contains_seq(#[trigger] m[i], analyzer_marker());
        assert(m.len() > 0);
    }
}

/// A report passes exactly when its score is within the maximum, its
/// release is at least the minimum age, and the analyzer said PASS.
pub proof fn law_pass_exactly_when_clean(score: u32, max: u32, age: u64, min: u64, verdict: Verdict)
    ensures
        (policy_verdict(score, max, age, min, verdict) == Verdict::Pass) <==> (score <= max && age
            >= min && verdict == Verdict::Pass),
{
    if verdict == Verdict::Fail {
        law_analyzer_fail_is_floor(score, max, age, min);
    }
    if score > max {
        assert(measured_reasons(score, max, age, min).len() > 0);
    }
    if age < min {
        assert(measured_reasons(score, max, age, min).len() > 0);
    }
}

/// Any hard failure (a score above the maximum, a release younger than the
/// minimum age, or an analyzer FAIL) makes the verdict FAIL, whatever else
/// the analyzer said, and nothing else does; the verdict is WARN exactly
/// when there is no hard failure and the analyzer said WARN.
pub proof fn law_hard_failure_decides(score: u32, max: u32, age: u64, min: u64, verdict: Verdict)
    ensures
        (policy_verdict(score, max, age, min, verdict) == Verdict::Fail) <==> (score > max || age
            < min || verdict == Verdict::Fail),
        (policy_verdict(score, max, age, min, verdict) == Verdict::Warn) <==> (score <= max && age
            >= min && verdict == Verdict::Warn),
{
    if verdict == Verdict::Fail {
        law_analyzer_fail_is_floor(score, max, age, min);
    }
    if score > max {
        assert(measured_reasons(score, max, age, min).len() > 0);
    }
    if age < min {
        assert(measured_reasons(score, max, age, min).len() > 0);
    }
    if score <= max && age >= min {
        assert(measured_reasons(score, max, age, min).len() == 0);
    }
}

/// The policy gives reasons exactly when its verdict is not PASS.
pub proof fn law_reasons_iff_not_pass(score: u32, max: u32, age: u64, min: u64, verdict: Verdict)
    ensures
        (policy_reasons(score, max, age, min, verdict).len() == 0) <==> (policy_verdict(
            score,
            max,
            age,
            min,
            verdict,
        ) == Verdict::Pass),
{
}

/// `s` holds no `z`.
spec fn no_z(s: Seq<char>) -> bool {
    forall|i: int| 0 <= i < s.len() ==> s[i] != 'z'
}

proof fn lemma_no_z_concat(a: Seq<char>, b: Seq<char>)
    requires
        no_z(a),
        no_z(b),
    ensures
        no_z(a + b),
{
    assert forall|i: int| 0 <= i < (a + b).len() implies (a + b)[i] != 'z' by {
        if i < a.len() {
            assert((a + b)[i] == a[i]);
        } else {
            assert((a + b)[i] == b[i - a.len()]);
        }
    }
}

proof fn lemma_decimal_no_z(n: nat)
    ensures
        no_z(decimal(n)),
{
    lemma_decimal_reads_back(n);
    assert forall|i: int| 0 <= i < decimal(n).len() implies decimal(n)[i] != 'z' by {
        assert(is_ascii_digit(decimal(n)[i]));
    }
}

/// A text without a `z` cannot mention the analyzer verdict.
proof fn lemma_no_analyzer_mention(s: Seq<char>)
    requires
        no_z(s),
    ensures
        !contains_seq(s, analyzer_marker()),
{
    reveal_strlit("analyzer verdict");
    let m = analyzer_marker();
    assert(m.len() == 16 && m[5] == 'z');
    if contains_seq(s, m) {
        let i = choose|i: int| occurs_at(s, m, i);
        assert(s.subrange(i, i + 16)[5] == s[i + 5]);
    }
}

/// The measured reasons never mention the analyzer verdict.
proof fn lemma_measured_reasons_plain(score: u32, max: u32, age: u64, min: u64)
    ensures
        !mentions_analyzer(measured_reasons(score, max, age, min)),
{
    reveal_strlit("risk score ");
    reveal_strlit(" exceeds maximum allowed ");
    reveal_strlit("release age ");
    reveal_strlit(" day(s) is below minimum ");
    reveal_strlit(" day(s)");
    assert(no_z("risk score "@));
    assert(no_z(" exceeds maximum allowed "@));
    assert(no_z("release age "@));
    assert(no_z(" day(s) is below minimum "@));
    assert(no_z(" day(s)"@));
    lemma_decimal_no_z(score as nat);
    lemma_decimal_no_z(max as nat);
    lemma_decimal_no_z(age as nat);
    lemma_decimal_no_z(min as nat);
    lemma_no_z_concat("risk score "@, decimal(score as nat));
    lemma_no_z_concat("risk score "@ + decimal(score as nat), " exceeds maximum allowed "@);
    lemma_no_z_concat(
        "risk score "@ + decimal(score as nat) + " exceeds maximum allowed "@,
        decimal(max as nat),
    );
    lemma_no_z_concat("release age "@, decimal(age as nat));
    lemma_no_z_concat("release age "@ + decimal(age as nat), " day(s) is below minimum "@);
    lemma_no_z_concat(
        "release age "@ + decimal(age as nat) + " day(s) is below minimum "@,
        decimal(min as nat),
    );
    lemma_no_z_concat(
        "release age "@ + decimal(age as nat) + " day(s) is below minimum "@ + decimal(
            min as nat,
        ),
        " day(s)"@,
    );
    lemma_no_analyzer_mention(score_reason(score, max));
    lemma_no_analyzer_mention(age_reason(age, min));
    let m = measured_reasons(score, max, age, min);
    if mentions_analyzer(m) {
        let i = choose|i: int| 0 <= i < m.len() && contains_seq(#[trigger] m[i], analyzer_marker());
        if score > max && i == 0 {
            assert(m[i] == score_reason(score, max));
        } else {
            assert(m[i] == age_reason(age, min));
        }
    }
}

/// The reasons the policy gives, in order: the score above the maximum,
/// the release younger than the minimum age, the analyzer's FAIL, the
/// analyzer's WARN, each exactly when it applies.
pub proof fn law_reasons_in_order(score: u32, max: u32, age: u64, min: u64, verdict: Verdict)
    ensures
        policy_reasons(score, max, age, min, verdict) == (if score > max {
            seq![score_reason(score, max)]
        } else {
            Seq::empty()
        }) + (if age < min {
            seq![age_reason(age, min)]
        } else {
            Seq::empty()
        }) + (if verdict == Verdict::Fail {
            seq!["analyzer verdict is FAIL"@]
        } else {
            Seq::empty()
        }) + (if verdict == Verdict::Warn {
            seq![warn_reason(score)]
        } else {
            Seq::empty()
        }),
{
    lemma_measured_reasons_plain(score, max, age, min);
    let a: Seq<Seq<char>> = if score > max {
        seq![score_reason(score, max)]
    } else {
        Seq::empty()
    };
    let b: Seq<Seq<char>> = if age < min {
        seq![age_reason(age, min)]
    } else {
        Seq::empty()
    };
    assert(measured_reasons(score, max, age, min) =~= a + b);
    assert(policy_reasons(score, max, age, min, verdict) =~= a + b + (if verdict == Verdict::Fail {
        seq!["analyzer verdict is FAIL"@]
    } else {
        Seq::empty()
    }) + (if verdict == Verdict::Warn {
        seq![warn_reason(score)]
    } else {
        Seq::empty()
    }));
}

proof fn lemma_digit_roundtrip(d: nat)
    requires
        d < 10,
    ensures
        is_ascii_digit(digit_char(d)),
        digit_value(digit_char(d)) == d,
        !is_unicode_whitespace(digit_char(d)),
        digit_char(d) != '+',
{
}

proof fn lemma_decimal_reads_back(n: nat)
    ensures
        decimal(n).len() > 0,
        all_digits(decimal(n)),
        digits_value(decimal(n)) == n,
        is_ascii_digit(decimal(n)[0]),
    decreases n,
{
    if n < 10 {
        lemma_digit_roundtrip(n);
        assert(decimal(n).drop_last() =~= Seq::<char>::empty());
        assert(digits_value(Seq::<char>::empty()) == 0);
        assert(digits_value(decimal(n)) == digits_value(decimal(n).drop_last()) * 10
            + digit_value(decimal(n).last()));
    } else {
        lemma_decimal_reads_back(n / 10);
        lemma_digit_roundtrip(n % 10);
        let s = decimal(n / 10);
        assert(decimal(n).drop_last() =~= s);
        assert(decimal(n).last() == digit_char(n % 10));
        assert(digits_value(decimal(n)) == digits_value(s) * 10 + digit_value(digit_char(n % 10)));
        assert((n / 10) * 10 + n % 10 == n);
        assert(decimal(n)[0] == s[0]);
        assert forall|i: int| 0 <= i < decimal(n).len() implies is_ascii_digit(
            #[trigger] decimal(n)[i],
        ) by {
            if i < s.len() {
                assert(decimal(n)[i] == s[i]);
            }
        }
    }
}

proof fn lemma_suffixed_number(n: u64, unit: char)
    requires
        !is_unicode_whitespace(unit),
    ensures
        trim(decimal(n as nat).push(unit)) == decimal(n as nat).push(unit),
        decimal(n as nat).push(unit).drop_last() == decimal(n as nat),
        parse_u64_spec(decimal(n as nat)) == Some(n),
{
    lemma_decimal_reads_back(n as nat);
    let d = decimal(n as nat);
    let t = d.push(unit);
    assert(t[0] == d[0]);
    assert(!is_unicode_whitespace(t[0]));
    assert(trim_start(t) == t);
    assert(trim_end(t) == t);
    assert(t.drop_last() =~= d);
    assert(unsigned_digits(d) == d);
}

/// `Nd` stands for N days.
pub proof fn law_days(n: u64)
    ensures
        duration_days(decimal(n as nat).push('d')) == Ok::<u64, Seq<char>>(n),
{
    lemma_suffixed_number(n, 'd');
}

/// `Nw` stands for 7·N days, capped at the largest number of days.
pub proof fn law_weeks(n: u64)
    ensures
        duration_days(decimal(n as nat).push('w')) == Ok::<u64, Seq<char>>(
            saturating_times_seven(n),
        ),
{
    lemma_suffixed_number(n, 'w');
}

/// `Nh` stands for the whole days in N hours, rounding down.
pub proof fn law_hours(n: u64)
    ensures
        duration_days(decimal(n as nat).push('h')) == Ok::<u64, Seq<char>>(n / 24),
{
    lemma_suffixed_number(n, 'h');
}

/// Some reason mentions the analyzer verdict.
fn any_mentions_analyzer(reasons: &Vec<String>) -> (r: bool)
    ensures
        r == mentions_analyzer(strings_view(reasons@)),
{
    let marker = chars_of("analyzer verdict");
    let mut i: usize = 0;
    while i < reasons.len()
        invariant
            marker@ == analyzer_marker(),
            forall|j: int|
                0 <= j < i ==> !contains_seq(#[trigger] strings_view(reasons@)[j], analyzer_marker()),
        decreases reasons.len() - i,
    {
        let hay = chars_of(reasons[i].as_str());
        if contains(&hay, &marker) {
            assert(contains_seq(strings_view(reasons@)[i as int], analyzer_marker()));
            return true;
        }
        i = i + 1;
    }
    false
}

} // verus!
