//! Judging dependencies against the policy, and the tally of the verdicts
//! that `check` and `add` report.
use vstd::prelude::*;

use crate::config::{allowed, SafeCargoConfig};
use crate::error::{strings_view, Error, ErrorView, Result};
use crate::policy::{
    duration_days, duration_error, evaluate, policy_reasons, policy_verdict,
};
use crate::reports::{Report, Verdict};
use crate::text::{cat3, cat4, owned, same_text};

verus! {

/// How dependencies are named in messages: `name@version` for the packages
/// of `Cargo.lock`, `name vversion` for the dependencies of a manifest.
#[derive(Debug, Clone, Copy, PartialEq, Eq, Structural)]
pub enum LabelStyle {
    Lockfile,
    Manifest,
}

/// The label of a dependency; an allow-listed manifest dependency is marked.
pub open spec fn label_of(style: LabelStyle, name: Seq<char>, version: Seq<char>, allowed: bool) -> Seq<char> {
    match style {
        LabelStyle::Lockfile => name + "@"@ + version,
        LabelStyle::Manifest => if allowed {
            name + " v"@ + version + " (allowlisted)"@
        } else {
            name + " v"@ + version
        },
    }
}

/// Builds the label of a dependency.
pub fn label(style: LabelStyle, name: &str, version: &str, is_allowed: bool) -> (r: String)
    ensures
        r@ == label_of(style, name@, version@, is_allowed),
{
    match style {
        LabelStyle::Lockfile => cat3(name, "@", version),
        LabelStyle::Manifest => if is_allowed {
            cat4(name, " v", version, " (allowlisted)")
        } else {
            cat3(name, " v", version)
        },
    }
}

/// What is known of a dependency once its report (if needed) is at hand.
pub enum Judgement {
    /// Allow-listed: no report is consulted.
    Allowed,
    /// Judged by the policy, with its verdict and reasons.
    Judged(Verdict, Seq<Seq<char>>),
    /// No report exists yet, and the policy requires one.
    Missing,
    /// No report exists, and the policy does not require one.
    Unreported,
}

/// The judgement of a dependency with the given report, or the error that
/// stops the run: a report about another crate or version is tampering,
/// and a policy whose minimum age cannot be read is a configuration error.
/// A dependency without a report is missing when the policy requires a
/// report (`require_report`), and passes otherwise.
pub open spec fn judgement_of(
    config: SafeCargoConfig,
    name: Seq<char>,
    version: Seq<char>,
    report: Option<Report>,
) -> std::result::Result<Judgement, ErrorView> {
    if allowed(config.allow@, name, version) {
        Ok(Judgement::Allowed)
    } else {
        match report {
            None => if config.policy.require_report {
                Ok(Judgement::Missing)
            } else {
                Ok(Judgement::Unreported)
            },
            Some(r) => if r.crate_name@ != name || r.version@ != version {
                Err(ErrorView::ReportIntegrityFailure(name, version))
            } else {
                match duration_days(config.policy.min_release_age@) {
                    Err(reason) => Err(duration_error(reason)),
                    Ok(min) => Ok(
                        Judgement::Judged(
                            policy_verdict(
                                r.score,
                                config.policy.max_score,
                                r.release_age_days,
                                min,
                                r.verdict,
                            ),
                            policy_reasons(
                                r.score,
                                config.policy.max_score,
                                r.release_age_days,
                                min,
                                r.verdict,
                            ),
                        ),
                    ),
                }
            },
        }
    }
}

/// The dependency may be used.
pub open spec fn clears(j: Judgement) -> bool {
    j is Allowed || j is Unreported || j matches Judgement::Judged(Verdict::Pass, _)
}

/// The labels of the passed dependencies, the failed ones with their
/// reasons, and the missing ones.
pub struct TallyView {
    pub passed: Seq<Seq<char>>,
    pub failed: Seq<(Seq<char>, Seq<Seq<char>>)>,
    pub missing: Seq<Seq<char>>,
}

/// The tally after one more dependency, labelled `l`.
pub open spec fn tally_step(t: TallyView, l: Seq<char>, j: Judgement) -> TallyView {
    match j {
        Judgement::Allowed => TallyView { passed: t.passed.push(l), failed: t.failed, missing: t.missing },
        Judgement::Judged(v, reasons) => if v == Verdict::Pass {
            TallyView { passed: t.passed.push(l), failed: t.failed, missing: t.missing }
        } else {
            TallyView { passed: t.passed, failed: t.failed.push((l, reasons)), missing: t.missing }
        },
        Judgement::Missing => TallyView { passed: t.passed, failed: t.failed, missing: t.missing.push(l) },
        Judgement::Unreported => TallyView { passed: t.passed.push(l), failed: t.failed, missing: t.missing },
    }
}

/// The tally of a run over labelled judgements, from an empty tally.
pub open spec fn tally_of(items: Seq<(Seq<char>, Judgement)>) -> TallyView
    decreases items.len(),
{
    if items.len() == 0 {
        TallyView { passed: Seq::empty(), failed: Seq::empty(), missing: Seq::empty() }
    } else {
        tally_step(tally_of(items.drop_last()), items.last().0, items.last().1)
    }
}

/// The tally is clean: nothing failed and nothing is missing.
pub open spec fn clean(t: TallyView) -> bool {
    t.failed.len() == 0 && t.missing.len() == 0
}

/// The labels of the dependencies that block a check: the failed ones,
/// then the missing ones.
pub open spec fn problem_crates(t: TallyView) -> Seq<Seq<char>> {
    t.failed.map_values(|f: (Seq<char>, Seq<Seq<char>>)| f.0) + t.missing
}

/// The verdicts collected so far.
pub struct DependencyTally {
    passed: Vec<String>,
    failed: Vec<(String, Vec<String>)>,
    missing: Vec<String>,
}

/// The label and the reasons of a failed dependency.
pub open spec fn failure_view(f: (String, Vec<String>)) -> (Seq<char>, Seq<Seq<char>>) {
    (f.0@, strings_view(f.1@))
}

impl View for DependencyTally {
    type V = TallyView;

    closed spec fn view(&self) -> TallyView {
        TallyView {
            passed: strings_view(self.passed@),
            failed: self.failed@.map_values(|f: (String, Vec<String>)| failure_view(f)),
            missing: strings_view(self.missing@),
        }
    }
}

/// The result of recording one dependency, for display.
#[derive(Debug, PartialEq, Eq)]
pub enum DependencyOutcome {
    Allowed,
    Passed { score: u32 },
    Warned { score: u32 },
    Failed { score: u32 },
    Missing,
    Unreported,
}

impl DependencyTally {
    /// An empty tally.
    pub fn new() -> (t: DependencyTally)
        ensures
            t@ == tally_of(Seq::empty()),
    {
        let t = DependencyTally { passed: Vec::new(), failed: Vec::new(), missing: Vec::new() };
        assert(t@.passed =~= Seq::<Seq<char>>::empty());
        assert(t@.failed =~= Seq::<(Seq<char>, Seq<Seq<char>>)>::empty());
        assert(t@.missing =~= Seq::<Seq<char>>::empty());
        t
    }

    /// The labels of the dependencies that passed.
    pub fn passed(&self) -> (r: &Vec<String>)
        ensures
            strings_view(r@) == self@.passed,
    {
        &self.passed
    }

    /// The dependencies that failed, with their reasons.
    pub fn failed(&self) -> (r: &Vec<(String, Vec<String>)>)
        ensures
            r@.map_values(|f: (String, Vec<String>)| failure_view(f)) == self@.failed,
    {
        &self.failed
    }

    /// The labels of the dependencies that have no report.
    pub fn missing(&self) -> (r: &Vec<String>)
        ensures
            strings_view(r@) == self@.missing,
    {
        &self.missing
    }

    /// Records one dependency.  `report` is the dependency's report when one
    /// was obtained; it is not looked at for an allow-listed dependency, for
    /// which the caller need not obtain one.
    pub fn record(
        &mut self,
        style: LabelStyle,
        config: &SafeCargoConfig,
        name: &str,
        version: &str,
        report: Option<&Report>,
    ) -> (r: Result<DependencyOutcome>)
        ensures
            match judgement_of(
                *config,
                name@,
                version@,
                match report {
                    Some(rep) => Some(*rep),
                    None => None,
                },
            ) {
                Err(ev) => r matches Err(e) && e@ == ev && final(self)@ == old(self)@,
                Ok(j) => r is Ok && final(self)@ == tally_step(
                    old(self)@,
                    label_of(style, name@, version@, j is Allowed),
                    j,
                ),
            },
    {
        if config.is_allowed(name, version) {
            let l = label(style, name, version, true);
            self.passed.push(l);
            assert(strings_view(self.passed@) =~= old(self)@.passed.push(l@));
            return Ok(DependencyOutcome::Allowed);
        }
        let report = match report {
            None => {
                let l = label(style, name, version, false);
                if config.policy.require_report {
                    self.missing.push(l);
                    assert(strings_view(self.missing@) =~= old(self)@.missing.push(l@));
                    return Ok(DependencyOutcome::Missing);
                } else {
                    self.passed.push(l);
                    assert(strings_view(self.passed@) =~= old(self)@.passed.push(l@));
                    return Ok(DependencyOutcome::Unreported);
                }
            },
            Some(rep) => rep,
        };
        if !same_text(report.crate_name.as_str(), name) || !same_text(report.version.as_str(), version) {
            return Err(Error::ReportIntegrityFailure(owned(name), owned(version)));
        }
        let result = match evaluate(report, &config.policy) {
            Ok(res) => res,
            Err(e) => {
                return Err(e);
            },
        };
        let l = label(style, name, version, false);
        let score = report.score;
        match result.verdict {
            Verdict::Pass => {
                self.passed.push(l);
                assert(strings_view(self.passed@) =~= old(self)@.passed.push(l@));
                Ok(DependencyOutcome::Passed { score })
            },
            Verdict::Warn => {
                let ghost entry = (l, result.reasons);
                self.failed.push((l, result.reasons));
                assert(self@.failed =~= old(self)@.failed.push(failure_view(entry)));
                Ok(DependencyOutcome::Warned { score })
            },
            Verdict::Fail => {
                let ghost entry = (l, result.reasons);
                self.failed.push((l, result.reasons));
                assert(self@.failed =~= old(self)@.failed.push(failure_view(entry)));
                Ok(DependencyOutcome::Failed { score })
            },
        }
    }

    /// What `check` reports once every package is recorded: success when
    /// nothing failed and nothing is missing, else the labels of the failed
    /// packages, then of the missing ones.
    pub fn check_outcome(&self) -> (r: Result<()>)
        ensures
            clean(self@) ==> r is Ok,
            !clean(self@) ==> (r matches Err(e) && e@ == ErrorView::UnanalyzedDeps {
                crates: problem_crates(self@),
            }),
    {
        if self.failed.len() == 0 && self.missing.len() == 0 {
            return Ok(());
        }
        let mut crates: Vec<String> = Vec::new();
        let mut i: usize = 0;
        while i < self.failed.len()
            invariant
                i <= self.failed@.len(),
                strings_view(crates@) == self@.failed.subrange(0, i as int).map_values(
                    |f: (Seq<char>, Seq<Seq<char>>)| f.0,
                ),
            decreases self.failed.len() - i,
        {
            let ghost before = crates@;
            crates.push(self.failed[i].0.clone());
            assert(self@.failed[i as int].0 == self.failed@[i as int].0@);
            assert(self@.failed.subrange(0, i + 1).map_values(
                |f: (Seq<char>, Seq<Seq<char>>)| f.0,
            ) =~= self@.failed.subrange(0, i as int).map_values(
                |f: (Seq<char>, Seq<Seq<char>>)| f.0,
            ).push(self@.failed[i as int].0));
            assert(strings_view(crates@) =~= strings_view(before).push(self.failed@[i as int].0@));
            assert(strings_view(crates@) =~= self@.failed.subrange(0, i + 1).map_values(
                |f: (Seq<char>, Seq<Seq<char>>)| f.0,
            ));
            i = i + 1;
        }
        assert(self@.failed.subrange(0, self@.failed.len() as int) =~= self@.failed);
        let ghost failed_labels = strings_view(crates@);
        let mut j: usize = 0;
        while j < self.missing.len()
            invariant
                j <= self.missing@.len(),
                strings_view(crates@) == failed_labels + self@.missing.subrange(0, j as int),
            decreases self.missing.len() - j,
        {
            let ghost before = crates@;
            crates.push(self.missing[j].clone());
            assert(self@.missing[j as int] == self.missing@[j as int]@);
            assert(strings_view(crates@) =~= strings_view(before).push(self.missing@[j as int]@));
            assert(strings_view(crates@) =~= failed_labels + self@.missing.subrange(0, j + 1));
            j = j + 1;
        }
        assert(self@.missing.subrange(0, self@.missing.len() as int) =~= self@.missing);
        assert(strings_view(crates@) =~= problem_crates(self@));
        Err(Error::UnanalyzedDeps { crates })
    }
}

/// A run over dependencies ends clean exactly when every dependency was
/// allow-listed or judged PASS: a single WARN, FAIL or missing report is
/// enough to block it.
pub proof fn law_clean_iff_all_clear(items: Seq<(Seq<char>, Judgement)>)
    ensures
        clean(tally_of(items)) <==> forall|i: int| 0 <= i < items.len() ==> clears(#[trigger] items[i].1),
    decreases items.len(),
{
    if items.len() > 0 {
        law_clean_iff_all_clear(items.drop_last());
        let last = items.last();
        assert forall|i: int| 0 <= i < items.drop_last().len() implies #[trigger] items.drop_last()[i]
            == items[i] by {}
        if forall|i: int| 0 <= i < items.len() ==> clears(#[trigger] items[i].1) {
            assert(clears(items[items.len() - 1].1));
            assert forall|i: int| 0 <= i < items.drop_last().len() implies clears(
                #[trigger] items.drop_last()[i].1,
            ) by {
                assert(items.drop_last()[i] == items[i]);
            }
        }
        if clean(tally_of(items)) {
            assert forall|i: int| 0 <= i < items.len() implies clears(#[trigger] items[i].1) by {
                if i < items.len() - 1 {
                    assert(items.drop_last()[i] == items[i]);
                }
            }
        }
    }
}

/// A dependency counts as passed only when it is allow-listed, or has no
/// report while the policy does not require one, or its report matches it
/// and the policy gives PASS.
pub proof fn law_passed_only_when_clear(
    t: TallyView,
    style: LabelStyle,
    config: SafeCargoConfig,
    name: Seq<char>,
    version: Seq<char>,
    report: Option<Report>,
)
    requires
        judgement_of(config, name, version, report) is Ok,
        tally_step(
            t,
            label_of(style, name, version, judgement_of(config, name, version, report)->Ok_0 is Allowed),
            judgement_of(config, name, version, report)->Ok_0,
        ).passed.len() > t.passed.len(),
    ensures
        allowed(config.allow@, name, version) || (report is None && !config.policy.require_report)
            || (report matches Some(r) && r.crate_name@ == name && r.version@ == version && clears(
            judgement_of(config, name, version, report)->Ok_0,
        )),
{
}

/// An allow-listed dependency clears whatever its report says, or without
/// one: the allow-list bypasses analysis.
pub proof fn law_allowed_bypasses_analysis(
    config: SafeCargoConfig,
    name: Seq<char>,
    version: Seq<char>,
    report: Option<Report>,
)
    requires
        allowed(config.allow@, name, version),
    ensures
        judgement_of(config, name, version, report) == Ok::<Judgement, ErrorView>(
            Judgement::Allowed,
        ),
        clears(judgement_of(config, name, version, report)->Ok_0),
{
}

/// A report about another crate or another version of a dependency that
/// is not allow-listed stops the run as tampering, whatever it says.
pub proof fn law_mismatched_report_is_tampering(
    config: SafeCargoConfig,
    name: Seq<char>,
    version: Seq<char>,
    report: Report,
)
    requires
        !allowed(config.allow@, name, version),
        report.crate_name@ != name || report.version@ != version,
    ensures
        judgement_of(config, name, version, Some(report)) == Err::<Judgement, ErrorView>(
            ErrorView::ReportIntegrityFailure(name, version),
        ),
{
}

/// The labels of the items judged other than PASS, in order.
pub open spec fn failed_labels(items: Seq<(Seq<char>, Judgement)>) -> Seq<Seq<char>>
    decreases items.len(),
{
    if items.len() == 0 {
        Seq::empty()
    } else {
        let rest = failed_labels(items.drop_last());
        match items.last().1 {
            Judgement::Judged(v, _) => if v != Verdict::Pass {
                rest.push(items.last().0)
            } else {
                rest
            },
            _ => rest,
        }
    }
}

/// The labels of the items missing a required report, in order.
pub open spec fn missing_labels(items: Seq<(Seq<char>, Judgement)>) -> Seq<Seq<char>>
    decreases items.len(),
{
    if items.len() == 0 {
        Seq::empty()
    } else {
        let rest = missing_labels(items.drop_last());
        if items.last().1 is Missing {
            rest.push(items.last().0)
        } else {
            rest
        }
    }
}

proof fn lemma_failed_labels(items: Seq<(Seq<char>, Judgement)>)
    ensures
        tally_of(items).failed.len() == failed_labels(items).len(),
        forall|k: int|
            0 <= k < failed_labels(items).len() ==> #[trigger] tally_of(items).failed[k].0
                == failed_labels(items)[k],
        tally_of(items).missing == missing_labels(items),
    decreases items.len(),
{
    if items.len() > 0 {
        lemma_failed_labels(items.drop_last());
    }
}

/// Over a whole run, the crates a check reports as blocking are the
/// dependencies judged WARN or FAIL, in order, then those missing a
/// required report, in order.
pub proof fn law_blocking_crates_in_order(items: Seq<(Seq<char>, Judgement)>)
    ensures
        problem_crates(tally_of(items)) == failed_labels(items) + missing_labels(items),
{
    lemma_failed_labels(items);
    let t = tally_of(items);
    let labels = t.failed.map_values(|f: (Seq<char>, Seq<Seq<char>>)| f.0);
    assert(labels =~= failed_labels(items)) by {
        assert forall|k: int| 0 <= k < labels.len() implies labels[k] == failed_labels(items)[k] by {
            assert(t.failed[k].0 == failed_labels(items)[k]);
        }
    }
}

} // verus!
