//! The decisions of `add`: which dependencies a manifest may bring in, and
//! whether the crate is added.
use vstd::prelude::*;

use crate::commands::check::{clears, tally_of, DependencyTally, Judgement, TallyView};
use crate::config::SafeCargoConfig;
use crate::error::Result;
use crate::github::request_problem;
use crate::reports::Manifest;
use crate::text::{cat3, owned, same_text};
use crate::validate::{crate_name, version};

verus! {

/// Checks that a dependency named in a manifest has a valid crate name and
/// a valid version before anything is fetched for it.
pub fn validate_dependency(name: &str, ver: &str) -> (r: Result<()>)
    ensures
        match request_problem(name@, ver@) {
            Some(v) => r matches Err(e) && e@ == v,
            None => r is Ok,
        },
{
    match crate_name(name) {
        Err(e) => Err(e),
        Ok(()) => version(ver),
    }
}

/// The manifest was made for exactly the crate and version requested.
pub fn manifest_matches(manifest: &Manifest, name: &str, ver: &str) -> (r: bool)
    ensures
        r == (manifest.requested_crate@ == name@ && manifest.requested_version@ == ver@),
{
    same_text(manifest.requested_crate.as_str(), name) && same_text(
        manifest.requested_version.as_str(),
        ver,
    )
}

/// What `add` does once every dependency of the manifest is recorded.
#[derive(Debug, PartialEq, Eq)]
pub enum AddDecision {
    /// Some dependency has no report yet: analysis is requested and the
    /// crate is not added.
    AwaitAnalysis,
    /// Some dependency fails the policy: the crate is not added.
    Block,
    /// Everything passed: the crate is added.
    Install,
}

/// The decision for a tally.
pub open spec fn add_decision(t: TallyView) -> AddDecision {
    if t.missing.len() > 0 {
        AddDecision::AwaitAnalysis
    } else if t.failed.len() > 0 {
        AddDecision::Block
    } else {
        AddDecision::Install
    }
}

/// Decides what `add` does with the recorded dependencies.
pub fn decide(tally: &DependencyTally) -> (d: AddDecision)
    ensures
        d == add_decision(tally@),
{
    if tally.missing().len() > 0 {
        AddDecision::AwaitAnalysis
    } else if tally.failed().len() > 0 {
        AddDecision::Block
    } else {
        AddDecision::Install
    }
}

/// The argument handed to `cargo add`: `name@version`.
pub fn cargo_add_argument(name: &str, ver: &str) -> (r: String)
    ensures
        r@ == name@ + "@"@ + ver@,
{
    cat3(name, "@", ver)
}

/// A crate is added exactly when every dependency of its manifest was
/// allow-listed or judged PASS.
pub proof fn law_install_iff_all_clear(items: Seq<(Seq<char>, Judgement)>)
    ensures
        (add_decision(tally_of(items)) == AddDecision::Install) <==> forall|i: int|
            0 <= i < items.len() ==> clears(#[trigger] items[i].1),
{
    crate::commands::check::law_clean_iff_all_clear(items);
}

/// The repository named in the hint printed when no analysis exists yet:
/// that of the configuration when it could be loaded again, else a
/// placeholder.
pub fn github_repo_from_client(loaded: Option<&SafeCargoConfig>) -> (r: String)
    ensures
        match loaded {
            Some(c) => r@ == c.registry.repo@,
            None => r@ == "<your-repo>"@,
        },
{
    match loaded {
        Some(c) => c.registry.repo.clone(),
        None => owned("<your-repo>"),
    }
}

} // verus!
