//! Analysis reports and dependency manifests as produced by the analysis
//! workflow.  Timestamps are kept as the RFC 3339 text they are written in.
use vstd::prelude::*;

verus! {

/// Verdict produced by the analysis workflow for a single crate release.
#[derive(Debug, Clone, Copy, PartialEq, Eq, Structural)]
pub enum Verdict {
    Pass,
    Warn,
    Fail,
}

/// A single rule that fired during analysis.
#[derive(Debug)]
pub struct TriggeredRule {
    pub id: String,
    pub tier: u32,
    pub points: u32,
    pub detail: String,
}

/// Diff-level delta between the analyzed version and recent prior versions.
#[derive(Debug)]
pub struct Delta {
    pub compared_versions: Vec<String>,
    pub lines_added: u64,
    pub lines_removed: u64,
    pub new_files: Vec<String>,
    pub build_rs_changed: bool,
    pub deps_added: Vec<String>,
    pub deps_removed: Vec<String>,
}

/// Upstream metadata about the crate.
#[derive(Debug)]
pub struct CrateMetadata {
    pub owners: Vec<String>,
    pub repository: Option<String>,
    pub downloads: u64,
}

/// Full analysis report for a single crate version.
///
/// Produced by the GitHub Actions workflow and consumed locally by the policy
/// engine.
#[derive(Debug)]
pub struct Report {
    pub crate_name: String,
    pub version: String,
    /// RFC 3339 publication time, when known.
    pub published_at: Option<String>,
    /// RFC 3339 analysis time.
    pub analyzed_at: String,
    pub release_age_days: u64,
    pub score: u32,
    pub verdict: Verdict,
    pub triggered_rules: Vec<TriggeredRule>,
    pub rules_executed: Vec<String>,
    pub delta: Delta,
    pub metadata: CrateMetadata,
}

/// A single dependency entry inside a manifest.
#[derive(Debug)]
pub struct ManifestDependency {
    pub name: String,
    pub version: String,
}

/// Manifest produced per workflow run — lists the requested crate and all of
/// its transitive dependencies that were analyzed.
#[derive(Debug)]
pub struct Manifest {
    pub requested_crate: String,
    pub requested_version: String,
    /// RFC 3339 analysis time.
    pub analyzed_at: String,
    pub dependencies: Vec<ManifestDependency>,
}

} // verus!
