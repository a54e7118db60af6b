//! The decision of `status`: how each package's cached report is shown.
use vstd::prelude::*;

use crate::reports::{Report, Verdict};
use crate::text::same_text;

verus! {

/// How a package is shown.
#[derive(Debug, PartialEq, Eq)]
pub enum PackageStatus {
    /// The cached report is about another crate or version: counted as
    /// missing.
    IntegrityMismatch,
    /// A cached report with this verdict and score: counted as analyzed.
    Analyzed(Verdict, u32),
    /// No cached report: counted as missing.
    Missing,
}

/// The status of the package `name` at `version` given its cached report.
pub fn package_status(name: &str, version: &str, report: Option<&Report>) -> (s: PackageStatus)
    ensures
        match report {
            None => s == PackageStatus::Missing,
            Some(r) => if r.crate_name@ != name@ || r.version@ != version@ {
                s == PackageStatus::IntegrityMismatch
            } else {
                s == PackageStatus::Analyzed(r.verdict, r.score)
            },
        },
{
    match report {
        None => PackageStatus::Missing,
        Some(r) => {
            if !same_text(r.crate_name.as_str(), name) || !same_text(r.version.as_str(), version) {
                PackageStatus::IntegrityMismatch
            } else {
                PackageStatus::Analyzed(r.verdict, r.score)
            }
        },
    }
}

} // verus!
