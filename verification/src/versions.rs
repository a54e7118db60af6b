//! Semantic versions and version requirements, backed by the `semver` crate.
//!
//! A [`SemVersion`] holds the parts of a parsed `semver::Version` as plain
//! values next to the parsed value itself; a [`SemVersionReq`] holds the
//! text of a requirement next to the parsed `semver::VersionReq`.  Both
//! types have private fields and are built only by the functions of this
//! module, each of which fills the plain fields from the very value it
//! stores, so the plain view always describes the stored value.
use vstd::prelude::*;

use crate::text::{decimal, decimal_string};

verus! {

#[verifier::external_type_specification]
#[verifier::external_body]
pub struct ExSemverVersion(::semver::Version);

#[verifier::external_type_specification]
#[verifier::external_body]
pub struct ExSemverVersionReq(::semver::VersionReq);

/// Major, minor and patch numbers, pre-release and build metadata.
pub type VersionParts = (u64, u64, u64, Seq<char>, Seq<char>);

/// What `semver::Version::parse` returns for the text: the parts of the
/// version, or the message (`Display`) of the error.
pub uninterp spec fn semver_version_parse(text: Seq<char>) -> Result<VersionParts, Seq<char>>;

/// What `semver::VersionReq::parse` returns for the text: success, or the
/// message (`Display`) of the error.
pub uninterp spec fn semver_req_parse(text: Seq<char>) -> Result<(), Seq<char>>;

/// Whether the requirement parsed from `req` matches the version with
/// these parts (`semver::VersionReq::matches`).
pub uninterp spec fn semver_req_matches(req: Seq<char>, version: VersionParts) -> bool;

/// Whether the version with parts `a` orders after the one with parts `b`
/// (`>` on `semver::Version`).
pub uninterp spec fn semver_version_greater(a: VersionParts, b: VersionParts) -> bool;

/// A parsed semantic version.
pub struct SemVersion {
    major: u64,
    minor: u64,
    patch: u64,
    pre: String,
    build: String,
    raw: ::semver::Version,
}

impl View for SemVersion {
    type V = VersionParts;

    closed spec fn view(&self) -> VersionParts {
        (self.major, self.minor, self.patch, self.pre@, self.build@)
    }
}

/// A parsed version requirement, viewed as the text it was parsed from.
pub struct SemVersionReq {
    text: String,
    raw: ::semver::VersionReq,
}

impl View for SemVersionReq {
    type V = Seq<char>;

    closed spec fn view(&self) -> Seq<char> {
        self.text@
    }
}

/// Parses `text` with `semver::Version::parse`; the error becomes its
/// message.  The contract says that the result is what the parse gives.
#[verifier::external_body]
fn semver_parse_version(text: &str) -> (r: Result<SemVersion, String>)
    ensures
        match r {
            Ok(v) => semver_version_parse(text@) == Ok::<VersionParts, Seq<char>>(v@),
            Err(m) => semver_version_parse(text@) == Err::<VersionParts, Seq<char>>(m@),
        },
{
    match ::semver::Version::parse(text) {
        Ok(v) => Ok(SemVersion {
            major: v.major,
            minor: v.minor,
            patch: v.patch,
            pre: v.pre.as_str().to_string(),
            build: v.build.as_str().to_string(),
            raw: v,
        }),
        Err(e) => Err(e.to_string()),
    }
}

/// Builds a version with `semver::Version::new`, which leaves the
/// pre-release and the build metadata empty.
#[verifier::external_body]
fn semver_new_version(major: u64, minor: u64, patch: u64) -> (v: SemVersion)
    ensures
        v@ == (major, minor, patch, Seq::<char>::empty(), Seq::<char>::empty()),
{
    SemVersion {
        major,
        minor,
        patch,
        pre: String::new(),
        build: String::new(),
        raw: ::semver::Version::new(major, minor, patch),
    }
}

/// Parses `text` with `semver::VersionReq::parse`; the error becomes its
/// message.  The contract says that the result is what the parse gives.
#[verifier::external_body]
fn semver_parse_req(text: &str) -> (r: Result<SemVersionReq, String>)
    ensures
        match r {
            Ok(q) => q@ == text@ && semver_req_parse(text@) == Ok::<(), Seq<char>>(()),
            Err(m) => semver_req_parse(text@) == Err::<(), Seq<char>>(m@),
        },
{
    match ::semver::VersionReq::parse(text) {
        Ok(q) => Ok(SemVersionReq { text: text.to_string(), raw: q }),
        Err(e) => Err(e.to_string()),
    }
}

/// `semver::VersionReq::matches` on the stored values.
#[verifier::external_body]
fn semver_matches(req: &SemVersionReq, v: &SemVersion) -> (r: bool)
    ensures
        r == semver_req_matches(req@, v@),
{
    req.raw.matches(&v.raw)
}

/// `>` on the stored `semver::Version` values.
#[verifier::external_body]
fn semver_greater(a: &SemVersion, b: &SemVersion) -> (r: bool)
    ensures
        r == semver_version_greater(a@, b@),
{
    a.raw > b.raw
}

/// The parts of each version of a list.
pub open spec fn parts_of(v: Seq<SemVersion>) -> Seq<VersionParts> {
    v.map_values(|x: SemVersion| x@)
}

/// `slice::sort_by` with the order of the stored `semver::Version` values
/// reversed: the versions from the greatest down.  std documents the
/// result as a permutation of the input in which no element compares
/// `Greater` than a later one under the comparator; semver's `Ord` is a
/// total order.
#[verifier::external_body]
pub(crate) fn sort_descending(v: &mut Vec<SemVersion>)
    ensures
        parts_of(final(v)@).to_multiset() == parts_of(old(v)@).to_multiset(),
        forall|i: int, j: int|
            0 <= i < j < final(v)@.len() ==> !semver_version_greater(
                #[trigger] final(v)@[j]@,
                #[trigger] final(v)@[i]@,
            ),
{
    v.sort_by(|a, b| b.raw.cmp(&a.raw));
}

/// The text `Display` writes for a version with these parts:
/// `major.minor.patch`, then `-pre` and `+build` when they are not empty.
pub open spec fn version_text(v: VersionParts) -> Seq<char> {
    let core = decimal(v.0 as nat) + seq!['.'] + decimal(v.1 as nat) + seq!['.'] + decimal(
        v.2 as nat,
    );
    let with_pre = if v.3.len() == 0 {
        core
    } else {
        core + seq!['-'] + v.3
    };
    if v.4.len() == 0 {
        with_pre
    } else {
        with_pre + seq!['+'] + v.4
    }
}

impl SemVersion {
    /// Parses a version the way `semver::Version::parse` does.
    pub fn parse(text: &str) -> (r: Result<SemVersion, String>)
        ensures
            match r {
                Ok(v) => semver_version_parse(text@) == Ok::<VersionParts, Seq<char>>(v@),
                Err(m) => semver_version_parse(text@) == Err::<VersionParts, Seq<char>>(m@),
            },
    {
        semver_parse_version(text)
    }

    /// The version `major.minor.patch`, without pre-release or build metadata.
    pub fn new(major: u64, minor: u64, patch: u64) -> (v: SemVersion)
        ensures
            v@ == (major, minor, patch, Seq::<char>::empty(), Seq::<char>::empty()),
    {
        semver_new_version(major, minor, patch)
    }

    pub fn major(&self) -> (r: u64)
        ensures
            r == self@.0,
    {
        self.major
    }

    pub fn minor(&self) -> (r: u64)
        ensures
            r == self@.1,
    {
        self.minor
    }

    pub fn patch(&self) -> (r: u64)
        ensures
            r == self@.2,
    {
        self.patch
    }

    /// The pre-release part, empty when there is none.
    pub fn pre(&self) -> (r: &str)
        ensures
            r@ == self@.3,
    {
        self.pre.as_str()
    }

    /// The build metadata, empty when there is none.
    pub fn build(&self) -> (r: &str)
        ensures
            r@ == self@.4,
    {
        self.build.as_str()
    }

    /// This version orders after `other`.
    pub fn greater_than(&self, other: &SemVersion) -> (r: bool)
        ensures
            r == semver_version_greater(self@, other@),
    {
        semver_greater(self, other)
    }

    /// The text of the version, as `Display` writes it.
    pub fn to_text(&self) -> (s: String)
        ensures
            s@ == version_text(self@),
    {
        let mut s = decimal_string(self.major);
        s.append(".");
        let minor = decimal_string(self.minor);
        s.append(minor.as_str());
        s.append(".");
        let patch = decimal_string(self.patch);
        s.append(patch.as_str());
        proof {
            reveal_strlit(".");
            assert("."@ =~= seq!['.']);
        }
        let ghost core = s@;
        if !self.pre.as_str().is_empty() {
            s.append("-");
            s.append(self.pre.as_str());
            proof {
                reveal_strlit("-");
                assert("-"@ =~= seq!['-']);
            }
        }
        if !self.build.as_str().is_empty() {
            s.append("+");
            s.append(self.build.as_str());
            proof {
                reveal_strlit("+");
                assert("+"@ =~= seq!['+']);
            }
        }
        s
    }
}

impl SemVersionReq {
    /// Parses a requirement the way `semver::VersionReq::parse` does.
    pub fn parse(text: &str) -> (r: Result<SemVersionReq, String>)
        ensures
            match r {
                Ok(q) => q@ == text@ && semver_req_parse(text@) == Ok::<(), Seq<char>>(()),
                Err(m) => semver_req_parse(text@) == Err::<(), Seq<char>>(m@),
            },
    {
        semver_parse_req(text)
    }

    /// The requirement is met by `v`.
    pub fn matches(&self, v: &SemVersion) -> (r: bool)
        ensures
            r == semver_req_matches(self@, v@),
    {
        semver_matches(self, v)
    }

    /// The text the requirement was parsed from.
    pub fn text(&self) -> (r: &str)
        ensures
            r@ == self@,
    {
        self.text.as_str()
    }
}

} // verus!
