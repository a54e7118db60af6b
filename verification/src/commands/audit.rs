//! The decisions of `audit`: which packages already have a trustworthy
//! cached report, and which must be analyzed.
use vstd::prelude::*;

use crate::cargo::{packages_view, LockPackage};
use crate::fetch::signed_bytes;
use crate::signing::{signature_accepted, verify};

verus! {

/// The cached report and signature are both present and the signature,
/// checked with `key`, covers the report's exact bytes.
pub open spec fn verified_cache(key: Seq<char>, raw: Option<String>, sig: Option<String>) -> bool {
    raw is Some && sig is Some && signature_accepted(key, signed_bytes(raw->0@), sig->0@)
}

fn verified_ref(key: &str, raw: &Option<String>, sig: &Option<String>) -> (r: bool)
    ensures
        r == verified_cache(key@, *raw, *sig),
{
    match (raw, sig) {
        (Some(raw), Some(sig)) => verify(key, raw.as_str().as_bytes(), sig.as_str()).is_ok(),
        _ => false,
    }
}

/// A cached report counts as analyzed when both the report and its
/// signature are cached and the signature, checked with `key`, covers the
/// report's exact bytes.
pub fn cached_report_verified(key: &str, raw: Option<String>, sig: Option<String>) -> (r: bool)
    ensures
        r == verified_cache(key@, raw, sig),
{
    verified_ref(key, &raw, &sig)
}

/// A package of `Cargo.lock` with what the cache holds for it: the raw
/// report and its signature, when they are there.
pub struct CachedReport {
    pub package: LockPackage,
    pub raw: Option<String>,
    pub sig: Option<String>,
}

/// The packages whose cached report is not verified, in order.
pub open spec fn unverified(key: Seq<char>, cached: Seq<CachedReport>) -> Seq<(Seq<char>, Seq<char>)>
    decreases cached.len(),
{
    if cached.len() == 0 {
        Seq::empty()
    } else {
        let rest = unverified(key, cached.drop_last());
        let last = cached.last();
        if verified_cache(key, last.raw, last.sig) {
            rest
        } else {
            rest.push(last.package@)
        }
    }
}

/// How many of the cached reports are verified.
pub open spec fn verified_count(key: Seq<char>, cached: Seq<CachedReport>) -> nat
    decreases cached.len(),
{
    if cached.len() == 0 {
        0
    } else {
        let last = cached.last();
        verified_count(key, cached.drop_last()) + if verified_cache(key, last.raw, last.sig) {
            1nat
        } else {
            0nat
        }
    }
}

proof fn lemma_split_counts(key: Seq<char>, cached: Seq<CachedReport>)
    ensures
        verified_count(key, cached) + unverified(key, cached).len() == cached.len(),
    decreases cached.len(),
{
    if cached.len() > 0 {
        lemma_split_counts(key, cached.drop_last());
    }
}

/// Splits the packages into those that must be analyzed (their cached
/// report is missing or not verified with `key`), in order, and the number
/// of those already analyzed.
pub fn split_for_analysis(key: &str, cached: &Vec<CachedReport>) -> (r: (Vec<LockPackage>, usize))
    ensures
        packages_view(r.0@) == unverified(key@, cached@),
        r.1 == verified_count(key@, cached@),
        r.0@.len() + r.1 == cached@.len(),
{
    let mut pending: Vec<LockPackage> = Vec::new();
    let mut analyzed: usize = 0;
    let mut i: usize = 0;
    assert(packages_view(pending@) =~= Seq::<(Seq<char>, Seq<char>)>::empty());
    while i < cached.len()
        invariant
            i <= cached@.len(),
            packages_view(pending@) == unverified(key@, cached@.subrange(0, i as int)),
            analyzed == verified_count(key@, cached@.subrange(0, i as int)),
            analyzed <= i,
        decreases cached.len() - i,
    {
        let ghost prefix = cached@.subrange(0, i + 1);
        assert(prefix.drop_last() =~= cached@.subrange(0, i as int));
        assert(prefix.last() == cached@[i as int]);
        let item = &cached[i];
        if verified_ref(key, &item.raw, &item.sig) {
            analyzed = analyzed + 1;
        } else {
            let p = LockPackage {
                name: item.package.name.clone(),
                version: item.package.version.clone(),
            };
            let ghost before = packages_view(pending@);
            pending.push(p);
            assert(packages_view(pending@) =~= before.push(item.package@));
        }
        i = i + 1;
    }
    assert(cached@.subrange(0, cached@.len() as int) =~= cached@);
    proof {
        lemma_split_counts(key@, cached@);
    }
    (pending, analyzed)
}

} // verus!
