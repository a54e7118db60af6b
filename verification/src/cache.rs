//! The local cache of reports, manifests and their signatures.
//!
//! Files live under the user cache directory:
//! `reports/<name>/<version>.json` (and `.json.minisig`) for reports,
//! `manifests/<name>-<version>.json` (and `.json.minisig`) for manifests.
//! This module checks the names and builds the paths, as lists of path
//! components under the cache root; the caller reads and writes the files.
use vstd::prelude::*;

use crate::error::{strings_view, ErrorView, Result};
use crate::text::{cat2, cat3, owned};
use crate::validate::{law_safe_components_stay_put, path_component_problem, safe_path_component};

verus! {

/// A file to write atomically under the cache root.
#[derive(Debug)]
pub struct CacheWrite {
    /// The path components under the cache root.
    pub path: Vec<String>,
    pub contents: String,
}

/// Why `name` and `version` cannot name cache files, if they cannot.
pub open spec fn cache_key_problem(name: Seq<char>, version: Seq<char>) -> Option<Seq<char>> {
    match path_component_problem(name) {
        Some(reason) => Some(reason),
        None => path_component_problem(version),
    }
}

/// A path under the cache root, or why there is none.
pub open spec fn cache_path_result(
    name: Seq<char>,
    version: Seq<char>,
    path: Seq<Seq<char>>,
    r: Result<Vec<String>>,
) -> bool {
    match cache_key_problem(name, version) {
        Some(reason) => r matches Err(e) && e@ == ErrorView::InvalidInput(reason),
        None => r matches Ok(p) && strings_view(p@) == path,
    }
}

/// The components of the path of the report of `name` at `version`.
pub open spec fn report_file(name: Seq<char>, version: Seq<char>) -> Seq<Seq<char>> {
    seq!["reports"@, name, version + ".json"@]
}

/// The components of the path of that report's signature.
pub open spec fn report_sig_file(name: Seq<char>, version: Seq<char>) -> Seq<Seq<char>> {
    seq!["reports"@, name, version + ".json.minisig"@]
}

/// The components of the path of the manifest of `name` at `version`.
pub open spec fn manifest_file(name: Seq<char>, version: Seq<char>) -> Seq<Seq<char>> {
    seq!["manifests"@, name + "-"@ + version + ".json"@]
}

/// The components of the path of that manifest's signature.
pub open spec fn manifest_sig_file(name: Seq<char>, version: Seq<char>) -> Seq<Seq<char>> {
    seq!["manifests"@, name + "-"@ + version + ".json.minisig"@]
}

fn checked_key(name: &str, version: &str) -> (r: Result<(String, String)>)
    ensures
        match cache_key_problem(name@, version@) {
            Some(reason) => r matches Err(e) && e@ == ErrorView::InvalidInput(reason),
            None => r matches Ok(p) && p.0@ == name@ && p.1@ == version@,
        },
{
    let n = match safe_path_component(name) {
        Ok(n) => n,
        Err(e) => {
            return Err(e);
        },
    };
    let v = match safe_path_component(version) {
        Ok(v) => v,
        Err(e) => {
            return Err(e);
        },
    };
    Ok((n, v))
}

fn three(a: String, b: String, c: String) -> (v: Vec<String>)
    ensures
        strings_view(v@) == seq![a@, b@, c@],
{
    let mut v: Vec<String> = Vec::new();
    v.push(a);
    v.push(b);
    v.push(c);
    assert(strings_view(v@) =~= seq![a@, b@, c@]);
    v
}

fn two(a: String, b: String) -> (v: Vec<String>)
    ensures
        strings_view(v@) == seq![a@, b@],
{
    let mut v: Vec<String> = Vec::new();
    v.push(a);
    v.push(b);
    assert(strings_view(v@) =~= seq![a@, b@]);
    v
}

/// The path of the cached report of `name` at `version`.
pub fn report_path(name: &str, version: &str) -> (r: Result<Vec<String>>)
    ensures
        cache_path_result(name@, version@, report_file(name@, version@), r),
{
    let (n, v) = match checked_key(name, version) {
        Ok(p) => p,
        Err(e) => {
            return Err(e);
        },
    };
    Ok(three(owned("reports"), n, cat2(v.as_str(), ".json")))
}

/// The path of the cached signature of the report of `name` at `version`.
pub fn report_sig_path(name: &str, version: &str) -> (r: Result<Vec<String>>)
    ensures
        cache_path_result(name@, version@, report_sig_file(name@, version@), r),
{
    let (n, v) = match checked_key(name, version) {
        Ok(p) => p,
        Err(e) => {
            return Err(e);
        },
    };
    Ok(three(owned("reports"), n, cat2(v.as_str(), ".json.minisig")))
}

/// The path of the cached manifest of `name` at `version`.
pub fn manifest_path(name: &str, version: &str) -> (r: Result<Vec<String>>)
    ensures
        cache_path_result(name@, version@, manifest_file(name@, version@), r),
{
    let (n, v) = match checked_key(name, version) {
        Ok(p) => p,
        Err(e) => {
            return Err(e);
        },
    };
    let file = cat3(n.as_str(), "-", v.as_str());
    Ok(two(owned("manifests"), cat2(file.as_str(), ".json")))
}

/// The path of the cached signature of the manifest of `name` at `version`.
pub fn manifest_sig_path(name: &str, version: &str) -> (r: Result<Vec<String>>)
    ensures
        cache_path_result(name@, version@, manifest_sig_file(name@, version@), r),
{
    let (n, v) = match checked_key(name, version) {
        Ok(p) => p,
        Err(e) => {
            return Err(e);
        },
    };
    let file = cat3(n.as_str(), "-", v.as_str());
    Ok(two(owned("manifests"), cat2(file.as_str(), ".json.minisig")))
}

/// A write of `contents` to the file at `path`, or why there is none.
pub open spec fn cache_write_result(
    name: Seq<char>,
    version: Seq<char>,
    path: Seq<Seq<char>>,
    contents: Seq<char>,
    r: Result<CacheWrite>,
) -> bool {
    match cache_key_problem(name, version) {
        Some(reason) => r matches Err(e) && e@ == ErrorView::InvalidInput(reason),
        None => r matches Ok(w) && strings_view(w.path@) == path && w.contents@ == contents,
    }
}

fn write_at(path: Result<Vec<String>>, contents: &str) -> (r: Result<CacheWrite>)
    ensures
        match path {
            Ok(p) => r matches Ok(w) && w.path@ == p@ && w.contents@ == contents@,
            Err(e) => r matches Err(e2) && e2@ == e@,
        },
{
    match path {
        Ok(p) => Ok(CacheWrite { path: p, contents: owned(contents) }),
        Err(e) => Err(e),
    }
}

/// Store a report as raw JSON (the bytes as received, not re-serialized).
pub fn store_report_raw(name: &str, version: &str, raw_json: &str) -> (r: Result<CacheWrite>)
    ensures
        cache_write_result(name@, version@, report_file(name@, version@), raw_json@, r),
{
    write_at(report_path(name, version), raw_json)
}

/// Store a signature file alongside a cached report.
pub fn store_report_sig(name: &str, version: &str, sig: &str) -> (r: Result<CacheWrite>)
    ensures
        cache_write_result(name@, version@, report_sig_file(name@, version@), sig@, r),
{
    write_at(report_sig_path(name, version), sig)
}

/// Store a manifest as raw JSON (the bytes as received, not re-serialized).
pub fn store_manifest_raw(name: &str, version: &str, raw_json: &str) -> (r: Result<CacheWrite>)
    ensures
        cache_write_result(name@, version@, manifest_file(name@, version@), raw_json@, r),
{
    write_at(manifest_path(name, version), raw_json)
}

/// Store a signature file alongside a cached manifest.
pub fn store_manifest_sig(name: &str, version: &str, sig: &str) -> (r: Result<CacheWrite>)
    ensures
        cache_write_result(name@, version@, manifest_sig_file(name@, version@), sig@, r),
{
    write_at(manifest_sig_path(name, version), sig)
}

/// Evict a report and its signature from cache: the two files to remove.
pub fn evict_report(name: &str, version: &str) -> (r: Result<(Vec<String>, Vec<String>)>)
    ensures
        match cache_key_problem(name@, version@) {
            Some(reason) => r matches Err(e) && e@ == ErrorView::InvalidInput(reason),
            None => r matches Ok(p) && strings_view(p.0@) == report_file(name@, version@)
                && strings_view(p.1@) == report_sig_file(name@, version@),
        },
{
    let doc = match report_path(name, version) {
        Ok(p) => p,
        Err(e) => {
            return Err(e);
        },
    };
    let sig = match report_sig_path(name, version) {
        Ok(p) => p,
        Err(e) => {
            return Err(e);
        },
    };
    Ok((doc, sig))
}

/// A path component that names an entry inside its directory: not empty,
/// without separators, and neither `.` nor `..`.
pub open spec fn stays_put(c: Seq<char>) -> bool {
    &&& c.len() > 0
    &&& !c.contains('/')
    &&& !c.contains('\\')
    &&& c != seq!['.']
    &&& c != seq!['.', '.']
}

proof fn lemma_suffixed_stays_put(name: Seq<char>, suffix: Seq<char>)
    requires
        stays_put(name),
        !suffix.contains('/'),
        !suffix.contains('\\'),
        suffix.len() >= 3,
    ensures
        stays_put(name + suffix),
{
    let c = name + suffix;
    if c.contains('/') {
        let i = choose|i: int| 0 <= i < c.len() && c[i] == '/';
        if i < name.len() {
            assert(name[i] == c[i]);
        } else {
            assert(suffix[i - name.len()] == c[i]);
        }
    }
    if c.contains('\\') {
        let i = choose|i: int| 0 <= i < c.len() && c[i] == '\\';
        if i < name.len() {
            assert(name[i] == c[i]);
        } else {
            assert(suffix[i - name.len()] == c[i]);
        }
    }
    assert(c.len() >= 4);
}

proof fn lemma_literal_clean(s: Seq<char>)
    requires
        forall|i: int| 0 <= i < s.len() ==> #[trigger] s[i] != '/' && s[i] != '\\',
    ensures
        !s.contains('/'),
        !s.contains('\\'),
{
}

/// Every file the cache reads, writes or removes for a valid crate name
/// and version lies inside the cache: each component of its path is a
/// plain entry name, so no `..`, `.` or separator can lead elsewhere.
pub proof fn law_cache_files_stay_in_cache(name: Seq<char>, version: Seq<char>)
    requires
        cache_key_problem(name, version) is None,
    ensures
        forall|i: int| 0 <= i < 3 ==> stays_put(#[trigger] report_file(name, version)[i]),
        forall|i: int| 0 <= i < 3 ==> stays_put(#[trigger] report_sig_file(name, version)[i]),
        forall|i: int| 0 <= i < 2 ==> stays_put(#[trigger] manifest_file(name, version)[i]),
        forall|i: int| 0 <= i < 2 ==> stays_put(#[trigger] manifest_sig_file(name, version)[i]),
{
    law_safe_components_stay_put(name);
    law_safe_components_stay_put(version);
    reveal_strlit("reports");
    reveal_strlit("manifests");
    reveal_strlit(".json");
    reveal_strlit(".json.minisig");
    reveal_strlit("-");
    lemma_literal_clean("reports"@);
    lemma_literal_clean("manifests"@);
    lemma_literal_clean(".json"@);
    lemma_literal_clean(".json.minisig"@);
    lemma_literal_clean("-"@);
    assert("reports"@.len() == 7 && "manifests"@.len() == 9);
    assert("reports"@ != seq!['.'] && "reports"@ != seq!['.', '.']);
    assert("manifests"@ != seq!['.'] && "manifests"@ != seq!['.', '.']);
    lemma_suffixed_stays_put(version, ".json"@);
    lemma_suffixed_stays_put(version, ".json.minisig"@);
    let dashed = name + "-"@;
    assert(stays_put(dashed)) by {
        if dashed.contains('/') {
            let i = choose|i: int| 0 <= i < dashed.len() && dashed[i] == '/';
            if i < name.len() {
                assert(name[i] == dashed[i]);
            }
        }
        if dashed.contains('\\') {
            let i = choose|i: int| 0 <= i < dashed.len() && dashed[i] == '\\';
            if i < name.len() {
                assert(name[i] == dashed[i]);
            }
        }
        assert(dashed.len() >= 2);
        if dashed.len() == 2 {
            assert(dashed[1] == '-');
        }
    }
    let dv = dashed + version;
    assert(stays_put(dv)) by {
        if dv.contains('/') {
            let i = choose|i: int| 0 <= i < dv.len() && dv[i] == '/';
            if i < dashed.len() {
                assert(dashed[i] == dv[i]);
            } else {
                assert(version[i - dashed.len()] == dv[i]);
            }
        }
        if dv.contains('\\') {
            let i = choose|i: int| 0 <= i < dv.len() && dv[i] == '\\';
            if i < dashed.len() {
                assert(dashed[i] == dv[i]);
            } else {
                assert(version[i - dashed.len()] == dv[i]);
            }
        }
        assert(dv.len() >= 3);
    }
    lemma_suffixed_stays_put(dv, ".json"@);
    lemma_suffixed_stays_put(dv, ".json.minisig"@);
    assert(name + "-"@ + version + ".json"@ == dv + ".json"@);
    assert(name + "-"@ + version + ".json.minisig"@ == dv + ".json.minisig"@);
}

} // verus!
