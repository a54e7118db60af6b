//! Resolving crate versions against the crates.io registry.
//!
//! The HTTP exchange happens in the caller; this module builds the request
//! URL, interprets the response and picks the version.
use vstd::prelude::*;

use crate::error::{Error, ErrorView, Result};
use crate::http::{HttpOutcome, MAX_RESPONSE_SIZE};
use crate::text::{cat2, cat3, cat5, decimal, decimal_string, owned, str_len};
use crate::validate::{crate_name, crate_name_problem, input_error};
use crate::versions::{
    parts_of, semver_req_matches, semver_req_parse, semver_version_greater, semver_version_parse,
    sort_descending, SemVersion, SemVersionReq, VersionParts,
};

verus! {

/// The registry API root.
pub const BASE_URL: &'static str = "https://crates.io/api/v1";

/// The `User-Agent` sent with every request.
pub const USER_AGENT: &'static str = "safe-cargo/0.1.0 (supply-chain-security-tool)";

/// The least time between two requests, in nanoseconds.
pub const RATE_LIMIT_NANOS: u128 = 1000000000;

/// A single version entry returned inside the crate response.
#[derive(Debug)]
pub struct CrateVersion {
    pub num: String,
    /// RFC 3339 publication time.
    pub created_at: String,
    pub yanked: bool,
}

impl View for CrateVersion {
    /// The version number and whether it is yanked.
    type V = (Seq<char>, bool);

    open spec fn view(&self) -> (Seq<char>, bool) {
        (self.num@, self.yanked)
    }
}

/// Public crate info returned by a crate lookup.
#[derive(Debug)]
pub struct CrateInfo {
    pub versions: Vec<CrateVersion>,
}

// ---------------------------------------------------------------------------
// Requests and responses
// ---------------------------------------------------------------------------

/// The URL of the crate lookup for `name`.
pub open spec fn crate_url_of(name: Seq<char>) -> Seq<char> {
    "https://crates.io/api/v1"@ + "/crates/"@ + name
}

/// The URL of the lookup of a crate, after checking that `name` is a crate
/// name.
pub fn crate_info_url(name: &str) -> (r: Result<String>)
    ensures
        crate_name_problem(name@) is None ==> (r matches Ok(u) && u@ == crate_url_of(name@)),
        crate_name_problem(name@) is Some ==> (r matches Err(e) && e@ == input_error(
            crate_name_problem(name@)->0,
        )),
{
    match crate_name(name) {
        Err(e) => Err(e),
        Ok(()) => Ok(cat3(BASE_URL, "/crates/", name)),
    }
}

/// How long to wait before the next request, in nanoseconds, given the
/// time elapsed since the last one (none when there was none): at most one
/// request per second.
pub fn throttle_delay(elapsed_nanos: Option<u128>) -> (d: u128)
    ensures
        match elapsed_nanos {
            Some(e) => d == (if e < RATE_LIMIT_NANOS {
                RATE_LIMIT_NANOS - e
            } else {
                0
            }),
            None => d == 0,
        },
{
    match elapsed_nanos {
        Some(e) => if e < RATE_LIMIT_NANOS {
            RATE_LIMIT_NANOS - e
        } else {
            0
        },
        None => 0,
    }
}

/// What the registry client reports for an exchange with `url`.
pub open spec fn registry_response(url: Seq<char>, outcome: HttpOutcome) -> std::result::Result<
    Seq<char>,
    ErrorView,
> {
    match outcome {
        HttpOutcome::Status(code) => Err(
            if code == 404 {
                ErrorView::CratesIoApi("not found (404)"@)
            } else if code == 429 {
                ErrorView::CratesIoApi("rate limited by crates.io (429)"@)
            } else {
                ErrorView::CratesIoApi("HTTP "@ + decimal(code as nat))
            },
        ),
        HttpOutcome::Transport(m) => Err(ErrorView::Network(m@)),
        HttpOutcome::ReadFailed(m) => Err(ErrorView::CratesIoApi("failed to read response: "@ + m@)),
        HttpOutcome::Body(b) => if str_len(b@) > MAX_RESPONSE_SIZE {
            Err(ErrorView::ResponseTooLarge(url, MAX_RESPONSE_SIZE))
        } else {
            Ok(b@)
        },
    }
}

/// Interprets the outcome of a registry request to `url`.
pub fn registry_body(url: &str, outcome: HttpOutcome) -> (r: Result<String>)
    ensures
        match registry_response(url@, outcome) {
            Ok(b) => r matches Ok(s) && s@ == b,
            Err(v) => r matches Err(e) && e@ == v,
        },
{
    match outcome {
        HttpOutcome::Status(code) => {
            if code == 404 {
                Err(Error::CratesIoApi(owned("not found (404)")))
            } else if code == 429 {
                Err(Error::CratesIoApi(owned("rate limited by crates.io (429)")))
            } else {
                let c = decimal_string(code as u64);
                Err(Error::CratesIoApi(cat2("HTTP ", c.as_str())))
            }
        },
        HttpOutcome::Transport(m) => Err(Error::Network(m)),
        HttpOutcome::ReadFailed(m) => Err(
            Error::CratesIoApi(cat2("failed to read response: ", m.as_str())),
        ),
        HttpOutcome::Body(b) => {
            if b.as_str().len() > MAX_RESPONSE_SIZE {
                Err(Error::ResponseTooLarge(owned(url), MAX_RESPONSE_SIZE))
            } else {
                Ok(b)
            }
        },
    }
}

// ---------------------------------------------------------------------------
// Version selection
// ---------------------------------------------------------------------------

/// The requirement (if any) admits the version.
pub open spec fn admits(req: Option<Seq<char>>, v: VersionParts) -> bool {
    match req {
        Some(r) => semver_req_matches(r, v),
        None => true,
    }
}

/// Scanning the versions in order: the parsed candidates that are not
/// yanked and that the requirement admits, or the number and the parse
/// error of the first version that is not yanked and does not parse.
pub open spec fn candidates(req: Option<Seq<char>>, versions: Seq<(Seq<char>, bool)>) -> std::result::Result<
    Seq<VersionParts>,
    (Seq<char>, Seq<char>),
>
    decreases versions.len(),
{
    if versions.len() == 0 {
        Ok(Seq::empty())
    } else {
        match candidates(req, versions.drop_last()) {
            Err(bad) => Err(bad),
            Ok(found) => {
                let (num, yanked) = versions.last();
                if yanked {
                    Ok(found)
                } else {
                    match semver_version_parse(num) {
                        Err(msg) => Err((num, msg)),
                        Ok(parts) => if admits(req, parts) {
                            Ok(found.push(parts))
                        } else {
                            Ok(found)
                        },
                    }
                }
            },
        }
    }
}

/// `v` is the latest of the candidates: one of them, and no other
/// candidate orders after it.
pub open spec fn latest_of(found: Seq<VersionParts>, v: VersionParts) -> bool {
    &&& found.contains(v)
    &&& forall|i: int|
        0 <= i < found.len() ==> #[trigger] found[i] == v || !semver_version_greater(found[i], v)
}

/// Why version resolution for crate `name`, requirement `req` and the
/// published versions yields no version, if it yields one: the
/// requirement does not parse, a version that is not yanked does not
/// parse, or no version is both admitted and not yanked.
pub open spec fn resolution_error(
    name: Seq<char>,
    req: Option<Seq<char>>,
    versions: Seq<(Seq<char>, bool)>,
) -> Option<ErrorView> {
    match req {
        Some(r) => match semver_req_parse(r) {
            Err(msg) => Some(
                ErrorView::CratesIoApi(
                    "invalid version requirement '"@ + r + "' for crate '"@ + name + "': "@ + msg,
                ),
            ),
            Ok(_) => selection_error(name, req, versions),
        },
        None => selection_error(name, req, versions),
    }
}

/// [`resolution_error`] once the requirement (if any) has parsed.
pub open spec fn selection_error(
    name: Seq<char>,
    req: Option<Seq<char>>,
    versions: Seq<(Seq<char>, bool)>,
) -> Option<ErrorView> {
    match candidates(req, versions) {
        Err((num, msg)) => Some(
            ErrorView::CratesIoApi(
                "crates.io returned unparseable version '"@ + num + "' for crate '"@ + name
                    + "': "@ + msg,
            ),
        ),
        Ok(found) => if found.len() == 0 {
            Some(
                ErrorView::CratesIoApi(
                    match req {
                        Some(r) => "no non-yanked version of '"@ + name
                            + "' matches requirement '"@ + r + "'"@,
                        None => "no non-yanked versions found for crate '"@ + name + "'"@,
                    },
                ),
            )
        } else {
            None
        },
    }
}

/// The views of a list of versions.
pub open spec fn versions_view(v: Seq<CrateVersion>) -> Seq<(Seq<char>, bool)> {
    v.map_values(|c: CrateVersion| c@)
}

/// Resolve a semver version requirement to the latest matching non-yanked
/// version among the versions the registry lists for crate `name`.
///
/// If `req` is `None`, returns the latest non-yanked version.
///
/// The requirement string follows Cargo's semver syntax (e.g. `"^1.2"`,
/// `">=0.3, <0.5"`).
pub fn resolve_version(name: &str, req: Option<&str>, versions: &Vec<CrateVersion>) -> (r: Result<
    SemVersion,
>)
    ensures
        ({
            let req_view = match req {
                Some(q) => Some(q@),
                None => None,
            };
            match resolution_error(name@, req_view, versions_view(versions@)) {
                Some(ev) => r matches Err(e) && e@ == ev,
                None => r matches Ok(v) && latest_of(
                    candidates(req_view, versions_view(versions@))->Ok_0,
                    v@,
                ),
            }
        }),
{
    let ghost req_view: Option<Seq<char>> = match req {
        Some(q) => Some(q@),
        None => None,
    };
    let version_req: Option<SemVersionReq> = match req {
        Some(q) => match SemVersionReq::parse(q) {
            Ok(parsed) => Some(parsed),
            Err(msg) => {
                let head = cat5("invalid version requirement '", q, "' for crate '", name, "': ");
                return Err(Error::CratesIoApi(cat2(head.as_str(), msg.as_str())));
            },
        },
        None => None,
    };
    let ghost all = versions_view(versions@);
    let mut found: Vec<SemVersion> = Vec::new();
    assert(parts_of(found@) =~= Seq::<VersionParts>::empty());
    let mut i: usize = 0;
    while i < versions.len()
        invariant
            i <= versions@.len(),
            match version_req {
                Some(q) => req_view == Some(q@),
                None => req_view is None,
            },
            all == versions_view(versions@),
            req_view == (match req {
                Some(q) => Some(q@),
                None => None,
            }),
            req_view is Some ==> semver_req_parse(req_view->0) is Ok,
            candidates(req_view, all.subrange(0, i as int)) == Ok::<
                Seq<VersionParts>,
                (Seq<char>, Seq<char>),
            >(parts_of(found@)),
        decreases versions.len() - i,
    {
        let ghost prefix = all.subrange(0, i + 1);
        assert(prefix.drop_last() =~= all.subrange(0, i as int));
        assert(prefix.last() == versions@[i as int]@);
        let v = &versions[i];
        if !v.yanked {
            match SemVersion::parse(v.num.as_str()) {
                Err(msg) => {
                    let head = cat5(
                        "crates.io returned unparseable version '",
                        v.num.as_str(),
                        "' for crate '",
                        name,
                        "': ",
                    );
                    proof {
                        assert(candidates(req_view, prefix) == Err::<
                            Seq<VersionParts>,
                            (Seq<char>, Seq<char>),
                        >((v.num@, msg@)));
                        lemma_candidates_stop(req_view, all, i as int);
                    }
                    let e = Error::CratesIoApi(cat2(head.as_str(), msg.as_str()));
                    assert(candidates(req_view, all) == Err::<
                        Seq<VersionParts>,
                        (Seq<char>, Seq<char>),
                    >((v.num@, msg@)));
                    assert(selection_error(name@, req_view, all) == Some(e@));
                    return Err(e);
                },
                Ok(parsed) => {
                    let admitted = match &version_req {
                        Some(q) => q.matches(&parsed),
                        None => true,
                    };
                    if admitted {
                        let ghost before = parts_of(found@);
                        found.push(parsed);
                        assert(parts_of(found@) =~= before.push(found@.last()@));
                    }
                },
            }
        }
        i = i + 1;
    }
    assert(all.subrange(0, all.len() as int) =~= all);
    let ghost cands = parts_of(found@);
    if found.len() == 0 {
        return match req {
            Some(q) => {
                let head = cat5(
                    "no non-yanked version of '",
                    name,
                    "' matches requirement '",
                    q,
                    "'",
                );
                Err(Error::CratesIoApi(head))
            },
            None => Err(
                Error::CratesIoApi(cat3("no non-yanked versions found for crate '", name, "'")),
            ),
        };
    }
    sort_descending(&mut found);
    proof {
        lemma_first_is_latest(found@, cands);
    }
    Ok(found.remove(0))
}

/// The first of a list sorted from the greatest down, which holds the
/// same versions as `cands`, is the latest of `cands`.
proof fn lemma_first_is_latest(sorted: Seq<SemVersion>, cands: Seq<VersionParts>)
    requires
        cands.len() > 0,
        parts_of(sorted).to_multiset() == cands.to_multiset(),
        forall|i: int, j: int|
            0 <= i < j < sorted.len() ==> !semver_version_greater(
                #[trigger] sorted[j]@,
                #[trigger] sorted[i]@,
            ),
    ensures
        sorted.len() > 0,
        latest_of(cands, sorted[0]@),
{
    let ps = parts_of(sorted);
    ps.to_multiset_ensures();
    cands.to_multiset_ensures();
    assert(ps.len() == cands.len());
    assert(ps[0] == sorted[0]@);
    assert(ps.contains(sorted[0]@));
    assert(ps.to_multiset().count(sorted[0]@) > 0);
    assert(cands.to_multiset().count(sorted[0]@) > 0);
    assert(cands.contains(sorted[0]@));
    assert forall|i: int| 0 <= i < cands.len() implies #[trigger] cands[i] == sorted[0]@
        || !semver_version_greater(cands[i], sorted[0]@) by {
        assert(cands.contains(cands[i]));
        assert(cands.to_multiset().count(cands[i]) > 0);
        assert(ps.to_multiset().count(cands[i]) > 0);
        assert(ps.contains(cands[i]));
        let j = choose|j: int| 0 <= j < ps.len() && ps[j] == cands[i];
        assert(ps[j] == sorted[j]@);
        if j > 0 {
            assert(!semver_version_greater(sorted[j]@, sorted[0]@));
        }
    }
}

/// `p` is the version of a listed entry that is not yanked and that the
/// requirement admits.
pub open spec fn listed(req: Option<Seq<char>>, versions: Seq<(Seq<char>, bool)>, p: VersionParts) -> bool {
    exists|i: int|
        0 <= i < versions.len() && !versions[i].1 && #[trigger] semver_version_parse(versions[i].0)
            == Ok::<VersionParts, Seq<char>>(p) && admits(req, p)
}

proof fn lemma_candidates_listed(req: Option<Seq<char>>, versions: Seq<(Seq<char>, bool)>)
    requires
        candidates(req, versions) is Ok,
    ensures
        forall|p: VersionParts| candidates(req, versions)->Ok_0.contains(p) <==> listed(req, versions, p),
    decreases versions.len(),
{
    if versions.len() > 0 {
        let front = versions.drop_last();
        lemma_candidates_listed(req, front);
        let found = candidates(req, front)->Ok_0;
        let all = candidates(req, versions)->Ok_0;
        let k = versions.len() - 1;
        assert(versions[k] == versions.last());
        assert forall|p: VersionParts| all.contains(p) <==> listed(req, versions, p) by {
            if all.contains(p) {
                let j = choose|j: int| 0 <= j < all.len() && all[j] == p;
                if j < found.len() {
                    assert(all[j] == found[j]);
                    assert(found.contains(p));
                    assert(listed(req, front, p));
                    let i = choose|i: int|
                        0 <= i < front.len() && !front[i].1 && #[trigger] semver_version_parse(front[i].0)
                            == Ok::<VersionParts, Seq<char>>(p) && admits(req, p);
                    assert(versions[i] == front[i]);
                } else {
                    assert(semver_version_parse(versions[k].0) == Ok::<VersionParts, Seq<char>>(p));
                }
            }
            if listed(req, versions, p) {
                let i = choose|i: int|
                    0 <= i < versions.len() && !versions[i].1 && #[trigger] semver_version_parse(versions[i].0)
                        == Ok::<VersionParts, Seq<char>>(p) && admits(req, p);
                if i < k {
                    assert(front[i] == versions[i]);
                    assert(listed(req, front, p));
                    assert(found.contains(p));
                    let j = choose|j: int| 0 <= j < found.len() && found[j] == p;
                    assert(all[j] == found[j]);
                } else {
                    assert(all == found.push(p));
                    assert(all[found.len() as int] == p);
                }
            }
        }
    }
}

/// The resolved version is one of the versions the registry lists: it is
/// not yanked, it parses to exactly that version, and the requirement (if
/// any) admits it.  No other such version orders after it.
pub proof fn law_resolved_is_latest_listed(
    name: Seq<char>,
    req: Option<Seq<char>>,
    versions: Seq<(Seq<char>, bool)>,
    v: VersionParts,
)
    requires
        resolution_error(name, req, versions) is None,
        latest_of(candidates(req, versions)->Ok_0, v),
    ensures
        listed(req, versions, v),
        forall|p: VersionParts|
            #[trigger] listed(req, versions, p) ==> p == v || !semver_version_greater(p, v),
{
    lemma_candidates_listed(req, versions);
    let found = candidates(req, versions)->Ok_0;
    assert forall|p: VersionParts| #[trigger] listed(req, versions, p) implies p == v
        || !semver_version_greater(p, v) by {
        assert(found.contains(p));
        let j = choose|j: int| 0 <= j < found.len() && found[j] == p;
        assert(found[j] == v || !semver_version_greater(found[j], v));
    }
}

/// When every version that is not yanked parses, scanning them gives the
/// candidates, not an error.
proof fn lemma_candidates_ok(req: Option<Seq<char>>, versions: Seq<(Seq<char>, bool)>)
    requires
        forall|k: int|
            0 <= k < versions.len() && !versions[k].1 ==> #[trigger] semver_version_parse(
                versions[k].0,
            ) is Ok,
    ensures
        candidates(req, versions) is Ok,
    decreases versions.len(),
{
    if versions.len() > 0 {
        let front = versions.drop_last();
        assert forall|k: int| 0 <= k < front.len() && !front[k].1 implies #[trigger] semver_version_parse(
            front[k].0,
        ) is Ok by {
            assert(front[k] == versions[k]);
        }
        lemma_candidates_ok(req, front);
        let last = versions.len() - 1;
        assert(versions[last] == versions.last());
    }
}

/// With a requirement that parses, and versions that all parse where they
/// are not yanked, the candidates are exactly the versions, not yanked,
/// that semver's `VersionReq::matches` accepts: a version that is not
/// yanked and that the requirement matches (a pre-release too, where the
/// requirement names one) is a candidate, so resolution succeeds, with a
/// version that the requirement matches and that orders no lower than it.
pub proof fn law_requirement_selects_its_matches(
    name: Seq<char>,
    r: Seq<char>,
    versions: Seq<(Seq<char>, bool)>,
    i: int,
    v: VersionParts,
)
    requires
        semver_req_parse(r) is Ok,
        forall|k: int|
            0 <= k < versions.len() && !versions[k].1 ==> #[trigger] semver_version_parse(
                versions[k].0,
            ) is Ok,
        0 <= i < versions.len(),
        !versions[i].1,
        semver_req_matches(r, semver_version_parse(versions[i].0)->Ok_0),
    ensures
        candidates(Some(r), versions) is Ok,
        forall|p: VersionParts|
            #[trigger] candidates(Some(r), versions)->Ok_0.contains(p) <==> exists|k: int|
                0 <= k < versions.len() && !versions[k].1 && semver_version_parse(versions[k].0)
                    == Ok::<VersionParts, Seq<char>>(p) && semver_req_matches(r, p),
        candidates(Some(r), versions)->Ok_0.contains(semver_version_parse(versions[i].0)->Ok_0),
        resolution_error(name, Some(r), versions) is None,
        latest_of(candidates(Some(r), versions)->Ok_0, v) ==> semver_req_matches(r, v) && (
        semver_version_parse(versions[i].0)->Ok_0 == v || !semver_version_greater(
            semver_version_parse(versions[i].0)->Ok_0,
            v,
        )),
{
    let req = Some(r);
    lemma_candidates_ok(req, versions);
    lemma_candidates_listed(req, versions);
    let found = candidates(req, versions)->Ok_0;
    let p = semver_version_parse(versions[i].0)->Ok_0;
    assert(semver_version_parse(versions[i].0) is Ok);
    assert(semver_version_parse(versions[i].0) == Ok::<VersionParts, Seq<char>>(p));
    assert(listed(req, versions, p));
    assert(found.contains(p));
    assert(found.len() > 0);
    assert forall|q: VersionParts| #[trigger] found.contains(q) <==> exists|k: int|
        0 <= k < versions.len() && !versions[k].1 && semver_version_parse(versions[k].0)
            == Ok::<VersionParts, Seq<char>>(q) && semver_req_matches(r, q) by {
        assert(found.contains(q) <==> listed(req, versions, q));
    }
    if latest_of(found, v) {
        assert(listed(req, versions, v));
        let j = choose|j: int| 0 <= j < found.len() && found[j] == p;
        assert(found[j] == v || !semver_version_greater(found[j], v));
    }
}

/// Once a version fails to parse, scanning further versions keeps the
/// failure.
proof fn lemma_candidates_stop(req: Option<Seq<char>>, versions: Seq<(Seq<char>, bool)>, i: int)
    requires
        0 <= i < versions.len(),
        candidates(req, versions.subrange(0, i + 1)) is Err,
    ensures
        candidates(req, versions) == candidates(req, versions.subrange(0, i + 1)),
    decreases versions.len(),
{
    if i + 1 < versions.len() {
        assert(versions.drop_last().subrange(0, i + 1) =~= versions.subrange(0, i + 1));
        lemma_candidates_stop(req, versions.drop_last(), i);
    } else {
        assert(versions.subrange(0, i + 1) =~= versions);
    }
}

} // verus!
