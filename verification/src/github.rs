//! The registry of signed reports: a GitHub repository read through the
//! contents API.  The HTTP exchange happens in the caller; this module
//! builds the request URLs and interprets the responses.
use vstd::prelude::*;

use crate::error::{Error, ErrorView, Result};
use crate::http::{HttpOutcome, MAX_RESPONSE_SIZE};
use crate::text::{cat2, cat3, cat4, cat5, decimal, decimal_string, owned, str_len};
use crate::validate::{crate_name, crate_name_problem, input_error, version};
use crate::versions::semver_version_parse;

verus! {

/// The `User-Agent` sent with every request.
pub const USER_AGENT: &'static str = "safe-cargo/0.1.0";

/// Where reports live: a repository, a branch, and the token to read them.
pub struct GitHubClient {
    token: String,
    repo: String,
    branch: String,
}

/// The repository, the branch and the token, by their characters.
pub struct GitHubClientView {
    pub repo: Seq<char>,
    pub branch: Seq<char>,
    pub token: Seq<char>,
}

impl View for GitHubClient {
    type V = GitHubClientView;

    closed spec fn view(&self) -> GitHubClientView {
        GitHubClientView { repo: self.repo@, branch: self.branch@, token: self.token@ }
    }
}

/// The contents-API URL of `path` in `repo` at `branch`.
pub open spec fn contents_url_of(repo: Seq<char>, path: Seq<char>, branch: Seq<char>) -> Seq<char> {
    "https://api.github.com/repos/"@ + repo + "/contents/"@ + path + "?ref="@ + branch
}

/// The path of the report of `name` at `version`.
pub open spec fn report_path_of(name: Seq<char>, version: Seq<char>) -> Seq<char> {
    "reports/"@ + name + "/"@ + version + ".json"@
}

/// The path of the signature of that report.
pub open spec fn report_signature_path_of(name: Seq<char>, version: Seq<char>) -> Seq<char> {
    "reports/"@ + name + "/"@ + version + ".json.minisig"@
}

/// The path of the manifest of `name` at `version`.
pub open spec fn manifest_path_of(name: Seq<char>, version: Seq<char>) -> Seq<char> {
    "reports/_manifests/"@ + name + "-"@ + version + ".json"@
}

/// The path of the signature of that manifest.
pub open spec fn manifest_signature_path_of(name: Seq<char>, version: Seq<char>) -> Seq<char> {
    "reports/_manifests/"@ + name + "-"@ + version + ".json.minisig"@
}

/// Why a request about `name` at `version` may not be made, if it may not:
/// the name must be a crate name and the version a semantic version.
pub open spec fn request_problem(name: Seq<char>, version: Seq<char>) -> Option<ErrorView> {
    match crate_name_problem(name) {
        Some(reason) => Some(input_error(reason)),
        None => match semver_version_parse(version) {
            Err(m) => Some(input_error("invalid version '"@ + version + "': "@ + m)),
            Ok(_) => None,
        },
    }
}

/// A URL, or why the request may not be made.
pub open spec fn guarded_url(problem: Option<ErrorView>, url: Seq<char>, r: Result<String>) -> bool {
    match problem {
        Some(v) => r matches Err(e) && e@ == v,
        None => r matches Ok(u) && u@ == url,
    }
}

/// The GitHub client reads `url`: the body, or the error explaining why not.
pub open spec fn contents_response(url: Seq<char>, outcome: HttpOutcome) -> std::result::Result<
    Seq<char>,
    ErrorView,
> {
    match outcome {
        HttpOutcome::Status(code) => Err(
            if code == 404 {
                ErrorView::ReportNotFound { name: url, version: Seq::empty() }
            } else {
                ErrorView::GitHubApi("HTTP "@ + decimal(code as nat) + " from "@ + url)
            },
        ),
        HttpOutcome::Transport(m) => Err(
            ErrorView::Network("request to "@ + url + " failed: "@ + m@),
        ),
        HttpOutcome::ReadFailed(m) => Err(
            ErrorView::Network("failed to read response from "@ + url + ": "@ + m@),
        ),
        HttpOutcome::Body(b) => if str_len(b@) > MAX_RESPONSE_SIZE {
            Err(ErrorView::ResponseTooLarge(url, MAX_RESPONSE_SIZE))
        } else {
            Ok(b@)
        },
    }
}

/// Interprets what a request to `url` produced.  A 404 becomes
/// `ReportNotFound`, so that callers can tell "not found" from failures.
pub fn contents_body(url: &str, outcome: HttpOutcome) -> (r: Result<String>)
    ensures
        match contents_response(url@, outcome) {
            Ok(b) => r matches Ok(s) && s@ == b,
            Err(v) => r matches Err(e) && e@ == v,
        },
{
    match outcome {
        HttpOutcome::Status(code) => {
            if code == 404 {
                Err(Error::ReportNotFound { name: owned(url), version: String::new() })
            } else {
                let c = decimal_string(code as u64);
                Err(Error::GitHubApi(cat4("HTTP ", c.as_str(), " from ", url)))
            }
        },
        HttpOutcome::Transport(m) => Err(Error::Network(cat4("request to ", url, " failed: ", m.as_str()))),
        HttpOutcome::ReadFailed(m) => Err(
            Error::Network(cat4("failed to read response from ", url, ": ", m.as_str())),
        ),
        HttpOutcome::Body(b) => {
            if b.as_str().len() > MAX_RESPONSE_SIZE {
                Err(Error::ResponseTooLarge(owned(url), MAX_RESPONSE_SIZE))
            } else {
                Ok(b)
            }
        },
    }
}

/// A read of a file that may not exist: "not found" becomes `None`.
pub fn optional_body(r: Result<String>) -> (o: Result<Option<String>>)
    ensures
        match r {
            Ok(b) => o matches Ok(Some(s)) && s@ == b@,
            Err(e) => if e@ is ReportNotFound {
                o matches Ok(None)
            } else {
                o matches Err(e2) && e2@ == e@
            },
        },
{
    match r {
        Ok(b) => Ok(Some(b)),
        Err(Error::ReportNotFound { .. }) => Ok(None),
        Err(e) => Err(e),
    }
}

impl GitHubClient {
    /// Create a new GitHub API client.
    ///
    /// - `repo`   — owner/name, e.g. `"ShadowArcanist/safe-cargo"`
    /// - `branch` — branch where reports live, e.g. `"main"`
    /// - `token`  — GitHub personal access token (never logged)
    pub fn new(repo: &str, branch: &str, token: &str) -> (c: Self)
        ensures
            c@ == (GitHubClientView { repo: repo@, branch: branch@, token: token@ }),
    {
        GitHubClient { token: owned(token), repo: owned(repo), branch: owned(branch) }
    }

    /// The repository, `owner/name`.
    pub fn repo(&self) -> (r: &str)
        ensures
            r@ == self@.repo,
    {
        self.repo.as_str()
    }

    /// The value of the `Authorization` header.
    pub fn authorization(&self) -> (r: String)
        ensures
            r@ == "Bearer "@ + self@.token,
    {
        cat2("Bearer ", self.token.as_str())
    }

    /// Build the GitHub Contents API URL for the given file path.
    pub fn contents_url(&self, path: &str) -> (r: String)
        ensures
            r@ == contents_url_of(self@.repo, path@, self@.branch),
    {
        cat5(
            "https://api.github.com/repos/",
            self.repo.as_str(),
            "/contents/",
            path,
            cat2("?ref=", self.branch.as_str()).as_str(),
        )
    }

    fn check_request(name: &str, ver: &str) -> (r: Result<()>)
        ensures
            match request_problem(name@, ver@) {
                Some(v) => r matches Err(e) && e@ == v,
                None => r is Ok,
            },
    {
        match crate_name(name) {
            Err(e) => Err(e),
            Ok(()) => version(ver),
        }
    }

    /// The URL of the report of `name` at `ver`.
    pub fn report_url(&self, name: &str, ver: &str) -> (r: Result<String>)
        ensures
            guarded_url(
                request_problem(name@, ver@),
                contents_url_of(self@.repo, report_path_of(name@, ver@), self@.branch),
                r,
            ),
    {
        match Self::check_request(name, ver) {
            Err(e) => Err(e),
            Ok(()) => {
                let path = cat5("reports/", name, "/", ver, ".json");
                Ok(self.contents_url(path.as_str()))
            },
        }
    }

    /// The URL of the signature of the report of `name` at `ver`.
    pub fn report_signature_url(&self, name: &str, ver: &str) -> (r: Result<String>)
        ensures
            guarded_url(
                request_problem(name@, ver@),
                contents_url_of(self@.repo, report_signature_path_of(name@, ver@), self@.branch),
                r,
            ),
    {
        match Self::check_request(name, ver) {
            Err(e) => Err(e),
            Ok(()) => {
                let path = cat5("reports/", name, "/", ver, ".json.minisig");
                Ok(self.contents_url(path.as_str()))
            },
        }
    }

    /// The URL of the manifest of `name` at `ver`.
    pub fn manifest_url(&self, name: &str, ver: &str) -> (r: Result<String>)
        ensures
            guarded_url(
                request_problem(name@, ver@),
                contents_url_of(self@.repo, manifest_path_of(name@, ver@), self@.branch),
                r,
            ),
    {
        match Self::check_request(name, ver) {
            Err(e) => Err(e),
            Ok(()) => {
                let path = cat5("reports/_manifests/", name, "-", ver, ".json");
                Ok(self.contents_url(path.as_str()))
            },
        }
    }

    /// The URL of the signature of the manifest of `name` at `ver`.
    pub fn manifest_signature_url(&self, name: &str, ver: &str) -> (r: Result<String>)
        ensures
            guarded_url(
                request_problem(name@, ver@),
                contents_url_of(self@.repo, manifest_signature_path_of(name@, ver@), self@.branch),
                r,
            ),
    {
        match Self::check_request(name, ver) {
            Err(e) => Err(e),
            Ok(()) => {
                let path = cat5("reports/_manifests/", name, "-", ver, ".json.minisig");
                Ok(self.contents_url(path.as_str()))
            },
        }
    }

    /// The URL that dispatches the analysis workflow for `crate_name` at
    /// `ver`.  The GitHub API does not return a run id, so this URL is also
    /// what a trigger reports back.
    pub fn workflow_dispatch_url(&self, crate_name: &str, ver: &str) -> (r: Result<String>)
        ensures
            guarded_url(
                request_problem(crate_name@, ver@),
                "https://api.github.com/repos/"@ + self@.repo
                    + "/actions/workflows/analyze.yml/dispatches"@,
                r,
            ),
    {
        match Self::check_request(crate_name, ver) {
            Err(e) => Err(e),
            Ok(()) => Ok(
                cat3(
                    "https://api.github.com/repos/",
                    self.repo.as_str(),
                    "/actions/workflows/analyze.yml/dispatches",
                ),
            ),
        }
    }

    /// The URL listing the open pull requests whose head branch is
    /// `analyze/{crate_name}-*`.
    pub fn latest_pr_url(&self, crate_name_text: &str) -> (r: Result<String>)
        ensures
            guarded_url(
                match crate_name_problem(crate_name_text@) {
                    Some(reason) => Some(input_error(reason)),
                    None => None,
                },
                "https://api.github.com/repos/"@ + self@.repo + "/pulls?state=open&head="@
                    + self@.repo + ":analyze/"@ + crate_name_text@ + "-"@,
                r,
            ),
    {
        match crate_name(crate_name_text) {
            Err(e) => Err(e),
            Ok(()) => {
                let head = cat4(
                    "https://api.github.com/repos/",
                    self.repo.as_str(),
                    "/pulls?state=open&head=",
                    self.repo.as_str(),
                );
                Ok(cat4(head.as_str(), ":analyze/", crate_name_text, "-"))
            },
        }
    }
}

} // verus!
