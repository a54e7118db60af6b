//! The library's error type and its mathematical view.
use vstd::prelude::*;

verus! {

/// Everything that can go wrong, from configuration to network to policy.
///
/// Paths are held as text, and the errors of the I/O and TOML layers as
/// their messages.
#[derive(Debug)]
pub enum Error {
    ConfigNotFound,
    ConfigParse { path: String, reason: String },
    KeychainNotConfigured { repo: String },
    KeychainAccessDenied { repo: String, reason: String },
    KeychainStoreFailed { repo: String, reason: String },
    KeychainDeleteFailed { repo: String, reason: String },
    Network(String),
    CratesIoApi(String),
    GitHubApi(String),
    ReportNotFound { name: String, version: String },
    ReportParse { name: String, reason: String },
    ScoreTooHigh { name: String, score: u32, max: u32 },
    UnanalyzedDeps { crates: Vec<String> },
    CargoCommandFailed(String),
    CargoNotInstalled,
    SigningRequired,
    ReportIntegrityFailure(String, String),
    ResponseTooLarge(String, usize),
    BlockedPassthrough(String),
    InvalidInput(String),
    Io(String),
    TomlDeserialize(String),
}

/// The library's result type.
pub type Result<T> = std::result::Result<T, Error>;

/// An [`Error`] with every string taken by its characters.
pub enum ErrorView {
    ConfigNotFound,
    ConfigParse { path: Seq<char>, reason: Seq<char> },
    KeychainNotConfigured { repo: Seq<char> },
    KeychainAccessDenied { repo: Seq<char>, reason: Seq<char> },
    KeychainStoreFailed { repo: Seq<char>, reason: Seq<char> },
    KeychainDeleteFailed { repo: Seq<char>, reason: Seq<char> },
    Network(Seq<char>),
    CratesIoApi(Seq<char>),
    GitHubApi(Seq<char>),
    ReportNotFound { name: Seq<char>, version: Seq<char> },
    ReportParse { name: Seq<char>, reason: Seq<char> },
    ScoreTooHigh { name: Seq<char>, score: u32, max: u32 },
    UnanalyzedDeps { crates: Seq<Seq<char>> },
    CargoCommandFailed(Seq<char>),
    CargoNotInstalled,
    SigningRequired,
    ReportIntegrityFailure(Seq<char>, Seq<char>),
    ResponseTooLarge(Seq<char>, usize),
    BlockedPassthrough(Seq<char>),
    InvalidInput(Seq<char>),
    Io(Seq<char>),
    TomlDeserialize(Seq<char>),
}

/// The characters of each string in `v`.
pub open spec fn strings_view(v: Seq<String>) -> Seq<Seq<char>> {
    v.map_values(|s: String| s@)
}

impl View for Error {
    type V = ErrorView;

    open spec fn view(&self) -> ErrorView {
        match self {
            Error::ConfigNotFound => ErrorView::ConfigNotFound,
            Error::ConfigParse { path, reason } => ErrorView::ConfigParse {
                path: path@,
                reason: reason@,
            },
            Error::KeychainNotConfigured { repo } => ErrorView::KeychainNotConfigured {
                repo: repo@,
            },
            Error::KeychainAccessDenied { repo, reason } => ErrorView::KeychainAccessDenied {
                repo: repo@,
                reason: reason@,
            },
            Error::KeychainStoreFailed { repo, reason } => ErrorView::KeychainStoreFailed {
                repo: repo@,
                reason: reason@,
            },
            Error::KeychainDeleteFailed { repo, reason } => ErrorView::KeychainDeleteFailed {
                repo: repo@,
                reason: reason@,
            },
            Error::Network(m) => ErrorView::Network(m@),
            Error::CratesIoApi(m) => ErrorView::CratesIoApi(m@),
            Error::GitHubApi(m) => ErrorView::GitHubApi(m@),
            Error::ReportNotFound { name, version } => ErrorView::ReportNotFound {
                name: name@,
                version: version@,
            },
            Error::ReportParse { name, reason } => ErrorView::ReportParse {
                name: name@,
                reason: reason@,
            },
            Error::ScoreTooHigh { name, score, max } => ErrorView::ScoreTooHigh {
                name: name@,
                score: *score,
                max: *max,
            },
            Error::UnanalyzedDeps { crates } => ErrorView::UnanalyzedDeps {
                crates: strings_view(crates@),
            },
            Error::CargoCommandFailed(m) => ErrorView::CargoCommandFailed(m@),
            Error::CargoNotInstalled => ErrorView::CargoNotInstalled,
            Error::SigningRequired => ErrorView::SigningRequired,
            Error::ReportIntegrityFailure(n, v) => ErrorView::ReportIntegrityFailure(n@, v@),
            Error::ResponseTooLarge(u, n) => ErrorView::ResponseTooLarge(u@, *n),
            Error::BlockedPassthrough(m) => ErrorView::BlockedPassthrough(m@),
            Error::InvalidInput(m) => ErrorView::InvalidInput(m@),
            Error::Io(m) => ErrorView::Io(m@),
            Error::TomlDeserialize(m) => ErrorView::TomlDeserialize(m@),
        }
    }
}

/// The view of a `ConfigParse` error.
pub open spec fn config_parse_view(path: Seq<char>, reason: Seq<char>) -> ErrorView {
    ErrorView::ConfigParse { path, reason }
}

/// A `ConfigParse` error with the given path and reason.
pub fn config_parse(path: &str, reason: String) -> (e: Error)
    ensures
        e@ == config_parse_view(path@, reason@),
{
    Error::ConfigParse { path: path.to_owned(), reason }
}

} // verus!
