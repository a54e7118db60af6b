//! The registry token, kept in the platform credential store through the
//! `keyring` crate under the service name `safe-cargo`, one entry per
//! repository.
//!
//! What the store answers depends on the machine; the functions here state
//! which error each kind of failure becomes.
use vstd::prelude::*;

use crate::error::{Error, ErrorView, Result};
use crate::text::owned;

verus! {

#[verifier::external_type_specification]
#[verifier::external_body]
pub struct ExKeyringEntry(::keyring::Entry);

/// The service name under which tokens are stored.
pub const SERVICE_NAME: &'static str = "safe-cargo";

/// How a credential-store operation failed, with the failure's message.
#[derive(Debug)]
pub enum KeyringFailure {
    /// No credential is stored for the entry.
    NoEntry(String),
    /// More than one credential matches the entry.
    Ambiguous(String),
    /// The platform store failed.
    PlatformFailure(String),
    /// Any other failure.
    Other(String),
}

/// The message a failure carries.
pub open spec fn failure_message(f: KeyringFailure) -> Seq<char> {
    match f {
        KeyringFailure::NoEntry(m) => m@,
        KeyringFailure::Ambiguous(m) => m@,
        KeyringFailure::PlatformFailure(m) => m@,
        KeyringFailure::Other(m) => m@,
    }
}

/// An entry of the credential store, viewed as the service and user it was
/// created for.  Its fields are private and set only by [`keyring_entry`],
/// from the very service and user it hands to `keyring::Entry::new`.
pub struct CredentialEntry {
    entry: ::keyring::Entry,
    service: String,
    user: String,
}

impl View for CredentialEntry {
    /// The service and the user.
    type V = (Seq<char>, Seq<char>);

    closed spec fn view(&self) -> (Seq<char>, Seq<char>) {
        (self.service@, self.user@)
    }
}

/// `keyring::Entry::new`, the error becoming its message.  Whether it
/// succeeds depends on the platform's credential store; an entry it gives
/// is the one for `service` and `user`.
#[verifier::external_body]
fn keyring_entry(service: &str, user: &str) -> (r: std::result::Result<CredentialEntry, String>)
    ensures
        r matches Ok(e) ==> e@ == (service@, user@),
{
    match ::keyring::Entry::new(service, user) {
        Ok(entry) => Ok(CredentialEntry { entry, service: service.to_string(), user: user.to_string() }),
        Err(e) => Err(e.to_string()),
    }
}

/// `keyring::Entry::set_password`; the store decides the outcome.
#[verifier::external_body]
fn keyring_set_password(entry: &CredentialEntry, password: &str) -> (r: std::result::Result<
    (),
    KeyringFailure,
>) {
    match entry.entry.set_password(password) {
        Ok(()) => Ok(()),
        Err(e) => {
            let m = e.to_string();
            Err(
                match e {
                    ::keyring::Error::NoEntry => KeyringFailure::NoEntry(m),
                    ::keyring::Error::Ambiguous(_) => KeyringFailure::Ambiguous(m),
                    ::keyring::Error::PlatformFailure(_) => KeyringFailure::PlatformFailure(m),
                    _ => KeyringFailure::Other(m),
                },
            )
        },
    }
}

/// `keyring::Entry::get_password`; the store decides the outcome.
#[verifier::external_body]
fn keyring_get_password(entry: &CredentialEntry) -> (r: std::result::Result<String, KeyringFailure>) {
    match entry.entry.get_password() {
        Ok(p) => Ok(p),
        Err(e) => {
            let m = e.to_string();
            Err(
                match e {
                    ::keyring::Error::NoEntry => KeyringFailure::NoEntry(m),
                    ::keyring::Error::Ambiguous(_) => KeyringFailure::Ambiguous(m),
                    ::keyring::Error::PlatformFailure(_) => KeyringFailure::PlatformFailure(m),
                    _ => KeyringFailure::Other(m),
                },
            )
        },
    }
}

/// `keyring::Entry::delete_credential`; the store decides the outcome.
#[verifier::external_body]
fn keyring_delete_credential(entry: &CredentialEntry) -> (r: std::result::Result<
    (),
    KeyringFailure,
>) {
    match entry.entry.delete_credential() {
        Ok(()) => Ok(()),
        Err(e) => {
            let m = e.to_string();
            Err(
                match e {
                    ::keyring::Error::NoEntry => KeyringFailure::NoEntry(m),
                    ::keyring::Error::Ambiguous(_) => KeyringFailure::Ambiguous(m),
                    ::keyring::Error::PlatformFailure(_) => KeyringFailure::PlatformFailure(m),
                    _ => KeyringFailure::Other(m),
                },
            )
        },
    }
}

/// Which operation failed, for the choice of the error of last resort.
#[derive(Debug, Clone, Copy, PartialEq, Eq, Structural)]
pub enum KeychainOperation {
    Store,
    Read,
    Delete,
}

/// The error a failure of `op` on the entry of `repo` becomes: a missing
/// entry means the repository is not configured; ambiguity and platform
/// failures mean access was denied; anything else is a failed store, a
/// denied read or a failed delete.
pub open spec fn keychain_error(repo: Seq<char>, op: KeychainOperation, f: KeyringFailure) -> ErrorView {
    match f {
        KeyringFailure::NoEntry(_) => ErrorView::KeychainNotConfigured { repo },
        KeyringFailure::Ambiguous(m) => ErrorView::KeychainAccessDenied { repo, reason: m@ },
        KeyringFailure::PlatformFailure(m) => ErrorView::KeychainAccessDenied { repo, reason: m@ },
        KeyringFailure::Other(m) => match op {
            KeychainOperation::Store => ErrorView::KeychainStoreFailed { repo, reason: m@ },
            KeychainOperation::Read => ErrorView::KeychainAccessDenied { repo, reason: m@ },
            KeychainOperation::Delete => ErrorView::KeychainDeleteFailed { repo, reason: m@ },
        },
    }
}

/// Maps a failure of `op` on the entry of `repo` to the library's error.
pub fn keychain_failure(repo: &str, op: KeychainOperation, f: KeyringFailure) -> (e: Error)
    ensures
        e@ == keychain_error(repo@, op, f),
{
    match f {
        KeyringFailure::NoEntry(_) => Error::KeychainNotConfigured { repo: owned(repo) },
        KeyringFailure::Ambiguous(m) => Error::KeychainAccessDenied { repo: owned(repo), reason: m },
        KeyringFailure::PlatformFailure(m) => Error::KeychainAccessDenied {
            repo: owned(repo),
            reason: m,
        },
        KeyringFailure::Other(m) => match op {
            KeychainOperation::Store => Error::KeychainStoreFailed { repo: owned(repo), reason: m },
            KeychainOperation::Read => Error::KeychainAccessDenied { repo: owned(repo), reason: m },
            KeychainOperation::Delete => Error::KeychainDeleteFailed {
                repo: owned(repo),
                reason: m,
            },
        },
    }
}

/// The error is an access denial for the entry of `repo`.
pub open spec fn denied_for(repo: Seq<char>, e: ErrorView) -> bool {
    e matches ErrorView::KeychainAccessDenied { repo: r, .. } && r == repo
}

/// Build a keyring `Entry` with our fixed service name and the repo as the
/// account identifier.
fn build_entry(repo: &str) -> (r: Result<CredentialEntry>)
    ensures
        r matches Ok(entry) ==> entry@ == (SERVICE_NAME@, repo@),
        r matches Err(e) ==> denied_for(repo@, e@),
{
    match keyring_entry(SERVICE_NAME, repo) {
        Ok(entry) => Ok(entry),
        Err(m) => Err(Error::KeychainAccessDenied { repo: owned(repo), reason: m }),
    }
}

/// The error is one that the credential store can cause for `op` on the
/// entry of `repo`.
pub open spec fn store_error(repo: Seq<char>, op: KeychainOperation, e: ErrorView) -> bool {
    match e {
        ErrorView::KeychainNotConfigured { repo: r } => r == repo,
        ErrorView::KeychainAccessDenied { repo: r, .. } => r == repo,
        ErrorView::KeychainStoreFailed { repo: r, .. } => r == repo && op
            == KeychainOperation::Store,
        ErrorView::KeychainDeleteFailed { repo: r, .. } => r == repo && op
            == KeychainOperation::Delete,
        _ => false,
    }
}

/// The error is one a call of `op` on the entry of `repo` reports: the
/// store refused to create the entry (access denied), or the store's
/// failure of the operation, mapped by [`keychain_error`].
pub open spec fn reported_error(repo: Seq<char>, op: KeychainOperation, e: ErrorView) -> bool {
    denied_for(repo, e) || exists|f: KeyringFailure| e == #[trigger] keychain_error(repo, op, f)
}

/// Store a GitHub token in the platform credential store for the given
/// repository.
pub fn store_credentials(repo: &str, token: &str) -> (r: Result<()>)
    ensures
        r matches Err(e) ==> store_error(repo@, KeychainOperation::Store, e@),
        r matches Err(e) ==> reported_error(repo@, KeychainOperation::Store, e@),
{
    let entry = match build_entry(repo) {
        Ok(entry) => entry,
        Err(e) => {
            return Err(e);
        },
    };
    match keyring_set_password(&entry, token) {
        Ok(()) => Ok(()),
        Err(f) => {
            let e = keychain_failure(repo, KeychainOperation::Store, f);
            Err(e)
        },
    }
}

/// Retrieve a previously stored GitHub token for the given repository.
pub fn get_token(repo: &str) -> (r: Result<String>)
    ensures
        r matches Err(e) ==> store_error(repo@, KeychainOperation::Read, e@),
        r matches Err(e) ==> reported_error(repo@, KeychainOperation::Read, e@),
{
    let entry = match build_entry(repo) {
        Ok(entry) => entry,
        Err(e) => {
            return Err(e);
        },
    };
    match keyring_get_password(&entry) {
        Ok(p) => Ok(p),
        Err(f) => Err(keychain_failure(repo, KeychainOperation::Read, f)),
    }
}

/// Remove the stored token of the given repository.
pub fn delete_credentials(repo: &str) -> (r: Result<()>)
    ensures
        r matches Err(e) ==> store_error(repo@, KeychainOperation::Delete, e@),
        r matches Err(e) ==> reported_error(repo@, KeychainOperation::Delete, e@),
{
    let entry = match build_entry(repo) {
        Ok(entry) => entry,
        Err(e) => {
            return Err(e);
        },
    };
    match keyring_delete_credential(&entry) {
        Ok(()) => Ok(()),
        Err(f) => Err(keychain_failure(repo, KeychainOperation::Delete, f)),
    }
}

/// What a lookup outcome says about whether a token is stored: a token
/// means yes, a missing entry means no, and any other failure is an error
/// (access denied, with the failure's message).
pub fn credentials_present(repo: &str, lookup: std::result::Result<String, KeyringFailure>) -> (r:
    Result<bool>)
    ensures
        match lookup {
            Ok(_) => r == Ok::<bool, Error>(true),
            Err(KeyringFailure::NoEntry(_)) => r == Ok::<bool, Error>(false),
            Err(f) => r matches Err(e) && e@ == (ErrorView::KeychainAccessDenied {
                repo: repo@,
                reason: failure_message(f),
            }),
        },
{
    match lookup {
        Ok(_) => Ok(true),
        Err(KeyringFailure::NoEntry(_)) => Ok(false),
        Err(KeyringFailure::Ambiguous(m)) => Err(
            Error::KeychainAccessDenied { repo: owned(repo), reason: m },
        ),
        Err(KeyringFailure::PlatformFailure(m)) => Err(
            Error::KeychainAccessDenied { repo: owned(repo), reason: m },
        ),
        Err(KeyringFailure::Other(m)) => Err(
            Error::KeychainAccessDenied { repo: owned(repo), reason: m },
        ),
    }
}

/// Check whether credentials are stored for the given repository.
///
/// Returns `true` if a token exists, `false` if no entry is found.
/// Propagates other keychain errors.
pub fn has_credentials(repo: &str) -> (r: Result<bool>)
    ensures
        r matches Err(e) ==> denied_for(repo@, e@),
{
    let entry = match build_entry(repo) {
        Ok(entry) => entry,
        Err(e) => {
            return Err(e);
        },
    };
    credentials_present(repo, keyring_get_password(&entry))
}

} // verus!
