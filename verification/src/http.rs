//! What the HTTP exchanges of the front end produce.
use vstd::prelude::*;

verus! {

/// The largest response body accepted, in bytes (2 MiB).
pub const MAX_RESPONSE_SIZE: usize = 2097152;

/// What an HTTP exchange produced.
#[derive(Debug)]
pub enum HttpOutcome {
    /// A success status and the body read, at most one byte past the limit.
    Body(String),
    /// An error status code.
    Status(u16),
    /// The request failed before a status arrived; the message of the failure.
    Transport(String),
    /// The body could not be read; the message of the failure.
    ReadFailed(String),
}

} // verus!
