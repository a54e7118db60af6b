//! Minisign signature verification of reports and manifests.
//!
//! A [`VerifyingKey`] holds a decoded `minisign_verify::PublicKey` next to
//! the text it was decoded from, and a [`DetachedSignature`] holds a decoded
//! `minisign_verify::Signature` next to its text.  Their fields are private
//! and set only by the decoding functions of this module, from the very
//! text they decode, so each value is viewed as its text.
use vstd::prelude::*;

use crate::error::{Error, ErrorView, Result};
use crate::text::{cat2, owned};

verus! {

#[verifier::external_type_specification]
#[verifier::external_body]
pub struct ExMinisignPublicKey(::minisign_verify::PublicKey);

#[verifier::external_type_specification]
#[verifier::external_body]
pub struct ExMinisignSignature(::minisign_verify::Signature);

/// What `minisign_verify::PublicKey::from_base64` returns for the text:
/// success, or the message (`Display`) of the error.
pub uninterp spec fn minisign_public_key_from_base64(text: Seq<char>) -> std::result::Result<
    (),
    Seq<char>,
>;

/// What `minisign_verify::Signature::decode` returns for the text:
/// success, or the message (`Display`) of the error.
pub uninterp spec fn minisign_signature_decode(text: Seq<char>) -> std::result::Result<
    (),
    Seq<char>,
>;

/// What `minisign_verify::PublicKey::verify` (legacy signatures refused)
/// returns for the key decoded from `key`, the bytes `data` and the
/// signature decoded from `signature`: success, or the message of the error.
pub uninterp spec fn minisign_verify(
    key: Seq<char>,
    data: Seq<u8>,
    signature: Seq<char>,
) -> std::result::Result<(), Seq<char>>;

/// A decoded minisign public key, viewed as its base64 text.
pub struct VerifyingKey {
    key: ::minisign_verify::PublicKey,
    text: String,
}

impl View for VerifyingKey {
    type V = Seq<char>;

    closed spec fn view(&self) -> Seq<char> {
        self.text@
    }
}

/// A decoded minisign signature, viewed as its text.
pub struct DetachedSignature {
    signature: ::minisign_verify::Signature,
    text: String,
}

impl View for DetachedSignature {
    type V = Seq<char>;

    closed spec fn view(&self) -> Seq<char> {
        self.text@
    }
}

/// Decodes a public key with `minisign_verify::PublicKey::from_base64`.
#[verifier::external_body]
fn decode_public_key(text: &str) -> (r: std::result::Result<VerifyingKey, String>)
    ensures
        match r {
            Ok(k) => k@ == text@ && minisign_public_key_from_base64(text@) is Ok,
            Err(m) => minisign_public_key_from_base64(text@) == Err::<(), Seq<char>>(m@),
        },
{
    match ::minisign_verify::PublicKey::from_base64(text) {
        Ok(key) => Ok(VerifyingKey { key, text: text.to_string() }),
        Err(e) => Err(e.to_string()),
    }
}

/// Decodes a signature with `minisign_verify::Signature::decode`.
#[verifier::external_body]
fn decode_signature(text: &str) -> (r: std::result::Result<DetachedSignature, String>)
    ensures
        match r {
            Ok(s) => s@ == text@ && minisign_signature_decode(text@) is Ok,
            Err(m) => minisign_signature_decode(text@) == Err::<(), Seq<char>>(m@),
        },
{
    match ::minisign_verify::Signature::decode(text) {
        Ok(signature) => Ok(DetachedSignature { signature, text: text.to_string() }),
        Err(e) => Err(e.to_string()),
    }
}

/// Checks `signature` over `data` with `minisign_verify::PublicKey::verify`,
/// legacy signatures refused.
#[verifier::external_body]
fn check_signature(key: &VerifyingKey, data: &[u8], signature: &DetachedSignature) -> (r:
    std::result::Result<(), String>)
    ensures
        match r {
            Ok(()) => minisign_verify(key@, data@, signature@) is Ok,
            Err(m) => minisign_verify(key@, data@, signature@) == Err::<(), Seq<char>>(m@),
        },
{
    key.key.verify(data, &signature.signature, false).map_err(|e| e.to_string())
}

/// What [`verify`] reports for a key text, the signed bytes and a
/// signature text.
pub open spec fn verification(key: Seq<char>, data: Seq<u8>, signature: Seq<char>) -> std::result::Result<
    (),
    ErrorView,
> {
    match minisign_public_key_from_base64(key) {
        Err(m) => Err(
            ErrorView::ConfigParse {
                path: "<signing_key>"@,
                reason: "invalid signing public key: "@ + m,
            },
        ),
        Ok(_) => match minisign_signature_decode(signature) {
            Err(m) => Err(
                ErrorView::ReportParse {
                    name: "<signature>"@,
                    reason: "invalid signature format: "@ + m,
                },
            ),
            Ok(_) => match minisign_verify(key, data, signature) {
                Err(m) => Err(
                    ErrorView::ReportParse {
                        name: "<signature>"@,
                        reason: "signature verification failed: "@ + m,
                    },
                ),
                Ok(_) => Ok(()),
            },
        },
    }
}

/// The signature text is a valid minisign signature of `data` by the key
/// whose base64 text is `key`.
pub open spec fn signature_accepted(key: Seq<char>, data: Seq<u8>, signature: Seq<char>) -> bool {
    verification(key, data, signature) is Ok
}

/// Verify a minisign signature against the given public key and data.
/// Returns Ok(()) if valid, Err if invalid or missing key.
pub fn verify(public_key_str: &str, data: &[u8], signature_str: &str) -> (r: Result<()>)
    ensures
        match verification(public_key_str@, data@, signature_str@) {
            Ok(_) => r is Ok,
            Err(v) => r matches Err(e) && e@ == v,
        },
{
    let pk = match decode_public_key(public_key_str) {
        Ok(k) => k,
        Err(m) => {
            return Err(
                Error::ConfigParse {
                    path: owned("<signing_key>"),
                    reason: cat2("invalid signing public key: ", m.as_str()),
                },
            );
        },
    };
    let sig = match decode_signature(signature_str) {
        Ok(s) => s,
        Err(m) => {
            return Err(
                Error::ReportParse {
                    name: owned("<signature>"),
                    reason: cat2("invalid signature format: ", m.as_str()),
                },
            );
        },
    };
    match check_signature(&pk, data, &sig) {
        Ok(()) => Ok(()),
        Err(m) => Err(
            Error::ReportParse {
                name: owned("<signature>"),
                reason: cat2("signature verification failed: ", m.as_str()),
            },
        ),
    }
}

/// Whether `text` decodes as a minisign public key.
pub fn is_valid_public_key(text: &str) -> (r: bool)
    ensures
        r == (minisign_public_key_from_base64(text@) is Ok),
{
    decode_public_key(text).is_ok()
}

} // verus!
