use vstd::prelude::*;
use base64::Engine;
use p384::ecdsa::signature::DigestVerifier;
use sha2::Digest;

verus! {

/// Whether `b` is a fixed-width P-384 ECDSA signature (`r ‖ s`, 96 bytes)
/// with both scalars in range.
pub uninterp spec fn p384_signature_valid(b: Seq<u8>) -> bool;

/// Whether `sig` (fixed-width) is a valid P-384 ECDSA signature over the
/// SHA-384 digest of `msg` under the SEC1-encoded public key `key`.
pub uninterp spec fn p384_sha384_verifies(key: Seq<u8>, msg: Seq<u8>, sig: Seq<u8>) -> bool;

/// Whether `sig` (ASN.1 DER) is a valid P-384 ECDSA signature over the
/// SHA-384 digest of `msg` under the SEC1-encoded public key `key`.
pub uninterp spec fn p384_sha384_der_verifies(key: Seq<u8>, msg: Seq<u8>, sig: Seq<u8>) -> bool;

/// The bytes that standard padded base64 text decodes to, if it decodes.
pub uninterp spec fn base64_standard_decode(text: Seq<char>) -> Option<Seq<u8>>;

/// The bytes that standard unpadded base64 text decodes to, if it decodes.
pub uninterp spec fn base64_no_pad_decode(text: Seq<u8>) -> Option<Seq<u8>>;

/// Relies on p384's `Signature::from_slice`: it accepts exactly the 96-byte
/// slices whose two halves are scalars in `1..n`.
#[verifier::external_body]
pub(crate) fn signature_bytes_valid(b: &[u8]) -> (r: bool)
    ensures
        r == p384_signature_valid(b@),
        r ==> b@.len() == 96,
{
    p384::ecdsa::Signature::from_slice(b).is_ok()
}

/// Relies on p384's `VerifyingKey::from_sec1_bytes`, `Signature::from_slice`
/// and `verify_digest` with a SHA-384 digest: true exactly when the key
/// parses, the signature parses and the signature verifies.
#[verifier::external_body]
pub(crate) fn verify_sha384_signature(key: &[u8], msg: &[u8], sig: &[u8]) -> (r: bool)
    ensures
        r == p384_sha384_verifies(key@, msg@, sig@),
        r ==> p384_signature_valid(sig@),
{
    match (p384::ecdsa::VerifyingKey::from_sec1_bytes(key), p384::ecdsa::Signature::from_slice(sig)) {
        (Ok(k), Ok(s)) => k.verify_digest(sha2::Sha384::new_with_prefix(msg), &s).is_ok(),
        _ => false,
    }
}

/// Relies on p384's `VerifyingKey::from_sec1_bytes`, `Signature::from_der`
/// and `verify_digest` with a SHA-384 digest: true exactly when the key
/// parses, the DER signature parses and the signature verifies.
#[verifier::external_body]
pub(crate) fn verify_sha384_der_signature(key: &[u8], msg: &[u8], sig: &[u8]) -> (r: bool)
    ensures
        r == p384_sha384_der_verifies(key@, msg@, sig@),
{
    match (p384::ecdsa::VerifyingKey::from_sec1_bytes(key), p384::ecdsa::Signature::from_der(sig)) {
        (Ok(k), Ok(s)) => k.verify_digest(sha2::Sha384::new_with_prefix(msg), &s).is_ok(),
        _ => false,
    }
}

/// Relies on base64's `BASE64_STANDARD.decode`: the decoded bytes, or
/// nothing when the text is not padded standard base64.
#[verifier::external_body]
pub(crate) fn decode_base64_standard(text: &str) -> (r: Option<Vec<u8>>)
    ensures
        match r {
            Some(v) => base64_standard_decode(text@) == Some(v@),
            None => base64_standard_decode(text@) is None,
        },
{
    base64::prelude::BASE64_STANDARD.decode(text).ok()
}

/// Relies on base64's `BASE64_STANDARD_NO_PAD.decode`: the decoded bytes,
/// or nothing when the text is not unpadded standard base64.
#[verifier::external_body]
pub(crate) fn decode_base64_no_pad(text: &[u8]) -> (r: Option<Vec<u8>>)
    ensures
        match r {
            Some(v) => base64_no_pad_decode(text@) == Some(v@),
            None => base64_no_pad_decode(text@) is None,
        },
{
    base64::prelude::BASE64_STANDARD_NO_PAD.decode(text).ok()
}

} // verus!
