//! The hash and the signature scheme, as the `blake2` and `schnorrkel` crates compute them.
//!
//! Nothing about either is proved here. Each function below calls into one of the two
//! crates, and its contract names the crate's answer so that the rest of the library can
//! speak of it.

use blake2::Digest;
use vstd::prelude::*;

verus! {

/// The BLAKE2s-256 digest of `data`.
pub uninterp spec fn blake2s256(data: Seq<u8>) -> [u8; 32];

/// Whether `schnorrkel::PublicKey::from_bytes` accepts `bytes` as a public key.
pub uninterp spec fn schnorrkel_public_key(bytes: Seq<u8>) -> bool;

/// Whether `schnorrkel::Signature::from_bytes` accepts `bytes` as a signature.
pub uninterp spec fn schnorrkel_signature(bytes: Seq<u8>) -> bool;

/// Whether `schnorrkel::PublicKey::verify_simple`, called on the key which `key` decodes to,
/// accepts the signature which `signature` decodes to for `message` under `context`.
pub uninterp spec fn schnorrkel_verify_simple(
    key: Seq<u8>,
    context: Seq<u8>,
    message: Seq<u8>,
    signature: Seq<u8>,
) -> bool;

/// Hashes `data` with `blake2::Blake2s256::digest`.
///
/// Trusted: the digest is a function of the bytes hashed, which the contract names.
#[verifier::external_body]
pub(crate) fn blake2s256_digest(data: &[u8]) -> (hash: [u8; 32])
    ensures
        hash == blake2s256(data@),
{
    blake2::Blake2s256::digest(data).into()
}

/// Asks `schnorrkel::PublicKey::from_bytes` whether `bytes` decode to a public key.
///
/// Trusted: decoding depends on the bytes alone, so its success is named.
#[verifier::external_body]
pub(crate) fn is_public_key(bytes: &[u8; 32]) -> (ok: bool)
    ensures
        ok == schnorrkel_public_key(bytes@),
{
    schnorrkel::PublicKey::from_bytes(bytes).is_ok()
}

/// Asks `schnorrkel::Signature::from_bytes` whether `bytes` decode to a signature.
///
/// Trusted: decoding depends on the bytes alone, so its success is named.
#[verifier::external_body]
pub(crate) fn is_signature(bytes: &[u8; 64]) -> (ok: bool)
    ensures
        ok == schnorrkel_signature(bytes@),
{
    schnorrkel::Signature::from_bytes(bytes).is_ok()
}

/// Verifies `signature` for `message` under `context` with
/// `schnorrkel::PublicKey::verify_simple`.
///
/// Trusted: verification computes a challenge from the context, the message, the key and
/// the signature and compares two points, so its answer depends on these bytes alone and
/// is named. The key and the signature must decode. The context and the message must each
/// be shorter than 2^32 bytes, as the transcript which they are absorbed into writes their
/// lengths in four bytes and panics on a longer one.
#[verifier::external_body]
pub(crate) fn verify_simple(
    key: &[u8; 32],
    context: &[u8],
    message: &[u8],
    signature: &[u8; 64],
) -> (ok: bool)
    requires
        schnorrkel_public_key(key@),
        schnorrkel_signature(signature@),
        context@.len() <= u32::MAX,
        message@.len() <= u32::MAX,
    ensures
        ok == schnorrkel_verify_simple(key@, context@, message@, signature@),
{
    let (Ok(key), Ok(signature)) =
        (schnorrkel::PublicKey::from_bytes(key), schnorrkel::Signature::from_bytes(signature))
    else {
        return false;
    };
    key.verify_simple(context, message, &signature).is_ok()
}

} // verus!
