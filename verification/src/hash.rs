//! The hash functions behind keys, salts, secrets and topics.

use sha2::Digest;
use vstd::prelude::*;

verus! {

/// The SHA-256 digest of a message.
pub uninterp spec fn sha256_digest(message: Seq<u8>) -> Seq<u8>;

/// The BLAKE3 hash of a message, at its default length.
pub uninterp spec fn blake3_digest(message: Seq<u8>) -> Seq<u8>;

/// Calls `sha2::Sha256::digest`: the SHA-256 digest of the whole message, which is a function of
/// the message alone and 32 bytes long.
#[verifier::external_body]
pub(crate) fn sha256(message: &[u8]) -> (r: [u8; 32])
    ensures
        r@ == sha256_digest(message@),
{
    sha2::Sha256::digest(message).into()
}

/// Calls `blake3::hash`: the BLAKE3 hash of the whole message, which is a function of the message
/// alone and 32 bytes long.
#[verifier::external_body]
pub(crate) fn blake3(message: &[u8]) -> (r: [u8; 32])
    ensures
        r@ == blake3_digest(message@),
{
    *blake3::hash(message).as_bytes()
}

} // verus!
