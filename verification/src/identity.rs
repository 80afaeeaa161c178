//! Content identities: every document, statement and url is known by the
//! 64-bit XXH3 digest of its bytes.

use vstd::prelude::*;

verus! {

/// The 64-bit XXH3 digest (seed 0, default secret) of a byte string.
pub uninterp spec fn xxh3_digest(bytes: Seq<u8>) -> u64;

/// Calls `xxhash_rust::xxh3::xxh3_64`. Trusted: the digest is a function of
/// the input bytes alone, which is what gives it a name in contracts.
#[verifier::external_body]
fn xxh3(bytes: &[u8]) -> (digest: u64)
    ensures
        digest == xxh3_digest(bytes@),
{
    xxhash_rust::xxh3::xxh3_64(bytes)
}

/// The signed reading of a digest: the same 64 bits as a two's complement
/// integer, the form in which the store keeps identities.
pub open spec fn signed_id(digest: u64) -> i64 {
    if digest < 0x8000_0000_0000_0000 {
        digest as i64
    } else {
        (digest - 0x1_0000_0000_0000_0000) as i64
    }
}

/// The identity of a byte string.
pub open spec fn content_id(bytes: Seq<u8>) -> i64 {
    signed_id(xxh3_digest(bytes))
}

/// Digest of `bytes`, unsigned.
pub fn digest_of(bytes: &[u8]) -> (digest: u64)
    ensures
        digest == xxh3_digest(bytes@),
{
    xxh3(bytes)
}

/// Reinterprets a digest as the signed identity with the same bits.
pub fn to_signed(digest: u64) -> (id: i64)
    ensures
        id == signed_id(digest),
{
    if digest < 0x8000_0000_0000_0000 {
        digest as i64
    } else {
        let low: u64 = digest - 0x8000_0000_0000_0000;
        (low as i64) + i64::MIN
    }
}

/// Identity of `bytes`: its digest, signed.
pub fn content_hash(bytes: &[u8]) -> (id: i64)
    ensures
        id == content_id(bytes@),
{
    to_signed(xxh3(bytes))
}

} // verus!
