//! Cryptographic digests, computed by the Solana SDK.

use vstd::prelude::*;

verus! {

/// The Keccak-256 digest of a byte string.
pub uninterp spec fn keccak256_of(data: Seq<u8>) -> [u8; 32];

/// The SHA-256 digest of a byte string.
pub uninterp spec fn sha256_of(data: Seq<u8>) -> [u8; 32];

/// Whether two byte strings differ and have the same Keccak-256 digest.
pub open spec fn collide(a: Seq<u8>, b: Seq<u8>) -> bool {
    a != b && keccak256_of(a) == keccak256_of(b)
}

/// Calls `anchor_lang::solana_program::keccak::hashv` on the one slice `data` and
/// returns the bytes of the digest. Trusted: the digest is a function of the
/// bytes of `data` alone.
#[verifier::external_body]
pub(crate) fn keccak256(data: &[u8]) -> (digest: [u8; 32])
    ensures
        digest == keccak256_of(data@),
{
    anchor_lang::solana_program::keccak::hashv(&[data]).to_bytes()
}

/// Calls `anchor_lang::solana_program::hash::hash`, which is SHA-256, on `data` and
/// returns the bytes of the digest. Trusted: the digest is a function of the
/// bytes of `data` alone.
#[verifier::external_body]
pub(crate) fn sha256(data: &[u8]) -> (digest: [u8; 32])
    ensures
        digest == sha256_of(data@),
{
    anchor_lang::solana_program::hash::hash(data).to_bytes()
}

} // verus!
