//! The two hash functions of the protocol.

use vstd::prelude::*;

verus! {

/// The Keccak-256 hash of `data`.
pub uninterp spec fn keccak256_hash(data: Seq<u8>) -> Seq<u8>;

/// The SHA-256 hash of `data`.
pub uninterp spec fn sha256_hash(data: Seq<u8>) -> Seq<u8>;

/// Calls `ethers_core::utils::keccak256`, which gives the Keccak-256 hash of the bytes: a
/// function of the bytes alone, 32 bytes long.
#[verifier::external_body]
pub(crate) fn keccak256(data: &[u8]) -> (r: [u8; 32])
    ensures
        r@ == keccak256_hash(data@),
{
    ethers_core::utils::keccak256(data)
}

/// Calls `sha2::Sha256::digest`, which gives the SHA-256 hash of the bytes: a function of
/// the bytes alone, 32 bytes long.
#[verifier::external_body]
pub(crate) fn sha256(data: &[u8]) -> (r: [u8; 32])
    ensures
        r@ == sha256_hash(data@),
{
    <sha2::Sha256 as sha2::Digest>::digest(data).into()
}

} // verus!
