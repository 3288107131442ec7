//! Hash functions of the `sha2`, `ripemd` and `sha3` crates.
use sha2::Digest;
use vstd::prelude::*;

verus! {

/// The SHA-256 digest of a byte string.
pub uninterp spec fn sha256_spec(data: Seq<u8>) -> Seq<u8>;

/// The RIPEMD-160 digest of a byte string.
pub uninterp spec fn ripemd160_spec(data: Seq<u8>) -> Seq<u8>;

/// The Keccak-256 digest of a byte string.
pub uninterp spec fn keccak256_spec(data: Seq<u8>) -> Seq<u8>;

/// SHA-256 of `data`.
///
/// Trusted: calls `sha2::Sha256::digest`; the digest is a function of the
/// input alone and is 32 bytes long.
#[verifier::external_body]
pub(crate) fn sha256(data: &[u8]) -> (r: [u8; 32])
    ensures
        r@ == sha256_spec(data@),
{
    sha2::Sha256::digest(data).into()
}

/// RIPEMD-160 of `data`.
///
/// Trusted: calls `ripemd::Ripemd160::digest`; the digest is a function of the
/// input alone and is 20 bytes long.
#[verifier::external_body]
pub(crate) fn ripemd160(data: &[u8]) -> (r: [u8; 20])
    ensures
        r@ == ripemd160_spec(data@),
{
    ripemd::Ripemd160::digest(data).into()
}

/// Keccak-256 of `data`.
///
/// Trusted: calls `sha3::Keccak256::digest`; the digest is a function of the
/// input alone and is 32 bytes long.
#[verifier::external_body]
pub(crate) fn keccak256(data: &[u8]) -> (r: [u8; 32])
    ensures
        r@ == keccak256_spec(data@),
{
    sha3::Keccak256::digest(data).into()
}

} // verus!
