//! The hash functions that storage keys are made of.

use vstd::prelude::*;

verus! {

/// The 128-bit XX hash of a byte string.
pub uninterp spec fn twox_128_of(data: Seq<u8>) -> Seq<u8>;

/// The 128-bit BLAKE2b hash of a byte string.
pub uninterp spec fn blake2_128_of(data: Seq<u8>) -> Seq<u8>;

/// Calls `sp_core::hashing::twox_128`: the result depends on `data` alone and is sixteen
/// bytes long.
#[verifier::external_body]
#[allow(deprecated)]
pub(crate) fn twox_128(data: &[u8]) -> (hash: [u8; 16])
    ensures
        hash@ == twox_128_of(data@),
        hash@.len() == 16,
{
    sp_core::hashing::twox_128(data)
}

/// Calls `sp_core::hashing::blake2_128`: the result depends on `data` alone and is sixteen
/// bytes long.
#[verifier::external_body]
#[allow(deprecated)]
pub(crate) fn blake2_128(data: &[u8]) -> (hash: [u8; 16])
    ensures
        hash@ == blake2_128_of(data@),
        hash@.len() == 16,
{
    sp_core::hashing::blake2_128(data)
}

} // verus!
