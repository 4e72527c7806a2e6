//! The hash functions that the module uses.

use vstd::prelude::*;
use sha3::{Digest, Keccak256};
use crate::primitives::H256;

verus! {

/// The Keccak-256 hash of a byte string.
pub uninterp spec fn keccak256_of(data: Seq<u8>) -> H256;

/// The 256-bit Blake2b hash of a byte string.
pub uninterp spec fn blake2_256_of(data: Seq<u8>) -> H256;

/// `sha3::Keccak256::digest`: the Keccak-256 hash of a byte string, a function of the bytes
/// alone.
#[verifier::external_body]
pub(crate) fn keccak256(data: &[u8]) -> (r: H256)
    ensures
        r == keccak256_of(data@),
{
    H256(Keccak256::digest(data).into())
}

/// `hash` of `sp_core::Blake2Hasher`: the 256-bit Blake2b hash of a byte string, a function of
/// the bytes alone.
#[verifier::external_body]
fn blake2_256(data: &[u8]) -> (r: H256)
    ensures
        r == blake2_256_of(data@),
{
    H256(<sp_core::Blake2Hasher as sp_core::Hasher>::hash(data).0)
}

/// A hash function.
pub trait Hasher {
    /// The hash of a byte string.
    ///
    /// An implementation that Verus does not read may leave this as it is.
    open spec fn digest(data: Seq<u8>) -> Seq<u8> {
        arbitrary()
    }

    /// Compute the hash of a byte string.
    fn hash(data: &[u8]) -> (r: Vec<u8>)
        ensures
            r@ == Self::digest(data@),
    ;
}

/// 256-bit Blake2b.
#[derive(Debug)]
pub struct BlakeTwo256;

impl Hasher for BlakeTwo256 {
    open spec fn digest(data: Seq<u8>) -> Seq<u8> {
        blake2_256_of(data).0@
    }

    fn hash(data: &[u8]) -> (r: Vec<u8>) {
        let hash = blake2_256(data);
        let mut bytes: Vec<u8> = Vec::new();
        let mut i: usize = 0;
        while i < 32
            invariant
                i <= 32,
                bytes@ == hash.0@.take(i as int),
            decreases 32 - i,
        {
            bytes.push(hash.0[i]);
            assert(bytes@ =~= hash.0@.take(i + 1));
            i = i + 1;
        }
        assert(hash.0@.take(32) =~= hash.0@);
        bytes
    }
}

} // verus!
