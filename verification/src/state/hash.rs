//! Hash functions for the state trie.
use vstd::prelude::*;
use crate::crypto::digest::{keccak256, keccak256_spec};
use crate::uint::H256;

verus! {

/// A configurable hash function for the state trie.
pub trait StateHasher {
    fn hash_node(&self, left: &H256, right: &H256) -> H256;

    fn hash_leaf(&self, key: &H256, value: &[u8]) -> H256;
}

/// The Keccak-256 hasher (Ethereum-compatible).
#[derive(Default)]
pub struct Keccak256Hasher;

impl StateHasher for Keccak256Hasher {
    /// Keccak-256 of the left child's bytes followed by the right child's.
    fn hash_node(&self, left: &H256, right: &H256) -> (r: H256)
        ensures
            r@ == keccak256_spec(left@ + right@),
    {
        let mut data: Vec<u8> = Vec::new();
        crate::text::push_bytes(&mut data, left.as_bytes());
        crate::text::push_bytes(&mut data, right.as_bytes());
        let d = keccak256(data.as_slice());
        H256(d)
    }

    /// Keccak-256 of the key's bytes followed by the value.
    fn hash_leaf(&self, key: &H256, value: &[u8]) -> (r: H256)
        ensures
            r@ == keccak256_spec(key@ + value@),
    {
        let mut data: Vec<u8> = Vec::new();
        crate::text::push_bytes(&mut data, key.as_bytes());
        crate::text::push_bytes(&mut data, value);
        let d = keccak256(data.as_slice());
        H256(d)
    }
}

} // verus!
