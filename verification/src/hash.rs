//! The fixed 32-byte hash that every tree-hash and block-hash commitment is
//! built from. The digest itself is computed by an outside implementation;
//! the library only relies on it being a 32-byte function of the input bytes.

use blake2::Digest;
use vstd::prelude::*;

verus! {

/// The 32-byte digest of `input`: a function of the input bytes alone.
pub uninterp spec fn hash32_of(input: Seq<u8>) -> Seq<u8>;

/// Relies on blake2's `Blake2s256` through the `Digest` trait: the digest is
/// 32 bytes and depends on the input bytes alone.
#[verifier::external_body]
pub fn canonical_hash(input: &Vec<u8>) -> (r: Vec<u8>)
    ensures
        r@ == hash32_of(input@),
        r@.len() == 32,
{
    blake2::Blake2s256::digest(input.as_slice()).to_vec()
}

/// The digest of the concatenation of two 32-byte chunks: the node function
/// of the binary Merkle tree.
pub open spec fn hash2(left: Seq<u8>, right: Seq<u8>) -> Seq<u8> {
    hash32_of(left + right)
}

/// Hashes the concatenation of two chunks.
pub fn hash_pair(left: &Vec<u8>, right: &Vec<u8>) -> (r: Vec<u8>)
    ensures
        r@ == hash2(left@, right@),
        r@.len() == 32,
{
    let mut cat = crate::types::clone_bytes(left);
    let mut r = crate::types::clone_bytes(right);
    cat.append(&mut r);
    proof {
        assert(cat@ =~= left@ + right@);
    }
    canonical_hash(&cat)
}

} // verus!
