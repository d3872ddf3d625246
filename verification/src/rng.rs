//! The entropy edge and the abstract signer's key material: random keypairs,
//! index-derived deterministic keypairs, and the proof-of-possession stand-in.
//!
//! Real BLS signing is outside the core: keys and signatures are fixed-width
//! byte strings, and the deterministic constructions below bind them to each
//! other through the fixed 32-byte hash.

use crate::hash::{canonical_hash, hash32_of};
use crate::types::{
    bytes_range, clone_bytes, spec_low_u64_le, Keypair, PublicKey, SecretKey, Signature,
    PUBLIC_KEY_SIZE, SECRET_KEY_SIZE,
};
use vstd::prelude::*;

verus! {

/// Relies on rand's `random` for one byte of entropy; nothing is promised of
/// the value.
#[verifier::external_body]
fn random_byte() -> u8 {
    rand::random::<u8>()
}

/// `n` bytes of entropy.
pub fn random_bytes(n: usize) -> (r: Vec<u8>)
    ensures
        r@.len() == n,
{
    let mut r: Vec<u8> = Vec::new();
    let mut i: usize = 0;
    while i < n
        invariant
            i <= n,
            r@.len() == i,
        decreases n - i,
    {
        r.push(random_byte());
        i = i + 1;
    }
    r
}

impl Keypair {
    /// A fresh keypair from the entropy source.
    pub fn random() -> (r: Keypair)
        ensures
            r.wf(),
    {
        let sk = SecretKey::from_vec(random_bytes(SECRET_KEY_SIZE));
        let pk_bytes = random_bytes(PUBLIC_KEY_SIZE);
        let pk = match PublicKey::from_bytes(&pk_bytes) {
            Ok(pk) => pk,
            Err(_) => {
                proof {
                    assert(false);
                }
                unreached()
            },
        };
        Keypair { pk, sk }
    }
}

/// The deterministic secret key of a validator index: the index little-endian,
/// zero-padded to the key width.
pub open spec fn det_secret_key(index: u64) -> Seq<u8> {
    spec_low_u64_le(index)
}

/// The deterministic public key of a validator index: hashes of its secret
/// key, truncated to the key width.
pub open spec fn det_public_key(index: u64) -> Seq<u8> {
    hash32_of(det_secret_key(index)) + hash32_of(det_secret_key(index) + seq![1u8]).subrange(0, 16)
}

/// A single deterministic keypair, derived solely from the validator index.
/// For testing only: the key material carries no entropy.
pub fn generate_deterministic_keypair(validator_index: usize) -> (r: Keypair)
    ensures
        r.sk@ == det_secret_key(validator_index as u64),
        r.pk@ == det_public_key(validator_index as u64),
        r.wf(),
{
    let sk_hash = crate::types::Hash256::from_low_u64_le(validator_index as u64);
    let sk_bytes = sk_hash.to_vec();
    let first = canonical_hash(&sk_bytes);
    let mut salted = clone_bytes(&sk_bytes);
    salted.push(1);
    proof {
        assert(salted@ =~= det_secret_key(validator_index as u64) + seq![1u8]);
    }
    let second = canonical_hash(&salted);
    let mut pk_bytes = first;
    let mut tail = bytes_range(&second, 0, 16);
    pk_bytes.append(&mut tail);
    let pk = match PublicKey::from_bytes(&pk_bytes) {
        Ok(pk) => pk,
        Err(_) => {
            proof {
                assert(false);
            }
            unreached()
        },
    };
    Keypair { pk, sk: SecretKey::from_vec(sk_bytes) }
}

/// Deterministic keypairs for indices `0 .. validator_count`.
pub fn generate_deterministic_keypairs(validator_count: usize) -> (r: Vec<Keypair>)
    ensures
        r@.len() == validator_count,
        forall|k: int|
            0 <= k < validator_count ==> (#[trigger] r@[k]).sk@ == det_secret_key(k as u64)
                && r@[k].pk@ == det_public_key(k as u64),
{
    let mut keypairs: Vec<Keypair> = Vec::new();
    let mut i: usize = 0;
    while i < validator_count
        invariant
            i <= validator_count,
            keypairs@.len() == i,
            forall|k: int|
                0 <= k < i ==> (#[trigger] keypairs@[k]).sk@ == det_secret_key(k as u64)
                    && keypairs@[k].pk@ == det_public_key(k as u64),
        decreases validator_count - i,
    {
        keypairs.push(generate_deterministic_keypair(i));
        i = i + 1;
    }
    keypairs
}

/// The proof-of-possession stand-in: three hashes binding the public key
/// bytes, as wide as a signature.
pub open spec fn spec_proof_of_possession(pk: Seq<u8>) -> Seq<u8> {
    hash32_of(pk) + hash32_of(pk + seq![1u8]) + hash32_of(pk + seq![2u8])
}

/// Builds the proof-of-possession signature for a keypair's public key.
pub fn create_proof_of_possession(keypair: &Keypair) -> (r: Signature)
    ensures
        r@ == spec_proof_of_possession(keypair.pk@),
        r.wf(),
{
    let pk_bytes = keypair.pk.as_bytes();
    let h0 = canonical_hash(&pk_bytes);
    let mut salted1 = clone_bytes(&pk_bytes);
    salted1.push(1);
    let mut salted2 = clone_bytes(&pk_bytes);
    salted2.push(2);
    proof {
        assert(salted1@ =~= keypair.pk@ + seq![1u8]);
        assert(salted2@ =~= keypair.pk@ + seq![2u8]);
    }
    let h1 = canonical_hash(&salted1);
    let h2 = canonical_hash(&salted2);
    let mut sig_bytes = h0;
    let mut h1 = h1;
    sig_bytes.append(&mut h1);
    let mut h2 = h2;
    sig_bytes.append(&mut h2);
    Signature::from_vec(sig_bytes)
}

} // verus!
