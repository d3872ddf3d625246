//! Recent proposer records and their RLP wire form. The RLP bytes themselves
//! come from the rlp crate; the contracts state the exact encoding.

use crate::types::Hash256;
use vstd::prelude::*;

verus! {

/// The minimal big-endian byte string of `n` (empty for zero).
pub open spec fn rlp_min_be(n: int) -> Seq<u8>
    decreases n,
    when n >= 0
{
    if n <= 0 {
        Seq::<u8>::empty()
    } else {
        rlp_min_be(n / 256).push((n % 256) as u8)
    }
}

/// The RLP encoding of a byte string: the byte itself if it is a single
/// byte below 0x80; else a `0x80 + len` prefix for short strings; else a
/// `0xb7 + len-of-len` prefix, the length big-endian, and the bytes.
pub open spec fn rlp_str_enc(s: Seq<u8>) -> Seq<u8> {
    if s.len() == 1 && s[0] < 0x80 {
        s
    } else if s.len() < 56 {
        seq![(0x80 + s.len()) as u8] + s
    } else {
        seq![(0xb7 + rlp_min_be(s.len() as int).len()) as u8] + rlp_min_be(s.len() as int) + s
    }
}

/// The RLP encoding of an unsigned integer: its minimal big-endian bytes as
/// an RLP string.
pub open spec fn rlp_uint_enc(v: u64) -> Seq<u8> {
    rlp_str_enc(rlp_min_be(v as int))
}

/// Relies on rlp's `encode` for `u64`: the value's minimal big-endian bytes
/// encoded as an RLP string.
#[verifier::external_body]
fn rlp_encode_u64(v: u64) -> (r: Vec<u8>)
    ensures
        r@ == rlp_uint_enc(v),
{
    rlp::encode(&v).to_vec()
}

/// Relies on rlp's `encode` for `Vec<u8>`: the bytes encoded as an RLP
/// string (its length header arithmetic is 32-bit, hence the bound).
#[verifier::external_body]
fn rlp_encode_bytes(b: &Vec<u8>) -> (r: Vec<u8>)
    requires
        b@.len() < 0x1_0000_0000,
    ensures
        r@ == rlp_str_enc(b@),
{
    rlp::encode(b).to_vec()
}

/// A randao commitment digest.
pub type Sha256Digest = Hash256;

/// One recent proposer: its registry index, its randao commitment, and the
/// balance change it earned.
#[derive(Debug, PartialEq, Eq)]
pub struct RecentPropserRecord {
    pub index: usize,
    pub randao_commitment: Sha256Digest,
    pub balance_delta: i64,
}

impl RecentPropserRecord {
    pub fn new(index: usize, randao_commitment: Sha256Digest, balance_delta: i64) -> (r:
        RecentPropserRecord)
        ensures
            r.index == index,
            r.randao_commitment@ == randao_commitment@,
            r.balance_delta == balance_delta,
    {
        RecentPropserRecord { index, randao_commitment, balance_delta }
    }

    /// The record's RLP wire form: the index, then the commitment bytes.
    /// The balance delta is not serialized.
    pub fn rlp_bytes(&self) -> (r: Vec<u8>)
        requires
            self.randao_commitment.wf(),
        ensures
            r@ == rlp_uint_enc(self.index as u64) + rlp_str_enc(self.randao_commitment@),
    {
        let mut out = rlp_encode_u64(self.index as u64);
        let commitment = self.randao_commitment.to_vec();
        let mut tail = rlp_encode_bytes(&commitment);
        out.append(&mut tail);
        out
    }
}

} // verus!
