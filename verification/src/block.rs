//! The serialized beacon block: the wire layout, and a reader that checks a
//! byte string and serves block fields directly from it.
//!
//! Layout: parent hash (32), slot number (8, little-endian), randao reveal
//! (32), attestations byte-length (4, little-endian) and that many bytes of
//! attestation records, then proof-of-work chain reference, active state
//! root and crystallized state root (32 each). The attestations byte-length
//! must cover at least one record.

use crate::bitfield::BooleanBitfield;
use crate::hash::{canonical_hash, hash32_of};
use crate::ssz::{
    concat_enc, decode_length, decode_u64, enc_list, enc_u16, enc_u32, enc_u64, Encodable,
    SszStream,
};
use crate::types::{bytes_range, clone_bytes, flatten_bytes, AggregateSignature, Hash256};
use vstd::prelude::*;

verus! {

pub const LENGTH_BYTES: usize = 4;

/// The encoded size of a block with no attestation bytes.
pub const MIN_SSZ_BLOCK_LENGTH: usize = 32 + 8 + 32 + 4 + 32 + 32 + 32;

/// The largest serialized block accepted.
pub const MAX_SSZ_BLOCK_LENGTH: usize = MIN_SSZ_BLOCK_LENGTH + 16_777_216;

/// The smallest byte-length a real attestation record can have: the fixed
/// fields and length prefixes, one bitfield byte, and a minimal signature.
pub const MIN_SSZ_ATTESTATION_RECORD_LENGTH: usize = 8 + 2 + 4 + 32 + 4 + 1 + 8 + 32 + 4 + 64;

#[derive(Debug, PartialEq, Eq, Structural, Clone, Copy)]
pub enum BlockValidatorError {
    TooShort,
    TooLong,
    NoAttestationRecords,
    BadPowHash,
    SlotTooLow,
    SlotTooHigh,
}

/// One attestation as carried inside a block.
#[derive(Debug, PartialEq, Eq)]
pub struct AttestationRecord {
    pub slot: u64,
    pub shard_id: u16,
    pub oblique_parent_hashes: Vec<Hash256>,
    pub shard_block_hash: Hash256,
    pub attester_bitfield: BooleanBitfield,
    pub justified_slot: u64,
    pub justified_block_hash: Hash256,
    pub aggregate_sig: AggregateSignature,
}

impl AttestationRecord {
    /// The all-zero attestation record: zero numbers and hashes, no oblique
    /// parents, an empty bitfield, an empty aggregate signature.
    pub fn zero() -> (r: Self)
        ensures
            r.slot == 0,
            r.shard_id == 0,
            r.oblique_parent_hashes@.len() == 0,
            r.shard_block_hash.wf(),
            r.attester_bitfield.bytes().len() == 0,
            r.justified_slot == 0,
            r.justified_block_hash.wf(),
            r.aggregate_sig.parts().len() == 0,
            r.enc_fits(),
    {
        let r = AttestationRecord {
            slot: 0,
            shard_id: 0,
            oblique_parent_hashes: Vec::new(),
            shard_block_hash: Hash256::zero(),
            attester_bitfield: BooleanBitfield::new(),
            justified_slot: 0,
            justified_block_hash: Hash256::zero(),
            aggregate_sig: AggregateSignature::new(),
        };
        proof {
            assert(concat_enc(r.oblique_parent_hashes@) =~= Seq::<u8>::empty());
            assert(flatten_bytes(r.aggregate_sig.parts()) =~= Seq::<u8>::empty());
        }
        r
    }
}

impl Encodable for AttestationRecord {
    /// Fixed fields in order; the oblique parents as a list of hashes; the
    /// bitfield and the aggregate signature each as a length-prefixed blob.
    open spec fn ssz_bytes(&self) -> Seq<u8> {
        enc_u64(self.slot) + enc_u16(self.shard_id) + enc_list(self.oblique_parent_hashes@)
            + self.shard_block_hash@ + enc_u32(self.attester_bitfield.bytes().len() as u32)
            + self.attester_bitfield.bytes().reverse() + enc_u64(self.justified_slot)
            + self.justified_block_hash@ + enc_u32(
            flatten_bytes(self.aggregate_sig.parts()).len() as u32,
        ) + flatten_bytes(self.aggregate_sig.parts())
    }

    open spec fn enc_fits(&self) -> bool {
        &&& concat_enc(self.oblique_parent_hashes@).len() < 0x1_0000_0000
        &&& self.attester_bitfield.bytes().len() < 0x1_0000_0000
        &&& flatten_bytes(self.aggregate_sig.parts()).len() < 0x1_0000_0000
    }

    fn ssz_append(&self, s: &mut SszStream) {
        s.append_u64(self.slot);
        s.append_u16(self.shard_id);
        s.append_vec(&self.oblique_parent_hashes);
        s.append(&self.shard_block_hash);
        let bf = self.attester_bitfield.to_be_vec();
        proof {
            assert(bf@ =~= self.attester_bitfield.bytes().reverse());
        }
        s.append_u32(bf.len() as u32);
        s.append_raw(&bf);
        s.append_u64(self.justified_slot);
        s.append(&self.justified_block_hash);
        let sig = self.aggregate_sig.concat_bytes();
        s.append_u32(sig.len() as u32);
        s.append_raw(&sig);
        proof {
            assert(s@ =~= old(s)@ + self.ssz_bytes());
        }
    }
}

/// A beacon block as a structured value.
#[derive(Debug, PartialEq, Eq)]
pub struct Block {
    pub parent_hash: Hash256,
    pub slot_number: u64,
    pub randao_reveal: Hash256,
    pub attestations: Vec<AttestationRecord>,
    pub pow_chain_ref: Hash256,
    pub active_state_root: Hash256,
    pub crystallized_state_root: Hash256,
}

impl Block {
    /// The all-zero block: zero hashes, slot zero, no attestations.
    pub fn zero() -> (r: Self)
        ensures
            r.parent_hash.wf(),
            r.slot_number == 0,
            r.randao_reveal.wf(),
            r.attestations@.len() == 0,
            r.pow_chain_ref.wf(),
            r.active_state_root.wf(),
            r.crystallized_state_root.wf(),
            r.enc_fits(),
    {
        let r = Block {
            parent_hash: Hash256::zero(),
            slot_number: 0,
            randao_reveal: Hash256::zero(),
            attestations: Vec::new(),
            pow_chain_ref: Hash256::zero(),
            active_state_root: Hash256::zero(),
            crystallized_state_root: Hash256::zero(),
        };
        proof {
            assert(concat_enc(r.attestations@) =~= Seq::<u8>::empty());
        }
        r
    }
}

impl Encodable for Block {
    open spec fn ssz_bytes(&self) -> Seq<u8> {
        self.parent_hash@ + enc_u64(self.slot_number) + self.randao_reveal@ + enc_list(
            self.attestations@,
        ) + self.pow_chain_ref@ + self.active_state_root@ + self.crystallized_state_root@
    }

    open spec fn enc_fits(&self) -> bool {
        &&& concat_enc(self.attestations@).len() < 0x1_0000_0000
        &&& forall|k: int|
            0 <= k < self.attestations@.len() ==> #[trigger] self.attestations@[k].enc_fits()
    }

    fn ssz_append(&self, s: &mut SszStream) {
        s.append(&self.parent_hash);
        s.append_u64(self.slot_number);
        s.append(&self.randao_reveal);
        s.append_vec(&self.attestations);
        s.append(&self.pow_chain_ref);
        s.append(&self.active_state_root);
        s.append(&self.crystallized_state_root);
        proof {
            assert(s@ =~= old(s)@ + self.ssz_bytes());
        }
    }
}

/// The attestations byte-length a serialized block declares at offset 72.
pub open spec fn spec_attestations_len(b: Seq<u8>) -> int {
    vstd::bytes::spec_u32_from_le_bytes(b.subrange(72, 76)) as int
}

/// Reads block values directly from serialized bytes, after checking the
/// byte string is a plausible block.
#[derive(Debug, PartialEq, Eq)]
pub struct SszBlock {
    ssz: Vec<u8>,
    attestation_len: usize,
    pub len: usize,
}

impl SszBlock {
    /// The serialized bytes this reader serves from.
    pub closed spec fn bytes(&self) -> Seq<u8> {
        self.ssz@
    }

    /// The stored total length.
    pub closed spec fn spec_len(&self) -> int {
        self.len as int
    }

    pub closed spec fn spec_attestation_len(&self) -> int {
        self.attestation_len as int
    }

    pub open spec fn wf(&self) -> bool {
        &&& self.bytes().len() == self.spec_len()
        &&& MIN_SSZ_BLOCK_LENGTH <= self.spec_len() <= MAX_SSZ_BLOCK_LENGTH
        &&& self.spec_attestation_len() == spec_attestations_len(self.bytes())
        &&& MIN_SSZ_ATTESTATION_RECORD_LENGTH <= self.spec_attestation_len()
        &&& 76 + self.spec_attestation_len() + 96 <= self.spec_len()
    }

    /// Checks that `vec` is long enough to be a block, not longer than a
    /// block can be, and that its declared attestation bytes cover at least
    /// one record and lie inside the input; then serves fields from it.
    pub fn from_slice(vec: &Vec<u8>) -> (r: Result<Self, BlockValidatorError>)
        ensures
            ({
                let len = vec@.len() as int;
                let al = spec_attestations_len(vec@);
                &&& (r is Ok <==> MIN_SSZ_BLOCK_LENGTH <= len <= MAX_SSZ_BLOCK_LENGTH
                    && MIN_SSZ_ATTESTATION_RECORD_LENGTH <= al && 76 + al + 96 <= len)
                &&& (r matches Ok(b) ==> b.wf() && b.bytes() == vec@ && b.spec_len() == len
                    && b.spec_attestation_len() == al)
                &&& (r matches Err(e) ==> e == (if len < MIN_SSZ_BLOCK_LENGTH {
                    BlockValidatorError::TooShort
                } else if len > MAX_SSZ_BLOCK_LENGTH {
                    BlockValidatorError::TooLong
                } else if al < MIN_SSZ_ATTESTATION_RECORD_LENGTH {
                    BlockValidatorError::NoAttestationRecords
                } else {
                    BlockValidatorError::TooShort
                }))
            }),
    {
        let len = vec.len();
        if len < MIN_SSZ_BLOCK_LENGTH {
            return Err(BlockValidatorError::TooShort);
        }
        if len > MAX_SSZ_BLOCK_LENGTH {
            return Err(BlockValidatorError::TooLong);
        }
        let attestation_len = match decode_length(vec, 72) {
            Ok(l) => l,
            Err(_) => {
                proof {
                    assert(false);
                }
                return Err(BlockValidatorError::TooShort);
            },
        };
        proof {
            vstd::bytes::lemma_auto_spec_u32_to_from_le_bytes();
            assert(vstd::bytes::spec_u32_to_le_bytes(attestation_len as u32).len() == 4);
            assert(vstd::bytes::spec_u32_from_le_bytes(
                vstd::bytes::spec_u32_to_le_bytes(attestation_len as u32),
            ) == attestation_len as u32);
            assert(spec_attestations_len(vec@) == attestation_len as int);
        }
        if attestation_len < MIN_SSZ_ATTESTATION_RECORD_LENGTH {
            return Err(BlockValidatorError::NoAttestationRecords);
        }
        if (len as u64) < 76 + (attestation_len as u64) + 96 {
            return Err(BlockValidatorError::TooShort);
        }
        Ok(SszBlock { ssz: clone_bytes(vec), attestation_len, len })
    }

    /// The hash of the whole serialized block.
    pub fn block_hash(&self) -> (r: Vec<u8>)
        ensures
            r@ == hash32_of(self.bytes()),
            r@.len() == 32,
    {
        canonical_hash(&self.ssz)
    }

    /// The parent hash bytes.
    pub fn parent_hash(&self) -> (r: Vec<u8>)
        requires
            self.wf(),
        ensures
            r@ == self.bytes().subrange(0, 32),
    {
        bytes_range(&self.ssz, 0, 32)
    }

    /// The slot number, decoded from its little-endian bytes.
    pub fn slot_number(&self) -> (r: u64)
        requires
            self.wf(),
        ensures
            enc_u64(r) == self.bytes().subrange(32, 40),
    {
        match decode_u64(&self.ssz, 32) {
            Ok((v, _)) => v,
            Err(_) => {
                proof {
                    assert(false);
                }
                0
            },
        }
    }

    /// The randao reveal bytes.
    pub fn randao_reveal(&self) -> (r: Vec<u8>)
        requires
            self.wf(),
        ensures
            r@ == self.bytes().subrange(40, 72),
    {
        bytes_range(&self.ssz, 40, 72)
    }

    /// The raw attestation-record bytes.
    pub fn attestations(&self) -> (r: Vec<u8>)
        requires
            self.wf(),
        ensures
            r@ == self.bytes().subrange(76, 76 + self.spec_attestation_len()),
    {
        let start = 72 + LENGTH_BYTES;
        bytes_range(&self.ssz, start, start + self.attestation_len)
    }

    /// The proof-of-work chain reference bytes.
    pub fn pow_chain_ref(&self) -> (r: Vec<u8>)
        requires
            self.wf(),
        ensures
            r@ == self.bytes().subrange(self.spec_len() - 96, self.spec_len() - 64),
    {
        bytes_range(&self.ssz, self.len - 96, self.len - 64)
    }

    /// The active state root bytes.
    pub fn act_state_root(&self) -> (r: Vec<u8>)
        requires
            self.wf(),
        ensures
            r@ == self.bytes().subrange(self.spec_len() - 64, self.spec_len() - 32),
    {
        bytes_range(&self.ssz, self.len - 64, self.len - 32)
    }

    /// The crystallized state root bytes.
    pub fn cry_state_root(&self) -> (r: Vec<u8>)
        requires
            self.wf(),
        ensures
            r@ == self.bytes().subrange(self.spec_len() - 32, self.spec_len()),
    {
        bytes_range(&self.ssz, self.len - 32, self.len)
    }
}

} // verus!
