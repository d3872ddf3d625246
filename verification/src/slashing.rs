//! Attestation data, indexed attestations, attester-slashing evidence, and
//! the double-vote evidence builder.

use crate::config::{ChainSpec, Domain, Fork};
use crate::hash::{canonical_hash, hash32_of};
use crate::ssz::{enc_u64, ssz_encode, Encodable, SszStream};
use crate::types::{spec_low_u64_le, AggregateSignature, Hash256, Signature};
use vstd::prelude::*;

verus! {

/// A justified or finalized point: an epoch and the block root it names.
#[derive(Debug, PartialEq, Eq)]
pub struct Checkpoint {
    pub epoch: u64,
    pub root: Hash256,
}

impl Clone for Checkpoint {
    fn clone(&self) -> (r: Self)
        ensures
            r.epoch == self.epoch,
            r.root@ == self.root@,
    {
        Self { epoch: self.epoch, root: self.root.clone() }
    }
}

impl Encodable for Checkpoint {
    open spec fn ssz_bytes(&self) -> Seq<u8> {
        enc_u64(self.epoch) + self.root@
    }

    open spec fn enc_fits(&self) -> bool {
        true
    }

    fn ssz_append(&self, s: &mut SszStream) {
        s.append_u64(self.epoch);
        s.append(&self.root);
        proof {
            assert(s@ =~= old(s)@ + self.ssz_bytes());
        }
    }
}

/// What one attestation votes for. Its identity is all five fields.
#[derive(Debug, PartialEq, Eq)]
pub struct AttestationData {
    pub slot: u64,
    pub index: u64,
    pub beacon_block_root: Hash256,
    pub source: Checkpoint,
    pub target: Checkpoint,
}

/// Whether two attestation votes carry the same values.
pub open spec fn attestation_data_eq(d1: AttestationData, d2: AttestationData) -> bool {
    &&& d1.slot == d2.slot
    &&& d1.index == d2.index
    &&& d1.beacon_block_root@ == d2.beacon_block_root@
    &&& d1.source.epoch == d2.source.epoch
    &&& d1.source.root@ == d2.source.root@
    &&& d1.target.epoch == d2.target.epoch
    &&& d1.target.root@ == d2.target.root@
}

impl Clone for AttestationData {
    fn clone(&self) -> (r: Self)
        ensures
            attestation_data_eq(r, *self),
    {
        Self {
            slot: self.slot,
            index: self.index,
            beacon_block_root: self.beacon_block_root.clone(),
            source: self.source.clone(),
            target: self.target.clone(),
        }
    }
}

impl Encodable for AttestationData {
    open spec fn ssz_bytes(&self) -> Seq<u8> {
        enc_u64(self.slot) + enc_u64(self.index) + self.beacon_block_root@
            + self.source.ssz_bytes() + self.target.ssz_bytes()
    }

    open spec fn enc_fits(&self) -> bool {
        true
    }

    fn ssz_append(&self, s: &mut SszStream) {
        s.append_u64(self.slot);
        s.append_u64(self.index);
        s.append(&self.beacon_block_root);
        s.append(&self.source);
        s.append(&self.target);
        proof {
            assert(s@ =~= old(s)@ + self.ssz_bytes());
        }
    }
}

impl AttestationData {
    /// The bytes a validator signs for this vote: the hash of the vote's
    /// encoding and the signing domain.
    pub fn signing_root(&self, domain: &Hash256) -> (r: Vec<u8>)
        ensures
            r@ == hash32_of(self.ssz_bytes() + domain@),
            r@.len() == 32,
    {
        let mut bytes = ssz_encode(self);
        let mut d = domain.to_vec();
        bytes.append(&mut d);
        proof {
            assert(bytes@ =~= self.ssz_bytes() + domain@);
        }
        canonical_hash(&bytes)
    }
}

/// Whether a sequence of validator indices is strictly ascending (duplicates
/// forbidden) — the structural invariant of an indexed attestation.
pub open spec fn indices_ascending(s: Seq<u64>) -> bool {
    forall|i: int, j: int| 0 <= i < j < s.len() ==> s[i] < s[j]
}

/// One vote with the strictly-ascending list of the validators that cast it.
#[derive(Debug, PartialEq, Eq)]
pub struct IndexedAttestation {
    pub attesting_indices: Vec<u64>,
    pub data: AttestationData,
    pub signature: AggregateSignature,
}

impl IndexedAttestation {
    /// Structurally well-formed: the indices are strictly ascending.
    pub open spec fn wf(&self) -> bool {
        indices_ascending(self.attesting_indices@)
    }

    /// Checks the strictly-ascending invariant.
    pub fn indices_are_ascending(&self) -> (r: bool)
        ensures
            r == self.wf(),
    {
        let n = self.attesting_indices.len();
        let mut i: usize = 1;
        if n == 0 {
            return true;
        }
        while i < n
            invariant
                1 <= i <= n,
                n == self.attesting_indices@.len(),
                forall|p: int, q: int|
                    0 <= p < q < i ==> self.attesting_indices@[p] < self.attesting_indices@[q],
            decreases n - i,
        {
            if self.attesting_indices[i - 1] >= self.attesting_indices[i] {
                return false;
            }
            i = i + 1;
        }
        true
    }
}

/// Evidence that one validator set signed two conflicting votes.
#[derive(Debug, PartialEq, Eq)]
pub struct AttesterSlashing {
    pub attestation_1: IndexedAttestation,
    pub attestation_2: IndexedAttestation,
}

/// A double vote: same target epoch, different vote.
pub open spec fn is_double_vote(d1: AttestationData, d2: AttestationData) -> bool {
    d1.target.epoch == d2.target.epoch && !attestation_data_eq(d1, d2)
}

/// A surround vote: the first vote's source/target range strictly surrounds
/// the second's.
pub open spec fn is_surround_vote(d1: AttestationData, d2: AttestationData) -> bool {
    d1.source.epoch < d2.source.epoch && d2.source.epoch < d2.target.epoch && d2.target.epoch
        < d1.target.epoch
}

/// Valid slashing evidence: both attestations well-formed, and the votes are
/// a double vote or a surround vote.
pub open spec fn is_valid_attester_slashing(s: AttesterSlashing) -> bool {
    &&& s.attestation_1.wf()
    &&& s.attestation_2.wf()
    &&& (is_double_vote(s.attestation_1.data, s.attestation_2.data) || is_surround_vote(
        s.attestation_1.data,
        s.attestation_2.data,
    ))
}

/// The intentional defects the evidence builder can introduce, for
/// negative-path fixtures.
#[derive(Debug, PartialEq, Eq, Structural, Clone, Copy)]
pub enum AttesterSlashingTestTask {
    Valid,
    NotSlashable,
    IndexedAttestation1Invalid,
    IndexedAttestation2Invalid,
}

/// Whether `part` is a byte string the `signer` callback returned for
/// `index` and the message bytes `msg`.
pub open spec fn signer_signed<F: Fn(u64, Vec<u8>) -> Signature>(
    signer: F,
    index: u64,
    msg: Seq<u8>,
    part: Seq<u8>,
) -> bool {
    exists|m: Vec<u8>, sg: Signature|
        m@ == msg && sg@ == part && #[trigger] signer.ensures((index, m), sg)
}

/// The message the validators of an attestation sign: the signing root of
/// its vote under the beacon-attester domain of the vote's target epoch.
pub open spec fn attestation_message(
    data: AttestationData,
    cfg: ChainSpec,
    fork: Fork,
    genesis_validators_root: Seq<u8>,
) -> Seq<u8> {
    hash32_of(
        data.ssz_bytes() + crate::config::spec_domain(
            cfg,
            data.target.epoch,
            Domain::BeaconAttester,
            fork,
            genesis_validators_root,
        ),
    )
}

/// Builds an `AttesterSlashing`. Never meant for production use: it exists
/// to construct fixtures, sound and (on request) deliberately broken.
pub struct TestingAttesterSlashingBuilder();

/// The out-of-order index list a deliberately broken attestation carries.
pub open spec fn broken_indices() -> Seq<u64> {
    seq![1u64, 0u64]
}

impl TestingAttesterSlashingBuilder {
    /// Builds an `AttesterSlashing` that is a double vote: two attestations
    /// sharing their source, differing in target root, each signed by every
    /// listed validator through the `signer` callback.
    pub fn double_vote<F: Fn(u64, Vec<u8>) -> Signature>(
        test_task: AttesterSlashingTestTask,
        validator_indices: &Vec<u64>,
        signer: F,
        fork: &Fork,
        genesis_validators_root: &Hash256,
        spec: &ChainSpec,
    ) -> (r: AttesterSlashing)
        requires
            genesis_validators_root.wf(),
            forall|i: u64, m: Vec<u8>| #[trigger] signer.requires((i, m)),
        ensures
            ({
                let d1 = r.attestation_1.data;
                let d2 = r.attestation_2.data;
                &&& d1.slot == 1 && d1.index == 0
                &&& d1.beacon_block_root@ == spec_low_u64_le(1)
                &&& d1.source.epoch == 1 && d1.source.root@ == spec_low_u64_le(1)
                &&& d1.target.epoch == 1 && d1.target.root@ == spec_low_u64_le(1)
                &&& d2.slot == 1 && d2.index == 0
                &&& d2.beacon_block_root@ == spec_low_u64_le(1)
                &&& d2.source.epoch == 1 && d2.source.root@ == spec_low_u64_le(1)
                &&& d2.target.epoch == 1
                &&& d2.target.root@ == (if test_task == AttesterSlashingTestTask::NotSlashable {
                    spec_low_u64_le(1)
                } else {
                    spec_low_u64_le(2)
                })
                &&& r.attestation_1.attesting_indices@ == (if test_task
                    == AttesterSlashingTestTask::IndexedAttestation1Invalid {
                    broken_indices()
                } else {
                    validator_indices@
                })
                &&& r.attestation_2.attesting_indices@ == (if test_task
                    == AttesterSlashingTestTask::IndexedAttestation2Invalid {
                    broken_indices()
                } else {
                    validator_indices@
                })
                &&& r.attestation_1.signature.parts().len() == validator_indices@.len()
                &&& r.attestation_2.signature.parts().len() == validator_indices@.len()
                &&& forall|k: int|
                    0 <= k < validator_indices@.len() ==> signer_signed(
                        signer,
                        validator_indices@[k],
                        attestation_message(
                            r.attestation_1.data,
                            *spec,
                            *fork,
                            genesis_validators_root@,
                        ),
                        #[trigger] r.attestation_1.signature.parts()[k],
                    )
                &&& forall|k: int|
                    0 <= k < validator_indices@.len() ==> signer_signed(
                        signer,
                        validator_indices@[k],
                        attestation_message(
                            r.attestation_2.data,
                            *spec,
                            *fork,
                            genesis_validators_root@,
                        ),
                        #[trigger] r.attestation_2.signature.parts()[k],
                    )
                &&& (test_task == AttesterSlashingTestTask::Valid && indices_ascending(
                    validator_indices@,
                ) ==> is_valid_attester_slashing(r))
            }),
    {
        let slot = 1u64;
        let index = 0u64;
        let epoch_1 = 1u64;
        let hash_1 = Hash256::from_low_u64_le(1);
        let hash_2 = Hash256::from_low_u64_le(2);
        let checkpoint_1 = Checkpoint { epoch: epoch_1, root: hash_1.clone() };
        let checkpoint_2 = Checkpoint { epoch: epoch_1, root: hash_2 };

        let data_1 = AttestationData {
            slot,
            index,
            beacon_block_root: hash_1.clone(),
            source: checkpoint_1.clone(),
            target: checkpoint_1,
        };

        let data_2 = if test_task == AttesterSlashingTestTask::NotSlashable {
            data_1.clone()
        } else {
            AttestationData {
                slot: data_1.slot,
                index: data_1.index,
                beacon_block_root: data_1.beacon_block_root.clone(),
                source: data_1.source.clone(),
                target: checkpoint_2,
            }
        };

        let indices_1 = if test_task == AttesterSlashingTestTask::IndexedAttestation1Invalid {
            Self::out_of_order_indices()
        } else {
            crate::types::clone_copy_vec(validator_indices)
        };
        let indices_2 = if test_task == AttesterSlashingTestTask::IndexedAttestation2Invalid {
            Self::out_of_order_indices()
        } else {
            crate::types::clone_copy_vec(validator_indices)
        };

        let domain_1 = spec.get_domain(
            data_1.target.epoch,
            Domain::BeaconAttester,
            fork,
            genesis_validators_root,
        );
        let message_1 = data_1.signing_root(&domain_1);
        let mut sig_1 = AggregateSignature::new();
        let n = validator_indices.len();
        let mut i: usize = 0;
        while i < n
            invariant
                i <= n,
                n == validator_indices@.len(),
                forall|q: u64, m: Vec<u8>| #[trigger] signer.requires((q, m)),
                sig_1.parts().len() == i,
                forall|k: int|
                    #![auto]
                    0 <= k < i ==> signer_signed(
                        signer,
                        validator_indices@[k],
                        message_1@,
                        sig_1.parts()[k],
                    ),
            decreases n - i,
        {
            let m = crate::types::clone_bytes(&message_1);
            let ghost mv = m;
            let signature = signer(validator_indices[i], m);
            proof {
                assert(signer.ensures((validator_indices@[i as int], mv), signature));
                assert(signer_signed(signer, validator_indices@[i as int], message_1@, signature@));
            }
            sig_1.add(&signature);
            i = i + 1;
        }

        let domain_2 = spec.get_domain(
            data_2.target.epoch,
            Domain::BeaconAttester,
            fork,
            genesis_validators_root,
        );
        let message_2 = data_2.signing_root(&domain_2);
        let mut sig_2 = AggregateSignature::new();
        let mut i: usize = 0;
        while i < n
            invariant
                i <= n,
                n == validator_indices@.len(),
                forall|q: u64, m: Vec<u8>| #[trigger] signer.requires((q, m)),
                sig_2.parts().len() == i,
                forall|k: int|
                    #![auto]
                    0 <= k < i ==> signer_signed(
                        signer,
                        validator_indices@[k],
                        message_2@,
                        sig_2.parts()[k],
                    ),
            decreases n - i,
        {
            let m = crate::types::clone_bytes(&message_2);
            let ghost mv = m;
            let signature = signer(validator_indices[i], m);
            proof {
                assert(signer.ensures((validator_indices@[i as int], mv), signature));
                assert(signer_signed(signer, validator_indices@[i as int], message_2@, signature@));
            }
            sig_2.add(&signature);
            i = i + 1;
        }

        let attestation_1 = IndexedAttestation {
            attesting_indices: indices_1,
            data: data_1,
            signature: sig_1,
        };
        let attestation_2 = IndexedAttestation {
            attesting_indices: indices_2,
            data: data_2,
            signature: sig_2,
        };

        let r = AttesterSlashing { attestation_1, attestation_2 };
        proof {
            vstd::bytes::lemma_auto_spec_u64_to_from_le_bytes();
            if test_task == AttesterSlashingTestTask::Valid && indices_ascending(
                validator_indices@,
            ) {
                assert(spec_low_u64_le(1) != spec_low_u64_le(2)) by {
                    if spec_low_u64_le(1) == spec_low_u64_le(2) {
                        assert(vstd::bytes::spec_u64_to_le_bytes(1u64)
                            =~= vstd::bytes::spec_u64_to_le_bytes(2u64)) by {
                            assert forall|k: int|
                                0 <= k < 8 implies vstd::bytes::spec_u64_to_le_bytes(1u64)[k]
                                == vstd::bytes::spec_u64_to_le_bytes(2u64)[k] by {
                                assert(spec_low_u64_le(1)[k] == vstd::bytes::spec_u64_to_le_bytes(
                                    1u64,
                                )[k]);
                                assert(spec_low_u64_le(2)[k] == vstd::bytes::spec_u64_to_le_bytes(
                                    2u64,
                                )[k]);
                            }
                        }
                        assert(vstd::bytes::spec_u64_from_le_bytes(
                            vstd::bytes::spec_u64_to_le_bytes(1u64),
                        ) == 1u64);
                        assert(vstd::bytes::spec_u64_from_le_bytes(
                            vstd::bytes::spec_u64_to_le_bytes(2u64),
                        ) == 2u64);
                    }
                }
                assert(is_double_vote(r.attestation_1.data, r.attestation_2.data));
            }
        }
        r
    }

    /// The deliberately out-of-order index list.
    fn out_of_order_indices() -> (r: Vec<u64>)
        ensures
            r@ == broken_indices(),
    {
        let mut v: Vec<u64> = Vec::new();
        v.push(1);
        v.push(0);
        proof {
            assert(v@ =~= broken_indices());
        }
        v
    }

}

} // verus!
