//! The canonical beacon-state data model: the aggregate state record, its
//! pure query helpers, and the genesis/testing builder.

use crate::bitfield::BooleanBitfield;
use crate::config::{ChainSpec, Fork};
use crate::delegation::{
    active_indices, committee_span, delegate_validators, lemma_committees_per_slot_pos,
    spec_committees_per_slot, spec_is_dense, spec_slots_per_committee, ShardAndCommittee,
};
use crate::deposit::Deposit;
use crate::rng::create_proof_of_possession;
use crate::shuffle::RAND_MAX;
use crate::slashing::{AttestationData, Checkpoint};
use crate::types::{clone_copy_vec, Hash256, Keypair};
use crate::validator::{ValidatorRecord, ValidatorStatus};
use vstd::arithmetic::div_mod::lemma_fundamental_div_mod;
use vstd::arithmetic::mul::{lemma_mul_inequality, lemma_mul_is_commutative};
use vstd::prelude::*;

verus! {

/// A periodic commitment of a shard's state into the beacon chain.
#[derive(Debug, PartialEq, Eq)]
pub struct Crosslink {
    pub epoch: u64,
    pub shard_block_root: Hash256,
}

impl Clone for Crosslink {
    fn clone(&self) -> (r: Self)
        ensures
            r.epoch == self.epoch,
            r.shard_block_root@ == self.shard_block_root@,
    {
        Self { epoch: self.epoch, shard_block_root: self.shard_block_root.clone() }
    }
}

/// The latest observed deposit-contract state.
#[derive(Debug, PartialEq, Eq)]
pub struct Eth1Data {
    pub deposit_root: Hash256,
    pub block_hash: Hash256,
}

impl Clone for Eth1Data {
    fn clone(&self) -> (r: Self)
        ensures
            r.deposit_root@ == self.deposit_root@,
            r.block_hash@ == self.block_hash@,
    {
        Self { deposit_root: self.deposit_root.clone(), block_hash: self.block_hash.clone() }
    }
}

/// An attestation waiting for epoch processing, with its participation
/// bitfields.
#[derive(Debug, PartialEq, Eq)]
pub struct PendingAttestation {
    pub aggregation_bitfield: BooleanBitfield,
    pub data: AttestationData,
    pub custody_bitfield: BooleanBitfield,
    pub inclusion_slot: u64,
}

#[derive(Debug, PartialEq, Eq, Structural, Clone, Copy)]
pub enum BeaconStateError {
    EpochOutOfRange,
    SlotOutOfRange,
    UnknownEpoch,
    EpochLengthIsZero,
}

/// The epoch a slot belongs to.
pub open spec fn spec_epoch_of(slot: u64, cfg: ChainSpec) -> int {
    slot as int / cfg.epoch_length as int
}

/// The first slot of an epoch.
pub open spec fn spec_epoch_start(epoch: int, cfg: ChainSpec) -> int {
    epoch * cfg.epoch_length
}

/// Whether an attestation at `slot` belongs to the epoch before the state's.
pub open spec fn cpa_is_previous(state: BeaconState, slot: u64, cfg: ChainSpec) -> bool {
    spec_epoch_of(state.slot, cfg) != spec_epoch_of(slot, cfg)
}

/// The epoch whose boundary root an attestation at `slot` references.
pub open spec fn cpa_boundary_epoch(state: BeaconState, slot: u64, cfg: ChainSpec) -> int {
    if cpa_is_previous(state, slot, cfg) {
        if spec_epoch_of(state.slot, cfg) == 0 {
            0int
        } else {
            spec_epoch_of(state.slot, cfg) - 1
        }
    } else {
        spec_epoch_of(state.slot, cfg)
    }
}

/// The justified epoch an attestation at `slot` cites as its source.
pub open spec fn cpa_justified_epoch(state: BeaconState, slot: u64, cfg: ChainSpec) -> u64 {
    if cpa_is_previous(state, slot, cfg) {
        state.previous_justified_epoch
    } else {
        state.justified_epoch
    }
}

/// The seed the committee computation of `epoch` draws from: the current
/// seed for the state's own epoch, the previous seed otherwise.
pub open spec fn spec_epoch_seed(state: BeaconState, epoch: u64, cfg: ChainSpec) -> Seq<u8> {
    if epoch as int == spec_epoch_of(state.slot, cfg) {
        state.current_epoch_seed@
    } else {
        state.previous_epoch_seed@
    }
}

/// The shuffled active validator indices of `epoch` under the state's
/// registry and the epoch's seed.
pub open spec fn spec_epoch_shuffled(state: BeaconState, epoch: u64, cfg: ChainSpec) -> Seq<
    usize,
> {
    crate::shuffle::spec_shuffle(
        spec_epoch_seed(state, epoch, cfg),
        active_indices(state.validator_registry@, epoch),
    )
}

/// The committees-per-slot count of `epoch` under the state's registry.
pub open spec fn spec_epoch_cps(state: BeaconState, epoch: u64, cfg: ChainSpec) -> int {
    spec_committees_per_slot(
        active_indices(state.validator_registry@, epoch).len() as int,
        cfg.cycle_length as int,
        cfg.min_committee_size as int,
        cfg.shard_count as int,
    )
}

/// The slots-per-committee count of `epoch` under the state's registry.
pub open spec fn spec_epoch_spc(state: BeaconState, epoch: u64, cfg: ChainSpec) -> int {
    spec_slots_per_committee(
        active_indices(state.validator_registry@, epoch).len() as int,
        cfg.cycle_length as int,
        cfg.min_committee_size as int,
    )
}

/// Whether the committee delegation of `epoch` fails: too many active
/// validators for one draw, or a dense active set with fewer shards than
/// cycle slots.
pub open spec fn spec_delegation_fails(state: BeaconState, epoch: u64, cfg: ChainSpec) -> bool {
    let active = active_indices(state.validator_registry@, epoch);
    active.len() > crate::shuffle::RAND_MAX || (spec_is_dense(
        active.len() as int,
        cfg.cycle_length as int,
        cfg.min_committee_size as int,
    ) && cfg.shard_count as int / cfg.cycle_length as int == 0)
}

/// The shape of the `k`-th attestation the builder inserts for `epoch` from
/// `start_slot` on: the vote of committee `k % cps` of slot
/// `start_slot + k / cps`, with full participation of exactly that
/// committee, citing the stored block roots and the epoch's checkpoints.
pub open spec fn inserted_attestation_ok(
    state: BeaconState,
    epoch: u64,
    start_slot: int,
    k: int,
    a: PendingAttestation,
    cfg: ChainSpec,
) -> bool {
    let cps = spec_epoch_cps(state, epoch, cfg);
    let spc = spec_epoch_spc(state, epoch, cfg);
    let cl = cfg.cycle_length as int;
    let sc = cfg.shard_count as int;
    let slot = start_slot + k / cps;
    let j = k % cps;
    let committee = committee_span(spec_epoch_shuffled(state, epoch, cfg), cl, cps, slot % cl, j);
    let justified = if epoch as int == spec_epoch_of(state.slot, cfg) {
        state.justified_epoch
    } else {
        state.previous_justified_epoch
    };
    &&& a.data.slot as int == slot
    &&& a.inclusion_slot as int == slot
    &&& a.data.index as int == ((slot % cl) * cps / spc + j) % sc
    &&& a.data.beacon_block_root@ == spec_block_root_at(state, slot)
    &&& a.data.source.epoch == justified
    &&& a.data.source.root@ == spec_block_root_at(state, spec_epoch_start(justified as int, cfg))
    &&& a.data.target.epoch == epoch
    &&& a.data.target.root@ == spec_block_root_at(state, spec_epoch_start(epoch as int, cfg))
    &&& a.aggregation_bitfield.spec_len() == committee.len()
    &&& bits_set_below(a.aggregation_bitfield, committee.len())
    &&& a.custody_bitfield.spec_len() == committee.len()
    &&& bits_set_below(a.custody_bitfield, committee.len())
}

/// The aggregate beacon state, advanced in place one slot at a time.
#[derive(Debug, PartialEq, Eq)]
pub struct BeaconState {
    pub slot: u64,
    pub genesis_time: u64,
    pub fork: Fork,
    pub validator_registry: Vec<ValidatorRecord>,
    pub balances: Vec<u64>,
    pub randao_mixes: Vec<Hash256>,
    pub validator_registry_update_epoch: u64,
    pub previous_calculation_epoch: u64,
    pub current_calculation_epoch: u64,
    pub previous_epoch_seed: Hash256,
    pub current_epoch_seed: Hash256,
    pub previous_justified_epoch: u64,
    pub justified_epoch: u64,
    pub justification_bitfield: u64,
    pub finalized_epoch: u64,
    pub latest_crosslinks: Vec<Crosslink>,
    pub latest_block_roots: Vec<Hash256>,
    pub latest_attestations: Vec<PendingAttestation>,
    pub eth1_data: Eth1Data,
}

/// Whether the block root of `slot` is held by the state: the state keeps
/// the roots of the last `latest_block_roots.len()` slots before its own.
pub open spec fn block_root_available(state: BeaconState, slot: int, cfg: ChainSpec) -> bool {
    &&& state.latest_block_roots@.len() > 0
    &&& state.slot - state.latest_block_roots@.len() <= slot < state.slot
    &&& 0 <= slot
}

/// The stored block root of `slot`.
pub open spec fn spec_block_root_at(state: BeaconState, slot: int) -> Seq<u8> {
    state.latest_block_roots@[slot % state.latest_block_roots@.len() as int]@
}

impl BeaconState {
    /// The epoch ordering invariant: finalized, justified and current epochs
    /// never run backwards.
    pub open spec fn epochs_ordered(&self, cfg: ChainSpec) -> bool {
        &&& self.finalized_epoch <= self.justified_epoch
        &&& self.previous_justified_epoch <= self.justified_epoch
        &&& self.justified_epoch <= spec_epoch_of(self.slot, cfg)
    }

    /// The epoch of the state's current slot.
    pub fn current_epoch(&self, cfg: &ChainSpec) -> (r: u64)
        requires
            cfg.wf(),
        ensures
            r == spec_epoch_of(self.slot, *cfg),
    {
        self.slot / cfg.epoch_length
    }

    /// The epoch before the current one (the current epoch at genesis).
    pub fn previous_epoch(&self, cfg: &ChainSpec) -> (r: u64)
        requires
            cfg.wf(),
        ensures
            r == (if spec_epoch_of(self.slot, *cfg) == 0 {
                0int
            } else {
                spec_epoch_of(self.slot, *cfg) - 1
            }),
    {
        let cur = self.current_epoch(cfg);
        if cur == 0 {
            0
        } else {
            cur - 1
        }
    }

    /// The stored block root of `slot`: available for exactly the last
    /// `latest_block_roots.len()` slots before the state's own slot.
    pub fn get_block_root(&self, slot: u64, cfg: &ChainSpec) -> (r: Result<
        Hash256,
        BeaconStateError,
    >)
        ensures
            r is Ok <==> block_root_available(*self, slot as int, *cfg),
            r matches Ok(h) ==> h@ == spec_block_root_at(*self, slot as int),
            r matches Err(e) ==> e == BeaconStateError::SlotOutOfRange,
    {
        let len = self.latest_block_roots.len();
        if len == 0 || slot >= self.slot || (self.slot - slot) as u128 > len as u128 {
            return Err(BeaconStateError::SlotOutOfRange);
        }
        let index = (slot % (len as u64)) as usize;
        Ok(self.latest_block_roots[index].clone())
    }
}

/// Whether every bit below `n` is set in the bitfield.
pub open spec fn bits_set_below(b: BooleanBitfield, n: nat) -> bool {
    forall|q: nat| q < n ==> #[trigger] b.bit(q)
}

/// A pair of bitfields with the first `n` bits set: full participation.
fn full_participation_bitfields(n: usize) -> (r: (BooleanBitfield, BooleanBitfield))
    ensures
        r.0.spec_len() == n,
        r.1.spec_len() == n,
        bits_set_below(r.0, n as nat),
        bits_set_below(r.1, n as nat),
{
    let mut aggregation_bitfield = BooleanBitfield::new();
    let mut custody_bitfield = BooleanBitfield::new();
    let mut i: usize = 0;
    while i < n
        invariant
            i <= n,
            aggregation_bitfield.well_formed(),
            custody_bitfield.well_formed(),
            aggregation_bitfield.spec_len() == i,
            custody_bitfield.spec_len() == i,
            bits_set_below(aggregation_bitfield, i as nat),
            bits_set_below(custody_bitfield, i as nat),
        decreases n - i,
    {
        aggregation_bitfield.set_bit(&i, &true);
        custody_bitfield.set_bit(&i, &true);
        i = i + 1;
    }
    (aggregation_bitfield, custody_bitfield)
}

/// Builds a pending attestation with full committee participation for
/// `committee` at `slot`, referencing the stored block roots.
#[verifier::rlimit(30)]
pub fn committee_to_pending_attestation(
    state: &BeaconState,
    committee: &Vec<usize>,
    shard: u64,
    slot: u64,
    cfg: &ChainSpec,
) -> (r: PendingAttestation)
    requires
        cfg.wf(),
        state.epochs_ordered(*cfg),
        block_root_available(*state, slot as int, *cfg),
        block_root_available(
            *state,
            spec_epoch_start(cpa_boundary_epoch(*state, slot, *cfg), *cfg),
            *cfg,
        ),
        block_root_available(
            *state,
            spec_epoch_start(cpa_justified_epoch(*state, slot, *cfg) as int, *cfg),
            *cfg,
        ),
    ensures
        r.inclusion_slot == slot,
        r.data.slot == slot,
        r.data.index == shard,
        r.data.beacon_block_root@ == spec_block_root_at(*state, slot as int),
        r.data.source.epoch == cpa_justified_epoch(*state, slot, *cfg),
        r.data.source.root@ == spec_block_root_at(
            *state,
            spec_epoch_start(cpa_justified_epoch(*state, slot, *cfg) as int, *cfg),
        ),
        r.data.target.epoch == cpa_boundary_epoch(*state, slot, *cfg),
        r.data.target.root@ == spec_block_root_at(
            *state,
            spec_epoch_start(cpa_boundary_epoch(*state, slot, *cfg), *cfg),
        ),
        r.aggregation_bitfield.spec_len() == committee@.len(),
        r.custody_bitfield.spec_len() == committee@.len(),
        bits_set_below(r.aggregation_bitfield, committee@.len()),
        bits_set_below(r.custody_bitfield, committee@.len()),
{
    proof {
        lemma_fundamental_div_mod(state.slot as int, cfg.epoch_length as int);
        lemma_fundamental_div_mod(slot as int, cfg.epoch_length as int);
        lemma_mul_is_commutative(
            cfg.epoch_length as int,
            spec_epoch_of(state.slot, *cfg),
        );
        lemma_mul_is_commutative(cfg.epoch_length as int, spec_epoch_of(slot, *cfg));
        lemma_mul_inequality(
            state.justified_epoch as int,
            spec_epoch_of(state.slot, *cfg),
            cfg.epoch_length as int,
        );
        lemma_mul_inequality(
            state.previous_justified_epoch as int,
            spec_epoch_of(state.slot, *cfg),
            cfg.epoch_length as int,
        );
        lemma_mul_is_commutative(cfg.epoch_length as int, state.justified_epoch as int);
        lemma_mul_is_commutative(cfg.epoch_length as int, state.previous_justified_epoch as int);
    }
    let current_epoch = state.current_epoch(cfg);
    let previous_epoch = state.previous_epoch(cfg);

    let bitfields = full_participation_bitfields(committee.len());
    let aggregation_bitfield = bitfields.0;
    let custody_bitfield = bitfields.1;

    let is_previous_epoch = state.slot / cfg.epoch_length != slot / cfg.epoch_length;

    let justified_epoch = if is_previous_epoch {
        state.previous_justified_epoch
    } else {
        state.justified_epoch
    };
    let boundary_epoch = if is_previous_epoch {
        previous_epoch
    } else {
        current_epoch
    };

    let epoch_boundary_root = match state.get_block_root(boundary_epoch * cfg.epoch_length, cfg) {
        Ok(h) => h,
        Err(_) => {
            proof {
                assert(false);
            }
            unreached()
        },
    };
    let justified_block_root = match state.get_block_root(
        justified_epoch * cfg.epoch_length,
        cfg,
    ) {
        Ok(h) => h,
        Err(_) => {
            proof {
                assert(false);
            }
            unreached()
        },
    };
    let beacon_block_root = match state.get_block_root(slot, cfg) {
        Ok(h) => h,
        Err(_) => {
            proof {
                assert(false);
            }
            unreached()
        },
    };

    let r = PendingAttestation {
        aggregation_bitfield,
        data: AttestationData {
            slot,
            index: shard,
            beacon_block_root,
            source: Checkpoint { epoch: justified_epoch, root: justified_block_root },
            target: Checkpoint { epoch: boundary_epoch, root: epoch_boundary_root },
        },
        custody_bitfield,
        inclusion_slot: slot,
    };
    r
}

impl BeaconState {
    /// The genesis state: one active validator per initial deposit, zeroed
    /// seeds and roots, every epoch counter at zero.
    pub fn genesis(
        genesis_time: u64,
        initial_validator_deposits: Vec<Deposit>,
        latest_eth1_data: Eth1Data,
        cfg: &ChainSpec,
    ) -> (r: Result<BeaconState, BeaconStateError>)
        requires
            cfg.wf(),
        ensures
            r is Ok,
            r matches Ok(s) ==> {
                &&& s.slot == 0
                &&& s.genesis_time == genesis_time
                &&& s.fork == (Fork {
                    previous_version: cfg.genesis_fork_version,
                    current_version: cfg.genesis_fork_version,
                    epoch: 0,
                })
                &&& s.validator_registry@.len() == initial_validator_deposits@.len()
                &&& forall|k: int|
                    0 <= k < s.validator_registry@.len()
                        ==> (#[trigger] s.validator_registry@[k]).pubkey@
                        == initial_validator_deposits@[k].deposit_data.deposit_input.pubkey@
                        && s.validator_registry@[k].start_dynasty == 0
                        && s.validator_registry@[k].end_dynasty == u64::MAX
                        && s.validator_registry@[k].status == ValidatorStatus::Active
                        && s.validator_registry@[k].effective_balance
                        == initial_validator_deposits@[k].deposit_data.amount
                &&& s.balances@.len() == initial_validator_deposits@.len()
                &&& forall|k: int|
                    0 <= k < s.balances@.len() ==> s.balances@[k]
                        == initial_validator_deposits@[k].deposit_data.amount
                &&& s.latest_block_roots@.len() == 4 * cfg.epoch_length
                &&& s.latest_crosslinks@.len() == cfg.shard_count
                &&& s.previous_justified_epoch == 0 && s.justified_epoch == 0
                    && s.finalized_epoch == 0
                &&& s.epochs_ordered(*cfg)
                &&& s.latest_attestations@.len() == 0
            },
    {
        let count = initial_validator_deposits.len();
        let mut validator_registry: Vec<ValidatorRecord> = Vec::new();
        let mut balances: Vec<u64> = Vec::new();
        let mut k: usize = 0;
        while k < count
            invariant
                k <= count,
                count == initial_validator_deposits@.len(),
                validator_registry@.len() == k,
                balances@.len() == k,
                forall|q: int|
                    0 <= q < k ==> (#[trigger] validator_registry@[q]).pubkey@
                        == initial_validator_deposits@[q].deposit_data.deposit_input.pubkey@
                        && validator_registry@[q].start_dynasty == 0
                        && validator_registry@[q].end_dynasty == u64::MAX
                        && validator_registry@[q].status == ValidatorStatus::Active
                        && validator_registry@[q].effective_balance
                        == initial_validator_deposits@[q].deposit_data.amount,
                forall|q: int|
                    0 <= q < k ==> balances@[q] == initial_validator_deposits@[q].deposit_data.amount,
            decreases count - k,
        {
            let deposit = &initial_validator_deposits[k];
            validator_registry.push(
                ValidatorRecord {
                    pubkey: deposit.deposit_data.deposit_input.pubkey.clone(),
                    withdrawal_credentials: deposit
                        .deposit_data
                        .deposit_input
                        .withdrawal_credentials
                        .clone(),
                    effective_balance: deposit.deposit_data.amount,
                    start_dynasty: 0,
                    end_dynasty: u64::MAX,
                    status: ValidatorStatus::Active,
                },
            );
            balances.push(deposit.deposit_data.amount);
            k = k + 1;
        }

        let roots_len = 4 * (cfg.epoch_length as usize);
        let mut latest_block_roots: Vec<Hash256> = Vec::new();
        let mut i: usize = 0;
        while i < roots_len
            invariant
                i <= roots_len,
                latest_block_roots@.len() == i,
            decreases roots_len - i,
        {
            latest_block_roots.push(Hash256::zero());
            i = i + 1;
        }

        let shard_count = cfg.shard_count as usize;
        let mut latest_crosslinks: Vec<Crosslink> = Vec::new();
        let mut i: usize = 0;
        while i < shard_count
            invariant
                i <= shard_count,
                latest_crosslinks@.len() == i,
            decreases shard_count - i,
        {
            latest_crosslinks.push(Crosslink { epoch: 0, shard_block_root: Hash256::zero() });
            i = i + 1;
        }

        let mut randao_mixes: Vec<Hash256> = Vec::new();
        let el = cfg.epoch_length as usize;
        let mut i: usize = 0;
        while i < el
            invariant
                i <= el,
                randao_mixes@.len() == i,
            decreases el - i,
        {
            randao_mixes.push(Hash256::zero());
            i = i + 1;
        }

        Ok(
            BeaconState {
                slot: 0,
                genesis_time,
                fork: Fork {
                    previous_version: cfg.genesis_fork_version,
                    current_version: cfg.genesis_fork_version,
                    epoch: 0,
                },
                validator_registry,
                balances,
                randao_mixes,
                validator_registry_update_epoch: 0,
                previous_calculation_epoch: 0,
                current_calculation_epoch: 0,
                previous_epoch_seed: Hash256::zero(),
                current_epoch_seed: Hash256::zero(),
                previous_justified_epoch: 0,
                justified_epoch: 0,
                justification_bitfield: 0,
                finalized_epoch: 0,
                latest_crosslinks,
                latest_block_roots,
                latest_attestations: Vec::new(),
                eth1_data: latest_eth1_data,
            },
        )
    }

    /// The committees crosslinking at `slot`: the slot's row of the cycle
    /// delegated from the epoch's seed and active validators. Only the
    /// current and previous epochs can be queried.
    pub fn get_crosslink_committees_at_slot(&self, slot: u64, cfg: &ChainSpec) -> (r: Result<
        Vec<(Vec<usize>, u64)>,
        BeaconStateError,
    >)
        requires
            cfg.wf(),
            self.validator_registry@.len() <= 0xFFFF_FFFF,
        ensures
            ({
                let cur = spec_epoch_of(self.slot, *cfg);
                let prev = if cur == 0 {
                    0int
                } else {
                    cur - 1
                };
                let e = spec_epoch_of(slot, *cfg);
                let active = active_indices(self.validator_registry@, e as u64);
                let fails = active.len() > RAND_MAX || (spec_is_dense(
                    active.len() as int,
                    cfg.cycle_length as int,
                    cfg.min_committee_size as int,
                ) && cfg.shard_count as int / cfg.cycle_length as int == 0);
                &&& ((e < prev || e > cur) <==> r == Err::<
                    Vec<(Vec<usize>, u64)>,
                    BeaconStateError,
                >(BeaconStateError::EpochOutOfRange))
                &&& (prev <= e <= cur && fails <==> r == Err::<
                    Vec<(Vec<usize>, u64)>,
                    BeaconStateError,
                >(BeaconStateError::UnknownEpoch))
                &&& (r is Ok <==> prev <= e <= cur && !fails)
                &&& (r matches Ok(cs) ==> {
                    let cps = spec_epoch_cps(*self, e as u64, *cfg);
                    let spc = spec_epoch_spc(*self, e as u64, *cfg);
                    let cl = cfg.cycle_length as int;
                    &&& cs@.len() == cps
                    &&& forall|j: int| 0 <= j < cs@.len() ==> (#[trigger] cs@[j]).1
                        < cfg.shard_count
                    &&& forall|j: int|
                        0 <= j < cs@.len() ==> (#[trigger] cs@[j]).1 as int == ((slot as int % cl)
                            * cps / spc + j) % (cfg.shard_count as int)
                    &&& forall|j: int|
                        0 <= j < cs@.len() ==> (#[trigger] cs@[j]).0@ == committee_span(
                            spec_epoch_shuffled(*self, e as u64, *cfg),
                            cl,
                            cps,
                            slot as int % cl,
                            j,
                        )
                })
            }),
    {
        let current_epoch = self.current_epoch(cfg);
        let previous_epoch = if current_epoch == 0 {
            0
        } else {
            current_epoch - 1
        };
        let epoch = slot / cfg.epoch_length;
        if epoch < previous_epoch || epoch > current_epoch {
            return Err(BeaconStateError::EpochOutOfRange);
        }
        let seed = if epoch == current_epoch {
            self.current_epoch_seed.to_vec()
        } else {
            self.previous_epoch_seed.to_vec()
        };
        let start: u16 = 0;
        let cycle = match delegate_validators(&seed, &self.validator_registry, &epoch, &start, cfg)
        {
            Ok(cycle) => cycle,
            Err(_) => {
                return Err(BeaconStateError::UnknownEpoch);
            },
        };
        let cl = cfg.cycle_length as usize;
        let idx = (slot % (cl as u64)) as usize;
        let ghost cps = spec_epoch_cps(*self, epoch, *cfg);
        let ghost spc = spec_epoch_spc(*self, epoch, *cfg);
        let ghost shuffled = spec_epoch_shuffled(*self, epoch, *cfg);
        proof {
            assert(idx as int == slot as int % cfg.cycle_length as int);
        }
        let row: &Vec<ShardAndCommittee> = &cycle[idx];
        let m = row.len();
        let mut cs: Vec<(Vec<usize>, u64)> = Vec::new();
        let mut j: usize = 0;
        while j < m
            invariant
                j <= m,
                m == row@.len(),
                m == cps,
                idx as int == slot as int % cfg.cycle_length as int,
                forall|q: int| 0 <= q < m ==> (#[trigger] row@[q]).shard_id < cfg.shard_count,
                forall|q: int|
                    0 <= q < m ==> (#[trigger] row@[q]).shard_id as int == ((idx as int) * cps
                        / spc + q) % (cfg.shard_count as int),
                forall|q: int|
                    0 <= q < m ==> (#[trigger] row@[q]).committee@ == committee_span(
                        shuffled,
                        cfg.cycle_length as int,
                        cps,
                        idx as int,
                        q,
                    ),
                cs@.len() == j,
                forall|q: int| 0 <= q < j ==> (#[trigger] cs@[q]).1 < cfg.shard_count,
                forall|q: int|
                    0 <= q < j ==> (#[trigger] cs@[q]).1 as int == ((idx as int) * cps / spc + q)
                        % (cfg.shard_count as int),
                forall|q: int|
                    0 <= q < j ==> (#[trigger] cs@[q]).0@ == committee_span(
                        shuffled,
                        cfg.cycle_length as int,
                        cps,
                        idx as int,
                        q,
                    ),
            decreases m - j,
        {
            let sac = &row[j];
            cs.push((clone_copy_vec(&sac.committee), sac.shard_id as u64));
            j = j + 1;
        }
        Ok(cs)
    }
}

/// Whether two states carry the same values, field by field.
pub open spec fn state_eq(a: BeaconState, b: BeaconState) -> bool {
    &&& a.slot == b.slot
    &&& a.genesis_time == b.genesis_time
    &&& a.fork == b.fork
    &&& a.validator_registry@.len() == b.validator_registry@.len()
    &&& forall|k: int|
        0 <= k < a.validator_registry@.len() ==> {
            let v1 = #[trigger] a.validator_registry@[k];
            let v2 = b.validator_registry@[k];
            v1.pubkey@ == v2.pubkey@ && v1.withdrawal_credentials@ == v2.withdrawal_credentials@
                && v1.effective_balance == v2.effective_balance && v1.start_dynasty
                == v2.start_dynasty && v1.end_dynasty == v2.end_dynasty && v1.status == v2.status
        }
    &&& a.balances@ == b.balances@
    &&& a.randao_mixes@.len() == b.randao_mixes@.len()
    &&& forall|k: int|
        0 <= k < a.randao_mixes@.len() ==> (#[trigger] a.randao_mixes@[k])@
            == b.randao_mixes@[k]@
    &&& a.validator_registry_update_epoch == b.validator_registry_update_epoch
    &&& a.previous_calculation_epoch == b.previous_calculation_epoch
    &&& a.current_calculation_epoch == b.current_calculation_epoch
    &&& a.previous_epoch_seed@ == b.previous_epoch_seed@
    &&& a.current_epoch_seed@ == b.current_epoch_seed@
    &&& a.previous_justified_epoch == b.previous_justified_epoch
    &&& a.justified_epoch == b.justified_epoch
    &&& a.justification_bitfield == b.justification_bitfield
    &&& a.finalized_epoch == b.finalized_epoch
    &&& a.latest_crosslinks@.len() == b.latest_crosslinks@.len()
    &&& forall|k: int|
        0 <= k < a.latest_crosslinks@.len() ==> (#[trigger] a.latest_crosslinks@[k]).epoch
            == b.latest_crosslinks@[k].epoch && a.latest_crosslinks@[k].shard_block_root@
            == b.latest_crosslinks@[k].shard_block_root@
    &&& a.latest_block_roots@.len() == b.latest_block_roots@.len()
    &&& forall|k: int|
        0 <= k < a.latest_block_roots@.len() ==> (#[trigger] a.latest_block_roots@[k])@
            == b.latest_block_roots@[k]@
    &&& a.latest_attestations@.len() == b.latest_attestations@.len()
    &&& forall|k: int|
        0 <= k < a.latest_attestations@.len() ==> pending_attestation_eq(
            #[trigger] a.latest_attestations@[k],
            b.latest_attestations@[k],
        )
    &&& a.eth1_data.deposit_root@ == b.eth1_data.deposit_root@
    &&& a.eth1_data.block_hash@ == b.eth1_data.block_hash@
}

/// Whether two pending attestations carry the same values.
pub open spec fn pending_attestation_eq(a: PendingAttestation, b: PendingAttestation) -> bool {
    &&& a.aggregation_bitfield.spec_len() == b.aggregation_bitfield.spec_len()
    &&& a.aggregation_bitfield.bytes() == b.aggregation_bitfield.bytes()
    &&& crate::slashing::attestation_data_eq(a.data, b.data)
    &&& a.custody_bitfield.spec_len() == b.custody_bitfield.spec_len()
    &&& a.custody_bitfield.bytes() == b.custody_bitfield.bytes()
    &&& a.inclusion_slot == b.inclusion_slot
}

impl Clone for PendingAttestation {
    fn clone(&self) -> (r: Self)
        ensures
            pending_attestation_eq(r, *self),
    {
        Self {
            aggregation_bitfield: self.aggregation_bitfield.clone(),
            data: self.data.clone(),
            custody_bitfield: self.custody_bitfield.clone(),
            inclusion_slot: self.inclusion_slot,
        }
    }
}

/// A copy of a vector of hashes with the same contents.
fn clone_hashes(v: &Vec<Hash256>) -> (r: Vec<Hash256>)
    ensures
        r@.len() == v@.len(),
        forall|k: int| 0 <= k < v@.len() ==> (#[trigger] r@[k])@ == v@[k]@,
{
    let n = v.len();
    let mut r: Vec<Hash256> = Vec::new();
    let mut i: usize = 0;
    while i < n
        invariant
            i <= n,
            n == v@.len(),
            r@.len() == i,
            forall|k: int| 0 <= k < i ==> (#[trigger] r@[k])@ == v@[k]@,
        decreases n - i,
    {
        r.push(v[i].clone());
        i = i + 1;
    }
    r
}

impl Clone for BeaconState {
    fn clone(&self) -> (r: Self)
        ensures
            state_eq(r, *self),
    {
        let n1 = self.validator_registry.len();
        let mut validator_registry: Vec<ValidatorRecord> = Vec::new();
        let mut i: usize = 0;
        while i < n1
            invariant
                i <= n1,
                n1 == self.validator_registry@.len(),
                validator_registry@.len() == i,
                forall|k: int|
                    0 <= k < i ==> {
                        let v1 = #[trigger] validator_registry@[k];
                        let v2 = self.validator_registry@[k];
                        v1.pubkey@ == v2.pubkey@ && v1.withdrawal_credentials@
                            == v2.withdrawal_credentials@ && v1.effective_balance
                            == v2.effective_balance && v1.start_dynasty == v2.start_dynasty
                            && v1.end_dynasty == v2.end_dynasty && v1.status == v2.status
                    },
            decreases n1 - i,
        {
            validator_registry.push(self.validator_registry[i].clone());
            i = i + 1;
        }
        let n2 = self.latest_crosslinks.len();
        let mut latest_crosslinks: Vec<Crosslink> = Vec::new();
        let mut i: usize = 0;
        while i < n2
            invariant
                i <= n2,
                n2 == self.latest_crosslinks@.len(),
                latest_crosslinks@.len() == i,
                forall|k: int|
                    0 <= k < i ==> (#[trigger] latest_crosslinks@[k]).epoch
                        == self.latest_crosslinks@[k].epoch
                        && latest_crosslinks@[k].shard_block_root@
                        == self.latest_crosslinks@[k].shard_block_root@,
            decreases n2 - i,
        {
            latest_crosslinks.push(self.latest_crosslinks[i].clone());
            i = i + 1;
        }
        let n3 = self.latest_attestations.len();
        let mut latest_attestations: Vec<PendingAttestation> = Vec::new();
        let mut i: usize = 0;
        while i < n3
            invariant
                i <= n3,
                n3 == self.latest_attestations@.len(),
                latest_attestations@.len() == i,
                forall|k: int|
                    0 <= k < i ==> pending_attestation_eq(
                        #[trigger] latest_attestations@[k],
                        self.latest_attestations@[k],
                    ),
            decreases n3 - i,
        {
            latest_attestations.push(self.latest_attestations[i].clone());
            i = i + 1;
        }
        let r = BeaconState {
            slot: self.slot,
            genesis_time: self.genesis_time,
            fork: self.fork,
            validator_registry,
            balances: clone_copy_vec(&self.balances),
            randao_mixes: clone_hashes(&self.randao_mixes),
            validator_registry_update_epoch: self.validator_registry_update_epoch,
            previous_calculation_epoch: self.previous_calculation_epoch,
            current_calculation_epoch: self.current_calculation_epoch,
            previous_epoch_seed: self.previous_epoch_seed.clone(),
            current_epoch_seed: self.current_epoch_seed.clone(),
            previous_justified_epoch: self.previous_justified_epoch,
            justified_epoch: self.justified_epoch,
            justification_bitfield: self.justification_bitfield,
            finalized_epoch: self.finalized_epoch,
            latest_crosslinks,
            latest_block_roots: clone_hashes(&self.latest_block_roots),
            latest_attestations,
            eth1_data: self.eth1_data.clone(),
        };
        r
    }
}

/// Builds a `BeaconState` for testing or benchmarking: create the builder,
/// run `genesis`, optionally reshape the state, then `build` a copy.
pub struct BeaconStateBuilder {
    pub state: Option<BeaconState>,
    pub genesis_time: u64,
    pub initial_validator_deposits: Vec<Deposit>,
    pub latest_eth1_data: Eth1Data,
    pub spec: ChainSpec,
    pub keypairs: Vec<Keypair>,
}

impl BeaconStateBuilder {
    /// A builder over `validator_count` freshly drawn keypairs, each backing
    /// one full deposit.
    pub fn with_random_validators(validator_count: usize) -> (r: Self)
        ensures
            r.state is None,
            r.genesis_time == 10_000_000,
            r.spec == ChainSpec::foundation_spec(),
            r.keypairs@.len() == validator_count,
            r.initial_validator_deposits@.len() == validator_count,
            forall|k: int|
                0 <= k < validator_count ==> {
                    let d = #[trigger] r.initial_validator_deposits@[k];
                    &&& d.deposit_data.amount == 32_000_000_000u64
                    &&& d.deposit_data.timestamp == 9_999_999
                    &&& d.branch@.len() == 0
                    &&& d.index == 0
                    &&& d.deposit_data.deposit_input.pubkey@ == r.keypairs@[k].pk@
                    &&& d.wf()
                },
    {
        let genesis_time = 10_000_000u64;
        let mut keypairs: Vec<Keypair> = Vec::new();
        let mut initial_validator_deposits: Vec<Deposit> = Vec::new();
        let mut i: usize = 0;
        while i < validator_count
            invariant
                i <= validator_count,
                genesis_time == 10_000_000,
                keypairs@.len() == i,
                initial_validator_deposits@.len() == i,
                forall|k: int| 0 <= k < i ==> (#[trigger] keypairs@[k]).wf(),
                forall|k: int|
                    0 <= k < i ==> {
                        let d = #[trigger] initial_validator_deposits@[k];
                        &&& d.deposit_data.amount == 32_000_000_000u64
                        &&& d.deposit_data.timestamp == 9_999_999
                        &&& d.branch@.len() == 0
                        &&& d.index == 0
                        &&& d.deposit_data.deposit_input.pubkey@ == keypairs@[k].pk@
                        &&& d.wf()
                    },
            decreases validator_count - i,
        {
            let keypair = Keypair::random();
            let proof_of_possession = create_proof_of_possession(&keypair);
            initial_validator_deposits.push(
                Deposit {
                    branch: Vec::new(),
                    index: 0,
                    deposit_data: crate::deposit::DepositData {
                        amount: 32_000_000_000,
                        timestamp: genesis_time - 1,
                        deposit_input: crate::deposit::DepositInput {
                            pubkey: keypair.pk.clone(),
                            withdrawal_credentials: Hash256::zero(),
                            proof_of_possession,
                        },
                    },
                },
            );
            keypairs.push(keypair);
            i = i + 1;
        }
        let latest_eth1_data = Eth1Data {
            deposit_root: Hash256::zero(),
            block_hash: Hash256::zero(),
        };
        BeaconStateBuilder {
            state: None,
            genesis_time,
            initial_validator_deposits,
            latest_eth1_data,
            spec: ChainSpec::foundation(),
            keypairs,
        }
    }

    /// Runs the genesis function over the builder's deposits and stores the
    /// produced state.
    pub fn genesis(&mut self) -> (r: Result<(), BeaconStateError>)
        requires
            old(self).spec.wf(),
        ensures
            r is Ok,
            final(self).state matches Some(s) ==> s.slot == 0 && s.validator_registry@.len() == old(
                self,
            ).initial_validator_deposits@.len() && s.epochs_ordered(old(self).spec),
            final(self).state is Some,
            final(self).spec == old(self).spec,
            final(self).keypairs@ == old(self).keypairs@,
    {
        let mut deposits: Vec<Deposit> = Vec::new();
        let n = self.initial_validator_deposits.len();
        let mut i: usize = 0;
        while i < n
            invariant
                i <= n,
                n == self.initial_validator_deposits@.len(),
                deposits@.len() == i,
                forall|k: int|
                    0 <= k < i ==> crate::deposit::deposit_eq(
                        #[trigger] deposits@[k],
                        self.initial_validator_deposits@[k],
                    ),
            decreases n - i,
        {
            deposits.push(self.initial_validator_deposits[i].clone());
            i = i + 1;
        }
        let state = match BeaconState::genesis(
            self.genesis_time,
            deposits,
            self.latest_eth1_data.clone(),
            &self.spec,
        ) {
            Ok(s) => s,
            Err(_) => {
                proof {
                    assert(false);
                }
                unreached()
            },
        };
        self.state = Some(state);
        Ok(())
    }

    /// Moves the state to the last slot of `epoch` and sets every
    /// justification and finalization field as favourably as possible.
    pub fn teleport_to_end_of_epoch(&mut self, epoch: u64)
        requires
            old(self).state is Some,
            old(self).spec.wf(),
            2 <= epoch,
            (epoch + 1) * old(self).spec.epoch_length <= u64::MAX,
        ensures
            final(self).state matches Some(s) ==> {
                &&& s.slot == (epoch + 1) * old(self).spec.epoch_length - 1
                &&& s.validator_registry_update_epoch == epoch - 1
                &&& s.previous_calculation_epoch == epoch - 1
                &&& s.current_calculation_epoch == epoch
                &&& s.previous_justified_epoch == epoch - 2
                &&& s.justified_epoch == epoch - 1
                &&& s.justification_bitfield == u64::MAX
                &&& s.finalized_epoch == epoch - 1
                &&& s.epochs_ordered(old(self).spec)
            },
            final(self).state is Some,
            final(self).spec == old(self).spec,
    {
        let ghost cfg = self.spec;
        let el = self.spec.epoch_length;
        proof {
            assert(epoch + 1 <= (epoch + 1) * cfg.epoch_length) by (nonlinear_arith)
                requires
                    1 <= cfg.epoch_length,
                    0 <= epoch,
            ;
        }
        let slot = (epoch + 1) * el - 1;
        match &mut self.state {
            Some(state) => {
                state.slot = slot;
                state.validator_registry_update_epoch = epoch - 1;
                state.previous_calculation_epoch = epoch - 1;
                state.current_calculation_epoch = epoch;
                state.previous_epoch_seed = Hash256::from_low_u64_le(1);
                state.current_epoch_seed = Hash256::from_low_u64_le(2);
                state.previous_justified_epoch = epoch - 2;
                state.justified_epoch = epoch - 1;
                state.justification_bitfield = u64::MAX;
                state.finalized_epoch = epoch - 1;
            },
            None => {
                proof {
                    assert(false);
                }
            },
        }
        proof {
            assert(spec_epoch_of(slot, cfg) >= epoch - 1) by (nonlinear_arith)
                requires
                    slot == (epoch + 1) * cfg.epoch_length - 1,
                    1 <= cfg.epoch_length,
                    2 <= epoch,
            ;
        }
    }

    /// Creates the full set of attestations the state can support: one per
    /// (committee, shard) of every slot of the previous epoch and of the
    /// current epoch up to the state's own slot, each with full committee
    /// participation and the expected block roots. Fails exactly when a
    /// touched epoch's committee delegation fails.
    pub fn insert_attestations(&mut self) -> (r: Result<(), BeaconStateError>)
        requires
            old(self).state is Some,
            old(self).spec.wf(),
            ({
                let st = old(self).state->0;
                let cfg = old(self).spec;
                &&& st.epochs_ordered(cfg)
                &&& st.validator_registry@.len() <= 0xFFFF_FFFF
                &&& spec_epoch_of(st.slot, cfg) >= 1
                &&& st.latest_block_roots@.len() >= 2 * cfg.epoch_length
                &&& block_root_available(
                    st,
                    spec_epoch_start(st.previous_justified_epoch as int, cfg),
                    cfg,
                )
                &&& (block_root_available(
                    st,
                    spec_epoch_start(st.justified_epoch as int, cfg),
                    cfg,
                ) || st.slot as int == spec_epoch_start(spec_epoch_of(st.slot, cfg), cfg))
            }),
        ensures
            final(self).state is Some,
            final(self).spec == old(self).spec,
            ({
                let st0 = old(self).state->0;
                let cfg = old(self).spec;
                let cur = spec_epoch_of(st0.slot, cfg);
                let cur_start = spec_epoch_start(cur, cfg);
                r is Err <==> spec_delegation_fails(st0, (cur - 1) as u64, cfg) || (st0.slot
                    > cur_start && spec_delegation_fails(st0, cur as u64, cfg))
            }),
            r matches Err(e) ==> e == BeaconStateError::UnknownEpoch && *final(self) == *old(self),
            r matches Ok(u) ==> {
                let st0 = old(self).state->0;
                let st1 = final(self).state->0;
                let cfg = old(self).spec;
                let cur = spec_epoch_of(st0.slot, cfg);
                let prev = (cur - 1) as u64;
                let prev_start = spec_epoch_start(cur - 1, cfg);
                let cur_start = spec_epoch_start(cur, cfg);
                let old_len = st0.latest_attestations@.len() as int;
                let np = cfg.epoch_length * spec_epoch_cps(st0, prev, cfg);
                let nc = (st0.slot - cur_start) * spec_epoch_cps(st0, cur as u64, cfg);
                &&& st1.slot == st0.slot
                &&& st1.validator_registry@ == st0.validator_registry@
                &&& st1.latest_block_roots@ == st0.latest_block_roots@
                &&& st1.latest_attestations@.len() == old_len + np + nc
                &&& forall|k: int|
                    0 <= k < old_len ==> #[trigger] st1.latest_attestations@[k]
                        == st0.latest_attestations@[k]
                &&& forall|k: int|
                    0 <= k < np ==> inserted_attestation_ok(
                        st0,
                        prev,
                        prev_start,
                        k,
                        #[trigger] st1.latest_attestations@[old_len + k],
                        cfg,
                    )
                &&& forall|k: int|
                    0 <= k < nc ==> inserted_attestation_ok(
                        st0,
                        cur as u64,
                        cur_start,
                        k,
                        #[trigger] st1.latest_attestations@[old_len + np + k],
                        cfg,
                    )
            },
    {
        let cfg = self.spec;
        let mut to_add_prev: Vec<PendingAttestation>;
        let mut to_add_cur: Vec<PendingAttestation>;
        {
            let state = match &self.state {
                Some(s) => s,
                None => {
                    proof {
                        assert(false);
                    }
                    unreached()
                },
            };
            let current_epoch = state.current_epoch(&cfg);
            let prev_epoch = current_epoch - 1;
            let el = cfg.epoch_length;
            proof {
                lemma_fundamental_div_mod(state.slot as int, el as int);
                lemma_mul_is_commutative(el as int, current_epoch as int);
                lemma_mul_inequality(prev_epoch as int, current_epoch as int, el as int);
                lemma_mul_is_commutative(el as int, prev_epoch as int);
                assert((prev_epoch + 1) * el == prev_epoch * el + el) by (nonlinear_arith);
                assert((current_epoch + 1) * el == current_epoch * el + el) by (nonlinear_arith);
            }
            let prev_start = prev_epoch * el;
            let cur_start = current_epoch * el;
            to_add_prev = match Self::epoch_attestations(state, prev_epoch, prev_start, cur_start, &cfg) {
                Ok(v) => v,
                Err(e) => {
                    return Err(e);
                },
            };
            to_add_cur = match Self::epoch_attestations(state, current_epoch, cur_start, state.slot, &cfg) {
                Ok(v) => v,
                Err(e) => {
                    return Err(e);
                },
            };
        }
        let ghost added_prev = to_add_prev@;
        let ghost added_cur = to_add_cur@;
        match &mut self.state {
            Some(st) => {
                let ghost pre = st.latest_attestations@;
                st.latest_attestations.append(&mut to_add_prev);
                st.latest_attestations.append(&mut to_add_cur);
                proof {
                    assert(st.latest_attestations@ =~= pre + added_prev + added_cur);
                }
            },
            None => {
                proof {
                    assert(false);
                }
            },
        }
        Ok(())
    }

    /// Builds one pending attestation per (committee, shard) of every slot in
    /// `[start_slot, end_slot)`, all lying in `epoch`; the `k`-th result
    /// belongs to slot `start_slot + k / cps`, committee `k % cps`.
    fn epoch_attestations(
        state: &BeaconState,
        epoch: u64,
        start_slot: u64,
        end_slot: u64,
        cfg: &ChainSpec,
    ) -> (r: Result<Vec<PendingAttestation>, BeaconStateError>)
        requires
            cfg.wf(),
            state.epochs_ordered(*cfg),
            state.validator_registry@.len() <= 0xFFFF_FFFF,
            start_slot <= end_slot,
            spec_epoch_start(epoch as int, *cfg) <= start_slot,
            end_slot <= spec_epoch_start(epoch as int + 1, *cfg),
            (if spec_epoch_of(state.slot, *cfg) == 0 {
                0int
            } else {
                spec_epoch_of(state.slot, *cfg) - 1
            }) <= epoch as int <= spec_epoch_of(state.slot, *cfg),
            state.latest_block_roots@.len() > 0,
            state.slot - state.latest_block_roots@.len() <= start_slot,
            end_slot <= state.slot,
            start_slot < end_slot ==> block_root_available(
                *state,
                spec_epoch_start(epoch as int, *cfg),
                *cfg,
            ),
            start_slot < end_slot ==> block_root_available(
                *state,
                spec_epoch_start(
                    (if epoch as int == spec_epoch_of(state.slot, *cfg) {
                        state.justified_epoch
                    } else {
                        state.previous_justified_epoch
                    }) as int,
                    *cfg,
                ),
                *cfg,
            ),
        ensures
            (r is Err <==> start_slot < end_slot && spec_delegation_fails(*state, epoch, *cfg)),
            r matches Err(e) ==> e == BeaconStateError::UnknownEpoch,
            r matches Ok(v) ==> {
                &&& v@.len() == (end_slot - start_slot) * spec_epoch_cps(*state, epoch, *cfg)
                &&& forall|k: int|
                    0 <= k < v@.len() ==> inserted_attestation_ok(
                        *state,
                        epoch,
                        start_slot as int,
                        k,
                        #[trigger] v@[k],
                        *cfg,
                    )
            },
    {
        let ghost cps = spec_epoch_cps(*state, epoch, *cfg);
        let el = cfg.epoch_length;
        let mut to_add: Vec<PendingAttestation> = Vec::new();
        let mut s_slot = start_slot;
        proof {
            assert((start_slot - start_slot) * cps == 0) by (nonlinear_arith);
        }
        while s_slot < end_slot
            invariant
                start_slot <= s_slot <= end_slot,
                cfg.wf(),
                el == cfg.epoch_length,
                cps == spec_epoch_cps(*state, epoch, *cfg),
                state.epochs_ordered(*cfg),
                state.validator_registry@.len() <= 0xFFFF_FFFF,
                spec_epoch_start(epoch as int, *cfg) <= start_slot,
                end_slot <= spec_epoch_start(epoch as int + 1, *cfg),
                (if spec_epoch_of(state.slot, *cfg) == 0 {
                    0int
                } else {
                    spec_epoch_of(state.slot, *cfg) - 1
                }) <= epoch as int <= spec_epoch_of(state.slot, *cfg),
                state.latest_block_roots@.len() > 0,
                state.slot - state.latest_block_roots@.len() <= start_slot,
                end_slot <= state.slot,
                start_slot < end_slot ==> block_root_available(
                    *state,
                    spec_epoch_start(epoch as int, *cfg),
                    *cfg,
                ),
                start_slot < end_slot ==> block_root_available(
                    *state,
                    spec_epoch_start(
                        (if epoch as int == spec_epoch_of(state.slot, *cfg) {
                            state.justified_epoch
                        } else {
                            state.previous_justified_epoch
                        }) as int,
                        *cfg,
                    ),
                    *cfg,
                ),
                start_slot < s_slot ==> !spec_delegation_fails(*state, epoch, *cfg),
                to_add@.len() == (s_slot - start_slot) * cps,
                forall|k: int|
                    0 <= k < to_add@.len() ==> inserted_attestation_ok(
                        *state,
                        epoch,
                        start_slot as int,
                        k,
                        #[trigger] to_add@[k],
                        *cfg,
                    ),
            decreases end_slot - s_slot,
        {
            proof {
                lemma_mul_is_commutative(
                    cfg.epoch_length as int,
                    epoch as int,
                );
                assert((epoch as int + 1) * cfg.epoch_length as int == epoch as int
                    * cfg.epoch_length as int + cfg.epoch_length as int) by (nonlinear_arith);
                vstd::arithmetic::div_mod::lemma_fundamental_div_mod_converse(
                    s_slot as int,
                    cfg.epoch_length as int,
                    epoch as int,
                    s_slot as int - epoch as int * cfg.epoch_length as int,
                );
            }
            let committees = match state.get_crosslink_committees_at_slot(s_slot, cfg) {
                Ok(cs) => cs,
                Err(e) => {
                    proof {
                        assert(spec_delegation_fails(*state, epoch, *cfg));
                    }
                    return Err(e);
                },
            };
            proof {
                lemma_committees_per_slot_pos(
                    active_indices(state.validator_registry@, epoch).len() as int,
                    cfg.cycle_length as int,
                    cfg.min_committee_size as int,
                    cfg.shard_count as int,
                );
                assert((s_slot + 1 - start_slot) * cps == (s_slot - start_slot) * cps + cps)
                    by (nonlinear_arith);
            }
            let m = committees.len();
            let ghost base = to_add@.len() as int;
            let mut j: usize = 0;
            while j < m
                invariant
                    j <= m,
                    m == committees@.len(),
                    m == cps,
                    1 <= cps,
                    cfg.wf(),
                    cps == spec_epoch_cps(*state, epoch, *cfg),
                    state.epochs_ordered(*cfg),
                    start_slot <= s_slot < end_slot,
                    spec_epoch_of(s_slot, *cfg) == epoch,
                    s_slot as int % cfg.epoch_length as int == s_slot as int - epoch as int
                        * cfg.epoch_length as int,
                    (if spec_epoch_of(state.slot, *cfg) == 0 {
                        0int
                    } else {
                        spec_epoch_of(state.slot, *cfg) - 1
                    }) <= epoch as int <= spec_epoch_of(state.slot, *cfg),
                    state.latest_block_roots@.len() > 0,
                    state.slot - state.latest_block_roots@.len() <= start_slot,
                    end_slot <= state.slot,
                    block_root_available(*state, spec_epoch_start(epoch as int, *cfg), *cfg),
                    block_root_available(
                        *state,
                        spec_epoch_start(
                            (if epoch as int == spec_epoch_of(state.slot, *cfg) {
                                state.justified_epoch
                            } else {
                                state.previous_justified_epoch
                            }) as int,
                            *cfg,
                        ),
                        *cfg,
                    ),
                    base == (s_slot - start_slot) * cps,
                    to_add@.len() == base + j,
                    forall|q: int|
                        0 <= q < m ==> (#[trigger] committees@[q]).1 as int == ((s_slot as int
                            % cfg.cycle_length as int) * cps / spec_epoch_spc(
                            *state,
                            epoch,
                            *cfg,
                        ) + q) % (cfg.shard_count as int),
                    forall|q: int|
                        0 <= q < m ==> (#[trigger] committees@[q]).0@ == committee_span(
                            spec_epoch_shuffled(*state, epoch, *cfg),
                            cfg.cycle_length as int,
                            cps,
                            s_slot as int % cfg.cycle_length as int,
                            q,
                        ),
                    forall|k: int|
                        0 <= k < to_add@.len() ==> inserted_attestation_ok(
                            *state,
                            epoch,
                            start_slot as int,
                            k,
                            #[trigger] to_add@[k],
                            *cfg,
                        ),
                decreases m - j,
            {
                let committee = clone_copy_vec(&committees[j].0);
                let shard = committees[j].1;
                let attestation = committee_to_pending_attestation(
                    state,
                    &committee,
                    shard,
                    s_slot,
                    cfg,
                );
                let ghost k = to_add@.len() as int;
                to_add.push(attestation);
                proof {
                    vstd::arithmetic::div_mod::lemma_fundamental_div_mod_converse(
                        k,
                        cps,
                        (s_slot - start_slot) as int,
                        j as int,
                    );
                    assert(inserted_attestation_ok(
                        *state,
                        epoch,
                        start_slot as int,
                        k,
                        to_add@[k],
                        *cfg,
                    ));
                }
                j = j + 1;
            }
            s_slot = s_slot + 1;
        }
        proof {
            assert(to_add@.len() == (end_slot - start_slot) * cps);
        }
        Ok(to_add)
    }

    /// A copy of the built state.
    pub fn build(&self) -> (r: Result<BeaconState, BeaconStateError>)
        requires
            self.state is Some,
        ensures
            r is Ok,
            r matches Ok(s) ==> state_eq(s, self.state->0),
    {
        match &self.state {
            Some(state) => Ok(state.clone()),
            None => {
                proof {
                    assert(false);
                }
                unreached()
            },
        }
    }
}

} // verus!
