//! The validator duties manager: a per-validator, per-epoch duty cache with
//! change detection, fed by an abstract beacon endpoint, and the duty reader
//! used by the attester.

use crate::types::{bytes_eq, PublicKey};
use std::collections::HashMap;
use vstd::prelude::*;

verus! {

broadcast use vstd::std_specs::hash::group_hash_axioms;

/// The duties of one validator for one epoch.
#[derive(Debug, PartialEq, Eq, Structural, Clone, Copy)]
pub struct EpochDuties {
    pub block_production_slot: Option<u64>,
    pub shard: Option<u64>,
}

impl EpochDuties {
    /// Whether `slot` is this validator's block production slot.
    pub fn is_block_production_slot(&self, slot: u64) -> (r: bool)
        ensures
            r == (self.block_production_slot == Some(slot)),
    {
        match self.block_production_slot {
            Some(s) => s == slot,
            _ => false,
        }
    }
}

/// What one poll of the beacon endpoint meant for the cache.
#[derive(Debug, PartialEq, Eq, Structural, Clone, Copy)]
pub enum PollOutcome {
    NoChange,
    NewDuties,
    DutiesChanged,
    UnknownValidatorOrEpoch,
}

/// A failure of the beacon endpoint.
#[derive(Debug, PartialEq, Eq)]
pub enum BeaconNodeError {
    RemoteFailure(String),
    DecodeFailure,
}

#[derive(Debug, PartialEq, Eq)]
pub enum Error {
    SlotClockError,
    SlotUnknowable,
    EpochMapPoisoned,
    SlotClockPoisoned,
    EpochLengthIsZero,
    BeaconNodeError(BeaconNodeError),
}

impl From<BeaconNodeError> for Error {
    fn from(e: BeaconNodeError) -> (r: Error) {
        Error::BeaconNodeError(e)
    }
}

impl vstd::std_specs::convert::FromSpecImpl<BeaconNodeError> for Error {
    open spec fn obeys_from_spec() -> bool {
        true
    }

    open spec fn from_spec(e: BeaconNodeError) -> Error {
        Error::BeaconNodeError(e)
    }
}

/// The duty cache: a map from (public key bytes, epoch) to duties, stored as
/// an append-ordered entry list where later entries override earlier ones.
#[derive(Debug, PartialEq, Eq)]
pub struct EpochDutiesMap {
    entries: Vec<(PublicKey, u64, EpochDuties)>,
}

/// The duties the entry list holds for `key`: those of its latest entry.
pub open spec fn duties_lookup(
    s: Seq<(PublicKey, u64, EpochDuties)>,
    key: (Seq<u8>, u64),
) -> Option<EpochDuties>
    decreases s.len(),
{
    if s.len() == 0 {
        None
    } else if s.last().0@ == key.0 && s.last().1 == key.1 {
        Some(s.last().2)
    } else {
        duties_lookup(s.drop_last(), key)
    }
}

/// The map an entry list denotes.
pub open spec fn duties_map_of(s: Seq<(PublicKey, u64, EpochDuties)>) -> Map<
    (Seq<u8>, u64),
    EpochDuties,
>
    decreases s.len(),
{
    if s.len() == 0 {
        Map::<(Seq<u8>, u64), EpochDuties>::empty()
    } else {
        duties_map_of(s.drop_last()).insert((s.last().0@, s.last().1), s.last().2)
    }
}

pub proof fn lemma_duties_map_lookup(s: Seq<(PublicKey, u64, EpochDuties)>, key: (Seq<u8>, u64))
    ensures
        duties_map_of(s).contains_key(key) <==> duties_lookup(s, key) is Some,
        duties_lookup(s, key) matches Some(v) ==> duties_map_of(s).contains_key(key)
            && duties_map_of(s)[key] == v,
    decreases s.len(),
{
    if s.len() > 0 {
        lemma_duties_map_lookup(s.drop_last(), key);
    }
}

impl EpochDutiesMap {
    /// The current cache contents.
    pub closed spec fn view(&self) -> Map<(Seq<u8>, u64), EpochDuties> {
        duties_map_of(self.entries@)
    }

    pub fn new() -> (r: Self)
        ensures
            r.view() == Map::<(Seq<u8>, u64), EpochDuties>::empty(),
    {
        let r = EpochDutiesMap { entries: Vec::new() };
        proof {
            assert(r.entries@ =~= Seq::<(PublicKey, u64, EpochDuties)>::empty());
        }
        r
    }

    /// The cached duties for a validator and epoch, if any.
    pub fn get(&self, pubkey: &PublicKey, epoch: u64) -> (r: Option<EpochDuties>)
        ensures
            r matches Some(d) ==> self.view().contains_key((pubkey@, epoch)) && self.view()[(
                pubkey@,
                epoch,
            )] == d,
            r is None ==> !self.view().contains_key((pubkey@, epoch)),
    {
        let n = self.entries.len();
        let mut i: usize = n;
        proof {
            assert(self.entries@.subrange(0, n as int) =~= self.entries@);
        }
        while i > 0
            invariant
                i <= n,
                n == self.entries@.len(),
                duties_lookup(self.entries@, (pubkey@, epoch)) == duties_lookup(
                    self.entries@.subrange(0, i as int),
                    (pubkey@, epoch),
                ),
            decreases i,
        {
            i = i - 1;
            let hit = {
                let e = &self.entries[i];
                e.1 == epoch && bytes_eq(&e.0.as_bytes(), &pubkey.as_bytes())
            };
            proof {
                assert(self.entries@.subrange(0, i + 1).last() == self.entries@[i as int]);
                assert(self.entries@.subrange(0, i + 1).drop_last() =~= self.entries@.subrange(
                    0,
                    i as int,
                ));
            }
            if hit {
                let d = self.entries[i].2;
                proof {
                    lemma_duties_map_lookup(self.entries@, (pubkey@, epoch));
                }
                return Some(d);
            }
        }
        proof {
            assert(self.entries@.subrange(0, 0) =~= Seq::<(PublicKey, u64, EpochDuties)>::empty());
            lemma_duties_map_lookup(self.entries@, (pubkey@, epoch));
        }
        None
    }

    /// Stores duties for a validator and epoch, superseding any cached value.
    pub fn insert(&mut self, pubkey: &PublicKey, epoch: u64, duties: EpochDuties)
        ensures
            final(self).view() == old(self).view().insert((pubkey@, epoch), duties),
    {
        let ghost pre = self.entries@;
        self.entries.push((pubkey.clone(), epoch, duties));
        proof {
            assert(self.entries@.drop_last() =~= pre);
        }
    }
}

/// Applies a series of (key, duties) updates to a duty map, in order.
pub open spec fn apply_updates(
    m: Map<(Seq<u8>, u64), EpochDuties>,
    us: Seq<((Seq<u8>, u64), EpochDuties)>,
) -> Map<(Seq<u8>, u64), EpochDuties>
    decreases us.len(),
{
    if us.len() == 0 {
        m
    } else {
        apply_updates(m, us.drop_last()).insert(us.last().0, us.last().1)
    }
}

/// The latest update a series carries for `key`, if any.
pub open spec fn latest_update(
    us: Seq<((Seq<u8>, u64), EpochDuties)>,
    key: (Seq<u8>, u64),
) -> Option<EpochDuties>
    decreases us.len(),
{
    if us.len() == 0 {
        None
    } else if us.last().0 == key {
        Some(us.last().1)
    } else {
        latest_update(us.drop_last(), key)
    }
}

/// Duty monotonicity: under any series of stores, the duty-map state for a
/// fixed (public key, epoch) is always the latest value stored for it — it
/// never reverts to a superseded value, and keys never stored keep their
/// original entry.
pub proof fn lemma_duties_monotonic(
    m: Map<(Seq<u8>, u64), EpochDuties>,
    us: Seq<((Seq<u8>, u64), EpochDuties)>,
    key: (Seq<u8>, u64),
)
    ensures
        latest_update(us, key) matches Some(d) ==> apply_updates(m, us).contains_key(key)
            && apply_updates(m, us)[key] == d,
        latest_update(us, key) is None ==> (apply_updates(m, us).contains_key(key)
            <==> m.contains_key(key)) && (m.contains_key(key) ==> apply_updates(m, us)[key]
            == m[key]),
    decreases us.len(),
{
    if us.len() > 0 {
        lemma_duties_monotonic(m, us.drop_last(), key);
    }
}

/// The duties manager: decides, from one observed slot and one endpoint
/// answer, how the cache changes and what the poll outcome is. Reading the
/// clock and calling the endpoint belong to the caller; this is the decision
/// logic alone.
#[derive(Debug, PartialEq, Eq)]
pub struct DutiesManager {
    pub duties_map: EpochDutiesMap,
    pub pubkey: PublicKey,
    pub epoch_length: u64,
}

impl DutiesManager {
    /// Folds one observation into the cache.
    ///
    /// `slot` is what the slot clock reported; `shuffling` is what the beacon
    /// endpoint answered for the derived epoch (`None` meaning the validator
    /// or epoch is unknown to it). New or changed duties are stored — the
    /// cache then holds exactly the endpoint's latest answer; everything
    /// else leaves the cache untouched.
    pub fn poll(&mut self, slot: Option<u64>, shuffling: Option<EpochDuties>) -> (r: Result<
        PollOutcome,
        Error,
    >)
        ensures
            (r is Err <==> slot is None || old(self).epoch_length == 0),
            r matches Err(e) ==> e == (if slot is None {
                Error::SlotUnknowable
            } else {
                Error::EpochLengthIsZero
            }) && *final(self) == *old(self),
            final(self).pubkey == old(self).pubkey,
            final(self).epoch_length == old(self).epoch_length,
            r matches Ok(outcome) ==> {
                let epoch = slot->Some_0 / old(self).epoch_length;
                let key = (old(self).pubkey@, epoch);
                match shuffling {
                    None => outcome == PollOutcome::UnknownValidatorOrEpoch
                        && final(self).duties_map.view() == old(self).duties_map.view(),
                    Some(duties) => {
                        &&& final(self).duties_map.view() == old(self).duties_map.view().insert(
                            key,
                            duties,
                        )
                        &&& outcome == (if old(self).duties_map.view().contains_key(key) {
                            if old(self).duties_map.view()[key] == duties {
                                PollOutcome::NoChange
                            } else {
                                PollOutcome::DutiesChanged
                            }
                        } else {
                            PollOutcome::NewDuties
                        })
                    },
                }
            },
    {
        let slot_value = match slot {
            Some(s) => s,
            None => {
                return Err(Error::SlotUnknowable);
            },
        };
        if self.epoch_length == 0 {
            return Err(Error::EpochLengthIsZero);
        }
        let epoch = slot_value / self.epoch_length;

        if let Some(duties) = shuffling {
            let pubkey = self.pubkey.clone();
            let result = if let Some(known_duties) = self.duties_map.get(&pubkey, epoch) {
                if known_duties == duties {
                    Ok(PollOutcome::NoChange)
                } else {
                    Ok(PollOutcome::DutiesChanged)
                }
            } else {
                Ok(PollOutcome::NewDuties)
            };
            self.duties_map.insert(&pubkey, epoch, duties);
            result
        } else {
            Ok(PollOutcome::UnknownValidatorOrEpoch)
        }
    }
}

/// How a duty reader answers a duty query.
#[derive(Debug, PartialEq, Eq, Structural, Clone, Copy)]
pub enum DutiesReaderError {
    UnknownEpoch,
    EpochLengthIsZero,
}

/// A source of per-epoch attestation duties for one validator.
pub trait DutiesReader {
    /// The known duty entries: epoch to (attestation slot, shard).
    spec fn duty_epochs(&self) -> Map<u64, (u64, u64)>;

    /// The epoch length duty queries divide by.
    spec fn spec_slots_per_epoch(&self) -> u64;

    /// The validator index, if known.
    spec fn spec_validator_index(&self) -> Option<u64>;

    /// The shard to attest to at `slot`: the entry of the slot's epoch, if
    /// it names exactly this slot.
    fn attestation_shard(&self, slot: u64) -> (r: Result<Option<u64>, DutiesReaderError>)
        ensures
            r == (if self.spec_slots_per_epoch() == 0 {
                Err::<Option<u64>, DutiesReaderError>(DutiesReaderError::EpochLengthIsZero)
            } else {
                let epoch = slot / self.spec_slots_per_epoch();
                if self.duty_epochs().contains_key(epoch) {
                    if self.duty_epochs()[epoch].0 == slot {
                        Ok::<Option<u64>, DutiesReaderError>(Some(self.duty_epochs()[epoch].1))
                    } else {
                        Ok::<Option<u64>, DutiesReaderError>(None)
                    }
                } else {
                    Err::<Option<u64>, DutiesReaderError>(DutiesReaderError::UnknownEpoch)
                }
            }),
    ;

    fn validator_index(&self) -> (r: Option<u64>)
        ensures
            r == self.spec_validator_index(),
    ;
}

/// A duty reader backed by a plain per-epoch map.
pub struct EpochMap {
    slots_per_epoch: u64,
    validator_index: Option<u64>,
    map: HashMap<u64, (u64, u64)>,
}

impl EpochMap {
    pub fn new(slots_per_epoch: u64) -> (r: Self)
        ensures
            r.spec_slots_per_epoch() == slots_per_epoch,
            r.spec_validator_index() is None,
            r.duty_epochs() == Map::<u64, (u64, u64)>::empty(),
    {
        Self { slots_per_epoch, validator_index: None, map: HashMap::new() }
    }

    /// Records the attestation duty of `slot`'s epoch.
    pub fn insert_attestation_shard(&mut self, slot: u64, shard: u64)
        requires
            old(self).spec_slots_per_epoch() >= 1,
        ensures
            final(self).duty_epochs() == old(self).duty_epochs().insert(
                slot / old(self).spec_slots_per_epoch(),
                (slot, shard),
            ),
            final(self).spec_slots_per_epoch() == old(self).spec_slots_per_epoch(),
            final(self).spec_validator_index() == old(self).spec_validator_index(),
    {
        let epoch = slot / self.slots_per_epoch;
        self.map.insert(epoch, (slot, shard));
    }

    pub fn set_validator_index(&mut self, index: Option<u64>)
        ensures
            final(self).spec_validator_index() == index,
            final(self).spec_slots_per_epoch() == old(self).spec_slots_per_epoch(),
            final(self).duty_epochs() == old(self).duty_epochs(),
    {
        self.validator_index = index;
    }
}

impl DutiesReader for EpochMap {
    closed spec fn duty_epochs(&self) -> Map<u64, (u64, u64)> {
        self.map@
    }

    closed spec fn spec_slots_per_epoch(&self) -> u64 {
        self.slots_per_epoch
    }

    closed spec fn spec_validator_index(&self) -> Option<u64> {
        self.validator_index
    }

    fn attestation_shard(&self, slot: u64) -> (r: Result<Option<u64>, DutiesReaderError>) {
        if self.slots_per_epoch == 0 {
            return Err(DutiesReaderError::EpochLengthIsZero);
        }
        let epoch = slot / self.slots_per_epoch;
        match self.map.get(&epoch) {
            Some((attest_slot, attest_shard)) => {
                if *attest_slot == slot {
                    Ok(Some(*attest_shard))
                } else {
                    Ok(None)
                }
            },
            None => Err(DutiesReaderError::UnknownEpoch),
        }
    }

    fn validator_index(&self) -> (r: Option<u64>) {
        self.validator_index
    }
}

} // verus!
