//! The configuration record of a chain test manifest: how many deposits the
//! chain starts with, how many slots to run, and the scripted events.
//! Parsing a manifest file into this record belongs to the caller.

use crate::deposit::Deposit;
use crate::types::Keypair;
use vstd::prelude::*;

verus! {

/// A scripted deposit: the slot it lands in, the deposit, and its keypair.
pub type DepositTuple = (u64, Deposit, Keypair);

/// A scripted proposer slashing: (slot, validator index).
pub type ProposerSlashingTuple = (u64, u64);

/// A scripted attester slashing: (slot, validator indices).
pub type AttesterSlashingTuple = (u64, Vec<u64>);

/// The chain-start shape and scripted events of one test manifest.
#[derive(Debug)]
pub struct Config {
    pub deposits_for_chain_start: usize,
    pub epoch_length: Option<u64>,
    pub num_slots: u64,
    pub skip_slots: Option<Vec<u64>>,
    pub deposits: Option<Vec<DepositTuple>>,
    pub proposer_slashings: Option<Vec<ProposerSlashingTuple>>,
    pub attester_slashings: Option<Vec<AttesterSlashingTuple>>,
}

impl Config {
    /// A manifest with the mandatory fields and no scripted events.
    pub fn new(deposits_for_chain_start: usize, num_slots: u64) -> (r: Self)
        ensures
            r.deposits_for_chain_start == deposits_for_chain_start,
            r.num_slots == num_slots,
            r.epoch_length is None,
            r.skip_slots is None,
            r.deposits is None,
            r.proposer_slashings is None,
            r.attester_slashings is None,
    {
        Config {
            deposits_for_chain_start,
            epoch_length: None,
            num_slots,
            skip_slots: None,
            deposits: None,
            proposer_slashings: None,
            attester_slashings: None,
        }
    }
}

} // verus!
