//! Chain configuration: the immutable typed parameter bundle, named presets,
//! and the signing-domain accessor.

use crate::ssz::enc_u32;
use crate::types::Hash256;
use vstd::prelude::*;

verus! {

/// A fork schedule point: validators sign under `previous_version` before
/// `epoch` and under `current_version` from `epoch` on.
#[derive(Debug, PartialEq, Eq, Structural, Clone, Copy)]
pub struct Fork {
    pub previous_version: u32,
    pub current_version: u32,
    pub epoch: u64,
}

/// The fork version in force at `epoch`.
pub open spec fn spec_fork_version_at(fork: Fork, epoch: u64) -> u32 {
    if epoch < fork.epoch {
        fork.previous_version
    } else {
        fork.current_version
    }
}

impl Fork {
    pub fn version_at(&self, epoch: u64) -> (r: u32)
        ensures
            r == spec_fork_version_at(*self, epoch),
    {
        if epoch < self.epoch {
            self.previous_version
        } else {
            self.current_version
        }
    }
}

/// Signing-domain tags: each binds a signature to one purpose.
#[derive(Debug, PartialEq, Eq, Structural, Clone, Copy)]
pub enum Domain {
    BeaconProposer,
    BeaconAttester,
    Randao,
    Deposit,
    VoluntaryExit,
}

/// The typed configuration bundle. Immutable after load.
#[derive(Debug, PartialEq, Eq, Structural, Clone, Copy)]
pub struct ChainSpec {
    pub cycle_length: u64,
    pub shard_count: u16,
    pub min_committee_size: u64,
    pub epoch_length: u64,
    pub slots_per_epoch: u64,
    pub genesis_fork_version: u32,
    pub domain_beacon_proposer: u8,
    pub domain_beacon_attester: u8,
    pub domain_randao: u8,
    pub domain_deposit: u8,
    pub domain_voluntary_exit: u8,
}

/// The 32-byte signing domain: the domain tag byte (padded to four bytes),
/// the fork version in force at `epoch`, and the first 24 bytes of the
/// genesis validators root.
pub open spec fn spec_domain(
    cfg: ChainSpec,
    epoch: u64,
    d: Domain,
    fork: Fork,
    root: Seq<u8>,
) -> Seq<u8> {
    seq![cfg.domain_tag(d), 0u8, 0u8, 0u8] + enc_u32(spec_fork_version_at(fork, epoch))
        + root.subrange(0, 24)
}

impl ChainSpec {
    /// Parameter sanity: every preset satisfies this, and the committee
    /// assigner requires it.
    pub open spec fn wf(&self) -> bool {
        &&& 1 <= self.cycle_length <= 0xFFFF
        &&& 1 <= self.min_committee_size <= 0xFFFF_FFFF
        &&& self.shard_count >= 1
        &&& 1 <= self.epoch_length <= 0xFFFF
        &&& 1 <= self.slots_per_epoch <= 0xFFFF
    }

    /// The tag byte of a signing domain.
    pub open spec fn domain_tag(&self, d: Domain) -> u8 {
        match d {
            Domain::BeaconProposer => self.domain_beacon_proposer,
            Domain::BeaconAttester => self.domain_beacon_attester,
            Domain::Randao => self.domain_randao,
            Domain::Deposit => self.domain_deposit,
            Domain::VoluntaryExit => self.domain_voluntary_exit,
        }
    }

    /// The value of the foundation preset.
    pub open spec fn foundation_spec() -> ChainSpec {
        ChainSpec {
            cycle_length: 64,
            shard_count: 1024,
            min_committee_size: 128,
            epoch_length: 64,
            slots_per_epoch: 64,
            genesis_fork_version: 0,
            domain_beacon_proposer: 0,
            domain_beacon_attester: 1,
            domain_randao: 2,
            domain_deposit: 3,
            domain_voluntary_exit: 4,
        }
    }

    /// The foundation preset: mainnet-scale parameters.
    pub fn foundation() -> (r: Self)
        ensures
            r == Self::foundation_spec(),
            r.wf(),
    {
        ChainSpec {
            cycle_length: 64,
            shard_count: 1024,
            min_committee_size: 128,
            epoch_length: 64,
            slots_per_epoch: 64,
            genesis_fork_version: 0,
            domain_beacon_proposer: 0,
            domain_beacon_attester: 1,
            domain_randao: 2,
            domain_deposit: 3,
            domain_voluntary_exit: 4,
        }
    }

    /// The mainnet preset.
    pub fn mainnet() -> (r: Self)
        ensures
            r == (ChainSpec {
                cycle_length: 64,
                shard_count: 1024,
                min_committee_size: 128,
                epoch_length: 32,
                slots_per_epoch: 32,
                genesis_fork_version: 0,
                domain_beacon_proposer: 0,
                domain_beacon_attester: 1,
                domain_randao: 2,
                domain_deposit: 3,
                domain_voluntary_exit: 4,
            }),
            r.wf(),
    {
        ChainSpec {
            cycle_length: 64,
            shard_count: 1024,
            min_committee_size: 128,
            epoch_length: 32,
            slots_per_epoch: 32,
            genesis_fork_version: 0,
            domain_beacon_proposer: 0,
            domain_beacon_attester: 1,
            domain_randao: 2,
            domain_deposit: 3,
            domain_voluntary_exit: 4,
        }
    }

    /// A small preset for local testing.
    pub fn minimal() -> (r: Self)
        ensures
            r == (ChainSpec {
                cycle_length: 8,
                shard_count: 8,
                min_committee_size: 4,
                epoch_length: 8,
                slots_per_epoch: 8,
                genesis_fork_version: 0,
                domain_beacon_proposer: 0,
                domain_beacon_attester: 1,
                domain_randao: 2,
                domain_deposit: 3,
                domain_voluntary_exit: 4,
            }),
            r.wf(),
    {
        ChainSpec {
            cycle_length: 8,
            shard_count: 8,
            min_committee_size: 4,
            epoch_length: 8,
            slots_per_epoch: 8,
            genesis_fork_version: 0,
            domain_beacon_proposer: 0,
            domain_beacon_attester: 1,
            domain_randao: 2,
            domain_deposit: 3,
            domain_voluntary_exit: 4,
        }
    }

    /// The interoperability preset: minimal sizes, distinct fork version.
    pub fn interop() -> (r: Self)
        ensures
            r == (ChainSpec {
                cycle_length: 8,
                shard_count: 8,
                min_committee_size: 4,
                epoch_length: 8,
                slots_per_epoch: 8,
                genesis_fork_version: 1,
                domain_beacon_proposer: 0,
                domain_beacon_attester: 1,
                domain_randao: 2,
                domain_deposit: 3,
                domain_voluntary_exit: 4,
            }),
            r.wf(),
    {
        ChainSpec {
            cycle_length: 8,
            shard_count: 8,
            min_committee_size: 4,
            epoch_length: 8,
            slots_per_epoch: 8,
            genesis_fork_version: 1,
            domain_beacon_proposer: 0,
            domain_beacon_attester: 1,
            domain_randao: 2,
            domain_deposit: 3,
            domain_voluntary_exit: 4,
        }
    }

    /// Computes the 32-byte signing domain for `epoch` and `domain` under the
    /// given fork and genesis validators root.
    pub fn get_domain(
        &self,
        epoch: u64,
        domain: Domain,
        fork: &Fork,
        genesis_validators_root: &Hash256,
    ) -> (r: Hash256)
        requires
            genesis_validators_root.wf(),
        ensures
            r.wf(),
            r@ == spec_domain(*self, epoch, domain, *fork, genesis_validators_root@),
    {
        let tag = match domain {
            Domain::BeaconProposer => self.domain_beacon_proposer,
            Domain::BeaconAttester => self.domain_beacon_attester,
            Domain::Randao => self.domain_randao,
            Domain::Deposit => self.domain_deposit,
            Domain::VoluntaryExit => self.domain_voluntary_exit,
        };
        let mut out: Vec<u8> = Vec::new();
        out.push(tag);
        out.push(0);
        out.push(0);
        out.push(0);
        let mut version = vstd::bytes::u32_to_le_bytes(fork.version_at(epoch));
        out.append(&mut version);
        let root = genesis_validators_root.to_vec();
        let mut i: usize = 0;
        proof {
            assert(out@ =~= seq![self.domain_tag(domain), 0u8, 0u8, 0u8] + enc_u32(
                spec_fork_version_at(*fork, epoch),
            ) + root@.subrange(0, 0));
        }
        while i < 24
            invariant
                i <= 24,
                root@.len() == 32,
                out@.len() == 8 + i,
                out@ == seq![self.domain_tag(domain), 0u8, 0u8, 0u8] + enc_u32(
                    spec_fork_version_at(*fork, epoch),
                ) + root@.subrange(0, i as int),
            decreases 24 - i,
        {
            out.push(root[i]);
            proof {
                assert(out@ =~= seq![self.domain_tag(domain), 0u8, 0u8, 0u8] + enc_u32(
                    spec_fork_version_at(*fork, epoch),
                ) + root@.subrange(0, i + 1));
            }
            i = i + 1;
        }
        Hash256::from_vec(out)
    }
}

} // verus!
