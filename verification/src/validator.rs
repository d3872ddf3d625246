//! Validator registry records: membership over a half-open dynasty range and
//! a monotone status.

use crate::types::{Hash256, PublicKey};
use vstd::prelude::*;

verus! {

/// Lifecycle status of a validator record.
#[derive(Debug, PartialEq, Eq, Structural, Clone, Copy)]
pub enum ValidatorStatus {
    Pending,
    Active,
    Exited,
    Withdrawn,
    Slashed,
}

/// One entry of the validator registry.
#[derive(Debug, PartialEq, Eq)]
pub struct ValidatorRecord {
    pub pubkey: PublicKey,
    pub withdrawal_credentials: Hash256,
    pub effective_balance: u64,
    pub start_dynasty: u64,
    pub end_dynasty: u64,
    pub status: ValidatorStatus,
}

impl ValidatorRecord {
    /// A validator is active at `dynasty` exactly when
    /// `start_dynasty <= dynasty < end_dynasty`.
    pub open spec fn is_active_at(&self, dynasty: u64) -> bool {
        self.start_dynasty <= dynasty < self.end_dynasty
    }

    /// Whether this record is active at `dynasty`.
    pub fn is_active(&self, dynasty: u64) -> (r: bool)
        ensures
            r == self.is_active_at(dynasty),
    {
        self.start_dynasty <= dynasty && dynasty < self.end_dynasty
    }
}

impl Clone for ValidatorRecord {
    fn clone(&self) -> (r: Self)
        ensures
            r.pubkey@ == self.pubkey@,
            r.withdrawal_credentials@ == self.withdrawal_credentials@,
            r.effective_balance == self.effective_balance,
            r.start_dynasty == self.start_dynasty,
            r.end_dynasty == self.end_dynasty,
            r.status == self.status,
    {
        Self {
            pubkey: self.pubkey.clone(),
            withdrawal_credentials: self.withdrawal_credentials.clone(),
            effective_balance: self.effective_balance,
            start_dynasty: self.start_dynasty,
            end_dynasty: self.end_dynasty,
            status: self.status,
        }
    }
}

} // verus!
