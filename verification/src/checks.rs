//! The pure decision parts of the network verification checks: the waiting
//! arithmetic and the finalization comparison. Querying nodes and sleeping
//! belong to the caller.

use vstd::prelude::*;

verus! {

/// Whether every node reported exactly the expected finalized epoch.
pub fn all_finalized_at(epochs: &Vec<u64>, epoch: u64) -> (r: bool)
    ensures
        r == (forall|k: int| 0 <= k < epochs@.len() ==> #[trigger] epochs@[k] == epoch),
{
    let n = epochs.len();
    let mut i: usize = 0;
    while i < n
        invariant
            i <= n,
            n == epochs@.len(),
            forall|k: int| 0 <= k < i ==> #[trigger] epochs@[k] == epoch,
        decreases n - i,
    {
        if epochs[i] != epoch {
            return false;
        }
        i = i + 1;
    }
    true
}

/// How long to wait before a check runs: `epochs` epochs of slots, plus half
/// a slot, in milliseconds.
pub fn epoch_delay_millis(slot_duration_millis: u64, epochs: u64, slots_per_epoch: u64) -> (r: u64)
    requires
        1 <= slot_duration_millis,
        slot_duration_millis * (epochs * slots_per_epoch) + slot_duration_millis / 2
            <= u64::MAX,
    ensures
        r == slot_duration_millis * (epochs * slots_per_epoch) + slot_duration_millis / 2,
{
    proof {
        assert(epochs * slots_per_epoch <= slot_duration_millis * (epochs * slots_per_epoch))
            by (nonlinear_arith)
            requires
                1 <= slot_duration_millis,
                0 <= epochs,
                0 <= slots_per_epoch,
        ;
    }
    let slots = epochs * slots_per_epoch;
    slot_duration_millis * slots + slot_duration_millis / 2
}

} // verus!
