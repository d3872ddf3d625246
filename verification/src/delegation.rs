//! Committee assignment: partitions the active validators of a dynasty into
//! per-slot, per-shard committees for one cycle.

use crate::config::ChainSpec;
use crate::shuffle::{shuffle, RAND_MAX};
use crate::types::clone_copy_vec;
use crate::validator::ValidatorRecord;
use vstd::arithmetic::div_mod::{
    lemma_div_is_ordered, lemma_div_multiples_vanish, lemma_div_pos_is_pos,
};
use vstd::arithmetic::mul::{lemma_mul_inequality, lemma_mul_is_commutative, lemma_mul_nonnegative};
use vstd::prelude::*;

verus! {

pub type DelegatedSlot = Vec<ShardAndCommittee>;

pub type DelegatedCycle = Vec<DelegatedSlot>;

/// One committee and the shard it crosslinks.
#[derive(Debug, PartialEq, Eq)]
pub struct ShardAndCommittee {
    pub shard_id: u16,
    pub committee: Vec<usize>,
}

impl Clone for ShardAndCommittee {
    fn clone(&self) -> (r: Self)
        ensures
            r.shard_id == self.shard_id,
            r.committee@ == self.committee@,
    {
        Self { shard_id: self.shard_id, committee: clone_copy_vec(&self.committee) }
    }
}

#[derive(Debug, PartialEq, Eq)]
pub enum TransitionError {
    InvalidInput(String),
}

/// The indices of the validators active at `dynasty`, in registry order.
pub open spec fn active_indices(vs: Seq<ValidatorRecord>, dynasty: u64) -> Seq<usize>
    decreases vs.len(),
{
    if vs.len() == 0 {
        Seq::<usize>::empty()
    } else {
        active_indices(vs.drop_last(), dynasty) + (if vs.last().is_active_at(dynasty) {
            seq![(vs.len() - 1) as usize]
        } else {
            Seq::<usize>::empty()
        })
    }
}

/// The active index list is no longer than the registry, strictly ascending,
/// and refers into the registry.
pub proof fn lemma_active_indices_bounds(vs: Seq<ValidatorRecord>, dynasty: u64)
    requires
        vs.len() <= usize::MAX,
    ensures
        active_indices(vs, dynasty).len() <= vs.len(),
        forall|k: int|
            0 <= k < active_indices(vs, dynasty).len() ==> #[trigger] active_indices(vs, dynasty)[k]
                < vs.len(),
        forall|k1: int, k2: int|
            0 <= k1 < k2 < active_indices(vs, dynasty).len() ==> active_indices(vs, dynasty)[k1]
                < active_indices(vs, dynasty)[k2],
    decreases vs.len(),
{
    if vs.len() > 0 {
        lemma_active_indices_bounds(vs.drop_last(), dynasty);
        let a = active_indices(vs, dynasty);
        let b = active_indices(vs.drop_last(), dynasty);
        assert forall|k1: int, k2: int| 0 <= k1 < k2 < a.len() implies a[k1] < a[k2] by {
            if k2 < b.len() {
                assert(a[k1] == b[k1] && a[k2] == b[k2]);
            } else {
                if !vs.last().is_active_at(dynasty) {
                    assert(a == b + Seq::<usize>::empty());
                    assert(a.len() == b.len());
                }
                assert(a[k2] == (vs.len() - 1) as usize);
                assert(a[k1] == b[k1]);
                assert(b[k1] < vs.drop_last().len());
            }
        }
    }
}

/// Produces the indices of the validators whose dynasty range covers the
/// supplied `dynasty`, preserving registry order.
pub fn active_validator_indicies(dynasty: &u64, validators: &Vec<ValidatorRecord>) -> (r: Vec<
    usize,
>)
    ensures
        r@ == active_indices(validators@, *dynasty),
{
    let n = validators.len();
    let mut r: Vec<usize> = Vec::new();
    let mut i: usize = 0;
    proof {
        assert(validators@.subrange(0, 0) =~= Seq::<ValidatorRecord>::empty());
        assert(r@ =~= active_indices(validators@.subrange(0, 0), *dynasty));
    }
    while i < n
        invariant
            i <= n,
            n == validators@.len(),
            r@ == active_indices(validators@.subrange(0, i as int), *dynasty),
        decreases n - i,
    {
        proof {
            assert(validators@.subrange(0, i + 1).drop_last() =~= validators@.subrange(
                0,
                i as int,
            ));
            assert(validators@.subrange(0, i + 1).last() == validators@[i as int]);
        }
        if validators[i].is_active(*dynasty) {
            r.push(i);
            proof {
                assert(r@ =~= active_indices(validators@.subrange(0, i as int), *dynasty) + seq![
                    i,
                ]);
            }
        }
        i = i + 1;
    }
    proof {
        assert(validators@.subrange(0, n as int) =~= validators@);
    }
    r
}

/// The lower chunk boundary of the `i`-th of `n` near-equal chunks of a list
/// of `len` items. Chunk `i` spans `chunk_lo(len, n, i) .. chunk_lo(len, n, i + 1)`.
pub open spec fn chunk_lo(len: int, n: int, i: int) -> int {
    len * i / n
}

/// Chunk boundaries are ordered and stay within the list.
pub proof fn lemma_chunk_bounds(len: int, n: int, i: int)
    requires
        0 <= len,
        1 <= n,
        0 <= i < n,
    ensures
        0 <= chunk_lo(len, n, i),
        chunk_lo(len, n, i) <= chunk_lo(len, n, i + 1),
        chunk_lo(len, n, i + 1) <= len,
{
    lemma_mul_nonnegative(len, i);
    lemma_div_pos_is_pos(len * i, n);
    lemma_mul_is_commutative(len, i);
    lemma_mul_is_commutative(len, i + 1);
    lemma_mul_inequality(i, i + 1, len);
    lemma_div_is_ordered(len * i, len * (i + 1), n);
    lemma_mul_inequality(i + 1, n, len);
    lemma_mul_is_commutative(len, n);
    lemma_div_is_ordered(len * (i + 1), len * n, n);
    lemma_div_multiples_vanish(len, n);
}

/// Committee `j` of slot `i`: the honey-badger subrange of committees within
/// the slot's honey-badger subrange of the list.
pub open spec fn committee_span(list: Seq<usize>, cl: int, cps: int, i: int, j: int) -> Seq<
    usize,
> {
    let lo = chunk_lo(list.len() as int, cl, i);
    let hi = chunk_lo(list.len() as int, cl, i + 1);
    let slot_seq = list.subrange(lo, hi);
    slot_seq.subrange(chunk_lo(hi - lo, cps, j), chunk_lo(hi - lo, cps, j + 1))
}

/// Splits a list into `n` chunks: the `i`-th spans
/// `⌊len·i/n⌋ .. ⌊len·(i+1)/n⌋`. Always defined for `n > 0`.
pub fn honey_badger_split<T: Copy>(list: &Vec<T>, n: usize) -> (r: Vec<Vec<T>>)
    requires
        1 <= n,
        list@.len() * n <= 0xFFFF_FFFF_FFFF_FFFF,
    ensures
        r@.len() == n,
        forall|i: int|
            0 <= i < n ==> #[trigger] r@[i]@ == list@.subrange(
                chunk_lo(list@.len() as int, n as int, i),
                chunk_lo(list@.len() as int, n as int, i + 1),
            ),
{
    let list_length = list.len();
    let mut split_list: Vec<Vec<T>> = Vec::new();
    let mut i: usize = 0;
    while i < n
        invariant
            i <= n,
            1 <= n,
            list_length == list@.len(),
            list@.len() * n <= 0xFFFF_FFFF_FFFF_FFFF,
            split_list@.len() == i,
            forall|q: int|
                0 <= q < i ==> #[trigger] split_list@[q]@ == list@.subrange(
                    chunk_lo(list@.len() as int, n as int, q),
                    chunk_lo(list@.len() as int, n as int, q + 1),
                ),
        decreases n - i,
    {
        proof {
            lemma_chunk_bounds(list_length as int, n as int, i as int);
            lemma_mul_inequality(i as int, n as int, list_length as int);
            lemma_mul_is_commutative(list_length as int, i as int);
            lemma_mul_inequality(i + 1, n as int, list_length as int);
            lemma_mul_is_commutative(list_length as int, i + 1);
            lemma_mul_is_commutative(list_length as int, n as int);
        }
        let lo = ((list_length as u64) * (i as u64) / (n as u64)) as usize;
        let hi = ((list_length as u64) * ((i as u64) + 1) / (n as u64)) as usize;
        let mut partition: Vec<T> = Vec::new();
        let mut k: usize = lo;
        while k < hi
            invariant
                lo <= k <= hi,
                hi <= list@.len(),
                partition@ == list@.subrange(lo as int, k as int),
            decreases hi - k,
        {
            partition.push(list[k]);
            proof {
                assert(partition@ =~= list@.subrange(lo as int, k + 1));
            }
            k = k + 1;
        }
        proof {
            assert(partition@ =~= list@.subrange(lo as int, hi as int));
        }
        split_list.push(partition);
        i = i + 1;
    }
    split_list
}

/// Whether the active set is large enough for one committee per slot of the
/// minimum size.
pub open spec fn spec_is_dense(vc: int, cl: int, mcs: int) -> bool {
    vc >= cl * mcs
}

/// How many committees each slot holds.
pub open spec fn spec_committees_per_slot(vc: int, cl: int, mcs: int, sc: int) -> int {
    if spec_is_dense(vc, cl, mcs) {
        let a = vc / cl / (mcs * 2) + 1;
        let b = sc / cl;
        if a <= b {
            a
        } else {
            b
        }
    } else {
        1
    }
}

/// The doubling search for the sparse slots-per-committee value.
pub open spec fn spec_spc_rec(vc: int, cl: int, mcs: int, cur: int) -> int
    decreases 2 * cl - cur,
    when 1 <= cur <= 2 * cl
{
    if vc * cur >= cl * mcs || cur >= cl {
        cur
    } else {
        spec_spc_rec(vc, cl, mcs, 2 * cur)
    }
}

/// Over how many slots one committee is reused: 1 in the dense case, else
/// the smallest power of two making the committees reach the minimum size,
/// capped at the cycle length.
pub open spec fn spec_slots_per_committee(vc: int, cl: int, mcs: int) -> int {
    if spec_is_dense(vc, cl, mcs) {
        1
    } else {
        spec_spc_rec(vc, cl, mcs, 1)
    }
}

pub proof fn lemma_spc_rec_bounds(vc: int, cl: int, mcs: int, cur: int)
    requires
        1 <= cl,
        1 <= cur <= 2 * cl,
    ensures
        cur <= spec_spc_rec(vc, cl, mcs, cur) <= 2 * cl,
    decreases 2 * cl - cur,
{
    if !(vc * cur >= cl * mcs || cur >= cl) {
        lemma_spc_rec_bounds(vc, cl, mcs, 2 * cur);
    }
}

/// The committees-per-slot count never exceeds `⌊shard_count / cycle_length⌋`,
/// whenever that quotient is at least one (it is zero only on inputs where
/// the sparse shape spreads one committee over several slots).
pub proof fn lemma_committees_per_slot_bound(vc: int, cl: int, mcs: int, sc: int)
    requires
        1 <= cl,
        1 <= sc / cl,
    ensures
        spec_committees_per_slot(vc, cl, mcs, sc) <= sc / cl,
{
}

/// Whenever delegation is accepted, every slot holds at least one committee.
pub proof fn lemma_committees_per_slot_pos(vc: int, cl: int, mcs: int, sc: int)
    requires
        1 <= cl,
        1 <= mcs,
        0 <= vc,
        0 <= sc,
        !(spec_is_dense(vc, cl, mcs) && sc / cl == 0),
    ensures
        spec_committees_per_slot(vc, cl, mcs, sc) >= 1,
{
    if spec_is_dense(vc, cl, mcs) {
        lemma_div_pos_is_pos(vc, cl);
        lemma_div_pos_is_pos(vc / cl, mcs * 2);
        lemma_div_pos_is_pos(sc, cl);
    }
}

/// Shard round-robin: in the dense shape a committee occupies one slot, and
/// the shard id of committee `j` of slot `i` is the `(i·cps + j)`-th shard
/// after `crosslinking_shard_start`, modulo the shard count — shard ids step
/// by one as `(slot, committee)` advances in flattened order.
pub proof fn lemma_shard_round_robin(vc: int, cl: int, mcs: int, sc: int, start: int, i: int, j: int)
    requires
        spec_is_dense(vc, cl, mcs),
        0 <= i,
        0 <= j,
    ensures
        ({
            let cps = spec_committees_per_slot(vc, cl, mcs, sc);
            let spc = spec_slots_per_committee(vc, cl, mcs);
            (start + (i * cps) / spc + j) % sc == (start + (i * cps + j)) % sc
        }),
{
    let cps = spec_committees_per_slot(vc, cl, mcs, sc);
    assert((i * cps) / 1 == i * cps) by (nonlinear_arith);
}

/// Concatenation of the committees of one slot, in committee order.
pub open spec fn slot_concat(slot: Seq<ShardAndCommittee>) -> Seq<usize>
    decreases slot.len(),
{
    if slot.len() == 0 {
        Seq::<usize>::empty()
    } else {
        slot_concat(slot.drop_last()) + slot.last().committee@
    }
}

/// Concatenation of all committees of a cycle, in (slot, committee) order.
pub open spec fn cycle_concat(cycle: Seq<DelegatedSlot>) -> Seq<usize>
    decreases cycle.len(),
{
    if cycle.len() == 0 {
        Seq::<usize>::empty()
    } else {
        cycle_concat(cycle.drop_last()) + slot_concat(cycle.last()@)
    }
}

/// Delegates the given validator indices into committees for one cycle.
///
/// The concatenation of all committees, read in (slot, committee) order, is
/// exactly the input index list; shard ids advance round-robin from
/// `crosslinking_shard_start`, modulo the shard count.
pub fn generate_cycle(
    validator_indices: &Vec<usize>,
    shard_indices: &Vec<usize>,
    crosslinking_shard_start: &usize,
    cycle_length: &usize,
    min_committee_size: &usize,
) -> (r: Result<DelegatedCycle, TransitionError>)
    requires
        1 <= *cycle_length <= 0xFFFF,
        1 <= *min_committee_size <= 0xFFFF_FFFF,
        shard_indices@.len() <= 0x1_0000,
        *crosslinking_shard_start <= 0xFFFF,
        validator_indices@.len() <= 0xFFFF_FFFF,
    ensures
        ({
            let vc = validator_indices@.len() as int;
            let sc = shard_indices@.len() as int;
            let cl = *cycle_length as int;
            let mcs = *min_committee_size as int;
            let start = *crosslinking_shard_start as int;
            let cps = spec_committees_per_slot(vc, cl, mcs, sc);
            let spc = spec_slots_per_committee(vc, cl, mcs);
            &&& (r is Err <==> sc == 0 || (spec_is_dense(vc, cl, mcs) && sc / cl == 0))
            &&& (r matches Ok(cycle) ==> {
                &&& cycle@.len() == cl
                &&& forall|i: int| #![auto] 0 <= i < cl ==> cycle@[i]@.len() == cps
                &&& forall|i: int, j: int|
                    #![auto]
                    0 <= i < cl && 0 <= j < cps ==> cycle@[i]@[j].shard_id == ((start + (i * cps)
                        / spc + j) % sc) as u16
                &&& forall|i: int, j: int|
                    #![auto]
                    0 <= i < cl && 0 <= j < cps ==> cycle@[i]@[j].committee@ == committee_span(
                        validator_indices@,
                        cl,
                        cps,
                        i,
                        j,
                    )
                &&& cycle_concat(cycle@) == validator_indices@
            })
        }),
{
    let validator_count = validator_indices.len();
    let shard_count = shard_indices.len();
    let cl = *cycle_length;
    let mcs = *min_committee_size;
    let start = *crosslinking_shard_start;

    proof {
        vstd::arithmetic::mul::lemma_mul_upper_bound(cl as int, 0xFFFF, mcs as int, 0xFFFF_FFFF);
    }
    let dense = (validator_count as u64) >= (cl as u64) * (mcs as u64);
    if shard_count == 0 || (dense && shard_count / cl == 0) {
        return Err(
            TransitionError::InvalidInput(
                "Number of shards needs to be greater than cycle length".to_string(),
            ),
        );
    }

    let committees_per_slot: usize;
    let slots_per_committee: usize;
    if dense {
        let a = (validator_count as u64) / (cl as u64) / ((mcs as u64) * 2) + 1;
        let b = (shard_count as u64) / (cl as u64);
        committees_per_slot = (if a <= b {
            a
        } else {
            b
        }) as usize;
        slots_per_committee = 1;
    } else {
        committees_per_slot = 1;
        let mut spc: u64 = 1;
        proof {
            assert((validator_count as int) * 1 == validator_count as int) by (nonlinear_arith);
        }
        while ((validator_count as u64) * spc < (cl as u64) * (mcs as u64)) && (spc < (cl as u64))
            invariant
                1 <= spc <= 2 * (cl as u64),
                cl >= 1,
                validator_count <= 0xFFFF_FFFF,
                cl <= 0xFFFF,
                mcs <= 0xFFFF_FFFF,
                (cl as int) * (mcs as int) <= 0xFFFF * 0xFFFF_FFFF,
                (validator_count as int) * (spc as int) <= 0xFFFF_FFFF * 0x3FFFC,
                spec_spc_rec(
                    validator_count as int,
                    cl as int,
                    mcs as int,
                    1,
                ) == spec_spc_rec(validator_count as int, cl as int, mcs as int, spc as int),
            decreases 2 * (cl as u64) - spc,
        {
            spc = spc * 2;
            proof {
                vstd::arithmetic::mul::lemma_mul_upper_bound(
                    validator_count as int,
                    0xFFFF_FFFF,
                    spc as int,
                    0x3FFFC,
                );
            }
        }
        slots_per_committee = spc as usize;
    }
    let ghost vc_g = validator_indices@.len() as int;
    let ghost cl_g = cl as int;
    let ghost mcs_g = mcs as int;
    let ghost sc_g = shard_indices@.len() as int;
    let ghost cps_g = spec_committees_per_slot(vc_g, cl_g, mcs_g, sc_g);
    let ghost spc_g = spec_slots_per_committee(vc_g, cl_g, mcs_g);
    proof {
        assert(committees_per_slot as int == cps_g);
        assert(slots_per_committee as int == spc_g);
        if spec_is_dense(vc_g, cl_g, mcs_g) {
            lemma_committees_per_slot_bound(vc_g, cl_g, mcs_g, sc_g);
        } else {
            lemma_spc_rec_bounds(vc_g, cl_g, mcs_g, 1);
        }
        lemma_mul_inequality(vc_g, 0xFFFF_FFFF, cl_g);
        lemma_mul_is_commutative(vc_g, cl_g);
    }
    let cps = committees_per_slot;
    let spc = slots_per_committee;

    let slots = honey_badger_split(validator_indices, cl);
    let mut cycle: DelegatedCycle = Vec::new();
    let mut i: usize = 0;
    proof {
        assert(cycle_concat(cycle@) =~= Seq::<usize>::empty());
        assert(validator_indices@.subrange(0, chunk_lo(vc_g, cl_g, 0)) =~= Seq::<usize>::empty())
            by {
            lemma_mul_is_commutative(vc_g, 0);
        }
    }
    while i < cl
        invariant
            i <= cl,
            1 <= cl <= 0xFFFF,
            1 <= cps <= 0x1_0000,
            1 <= spc,
            1 <= shard_count == sc_g <= 0x1_0000,
            start <= 0xFFFF,
            vc_g == validator_indices@.len() <= 0xFFFF_FFFF,
            cl_g == cl as int,
            cps as int == cps_g,
            spc as int == spc_g,
            slots@.len() == cl,
            forall|q: int|
                0 <= q < cl ==> #[trigger] slots@[q]@ == validator_indices@.subrange(
                    chunk_lo(vc_g, cl_g, q),
                    chunk_lo(vc_g, cl_g, q + 1),
                ),
            cycle@.len() == i,
            forall|q: int| #![auto] 0 <= q < i ==> cycle@[q]@.len() == cps_g,
            forall|q: int, j: int|
                #![auto]
                0 <= q < i && 0 <= j < cps_g ==> cycle@[q]@[j].shard_id == (((start as int) + (q
                    * cps_g) / spc_g + j) % sc_g) as u16,
            forall|q: int, j: int|
                #![auto]
                0 <= q < i && 0 <= j < cps_g ==> cycle@[q]@[j].committee@ == committee_span(
                    validator_indices@,
                    cl_g,
                    cps_g,
                    q,
                    j,
                ),
            cycle_concat(cycle@) == validator_indices@.subrange(0, chunk_lo(vc_g, cl_g, i as int)),
        decreases cl - i,
    {
        proof {
            lemma_chunk_bounds(vc_g, cl_g, i as int);
        }
        let slot_indices: &Vec<usize> = &slots[i];
        let slot_len = slot_indices.len();
        proof {
            lemma_mul_inequality(slot_len as int, 0xFFFF_FFFF, cps as int);
            lemma_mul_is_commutative(slot_len as int, cps as int);
        }
        let committees = honey_badger_split(slot_indices, cps);
        let mut sacs: DelegatedSlot = Vec::new();
        let mut j: usize = 0;
        proof {
            assert(slot_concat(sacs@) =~= Seq::<usize>::empty());
            assert(slot_indices@.subrange(0, chunk_lo(slot_len as int, cps as int, 0)) =~= Seq::<
                usize,
            >::empty()) by {
                lemma_mul_is_commutative(slot_len as int, 0);
            }
        }
        while j < cps
            invariant
                j <= cps,
                1 <= cps <= 0x1_0000,
                1 <= spc,
                1 <= shard_count == sc_g <= 0x1_0000,
                start <= 0xFFFF,
                i < cl,
                cl <= 0xFFFF,
                cps as int == cps_g,
                spc as int == spc_g,
                slot_len == slot_indices@.len(),
                committees@.len() == cps,
                forall|q: int|
                    0 <= q < cps ==> #[trigger] committees@[q]@ == slot_indices@.subrange(
                        chunk_lo(slot_len as int, cps as int, q),
                        chunk_lo(slot_len as int, cps as int, q + 1),
                    ),
                sacs@.len() == j,
                vc_g == validator_indices@.len(),
                cl_g == cl as int,
                slot_indices@ == validator_indices@.subrange(
                    chunk_lo(vc_g, cl_g, i as int),
                    chunk_lo(vc_g, cl_g, i + 1),
                ),
                forall|q: int|
                    #![auto]
                    0 <= q < j ==> sacs@[q].shard_id == (((start as int) + ((i as int) * cps_g)
                        / spc_g + q) % sc_g) as u16,
                forall|q: int|
                    #![auto]
                    0 <= q < j ==> sacs@[q].committee@ == committee_span(
                        validator_indices@,
                        cl_g,
                        cps_g,
                        i as int,
                        q,
                    ),
                slot_concat(sacs@) == slot_indices@.subrange(
                    0,
                    chunk_lo(slot_len as int, cps as int, j as int),
                ),
            decreases cps - j,
        {
            proof {
                lemma_chunk_bounds(slot_len as int, cps as int, j as int);
                lemma_mul_nonnegative(i as int, cps as int);
                lemma_div_pos_is_pos((i as int) * (cps as int), spc as int);
                vstd::arithmetic::mul::lemma_mul_upper_bound(
                    i as int,
                    0xFFFF,
                    cps as int,
                    0x1_0000,
                );
                vstd::arithmetic::div_mod::lemma_div_nonincreasing(
                    (i as int) * (cps as int),
                    spc as int,
                );
            }
            let shard_id_u64 = ((start as u64) + ((i as u64) * (cps as u64)) / (spc as u64) + (
            j as u64)) % (shard_count as u64);
            let committee = clone_copy_vec(&committees[j]);
            let sac = ShardAndCommittee { shard_id: shard_id_u64 as u16, committee };
            let ghost pre_sacs = sacs@;
            sacs.push(sac);
            proof {
                assert(sacs@.drop_last() =~= pre_sacs);
                assert(slot_concat(sacs@) == slot_concat(pre_sacs) + committees@[j as int]@);
                assert(slot_concat(sacs@) =~= slot_indices@.subrange(
                    0,
                    chunk_lo(slot_len as int, cps as int, j + 1),
                ));
                assert(sacs@[j as int].committee@ == committee_span(
                    validator_indices@,
                    cl_g,
                    cps_g,
                    i as int,
                    j as int,
                )) by {
                    lemma_chunk_bounds(vc_g, cl_g, i as int);
                    assert(slot_len as int == chunk_lo(vc_g, cl_g, i + 1) - chunk_lo(
                        vc_g,
                        cl_g,
                        i as int,
                    ));
                    assert(sacs@[j as int].committee@ == slot_indices@.subrange(
                        chunk_lo(slot_len as int, cps as int, j as int),
                        chunk_lo(slot_len as int, cps as int, j + 1),
                    ));
                }
            }
            j = j + 1;
        }
        proof {
            lemma_div_multiples_vanish(slot_len as int, cps as int);
            lemma_mul_is_commutative(slot_len as int, cps as int);
            assert(slot_concat(sacs@) =~= slot_indices@);
        }
        let ghost pre_cycle = cycle@;
        cycle.push(sacs);
        proof {
            assert(cycle@.drop_last() =~= pre_cycle);
            assert(cycle_concat(cycle@) == cycle_concat(pre_cycle) + slot_concat(
                cycle@.last()@,
            ));
            assert(cycle_concat(cycle@) =~= validator_indices@.subrange(
                0,
                chunk_lo(vc_g, cl_g, i + 1),
            ));
        }
        i = i + 1;
    }
    proof {
        lemma_div_multiples_vanish(vc_g, cl_g);
        lemma_mul_is_commutative(vc_g, cl_g);
        assert(cycle_concat(cycle@) =~= validator_indices@);
    }
    Ok(cycle)
}

/// Delegates the validators active at `dynasty` into slots for one cycle,
/// from a random seed.
///
/// The concatenation of all committees, read in (slot, committee) order, is
/// exactly the seeded shuffle of the active validator index list — so the
/// committees hold, between them, exactly the active validators, each once.
pub fn delegate_validators(
    seed: &Vec<u8>,
    validators: &Vec<ValidatorRecord>,
    dynasty: &u64,
    crosslinking_shard_start: &u16,
    config: &ChainSpec,
) -> (r: Result<DelegatedCycle, TransitionError>)
    requires
        config.wf(),
        validators@.len() <= 0xFFFF_FFFF,
    ensures
        ({
            let active = active_indices(validators@, *dynasty);
            let vc = active.len() as int;
            let sc = config.shard_count as int;
            let cl = config.cycle_length as int;
            let mcs = config.min_committee_size as int;
            let start = *crosslinking_shard_start as int;
            let cps = spec_committees_per_slot(vc, cl, mcs, sc);
            let spc = spec_slots_per_committee(vc, cl, mcs);
            &&& (r is Err <==> active.len() > RAND_MAX || (spec_is_dense(vc, cl, mcs) && sc / cl
                == 0))
            &&& (r matches Ok(cycle) ==> {
                &&& cycle@.len() == cl
                &&& forall|i: int| #![auto] 0 <= i < cl ==> cycle@[i]@.len() == cps
                &&& forall|i: int, j: int|
                    #![auto]
                    0 <= i < cl && 0 <= j < cps ==> cycle@[i]@[j].shard_id == ((start + (i * cps)
                        / spc + j) % sc) as u16
                &&& forall|i: int, j: int|
                    #![auto]
                    0 <= i < cl && 0 <= j < cps ==> cycle@[i]@[j].committee@ == committee_span(
                        crate::shuffle::spec_shuffle(seed@, active),
                        cl,
                        cps,
                        i,
                        j,
                    )
                &&& cycle_concat(cycle@) == crate::shuffle::spec_shuffle(seed@, active)
                &&& cycle_concat(cycle@).to_multiset() == active.to_multiset()
            })
        }),
{
    proof {
        lemma_active_indices_bounds(validators@, *dynasty);
    }
    let validator_indices = active_validator_indicies(dynasty, validators);
    let shuffled_validator_indices = match shuffle(seed, validator_indices) {
        Ok(shuffled) => shuffled,
        _ => {
            return Err(TransitionError::InvalidInput("Shuffle list length exceed.".to_string()));
        },
    };
    let shard_count = config.shard_count;
    let mut shard_indices: Vec<usize> = Vec::new();
    let mut s: usize = 0;
    while s < shard_count as usize
        invariant
            s <= shard_count as usize,
            shard_indices@.len() == s,
        decreases shard_count as usize - s,
    {
        shard_indices.push(s);
        s = s + 1;
    }
    let crosslinking_shard_start_us = *crosslinking_shard_start as usize;
    let cycle_length = config.cycle_length as usize;
    let min_committee_size = config.min_committee_size as usize;
    generate_cycle(
        &shuffled_validator_indices,
        &shard_indices,
        &crosslinking_shard_start_us,
        &cycle_length,
        &min_committee_size,
    )
}

} // verus!
