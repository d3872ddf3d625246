//! Deterministic permutation of an index list from a seed.
//!
//! A pseudo-random stream is drawn from the seed by repeated hashing, three
//! bytes at a time. For each position, a swap target is drawn from the rest
//! of the list by rejection sampling, and the two entries are swapped. The
//! whole permutation is pinned at the specification level: `shuffle` returns
//! exactly `spec_shuffle(seed, list)`, the seeded swap shuffle over the
//! digest-derived stream.

use crate::hash::{canonical_hash, hash32_of};
use vstd::prelude::*;
use vstd::seq_lib::to_multiset_update;

verus! {

/// Upper bound (exclusive) on the values of the pseudo-random stream, and on
/// the lists the shuffler accepts: three bytes of entropy per draw.
pub const RAND_MAX: u32 = 16_777_216;

/// How many rejected draws one range draw tolerates before it falls back to
/// reduction modulo the range.
pub const MAX_DRAW_RETRIES: usize = 64;

#[derive(Debug, PartialEq, Eq, Structural, Clone, Copy)]
pub enum ShuffleError {
    ListTooLong,
}

/// The stream state: the current digest block and the read position in it.
pub open spec fn spec_rng_init(seed: Seq<u8>) -> (Seq<u8>, int) {
    (hash32_of(seed), 0int)
}

/// One draw of the stream: re-hash the block when fewer than three bytes
/// remain, then read three bytes big-endian.
pub open spec fn spec_rand(state: (Seq<u8>, int)) -> (u32, (Seq<u8>, int)) {
    let s = if state.1 + 3 > 32 {
        (hash32_of(state.0), 0int)
    } else {
        state
    };
    let v = ((s.0[s.1] as u32) << 16u32) | ((s.0[s.1 + 1] as u32) << 8u32) | (s.0[s.1 + 2] as u32);
    (v, (s.0, s.1 + 3))
}

/// The acceptance threshold of rejection sampling for a range of `n`.
pub open spec fn spec_threshold(n: u32) -> int {
    RAND_MAX - (RAND_MAX % n)
}

/// The retry loop of one range draw: draws until a value below the threshold
/// comes, or the retry budget runs out; the final draw is reduced modulo `n`.
pub open spec fn spec_rand_range_loop(
    state: (Seq<u8>, int),
    n: u32,
    x: u32,
    tries: int,
) -> (u32, (Seq<u8>, int))
    decreases MAX_DRAW_RETRIES - tries,
    when 0 <= tries <= MAX_DRAW_RETRIES
{
    if x < spec_threshold(n) || tries >= MAX_DRAW_RETRIES {
        (x % n, state)
    } else {
        let next = spec_rand(state);
        spec_rand_range_loop(next.1, n, next.0, tries + 1)
    }
}

/// One range draw: a first draw, then the retry loop.
pub open spec fn spec_rand_range(state: (Seq<u8>, int), n: u32) -> (u32, (Seq<u8>, int)) {
    let first = spec_rand(state);
    spec_rand_range_loop(first.1, n, first.0, 0)
}

/// The seeded swap shuffle from position `i` on: draw a swap target from
/// `[i, len)`, swap, move on.
pub open spec fn spec_shuffle_from(state: (Seq<u8>, int), l: Seq<usize>, i: int) -> Seq<usize>
    decreases l.len() - i,
    when 0 <= i
{
    if i + 1 >= l.len() {
        l
    } else {
        let draw = spec_rand_range(state, (l.len() - i) as u32);
        let j = i + draw.0;
        let swapped = if j < l.len() {
            l.update(i, l[j]).update(j, l[i])
        } else {
            l
        };
        spec_shuffle_from(draw.1, swapped, i + 1)
    }
}

/// The seeded shuffle of a whole list.
pub open spec fn spec_shuffle(seed: Seq<u8>, l: Seq<usize>) -> Seq<usize> {
    spec_shuffle_from(spec_rng_init(seed), l, 0)
}

/// The seed-derived pseudo-random stream.
pub struct ShuffleRng {
    seed: Vec<u8>,
    idx: usize,
}

impl ShuffleRng {
    pub closed spec fn wf(&self) -> bool {
        self.seed@.len() == 32 && self.idx <= 32
    }

    /// The stream state this generator holds.
    pub closed spec fn model(&self) -> (Seq<u8>, int) {
        (self.seed@, self.idx as int)
    }

    pub fn new(initial_seed: &Vec<u8>) -> (r: Self)
        ensures
            r.wf(),
            r.model() == spec_rng_init(initial_seed@),
    {
        Self { seed: canonical_hash(initial_seed), idx: 0 }
    }

    fn rehash_seed(&mut self)
        requires
            old(self).wf(),
        ensures
            final(self).wf(),
            final(self).model() == (hash32_of(old(self).model().0), 0int),
    {
        self.seed = canonical_hash(&self.seed);
        self.idx = 0;
    }

    /// The next three bytes of the stream, big-endian.
    fn rand(&mut self) -> (r: u32)
        requires
            old(self).wf(),
        ensures
            final(self).wf(),
            r < RAND_MAX,
            r == spec_rand(old(self).model()).0,
            final(self).model() == spec_rand(old(self).model()).1,
    {
        if self.idx + 3 > 32 {
            self.rehash_seed();
        }
        let b0 = self.seed[self.idx] as u32;
        let b1 = self.seed[self.idx + 1] as u32;
        let b2 = self.seed[self.idx + 2] as u32;
        self.idx = self.idx + 3;
        let r = (b0 << 16u32) | (b1 << 8u32) | b2;
        proof {
            assert(b0 < 256 && b1 < 256 && b2 < 256 ==> ((b0 << 16u32) | (b1 << 8u32) | b2)
                < 16_777_216) by (bit_vector);
        }
        r
    }

    /// A value below `n`, drawn by rejection sampling; after too many
    /// rejections the last draw is reduced modulo `n`.
    fn rand_range(&mut self, n: u32) -> (r: u32)
        requires
            old(self).wf(),
            0 < n,
        ensures
            final(self).wf(),
            r < n,
            r == spec_rand_range(old(self).model(), n).0,
            final(self).model() == spec_rand_range(old(self).model(), n).1,
    {
        proof {
            assert(RAND_MAX % n <= RAND_MAX) by (nonlinear_arith)
                requires
                    0 < n,
            ;
        }
        let threshold = RAND_MAX - (RAND_MAX % n);
        let mut x = self.rand();
        let mut tries: usize = 0;
        while x >= threshold && tries < MAX_DRAW_RETRIES
            invariant
                self.wf(),
                0 < n,
                tries <= MAX_DRAW_RETRIES,
                threshold == spec_threshold(n),
                x < RAND_MAX,
                spec_rand_range_loop(self.model(), n, x, tries as int) == spec_rand_range(
                    old(self).model(),
                    n,
                ),
            decreases MAX_DRAW_RETRIES - tries,
        {
            x = self.rand();
            tries = tries + 1;
        }
        x % n
    }
}

/// Swapping two entries of a sequence keeps its multiset of values.
proof fn lemma_swap_preserves_multiset(s: Seq<usize>, i: int, j: int)
    requires
        0 <= i < s.len(),
        0 <= j < s.len(),
    ensures
        s.update(i, s[j]).update(j, s[i]).to_multiset() == s.to_multiset(),
{
    broadcast use vstd::seq_lib::group_to_multiset_ensures;
    broadcast use vstd::multiset::group_multiset_axioms;
    broadcast use vstd::multiset::group_multiset_properties;

    if i == j {
        assert(s.update(i, s[j]).update(j, s[i]) =~= s);
    } else {
        let s1 = s.update(i, s[j]);
        let s2 = s1.update(j, s[i]);
        to_multiset_update(s, i, s[j]);
        to_multiset_update(s1, j, s[i]);
        assert(s1[j] == s[j]);
        assert(s.contains(s[i]));
        assert(s.to_multiset().count(s[i]) > 0);
        assert(s1.contains(s[j]));
        assert(s1.to_multiset().count(s[j]) > 0);
        assert(s2.to_multiset() =~= s.to_multiset());
    }
}

/// The shuffle keeps the multiset of the list it permutes, from any position.
pub proof fn lemma_spec_shuffle_from_permutes(state: (Seq<u8>, int), l: Seq<usize>, i: int)
    requires
        0 <= i,
    ensures
        spec_shuffle_from(state, l, i).len() == l.len(),
        spec_shuffle_from(state, l, i).to_multiset() == l.to_multiset(),
    decreases l.len() - i,
{
    if i + 1 < l.len() {
        let draw = spec_rand_range(state, (l.len() - i) as u32);
        let j = i + draw.0;
        let swapped = if j < l.len() {
            l.update(i, l[j]).update(j, l[i])
        } else {
            l
        };
        lemma_spec_shuffle_from_permutes(draw.1, swapped, i + 1);
        if j < l.len() {
            lemma_swap_preserves_multiset(l, i, j);
        }
    }
}

/// Deterministically permutes `list`: the result is exactly the seeded swap
/// shuffle `spec_shuffle(seed, list)` — a multiset-permutation of the input,
/// of the same length. Lists longer than the entropy of one draw are refused.
pub fn shuffle(seed: &Vec<u8>, list: Vec<usize>) -> (r: Result<Vec<usize>, ShuffleError>)
    ensures
        r is Ok <==> list@.len() <= RAND_MAX,
        r matches Ok(out) ==> out@ == spec_shuffle(seed@, list@),
        r matches Ok(out) ==> out@.len() == list@.len() && out@.to_multiset()
            == list@.to_multiset(),
        r matches Err(e) ==> e == ShuffleError::ListTooLong,
{
    if list.len() > RAND_MAX as usize {
        return Err(ShuffleError::ListTooLong);
    }
    let mut rng = ShuffleRng::new(seed);
    let mut out = list;
    let n = out.len();
    let ghost orig = out@;
    let mut i: usize = 0;
    while i + 1 < n
        invariant
            i <= n,
            rng.wf(),
            out@.len() == n,
            n == orig.len(),
            n <= RAND_MAX,
            out@.to_multiset() == orig.to_multiset(),
            spec_shuffle_from(rng.model(), out@, i as int) == spec_shuffle(seed@, orig),
        decreases n - i,
    {
        let ghost state0 = rng.model();
        let range = (n - i) as u32;
        let v = rng.rand_range(range);
        let j = i + v as usize;
        let ghost pre = out@;
        let a = out[i];
        let b = out[j];
        out.set(i, b);
        out.set(j, a);
        proof {
            lemma_swap_preserves_multiset(pre, i as int, j as int);
            assert(out@ =~= pre.update(i as int, pre[j as int]).update(j as int, pre[i as int]));
        }
        i = i + 1;
    }
    proof {
        assert(out@ == spec_shuffle(seed@, orig));
    }
    Ok(out)
}

} // verus!
