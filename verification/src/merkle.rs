//! The cached binary Merkle tree hasher.
//!
//! A byte string is split into 32-byte chunks (the last one zero-padded),
//! the chunk list is padded with zero chunks to a power-of-two length, and
//! the chunks are folded pairwise bottom-up with the fixed 32-byte hash. The
//! cache keeps every node chunk of that tree in a flat vector and re-hashes
//! only the path from a changed leaf to the root.

use crate::bitfield::BooleanBitfield;
use crate::hash::{hash2, hash_pair};
use crate::overlay::{lemma_pow2_ceil_bounds, next_pow_two, pow2_ceil, pow2_ceil_from};
use crate::types::{bytes_range, clone_bytes, repeat_byte};
use vstd::prelude::*;

verus! {

/// A sequence of `n` zero bytes.
pub open spec fn zero_bytes(n: int) -> Seq<u8> {
    Seq::new(n as nat, |i: int| 0u8)
}

/// The all-zero chunk.
pub open spec fn zero_chunk() -> Seq<u8> {
    zero_bytes(32)
}

/// How many 32-byte chunks a byte string of length `len` occupies.
pub open spec fn num_chunks_of(len: int) -> int {
    if len <= 0 {
        0
    } else {
        (len - 1) / 32 + 1
    }
}

/// Chunk `i` of a byte string: 32 bytes, the last chunk zero-padded.
pub open spec fn chunk_at(b: Seq<u8>, i: int) -> Seq<u8> {
    if 32 * (i + 1) <= b.len() {
        b.subrange(32 * i, 32 * (i + 1))
    } else {
        b.subrange(32 * i, b.len() as int) + zero_bytes(32 * (i + 1) - b.len())
    }
}

/// A byte string as its list of 32-byte chunks.
pub open spec fn chunkify(b: Seq<u8>) -> Seq<Seq<u8>> {
    Seq::new(num_chunks_of(b.len() as int) as nat, |i: int| chunk_at(b, i))
}

/// A chunk list padded with zero chunks to the next power-of-two length
/// (at least one chunk).
pub open spec fn pad_pow2(chunks: Seq<Seq<u8>>) -> Seq<Seq<u8>> {
    chunks + Seq::new(
        (pow2_ceil(chunks.len() as int) - chunks.len()) as nat,
        |i: int| zero_chunk(),
    )
}

/// Whether `n` is a power of two.
pub open spec fn is_pow2(n: int) -> bool
    decreases n,
    when n >= 1
{
    if n == 1 {
        true
    } else {
        n % 2 == 0 && is_pow2(n / 2)
    }
}

/// One fold level: adjacent chunks hashed pairwise.
pub open spec fn pair_level(chunks: Seq<Seq<u8>>) -> Seq<Seq<u8>> {
    Seq::new((chunks.len() / 2) as nat, |i: int| hash2(chunks[2 * i], chunks[2 * i + 1]))
}

/// The Merkle root of a power-of-two chunk list: pairwise folds, bottom-up.
pub open spec fn merkle_fold(chunks: Seq<Seq<u8>>) -> Seq<u8>
    decreases chunks.len(),
{
    if chunks.len() <= 1 {
        if chunks.len() == 0 {
            zero_chunk()
        } else {
            chunks[0]
        }
    } else {
        merkle_fold(pair_level(chunks))
    }
}

/// The Merkle root of a byte string: its chunks, zero-padded to a power of
/// two, folded pairwise.
pub open spec fn merkle_root_bytes(b: Seq<u8>) -> Seq<u8> {
    merkle_fold(pad_pow2(chunkify(b)))
}

/// Doubling from a power of two reaches a power of two.
proof fn lemma_pow2_ceil_from_is_pow2(n: int, p: int)
    requires
        1 <= p,
        is_pow2(p),
    ensures
        is_pow2(pow2_ceil_from(n, p)),
    decreases
            (if p < n {
                n - p
            } else {
                0
            }),
{
    if p < n {
        lemma_pow2_ceil_from_is_pow2(n, 2 * p);
    }
}

/// The power-of-two ceiling is a power of two.
pub proof fn lemma_pow2_ceil_is_pow2(n: int)
    ensures
        is_pow2(pow2_ceil(n)),
{
    lemma_pow2_ceil_from_is_pow2(n, 1);
}

/// The chunk views of a vector of chunk vectors.
pub open spec fn views_of(s: Seq<Vec<u8>>) -> Seq<Seq<u8>> {
    s.map(|_i: int, v: Vec<u8>| v@)
}

/// Splits a byte string into 32-byte chunks, the last chunk zero-padded.
pub fn chunkify_bytes(bytes: &Vec<u8>) -> (r: Vec<Vec<u8>>)
    requires
        bytes@.len() <= 0x1000_0000,
    ensures
        views_of(r@) == chunkify(bytes@),
        r@.len() == num_chunks_of(bytes@.len() as int),
        forall|i: int| 0 <= i < r@.len() ==> #[trigger] r@[i]@.len() == 32,
{
    let len = bytes.len();
    let count = if len == 0 {
        0
    } else {
        (len - 1) / 32 + 1
    };
    let mut r: Vec<Vec<u8>> = Vec::new();
    let mut i: usize = 0;
    while i < count
        invariant
            i <= count,
            len == bytes@.len() <= 0x1000_0000,
            count == num_chunks_of(len as int),
            r@.len() == i,
            forall|q: int| 0 <= q < i ==> #[trigger] r@[q]@ == chunk_at(bytes@, q),
            forall|q: int| 0 <= q < i ==> #[trigger] r@[q]@.len() == 32,
        decreases count - i,
    {
        let lo = 32 * i;
        let mut chunk: Vec<u8>;
        if 32 * (i + 1) <= len {
            chunk = bytes_range(bytes, lo, lo + 32);
        } else {
            chunk = bytes_range(bytes, lo, len);
            let pad = 32 * (i + 1) - len;
            let mut zeros = repeat_byte(0, pad);
            chunk.append(&mut zeros);
            proof {
                assert(chunk@ =~= chunk_at(bytes@, i as int));
            }
        }
        r.push(chunk);
        i = i + 1;
    }
    proof {
        assert(views_of(r@) =~= chunkify(bytes@));
    }
    r
}

/// Pads a chunk list with zero chunks up to the next power-of-two length.
pub fn pad_chunks_pow2(chunks: Vec<Vec<u8>>) -> (r: Vec<Vec<u8>>)
    requires
        chunks@.len() <= 0x100_0000,
        forall|i: int| 0 <= i < chunks@.len() ==> #[trigger] chunks@[i]@.len() == 32,
    ensures
        views_of(r@) == pad_pow2(views_of(chunks@)),
        r@.len() == pow2_ceil(chunks@.len() as int),
        is_pow2(r@.len() as int),
        1 <= r@.len(),
        forall|i: int| 0 <= i < r@.len() ==> #[trigger] r@[i]@.len() == 32,
{
    proof {
        lemma_pow2_ceil_bounds(chunks@.len() as int);
        lemma_pow2_ceil_is_pow2(chunks@.len() as int);
    }
    let target = next_pow_two(chunks.len());
    let mut r = chunks;
    let ghost orig = r@;
    while r.len() < target
        invariant
            orig.len() <= r@.len() <= target,
            target == pow2_ceil(orig.len() as int),
            r@.subrange(0, orig.len() as int) == orig,
            forall|i: int| orig.len() <= i < r@.len() ==> #[trigger] r@[i]@ == zero_chunk(),
            forall|i: int| 0 <= i < orig.len() ==> #[trigger] orig[i]@.len() == 32,
        decreases target - r@.len(),
    {
        let z = repeat_byte(0, 32);
        proof {
            assert(z@ =~= zero_chunk());
        }
        r.push(z);
        proof {
            assert(r@.subrange(0, orig.len() as int) =~= orig);
        }
    }
    proof {
        assert forall|i: int| 0 <= i < r@.len() implies #[trigger] r@[i]@.len() == 32 by {
            if i < orig.len() {
                assert(r@[i] == r@.subrange(0, orig.len() as int)[i]);
            }
        }
        assert forall|i: int| 0 <= i < orig.len() implies views_of(r@)[i] == views_of(orig)[i] by {
            assert(r@[i] == r@.subrange(0, orig.len() as int)[i]);
        }
        assert(views_of(r@) =~= pad_pow2(views_of(orig)));
    }
    r
}

/// The fresh (non-cached) Merkle root of a byte string.
pub fn fresh_root(bytes: &Vec<u8>) -> (r: Vec<u8>)
    requires
        bytes@.len() <= 0x1000_0000,
    ensures
        r@ == merkle_root_bytes(bytes@),
        r@.len() == 32,
{
    let chunks = chunkify_bytes(bytes);
    let padded = pad_chunks_pow2(chunks);
    merkle_fold_chunks(padded)
}

/// Folds a power-of-two chunk list pairwise, bottom-up, to its root.
pub fn merkle_fold_chunks(chunks: Vec<Vec<u8>>) -> (r: Vec<u8>)
    requires
        is_pow2(chunks@.len() as int),
        1 <= chunks@.len(),
        forall|i: int| 0 <= i < chunks@.len() ==> #[trigger] chunks@[i]@.len() == 32,
    ensures
        r@ == merkle_fold(views_of(chunks@)),
        r@.len() == 32,
{
    let ghost orig = views_of(chunks@);
    let mut cur = chunks;
    while cur.len() > 1
        invariant
            1 <= cur@.len(),
            is_pow2(cur@.len() as int),
            forall|i: int| 0 <= i < cur@.len() ==> #[trigger] cur@[i]@.len() == 32,
            merkle_fold(views_of(cur@)) == merkle_fold(orig),
        decreases cur@.len(),
    {
        let half = cur.len() / 2;
        let mut next: Vec<Vec<u8>> = Vec::new();
        let mut i: usize = 0;
        while i < half
            invariant
                i <= half,
                half == cur@.len() / 2,
                2 * half == cur@.len(),
                cur@.len() <= usize::MAX,
                forall|q: int| 0 <= q < cur@.len() ==> #[trigger] cur@[q]@.len() == 32,
                next@.len() == i,
                forall|q: int|
                    0 <= q < i ==> #[trigger] next@[q]@ == hash2(cur@[2 * q]@, cur@[2 * q + 1]@),
                forall|q: int| 0 <= q < i ==> #[trigger] next@[q]@.len() == 32,
            decreases half - i,
        {
            let h = hash_pair(&cur[2 * i], &cur[2 * i + 1]);
            next.push(h);
            i = i + 1;
        }
        proof {
            assert(views_of(next@) =~= pair_level(views_of(cur@)));
        }
        cur = next;
    }
    proof {
        assert(merkle_fold(views_of(cur@)) == views_of(cur@)[0]);
    }
    clone_bytes(&cur[0])
}

/// The value of logical node `i` of a complete binary tree whose leaf row is
/// `leaves` (`n` leaves, node `k`'s children at `2k+1` and `2k+2`).
pub open spec fn node_val(leaves: Seq<Seq<u8>>, n: int, i: int) -> Seq<u8>
    decreases 2 * n - i,
    when 0 <= i < 2 * n - 1 && leaves.len() == n
{
    if i >= n - 1 {
        leaves[i - (n - 1)]
    } else {
        hash2(node_val(leaves, n, 2 * i + 1), node_val(leaves, n, 2 * i + 2))
    }
}

/// Halving: a node of the tree over `leaves` equals the same node of the
/// tree over one fold level of `leaves`.
proof fn lemma_node_val_halve(leaves: Seq<Seq<u8>>, m: int, i: int)
    requires
        leaves.len() == 2 * m,
        1 <= m,
        0 <= i < 2 * m - 1,
    ensures
        node_val(leaves, 2 * m, i) == node_val(pair_level(leaves), m, i),
    decreases 4 * m - i,
{
    if i >= m - 1 {
        assert(node_val(pair_level(leaves), m, i) == pair_level(leaves)[i - (m - 1)]);
        assert(node_val(leaves, 2 * m, 2 * i + 1) == leaves[2 * i + 1 - (2 * m - 1)]);
        assert(node_val(leaves, 2 * m, 2 * i + 2) == leaves[2 * i + 2 - (2 * m - 1)]);
    } else {
        lemma_node_val_halve(leaves, m, 2 * i + 1);
        lemma_node_val_halve(leaves, m, 2 * i + 2);
    }
}

/// The root node of the complete binary tree over `leaves` is their Merkle
/// fold.
pub proof fn lemma_node_val_is_fold(leaves: Seq<Seq<u8>>, n: int)
    requires
        is_pow2(n),
        leaves.len() == n,
        1 <= n,
    ensures
        node_val(leaves, n, 0) == merkle_fold(leaves),
    decreases n,
{
    if n > 1 {
        let m = n / 2;
        lemma_node_val_halve(leaves, m, 0);
        lemma_node_val_is_fold(pair_level(leaves), m);
    }
}

/// Consistency: if every internal chunk of a flat tree vector is the hash of
/// its children, every node chunk equals the tree value over the leaf row.
proof fn lemma_cache_nodes(views: Seq<Seq<u8>>, n: int, i: int)
    requires
        1 <= n,
        views.len() == 2 * n - 1,
        forall|k: int|
            0 <= k < n - 1 ==> #[trigger] views[k] == hash2(views[2 * k + 1], views[2 * k + 2]),
        0 <= i < 2 * n - 1,
    ensures
        views[i] == node_val(views.subrange(n - 1, 2 * n - 1), n, i),
    decreases 2 * n - i,
{
    if i >= n - 1 {
        assert(views.subrange(n - 1, 2 * n - 1)[i - (n - 1)] == views[i]);
    } else {
        lemma_cache_nodes(views, n, 2 * i + 1);
        lemma_cache_nodes(views, n, 2 * i + 2);
    }
}

/// Whether `a` is `node` or an ancestor of `node` in the complete binary
/// tree (parent of `k` at `(k-1)/2`).
pub open spec fn is_ancestor_or_self(a: int, node: int) -> bool
    decreases node,
    when 0 <= node
{
    a == node || (node > 0 && is_ancestor_or_self(a, (node - 1) / 2))
}

/// Whether `a` is a proper (strict) ancestor of `node`.
pub open spec fn is_proper_ancestor(a: int, node: int) -> bool {
    node > 0 && is_ancestor_or_self(a, (node - 1) / 2)
}

/// The tree-hash cache: the flat chunk vector of a complete binary tree, a
/// parallel dirty bitfield, and the leaf count. Every internal chunk is kept
/// equal to the hash of its two children, so the root chunk is always the
/// fresh Merkle fold of the current leaf row.
pub struct TreeHashCache {
    cache: Vec<Vec<u8>>,
    chunk_modified: BooleanBitfield,
    num_leaves: usize,
}

impl TreeHashCache {
    /// The number of leaf chunks.
    pub closed spec fn n(&self) -> int {
        self.num_leaves as int
    }

    /// All node chunks, root first.
    pub closed spec fn chunks(&self) -> Seq<Seq<u8>> {
        views_of(self.cache@)
    }

    /// The current leaf row.
    pub open spec fn leaves(&self) -> Seq<Seq<u8>> {
        self.chunks().subrange(self.n() - 1, 2 * self.n() - 1)
    }

    pub closed spec fn dirty_wf(&self) -> bool {
        self.chunk_modified.well_formed()
    }

    /// Whether chunk `i` has been re-hashed since the cache was built.
    pub closed spec fn spec_modified(&self, i: nat) -> bool {
        self.chunk_modified.bit(i)
    }

    pub open spec fn wf(&self) -> bool {
        &&& self.dirty_wf()
        &&& 1 <= self.n() <= 0x1000_0000
        &&& is_pow2(self.n())
        &&& self.chunks().len() == 2 * self.n() - 1
        &&& forall|i: int| 0 <= i < self.chunks().len() ==> #[trigger] self.chunks()[i].len() == 32
        &&& forall|k: int|
            0 <= k < self.n() - 1 ==> #[trigger] self.chunks()[k] == hash2(
                self.chunks()[2 * k + 1],
                self.chunks()[2 * k + 2],
            )
    }

    /// Builds the cache for a power-of-two leaf row.
    pub fn new(leaf_chunks: Vec<Vec<u8>>) -> (r: Self)
        requires
            1 <= leaf_chunks@.len() <= 0x1000_0000,
            is_pow2(leaf_chunks@.len() as int),
            forall|i: int| 0 <= i < leaf_chunks@.len() ==> #[trigger] leaf_chunks@[i]@.len() == 32,
        ensures
            r.wf(),
            r.n() == leaf_chunks@.len(),
            r.leaves() == views_of(leaf_chunks@),
            forall|i: nat| !r.spec_modified(i),
    {
        let n = leaf_chunks.len();
        let mut cache: Vec<Vec<u8>> = Vec::new();
        let mut k: usize = 0;
        while k < n - 1
            invariant
                k <= n - 1,
                n >= 1,
                cache@.len() == k,
                forall|q: int| 0 <= q < k ==> #[trigger] cache@[q]@.len() == 32,
            decreases n - 1 - k,
        {
            cache.push(repeat_byte(0, 32));
            k = k + 1;
        }
        let mut leaf_chunks = leaf_chunks;
        let ghost leaf_views = views_of(leaf_chunks@);
        let mut i: usize = 0;
        let count = leaf_chunks.len();
        while i < count
            invariant
                i <= count,
                count == leaf_views.len(),
                leaf_chunks@.len() == count - i,
                n == count,
                cache@.len() == n - 1 + i,
                forall|q: int| 0 <= q < cache@.len() ==> #[trigger] cache@[q]@.len() == 32,
                forall|q: int|
                    0 <= q < i ==> #[trigger] cache@[n - 1 + q]@ == leaf_views[q],
                forall|q: int|
                    0 <= q < leaf_chunks@.len() ==> #[trigger] leaf_chunks@[q]@ == leaf_views[i + q]
                        && leaf_chunks@[q]@.len() == 32,
            decreases count - i,
        {
            let chunk = leaf_chunks.remove(0);
            cache.push(chunk);
            i = i + 1;
        }
        let mut r = TreeHashCache {
            cache,
            chunk_modified: BooleanBitfield::new(),
            num_leaves: n,
        };
        let mut k: usize = n - 1;
        while k > 0
            invariant
                k <= n - 1,
                n == r.num_leaves,
                n == leaf_views.len(),
                r.dirty_wf(),
                r.chunk_modified.bytes() == Seq::<u8>::empty(),
                1 <= n <= 0x1000_0000,
                r.chunks().len() == 2 * n - 1,
                forall|q: int| 0 <= q < r.chunks().len() ==> #[trigger] r.chunks()[q].len() == 32,
                forall|q: int|
                    0 <= q < n ==> #[trigger] r.chunks()[n - 1 + q] == leaf_views[q],
                forall|q: int|
                    k <= q < n - 1 ==> #[trigger] r.chunks()[q] == hash2(
                        r.chunks()[2 * q + 1],
                        r.chunks()[2 * q + 2],
                    ),
            decreases k,
        {
            k = k - 1;
            let h = hash_pair(&r.cache[2 * k + 1], &r.cache[2 * k + 2]);
            let ghost pre = r.chunks();
            let ghost pre_dirty = r.chunk_modified;
            r.cache.set(k, h);
            proof {
                assert(r.chunk_modified == pre_dirty);
                assert forall|q: int| 0 <= q < r.chunks().len() implies #[trigger] r.chunks()[q].len()
                    == 32 by {
                    if q == k as int {
                        assert(r.chunks()[q] == h@);
                    } else {
                        assert(r.chunks()[q] == pre[q]);
                    }
                }
                assert forall|q: int| 0 <= q < n implies #[trigger] r.chunks()[n - 1 + q]
                    == leaf_views[q] by {
                    assert(r.chunks()[n - 1 + q] == pre[n - 1 + q]);
                }
                assert forall|q: int| k <= q < n - 1 implies #[trigger] r.chunks()[q] == hash2(
                    r.chunks()[2 * q + 1],
                    r.chunks()[2 * q + 2],
                ) by {
                    assert(r.chunks()[2 * q + 1] == pre[2 * q + 1]);
                    assert(r.chunks()[2 * q + 2] == pre[2 * q + 2]);
                    if q == k as int {
                        assert(r.chunks()[q] == h@);
                    } else {
                        assert(r.chunks()[q] == pre[q]);
                    }
                }
            }
        }
        proof {
            assert forall|q: int| 0 <= q < n implies r.leaves()[q] == leaf_views[q] by {
                assert(r.leaves()[q] == r.chunks()[n - 1 + q]);
            }
            assert(r.leaves() =~= leaf_views);
            assert forall|i: nat| !r.spec_modified(i) by {
                assert(!crate::bitfield::bit_at(r.chunk_modified.bytes(), i));
            }
        }
        r
    }

    /// Builds the cache over the padded chunks of a byte string: its root is
    /// the byte string's Merkle root.
    pub fn from_bytes(bytes: &Vec<u8>) -> (r: Self)
        requires
            bytes@.len() <= 0x1000_0000,
        ensures
            r.wf(),
            r.leaves() == pad_pow2(chunkify(bytes@)),
            merkle_fold(r.leaves()) == merkle_root_bytes(bytes@),
    {
        let chunks = chunkify_bytes(bytes);
        let padded = pad_chunks_pow2(chunks);
        proof {
            lemma_pow2_ceil_bounds(num_chunks_of(bytes@.len() as int));
        }
        TreeHashCache::new(padded)
    }

    /// The number of leaf chunks.
    pub fn num_leaf_chunks(&self) -> (r: usize)
        ensures
            r == self.n(),
    {
        self.num_leaves
    }

    /// One leaf chunk.
    pub fn leaf_at(&self, leaf_index: usize) -> (r: Vec<u8>)
        requires
            self.wf(),
            leaf_index < self.n(),
        ensures
            r@ == self.leaves()[leaf_index as int],
    {
        clone_bytes(&self.cache[self.num_leaves - 1 + leaf_index])
    }

    /// The cached root: always the fresh Merkle fold of the current leaves.
    pub fn root(&self) -> (r: Vec<u8>)
        requires
            self.wf(),
        ensures
            r@ == merkle_fold(self.leaves()),
            r@.len() == 32,
    {
        proof {
            lemma_cache_nodes(self.chunks(), self.n(), 0);
            lemma_node_val_is_fold(self.leaves(), self.n());
        }
        clone_bytes(&self.cache[0])
    }

    /// Replaces one leaf chunk and re-hashes the path from it to the root,
    /// marking the touched chunks dirty. The cache stays consistent: its
    /// root is the fresh Merkle fold of the updated leaf row.
    pub fn set_leaf(&mut self, leaf_index: usize, chunk: Vec<u8>)
        requires
            old(self).wf(),
            leaf_index < old(self).n(),
            chunk@.len() == 32,
        ensures
            final(self).wf(),
            final(self).n() == old(self).n(),
            final(self).leaves() == old(self).leaves().update(leaf_index as int, chunk@),
            final(self).spec_modified((old(self).n() - 1 + leaf_index) as nat),
            forall|i: nat| old(self).spec_modified(i) ==> final(self).spec_modified(i),
    {
        let n = self.num_leaves;
        let mut idx = n - 1 + leaf_index;
        self.cache.set(idx, chunk);
        self.chunk_modified.set_bit(&idx, &true);
        proof {
            assert forall|q: int| 0 <= q < self.chunks().len() implies #[trigger] self.chunks()[q].len()
                == 32 by {
                if q == idx as int {
                    assert(self.chunks()[q] == chunk@);
                } else {
                    assert(self.chunks()[q] == old(self).chunks()[q]);
                }
            }
            assert forall|q: int|
                0 <= q < n implies self.chunks().subrange(n - 1, 2 * n - 1)[q] == old(
                self,
            ).leaves().update(leaf_index as int, chunk@)[q] by {
                if q == leaf_index as int {
                    assert(self.chunks()[n - 1 + q] == chunk@);
                } else {
                    assert(self.chunks()[n - 1 + q] == old(self).chunks()[n - 1 + q]);
                }
            }
            assert(self.chunks().subrange(n - 1, 2 * n - 1) =~= old(self).leaves().update(
                leaf_index as int,
                chunk@,
            ));
            assert forall|k: int|
                0 <= k < n - 1 && !is_proper_ancestor(k, idx as int)
                    implies #[trigger] self.chunks()[k] == hash2(
                self.chunks()[2 * k + 1],
                self.chunks()[2 * k + 2],
            ) by {
                assert(2 * k + 1 != idx as int && 2 * k + 2 != idx as int) by {
                    if 2 * k + 1 == idx as int || 2 * k + 2 == idx as int {
                        assert((idx as int - 1) / 2 == k);
                        assert(is_ancestor_or_self(k, (idx as int - 1) / 2));
                    }
                }
                assert(self.chunks()[k] == old(self).chunks()[k]);
                assert(self.chunks()[2 * k + 1] == old(self).chunks()[2 * k + 1]);
                assert(self.chunks()[2 * k + 2] == old(self).chunks()[2 * k + 2]);
            }
        }
        while idx > 0
            invariant
                idx < 2 * n - 1,
                1 <= n <= 0x1000_0000,
                n == self.num_leaves,
                self.dirty_wf(),
                leaf_index < n,
                self.spec_modified((n - 1 + leaf_index) as nat),
                forall|i: nat| old(self).spec_modified(i) ==> self.spec_modified(i),
                self.chunks().len() == 2 * n - 1,
                forall|q: int| 0 <= q < self.chunks().len() ==> #[trigger] self.chunks()[q].len()
                    == 32,
                forall|k: int|
                    0 <= k < n - 1 && !is_proper_ancestor(k, idx as int)
                        ==> #[trigger] self.chunks()[k] == hash2(
                        self.chunks()[2 * k + 1],
                        self.chunks()[2 * k + 2],
                    ),
                self.chunks().subrange(n - 1, 2 * n - 1) == old(self).leaves().update(
                    leaf_index as int,
                    chunk@,
                ),
            decreases idx,
        {
            let parent = (idx - 1) / 2;
            let h = hash_pair(&self.cache[2 * parent + 1], &self.cache[2 * parent + 2]);
            let ghost pre = self.chunks();
            let ghost old_idx = idx as int;
            self.cache.set(parent, h);
            self.chunk_modified.set_bit(&parent, &true);
            proof {
                assert forall|q: int|
                    0 <= q < self.chunks().len() implies #[trigger] self.chunks()[q].len()
                    == 32 by {
                    if q == parent as int {
                        assert(self.chunks()[q] == h@);
                    } else {
                        assert(self.chunks()[q] == pre[q]);
                    }
                }
                assert forall|q: int| 0 <= q < n implies #[trigger] self.chunks()[n - 1 + q]
                    == pre[n - 1 + q] by {
                    assert(parent as int != n - 1 + q);
                }
                assert(self.chunks().subrange(n - 1, 2 * n - 1) =~= pre.subrange(
                    n - 1,
                    2 * n - 1,
                ));
                assert(self.chunks()[parent as int] == hash2(
                    self.chunks()[2 * parent + 1],
                    self.chunks()[2 * parent + 2],
                ));
                assert forall|k: int|
                    0 <= k < n - 1 && !is_proper_ancestor(k, parent as int) && k != parent as int
                        implies #[trigger] self.chunks()[k] == hash2(
                    self.chunks()[2 * k + 1],
                    self.chunks()[2 * k + 2],
                ) by {
                    assert(!is_proper_ancestor(k, old_idx)) by {
                        if is_proper_ancestor(k, old_idx) {
                            assert(is_ancestor_or_self(k, parent as int));
                        }
                    }
                    assert(2 * k + 1 != parent as int && 2 * k + 2 != parent as int) by {
                        if 2 * k + 1 == parent as int || 2 * k + 2 == parent as int {
                            assert((parent as int - 1) / 2 == k);
                            assert(is_ancestor_or_self(k, parent as int));
                        }
                    }
                    assert(self.chunks()[k] == pre[k]);
                    assert(self.chunks()[2 * k + 1] == pre[2 * k + 1]);
                    assert(self.chunks()[2 * k + 2] == pre[2 * k + 2]);
                }
            }
            idx = parent;
        }
        proof {
            assert forall|k: int| 0 <= k < n - 1 implies #[trigger] self.chunks()[k] == hash2(
                self.chunks()[2 * k + 1],
                self.chunks()[2 * k + 2],
            ) by {
                assert(!is_proper_ancestor(k, 0));
            }
            assert(self.leaves() == old(self).leaves().update(leaf_index as int, chunk@));
        }
    }

    /// Whether a chunk has been re-hashed since the cache was built.
    pub fn chunk_is_modified(&self, chunk_index: usize) -> (r: bool)
        ensures
            r == self.spec_modified(chunk_index as nat),
    {
        self.chunk_modified.get_bit(&chunk_index)
    }
}

} // verus!
