//! The overlay that interprets a flat vector of 32-byte chunks as a complete
//! binary tree: for every logical node it gives the chunk range the node
//! occupies, using a table of per-leaf chunk counts to place variable-width
//! leaves.

use core::ops::Range;
use vstd::prelude::*;

verus! {

/// The per-leaf chunk counts of a subtree, with the depth it sits at.
#[derive(Debug, PartialEq, Eq)]
pub struct BTreeSchema {
    pub depth: usize,
    lengths: Vec<usize>,
}

/// What a leaf slot of the tree holds: a real leaf with its chunk range, a
/// zero-chunk padding leaf, or nothing (past the tree).
#[derive(Debug, PartialEq, Eq)]
pub enum LeafNode {
    DoesNotExist,
    Exists(Range<usize>),
    Padding,
}

/// A schema placed at a chunk offset.
#[derive(Debug, PartialEq, Eq)]
pub struct BTreeOverlay {
    offset: usize,
    pub depth: usize,
    lengths: Vec<usize>,
}

/// The smallest power of two that is at least `max(n, 1)`, reached by
/// doubling `p`.
pub open spec fn pow2_ceil_from(n: int, p: int) -> int
    decreases
            (if p < n {
                n - p
            } else {
                0
            }),
    when 1 <= p
{
    if p >= n {
        p
    } else {
        pow2_ceil_from(n, 2 * p)
    }
}

/// The smallest power of two that is at least `max(n, 1)`.
pub open spec fn pow2_ceil(n: int) -> int {
    pow2_ceil_from(n, 1)
}

pub proof fn lemma_pow2_ceil_from_bounds(n: int, p: int)
    requires
        1 <= p,
    ensures
        p <= pow2_ceil_from(n, p),
        n <= pow2_ceil_from(n, p),
        n > p ==> pow2_ceil_from(n, p) < 2 * n,
    decreases
            (if p < n {
                n - p
            } else {
                0
            }),
{
    if p < n {
        lemma_pow2_ceil_from_bounds(n, 2 * p);
    }
}

/// `pow2_ceil(n)` lies in `[max(n, 1), 2·max(n, 1))`.
pub proof fn lemma_pow2_ceil_bounds(n: int)
    ensures
        1 <= pow2_ceil(n),
        n <= pow2_ceil(n),
        n >= 1 ==> pow2_ceil(n) < 2 * n,
        n <= 1 ==> pow2_ceil(n) == 1,
{
    lemma_pow2_ceil_from_bounds(n, 1);
}

/// The smallest power of two at least `max(n, 1)`.
pub fn next_pow_two(n: usize) -> (r: usize)
    requires
        n <= 0x4000_0000,
    ensures
        r == pow2_ceil(n as int),
{
    let mut p: usize = 1;
    while p < n
        invariant
            1 <= p <= 0x8000_0000,
            n <= 0x4000_0000,
            pow2_ceil(n as int) == pow2_ceil_from(n as int, p as int),
        decreases
                (if p < n {
                    n - p
                } else {
                    0
                }),
    {
        proof {
            lemma_pow2_ceil_from_bounds(n as int, p as int);
        }
        p = p * 2;
    }
    p
}

/// How many chunks the first `k` leaf slots occupy: a listed leaf takes its
/// table entry, a padding leaf takes one chunk.
pub open spec fn chunks_before(lengths: Seq<usize>, k: int) -> int
    decreases k,
{
    if k <= 0 {
        0
    } else {
        chunks_before(lengths, k - 1) + (if k - 1 < lengths.len() {
            lengths[k - 1] as int
        } else {
            1
        })
    }
}

pub proof fn lemma_chunks_before_bounds(lengths: Seq<usize>, k: int)
    ensures
        0 <= chunks_before(lengths, k),
        k <= lengths.len() ==> chunks_before(lengths, k) <= chunks_before(
            lengths,
            lengths.len() as int,
        ),
        k >= lengths.len() ==> chunks_before(lengths, k) == chunks_before(
            lengths,
            lengths.len() as int,
        ) + (k - lengths.len()),
    decreases
            (if k <= lengths.len() {
                lengths.len() as int - k
            } else {
                k
            }),
{
    if k < lengths.len() {
        lemma_chunks_before_bounds(lengths, k + 1);
        lemma_chunks_before_nonneg(lengths, k);
    } else if k > lengths.len() {
        lemma_chunks_before_bounds(lengths, k - 1);
    } else {
        lemma_chunks_before_nonneg(lengths, k);
    }
}

pub proof fn lemma_chunks_before_nonneg(lengths: Seq<usize>, k: int)
    ensures
        0 <= chunks_before(lengths, k),
        forall|k2: int| 0 <= k2 <= k ==> #[trigger] chunks_before(lengths, k2) <= chunks_before(
            lengths,
            k,
        ),
    decreases
            (if k > 0 {
                k
            } else {
                0
            }),
{
    if k > 0 {
        lemma_chunks_before_nonneg(lengths, k - 1);
    }
}

impl BTreeSchema {
    /// The chunk-count table is modest enough for all chunk arithmetic to
    /// stay in bounds.
    pub closed spec fn spec_lengths(&self) -> Seq<usize> {
        self.lengths@
    }

    pub closed spec fn spec_depth(&self) -> usize {
        self.depth
    }

    pub open spec fn wf(&self) -> bool {
        &&& self.spec_lengths().len() <= 0x10_0000
        &&& chunks_before(self.spec_lengths(), self.spec_lengths().len() as int) <= 0x1000_0000
    }

    pub fn from_lengths(depth: usize, lengths: Vec<usize>) -> (r: Self)
        ensures
            r.spec_depth() == depth,
            r.spec_lengths() == lengths@,
    {
        Self { depth, lengths }
    }

    pub fn into_overlay(self, offset: usize) -> (r: BTreeOverlay)
        requires
            self.wf(),
            offset <= 0x1000_0000,
        ensures
            r.wf(),
            r.spec_depth() == self.spec_depth(),
            r.spec_lengths() == self.spec_lengths(),
            r.spec_offset() == offset,
    {
        BTreeOverlay::from_schema(self, offset)
    }
}

/// A type whose tree-hash cache layout is known: it can state the per-leaf
/// chunk counts of its subtree.
pub trait CachedTreeHash {
    /// The per-leaf chunk counts of this value's subtree.
    spec fn schema_lengths(&self) -> Seq<usize>;

    /// Produces the schema of this value's subtree at `depth`.
    fn tree_hash_cache_schema(&self, depth: usize) -> (r: BTreeSchema)
        ensures
            r.spec_depth() == depth,
            r.spec_lengths() == self.schema_lengths(),
            r.wf(),
    ;
}

impl CachedTreeHash for crate::types::Hash256 {
    /// A hash is a single one-chunk leaf.
    open spec fn schema_lengths(&self) -> Seq<usize> {
        seq![1usize]
    }

    fn tree_hash_cache_schema(&self, depth: usize) -> (r: BTreeSchema) {
        let mut lengths: Vec<usize> = Vec::new();
        lengths.push(1);
        proof {
            assert(lengths@ =~= seq![1usize]);
            assert(chunks_before(lengths@, 0) == 0);
            assert(chunks_before(lengths@, 1) == 1);
        }
        BTreeSchema::from_lengths(depth, lengths)
    }
}

impl From<BTreeOverlay> for BTreeSchema {
    fn from(overlay: BTreeOverlay) -> (r: Self) {
        Self { depth: overlay.depth, lengths: overlay.lengths }
    }
}

impl vstd::std_specs::convert::FromSpecImpl<BTreeOverlay> for BTreeSchema {
    open spec fn obeys_from_spec() -> bool {
        true
    }

    closed spec fn from_spec(overlay: BTreeOverlay) -> Self {
        BTreeSchema { depth: overlay.depth, lengths: overlay.lengths }
    }
}

/// Converting an overlay back into a schema keeps its depth and lengths
/// table: the schema-to-overlay-to-schema round trip loses nothing.
pub proof fn lemma_overlay_into_schema_round_trip(overlay: BTreeOverlay)
    ensures
        ({
            let s = <BTreeSchema as vstd::std_specs::convert::FromSpec<BTreeOverlay>>::from_spec(
                overlay,
            );
            s.spec_depth() == overlay.spec_depth() && s.spec_lengths() == overlay.spec_lengths()
        }),
{
}

impl BTreeOverlay {
    pub closed spec fn spec_lengths(&self) -> Seq<usize> {
        self.lengths@
    }

    pub closed spec fn spec_offset(&self) -> int {
        self.offset as int
    }

    pub closed spec fn spec_depth(&self) -> usize {
        self.depth
    }

    pub open spec fn wf(&self) -> bool {
        &&& self.spec_lengths().len() <= 0x10_0000
        &&& chunks_before(self.spec_lengths(), self.spec_lengths().len() as int) <= 0x1000_0000
        &&& self.spec_offset() <= 0x1000_0000
    }

    /// The number of leaf slots: the leaf count rounded up to a power of two.
    pub open spec fn spec_num_leaf_nodes(&self) -> int {
        pow2_ceil(self.spec_lengths().len() as int)
    }

    pub open spec fn spec_num_internal_nodes(&self) -> int {
        self.spec_num_leaf_nodes() - 1
    }

    /// The first chunk of leaf slot `k`.
    pub open spec fn leaf_chunk_start(&self, k: int) -> int {
        self.spec_offset() + self.spec_num_internal_nodes() + chunks_before(self.spec_lengths(), k)
    }

    /// The chunk where logical node `k` of the tree starts: internal nodes
    /// take one chunk each right after `offset`, then the leaves.
    pub open spec fn node_chunk(&self, k: int) -> int {
        if k < self.spec_num_internal_nodes() {
            self.spec_offset() + k
        } else {
            self.leaf_chunk_start(k - self.spec_num_internal_nodes())
        }
    }

    /// The first chunk past the whole subtree.
    pub open spec fn spec_next_node(&self) -> int {
        self.leaf_chunk_start(self.spec_num_leaf_nodes())
    }

    pub fn new<T: CachedTreeHash>(item: &T, initial_offset: usize, depth: usize) -> (r: Self)
        requires
            initial_offset <= 0x1000_0000,
        ensures
            r.wf(),
            r.spec_depth() == depth,
            r.spec_lengths() == item.schema_lengths(),
            r.spec_offset() == initial_offset,
    {
        Self::from_schema(item.tree_hash_cache_schema(depth), initial_offset)
    }

    pub fn from_schema(schema: BTreeSchema, offset: usize) -> (r: Self)
        requires
            schema.wf(),
            offset <= 0x1000_0000,
        ensures
            r.wf(),
            r.spec_depth() == schema.spec_depth(),
            r.spec_lengths() == schema.spec_lengths(),
            r.spec_offset() == offset,
    {
        Self { offset, depth: schema.depth, lengths: schema.lengths }
    }

    /// Proves the in-bounds facts every chunk computation rests on.
    proof fn bounds(&self)
        requires
            self.wf(),
        ensures
            self.spec_lengths().len() <= self.spec_num_leaf_nodes() < 0x20_0001,
            1 <= self.spec_num_leaf_nodes(),
            0 <= chunks_before(self.spec_lengths(), self.spec_lengths().len() as int)
                <= 0x1000_0000,
            forall|k: int|
                0 <= k <= self.spec_num_leaf_nodes() * 2 ==> 0 <= #[trigger] chunks_before(
                    self.spec_lengths(),
                    k,
                ) <= 0x1050_0000,
    {
        let s = self.spec_lengths();
        lemma_pow2_ceil_bounds(s.len() as int);
        lemma_chunks_before_nonneg(s, s.len() as int);
        assert forall|k: int| 0 <= k <= self.spec_num_leaf_nodes() * 2 implies 0
            <= #[trigger] chunks_before(s, k) <= 0x1050_0000 by {
            lemma_chunks_before_bounds(s, k);
            lemma_chunks_before_nonneg(s, k);
        }
    }

    /// The leaf slots of the tree, padded with `Padding` up to the leaf-slot
    /// count and with `DoesNotExist` up to `n` entries (truncating to `n`).
    pub fn get_leaf_nodes(&self, n: usize) -> (r: Vec<LeafNode>)
        requires
            self.wf(),
        ensures
            r@.len() == n,
            forall|k: int|
                #![auto]
                0 <= k < n ==> r@[k] == (if k < self.spec_lengths().len() {
                    LeafNode::Exists(
                        Range {
                            start: self.leaf_chunk_start(k) as usize,
                            end: (self.leaf_chunk_start(k) + self.spec_lengths()[k]) as usize,
                        },
                    )
                } else if k < self.spec_num_leaf_nodes() {
                    LeafNode::Padding
                } else {
                    LeafNode::DoesNotExist
                }),
    {
        proof {
            self.bounds();
        }
        let num_leaves = next_pow_two(self.lengths.len());
        let mut running_offset = self.offset + num_leaves - 1;
        let mut leaf_nodes: Vec<LeafNode> = Vec::new();
        let count = self.lengths.len();
        let mut i: usize = 0;
        while i < count
            invariant
                i <= count,
                count == self.spec_lengths().len(),
                self.wf(),
                num_leaves == self.spec_num_leaf_nodes(),
                running_offset == self.leaf_chunk_start(i as int),
                running_offset <= 0x3000_0000,
                leaf_nodes@.len() == i,
                forall|k: int|
                    #![auto]
                    0 <= k < i ==> leaf_nodes@[k] == LeafNode::Exists(
                        Range {
                            start: self.leaf_chunk_start(k) as usize,
                            end: (self.leaf_chunk_start(k) + self.spec_lengths()[k]) as usize,
                        },
                    ),
            decreases count - i,
        {
            proof {
                self.bounds();
                lemma_chunks_before_bounds(self.spec_lengths(), i + 1);
                lemma_chunks_before_nonneg(self.spec_lengths(), i + 1);
            }
            let length = self.lengths[i];
            let range = running_offset..(running_offset + length);
            leaf_nodes.push(LeafNode::Exists(range));
            running_offset = running_offset + length;
            i = i + 1;
        }
        while i < num_leaves
            invariant
                count <= i <= num_leaves,
                count == self.spec_lengths().len(),
                self.wf(),
                num_leaves == self.spec_num_leaf_nodes(),
                leaf_nodes@.len() == i,
                forall|k: int|
                    #![auto]
                    0 <= k < i ==> leaf_nodes@[k] == (if k < self.spec_lengths().len() {
                        LeafNode::Exists(
                            Range {
                                start: self.leaf_chunk_start(k) as usize,
                                end: (self.leaf_chunk_start(k) + self.spec_lengths()[k]) as usize,
                            },
                        )
                    } else {
                        LeafNode::Padding
                    }),
            decreases num_leaves - i,
        {
            leaf_nodes.push(LeafNode::Padding);
            i = i + 1;
        }
        while leaf_nodes.len() < n
            invariant
                count == self.spec_lengths().len(),
                self.wf(),
                num_leaves == self.spec_num_leaf_nodes(),
                count <= num_leaves <= leaf_nodes@.len(),
                forall|k: int|
                    #![auto]
                    0 <= k < leaf_nodes@.len() ==> leaf_nodes@[k] == (if k
                        < self.spec_lengths().len() {
                        LeafNode::Exists(
                            Range {
                                start: self.leaf_chunk_start(k) as usize,
                                end: (self.leaf_chunk_start(k) + self.spec_lengths()[k]) as usize,
                            },
                        )
                    } else if k < self.spec_num_leaf_nodes() {
                        LeafNode::Padding
                    } else {
                        LeafNode::DoesNotExist
                    }),
            decreases n - leaf_nodes@.len(),
        {
            leaf_nodes.push(LeafNode::DoesNotExist);
        }
        leaf_nodes.truncate(n);
        proof {
            assert(leaf_nodes@.len() == n);
        }
        leaf_nodes
    }

    /// The number of leaf slots in the tree.
    pub fn num_leaf_nodes(&self) -> (r: usize)
        requires
            self.wf(),
        ensures
            r == self.spec_num_leaf_nodes(),
    {
        next_pow_two(self.lengths.len())
    }

    /// How many leaf slots are padding.
    pub fn num_padding_leaves(&self) -> (r: usize)
        requires
            self.wf(),
        ensures
            r == self.spec_num_leaf_nodes() - self.spec_lengths().len(),
    {
        proof {
            self.bounds();
        }
        self.num_leaf_nodes() - self.lengths.len()
    }

    /// The number of nodes in the tree (not chunks: a leaf may span several
    /// chunks).
    pub fn num_nodes(&self) -> (r: usize)
        requires
            self.wf(),
        ensures
            r == 2 * self.spec_num_leaf_nodes() - 1,
    {
        proof {
            self.bounds();
        }
        2 * self.num_leaf_nodes() - 1
    }

    pub fn num_internal_nodes(&self) -> (r: usize)
        requires
            self.wf(),
        ensures
            r == self.spec_num_internal_nodes(),
    {
        proof {
            self.bounds();
        }
        self.num_leaf_nodes() - 1
    }

    fn first_node(&self) -> (r: usize)
        ensures
            r == self.spec_offset(),
    {
        self.offset
    }

    /// The chunk holding the root of this subtree.
    pub fn root(&self) -> (r: usize)
        ensures
            r == self.spec_offset(),
    {
        self.first_node()
    }

    /// The first chunk past this subtree.
    pub fn next_node(&self) -> (r: usize)
        requires
            self.wf(),
        ensures
            r == self.spec_next_node(),
    {
        proof {
            self.bounds();
        }
        let mut sum: usize = 0;
        let count = self.lengths.len();
        let mut i: usize = 0;
        while i < count
            invariant
                i <= count,
                count == self.spec_lengths().len(),
                self.wf(),
                sum == chunks_before(self.spec_lengths(), i as int),
                sum <= 0x1000_0000,
            decreases count - i,
        {
            proof {
                lemma_chunks_before_bounds(self.spec_lengths(), i + 1);
                lemma_chunks_before_nonneg(self.spec_lengths(), i + 1);
                lemma_chunks_before_nonneg(self.spec_lengths(), count as int);
            }
            sum = sum + self.lengths[i];
            i = i + 1;
        }
        proof {
            lemma_chunks_before_bounds(self.spec_lengths(), self.spec_num_leaf_nodes());
        }
        self.first_node() + self.num_internal_nodes() + self.num_leaf_nodes() - self.lengths.len()
            + sum
    }

    /// The depth of the tree: the base-two logarithm of its leaf-slot count.
    pub fn height(&self) -> (r: usize)
        requires
            self.wf(),
        ensures
            r == log2_of(self.spec_num_leaf_nodes()),
    {
        proof {
            self.bounds();
        }
        let mut v = self.num_leaf_nodes();
        let mut h: usize = 0;
        while v > 1
            invariant
                1 <= v <= self.spec_num_leaf_nodes(),
                self.wf(),
                h + log2_of(v as int) == log2_of(self.spec_num_leaf_nodes()),
            decreases v,
        {
            proof {
                self.bounds();
                lemma_log2_nonneg((v / 2) as int);
                lemma_log2_le(self.spec_num_leaf_nodes());
            }
            v = v / 2;
            h = h + 1;
        }
        h
    }

    /// The chunk range of the internal (fold) nodes alone.
    pub fn internal_chunk_range(&self) -> (r: Range<usize>)
        requires
            self.wf(),
        ensures
            r.start == self.spec_offset(),
            r.end == self.spec_offset() + self.spec_num_internal_nodes(),
    {
        proof {
            self.bounds();
        }
        self.offset..(self.offset + self.num_internal_nodes())
    }

    /// The chunk range of the whole subtree.
    pub fn chunk_range(&self) -> (r: Range<usize>)
        requires
            self.wf(),
        ensures
            r.start == self.spec_offset(),
            r.end == self.spec_next_node(),
    {
        proof {
            self.bounds();
            lemma_chunks_before_bounds(self.spec_lengths(), self.spec_num_leaf_nodes());
        }
        self.first_node()..self.next_node()
    }

    /// The number of chunks inside this subtree (including its leaves'
    /// chunks).
    pub fn num_chunks(&self) -> (r: usize)
        requires
            self.wf(),
        ensures
            r == self.spec_next_node() - self.spec_offset(),
    {
        proof {
            self.bounds();
            lemma_chunks_before_bounds(self.spec_lengths(), self.spec_num_leaf_nodes());
        }
        self.next_node() - self.first_node()
    }

    /// The first chunk of the first leaf slot.
    pub fn first_leaf_node(&self) -> (r: usize)
        requires
            self.wf(),
        ensures
            r == self.leaf_chunk_start(0),
    {
        proof {
            self.bounds();
        }
        self.offset + self.num_internal_nodes()
    }

    /// The chunks of the two children of `parent`: internal children sit at
    /// their node offset; once the children reach the leaf row, the chunk
    /// table places them.
    pub fn child_chunks(&self, parent: usize) -> (r: (usize, usize))
        requires
            self.wf(),
            parent < self.spec_num_internal_nodes(),
        ensures
            r == (if 2 * parent + 2 < self.spec_num_internal_nodes() {
                (
                    (self.spec_offset() + 2 * parent + 1) as usize,
                    (self.spec_offset() + 2 * parent + 2) as usize,
                )
            } else {
                (
                    self.leaf_chunk_start(2 * parent) as usize,
                    self.leaf_chunk_start(2 * parent + 1) as usize,
                )
            }),
    {
        proof {
            self.bounds();
        }
        let child_pair = children(parent);
        if child_pair.1 < self.num_internal_nodes() {
            (child_pair.0 + self.offset, child_pair.1 + self.offset)
        } else {
            let chunks = self.n_leaf_node_chunks(child_pair.1);
            (chunks[chunks.len() - 2], chunks[chunks.len() - 1])
        }
    }

    /// For every internal node: its chunk and the chunks of its two children.
    pub fn internal_parents_and_children(&self) -> (r: Vec<(usize, (usize, usize))>)
        requires
            self.wf(),
        ensures
            r@.len() == self.spec_num_internal_nodes(),
            forall|p: int|
                #![auto]
                0 <= p < r@.len() ==> r@[p] == (
                self.node_chunk(p) as usize,
                (self.node_chunk(2 * p + 1) as usize, self.node_chunk(2 * p + 2) as usize),
                ),
    {
        proof {
            self.bounds();
        }
        let num_internal = self.num_internal_nodes();
        let mut chunks: Vec<usize> = Vec::with_capacity(self.num_nodes());
        let mut internal = self.internal_node_chunks();
        chunks.append(&mut internal);
        let mut leaves = self.leaf_node_chunks();
        chunks.append(&mut leaves);
        proof {
            assert(forall|k: int|
                0 <= k < chunks@.len() ==> chunks@[k] == #[trigger] self.node_chunk(k));
        }
        let mut r: Vec<(usize, (usize, usize))> = Vec::new();
        let mut p: usize = 0;
        while p < num_internal
            invariant
                p <= num_internal,
                self.wf(),
                num_internal == self.spec_num_internal_nodes(),
                num_internal <= 0x20_0000,
                chunks@.len() == 2 * self.spec_num_leaf_nodes() - 1,
                forall|k: int| 0 <= k < chunks@.len() ==> chunks@[k] == #[trigger] self.node_chunk(
                    k,
                ),
                r@.len() == p,
                forall|q: int|
                    #![auto]
                    0 <= q < p ==> r@[q] == (
                    self.node_chunk(q) as usize,
                    (self.node_chunk(2 * q + 1) as usize, self.node_chunk(2 * q + 2) as usize),
                    ),
            decreases num_internal - p,
        {
            let child_pair = children(p);
            r.push((chunks[p], (chunks[child_pair.0], chunks[child_pair.1])));
            p = p + 1;
        }
        r
    }

    /// The chunk index of each internal node of the tree.
    pub fn internal_node_chunks(&self) -> (r: Vec<usize>)
        requires
            self.wf(),
        ensures
            r@.len() == self.spec_num_internal_nodes(),
            forall|k: int| 0 <= k < r@.len() ==> r@[k] == self.spec_offset() + k,
    {
        proof {
            self.bounds();
        }
        let num_internal = self.num_internal_nodes();
        let mut r: Vec<usize> = Vec::new();
        let mut k: usize = 0;
        while k < num_internal
            invariant
                k <= num_internal,
                self.wf(),
                num_internal == self.spec_num_internal_nodes(),
                num_internal <= 0x20_0000,
                r@.len() == k,
                forall|q: int| 0 <= q < k ==> r@[q] == self.spec_offset() + q,
            decreases num_internal - k,
        {
            r.push(self.offset + k);
            k = k + 1;
        }
        r
    }

    /// The first chunk index of each leaf slot of the tree.
    pub fn leaf_node_chunks(&self) -> (r: Vec<usize>)
        requires
            self.wf(),
        ensures
            r@.len() == self.spec_num_leaf_nodes(),
            forall|k: int| 0 <= k < r@.len() ==> r@[k] == #[trigger] self.leaf_chunk_start(k),
    {
        proof {
            self.bounds();
        }
        self.n_leaf_node_chunks(self.num_leaf_nodes())
    }

    /// The first chunk index of each of the first `n` leaf slots.
    fn n_leaf_node_chunks(&self, n: usize) -> (r: Vec<usize>)
        requires
            self.wf(),
            n <= 2 * self.spec_num_leaf_nodes(),
        ensures
            r@.len() == n,
            forall|k: int| 0 <= k < n ==> r@[k] == #[trigger] self.leaf_chunk_start(k),
    {
        proof {
            self.bounds();
        }
        let mut chunks: Vec<usize> = Vec::with_capacity(n);
        let mut chunk = self.offset + self.num_internal_nodes();
        let mut i: usize = 0;
        while i < n
            invariant
                i <= n,
                self.wf(),
                n <= 2 * self.spec_num_leaf_nodes(),
                chunk == self.leaf_chunk_start(i as int),
                chunk <= 0x5000_0000,
                chunks@.len() == i,
                forall|k: int| 0 <= k < i ==> chunks@[k] == #[trigger] self.leaf_chunk_start(k),
            decreases n - i,
        {
            proof {
                self.bounds();
                let s = self.spec_lengths();
                assert(chunks_before(s, i + 1) <= 0x1050_0000);
                assert(chunks_before(s, i + 1) == chunks_before(s, i as int) + (if i < s.len() {
                    s[i as int] as int
                } else {
                    1
                }));
            }
            chunks.push(chunk);
            if i < self.lengths.len() {
                chunk = chunk + self.lengths[i];
            } else {
                chunk = chunk + 1;
            }
            i = i + 1;
        }
        chunks
    }
}

/// The two children of logical node `parent` in the complete binary tree.
pub fn children(parent: usize) -> (r: (usize, usize))
    requires
        parent <= 0x1000_0000,
    ensures
        r.0 == 2 * parent + 1,
        r.1 == 2 * parent + 2,
{
    ((2 * parent + 1), (2 * parent + 2))
}

/// The base-two logarithm of a positive power of two (rounded down
/// otherwise).
pub open spec fn log2_of(n: int) -> int
    decreases n,
{
    if n <= 1 {
        0
    } else {
        1 + log2_of(n / 2)
    }
}

pub proof fn lemma_log2_nonneg(n: int)
    ensures
        log2_of(n) >= 0,
    decreases n,
{
    if n > 1 {
        lemma_log2_nonneg(n / 2);
    }
}

pub proof fn lemma_log2_le(n: int)
    requires
        n >= 1,
    ensures
        log2_of(n) <= n - 1,
    decreases n,
{
    if n > 1 {
        lemma_log2_le(n / 2);
    }
}

} // verus!
