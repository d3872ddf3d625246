//! A variable-length vector of booleans with bit addressing and popcount.
//!
//! Bit `i` is stored as bit `i % 8` of byte `i / 8`. Reading a bit past the
//! logical length yields `false`; writing a bit past the logical length grows
//! the storage to cover it.

use vstd::prelude::*;

verus! {

/// The value of bit `i` of the byte sequence `bytes`; bits past the stored
/// bytes read as `false`.
pub open spec fn bit_at(bytes: Seq<u8>, i: nat) -> bool {
    if i / 8 < bytes.len() {
        bytes[(i / 8) as int] & (1u8 << ((i % 8) as u8)) != 0
    } else {
        false
    }
}

/// Number of bytes needed to store `n` bits.
pub open spec fn bytes_for_bits(n: nat) -> nat {
    if n == 0 {
        0
    } else {
        (n - 1) as nat / 8 + 1
    }
}

/// Count of set bits among the low `k` bits of the byte `b`.
pub open spec fn byte_ones(b: u8, k: nat) -> nat
    decreases k,
{
    if k == 0 {
        0
    } else {
        byte_ones(b, (k - 1) as nat) + (if b & (1u8 << (((k - 1) as nat) as u8)) != 0 {
            1nat
        } else {
            0nat
        })
    }
}

/// Count of set bits in a whole byte sequence.
pub open spec fn total_ones(s: Seq<u8>) -> nat
    decreases s.len(),
{
    if s.len() == 0 {
        0
    } else {
        total_ones(s.drop_last()) + byte_ones(s.last(), 8)
    }
}

proof fn lemma_byte_ones_le(b: u8, k: nat)
    ensures
        byte_ones(b, k) <= k,
    decreases k,
{
    if k > 0 {
        lemma_byte_ones_le(b, (k - 1) as nat);
    }
}

proof fn lemma_total_ones_le(s: Seq<u8>)
    ensures
        total_ones(s) <= 8 * s.len(),
    decreases s.len(),
{
    if s.len() > 0 {
        lemma_total_ones_le(s.drop_last());
        lemma_byte_ones_le(s.last(), 8);
    }
}

#[derive(Debug, Eq)]
pub struct BooleanBitfield {
    len: usize,
    vec: Vec<u8>,
}

impl PartialEq for BooleanBitfield {
    fn eq(&self, other: &Self) -> (r: bool) {
        self.len == other.len && crate::types::bytes_eq(&self.vec, &other.vec)
    }
}

impl vstd::std_specs::cmp::PartialEqSpecImpl for BooleanBitfield {
    open spec fn obeys_eq_spec() -> bool {
        true
    }

    open spec fn eq_spec(&self, other: &Self) -> bool {
        self.spec_len() == other.spec_len() && self.bytes() == other.bytes()
    }
}

impl Clone for BooleanBitfield {
    fn clone(&self) -> (r: Self)
        ensures
            r.spec_len() == self.spec_len(),
            r.bytes() == self.bytes(),
    {
        Self { len: self.len, vec: crate::types::clone_bytes(&self.vec) }
    }
}

impl BooleanBitfield {
    /// The logical number of bits.
    pub closed spec fn spec_len(&self) -> nat {
        self.len as nat
    }

    /// The underlying little-endian byte storage.
    pub closed spec fn bytes(&self) -> Seq<u8> {
        self.vec@
    }

    /// The value of bit `i`.
    pub open spec fn bit(&self, i: nat) -> bool {
        bit_at(self.bytes(), i)
    }

    /// Storage covers exactly the logical length.
    pub open spec fn well_formed(&self) -> bool {
        self.bytes().len() == bytes_for_bits(self.spec_len())
    }

    /// An empty bitfield.
    pub fn new() -> (r: Self)
        ensures
            r.well_formed(),
            r.spec_len() == 0,
            r.bytes() == Seq::<u8>::empty(),
    {
        let r = Self { len: 0, vec: Vec::new() };
        proof {
            assert(r.bytes() =~= Seq::<u8>::empty());
        }
        r
    }

    /// An empty bitfield with storage reserved for `capacity` bytes.
    pub fn with_capacity(capacity: usize) -> (r: Self)
        ensures
            r.well_formed(),
            r.spec_len() == 0,
            r.bytes() == Seq::<u8>::empty(),
    {
        let r = Self { len: 0, vec: Vec::with_capacity(capacity) };
        proof {
            assert(r.bytes() =~= Seq::<u8>::empty());
        }
        r
    }

    /// The stored bytes in big-endian (most significant byte first) order.
    pub fn to_be_vec(&self) -> (r: Vec<u8>)
        ensures
            r@.len() == self.bytes().len(),
            forall|k: int|
                0 <= k < r@.len() ==> r@[k] == self.bytes()[self.bytes().len() - 1 - k],
    {
        let n = self.vec.len();
        let mut o: Vec<u8> = Vec::new();
        let mut i: usize = 0;
        while i < n
            invariant
                i <= n,
                n == self.bytes().len(),
                o@.len() == i,
                forall|k: int| 0 <= k < i ==> o@[k] == self.bytes()[n - 1 - k],
            decreases n - i,
        {
            o.push(self.vec[n - 1 - i]);
            i = i + 1;
        }
        o
    }

    /// The value of bit `i`; bits past the logical length read as `false`.
    pub fn get_bit(&self, i: &usize) -> (r: bool)
        ensures
            r == self.bit(*i as nat),
    {
        self.get_bit_on_byte(*i % 8, *i / 8)
    }

    fn get_bit_on_byte(&self, bit: usize, byte: usize) -> (r: bool)
        requires
            bit < 8,
        ensures
            r == (byte < self.bytes().len() && self.bytes()[byte as int] & (1u8 << (bit as u8))
                != 0),
    {
        if byte >= self.vec.len() {
            false
        } else {
            self.vec[byte] & (1u8 << (bit as u8)) != 0
        }
    }

    /// Sets bit `bit` to `to`, growing the logical length to cover it.
    pub fn set_bit(&mut self, bit: &usize, to: &bool)
        requires
            old(self).well_formed(),
            *bit < usize::MAX,
        ensures
            final(self).well_formed(),
            final(self).spec_len() == if *bit + 1 > old(self).spec_len() {
                *bit + 1
            } else {
                old(self).spec_len() as int
            },
            final(self).bit(*bit as nat) == *to,
            forall|j: nat| j != *bit as nat ==> final(self).bit(j) == old(self).bit(j),
    {
        let ghost pre = *self;
        if *bit + 1 > self.len {
            self.len = *bit + 1;
        }
        self.set_bit_on_byte(*bit % 8, *bit / 8, to);
        proof {
            lemma_set_bit_effect(pre.bytes(), self.bytes(), *bit as nat, *to);
        }
    }

    fn set_bit_on_byte(&mut self, bit: usize, byte: usize, val: &bool)
        requires
            bit < 8,
            byte < usize::MAX,
        ensures
            final(self).spec_len() == old(self).spec_len(),
            final(self).bytes().len() == if byte < old(self).bytes().len() {
                old(self).bytes().len() as int
            } else {
                byte + 1
            },
            forall|k: int|
                0 <= k < final(self).bytes().len() && k != byte ==> final(self).bytes()[k] == (
                if k < old(self).bytes().len() {
                    old(self).bytes()[k]
                } else {
                    0u8
                }),
            final(self).bytes()[byte as int] == {
                let b = if byte < old(self).bytes().len() {
                    old(self).bytes()[byte as int]
                } else {
                    0u8
                };
                if *val {
                    b | (1u8 << (bit as u8))
                } else {
                    b & !(1u8 << (bit as u8))
                }
            },
    {
        let ghost pre = self.vec@;
        if byte >= self.vec.len() {
            self.vec.resize(byte + 1, 0u8);
            proof {
                assert(forall|k: int|
                    0 <= k < self.vec@.len() ==> self.vec@[k] == (if k < pre.len() {
                        pre[k]
                    } else {
                        0u8
                    }));
            }
        }
        let b = self.vec[byte];
        let nb = if *val {
            b | (1u8 << (bit as u8))
        } else {
            b & !(1u8 << (bit as u8))
        };
        self.vec.set(byte, nb);
    }

    /// The logical number of bits.
    pub fn len(&self) -> (r: usize)
        ensures
            r == self.spec_len(),
    {
        self.len
    }

    /// The total number of bits set to true.
    pub fn num_true_bits(&self) -> (r: u64)
        requires
            self.bytes().len() < 0x1000_0000_0000_0000,
        ensures
            r == total_ones(self.bytes()),
    {
        let n = self.vec.len();
        let mut count: u64 = 0;
        let mut i: usize = 0;
        proof {
            assert(self.bytes().subrange(0, 0) =~= Seq::<u8>::empty());
        }
        while i < n
            invariant
                i <= n,
                n == self.bytes().len(),
                n < 0x1000_0000_0000_0000,
                self.bytes() == self.vec@,
                count == total_ones(self.bytes().subrange(0, i as int)),
            decreases n - i,
        {
            let b = self.vec[i];
            let mut bit: usize = 0;
            proof {
                lemma_total_ones_le(self.bytes().subrange(0, i as int));
            }
            while bit < 8
                invariant
                    bit <= 8,
                    i < n,
                    n == self.bytes().len(),
                    n < 0x1000_0000_0000_0000,
                    self.bytes() == self.vec@,
                    b == self.bytes()[i as int],
                    count == total_ones(self.bytes().subrange(0, i as int)) + byte_ones(
                        b,
                        bit as nat,
                    ),
                    total_ones(self.bytes().subrange(0, i as int)) <= 8 * i,
                decreases 8 - bit,
            {
                proof {
                    lemma_byte_ones_le(b, bit as nat);
                }
                if b & (1u8 << (bit as u8)) != 0 {
                    count = count + 1;
                }
                bit = bit + 1;
            }
            proof {
                let s = self.bytes();
                assert(s.subrange(0, i + 1).drop_last() =~= s.subrange(0, i as int));
                assert(s.subrange(0, i + 1).last() == s[i as int]);
            }
            i = i + 1;
        }
        proof {
            assert(self.bytes().subrange(0, n as int) =~= self.bytes());
        }
        count
    }
}

/// How one changed byte moves the whole bit view: bit `bit` takes the new
/// value and every other bit keeps its old one (bits in freshly allocated
/// bytes were `false` and stay `false` unless written).
proof fn lemma_set_bit_effect(pre: Seq<u8>, post: Seq<u8>, bit: nat, val: bool)
    requires
        post.len() == if bit / 8 < pre.len() {
            pre.len() as int
        } else {
            bit / 8 + 1 as int
        },
        forall|k: int|
            0 <= k < post.len() && k != bit / 8 ==> post[k] == (if k < pre.len() {
                pre[k]
            } else {
                0u8
            }),
        post[(bit / 8) as int] == {
            let b = if bit / 8 < pre.len() {
                pre[(bit / 8) as int]
            } else {
                0u8
            };
            if val {
                b | (1u8 << ((bit % 8) as u8))
            } else {
                b & !(1u8 << ((bit % 8) as u8))
            }
        },
    ensures
        bit_at(post, bit) == val,
        forall|j: nat| j != bit ==> bit_at(post, j) == bit_at(pre, j),
{
    let m = (bit % 8) as u8;
    let b = if bit / 8 < pre.len() {
        pre[(bit / 8) as int]
    } else {
        0u8
    };
    assert(m < 8);
    assert(m < 8 ==> (b | (1u8 << m)) & (1u8 << m) != 0) by (bit_vector);
    assert(m < 8 ==> (b & !(1u8 << m)) & (1u8 << m) == 0) by (bit_vector);
    assert forall|j: nat| j != bit implies bit_at(post, j) == bit_at(pre, j) by {
        if j / 8 == bit / 8 {
            let jm = (j % 8) as u8;
            assert(jm != m);
            if val {
                assert(forall|x: u8, p: u8, q: u8|
                    p < 8 && q < 8 && p != q ==> ((x | (1u8 << p)) & (1u8 << q)) == (x & (1u8
                        << q))) by (bit_vector);
            } else {
                assert(forall|x: u8, p: u8, q: u8|
                    p < 8 && q < 8 && p != q ==> ((x & !(1u8 << p)) & (1u8 << q)) == (x & (1u8
                        << q))) by (bit_vector);
            }
            if bit / 8 >= pre.len() {
                assert(b == 0u8);
                assert(0u8 & (1u8 << jm) == 0) by (bit_vector);
            }
        } else if j / 8 < post.len() && j / 8 >= pre.len() {
            assert(post[(j / 8) as int] == 0u8);
            let jm = (j % 8) as u8;
            assert(0u8 & (1u8 << jm) == 0) by (bit_vector);
        }
    }
}

} // verus!
