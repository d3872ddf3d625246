//! Fixed-width byte-string primitives of the data model: hashes, public keys
//! and signatures, modelled as plain byte vectors of a fixed width.

use vstd::prelude::*;

verus! {

pub const HASH_SIZE: usize = 32;

pub const PUBLIC_KEY_SIZE: usize = 48;

pub const SECRET_KEY_SIZE: usize = 32;

pub const SIGNATURE_SIZE: usize = 96;

/// The 32-byte string whose first eight bytes are `v` little-endian and
/// whose remaining bytes are zero.
pub open spec fn spec_low_u64_le(v: u64) -> Seq<u8> {
    vstd::bytes::spec_u64_to_le_bytes(v) + Seq::new(24, |_i: int| 0u8)
}

/// Errors of the cryptographic edge: a byte string that does not parse as a
/// key or signature, or a signature that does not verify.
#[derive(Debug, PartialEq, Eq, Clone, Copy)]
pub enum CryptoError {
    DecodeError,
    VerificationFailed,
}

/// Compares two byte vectors by contents.
pub fn bytes_eq(a: &Vec<u8>, b: &Vec<u8>) -> (r: bool)
    ensures
        r == (a@ == b@),
{
    if a.len() != b.len() {
        return false;
    }
    let n = a.len();
    let mut i: usize = 0;
    while i < n
        invariant
            i <= n,
            n == a@.len(),
            n == b@.len(),
            forall|k: int| 0 <= k < i ==> a@[k] == b@[k],
        decreases n - i,
    {
        if a[i] != b[i] {
            return false;
        }
        i = i + 1;
    }
    proof {
        assert(a@ =~= b@);
    }
    true
}

/// A vector of `n` copies of the byte `b`.
pub fn repeat_byte(b: u8, n: usize) -> (r: Vec<u8>)
    ensures
        r@.len() == n,
        forall|k: int| 0 <= k < n ==> r@[k] == b,
{
    let mut r: Vec<u8> = Vec::new();
    let mut i: usize = 0;
    while i < n
        invariant
            i <= n,
            r@.len() == i,
            forall|k: int| 0 <= k < i ==> r@[k] == b,
        decreases n - i,
    {
        r.push(b);
        i = i + 1;
    }
    r
}

/// A 32-byte hash value.
#[derive(Debug, Eq)]
pub struct Hash256 {
    bytes: Vec<u8>,
}

impl View for Hash256 {
    type V = Seq<u8>;

    closed spec fn view(&self) -> Seq<u8> {
        self.bytes@
    }
}

impl Hash256 {
    pub open spec fn wf(&self) -> bool {
        self@.len() == HASH_SIZE
    }

    /// Wraps 32 bytes as a hash value.
    pub fn from_vec(bytes: Vec<u8>) -> (r: Self)
        requires
            bytes@.len() == HASH_SIZE,
        ensures
            r@ == bytes@,
            r.wf(),
    {
        Self { bytes }
    }

    /// The all-zero hash.
    pub fn zero() -> (r: Self)
        ensures
            r.wf(),
            forall|k: int| 0 <= k < HASH_SIZE ==> r@[k] == 0u8,
    {
        Self { bytes: repeat_byte(0, HASH_SIZE) }
    }

    /// A hash whose first eight bytes are `v` in little-endian order and
    /// whose remaining bytes are zero.
    pub fn from_low_u64_le(v: u64) -> (r: Self)
        ensures
            r.wf(),
            r@ == spec_low_u64_le(v),
            r@.subrange(0, 8) == vstd::bytes::spec_u64_to_le_bytes(v),
            forall|k: int| 8 <= k < HASH_SIZE ==> r@[k] == 0u8,
    {
        let mut bytes = vstd::bytes::u64_to_le_bytes(v);
        let mut i: usize = 8;
        while i < HASH_SIZE
            invariant
                8 <= i <= HASH_SIZE,
                bytes@.len() == i,
                bytes@.subrange(0, 8) == vstd::bytes::spec_u64_to_le_bytes(v),
                forall|k: int| 8 <= k < i ==> bytes@[k] == 0u8,
        decreases HASH_SIZE - i,
        {
            bytes.push(0);
            proof {
                assert(bytes@.subrange(0, 8) =~= vstd::bytes::spec_u64_to_le_bytes(v));
            }
            i = i + 1;
        }
        proof {
            vstd::bytes::lemma_auto_spec_u64_to_from_le_bytes();
            assert(bytes@ =~= spec_low_u64_le(v));
        }
        Self { bytes }
    }

    /// A copy of the hash bytes.
    pub fn to_vec(&self) -> (r: Vec<u8>)
        ensures
            r@ == self@,
    {
        clone_bytes(&self.bytes)
    }
}

impl PartialEq for Hash256 {
    fn eq(&self, other: &Self) -> (r: bool) {
        bytes_eq(&self.bytes, &other.bytes)
    }
}

impl vstd::std_specs::cmp::PartialEqSpecImpl for Hash256 {
    open spec fn obeys_eq_spec() -> bool {
        true
    }

    open spec fn eq_spec(&self, other: &Self) -> bool {
        self@ == other@
    }
}

impl Clone for Hash256 {
    fn clone(&self) -> (r: Self)
        ensures
            r@ == self@,
    {
        Self { bytes: clone_bytes(&self.bytes) }
    }
}

/// A copy of the byte range `lo .. hi` of a vector.
pub fn bytes_range(v: &Vec<u8>, lo: usize, hi: usize) -> (r: Vec<u8>)
    requires
        lo <= hi <= v@.len(),
    ensures
        r@ == v@.subrange(lo as int, hi as int),
{
    let sub = vstd::slice::slice_subrange(v.as_slice(), lo, hi);
    vstd::slice::slice_to_vec(sub)
}

/// Concatenation of a sequence of byte strings, in order.
pub open spec fn flatten_bytes(s: Seq<Seq<u8>>) -> Seq<u8>
    decreases s.len(),
{
    if s.len() == 0 {
        Seq::<u8>::empty()
    } else {
        flatten_bytes(s.drop_last()) + s.last()
    }
}

/// A copy of a vector of plain values with the same contents.
pub fn clone_copy_vec<T: Copy>(v: &Vec<T>) -> (r: Vec<T>)
    ensures
        r@ == v@,
{
    let n = v.len();
    let mut r: Vec<T> = Vec::new();
    let mut i: usize = 0;
    while i < n
        invariant
            i <= n,
            n == v@.len(),
            r@.len() == i,
            forall|k: int| 0 <= k < i ==> r@[k] == v@[k],
        decreases n - i,
    {
        r.push(v[i]);
        i = i + 1;
    }
    proof {
        assert(r@ =~= v@);
    }
    r
}

/// A copy of a byte vector with the same contents.
pub fn clone_bytes(v: &Vec<u8>) -> (r: Vec<u8>)
    ensures
        r@ == v@,
{
    let n = v.len();
    let mut r: Vec<u8> = Vec::new();
    let mut i: usize = 0;
    while i < n
        invariant
            i <= n,
            n == v@.len(),
            r@.len() == i,
            forall|k: int| 0 <= k < i ==> r@[k] == v@[k],
        decreases n - i,
    {
        r.push(v[i]);
        i = i + 1;
    }
    proof {
        assert(r@ =~= v@);
    }
    r
}

/// A BLS public key, modelled as its fixed-width byte encoding.
#[derive(Debug, Eq)]
pub struct PublicKey {
    bytes: Vec<u8>,
}

impl View for PublicKey {
    type V = Seq<u8>;

    closed spec fn view(&self) -> Seq<u8> {
        self.bytes@
    }
}

impl PublicKey {
    pub open spec fn wf(&self) -> bool {
        self@.len() == PUBLIC_KEY_SIZE
    }

    /// Parses a public key from raw bytes; exactly the byte strings of the
    /// fixed key width are accepted.
    pub fn from_bytes(bytes: &Vec<u8>) -> (r: Result<Self, CryptoError>)
        ensures
            bytes@.len() == PUBLIC_KEY_SIZE <==> r is Ok,
            r matches Ok(k) ==> k@ == bytes@ && k.wf(),
            r matches Err(e) ==> e == CryptoError::DecodeError,
    {
        if bytes.len() == PUBLIC_KEY_SIZE {
            Ok(Self { bytes: clone_bytes(bytes) })
        } else {
            Err(CryptoError::DecodeError)
        }
    }

    /// The raw byte encoding of the key.
    pub fn as_bytes(&self) -> (r: Vec<u8>)
        ensures
            r@ == self@,
    {
        clone_bytes(&self.bytes)
    }
}

impl PartialEq for PublicKey {
    fn eq(&self, other: &Self) -> (r: bool) {
        bytes_eq(&self.bytes, &other.bytes)
    }
}

impl vstd::std_specs::cmp::PartialEqSpecImpl for PublicKey {
    open spec fn obeys_eq_spec() -> bool {
        true
    }

    open spec fn eq_spec(&self, other: &Self) -> bool {
        self@ == other@
    }
}

impl Clone for PublicKey {
    fn clone(&self) -> (r: Self)
        ensures
            r@ == self@,
    {
        Self { bytes: clone_bytes(&self.bytes) }
    }
}

/// A BLS secret key, modelled as its fixed-width byte encoding.
#[derive(Debug, Eq)]
pub struct SecretKey {
    bytes: Vec<u8>,
}

impl View for SecretKey {
    type V = Seq<u8>;

    closed spec fn view(&self) -> Seq<u8> {
        self.bytes@
    }
}

impl SecretKey {
    pub open spec fn wf(&self) -> bool {
        self@.len() == SECRET_KEY_SIZE
    }

    pub fn from_vec(bytes: Vec<u8>) -> (r: Self)
        requires
            bytes@.len() == SECRET_KEY_SIZE,
        ensures
            r@ == bytes@,
            r.wf(),
    {
        Self { bytes }
    }
}

impl PartialEq for SecretKey {
    fn eq(&self, other: &Self) -> (r: bool) {
        bytes_eq(&self.bytes, &other.bytes)
    }
}

impl vstd::std_specs::cmp::PartialEqSpecImpl for SecretKey {
    open spec fn obeys_eq_spec() -> bool {
        true
    }

    open spec fn eq_spec(&self, other: &Self) -> bool {
        self@ == other@
    }
}

impl Clone for SecretKey {
    fn clone(&self) -> (r: Self)
        ensures
            r@ == self@,
    {
        Self { bytes: clone_bytes(&self.bytes) }
    }
}

/// A key pair of the abstract signer.
#[derive(Debug, PartialEq, Eq)]
pub struct Keypair {
    pub pk: PublicKey,
    pub sk: SecretKey,
}

impl Keypair {
    pub open spec fn wf(&self) -> bool {
        self.pk.wf() && self.sk.wf()
    }
}

impl Clone for Keypair {
    fn clone(&self) -> (r: Self)
        ensures
            r.pk@ == self.pk@,
            r.sk@ == self.sk@,
    {
        Self { pk: self.pk.clone(), sk: self.sk.clone() }
    }
}

/// A BLS signature, modelled as its fixed-width byte encoding.
#[derive(Debug, Eq)]
pub struct Signature {
    bytes: Vec<u8>,
}

impl View for Signature {
    type V = Seq<u8>;

    closed spec fn view(&self) -> Seq<u8> {
        self.bytes@
    }
}

impl Signature {
    pub open spec fn wf(&self) -> bool {
        self@.len() == SIGNATURE_SIZE
    }

    pub fn from_vec(bytes: Vec<u8>) -> (r: Self)
        requires
            bytes@.len() == SIGNATURE_SIZE,
        ensures
            r@ == bytes@,
            r.wf(),
    {
        Self { bytes }
    }

    /// The all-zero signature.
    pub fn zero() -> (r: Self)
        ensures
            r.wf(),
            forall|k: int| 0 <= k < SIGNATURE_SIZE ==> r@[k] == 0u8,
    {
        Self { bytes: repeat_byte(0, SIGNATURE_SIZE) }
    }

    pub fn as_bytes(&self) -> (r: Vec<u8>)
        ensures
            r@ == self@,
    {
        clone_bytes(&self.bytes)
    }
}

impl PartialEq for Signature {
    fn eq(&self, other: &Self) -> (r: bool) {
        bytes_eq(&self.bytes, &other.bytes)
    }
}

impl vstd::std_specs::cmp::PartialEqSpecImpl for Signature {
    open spec fn obeys_eq_spec() -> bool {
        true
    }

    open spec fn eq_spec(&self, other: &Self) -> bool {
        self@ == other@
    }
}

impl Clone for Signature {
    fn clone(&self) -> (r: Self)
        ensures
            r@ == self@,
    {
        Self { bytes: clone_bytes(&self.bytes) }
    }
}

/// An aggregate of individual signatures, kept as the ordered list of the
/// signatures added so far.
#[derive(Debug, PartialEq, Eq)]
pub struct AggregateSignature {
    sigs: Vec<Signature>,
}

impl AggregateSignature {
    /// The signatures aggregated so far, as byte strings, in order of addition.
    pub closed spec fn parts(&self) -> Seq<Seq<u8>> {
        self.sigs@.map(|_i: int, s: Signature| s@)
    }

    /// An empty aggregate.
    pub fn new() -> (r: Self)
        ensures
            r.parts() == Seq::<Seq<u8>>::empty(),
    {
        let r = Self { sigs: Vec::new() };
        proof {
            assert(r.parts() =~= Seq::<Seq<u8>>::empty());
        }
        r
    }

    /// Adds one signature to the aggregate.
    pub fn add(&mut self, sig: &Signature)
        ensures
            final(self).parts() == old(self).parts().push(sig@),
    {
        self.sigs.push(sig.clone());
        proof {
            assert(self.parts() =~= old(self).parts().push(sig@));
        }
    }

    /// The number of signatures added.
    pub fn len(&self) -> (r: usize)
        ensures
            r == self.parts().len(),
    {
        self.sigs.len()
    }

    /// The concatenation of the aggregated signatures' bytes, in order.
    pub fn concat_bytes(&self) -> (r: Vec<u8>)
        ensures
            r@ == flatten_bytes(self.parts()),
    {
        let n = self.sigs.len();
        let mut r: Vec<u8> = Vec::new();
        let mut i: usize = 0;
        proof {
            assert(self.parts().subrange(0, 0) =~= Seq::<Seq<u8>>::empty());
            assert(r@ =~= flatten_bytes(self.parts().subrange(0, 0)));
        }
        while i < n
            invariant
                i <= n,
                n == self.parts().len(),
                n == self.sigs@.len(),
                self.parts() == self.sigs@.map(|_i: int, s: Signature| s@),
                r@ == flatten_bytes(self.parts().subrange(0, i as int)),
            decreases n - i,
        {
            let mut b = self.sigs[i].as_bytes();
            r.append(&mut b);
            proof {
                assert(self.parts().subrange(0, i + 1).drop_last() =~= self.parts().subrange(
                    0,
                    i as int,
                ));
                assert(self.parts().subrange(0, i + 1).last() == self.parts()[i as int]);
            }
            i = i + 1;
        }
        proof {
            assert(self.parts().subrange(0, n as int) =~= self.parts());
        }
        r
    }
}

impl Clone for AggregateSignature {
    fn clone(&self) -> (r: Self)
        ensures
            r.parts() == self.parts(),
    {
        let n = self.sigs.len();
        let mut sigs: Vec<Signature> = Vec::new();
        let mut i: usize = 0;
        while i < n
            invariant
                i <= n,
                n == self.sigs@.len(),
                sigs@.len() == i,
                forall|k: int| 0 <= k < i ==> sigs@[k]@ == self.sigs@[k]@,
            decreases n - i,
        {
            sigs.push(self.sigs[i].clone());
            i = i + 1;
        }
        let r = Self { sigs };
        proof {
            assert(r.parts() =~= self.parts());
        }
        r
    }
}

} // verus!
