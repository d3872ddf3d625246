//! Canonical serializer: a deterministic, append-only encoding of integers,
//! fixed byte arrays, variable lists and records.
//!
//! Integers are little-endian fixed width; a fixed byte array of length N is
//! its N raw bytes; a variable list is a 4-byte little-endian byte-length
//! followed by the concatenated encodings of its elements; a record is its
//! fields in declared order with no separators.

use crate::types::{clone_bytes, Hash256, PublicKey, Signature};
use vstd::prelude::*;

verus! {

pub const LENGTH_BYTES: usize = 4;

/// Errors of the decode paths. Decoding is total: every input yields a value
/// or one of these.
#[derive(Debug, PartialEq, Eq, Clone, Copy)]
pub enum DecodeError {
    OutOfBounds,
    TooShort,
    TooLong,
    InvalidBool,
    ListTooLong,
    UnexpectedTrailingBytes,
}

/// Encoding of a `u16`: two little-endian bytes.
pub open spec fn enc_u16(v: u16) -> Seq<u8> {
    vstd::bytes::spec_u16_to_le_bytes(v)
}

/// Encoding of a `u32`: four little-endian bytes.
pub open spec fn enc_u32(v: u32) -> Seq<u8> {
    vstd::bytes::spec_u32_to_le_bytes(v)
}

/// Encoding of a `u64`: eight little-endian bytes.
pub open spec fn enc_u64(v: u64) -> Seq<u8> {
    vstd::bytes::spec_u64_to_le_bytes(v)
}

/// Encoding of a `bool`: one byte, 0 or 1.
pub open spec fn enc_bool(b: bool) -> Seq<u8> {
    seq![if b { 1u8 } else { 0u8 }]
}

/// A type with exactly one canonical encoding.
pub trait Encodable {
    /// The canonical encoding of this value.
    spec fn ssz_bytes(&self) -> Seq<u8>;

    /// Whether every variable list inside the value fits its 4-byte
    /// byte-length prefix.
    spec fn enc_fits(&self) -> bool;

    /// Appends the canonical encoding of `self` to the stream.
    fn ssz_append(&self, s: &mut SszStream)
        requires
            self.enc_fits(),
        ensures
            final(s)@ == old(s)@ + self.ssz_bytes(),
    ;
}

/// Concatenation of the encodings of `items`, in order.
pub open spec fn concat_enc<T: Encodable>(items: Seq<T>) -> Seq<u8>
    decreases items.len(),
{
    if items.len() == 0 {
        Seq::<u8>::empty()
    } else {
        concat_enc(items.drop_last()) + items.last().ssz_bytes()
    }
}

/// Encoding of a variable list: 4-byte little-endian byte-length, then the
/// concatenated element encodings.
pub open spec fn enc_list<T: Encodable>(items: Seq<T>) -> Seq<u8> {
    enc_u32(concat_enc(items).len() as u32) + concat_enc(items)
}

/// An append-only encoder producing a deterministic byte string.
pub struct SszStream {
    buffer: Vec<u8>,
}

impl View for SszStream {
    type V = Seq<u8>;

    closed spec fn view(&self) -> Seq<u8> {
        self.buffer@
    }
}

impl SszStream {
    /// An empty stream.
    pub fn new() -> (r: Self)
        ensures
            r@ == Seq::<u8>::empty(),
    {
        let r = Self { buffer: Vec::new() };
        proof {
            assert(r@ =~= Seq::<u8>::empty());
        }
        r
    }

    /// Appends the encoding of one value.
    pub fn append<T: Encodable>(&mut self, value: &T)
        requires
            value.enc_fits(),
        ensures
            final(self)@ == old(self)@ + value.ssz_bytes(),
    {
        value.ssz_append(self);
    }

    /// Appends raw bytes (the encoding of a fixed byte array).
    pub fn append_raw(&mut self, bytes: &Vec<u8>)
        ensures
            final(self)@ == old(self)@ + bytes@,
    {
        let mut b = clone_bytes(bytes);
        self.buffer.append(&mut b);
    }

    /// Appends one byte.
    pub fn append_u8(&mut self, v: u8)
        ensures
            final(self)@ == old(self)@ + seq![v],
    {
        self.buffer.push(v);
        proof {
            assert(self@ =~= old(self)@ + seq![v]);
        }
    }

    /// Appends a `u16`, little-endian.
    pub fn append_u16(&mut self, v: u16)
        ensures
            final(self)@ == old(self)@ + enc_u16(v),
    {
        let mut b = vstd::bytes::u16_to_le_bytes(v);
        self.buffer.append(&mut b);
    }

    /// Appends a `u32`, little-endian.
    pub fn append_u32(&mut self, v: u32)
        ensures
            final(self)@ == old(self)@ + enc_u32(v),
    {
        let mut b = vstd::bytes::u32_to_le_bytes(v);
        self.buffer.append(&mut b);
    }

    /// Appends a `u64`, little-endian.
    pub fn append_u64(&mut self, v: u64)
        ensures
            final(self)@ == old(self)@ + enc_u64(v),
    {
        let mut b = vstd::bytes::u64_to_le_bytes(v);
        self.buffer.append(&mut b);
    }

    /// Appends a `bool` as one byte, 0 or 1.
    pub fn append_bool(&mut self, v: bool)
        ensures
            final(self)@ == old(self)@ + enc_bool(v),
    {
        self.buffer.push(if v {
            1
        } else {
            0
        });
        proof {
            assert(self@ =~= old(self)@ + enc_bool(v));
        }
    }

    /// Appends a variable list: byte-length prefix, then the elements.
    pub fn append_vec<T: Encodable>(&mut self, items: &Vec<T>)
        requires
            concat_enc(items@).len() < 0x1_0000_0000,
            forall|k: int| 0 <= k < items@.len() ==> #[trigger] items@[k].enc_fits(),
        ensures
            final(self)@ == old(self)@ + enc_list(items@),
    {
        let mut payload = SszStream::new();
        let n = items.len();
        let mut i: usize = 0;
        proof {
            assert(items@.subrange(0, 0) =~= Seq::<T>::empty());
        }
        while i < n
            invariant
                i <= n,
                n == items@.len(),
                payload@ == concat_enc(items@.subrange(0, i as int)),
                concat_enc(items@).len() < 0x1_0000_0000,
                forall|k: int| 0 <= k < items@.len() ==> #[trigger] items@[k].enc_fits(),
            decreases n - i,
        {
            items[i].ssz_append(&mut payload);
            proof {
                assert(items@.subrange(0, i + 1).drop_last() =~= items@.subrange(0, i as int));
                assert(items@.subrange(0, i + 1).last() == items@[i as int]);
            }
            i = i + 1;
        }
        proof {
            assert(items@.subrange(0, n as int) =~= items@);
            lemma_concat_enc_len_bound(payload@);
        }
        self.append_u32(payload.buffer.len() as u32);
        self.buffer.append(&mut payload.buffer);
        proof {
            assert(self@ =~= old(self)@ + enc_list(items@));
        }
    }

    /// The encoded bytes accumulated so far.
    pub fn drain(self) -> (r: Vec<u8>)
        ensures
            r@ == self@,
    {
        self.buffer
    }
}

proof fn lemma_concat_enc_len_bound(s: Seq<u8>)
    requires
        s.len() < 0x1_0000_0000,
    ensures
        (s.len() as u32) as int == s.len() as int,
{
}

/// Encodes a value that supports the canonical encoding.
pub fn ssz_encode<T: Encodable>(val: &T) -> (r: Vec<u8>)
    requires
        val.enc_fits(),
    ensures
        r@ == val.ssz_bytes(),
{
    let mut ssz_stream = SszStream::new();
    ssz_stream.append(val);
    ssz_stream.drain()
}

impl Encodable for u16 {
    open spec fn ssz_bytes(&self) -> Seq<u8> {
        enc_u16(*self)
    }

    open spec fn enc_fits(&self) -> bool {
        true
    }

    fn ssz_append(&self, s: &mut SszStream) {
        s.append_u16(*self);
    }
}

impl Encodable for u32 {
    open spec fn ssz_bytes(&self) -> Seq<u8> {
        enc_u32(*self)
    }

    open spec fn enc_fits(&self) -> bool {
        true
    }

    fn ssz_append(&self, s: &mut SszStream) {
        s.append_u32(*self);
    }
}

impl Encodable for u64 {
    open spec fn ssz_bytes(&self) -> Seq<u8> {
        enc_u64(*self)
    }

    open spec fn enc_fits(&self) -> bool {
        true
    }

    fn ssz_append(&self, s: &mut SszStream) {
        s.append_u64(*self);
    }
}

impl Encodable for bool {
    open spec fn ssz_bytes(&self) -> Seq<u8> {
        enc_bool(*self)
    }

    open spec fn enc_fits(&self) -> bool {
        true
    }

    fn ssz_append(&self, s: &mut SszStream) {
        s.append_bool(*self);
    }
}

impl Encodable for Hash256 {
    /// A fixed 32-byte array encodes as its raw bytes.
    open spec fn ssz_bytes(&self) -> Seq<u8> {
        self@
    }

    open spec fn enc_fits(&self) -> bool {
        true
    }

    fn ssz_append(&self, s: &mut SszStream) {
        let b = self.to_vec();
        s.append_raw(&b);
    }
}

impl Encodable for PublicKey {
    /// A fixed-width public key encodes as its raw bytes.
    open spec fn ssz_bytes(&self) -> Seq<u8> {
        self@
    }

    open spec fn enc_fits(&self) -> bool {
        true
    }

    fn ssz_append(&self, s: &mut SszStream) {
        let b = self.as_bytes();
        s.append_raw(&b);
    }
}

impl Encodable for Signature {
    /// A fixed-width signature encodes as its raw bytes.
    open spec fn ssz_bytes(&self) -> Seq<u8> {
        self@
    }

    open spec fn enc_fits(&self) -> bool {
        true
    }

    fn ssz_append(&self, s: &mut SszStream) {
        let b = self.as_bytes();
        s.append_raw(&b);
    }
}

/// Decodes a `u16` at `index`; succeeds exactly when two bytes are available.
pub fn decode_u16(bytes: &Vec<u8>, index: usize) -> (r: Result<(u16, usize), DecodeError>)
    ensures
        r matches Ok((v, j)) ==> index + 2 <= bytes@.len() && j == index + 2 && enc_u16(v)
            == bytes@.subrange(index as int, index + 2),
        r is Err ==> index + 2 > bytes@.len(),
        r matches Err(e) ==> e == DecodeError::TooShort,
{
    if bytes.len() < 2 || index > bytes.len() - 2 {
        return Err(DecodeError::TooShort);
    }
    let sub = vstd::slice::slice_subrange(bytes.as_slice(), index, index + 2);
    let v = vstd::bytes::u16_from_le_bytes(sub);
    proof {
        vstd::bytes::lemma_auto_spec_u16_to_from_le_bytes();
    }
    Ok((v, index + 2))
}

/// Decodes a `u32` at `index`; succeeds exactly when four bytes are available.
pub fn decode_u32(bytes: &Vec<u8>, index: usize) -> (r: Result<(u32, usize), DecodeError>)
    ensures
        r matches Ok((v, j)) ==> index + 4 <= bytes@.len() && j == index + 4 && enc_u32(v)
            == bytes@.subrange(index as int, index + 4),
        r is Err ==> index + 4 > bytes@.len(),
        r matches Err(e) ==> e == DecodeError::TooShort,
{
    if bytes.len() < 4 || index > bytes.len() - 4 {
        return Err(DecodeError::TooShort);
    }
    let sub = vstd::slice::slice_subrange(bytes.as_slice(), index, index + 4);
    let v = vstd::bytes::u32_from_le_bytes(sub);
    proof {
        vstd::bytes::lemma_auto_spec_u32_to_from_le_bytes();
    }
    Ok((v, index + 4))
}

/// Decodes a `u64` at `index`; succeeds exactly when eight bytes are available.
pub fn decode_u64(bytes: &Vec<u8>, index: usize) -> (r: Result<(u64, usize), DecodeError>)
    ensures
        r matches Ok((v, j)) ==> index + 8 <= bytes@.len() && j == index + 8 && enc_u64(v)
            == bytes@.subrange(index as int, index + 8),
        r is Err ==> index + 8 > bytes@.len(),
        r matches Err(e) ==> e == DecodeError::TooShort,
{
    if bytes.len() < 8 || index > bytes.len() - 8 {
        return Err(DecodeError::TooShort);
    }
    let sub = vstd::slice::slice_subrange(bytes.as_slice(), index, index + 8);
    let v = vstd::bytes::u64_from_le_bytes(sub);
    proof {
        vstd::bytes::lemma_auto_spec_u64_to_from_le_bytes();
    }
    Ok((v, index + 8))
}

/// Decodes a `bool` at `index`: one byte, which must be 0 or 1.
pub fn decode_bool(bytes: &Vec<u8>, index: usize) -> (r: Result<(bool, usize), DecodeError>)
    ensures
        r matches Ok((v, j)) ==> index < bytes@.len() && j == index + 1 && enc_bool(v)
            == bytes@.subrange(index as int, index + 1),
        r is Err ==> index >= bytes@.len() || (bytes@[index as int] != 0 && bytes@[index as int]
            != 1),
        r matches Err(e) ==> if index >= bytes@.len() {
            e == DecodeError::TooShort
        } else {
            e == DecodeError::InvalidBool
        },
{
    if index >= bytes.len() {
        return Err(DecodeError::TooShort);
    }
    let b = bytes[index];
    if b == 0 {
        proof {
            assert(enc_bool(false) =~= bytes@.subrange(index as int, index + 1));
        }
        Ok((false, index + 1))
    } else if b == 1 {
        proof {
            assert(enc_bool(true) =~= bytes@.subrange(index as int, index + 1));
        }
        Ok((true, index + 1))
    } else {
        Err(DecodeError::InvalidBool)
    }
}

/// Decodes the 4-byte byte-length prefix of a variable list at `index`,
/// returning it as a `usize`.
pub fn decode_length(bytes: &Vec<u8>, index: usize) -> (r: Result<usize, DecodeError>)
    ensures
        r matches Ok(l) ==> index + 4 <= bytes@.len() && enc_u32(l as u32) == bytes@.subrange(
            index as int,
            index + 4,
        ) && l < 0x1_0000_0000,
        r is Err ==> index + 4 > bytes@.len(),
        r matches Err(e) ==> e == DecodeError::TooShort,
{
    match decode_u32(bytes, index) {
        Ok((v, _)) => Ok(v as usize),
        Err(e) => Err(e),
    }
}

/// Decodes a fixed 32-byte hash at `index`.
pub fn decode_hash256(bytes: &Vec<u8>, index: usize) -> (r: Result<
    (Hash256, usize),
    DecodeError,
>)
    ensures
        r matches Ok((h, j)) ==> index + 32 <= bytes@.len() && j == index + 32 && h@
            == bytes@.subrange(index as int, index + 32) && h.wf(),
        r is Err ==> index + 32 > bytes@.len(),
        r matches Err(e) ==> e == DecodeError::TooShort,
{
    if bytes.len() < 32 || index > bytes.len() - 32 {
        return Err(DecodeError::TooShort);
    }
    let sub = vstd::slice::slice_subrange(bytes.as_slice(), index, index + 32);
    let v = vstd::slice::slice_to_vec(sub);
    Ok((Hash256::from_vec(v), index + 32))
}

/// Decodes a fixed-width public key at `index`.
pub fn decode_public_key(bytes: &Vec<u8>, index: usize) -> (r: Result<
    (PublicKey, usize),
    DecodeError,
>)
    ensures
        r matches Ok((k, j)) ==> index + crate::types::PUBLIC_KEY_SIZE <= bytes@.len() && j
            == index + crate::types::PUBLIC_KEY_SIZE && k@ == bytes@.subrange(
            index as int,
            index + crate::types::PUBLIC_KEY_SIZE,
        ) && k.wf(),
        r is Err ==> index + crate::types::PUBLIC_KEY_SIZE > bytes@.len(),
        r matches Err(e) ==> e == DecodeError::TooShort,
{
    if bytes.len() < crate::types::PUBLIC_KEY_SIZE || index > bytes.len()
        - crate::types::PUBLIC_KEY_SIZE {
        return Err(DecodeError::TooShort);
    }
    let sub = vstd::slice::slice_subrange(
        bytes.as_slice(),
        index,
        index + crate::types::PUBLIC_KEY_SIZE,
    );
    let v = vstd::slice::slice_to_vec(sub);
    match PublicKey::from_bytes(&v) {
        Ok(k) => Ok((k, index + crate::types::PUBLIC_KEY_SIZE)),
        Err(_) => Err(DecodeError::TooShort),
    }
}

/// Decodes a fixed-width signature at `index`.
pub fn decode_signature(bytes: &Vec<u8>, index: usize) -> (r: Result<
    (Signature, usize),
    DecodeError,
>)
    ensures
        r matches Ok((g, j)) ==> index + crate::types::SIGNATURE_SIZE <= bytes@.len() && j
            == index + crate::types::SIGNATURE_SIZE && g@ == bytes@.subrange(
            index as int,
            index + crate::types::SIGNATURE_SIZE,
        ) && g.wf(),
        r is Err ==> index + crate::types::SIGNATURE_SIZE > bytes@.len(),
        r matches Err(e) ==> e == DecodeError::TooShort,
{
    if bytes.len() < crate::types::SIGNATURE_SIZE || index > bytes.len()
        - crate::types::SIGNATURE_SIZE {
        return Err(DecodeError::TooShort);
    }
    let sub = vstd::slice::slice_subrange(
        bytes.as_slice(),
        index,
        index + crate::types::SIGNATURE_SIZE,
    );
    let v = vstd::slice::slice_to_vec(sub);
    Ok((Signature::from_vec(v), index + crate::types::SIGNATURE_SIZE))
}

/// The byte-length a variable list declares at `index`.
pub open spec fn spec_list_len(b: Seq<u8>, i: int) -> int {
    vstd::bytes::spec_u32_from_le_bytes(b.subrange(i, i + 4)) as int
}

/// Whether a list of 32-byte hashes can be decoded at `index`: the 4-byte
/// byte-length is available, is a multiple of 32, and its window lies inside
/// the input.
pub open spec fn can_decode_hash_list(b: Seq<u8>, i: int) -> bool {
    &&& i + 4 <= b.len()
    &&& spec_list_len(b, i) % 32 == 0
    &&& i + 4 + spec_list_len(b, i) <= b.len()
}

/// Decodes a variable list of 32-byte hashes at `index`: a 4-byte byte-length
/// that must be a multiple of 32 and fully available, then the hashes.
pub fn decode_hash_list(bytes: &Vec<u8>, index: usize) -> (r: Result<
    (Vec<Hash256>, usize),
    DecodeError,
>)
    ensures
        r is Ok <==> can_decode_hash_list(bytes@, index as int),
        r matches Ok((hs, j)) ==> {
            &&& index + 4 <= bytes@.len()
            &&& 32 * hs@.len() == spec_list_len(bytes@, index as int)
            &&& j == index + 4 + 32 * hs@.len()
            &&& j <= bytes@.len()
            &&& enc_u32((32 * hs@.len()) as u32) == bytes@.subrange(index as int, index + 4)
            &&& forall|k: int|
                0 <= k < hs@.len() ==> hs@[k]@ == bytes@.subrange(
                    index + 4 + 32 * k,
                    index + 4 + 32 * k + 32,
                ) && hs@[k].wf()
        },
        r matches Err(e) ==> e == DecodeError::TooShort,
{
    let l = match decode_length(bytes, index) {
        Ok(l) => l,
        Err(e) => { return Err(e) },
    };
    proof {
        vstd::bytes::lemma_auto_spec_u32_to_from_le_bytes();
        assert(vstd::bytes::spec_u32_to_le_bytes(l as u32).len() == 4);
        assert(vstd::bytes::spec_u32_from_le_bytes(vstd::bytes::spec_u32_to_le_bytes(l as u32))
            == l as u32);
        assert(spec_list_len(bytes@, index as int) == l as int);
    }
    if l % 32 != 0 {
        return Err(DecodeError::TooShort);
    }
    if bytes.len() - (index + 4) < l {
        return Err(DecodeError::TooShort);
    }
    let count = l / 32;
    let mut hs: Vec<Hash256> = Vec::new();
    let mut i: usize = 0;
    proof {
        assert(bytes@.len() == bytes.len());
    }
    while i < count
        invariant
            i <= count,
            index + 4 + 32 * count <= bytes@.len(),
            bytes@.len() <= usize::MAX,
            l == 32 * count,
            hs@.len() == i,
            forall|k: int|
                0 <= k < i ==> hs@[k]@ == bytes@.subrange(
                    index + 4 + 32 * k,
                    index + 4 + 32 * k + 32,
                ) && hs@[k].wf(),
        decreases count - i,
    {
        match decode_hash256(bytes, index + 4 + 32 * i) {
            Ok((h, _)) => {
                hs.push(h);
            },
            Err(_) => {
                proof {
                    assert(false);
                }
            },
        }
        i = i + 1;
    }
    Ok((hs, index + 4 + l))
}

/// The concatenated encodings of 32-byte hashes: 32 bytes per hash, each
/// hash at its own offset.
pub proof fn lemma_concat_enc_hashes(hs: Seq<Hash256>)
    requires
        forall|k: int| 0 <= k < hs.len() ==> (#[trigger] hs[k]).wf(),
    ensures
        concat_enc(hs).len() == 32 * hs.len(),
        forall|k: int|
            0 <= k < hs.len() ==> #[trigger] concat_enc(hs).subrange(32 * k, 32 * k + 32)
                == hs[k]@,
    decreases hs.len(),
{
    if hs.len() > 0 {
        lemma_concat_enc_hashes(hs.drop_last());
        let pre = concat_enc(hs.drop_last());
        assert forall|k: int|
            0 <= k < hs.len() implies #[trigger] concat_enc(hs).subrange(32 * k, 32 * k + 32)
            == hs[k]@ by {
            if k < hs.len() - 1 {
                assert(hs.drop_last()[k] == hs[k]);
                assert(concat_enc(hs).subrange(32 * k, 32 * k + 32) =~= pre.subrange(
                    32 * k,
                    32 * k + 32,
                ));
            } else {
                assert(concat_enc(hs).subrange(32 * k, 32 * k + 32) =~= hs.last().ssz_bytes());
            }
        }
    }
}

} // verus!
