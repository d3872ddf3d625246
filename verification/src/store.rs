//! Persistent index-to-public-key mapping over an abstract key/value store.
//!
//! Keys follow the schema `"pubkey"` concatenated with the big-endian eight
//! byte validator index; values are the raw public key bytes.

use crate::types::{bytes_eq, clone_bytes, PublicKey, PUBLIC_KEY_SIZE};
use vstd::bytes::spec_u64_to_le_bytes;
use vstd::prelude::*;

verus! {

/// An error reported by a storage backend.
#[derive(Debug, PartialEq, Eq)]
pub struct DBError {
    pub message: String,
}

/// A key/value store with byte keys and byte values: one logical column.
/// The store behaves as a map from key bytes to value bytes; a backend may
/// fail any operation with its own error, but a reported success is real.
pub trait ClientDB {
    /// The current contents of the store.
    spec fn db_view(&self) -> Map<Seq<u8>, Seq<u8>>;

    /// Looks a key up.
    fn get(&self, key: &Vec<u8>) -> (r: Result<Option<Vec<u8>>, DBError>)
        ensures
            r matches Ok(Some(v)) ==> self.db_view().contains_key(key@) && v@
                == self.db_view()[key@],
            r matches Ok(None) ==> !self.db_view().contains_key(key@),
    ;

    /// Stores a value under a key, replacing any previous value.
    fn put(&mut self, key: &Vec<u8>, val: &Vec<u8>) -> (r: Result<(), DBError>)
        ensures
            r is Ok ==> final(self).db_view() == old(self).db_view().insert(key@, val@),
            r is Err ==> final(self).db_view() == old(self).db_view(),
    ;
}

/// The value stored under `key` in an append-ordered entry list: the value
/// of the latest entry with that key.
pub open spec fn entries_lookup(s: Seq<(Vec<u8>, Vec<u8>)>, key: Seq<u8>) -> Option<Seq<u8>>
    decreases s.len(),
{
    if s.len() == 0 {
        None
    } else if s.last().0@ == key {
        Some(s.last().1@)
    } else {
        entries_lookup(s.drop_last(), key)
    }
}

/// The map an append-ordered entry list denotes.
pub open spec fn entries_map(s: Seq<(Vec<u8>, Vec<u8>)>) -> Map<Seq<u8>, Seq<u8>>
    decreases s.len(),
{
    if s.len() == 0 {
        Map::<Seq<u8>, Seq<u8>>::empty()
    } else {
        entries_map(s.drop_last()).insert(s.last().0@, s.last().1@)
    }
}

pub proof fn lemma_entries_map_lookup(s: Seq<(Vec<u8>, Vec<u8>)>, key: Seq<u8>)
    ensures
        entries_map(s).contains_key(key) <==> entries_lookup(s, key) is Some,
        entries_lookup(s, key) matches Some(v) ==> entries_map(s).contains_key(key)
            && entries_map(s)[key] == v,
    decreases s.len(),
{
    if s.len() > 0 {
        lemma_entries_map_lookup(s.drop_last(), key);
    }
}

/// An in-memory store: an append-ordered entry list, later entries
/// overriding earlier ones.
#[derive(Debug, PartialEq, Eq)]
pub struct MemoryDB {
    entries: Vec<(Vec<u8>, Vec<u8>)>,
}

impl MemoryDB {
    /// An empty store.
    pub fn open() -> (r: Self)
        ensures
            r.db_view() == Map::<Seq<u8>, Seq<u8>>::empty(),
    {
        let r = MemoryDB { entries: Vec::new() };
        proof {
            assert(r.entries@ =~= Seq::<(Vec<u8>, Vec<u8>)>::empty());
        }
        r
    }
}

impl ClientDB for MemoryDB {
    closed spec fn db_view(&self) -> Map<Seq<u8>, Seq<u8>> {
        entries_map(self.entries@)
    }

    fn get(&self, key: &Vec<u8>) -> (r: Result<Option<Vec<u8>>, DBError>) {
        let n = self.entries.len();
        let mut i: usize = n;
        proof {
            assert(self.entries@.subrange(0, n as int) =~= self.entries@);
        }
        while i > 0
            invariant
                i <= n,
                n == self.entries@.len(),
                entries_lookup(self.entries@, key@) == entries_lookup(
                    self.entries@.subrange(0, i as int),
                    key@,
                ),
            decreases i,
        {
            i = i - 1;
            if bytes_eq(&self.entries[i].0, key) {
                let v = clone_bytes(&self.entries[i].1);
                proof {
                    assert(self.entries@.subrange(0, i + 1).last() == self.entries@[i as int]);
                    lemma_entries_map_lookup(self.entries@, key@);
                }
                return Ok(Some(v));
            }
            proof {
                assert(self.entries@.subrange(0, i + 1).last() == self.entries@[i as int]);
                assert(self.entries@.subrange(0, i + 1).drop_last() =~= self.entries@.subrange(
                    0,
                    i as int,
                ));
            }
        }
        proof {
            assert(self.entries@.subrange(0, 0) =~= Seq::<(Vec<u8>, Vec<u8>)>::empty());
            lemma_entries_map_lookup(self.entries@, key@);
        }
        Ok(None)
    }

    fn put(&mut self, key: &Vec<u8>, val: &Vec<u8>) -> (r: Result<(), DBError>) {
        let ghost pre = self.entries@;
        self.entries.push((clone_bytes(key), clone_bytes(val)));
        proof {
            assert(self.entries@.drop_last() =~= pre);
        }
        Ok(())
    }
}

#[derive(Debug, PartialEq, Eq)]
pub enum ValidatorStoreError {
    DBError(String),
    DecodeError,
}

impl From<DBError> for ValidatorStoreError {
    fn from(error: DBError) -> (r: Self) {
        ValidatorStoreError::DBError(error.message)
    }
}

impl vstd::std_specs::convert::FromSpecImpl<DBError> for ValidatorStoreError {
    open spec fn obeys_from_spec() -> bool {
        true
    }

    open spec fn from_spec(error: DBError) -> Self {
        ValidatorStoreError::DBError(error.message)
    }
}

/// The key-schema namespaces the store serves.
#[derive(Debug, PartialEq, Eq, Structural, Clone, Copy)]
pub enum KeyPrefixes {
    PublicKey,
}

/// The bytes of the string `"pubkey"`.
pub open spec fn pubkey_prefix() -> Seq<u8> {
    seq![112u8, 117u8, 98u8, 107u8, 101u8, 121u8]
}

/// The big-endian eight-byte encoding of `v`.
pub open spec fn spec_u64_to_be_bytes(v: u64) -> Seq<u8> {
    spec_u64_to_le_bytes(v).reverse()
}

/// The store key of validator `index`: the prefix, then the index big-endian.
pub open spec fn db_key_for_index(index: u64) -> Seq<u8> {
    pubkey_prefix() + spec_u64_to_be_bytes(index)
}

/// Distinct validator indices use distinct store keys.
pub proof fn lemma_db_key_injective(i: u64, j: u64)
    ensures
        db_key_for_index(i) == db_key_for_index(j) ==> i == j,
{
    vstd::bytes::lemma_auto_spec_u64_to_from_le_bytes();
    if db_key_for_index(i) == db_key_for_index(j) {
        assert(spec_u64_to_le_bytes(i) =~= spec_u64_to_le_bytes(j)) by {
            assert(spec_u64_to_le_bytes(i).len() == 8 && spec_u64_to_le_bytes(j).len() == 8);
            assert(forall|k: int|
                0 <= k < 8 ==> #[trigger] spec_u64_to_le_bytes(i)[k] == spec_u64_to_le_bytes(
                    i,
                ).reverse()[7 - k]);
            assert(forall|k: int|
                0 <= k < 8 ==> #[trigger] spec_u64_to_le_bytes(j)[k] == spec_u64_to_le_bytes(
                    j,
                ).reverse()[7 - k]);
            assert(forall|k: int|
                0 <= k < 8 ==> db_key_for_index(i)[6 + k] == spec_u64_to_le_bytes(i).reverse()[k]);
            assert(forall|k: int|
                0 <= k < 8 ==> db_key_for_index(j)[6 + k] == spec_u64_to_le_bytes(j).reverse()[k]);
        }
        assert(vstd::bytes::spec_u64_from_le_bytes(spec_u64_to_le_bytes(i)) == i);
        assert(vstd::bytes::spec_u64_from_le_bytes(spec_u64_to_le_bytes(j)) == j);
    }
}

/// The store round trip: after `put(i, K)` the view holds exactly `K` at
/// `i`'s key, and the entry of any other index is untouched.
pub proof fn lemma_validator_store_round_trip(
    view: Map<Seq<u8>, Seq<u8>>,
    index: u64,
    key_bytes: Seq<u8>,
    other: u64,
)
    requires
        other != index,
    ensures
        view.insert(db_key_for_index(index), key_bytes)[db_key_for_index(index)] == key_bytes,
        view.insert(db_key_for_index(index), key_bytes).contains_key(db_key_for_index(other))
            <==> view.contains_key(db_key_for_index(other)),
        view.contains_key(db_key_for_index(other)) ==> view.insert(
            db_key_for_index(index),
            key_bytes,
        )[db_key_for_index(other)] == view[db_key_for_index(other)],
{
    lemma_db_key_injective(index, other);
}

/// The persistent index-to-public-key store.
#[derive(Debug, PartialEq, Eq)]
pub struct ValidatorStore<T>
where
    T: ClientDB,
 {
    db: T,
}

impl<T: ClientDB> ValidatorStore<T> {
    /// The contents of the backing store.
    pub open spec fn view(&self) -> Map<Seq<u8>, Seq<u8>> {
        self.store_db().db_view()
    }

    pub closed spec fn store_db(&self) -> T {
        self.db
    }

    pub fn new(db: T) -> (r: Self)
        ensures
            r.view() == db.db_view(),
    {
        Self { db }
    }

    /// The byte prefix of a key-schema namespace.
    pub fn prefix_bytes(&self, key_prefix: &KeyPrefixes) -> (r: Vec<u8>)
        ensures
            r@ == pubkey_prefix(),
    {
        let mut r: Vec<u8> = Vec::new();
        match key_prefix {
            KeyPrefixes::PublicKey => {
                r.push(112);
                r.push(117);
                r.push(98);
                r.push(107);
                r.push(101);
                r.push(121);
            },
        }
        proof {
            assert(r@ =~= pubkey_prefix());
        }
        r
    }

    /// The store key of validator `index` under a namespace.
    pub fn get_db_key_for_index(&self, key_prefix: &KeyPrefixes, index: usize) -> (r: Vec<u8>)
        ensures
            r@ == db_key_for_index(index as u64),
    {
        let mut buf = self.prefix_bytes(key_prefix);
        let le = vstd::bytes::u64_to_le_bytes(index as u64);
        let mut k: usize = 0;
        while k < 8
            invariant
                k <= 8,
                le@ == vstd::bytes::spec_u64_to_le_bytes(index as u64),
                le@.len() == 8,
                buf@.len() == 6 + k,
                buf@.subrange(0, 6) == pubkey_prefix(),
                forall|q: int| 0 <= q < k ==> #[trigger] buf@[6 + q] == le@[7 - q],
            decreases 8 - k,
        {
            buf.push(le[7 - k]);
            proof {
                assert(buf@.subrange(0, 6) =~= pubkey_prefix());
            }
            k = k + 1;
        }
        proof {
            assert forall|m: int| 0 <= m < 14 implies buf@[m] == db_key_for_index(index as u64)[m]
                by {
                if m < 6 {
                    assert(buf@[m] == buf@.subrange(0, 6)[m]);
                } else {
                    let q = m - 6;
                    assert(buf@[6 + q] == le@[7 - q]);
                }
            }
            assert(buf@ =~= db_key_for_index(index as u64));
        }
        buf
    }

    /// Stores a public key under the index's key.
    pub fn put_public_key_by_index(&mut self, index: usize, public_key: &PublicKey) -> (r: Result<
        (),
        ValidatorStoreError,
    >)
        ensures
            r is Ok ==> final(self).view() == old(self).view().insert(
                db_key_for_index(index as u64),
                public_key@,
            ),
            r is Err ==> final(self).view() == old(self).view(),
            r matches Err(e) ==> e is DBError,
    {
        let key = self.get_db_key_for_index(&KeyPrefixes::PublicKey, index);
        let val = public_key.as_bytes();
        match self.db.put(&key, &val) {
            Ok(()) => Ok(()),
            Err(e) => Err(ValidatorStoreError::DBError(e.message)),
        }
    }

    /// Loads the public key of `index`: the stored bytes must parse as a
    /// public key, anything else is a decode error; an unwritten index reads
    /// as `None`.
    pub fn get_public_key_by_index(&self, index: usize) -> (r: Result<
        Option<PublicKey>,
        ValidatorStoreError,
    >)
        ensures
            r matches Ok(Some(k)) ==> self.view().contains_key(db_key_for_index(index as u64))
                && k@ == self.view()[db_key_for_index(index as u64)] && k.wf(),
            r matches Ok(None) ==> !self.view().contains_key(db_key_for_index(index as u64)),
            r matches Err(e) ==> e is DBError || (e is DecodeError && self.view().contains_key(
                db_key_for_index(index as u64),
            ) && self.view()[db_key_for_index(index as u64)].len() != PUBLIC_KEY_SIZE),
            (self.view().contains_key(db_key_for_index(index as u64))
                && self.view()[db_key_for_index(index as u64)].len() != PUBLIC_KEY_SIZE) ==> !(
            r is Ok),
    {
        let key = self.get_db_key_for_index(&KeyPrefixes::PublicKey, index);
        let val = match self.db.get(&key) {
            Ok(v) => v,
            Err(e) => {
                return Err(ValidatorStoreError::DBError(e.message));
            },
        };
        match val {
            None => Ok(None),
            Some(val) => match PublicKey::from_bytes(&val) {
                Ok(key) => Ok(Some(key)),
                Err(_) => Err(ValidatorStoreError::DecodeError),
            },
        }
    }
}

} // verus!
