//! Deposit records: canonical serialization (with its round trip), decoding,
//! and tree hashing.

use crate::merkle::{fresh_root, merkle_root_bytes};
use crate::ssz::{
    can_decode_hash_list, concat_enc, decode_hash256, decode_hash_list, decode_public_key,
    decode_signature, decode_u64, enc_list, enc_u32, enc_u64, lemma_concat_enc_hashes,
    spec_list_len, ssz_encode, DecodeError, Encodable, SszStream,
};
use crate::types::{Hash256, PublicKey, Signature};
use vstd::prelude::*;

verus! {

/// The encoded width of a deposit input: public key, withdrawal credentials,
/// proof of possession.
pub const DEPOSIT_INPUT_SSZ_LENGTH: usize = 48 + 32 + 96;

/// The encoded width of the deposit data: amount, timestamp, input.
pub const DEPOSIT_DATA_SSZ_LENGTH: usize = 8 + 8 + 176;

/// The signed content of a deposit.
#[derive(Debug, PartialEq, Eq)]
pub struct DepositInput {
    pub pubkey: PublicKey,
    pub withdrawal_credentials: Hash256,
    pub proof_of_possession: Signature,
}

/// The deposited amount and when, with the signed input.
#[derive(Debug, PartialEq, Eq)]
pub struct DepositData {
    pub amount: u64,
    pub timestamp: u64,
    pub deposit_input: DepositInput,
}

/// A deposit: its Merkle branch, its index, and its data.
#[derive(Debug, PartialEq, Eq)]
pub struct Deposit {
    pub branch: Vec<Hash256>,
    pub index: u64,
    pub deposit_data: DepositData,
}

impl DepositInput {
    pub open spec fn wf(&self) -> bool {
        self.pubkey.wf() && self.withdrawal_credentials.wf() && self.proof_of_possession.wf()
    }
}

impl Clone for DepositInput {
    fn clone(&self) -> (r: Self)
        ensures
            r.pubkey@ == self.pubkey@,
            r.withdrawal_credentials@ == self.withdrawal_credentials@,
            r.proof_of_possession@ == self.proof_of_possession@,
    {
        Self {
            pubkey: self.pubkey.clone(),
            withdrawal_credentials: self.withdrawal_credentials.clone(),
            proof_of_possession: self.proof_of_possession.clone(),
        }
    }
}

impl DepositData {
    pub open spec fn wf(&self) -> bool {
        self.deposit_input.wf()
    }
}

impl Clone for DepositData {
    fn clone(&self) -> (r: Self)
        ensures
            r.amount == self.amount,
            r.timestamp == self.timestamp,
            r.deposit_input.pubkey@ == self.deposit_input.pubkey@,
            r.deposit_input.withdrawal_credentials@ == self.deposit_input.withdrawal_credentials@,
            r.deposit_input.proof_of_possession@ == self.deposit_input.proof_of_possession@,
    {
        Self {
            amount: self.amount,
            timestamp: self.timestamp,
            deposit_input: self.deposit_input.clone(),
        }
    }
}

impl Deposit {
    pub open spec fn wf(&self) -> bool {
        &&& self.deposit_data.wf()
        &&& forall|k: int| 0 <= k < self.branch@.len() ==> (#[trigger] self.branch@[k]).wf()
    }
}

/// Whether two deposits carry the same values, field by field.
pub open spec fn deposit_eq(d1: Deposit, d2: Deposit) -> bool {
    &&& d1.index == d2.index
    &&& d1.branch@.len() == d2.branch@.len()
    &&& forall|k: int| 0 <= k < d1.branch@.len() ==> #[trigger] d1.branch@[k]@ == d2.branch@[k]@
    &&& d1.deposit_data.amount == d2.deposit_data.amount
    &&& d1.deposit_data.timestamp == d2.deposit_data.timestamp
    &&& d1.deposit_data.deposit_input.pubkey@ == d2.deposit_data.deposit_input.pubkey@
    &&& d1.deposit_data.deposit_input.withdrawal_credentials@
        == d2.deposit_data.deposit_input.withdrawal_credentials@
    &&& d1.deposit_data.deposit_input.proof_of_possession@
        == d2.deposit_data.deposit_input.proof_of_possession@
}

impl Encodable for DepositInput {
    open spec fn ssz_bytes(&self) -> Seq<u8> {
        self.pubkey@ + self.withdrawal_credentials@ + self.proof_of_possession@
    }

    open spec fn enc_fits(&self) -> bool {
        true
    }

    fn ssz_append(&self, s: &mut SszStream) {
        s.append(&self.pubkey);
        s.append(&self.withdrawal_credentials);
        s.append(&self.proof_of_possession);
        proof {
            assert(s@ =~= old(s)@ + self.ssz_bytes());
        }
    }
}

impl Encodable for DepositData {
    open spec fn ssz_bytes(&self) -> Seq<u8> {
        enc_u64(self.amount) + enc_u64(self.timestamp) + self.deposit_input.ssz_bytes()
    }

    open spec fn enc_fits(&self) -> bool {
        true
    }

    fn ssz_append(&self, s: &mut SszStream) {
        s.append_u64(self.amount);
        s.append_u64(self.timestamp);
        s.append(&self.deposit_input);
        proof {
            assert(s@ =~= old(s)@ + self.ssz_bytes());
        }
    }
}

impl Encodable for Deposit {
    open spec fn ssz_bytes(&self) -> Seq<u8> {
        enc_list(self.branch@) + enc_u64(self.index) + self.deposit_data.ssz_bytes()
    }

    open spec fn enc_fits(&self) -> bool {
        concat_enc(self.branch@).len() < 0x1_0000_0000
    }

    fn ssz_append(&self, s: &mut SszStream) {
        s.append_vec(&self.branch);
        s.append_u64(self.index);
        s.append(&self.deposit_data);
        proof {
            assert(s@ =~= old(s)@ + self.ssz_bytes());
        }
    }
}

/// Decodes a deposit input at `index`: three fixed-width fields.
pub fn decode_deposit_input(bytes: &Vec<u8>, index: usize) -> (r: Result<
    (DepositInput, usize),
    DecodeError,
>)
    ensures
        r is Ok <==> index + DEPOSIT_INPUT_SSZ_LENGTH <= bytes@.len(),
        r matches Ok((v, j)) ==> j == index + DEPOSIT_INPUT_SSZ_LENGTH && v.wf() && v.ssz_bytes()
            == bytes@.subrange(index as int, j as int),
        r matches Err(e) ==> e == DecodeError::TooShort,
{
    let (pubkey, i1) = match decode_public_key(bytes, index) {
        Ok(v) => v,
        Err(e) => {
            return Err(e);
        },
    };
    let (withdrawal_credentials, i2) = match decode_hash256(bytes, i1) {
        Ok(v) => v,
        Err(e) => {
            return Err(e);
        },
    };
    let (proof_of_possession, i3) = match decode_signature(bytes, i2) {
        Ok(v) => v,
        Err(e) => {
            return Err(e);
        },
    };
    let v = DepositInput { pubkey, withdrawal_credentials, proof_of_possession };
    proof {
        assert(v.ssz_bytes() =~= bytes@.subrange(index as int, i3 as int));
    }
    Ok((v, i3))
}

/// Decodes the deposit data at `index`: two integers and the input.
pub fn decode_deposit_data(bytes: &Vec<u8>, index: usize) -> (r: Result<
    (DepositData, usize),
    DecodeError,
>)
    ensures
        r is Ok <==> index + DEPOSIT_DATA_SSZ_LENGTH <= bytes@.len(),
        r matches Ok((v, j)) ==> j == index + DEPOSIT_DATA_SSZ_LENGTH && v.wf() && v.ssz_bytes()
            == bytes@.subrange(index as int, j as int),
        r matches Err(e) ==> e == DecodeError::TooShort,
{
    let (amount, i1) = match decode_u64(bytes, index) {
        Ok(v) => v,
        Err(e) => {
            return Err(e);
        },
    };
    let (timestamp, i2) = match decode_u64(bytes, i1) {
        Ok(v) => v,
        Err(e) => {
            return Err(e);
        },
    };
    let (deposit_input, i3) = match decode_deposit_input(bytes, i2) {
        Ok(v) => v,
        Err(e) => {
            return Err(e);
        },
    };
    let v = DepositData { amount, timestamp, deposit_input };
    proof {
        assert(v.ssz_bytes() =~= bytes@.subrange(index as int, i3 as int));
    }
    Ok((v, i3))
}

/// Whether a whole deposit can be decoded at `index`.
pub open spec fn can_decode_deposit(b: Seq<u8>, i: int) -> bool {
    &&& can_decode_hash_list(b, i)
    &&& i + 4 + spec_list_len(b, i) + DEPOSIT_DATA_SSZ_LENGTH + 8 <= b.len()
}

/// The first offset past a deposit decoded at `index`.
pub open spec fn spec_deposit_end(b: Seq<u8>, i: int) -> int {
    i + 4 + spec_list_len(b, i) + 8 + DEPOSIT_DATA_SSZ_LENGTH
}

/// Decodes a deposit at `index`: the branch list, the index, the data.
/// Succeeds exactly when the declared branch window and the fixed tail lie
/// inside the input.
pub fn decode_deposit(bytes: &Vec<u8>, index: usize) -> (r: Result<(Deposit, usize), DecodeError>)
    ensures
        r is Ok <==> can_decode_deposit(bytes@, index as int),
        r matches Ok((d, j)) ==> j == spec_deposit_end(bytes@, index as int) && d.wf()
            && d.enc_fits() && d.ssz_bytes() == bytes@.subrange(index as int, j as int),
        r matches Err(e) ==> e == DecodeError::TooShort,
{
    let (branch, i1) = match decode_hash_list(bytes, index) {
        Ok(v) => v,
        Err(e) => {
            return Err(e);
        },
    };
    let (idx_value, i2) = match decode_u64(bytes, i1) {
        Ok(v) => v,
        Err(e) => {
            return Err(e);
        },
    };
    let (deposit_data, i3) = match decode_deposit_data(bytes, i2) {
        Ok(v) => v,
        Err(e) => {
            return Err(e);
        },
    };
    let d = Deposit { branch, index: idx_value, deposit_data };
    proof {
        lemma_concat_enc_hashes(d.branch@);
        vstd::bytes::lemma_auto_spec_u32_to_from_le_bytes();
        let b = bytes@;
        let i = index as int;
        let cl = concat_enc(d.branch@);
        assert(cl.len() == spec_list_len(b, i));
        assert(enc_u32(cl.len() as u32) == b.subrange(i, i + 4));
        assert(cl =~= b.subrange(i + 4, i1 as int)) by {
            assert forall|m: int| 0 <= m < cl.len() implies cl[m] == b.subrange(
                i + 4,
                i1 as int,
            )[m] by {
                let k = m / 32;
                assert(32 * k <= m < 32 * k + 32 && 0 <= k < d.branch@.len()) by (nonlinear_arith)
                    requires
                        0 <= m < cl.len(),
                        cl.len() == 32 * d.branch@.len(),
                        k == m / 32,
                ;
                assert(cl.subrange(32 * k, 32 * k + 32) == d.branch@[k]@);
                assert(cl[m] == cl.subrange(32 * k, 32 * k + 32)[m - 32 * k]);
                assert(d.branch@[k]@ == b.subrange(i + 4 + 32 * k, i + 4 + 32 * k + 32));
            }
        }
        assert(d.ssz_bytes() =~= b.subrange(i, i3 as int)) by {
            assert(enc_u32(cl.len() as u32).len() == 4);
            assert(enc_u64(d.index).len() == 8);
            assert(enc_u64(d.index) == b.subrange(i1 as int, i1 + 8));
            assert(d.deposit_data.ssz_bytes() == b.subrange(i2 as int, i3 as int));
        }
    }
    Ok((d, i3))
}

/// Decodes a whole byte string as one deposit: the input must be fully
/// consumed, anything left over is an error.
pub fn deposit_from_bytes(bytes: &Vec<u8>) -> (r: Result<Deposit, DecodeError>)
    ensures
        r is Ok <==> can_decode_deposit(bytes@, 0) && spec_deposit_end(bytes@, 0) == bytes@.len(),
        r matches Ok(d) ==> d.wf() && d.enc_fits() && d.ssz_bytes() == bytes@,
        r matches Err(e) ==> e == (if can_decode_deposit(bytes@, 0) {
            DecodeError::UnexpectedTrailingBytes
        } else {
            DecodeError::TooShort
        }),
{
    let (d, end) = match decode_deposit(bytes, 0) {
        Ok(v) => v,
        Err(e) => {
            return Err(e);
        },
    };
    if end != bytes.len() {
        return Err(DecodeError::UnexpectedTrailingBytes);
    }
    proof {
        assert(d.ssz_bytes() =~= bytes@);
    }
    Ok(d)
}

/// The canonical encoding of a well-formed deposit decodes: the declared
/// windows are exactly its own bytes.
pub proof fn lemma_deposit_encoding_decodes(d: Deposit)
    requires
        d.wf(),
        d.enc_fits(),
    ensures
        can_decode_deposit(d.ssz_bytes(), 0),
        spec_deposit_end(d.ssz_bytes(), 0) == d.ssz_bytes().len(),
{
    lemma_concat_enc_hashes(d.branch@);
    vstd::bytes::lemma_auto_spec_u32_to_from_le_bytes();
    vstd::bytes::lemma_auto_spec_u64_to_from_le_bytes();
    let b = d.ssz_bytes();
    let cl = concat_enc(d.branch@);
    assert(enc_u32(cl.len() as u32).len() == 4);
    assert(enc_u64(d.index).len() == 8);
    assert(b.subrange(0, 4) =~= enc_u32(cl.len() as u32));
    assert(vstd::bytes::spec_u32_from_le_bytes(vstd::bytes::spec_u32_to_le_bytes(cl.len() as u32))
        == cl.len() as u32);
    assert(spec_list_len(b, 0) == cl.len());
    assert((32 * d.branch@.len()) % 32 == 0) by (nonlinear_arith);
    assert(b.len() == 4 + cl.len() + 8 + DEPOSIT_DATA_SSZ_LENGTH);
}

/// The canonical encoding is injective on well-formed deposits: equal
/// encodings mean equal values.
pub proof fn lemma_deposit_enc_injective(d1: Deposit, d2: Deposit)
    requires
        d1.wf(),
        d2.wf(),
        d1.enc_fits(),
        d2.enc_fits(),
        d1.ssz_bytes() == d2.ssz_bytes(),
    ensures
        deposit_eq(d1, d2),
{
    lemma_concat_enc_hashes(d1.branch@);
    lemma_concat_enc_hashes(d2.branch@);
    vstd::bytes::lemma_auto_spec_u32_to_from_le_bytes();
    vstd::bytes::lemma_auto_spec_u64_to_from_le_bytes();
    let b = d1.ssz_bytes();
    let cl1 = concat_enc(d1.branch@);
    let cl2 = concat_enc(d2.branch@);
    assert(enc_u32(cl1.len() as u32).len() == 4);
    assert(enc_u32(cl2.len() as u32).len() == 4);
    assert(b.subrange(0, 4) =~= enc_u32(cl1.len() as u32));
    assert(d2.ssz_bytes().subrange(0, 4) =~= enc_u32(cl2.len() as u32));
    assert(vstd::bytes::spec_u32_from_le_bytes(vstd::bytes::spec_u32_to_le_bytes(cl1.len() as u32))
        == cl1.len() as u32);
    assert(vstd::bytes::spec_u32_from_le_bytes(vstd::bytes::spec_u32_to_le_bytes(cl2.len() as u32))
        == cl2.len() as u32);
    assert(cl1.len() == cl2.len());
    assert(d1.branch@.len() == d2.branch@.len()) by (nonlinear_arith)
        requires
            32 * d1.branch@.len() == cl1.len(),
            32 * d2.branch@.len() == cl2.len(),
            cl1.len() == cl2.len(),
    ;
    let n = d1.branch@.len() as int;
    assert(cl1 =~= b.subrange(4, 4 + cl1.len() as int));
    assert(cl2 =~= b.subrange(4, 4 + cl1.len() as int)) by {
        assert(d2.ssz_bytes() == b);
        assert forall|m: int| 0 <= m < cl2.len() implies cl2[m] == b.subrange(
            4,
            4 + cl1.len() as int,
        )[m] by {
            assert(cl2[m] == d2.ssz_bytes()[4 + m]);
        }
    }
    assert forall|k: int| 0 <= k < n implies #[trigger] d1.branch@[k]@ == d2.branch@[k]@ by {
        assert(d1.branch@[k]@ == cl1.subrange(32 * k, 32 * k + 32));
        assert(d2.branch@[k]@ == cl2.subrange(32 * k, 32 * k + 32));
    }
    let tail = 4 + cl1.len() as int;
    assert(enc_u64(d1.index) =~= b.subrange(tail, tail + 8));
    assert(enc_u64(d2.index) =~= b.subrange(tail, tail + 8)) by {
        assert forall|m: int| 0 <= m < 8 implies enc_u64(d2.index)[m] == b.subrange(
            tail,
            tail + 8,
        )[m] by {
            assert(enc_u64(d2.index)[m] == d2.ssz_bytes()[tail + m]);
        }
    }
    assert(vstd::bytes::spec_u64_from_le_bytes(vstd::bytes::spec_u64_to_le_bytes(d1.index))
        == d1.index);
    assert(vstd::bytes::spec_u64_from_le_bytes(vstd::bytes::spec_u64_to_le_bytes(d2.index))
        == d2.index);
    let dd = tail + 8;
    assert(b.len() == 4 + cl1.len() + 8 + DEPOSIT_DATA_SSZ_LENGTH);
    assert(d1.deposit_data.ssz_bytes() =~= b.subrange(dd, dd + DEPOSIT_DATA_SSZ_LENGTH)) by {
        assert forall|m: int|
            0 <= m < DEPOSIT_DATA_SSZ_LENGTH implies d1.deposit_data.ssz_bytes()[m] == b.subrange(
            dd,
            dd + DEPOSIT_DATA_SSZ_LENGTH,
        )[m] by {
            assert(b[dd + m] == d1.deposit_data.ssz_bytes()[m]);
        }
    }
    assert(d2.deposit_data.ssz_bytes() =~= b.subrange(dd, dd + DEPOSIT_DATA_SSZ_LENGTH)) by {
        assert forall|m: int|
            0 <= m < DEPOSIT_DATA_SSZ_LENGTH implies d2.deposit_data.ssz_bytes()[m] == b.subrange(
            dd,
            dd + DEPOSIT_DATA_SSZ_LENGTH,
        )[m] by {
            assert(d2.ssz_bytes()[dd + m] == d2.deposit_data.ssz_bytes()[m]);
        }
    }
    lemma_deposit_data_enc_injective(d1.deposit_data, d2.deposit_data, b, dd);
}

/// Field-level injectivity of the deposit data encoding, read at `off` in `b`.
proof fn lemma_deposit_data_enc_injective(x1: DepositData, x2: DepositData, b: Seq<u8>, off: int)
    requires
        x1.wf(),
        x2.wf(),
        0 <= off,
        off + DEPOSIT_DATA_SSZ_LENGTH <= b.len(),
        x1.ssz_bytes() == b.subrange(off, off + DEPOSIT_DATA_SSZ_LENGTH),
        x2.ssz_bytes() == b.subrange(off, off + DEPOSIT_DATA_SSZ_LENGTH),
    ensures
        x1.amount == x2.amount,
        x1.timestamp == x2.timestamp,
        x1.deposit_input.pubkey@ == x2.deposit_input.pubkey@,
        x1.deposit_input.withdrawal_credentials@ == x2.deposit_input.withdrawal_credentials@,
        x1.deposit_input.proof_of_possession@ == x2.deposit_input.proof_of_possession@,
{
    vstd::bytes::lemma_auto_spec_u64_to_from_le_bytes();
    assert(x1.ssz_bytes() == x2.ssz_bytes());
    let s = x1.ssz_bytes();
    assert(enc_u64(x1.amount) =~= s.subrange(0, 8));
    assert(enc_u64(x2.amount) =~= s.subrange(0, 8)) by {
        assert forall|m: int| 0 <= m < 8 implies enc_u64(x2.amount)[m] == s.subrange(0, 8)[m] by {
            assert(enc_u64(x2.amount)[m] == x2.ssz_bytes()[m]);
        }
    }
    assert(vstd::bytes::spec_u64_from_le_bytes(vstd::bytes::spec_u64_to_le_bytes(x1.amount))
        == x1.amount);
    assert(vstd::bytes::spec_u64_from_le_bytes(vstd::bytes::spec_u64_to_le_bytes(x2.amount))
        == x2.amount);
    assert(enc_u64(x1.timestamp) =~= s.subrange(8, 16));
    assert(enc_u64(x2.timestamp) =~= s.subrange(8, 16)) by {
        assert forall|m: int| 0 <= m < 8 implies enc_u64(x2.timestamp)[m] == s.subrange(
            8,
            16,
        )[m] by {
            assert(enc_u64(x2.timestamp)[m] == x2.ssz_bytes()[8 + m]);
        }
    }
    assert(vstd::bytes::spec_u64_from_le_bytes(vstd::bytes::spec_u64_to_le_bytes(x1.timestamp))
        == x1.timestamp);
    assert(vstd::bytes::spec_u64_from_le_bytes(vstd::bytes::spec_u64_to_le_bytes(x2.timestamp))
        == x2.timestamp);
    assert(x1.deposit_input.pubkey@ =~= s.subrange(16, 64));
    assert(x2.deposit_input.pubkey@ =~= s.subrange(16, 64)) by {
        assert forall|m: int| 0 <= m < 48 implies x2.deposit_input.pubkey@[m] == s.subrange(
            16,
            64,
        )[m] by {
            assert(x2.deposit_input.pubkey@[m] == x2.ssz_bytes()[16 + m]);
        }
    }
    assert(x1.deposit_input.withdrawal_credentials@ =~= s.subrange(64, 96));
    assert(x2.deposit_input.withdrawal_credentials@ =~= s.subrange(64, 96)) by {
        assert forall|m: int|
            0 <= m < 32 implies x2.deposit_input.withdrawal_credentials@[m] == s.subrange(
            64,
            96,
        )[m] by {
            assert(x2.deposit_input.withdrawal_credentials@[m] == x2.ssz_bytes()[64 + m]);
        }
    }
    assert(x1.deposit_input.proof_of_possession@ =~= s.subrange(96, 192));
    assert(x2.deposit_input.proof_of_possession@ =~= s.subrange(96, 192)) by {
        assert forall|m: int|
            0 <= m < 96 implies x2.deposit_input.proof_of_possession@[m] == s.subrange(
            96,
            192,
        )[m] by {
            assert(x2.deposit_input.proof_of_possession@[m] == x2.ssz_bytes()[96 + m]);
        }
    }
}

impl Deposit {
    /// The tree-hash root: the Merkle root over the roots of the fields —
    /// the branch's chunk root, the raw index bytes, and the data's chunk
    /// root.
    pub open spec fn tree_root_spec(&self) -> Seq<u8> {
        merkle_root_bytes(
            merkle_root_bytes(concat_enc(self.branch@)) + enc_u64(self.index) + merkle_root_bytes(
                self.deposit_data.ssz_bytes(),
            ),
        )
    }

    /// Computes the 32-byte tree-hash root of the deposit.
    pub fn hash_tree_root(&self) -> (r: Vec<u8>)
        requires
            self.wf(),
            self.branch@.len() <= 0x8_0000,
        ensures
            r@ == self.tree_root_spec(),
            r@.len() == 32,
    {
        let n = self.branch.len();
        let mut branch_bytes: Vec<u8> = Vec::new();
        let mut i: usize = 0;
        proof {
            assert(self.branch@.subrange(0, 0) =~= Seq::<Hash256>::empty());
            assert(branch_bytes@ =~= concat_enc(self.branch@.subrange(0, 0)));
            lemma_concat_enc_hashes(self.branch@);
        }
        while i < n
            invariant
                i <= n,
                n == self.branch@.len() <= 0x8_0000,
                forall|k: int| 0 <= k < n ==> (#[trigger] self.branch@[k]).wf(),
                branch_bytes@ == concat_enc(self.branch@.subrange(0, i as int)),
                branch_bytes@.len() <= 32 * i,
            decreases n - i,
        {
            let mut h = self.branch[i].to_vec();
            branch_bytes.append(&mut h);
            proof {
                assert(self.branch@.subrange(0, i + 1).drop_last() =~= self.branch@.subrange(
                    0,
                    i as int,
                ));
                assert(self.branch@.subrange(0, i + 1).last() == self.branch@[i as int]);
            }
            i = i + 1;
        }
        proof {
            assert(self.branch@.subrange(0, n as int) =~= self.branch@);
        }
        let branch_root = fresh_root(&branch_bytes);
        let data_bytes = ssz_encode(&self.deposit_data);
        proof {
            vstd::bytes::lemma_auto_spec_u64_to_from_le_bytes();
            assert(data_bytes@.len() == DEPOSIT_DATA_SSZ_LENGTH);
        }
        let data_root = fresh_root(&data_bytes);
        let mut result: Vec<u8> = branch_root;
        let mut index_bytes = vstd::bytes::u64_to_le_bytes(self.index);
        result.append(&mut index_bytes);
        let mut data_root = data_root;
        result.append(&mut data_root);
        fresh_root(&result)
    }
}

impl Clone for Deposit {
    fn clone(&self) -> (r: Self)
        ensures
            deposit_eq(r, *self),
    {
        let n = self.branch.len();
        let mut branch: Vec<Hash256> = Vec::new();
        let mut i: usize = 0;
        while i < n
            invariant
                i <= n,
                n == self.branch@.len(),
                branch@.len() == i,
                forall|k: int| 0 <= k < i ==> #[trigger] branch@[k]@ == self.branch@[k]@,
            decreases n - i,
        {
            branch.push(self.branch[i].clone());
            i = i + 1;
        }
        Self { branch, index: self.index, deposit_data: self.deposit_data.clone() }
    }
}

} // verus!
