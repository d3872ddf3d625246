use beacon::deposit::{decode_deposit, Deposit, DepositData, DepositInput};
use beacon::ssz::ssz_encode;
use beacon::types::{Hash256, PublicKey, Signature};
use rand::{Rng, SeedableRng};
use rand_xorshift::XorShiftRng;

fn random_hash(rng: &mut XorShiftRng) -> Hash256 {
    let mut b = vec![0u8; 32];
    rng.fill_bytes(&mut b);
    Hash256::from_vec(b)
}

fn random_deposit(rng: &mut XorShiftRng) -> Deposit {
    let mut pk = vec![0u8; 48];
    rng.fill_bytes(&mut pk);
    let mut sig = vec![0u8; 96];
    rng.fill_bytes(&mut sig);
    Deposit {
        branch: vec![random_hash(rng), random_hash(rng), random_hash(rng)],
        index: rng.next_u64(),
        deposit_data: DepositData {
            amount: rng.next_u64(),
            timestamp: rng.next_u64(),
            deposit_input: DepositInput {
                pubkey: PublicKey::from_bytes(&pk).unwrap(),
                withdrawal_credentials: random_hash(rng),
                proof_of_possession: Signature::from_vec(sig),
            },
        },
    }
}

#[test]
pub fn test_ssz_round_trip() {
    let mut rng = XorShiftRng::from_seed([42; 16]);
    let original = random_deposit(&mut rng);

    let bytes = ssz_encode(&original);
    let (decoded, consumed) = decode_deposit(&bytes, 0).unwrap();

    assert_eq!(original, decoded);
    assert_eq!(consumed, bytes.len());

    // Re-encoding the decoded value gives identical bytes.
    let bytes_again = ssz_encode(&decoded);
    assert_eq!(bytes, bytes_again);
}

#[test]
pub fn test_hash_tree_root() {
    let mut rng = XorShiftRng::from_seed([42; 16]);
    let original = random_deposit(&mut rng);

    let result = original.hash_tree_root();

    assert_eq!(result.len(), 32);
}

#[test]
fn test_deposit_encoding_layout() {
    // An empty branch, index 7, and all-zero data: the exact wire bytes.
    let deposit = Deposit {
        branch: vec![],
        index: 7,
        deposit_data: DepositData {
            amount: 0,
            timestamp: 0,
            deposit_input: DepositInput {
                pubkey: PublicKey::from_bytes(&vec![0u8; 48]).unwrap(),
                withdrawal_credentials: Hash256::zero(),
                proof_of_possession: Signature::from_vec(vec![0u8; 96]),
            },
        },
    };
    let bytes = ssz_encode(&deposit);
    assert_eq!(bytes.len(), 4 + 8 + 192);
    // Empty branch list: zero byte-length prefix.
    assert_eq!(&bytes[0..4], &[0, 0, 0, 0]);
    // The index, little-endian.
    assert_eq!(&bytes[4..12], &[7, 0, 0, 0, 0, 0, 0, 0]);
    // Everything after is zero.
    assert!(bytes[12..].iter().all(|b| *b == 0));
}

#[test]
fn test_deposit_decode_too_short() {
    let deposit = Deposit {
        branch: vec![Hash256::zero()],
        index: 1,
        deposit_data: DepositData {
            amount: 2,
            timestamp: 3,
            deposit_input: DepositInput {
                pubkey: PublicKey::from_bytes(&vec![1u8; 48]).unwrap(),
                withdrawal_credentials: Hash256::zero(),
                proof_of_possession: Signature::from_vec(vec![2u8; 96]),
            },
        },
    };
    let mut bytes = ssz_encode(&deposit);
    bytes.pop();
    assert!(decode_deposit(&bytes, 0).is_err());
}

#[test]
fn test_deposit_trailing_bytes_rejected() {
    let mut rng = XorShiftRng::from_seed([7; 16]);
    let original = random_deposit(&mut rng);
    let mut bytes = ssz_encode(&original);

    let decoded = beacon::deposit::deposit_from_bytes(&bytes).unwrap();
    assert_eq!(decoded, original);

    bytes.push(0);
    assert_eq!(
        beacon::deposit::deposit_from_bytes(&bytes),
        Err(beacon::ssz::DecodeError::UnexpectedTrailingBytes)
    );
}
