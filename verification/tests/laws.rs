use beacon::checks::{all_finalized_at, epoch_delay_millis};
use beacon::client_config::{Config, DEFAULT_HTTP_SERVER};
use beacon::config::{ChainSpec, Domain, Fork};
use beacon::delegation::delegate_validators;
use beacon::merkle::{fresh_root, TreeHashCache};
use beacon::shuffle::shuffle;
use beacon::slashing::{AttesterSlashingTestTask, TestingAttesterSlashingBuilder};
use beacon::ssz::{decode_bool, decode_u64, ssz_encode, DecodeError};
use beacon::types::{Hash256, Signature};
use beacon::validator::{ValidatorRecord, ValidatorStatus};

#[test]
fn shuffle_is_permutation() {
    let seed = vec![1u8, 2, 3, 4];
    let list: Vec<usize> = (0..50).collect();
    let out = shuffle(&seed, list.clone()).unwrap();
    assert_eq!(out.len(), list.len());
    let mut sorted = out.clone();
    sorted.sort();
    assert_eq!(sorted, list);
    // The permutation is deterministic in the seed and list.
    let again = shuffle(&seed, list.clone()).unwrap();
    assert_eq!(out, again);
}

fn make_validator(start: u64, end: u64) -> ValidatorRecord {
    let kp = beacon::rng::generate_deterministic_keypair(start as usize);
    ValidatorRecord {
        pubkey: kp.pk,
        withdrawal_credentials: Hash256::zero(),
        effective_balance: 32,
        start_dynasty: start,
        end_dynasty: end,
        status: ValidatorStatus::Active,
    }
}

#[test]
fn delegation_covers_every_active_validator() {
    // Validators 0..12 active at dynasty 5, the rest not.
    let mut validators = vec![];
    for _ in 0..12 {
        validators.push(make_validator(0, 10));
    }
    for _ in 0..4 {
        validators.push(make_validator(7, 10));
    }
    let spec = ChainSpec::minimal();
    let seed = vec![9u8; 32];
    let cycle = delegate_validators(&seed, &validators, &5, &0, &spec).unwrap();
    assert_eq!(cycle.len(), spec.cycle_length as usize);
    let mut flattened = vec![];
    for slot in cycle.iter() {
        for sac in slot.iter() {
            assert!((sac.shard_id as u64) < spec.shard_count as u64);
            for v in sac.committee.iter() {
                flattened.push(*v);
            }
        }
    }
    flattened.sort();
    let expected: Vec<usize> = (0..12).collect();
    assert_eq!(flattened, expected);

    // The delegation is deterministic in the seed, registry and dynasty.
    let again = delegate_validators(&seed, &validators, &5, &0, &spec).unwrap();
    assert_eq!(cycle, again);
}

#[test]
fn cached_root_agrees_with_fresh_root() {
    let bytes: Vec<u8> = (0u8..100).collect();
    let cache = TreeHashCache::from_bytes(&bytes);
    assert_eq!(cache.root(), fresh_root(&bytes));

    // After a mutation the cached root tracks the fresh root of the new value.
    let mut mutated = bytes.clone();
    for k in 32..64 {
        mutated[k] = 7;
    }
    let mut cache = cache;
    cache.set_leaf(1, vec![7u8; 32]);
    assert_eq!(cache.root(), fresh_root(&mutated));

    // And again, for the zero-padded final chunk.
    let mut chunk3 = vec![0u8; 32];
    chunk3[0] = 9;
    let mut mutated2 = mutated.clone();
    mutated2[96] = 9;
    mutated2[97] = 0;
    mutated2[98] = 0;
    mutated2[99] = 0;
    cache.set_leaf(3, chunk3);
    assert_eq!(cache.root(), fresh_root(&mutated2));

    // The root is a real digest, not the leaves handed back.
    assert_ne!(cache.root(), vec![0u8; 32]);
}

#[test]
fn signing_domain_layout() {
    let spec = ChainSpec::foundation();
    let fork = Fork { previous_version: 5, current_version: 6, epoch: 10 };
    let root = Hash256::from_low_u64_le(0xAABB);
    let early = spec.get_domain(3, Domain::Deposit, &fork, &root);
    let v = early.to_vec();
    // Tag byte padded to four bytes, then the previous fork version.
    assert_eq!(&v[0..4], &[3, 0, 0, 0]);
    assert_eq!(&v[4..8], &[5, 0, 0, 0]);
    // The first 24 bytes of the genesis validators root.
    assert_eq!(&v[8..32], &root.to_vec()[0..24]);

    let late = spec.get_domain(10, Domain::Deposit, &fork, &root);
    assert_eq!(late.to_vec()[4..8], [6, 0, 0, 0]);
}

#[test]
fn ssz_primitive_decoding() {
    let bytes = ssz_encode(&0x0102030405060708u64);
    assert_eq!(bytes, vec![8, 7, 6, 5, 4, 3, 2, 1]);
    let (v, next) = decode_u64(&bytes, 0).unwrap();
    assert_eq!(v, 0x0102030405060708);
    assert_eq!(next, 8);
    assert_eq!(decode_u64(&bytes, 1), Err(DecodeError::TooShort));

    assert_eq!(decode_bool(&vec![0], 0).unwrap(), (false, 1));
    assert_eq!(decode_bool(&vec![1], 0).unwrap(), (true, 1));
    assert_eq!(decode_bool(&vec![2], 0), Err(DecodeError::InvalidBool));
    assert_eq!(decode_bool(&vec![], 0), Err(DecodeError::TooShort));
}

#[test]
fn double_vote_builder_builds_slashable_evidence() {
    let spec = ChainSpec::foundation();
    let fork = Fork { previous_version: 0, current_version: 0, epoch: 0 };
    let root = Hash256::zero();
    let indices = vec![1u64, 2u64];
    let signer = |_index: u64, _message: Vec<u8>| Signature::zero();

    let slashing = TestingAttesterSlashingBuilder::double_vote(
        AttesterSlashingTestTask::Valid,
        &indices,
        signer,
        &fork,
        &root,
        &spec,
    );
    assert_eq!(slashing.attestation_1.attesting_indices, indices);
    assert_eq!(slashing.attestation_2.attesting_indices, indices);
    assert!(slashing.attestation_1.indices_are_ascending());
    assert!(slashing.attestation_2.indices_are_ascending());
    // Shared source, differing target root: a double vote.
    assert_eq!(
        slashing.attestation_1.data.source,
        slashing.attestation_2.data.source
    );
    assert_eq!(
        slashing.attestation_1.data.target.epoch,
        slashing.attestation_2.data.target.epoch
    );
    assert_ne!(
        slashing.attestation_1.data.target.root,
        slashing.attestation_2.data.target.root
    );
    assert_eq!(slashing.attestation_1.signature.len(), 2);

    let broken = TestingAttesterSlashingBuilder::double_vote(
        AttesterSlashingTestTask::IndexedAttestation1Invalid,
        &indices,
        signer,
        &fork,
        &root,
        &spec,
    );
    assert_eq!(broken.attestation_1.attesting_indices, vec![1, 0]);
    assert!(!broken.attestation_1.indices_are_ascending());

    let not_slashable = TestingAttesterSlashingBuilder::double_vote(
        AttesterSlashingTestTask::NotSlashable,
        &indices,
        signer,
        &fork,
        &root,
        &spec,
    );
    assert_eq!(
        not_slashable.attestation_1.data,
        not_slashable.attestation_2.data
    );
}

#[test]
fn deterministic_keypairs_are_reproducible() {
    let a = beacon::rng::generate_deterministic_keypairs(3);
    let b = beacon::rng::generate_deterministic_keypairs(3);
    assert_eq!(a, b);
    assert_ne!(a[0].pk, a[1].pk);
}

#[test]
fn finalization_check_and_delay() {
    assert!(all_finalized_at(&vec![2, 2, 2], 2));
    assert!(!all_finalized_at(&vec![2, 1, 2], 2));
    assert!(all_finalized_at(&vec![], 7));
    // Four epochs of 8 slots at 1000 ms per slot, plus half a slot.
    assert_eq!(epoch_delay_millis(1000, 4, 8), 32_500);
}

#[test]
fn client_config_defaults() {
    let config = Config::default();
    assert_eq!(config.http_server, DEFAULT_HTTP_SERVER);
    assert!(!config.auto_register);
    assert!(!config.allow_unsynced_beacon_node);
    assert!(config.validator_range_ok());
}
