use beacon::store::{ClientDB, KeyPrefixes, MemoryDB, ValidatorStore, ValidatorStoreError};
use beacon::types::Keypair;

#[test]
fn test_validator_store_put_get() {
    let db = MemoryDB::open();
    let mut store = ValidatorStore::new(db);

    let keys = vec![
        Keypair::random(),
        Keypair::random(),
        Keypair::random(),
        Keypair::random(),
        Keypair::random(),
    ];

    for i in 0..keys.len() {
        store.put_public_key_by_index(i, &keys[i].pk).unwrap();
    }

    // Check all keys are retrieved correctly.
    for i in 0..keys.len() {
        let retrieved = store.get_public_key_by_index(i).unwrap().unwrap();
        assert_eq!(retrieved, keys[i].pk);
    }

    // Check that an index that wasn't stored returns None.
    assert!(store.get_public_key_by_index(keys.len() + 1).unwrap().is_none());
}

#[test]
fn test_validator_store_bad_key() {
    let mut db = MemoryDB::open();
    let probe = ValidatorStore::new(MemoryDB::open());
    let key = probe.get_db_key_for_index(&KeyPrefixes::PublicKey, 42);
    db.put(&key, &"cats".as_bytes().to_vec()).unwrap();

    let store = ValidatorStore::new(db);
    assert_eq!(
        store.get_public_key_by_index(42),
        Err(ValidatorStoreError::DecodeError)
    );
}

#[test]
fn test_validator_store_overwrite() {
    let mut store = ValidatorStore::new(MemoryDB::open());
    let first = Keypair::random();
    let second = Keypair::random();
    store.put_public_key_by_index(3, &first.pk).unwrap();
    store.put_public_key_by_index(3, &second.pk).unwrap();
    let retrieved = store.get_public_key_by_index(3).unwrap().unwrap();
    assert_eq!(retrieved, second.pk);
}
