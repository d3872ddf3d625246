use beacon::config::ChainSpec;
use beacon::duties::{
    DutiesManager, DutiesReader, EpochDuties, EpochDutiesMap, EpochMap, PollOutcome,
};
use beacon::types::Keypair;

#[test]
pub fn polling() {
    let spec = ChainSpec::foundation();
    let keypair = Keypair::random();
    let mut manager = DutiesManager {
        duties_map: EpochDutiesMap::new(),
        pubkey: keypair.pk,
        epoch_length: spec.epoch_length,
    };

    // The beacon node answers with duties for the first time...
    let first = EpochDuties { block_production_slot: Some(10), shard: Some(12) };
    assert_eq!(manager.poll(Some(0), Some(first)), Ok(PollOutcome::NewDuties));
    // The same duties again...
    assert_eq!(manager.poll(Some(0), Some(first)), Ok(PollOutcome::NoChange));

    // New duties.
    let second = EpochDuties { block_production_slot: Some(11), shard: Some(12) };
    assert_eq!(manager.poll(Some(0), Some(second)), Ok(PollOutcome::DutiesChanged));

    // No duties.
    assert_eq!(manager.poll(Some(0), None), Ok(PollOutcome::UnknownValidatorOrEpoch));
}

#[test]
fn polling_error_paths() {
    let keypair = Keypair::random();
    let mut manager = DutiesManager {
        duties_map: EpochDutiesMap::new(),
        pubkey: keypair.pk,
        epoch_length: 64,
    };
    let duties = EpochDuties { block_production_slot: None, shard: None };
    assert!(matches!(manager.poll(None, Some(duties)), Err(beacon::duties::Error::SlotUnknowable)));

    let keypair = Keypair::random();
    let mut zero_len = DutiesManager {
        duties_map: EpochDutiesMap::new(),
        pubkey: keypair.pk,
        epoch_length: 0,
    };
    assert!(matches!(
        zero_len.poll(Some(0), Some(duties)),
        Err(beacon::duties::Error::EpochLengthIsZero)
    ));
}

#[test]
fn is_block_production_slot() {
    let duties = EpochDuties { block_production_slot: Some(10), shard: Some(12) };
    assert!(duties.is_block_production_slot(10));
    assert!(!duties.is_block_production_slot(11));
    let none = EpochDuties { block_production_slot: None, shard: None };
    assert!(!none.is_block_production_slot(10));
}

#[test]
fn epoch_map_duties() {
    let mut map = EpochMap::new(8);
    map.insert_attestation_shard(17, 3);
    map.set_validator_index(Some(5));

    // Slot 17 sits in epoch 2: the duty names exactly that slot.
    assert_eq!(map.attestation_shard(17), Ok(Some(3)));
    // Another slot of the same epoch: no duty there.
    assert_eq!(map.attestation_shard(16), Ok(None));
    // A slot of an unknown epoch.
    assert_eq!(
        map.attestation_shard(99),
        Err(beacon::duties::DutiesReaderError::UnknownEpoch)
    );
    assert_eq!(map.validator_index(), Some(5));
}
