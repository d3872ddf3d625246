use beacon::config::ChainSpec;
use beacon::state::{BeaconStateBuilder, BeaconStateError};

#[test]
fn builder_genesis_and_teleport() {
    let mut builder = BeaconStateBuilder::with_random_validators(8);
    assert_eq!(builder.keypairs.len(), 8);
    builder.genesis().unwrap();

    let state = builder.build().unwrap();
    assert_eq!(state.slot, 0);
    assert_eq!(state.validator_registry.len(), 8);
    assert_eq!(state.balances, vec![32_000_000_000u64; 8]);
    for (k, v) in state.validator_registry.iter().enumerate() {
        assert_eq!(v.pubkey, builder.keypairs[k].pk);
    }

    builder.teleport_to_end_of_epoch(2);
    let state = builder.build().unwrap();
    let spec = ChainSpec::foundation();
    assert_eq!(state.slot, 3 * spec.epoch_length - 1);
    assert_eq!(state.justified_epoch, 1);
    assert_eq!(state.finalized_epoch, 1);
    assert_eq!(state.previous_justified_epoch, 0);
}

#[test]
fn builder_inserts_attestations() {
    let mut builder = BeaconStateBuilder::with_random_validators(8);
    builder.genesis().unwrap();
    builder.teleport_to_end_of_epoch(2);
    builder.insert_attestations().unwrap();

    let state = builder.build().unwrap();
    let spec = ChainSpec::foundation();
    // One committee per slot (sparse shape): all 64 slots of the previous
    // epoch, then the 63 elapsed slots of the current epoch.
    assert_eq!(state.latest_attestations.len(), 64 + 63);
    for (k, attestation) in state.latest_attestations.iter().enumerate() {
        assert_eq!(attestation.inclusion_slot, attestation.data.slot);
        if k < 64 {
            // Previous-epoch votes cite the previously justified checkpoint.
            assert_eq!(attestation.data.slot, spec.epoch_length + k as u64);
            assert_eq!(attestation.data.target.epoch, 1);
            assert_eq!(attestation.data.source.epoch, 0);
        } else {
            // Current-epoch votes cite the justified checkpoint.
            assert_eq!(attestation.data.slot, 2 * spec.epoch_length + (k as u64 - 64));
            assert_eq!(attestation.data.target.epoch, 2);
            assert_eq!(attestation.data.source.epoch, 1);
        }
    }
}

#[test]
fn block_root_window() {
    let mut builder = BeaconStateBuilder::with_random_validators(2);
    builder.genesis().unwrap();
    builder.teleport_to_end_of_epoch(2);
    let state = builder.build().unwrap();
    let spec = ChainSpec::foundation();

    // Roots are served for the window before the current slot, not beyond.
    assert!(state.get_block_root(state.slot - 1, &spec).is_ok());
    assert_eq!(
        state.get_block_root(state.slot, &spec),
        Err(BeaconStateError::SlotOutOfRange)
    );

    // Epoch queries outside the current and previous epoch are refused.
    assert_eq!(
        state.get_crosslink_committees_at_slot(0, &spec),
        Err(BeaconStateError::EpochOutOfRange)
    );
    let committees = state
        .get_crosslink_committees_at_slot(spec.epoch_length, &spec)
        .unwrap();
    assert_eq!(committees.len(), 1);
}
