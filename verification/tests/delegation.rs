use beacon::delegation::{generate_cycle, DelegatedCycle, TransitionError};

fn generate_cycle_helper(
    validator_count: &usize,
    shard_count: &usize,
    crosslinking_shard_start: &usize,
    cycle_length: &usize,
    min_committee_size: &usize,
) -> (Vec<usize>, Vec<usize>, Result<DelegatedCycle, TransitionError>) {
    let validator_indices: Vec<usize> = (0_usize..*validator_count).collect();
    let shard_indices: Vec<usize> = (0_usize..*shard_count).collect();
    let result = generate_cycle(
        &validator_indices,
        &shard_indices,
        crosslinking_shard_start,
        cycle_length,
        min_committee_size,
    );
    (validator_indices, shard_indices, result)
}

fn flatten_validators(cycle: &DelegatedCycle) -> Vec<usize> {
    let mut flattened = vec![];
    for slot in cycle.iter() {
        for sac in slot.iter() {
            for validator in sac.committee.iter() {
                flattened.push(*validator);
            }
        }
    }
    flattened
}

fn flatten_and_dedup_shards(cycle: &DelegatedCycle) -> Vec<usize> {
    let mut flattened = vec![];
    for slot in cycle.iter() {
        for sac in slot.iter() {
            flattened.push(sac.shard_id as usize);
        }
    }
    flattened.dedup();
    flattened
}

fn flatten_shards_in_slots(cycle: &DelegatedCycle) -> Vec<Vec<usize>> {
    let mut shards_in_slots: Vec<Vec<usize>> = vec![];
    for slot in cycle.iter() {
        let mut shards: Vec<usize> = vec![];
        for sac in slot.iter() {
            shards.push(sac.shard_id as usize);
        }
        shards_in_slots.push(shards);
    }
    shards_in_slots
}

#[test]
fn test_generate_cycle() {
    let validator_count: usize = 100;
    let shard_count: usize = 10;
    let crosslinking_shard_start: usize = 0;
    let cycle_length: usize = 20;
    let min_committee_size: usize = 10;
    let (validators, shards, result) = generate_cycle_helper(
        &validator_count,
        &shard_count,
        &crosslinking_shard_start,
        &cycle_length,
        &min_committee_size,
    );
    let cycle = result.unwrap();

    let assigned_validators = flatten_validators(&cycle);
    let assigned_shards = flatten_and_dedup_shards(&cycle);
    let shards_in_slots = flatten_shards_in_slots(&cycle);
    assert_eq!(assigned_validators, validators, "Validator assignment incorrect");
    assert_eq!(assigned_shards, shards, "Shard assignment incorrect");

    // 100 validators over 20 slots: one committee of 5 validators per slot.
    for slot in cycle.iter() {
        assert_eq!(slot.len(), 1);
        assert_eq!(slot[0].committee.len(), 5);
    }

    let expected_shards_in_slots: Vec<Vec<usize>> = vec![
        vec![0],
        vec![0],
        vec![1],
        vec![1],
        vec![2],
        vec![2],
        vec![3],
        vec![3],
        vec![4],
        vec![4],
        vec![5],
        vec![5],
        vec![6],
        vec![6],
        vec![7],
        vec![7],
        vec![8],
        vec![8],
        vec![9],
        vec![9],
    ];
    assert_eq!(expected_shards_in_slots, shards_in_slots, "Shard assignment incorrect.")
}

// The committees-per-slot count is capped by the shard count: with 101
// validators over 10 slots and 15 shards, the min-of-two-formulas cap keeps
// one committee per slot, and the shards advance one per slot.
#[test]
fn test_generate_cycle_committees_bounded() {
    let validator_count: usize = 101;
    let shard_count: usize = 15;
    let crosslinking_shard_start: usize = 0;
    let cycle_length: usize = 10;
    let min_committee_size: usize = 10;
    let (validators, _shards, result) = generate_cycle_helper(
        &validator_count,
        &shard_count,
        &crosslinking_shard_start,
        &cycle_length,
        &min_committee_size,
    );
    let cycle = result.unwrap();

    let assigned_validators = flatten_validators(&cycle);
    let shards_in_slots = flatten_shards_in_slots(&cycle);
    assert_eq!(assigned_validators, validators, "Validator assignment incorrect");

    for (i, slot) in cycle.iter().enumerate() {
        assert_eq!(slot.len(), 1, "Shard assignment incorrect");
        // Slot boundaries fall at floor(101 * i / 10).
        let expected_size = 101 * (i + 1) / 10 - 101 * i / 10;
        assert_eq!(slot[0].committee.len(), expected_size);
    }
    let expected_shards_in_slots: Vec<Vec<usize>> = vec![
        vec![0],
        vec![1],
        vec![2],
        vec![3],
        vec![4],
        vec![5],
        vec![6],
        vec![7],
        vec![8],
        vec![9],
    ];
    assert_eq!(expected_shards_in_slots, shards_in_slots, "Shard assignment incorrect.")
}

#[test]
fn test_generate_cycle_rejects_zero_shard_quotient() {
    // Dense active set, but fewer shards than the cycle length: refused.
    let (_validators, _shards, result) = generate_cycle_helper(&200, &5, &0, &10, &10);
    assert!(matches!(result, Err(TransitionError::InvalidInput(_))));
}

#[test]
fn test_generate_cycle_shard_start_offset() {
    // The round-robin starts at the crosslinking shard start.
    let (_validators, _shards, result) = generate_cycle_helper(&100, &10, &3, &20, &10);
    let cycle = result.unwrap();
    let shards_in_slots = flatten_shards_in_slots(&cycle);
    assert_eq!(shards_in_slots[0], vec![3]);
    assert_eq!(shards_in_slots[2], vec![4]);
}
