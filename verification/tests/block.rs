use beacon::block::{
    AttestationRecord, Block, BlockValidatorError, SszBlock, MAX_SSZ_BLOCK_LENGTH,
    MIN_SSZ_BLOCK_LENGTH,
};
use beacon::ssz::ssz_encode;

fn get_block_ssz(b: &Block) -> Vec<u8> {
    ssz_encode(b)
}

#[test]
fn test_ssz_block_zero_attestation_records() {
    let mut b = Block::zero();
    b.attestations = vec![];
    let ssz = get_block_ssz(&b);

    assert_eq!(
        SszBlock::from_slice(&ssz),
        Err(BlockValidatorError::NoAttestationRecords)
    );
}

#[test]
fn test_ssz_block_single_attestation_record() {
    let mut b = Block::zero();
    b.attestations = vec![AttestationRecord::zero()];
    let ssz = get_block_ssz(&b);

    assert_eq!(
        SszBlock::from_slice(&ssz),
        Err(BlockValidatorError::NoAttestationRecords)
    );
}

fn block_with_min_attestation_bytes() -> Vec<u8> {
    // A block whose single attestation carries enough bitfield bytes to
    // reach the minimum attestation record size.
    let mut record = AttestationRecord::zero();
    for i in 0..520 {
        record.attester_bitfield.set_bit(&i, &true);
    }
    let mut b = Block::zero();
    b.slot_number = 42;
    b.attestations = vec![record];
    get_block_ssz(&b)
}

#[test]
fn test_ssz_block_accessors() {
    let ssz = block_with_min_attestation_bytes();
    let block = SszBlock::from_slice(&ssz).unwrap();

    assert_eq!(block.len, ssz.len());
    assert_eq!(block.parent_hash(), vec![0u8; 32]);
    assert_eq!(block.slot_number(), 42);
    assert_eq!(block.randao_reveal(), vec![0u8; 32]);
    assert_eq!(block.pow_chain_ref(), vec![0u8; 32]);
    assert_eq!(block.act_state_root(), vec![0u8; 32]);
    assert_eq!(block.cry_state_root(), vec![0u8; 32]);
    // The block hash is a real digest: 32 bytes and not the input prefix.
    let h = block.block_hash();
    assert_eq!(h.len(), 32);
    assert_ne!(h, ssz[0..32].to_vec());
}

#[test]
fn test_ssz_block_too_short() {
    let ssz = vec![0u8; MIN_SSZ_BLOCK_LENGTH - 1];
    assert_eq!(SszBlock::from_slice(&ssz), Err(BlockValidatorError::TooShort));
}

#[test]
fn test_ssz_block_too_long() {
    let ssz = vec![0u8; MAX_SSZ_BLOCK_LENGTH + 1];
    assert_eq!(SszBlock::from_slice(&ssz), Err(BlockValidatorError::TooLong));
}
