use beacon::record::{RecentPropserRecord, Sha256Digest};

#[test]
fn test_rlp_serialization() {
    let index = 1;
    let randao_commitment = Sha256Digest::zero();
    let balance_delta = 99;
    let r = RecentPropserRecord::new(index, randao_commitment, balance_delta);
    let e = r.rlp_bytes();
    assert_eq!(e.len(), 34);
    assert_eq!(e[0], 1);
    assert_eq!(e[1], 160);
    assert_eq!(e[2..34], [0; 32]);
}

#[test]
fn test_rlp_zero_index() {
    // RLP encodes the integer zero as an empty string: the 0x80 marker.
    let r = RecentPropserRecord::new(0, Sha256Digest::zero(), 0);
    let e = r.rlp_bytes();
    assert_eq!(e.len(), 34);
    assert_eq!(e[0], 128);
    assert_eq!(e[1], 160);
}
