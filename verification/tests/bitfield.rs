use beacon::bitfield::BooleanBitfield;

#[test]
fn test_bitfield_set() {
    let mut b = BooleanBitfield::new();
    b.set_bit(&0, &false);
    assert_eq!(b.to_be_vec(), [0]);

    b = BooleanBitfield::new();
    b.set_bit(&7, &true);
    assert_eq!(b.to_be_vec(), [128]);
    b.set_bit(&7, &false);
    assert_eq!(b.to_be_vec(), [0]);
    assert_eq!(b.len(), 8);

    b = BooleanBitfield::new();
    b.set_bit(&7, &true);
    b.set_bit(&0, &true);
    assert_eq!(b.to_be_vec(), [129]);
    b.set_bit(&7, &false);
    assert_eq!(b.to_be_vec(), [1]);
    assert_eq!(b.len(), 8);

    b = BooleanBitfield::new();
    b.set_bit(&8, &true);
    assert_eq!(b.to_be_vec(), [1, 0]);
    b.set_bit(&8, &false);
    assert_eq!(b.to_be_vec(), [0, 0]);
    assert_eq!(b.len(), 9);

    b = BooleanBitfield::new();
    b.set_bit(&15, &true);
    assert_eq!(b.to_be_vec(), [128, 0]);
    b.set_bit(&15, &false);
    assert_eq!(b.to_be_vec(), [0, 0]);
    assert_eq!(b.len(), 16);

    b = BooleanBitfield::new();
    b.set_bit(&8, &true);
    b.set_bit(&15, &true);
    assert_eq!(b.to_be_vec(), [129, 0]);
    b.set_bit(&15, &false);
    assert_eq!(b.to_be_vec(), [1, 0]);
    assert_eq!(b.len(), 16);
}

#[test]
fn test_bitfield_get() {
    let test_nums = vec![0, 8, 15, 42, 1337];
    for i in test_nums {
        let mut b = BooleanBitfield::new();
        assert_eq!(b.get_bit(&i), false);
        b.set_bit(&i, &true);
        assert_eq!(b.get_bit(&i), true);
        b.set_bit(&i, &true);
    }
}

#[test]
fn test_bitfield_rlp_serialization() {
    let mut b = BooleanBitfield::new();
    b.set_bit(&15, &true);
    let e = rlp::encode(&b.to_be_vec()).to_vec();
    assert_eq!(e[0], 130);
    assert_eq!(e[1], 128);
    assert_eq!(e[2], 0);
}

#[test]
fn test_bitfield_num_true_bits() {
    let mut b = BooleanBitfield::new();
    assert_eq!(b.num_true_bits(), 0);
    b.set_bit(&15, &true);
    assert_eq!(b.num_true_bits(), 1);
    b.set_bit(&15, &false);
    assert_eq!(b.num_true_bits(), 0);
    b.set_bit(&0, &true);
    b.set_bit(&7, &true);
    b.set_bit(&8, &true);
    b.set_bit(&1337, &true);
    assert_eq!(b.num_true_bits(), 4);
}
