use merkle_commit::field::{u8_to_goldilocks, GoldilocksField, FIELD_ORDER};

#[test]
fn test_field_arithmetic_exact() {
    assert_eq!(FIELD_ORDER, 18446744069414584321);

    let a = GoldilocksField(FIELD_ORDER - 1);
    let one = GoldilocksField(1);
    // Wraparound at the order.
    assert_eq!(a.add(one).0, 0);
    assert_eq!(GoldilocksField(0).sub(one).0, FIELD_ORDER - 1);
    assert_eq!(one.neg().0, FIELD_ORDER - 1);
    assert_eq!(GoldilocksField(0).neg().0, 0);

    // (order - 1) is a square root of 1.
    assert_eq!(a.mul(a).0, 1);
    assert_eq!(a.square().0, 1);

    // Plain small-number arithmetic.
    assert_eq!(GoldilocksField(3).add(GoldilocksField(4)).0, 7);
    assert_eq!(GoldilocksField(6).mul(GoldilocksField(7)).0, 42);
    assert_eq!(GoldilocksField(10).sub(GoldilocksField(3)).0, 7);

    // Reduction of non-canonical representatives.
    assert_eq!(GoldilocksField::from_noncanonical_u64(FIELD_ORDER).0, 0);
    assert_eq!(
        GoldilocksField::from_noncanonical_u64(u64::MAX).0,
        u64::MAX - FIELD_ORDER
    );
    assert_eq!(
        GoldilocksField::from_noncanonical_u128((FIELD_ORDER as u128) * 5 + 11).0,
        11
    );
}

#[test]
fn test_u8_to_goldilocks_chunks() {
    // One full chunk and one padded chunk.
    let bytes: Vec<u8> = vec![1, 0, 0, 0, 0, 0, 0, 0, 2, 0, 0];
    let elements = u8_to_goldilocks(&bytes);
    assert_eq!(elements.len(), 2);
    assert_eq!(elements[0].0, 1);
    assert_eq!(elements[1].0, 2);

    // Little-endian within a chunk.
    let bytes: Vec<u8> = vec![0x01, 0x02];
    let elements = u8_to_goldilocks(&bytes);
    assert_eq!(elements.len(), 1);
    assert_eq!(elements[0].0, 0x0201);

    let empty: Vec<u8> = Vec::new();
    assert_eq!(u8_to_goldilocks(&empty).len(), 0);
}
