use atomic_swap::u256::{u256_to_u64array, u64array_to_u256, CodecError, U256};

fn do_test_u256_to_u64array(expected_u256: U256, expected_u64array: Vec<u64>) {
    assert_eq!(expected_u64array.len(), 4);

    let u64array = u256_to_u64array(&expected_u256);

    assert_eq!(u64array[0], expected_u64array[0]);
    assert_eq!(u64array[1], expected_u64array[1]);
    assert_eq!(u64array[2], expected_u64array[2]);
    assert_eq!(u64array[3], expected_u64array[3]);

    let u256 = u64array_to_u256(u64array);

    assert_eq!(u256, expected_u256);
}

#[test]
fn test_u256_to_u64array() {
    do_test_u256_to_u64array(
        U256::from_dec_str(
            "112874956271937818984300676023995443620017137826812392247603206681821520986618",
        )
        .unwrap(),
        vec![
            5264901914485981690,
            2440863701439358041,
            12221174418977567583,
            17982017980625340069,
        ],
    );
    do_test_u256_to_u64array(U256::from_dec_str("1").unwrap(), vec![1, 0, 0, 0]);
    do_test_u256_to_u64array(U256::from_dec_str("0").unwrap(), vec![0, 0, 0, 0]);
    do_test_u256_to_u64array(
        U256::from_dec_str("9134136032198266807219851950679215").unwrap(),
        vec![5858208856384070831, 495162506494374, 0, 0],
    );
}

#[test]
fn test_from_dec_str_rejects_non_decimal() {
    assert_eq!(U256::from_dec_str(""), Err(CodecError::NotDecimal));
    assert_eq!(U256::from_dec_str("12x4"), Err(CodecError::NotDecimal));
    assert_eq!(U256::from_dec_str("-5"), Err(CodecError::NotDecimal));
    assert_eq!(U256::from_dec_str(" 5"), Err(CodecError::NotDecimal));
}

#[test]
fn test_from_dec_str_overflow_boundary() {
    // 2^256 - 1 is the largest value that fits; 2^256 is not.
    let max = U256::from_dec_str(
        "115792089237316195423570985008687907853269984665640564039457584007913129639935",
    )
    .unwrap();
    assert_eq!(max.limbs, [u64::MAX; 4]);
    assert_eq!(
        U256::from_dec_str(
            "115792089237316195423570985008687907853269984665640564039457584007913129639936",
        ),
        Err(CodecError::Overflow)
    );
}

#[test]
fn test_from_dec_str_leading_zeros() {
    assert_eq!(U256::from_dec_str("000255").unwrap(), U256::from_u64(255));
}

#[test]
fn test_parse_u64_dec() {
    assert_eq!(U256::parse_u64_dec("18446744073709551615"), Ok(u64::MAX));
    assert_eq!(
        U256::parse_u64_dec("18446744073709551616"),
        Err(CodecError::Overflow)
    );
    assert_eq!(U256::parse_u64_dec("zero"), Err(CodecError::NotDecimal));
    assert_eq!(U256::parse_u64_dec("42"), Ok(42));
}

#[test]
fn test_bytes_be_round_trip() {
    let v = U256::from_dec_str(
        "112874956271937818984300676023995443620017137826812392247603206681821520986618",
    )
    .unwrap();
    let be = v.to_bytes_be();
    assert_eq!(be.len(), 32);
    let back = U256::from_bytes_be(be.as_slice());
    assert_eq!(back, v);
}

#[test]
fn test_bytes_be_of_small_value() {
    let v = U256::from_u64(0x0102);
    let be = v.to_bytes_be();
    assert_eq!(&be[..30], &[0u8; 30]);
    assert_eq!(be[30], 0x01);
    assert_eq!(be[31], 0x02);
    let le = v.to_bytes_le();
    assert_eq!(le[0], 0x02);
    assert_eq!(le[1], 0x01);
    assert_eq!(&le[2..], &[0u8; 30]);
}

#[test]
fn test_value_order_and_equality() {
    let a = U256::from_u64(7);
    let b = U256::from_u128(1u128 << 90);
    assert!(a.lt(&b));
    assert!(!b.lt(&a));
    assert!(!a.lt(&a));
    assert!(a.eq_value(&U256::from_u64(7)));
    assert!(!a.eq_value(&b));
    assert!(U256::zero().is_zero());
    assert!(!a.is_zero());
}

#[test]
fn test_mul_small_add() {
    let a = U256::from_u64(12).mul_small_add(10, 3).unwrap();
    assert_eq!(a, U256::from_u64(123));
    let max = U256 {
        limbs: [u64::MAX; 4],
    };
    assert!(max.mul_small_add(10, 3).is_none());
}
