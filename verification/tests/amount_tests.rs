use proving_service::amount::{Amount, MICROS_PER_UNIT};

#[test]
fn parse_whole_number() {
    assert_eq!(Amount::parse_decimal("10").unwrap().as_micros(), 10 * MICROS_PER_UNIT);
    assert_eq!(Amount::parse_decimal("0").unwrap().as_micros(), 0);
}

#[test]
fn parse_fractional_number() {
    assert_eq!(Amount::parse_decimal("2.5").unwrap().as_micros(), 2_500_000);
    assert_eq!(Amount::parse_decimal("0.000001").unwrap().as_micros(), 1);
    assert_eq!(Amount::parse_decimal("1.0").unwrap().as_micros(), MICROS_PER_UNIT);
}

#[test]
fn parse_rejects_malformed_text() {
    assert!(Amount::parse_decimal("").is_none());
    assert!(Amount::parse_decimal("abc").is_none());
    assert!(Amount::parse_decimal(".5").is_none());
    assert!(Amount::parse_decimal("2.").is_none());
    assert!(Amount::parse_decimal("2.5.3").is_none());
    assert!(Amount::parse_decimal("-1").is_none());
    assert!(Amount::parse_decimal("1e3").is_none());
    assert!(Amount::parse_decimal("1.2345678").is_none());
    assert!(Amount::parse_decimal("2 5").is_none());
}

#[test]
fn parse_rejects_out_of_range() {
    // largest representable quantity: u64::MAX millionths
    assert!(Amount::parse_decimal("18446744073709551615.999999").is_none());
    assert_eq!(
        Amount::parse_decimal("18446744073709.551615").unwrap().as_micros(),
        u64::MAX
    );
}

#[test]
fn format_is_canonical() {
    assert_eq!(Amount::from_micros(2_500_000).to_decimal_string(), "2.5");
    assert_eq!(Amount::from_micros(0).to_decimal_string(), "0.0");
    assert_eq!(
        Amount::from_micros(2550 * MICROS_PER_UNIT).to_decimal_string(),
        "2550.0"
    );
    assert_eq!(Amount::from_micros(1).to_decimal_string(), "0.000001");
    assert_eq!(Amount::from_micros(1_100_000).to_decimal_string(), "1.1");
}

#[test]
fn format_parse_round_trip() {
    let samples: [u64; 8] = [
        0,
        1,
        999_999,
        1_000_000,
        2_500_000,
        123_456_789,
        2550 * MICROS_PER_UNIT,
        u64::MAX,
    ];
    for m in samples {
        let a = Amount::from_micros(m);
        let text = a.to_decimal_string();
        let back = Amount::parse_decimal(text.as_str()).unwrap();
        assert_eq!(back.as_micros(), m);
    }
}

#[test]
fn checked_add_detects_overflow() {
    let a = Amount::from_micros(u64::MAX - 1);
    assert_eq!(a.checked_add(Amount::from_micros(1)).unwrap().as_micros(), u64::MAX);
    assert!(a.checked_add(Amount::from_micros(2)).is_none());
}

#[test]
fn checked_mul_truncates_to_millionths() {
    let a = Amount::from_micros(2_500_000); // 2.5
    let b = Amount::from_micros(100 * MICROS_PER_UNIT); // 100.0
    assert_eq!(a.checked_mul(b).unwrap().as_micros(), 250 * MICROS_PER_UNIT);
    // 0.000001 * 0.5 = 0.0000005, truncated to 0
    let tiny = Amount::from_micros(1).checked_mul(Amount::from_micros(500_000)).unwrap();
    assert_eq!(tiny.as_micros(), 0);
    assert!(Amount::from_micros(u64::MAX).checked_mul(Amount::from_micros(u64::MAX)).is_none());
}
