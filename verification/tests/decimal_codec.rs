use alpaca_client::DecodeError;
use alpaca_client::decimal::Decimal;

fn dec(mantissa: i64, scale: usize) -> Decimal {
    Decimal { mantissa, scale }
}

#[test]
fn encode_whole_numbers() {
    assert_eq!(dec(0, 0).encode(), "0");
    assert_eq!(dec(2, 0).encode(), "2");
    assert_eq!(dec(-17, 0).encode(), "-17");
    assert_eq!(dec(9_223_372_036_854_775_807, 0).encode(), "9223372036854775807");
}

#[test]
fn encode_fractions() {
    assert_eq!(dec(12345, 2).encode(), "123.45");
    assert_eq!(dec(5, 2).encode(), "0.05");
    assert_eq!(dec(-5, 1).encode(), "-0.5");
    assert_eq!(dec(1, 18).encode(), "0.000000000000000001");
}

#[test]
fn decode_exact_values() {
    assert_eq!(Decimal::decode("123.45"), Ok(dec(12345, 2)));
    assert_eq!(Decimal::decode("0"), Ok(dec(0, 0)));
    assert_eq!(Decimal::decode("-0.5"), Ok(dec(-5, 1)));
    assert_eq!(Decimal::decode("2"), Ok(dec(2, 0)));
}

#[test]
fn decode_normalizes_redundant_digits() {
    // Two textual forms differing only in redundant digits carry the
    // same value, bit for bit.
    assert_eq!(Decimal::decode("1.50"), Decimal::decode("1.5"));
    assert_eq!(Decimal::decode("007"), Ok(dec(7, 0)));
    assert_eq!(Decimal::decode("10.000"), Ok(dec(10, 0)));
    assert_eq!(Decimal::decode("-0"), Ok(dec(0, 0)));
    assert_eq!(Decimal::decode("0.100000000000000000000000"), Ok(dec(1, 1)));
}

#[test]
fn round_trip_bit_for_bit() {
    let samples = [
        dec(0, 0),
        dec(2, 0),
        dec(1, 1),
        dec(-1, 1),
        dec(12345, 2),
        dec(-98765, 3),
        dec(9_223_372_036_854_775_807, 0),
        dec(-9_223_372_036_854_775_807, 0),
        dec(1, 18),
        dec(123456789012345678, 9),
    ];
    for v in samples {
        assert_eq!(Decimal::decode(&v.encode()), Ok(v));
    }
}

#[test]
fn malformed_numerals_are_rejected() {
    for bad in [
        "12.34.56", "", "-", ".", ".5", "5.", "1e5", "2E3", "+1", "12a", "1.2x", "--2", "1..2",
        " 1", "0x10", "NaN", "inf",
    ] {
        assert_eq!(Decimal::decode(bad), Err(DecodeError::MalformedNumber), "input {bad:?}");
    }
}

#[test]
fn values_beyond_working_precision_are_rejected() {
    // One past the largest mantissa.
    assert_eq!(Decimal::decode("9223372036854775808"), Err(DecodeError::MalformedNumber));
    // Nineteen significant fractional digits.
    assert_eq!(Decimal::decode("0.0000000000000000001"), Err(DecodeError::MalformedNumber));
    // Trailing zeros past the scale cap are still fine once stripped.
    assert_eq!(
        Decimal::decode("0.1000000000000000000000"),
        Ok(dec(1, 1)),
    );
}

#[test]
fn from_int_is_whole() {
    assert_eq!(Decimal::from_int(42), dec(42, 0));
    assert_eq!(Decimal::from_int(-3).encode(), "-3");
    assert!(Decimal::from_int(7).check());
}
