use block_transfer::amount::{parse_amount, AmountError, UNIT_DECIMALS, UNIT_SCALE};

#[test]
fn scale_is_ten_to_the_decimals() {
    assert_eq!(UNIT_SCALE, 10u64.pow(UNIT_DECIMALS as u32));
}

#[test]
fn nine_decimals_are_kept_exactly() {
    assert_eq!(parse_amount("0.123456789"), Ok(123_456_789));
}

#[test]
fn tenth_decimal_is_dropped_not_rounded() {
    assert_eq!(parse_amount("0.1234567895"), Ok(123_456_789));
    assert_eq!(parse_amount("0.9999999999"), Ok(999_999_999));
    assert_eq!(parse_amount("0.0000000009"), Ok(0));
}

#[test]
fn whole_amounts_are_scaled() {
    assert_eq!(parse_amount("1"), Ok(1_000_000_000));
    assert_eq!(parse_amount("0"), Ok(0));
    assert_eq!(parse_amount("42"), Ok(42_000_000_000));
    assert_eq!(parse_amount("007"), Ok(7_000_000_000));
}

#[test]
fn short_fractions_are_padded() {
    assert_eq!(parse_amount("1.5"), Ok(1_500_000_000));
    assert_eq!(parse_amount("0.001"), Ok(1_000_000));
    assert_eq!(parse_amount("2.000000001"), Ok(2_000_000_001));
}

#[test]
fn point_may_stand_first_or_last() {
    assert_eq!(parse_amount(".5"), Ok(500_000_000));
    assert_eq!(parse_amount("3."), Ok(3_000_000_000));
}

#[test]
fn text_without_digits_is_malformed() {
    assert_eq!(parse_amount(""), Err(AmountError::Malformed));
    assert_eq!(parse_amount("."), Err(AmountError::Malformed));
}

#[test]
fn foreign_characters_are_malformed() {
    assert_eq!(parse_amount("-1"), Err(AmountError::Malformed));
    assert_eq!(parse_amount("+1"), Err(AmountError::Malformed));
    assert_eq!(parse_amount("1e3"), Err(AmountError::Malformed));
    assert_eq!(parse_amount("1,5"), Err(AmountError::Malformed));
    assert_eq!(parse_amount(" 1"), Err(AmountError::Malformed));
    assert_eq!(parse_amount("1.2.3"), Err(AmountError::Malformed));
    assert_eq!(parse_amount("1.5x"), Err(AmountError::Malformed));
    assert_eq!(parse_amount("NaN"), Err(AmountError::Malformed));
    assert_eq!(parse_amount("١"), Err(AmountError::Malformed));
}

#[test]
fn largest_amount_fits() {
    assert_eq!(parse_amount("18446744073.709551615"), Ok(u64::MAX));
    assert_eq!(parse_amount("18446744073.7095516159"), Ok(u64::MAX));
}

#[test]
fn one_minor_unit_more_is_too_large() {
    assert_eq!(parse_amount("18446744073.709551616"), Err(AmountError::TooLarge));
    assert_eq!(parse_amount("18446744074"), Err(AmountError::TooLarge));
    assert_eq!(
        parse_amount("99999999999999999999999999999999999999999999"),
        Err(AmountError::TooLarge)
    );
}

#[test]
fn malformed_wins_over_too_large() {
    assert_eq!(
        parse_amount("99999999999999999999999999999999999999999999x"),
        Err(AmountError::Malformed)
    );
    assert_eq!(
        parse_amount("99999999999999999999999999999999999999999999.1."),
        Err(AmountError::Malformed)
    );
}

#[test]
fn leading_zeros_do_not_count_as_size() {
    assert_eq!(
        parse_amount("0000000000000000000000000000000000000000000001.25"),
        Ok(1_250_000_000)
    );
}

#[test]
fn agrees_with_floating_point_where_that_is_exact() {
    for (text, value) in [("0.5", 0.5f64), ("2.25", 2.25), ("1024", 1024.0), ("0.125", 0.125)] {
        assert_eq!(parse_amount(text), Ok((value * 1_000_000_000.0) as u64));
    }
}
