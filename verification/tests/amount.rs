use std::str::FromStr;

use rust_decimal::Decimal;
use transactions::record::amount::{Amount, AmountError, MAX_TICKS};

fn ticks(t: u128) -> Amount {
    Amount::from_ticks(t).unwrap()
}

fn parse(s: &str) -> Result<Amount, AmountError> {
    let d = Decimal::from_str(s).unwrap();
    Amount::from_decimal_parts(d.mantissa(), d.scale())
}

#[test]
fn test_boundaries() {
    assert_eq!(parse("0.0").unwrap(), ticks(0));
    assert_eq!(parse("-0.0").unwrap(), ticks(0));
    assert_eq!(parse("-0.1").unwrap_err().message(), "amount must be non-negative");
}

#[test]
fn test_no_rounding() {
    assert_eq!(parse("12.34").unwrap(), ticks(123400));
    assert_eq!(parse("12.3456").unwrap(), ticks(123456));
    assert_eq!(parse("12.34561").unwrap(), ticks(123456));
    assert_eq!(parse("12.34567").unwrap(), ticks(123456));
}

#[test]
fn whole_numbers_and_tiny_fractions() {
    assert_eq!(parse("12").unwrap(), ticks(120000));
    assert_eq!(parse("0.00009").unwrap(), ticks(0));
    assert_eq!(parse("0.0001").unwrap(), ticks(1));
    assert_eq!(parse("7.000000000000000000000000001").unwrap(), ticks(70000));
}

#[test]
fn negative_amounts_are_refused() {
    assert_eq!(parse("-12").unwrap_err(), AmountError::Negative);
    assert_eq!(parse("-0.00001").unwrap_err(), AmountError::Negative);
}

#[test]
fn largest_decimal_keeps_every_digit() {
    let max = Decimal::MAX;
    assert_eq!(
        Amount::from_decimal_parts(max.mantissa(), max.scale()).unwrap(),
        ticks(max.mantissa() as u128 * 10000)
    );
    assert_eq!(
        Amount::from_decimal_parts(max.mantissa(), max.scale()).unwrap().ticks(),
        MAX_TICKS
    );
    assert_eq!(Amount::from_decimal_parts(5, 28).unwrap(), ticks(0));
    assert_eq!(Amount::from_decimal_parts(123456789, 5).unwrap(), ticks(12345678));
}
