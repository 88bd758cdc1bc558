use bangida::decimal::{parse_decimal, Dec};
use bangida::risk::position_sizer::PositionSizer;

fn d(s: &str) -> Dec {
    parse_decimal(s).unwrap()
}

#[test]
fn test_fixed_fractional() {
    let qty = PositionSizer::fixed_fractional(d("10000"), d("0.01"), d("0.005"));
    assert_eq!(qty, d("20000"));
}

#[test]
fn test_fixed_fractional_zero_stop() {
    let qty = PositionSizer::fixed_fractional(d("10000"), d("0.01"), d("0.0"));
    assert_eq!(qty, Dec::zero());
}

#[test]
fn test_volatility_adjusted() {
    let qty = PositionSizer::volatility_adjusted(d("10000"), d("50"), d("0.01"));
    assert_eq!(qty, d("2"));
}

#[test]
fn sizing_rejects_non_positive_inputs() {
    assert_eq!(PositionSizer::fixed_fractional(d("10000"), d("-0.01"), d("0.005")), Dec::zero());
    assert_eq!(PositionSizer::volatility_adjusted(d("10000"), d("0"), d("0.01")), Dec::zero());
    assert_eq!(PositionSizer::volatility_adjusted(d("10000"), d("50"), d("0")), Dec::zero());
}
