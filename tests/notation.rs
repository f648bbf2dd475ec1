use std::f32::consts::PI;

use road_follower::text::{decimal_text, integer_decimal_text, text_equals};
use road_follower::{fraction_notation_to_angle, FractionNotationError, RoadTurnDirection};

fn parse_number(s: &str) -> Option<f32> {
    s.parse::<f32>().ok()
}

fn pi_ratio(a: f32, b: f32) -> f32 {
    PI * a / b
}

fn angle(s: &str) -> Result<f32, FractionNotationError> {
    fraction_notation_to_angle(s, &parse_number, &pi_ratio)
}

#[test]
fn half_is_a_right_angle() {
    let a = angle("1/2").unwrap();
    assert!((a - PI / 2.0).abs() < 1e-6);
}

#[test]
fn zero_fraction_is_zero() {
    assert_eq!(angle("0/1").unwrap(), 0.0);
}

#[test]
fn negative_and_decimal_fractions() {
    assert!((angle("-3/4").unwrap() + 3.0 * PI / 4.0).abs() < 1e-6);
    assert!((angle("1.5/1").unwrap() - 1.5 * PI).abs() < 1e-6);
}

#[test]
fn bad_numerator() {
    assert_eq!(angle("x/2"), Err(FractionNotationError::InvalidNumerator));
}

#[test]
fn bad_denominator() {
    assert_eq!(angle("1/y"), Err(FractionNotationError::InvalidDenominator));
}

#[test]
fn missing_slash() {
    assert_eq!(angle("12"), Err(FractionNotationError::DivisionSymbolAbsent));
}

#[test]
fn only_first_slash_splits() {
    assert_eq!(angle("1/2/3"), Err(FractionNotationError::InvalidDenominator));
    assert_eq!(angle("/2"), Err(FractionNotationError::InvalidNumerator));
}

#[test]
fn direction_tokens() {
    assert_eq!(RoadTurnDirection::from_notation("CW"), Some(RoadTurnDirection::CW));
    assert_eq!(RoadTurnDirection::from_notation("CCW"), Some(RoadTurnDirection::CCW));
    assert_eq!(RoadTurnDirection::from_notation("cw"), None);
    assert_eq!(RoadTurnDirection::from_notation(""), None);
}

#[test]
fn decimal_numerals() {
    assert_eq!(decimal_text(0), "0");
    assert_eq!(decimal_text(1907), "1907");
    assert_eq!(integer_decimal_text(-42), "-42");
    assert_eq!(integer_decimal_text(i64::MIN), "-9223372036854775808");
    assert_eq!(integer_decimal_text(i64::MAX), "9223372036854775807");
}

#[test]
fn text_equality() {
    assert!(text_equals("Turn", "Turn"));
    assert!(!text_equals("Turn", "Tur"));
    assert!(!text_equals("Line", "Lime"));
    assert!(text_equals("", ""));
}
