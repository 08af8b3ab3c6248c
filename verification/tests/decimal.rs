//! Tests of the fixed-point decimal model.

use knuckles_parse::decimal::Decimal;

fn dec(neg: bool, mantissa: u64, scale: u32) -> Decimal {
    Decimal { neg, mantissa, scale }
}

#[test]
fn value_eq_ignores_trailing_zeros() {
    assert!(dec(false, 52000, 3).value_eq(&dec(false, 520, 1)));
    assert!(dec(false, 52000, 3).value_eq(&dec(false, 52, 0)));
    assert!(!dec(false, 52000, 3).value_eq(&dec(false, 521, 1)));
}

#[test]
fn value_eq_treats_negative_zero_as_zero() {
    assert!(dec(true, 0, 2).value_eq(&dec(false, 0, 0)));
    assert!(!dec(true, 1, 2).value_eq(&dec(false, 1, 2)));
    assert!(dec(true, 25, 1).value_eq(&dec(true, 250, 2)));
}
