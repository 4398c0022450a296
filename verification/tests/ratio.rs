//! Exact ratios and their ranking order.

use scouting::ratio::{Ratio, Standing};

fn ratio(num: u128, den: u128) -> Ratio {
    Ratio { num, den }
}

#[test]
fn equal_values_in_other_terms_are_level() {
    assert_eq!(ratio(1, 2).compare(&ratio(2, 4)), Standing::Level);
    assert_eq!(ratio(34, 2).compare(&ratio(17, 1)), Standing::Level);
    assert_eq!(ratio(0, 5).compare(&ratio(0, 9)), Standing::Level);
    assert_eq!(ratio(7, 7).compare(&ratio(1, 1)), Standing::Level);
}

#[test]
fn lower_value_is_below() {
    assert_eq!(ratio(1, 3).compare(&ratio(1, 2)), Standing::Below);
    assert_eq!(ratio(1, 2).compare(&ratio(1, 3)), Standing::Above);
    assert_eq!(ratio(0, 1).compare(&ratio(1, 1000)), Standing::Below);
    assert_eq!(ratio(5, 1).compare(&ratio(9, 2)), Standing::Above);
    assert_eq!(ratio(22, 7).compare(&ratio(355, 113)), Standing::Above);
    assert_eq!(ratio(355, 113).compare(&ratio(22, 7)), Standing::Below);
}

#[test]
fn ratio_without_value_is_below_every_value() {
    assert!(!ratio(0, 0).is_defined());
    assert!(ratio(0, 1).is_defined());
    assert_eq!(ratio(0, 0).compare(&ratio(0, 1)), Standing::Below);
    assert_eq!(ratio(0, 1).compare(&ratio(0, 0)), Standing::Above);
    assert_eq!(ratio(9, 0).compare(&ratio(1, 100)), Standing::Below);
}

#[test]
fn ratios_without_value_are_level() {
    assert_eq!(ratio(0, 0).compare(&ratio(0, 0)), Standing::Level);
    assert_eq!(ratio(3, 0).compare(&ratio(8, 0)), Standing::Level);
}

#[test]
fn compares_numbers_whose_products_would_overflow() {
    let m = u128::MAX;
    // (m - 1) / m against (m - 2) / (m - 1): the squares differ by one.
    assert_eq!(ratio(m - 1, m).compare(&ratio(m - 2, m - 1)), Standing::Above);
    assert_eq!(ratio(m - 2, m - 1).compare(&ratio(m - 1, m)), Standing::Below);
    assert_eq!(ratio(m, m).compare(&ratio(m - 1, m - 1)), Standing::Level);
    assert_eq!(ratio(m, 1).compare(&ratio(m, 2)), Standing::Above);
    assert_eq!(ratio(m, m - 1).compare(&ratio(m - 1, m - 2)), Standing::Below);
    assert_eq!(ratio(1, m).compare(&ratio(1, m - 1)), Standing::Below);
    assert_eq!(ratio(m / 2, m).compare(&ratio(1, 2)), Standing::Below);
    assert_eq!(ratio(m / 3, m).compare(&ratio(1, 3)), Standing::Level);
}

#[test]
fn compare_agrees_with_cross_products_on_small_numbers() {
    for a in 0u128..12 {
        for b in 1u128..12 {
            for c in 0u128..12 {
                for d in 1u128..12 {
                    let expected = if a * d < c * b {
                        Standing::Below
                    } else if a * d == c * b {
                        Standing::Level
                    } else {
                        Standing::Above
                    };
                    assert_eq!(ratio(a, b).compare(&ratio(c, d)), expected);
                }
            }
        }
    }
}
