//! The fraction helpers and the integer division helpers.

use chartcore::frac::{div_ceil, div_floor, Frac};

#[test]
fn from_int_is_exact() {
    let f = Frac::from_int(-17);
    assert_eq!(f.num, -17);
    assert_eq!(f.den, 1);
}

#[test]
fn coordinate_comparisons() {
    let f = Frac { num: 5, den: 2 };  // 2.5
    assert!(f.le_coord(3));
    assert!(!f.le_coord(2));
    assert!(f.gt_coord(2));
    assert!(!f.gt_coord(3));
    let g = Frac { num: -5, den: 2 };  // -2.5
    assert!(g.le_coord(-2));
    assert!(g.gt_coord(-3));
}

#[test]
fn add_int_and_add_half() {
    let f = Frac { num: 5, den: 2 };
    let g = f.add_int(3);  // 5.5
    assert_eq!(g.num, 11);
    assert_eq!(g.den, 2);
    let h = f.add_half(3);  // 2.5 + 1.5 = 4
    assert_eq!(h.num, 16);
    assert_eq!(h.den, 4);
    let n = f.add_half(-3);  // 1
    assert_eq!(n.num, 4);
    assert_eq!(n.den, 4);
}

#[test]
fn floor_division_rounds_toward_negative_infinity() {
    assert_eq!(div_floor(7, 2), 3);
    assert_eq!(div_floor(-7, 2), -4);
    assert_eq!(div_floor(6, 3), 2);
    assert_eq!(div_floor(-6, 3), -2);
    assert_eq!(div_floor(0, 5), 0);
}

#[test]
fn ceiling_division_rounds_toward_positive_infinity() {
    assert_eq!(div_ceil(7, 2), 4);
    assert_eq!(div_ceil(-7, 2), -3);
    assert_eq!(div_ceil(6, 3), 2);
    assert_eq!(div_ceil(-6, 3), -2);
    assert_eq!(div_ceil(0, 5), 0);
}
