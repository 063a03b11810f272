//! Exact behavior of the per-axis transforms.

use chartcore::cartesian::{Axis, Plane};
use chartcore::frac::{Frac, MAX_COORD};

fn plane_100() -> Plane {
    // x: data 0..=10 onto 100 pixels with margins 2 and 3 (inner 95).
    // y: data 0..=10 onto 200 pixels with margins 4 and 6 (inner 190).
    Plane {
        x: Axis::new(0, 10, 2, 3, 100),
        y: Axis::new(0, 10, 4, 6, 200),
    }
}

fn frac_is_int(f: &Frac, v: i128) -> bool {
    f.num == v * f.den
}

fn fracs_equal(a: &Frac, b: &Frac) -> bool {
    a.num * b.den == b.num * a.den
}

#[test]
fn forward_x_exact_value() {
    let p = plane_100();
    // (7 - 0) * 95 / 10 + 2 = 68.5
    let s = p.scale_to_cartesian_x(7);
    assert_eq!(s.num, 7 * 95 + 2 * 10);
    assert_eq!(s.den, 10);
    assert_eq!(s.num * 2, 137 * s.den); // exactly 68.5
}

#[test]
fn forward_y_is_inverted() {
    let p = plane_100();
    // (10 - 7) * 190 / 10 + 6 = 63
    let s = p.scale_to_cartesian_y(7);
    assert!(frac_is_int(&s, 63));
    // data 10 (top of range) lands at the top margin
    let top = p.scale_to_cartesian_y(10);
    assert!(frac_is_int(&top, 6));
    // data 0 (bottom) lands at height minus the bottom margin
    let bottom = p.scale_to_cartesian_y(0);
    assert!(frac_is_int(&bottom, 196));
}

#[test]
fn round_trip_is_exact() {
    let p = plane_100();
    for v in [0i64, 1, 3, 7, 10] {
        let sx = p.scale_to_cartesian_x(v);
        let dx = p.get_cartesian_x(sx);
        assert!(frac_is_int(&dx, v as i128), "x round trip failed at {v}");
        let sy = p.scale_to_cartesian_y(v);
        let dy = p.get_cartesian_y(sy);
        assert!(frac_is_int(&dy, v as i128), "y round trip failed at {v}");
    }
}

#[test]
fn round_trip_survives_degenerate_range() {
    // A zero-length data range is guarded, not divided by.
    let p = Plane {
        x: Axis::new(5, 5, 0, 0, 100),
        y: Axis::new(5, 5, 0, 0, 100),
    };
    let s = p.scale_to_cartesian_x(5);
    let d = p.get_cartesian_x(s);
    assert!(frac_is_int(&d, 5));
}

#[test]
fn x_transform_non_decreasing() {
    let p = plane_100();
    let mut prev = p.scale_to_cartesian_x(-3);
    for v in [-1i64, 0, 2, 2, 9, 10, 12] {
        let cur = p.scale_to_cartesian_x(v);
        assert!(prev.num * cur.den <= cur.num * prev.den);
        prev = cur;
    }
}

#[test]
fn y_transform_non_increasing() {
    let p = plane_100();
    let mut prev = p.scale_to_cartesian_y(-3);
    for v in [-1i64, 0, 2, 2, 9, 10, 12] {
        let cur = p.scale_to_cartesian_y(v);
        assert!(cur.num * prev.den <= prev.num * cur.den);
        prev = cur;
    }
}

#[test]
fn screen_to_data_of_pixel_point() {
    let p = plane_100();
    // pixel x 49.5 would be data 5; pixel 2 (the left margin) is data 0.
    let (dx, dy) = p.get_cartesian(2, 196);
    assert!(frac_is_int(&dx, 0));
    assert!(frac_is_int(&dy, 0));
}

#[test]
fn offset_is_relative_to_range_center() {
    let p = plane_100();
    // The range center (data 5, 5) sits at pixel x = 5*95/10+2 = 49.5,
    // which is not integral; probe the known data point under pixel 2.
    let (ox, oy) = p.get_offset(2, 196);
    // data (0, 0) minus center (5, 5) = (-5, -5)
    assert!(frac_is_int(&ox, -5));
    assert!(frac_is_int(&oy, -5));
}

#[test]
fn corners_expose_the_axis_endpoints() {
    let p = plane_100();
    assert_eq!(p.bottom_left(), (0, 0));
    assert_eq!(p.bottom_right(), (10, 0));
    assert_eq!(p.bottom_center(), (0, 0));
    assert_eq!(p.top_center(), (0, 10));
}

#[test]
fn scale_to_cartesian_maps_both_axes() {
    let p = plane_100();
    let (sx, sy) = p.scale_to_cartesian((7, 7));
    assert!(fracs_equal(&sx, &p.scale_to_cartesian_x(7)));
    assert!(fracs_equal(&sy, &p.scale_to_cartesian_y(7)));
}

#[test]
fn round_trip_at_the_coordinate_bounds() {
    let p = Plane {
        x: Axis::new(-MAX_COORD, MAX_COORD, 0, 0, MAX_COORD),
        y: Axis::new(-MAX_COORD, MAX_COORD, 0, 0, MAX_COORD),
    };
    for v in [-MAX_COORD, -1, 0, 1, MAX_COORD] {
        let s = p.scale_to_cartesian_x(v);
        let d = p.get_cartesian_x(s);
        assert!(frac_is_int(&d, v as i128));
        let s = p.scale_to_cartesian_y(v);
        let d = p.get_cartesian_y(s);
        assert!(frac_is_int(&d, v as i128));
    }
}
