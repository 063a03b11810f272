//! Series extents, rendering and hit-test entries.

use chartcore::cartesian::{Axis, Plane};
use chartcore::color::Color;
use chartcore::geometry::SeriesGeometry;
use chartcore::series::{
    line_series, point_series, CollisionBox, LineSeries, PointSeries, Range, Series, Style,
};

fn plain_plane() -> Plane {
    Plane {
        x: Axis::new(0, 10, 0, 0, 100),
        y: Axis::new(0, 10, 0, 0, 100),
    }
}

#[test]
fn range_folds_to_exact_extent() {
    let s = Series::Line(line_series(vec![(1, 4), (3, 2), (2, 9)]));
    assert_eq!(s.x_range(), Range { min: 1, max: 3 });
    assert_eq!(s.y_range(), Range { min: 2, max: 9 });
}

#[test]
fn empty_series_yields_the_absorbing_sentinel() {
    let s = Series::Point(point_series(vec![]));
    let r = s.x_range();
    assert_eq!(r.min, i64::MAX);
    assert_eq!(r.max, i64::MIN);
}

#[test]
fn line_draw_maps_every_visible_point() {
    let p = plain_plane();
    let l = line_series(vec![(0, 0), (5, 5), (10, 10)]).color(Color::new(9, 9, 9, 255));
    let poly = l.draw(&p);
    assert_eq!(poly.width, 2);
    assert_eq!(poly.color, Color::new(9, 9, 9, 255));
    assert_eq!(poly.points.len(), 3);
    // data (5, 5): x = 5*100/10 = 50, y = (10-5)*100/10 = 50
    assert_eq!(poly.points[1].x.num, 5 * 100);
    assert_eq!(poly.points[1].x.den, 10);
    assert_eq!(poly.points[1].y.num, 5 * 100);
    assert_eq!(poly.points[1].y.den, 10);
}

#[test]
fn line_draw_prefilters_to_the_data_range() {
    let p = plain_plane();
    let l = line_series(vec![(-5, 0), (5, 5), (11, 2), (5, 20)]);
    let poly = l.draw(&p);
    assert_eq!(poly.points.len(), 1);
}

#[test]
fn point_draw_styles_each_item() {
    let p = plain_plane();
    let series_color = Color::new(1, 2, 3, 255);
    let red = Color::new(255, 0, 0, 255);
    let styles = vec![Style {
        color: Some(red),
        border_color: None,
        border: 7,
        radius: 9,
    }];
    let ps = point_series(vec![(0, 0), (10, 10)])
        .color(series_color)
        .style_for_each(styles);
    let circles = ps.draw(&p);
    assert_eq!(circles.len(), 2);
    // first item: its own style; border color falls back to the series
    assert_eq!(circles[0].fill, red);
    assert_eq!(circles[0].border_color, series_color);
    assert_eq!(circles[0].radius, 9);
    assert_eq!(circles[0].border, 7);
    // second item: past the style list, the series-wide default style
    assert_eq!(circles[1].fill, series_color);
    assert_eq!(circles[1].radius, 5);
    assert_eq!(circles[1].border, 2);
}

#[test]
fn only_identified_series_expose_items() {
    let anonymous = Series::Point(point_series(vec![(1, 1)]));
    assert!(anonymous.items().is_none());
    assert!(anonymous.id().is_none());
    // the collision box exists regardless; identity alone gates hits
    assert!(anonymous.collision_box().is_some());

    let named = Series::Point(point_series(vec![(1, 1), (2, 3)]).with_id(42));
    let (id, entries) = named.items().unwrap();
    assert_eq!(id, 42);
    assert_eq!(entries.len(), 2);
    assert_eq!(entries[1].id, 1);
    assert_eq!(entries[1].x, 2);
    assert_eq!(entries[1].y, 3);
}

#[test]
fn collision_box_defaults_to_the_default_radius_square() {
    let named = Series::Point(point_series(vec![(1, 1)]).with_id(1));
    let b = named.collision_box().unwrap();
    assert_eq!(b.width, 10);
    assert_eq!(b.height, 10);
    let sized = Series::Point(
        point_series(vec![(1, 1)]).with_id(1).collision_box(CollisionBox { width: 30, height: 40 }),
    );
    let b2 = sized.collision_box().unwrap();
    assert_eq!(b2.width, 30);
    assert_eq!(b2.height, 40);
    assert_eq!(CollisionBox::with_radius(5).width, 10);
}

#[test]
fn series_draw_dispatches_by_variant() {
    let p = plain_plane();
    let line = Series::Line(LineSeries::new(vec![(0, 0)]));
    match line.draw(&p) {
        SeriesGeometry::Line(poly) => assert_eq!(poly.points.len(), 1),
        SeriesGeometry::Points(_) => panic!("line series drew circles"),
    }
    let pts = Series::Point(PointSeries::new(vec![(0, 0)]));
    match pts.draw(&p) {
        SeriesGeometry::Points(cs) => assert_eq!(cs.len(), 1),
        SeriesGeometry::Line(_) => panic!("point series drew a polyline"),
    }
}
