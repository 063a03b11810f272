//! The chart widget: range resolution, layout, event interpretation and
//! the draw pass.

use chartcore::chart::{Chart, Event, Interaction, State, WidgetBounds};
use chartcore::series::{line_series, point_series, Range, Series};

fn bounds(w: i64, h: i64) -> WidgetBounds {
    WidgetBounds { x: 0, y: 0, width: w, height: h }
}

fn hoverable_chart() -> Chart {
    Chart::new()
        .x_range(Range::new(0, 10))
        .y_range(Range::new(0, 10))
        .push_series(Series::Point(point_series(vec![(0, 0), (1, 0)]).with_id(1)))
        .on_move()
}

#[test]
fn range_union_of_two_series() {
    let c = Chart::new()
        .push_series(Series::Line(line_series(vec![(1, 0), (3, 0)])))
        .push_series(Series::Line(line_series(vec![(2, 0), (5, 0)])));
    assert_eq!(c.compute_x_range_from_series(), Range { min: 1, max: 5 });
}

#[test]
fn range_union_of_no_series_is_the_default() {
    let c = Chart::new();
    assert_eq!(c.compute_x_range_from_series(), Range { min: 0, max: 10 });
    assert_eq!(c.compute_y_range_from_series(), Range { min: 0, max: 10 });
}

#[test]
fn layout_guards_the_all_empty_union() {
    let c = Chart::new().push_series(Series::Line(line_series(vec![])));
    let mut state = State::default();
    c.layout(&mut state, 100, 100);
    assert_eq!(state.x_range(), Some(Range { min: 0, max: 10 }));
}

#[test]
fn layout_twice_is_bit_identical() {
    let c = Chart::new().push_series(Series::Line(line_series(vec![(1, 2), (8, 9)])));
    let mut s1 = State::default();
    let mut s2 = State::default();
    c.layout(&mut s1, 640, 480);
    c.layout(&mut s2, 640, 480);
    assert_eq!(s1.plane, s2.plane);
    assert!(s1.plane.is_some());
}

#[test]
fn explicit_range_overrides_the_series() {
    let c = Chart::new()
        .x_range(Range::new(-1, 1))
        .push_series(Series::Line(line_series(vec![(5, 5), (9, 9)])));
    let mut state = State::default();
    c.layout(&mut state, 100, 100);
    let r = state.x_range().unwrap();
    assert_eq!(r, Range { min: -1, max: 1 });
}

#[test]
fn move_event_fires_only_the_move_callback() {
    let c = hoverable_chart().on_press().on_release().on_scroll();
    let mut state = State::default();
    c.layout(&mut state, 20, 20);
    let r = c.update(&mut state, Event::PointerMoved, bounds(20, 20), Some((0, 19)));
    assert_eq!(r, Interaction::Moved);
    assert_ne!(r, Interaction::Press);
    assert!(state.scroll_delta().is_none());
}

#[test]
fn hit_window_shrinks_as_the_scale_grows() {
    let c = hoverable_chart();
    // Zoomed out: 20 pixels over 10 data units; the 10-pixel collision
    // box spans 2.5 data units either way and catches both points.
    let mut far = State::default();
    c.layout(&mut far, 20, 20);
    c.update(&mut far, Event::PointerMoved, bounds(20, 20), Some((0, 19)));
    assert_eq!(far.items().unwrap().len(), 2);
    // Zoomed in: 200 pixels over the same range; the same box spans a
    // quarter data unit and catches only the point under the cursor.
    let mut near = State::default();
    c.layout(&mut near, 200, 200);
    c.update(&mut near, Event::PointerMoved, bounds(200, 200), Some((0, 199)));
    assert_eq!(near.items().unwrap(), &vec![(1, 0)]);
}

#[test]
fn out_of_bounds_events_fire_nothing() {
    let c = hoverable_chart().on_press().on_release().on_scroll();
    let mut state = State::default();
    c.layout(&mut state, 20, 20);
    for ev in [
        Event::PointerPressed,
        Event::PointerReleased,
        Event::PointerMoved,
        Event::WheelScrolled { dx: 1, dy: 1 },
    ] {
        let r = c.update(&mut state, ev, bounds(20, 20), Some((50, 5)));
        assert_eq!(r, Interaction::Idle);
    }
    assert!(state.items().is_none());
    assert!(state.scroll_delta().is_none());
    // The cursor history is still recorded.
    assert_eq!(state.get_cursor_position(), Some((50, 5)));
}

#[test]
fn missing_cursor_ignores_the_event() {
    let c = hoverable_chart().on_press();
    let mut state = State::default();
    c.layout(&mut state, 20, 20);
    let r = c.update(&mut state, Event::PointerPressed, bounds(20, 20), None);
    assert_eq!(r, Interaction::Idle);
    assert!(state.get_cursor_position().is_none());
}

#[test]
fn press_and_scroll_fire_their_own_classes() {
    let c = hoverable_chart().on_press().on_scroll();
    let mut state = State::default();
    c.layout(&mut state, 20, 20);
    let r = c.update(&mut state, Event::PointerPressed, bounds(20, 20), Some((5, 5)));
    assert_eq!(r, Interaction::Press);
    let r = c.update(&mut state, Event::WheelScrolled { dx: 3, dy: -2 }, bounds(20, 20), Some((5, 5)));
    assert_eq!(r, Interaction::Scroll);
    assert_eq!(state.scroll_delta(), Some((3, -2)));
    // Previous cursor position shifted into the history.
    assert_eq!(state.get_cursor_position(), Some((5, 5)));
}

#[test]
fn unregistered_callbacks_fire_nothing() {
    let c = hoverable_chart();  // only on_move registered
    let mut state = State::default();
    c.layout(&mut state, 20, 20);
    let r = c.update(&mut state, Event::PointerPressed, bounds(20, 20), Some((5, 5)));
    assert_eq!(r, Interaction::Idle);
}

#[test]
fn draw_skips_degenerate_rectangles_and_missing_planes() {
    let c = Chart::new();
    let fresh = State::default();
    assert!(c.draw(&fresh, 100, 100, 0).is_none());
    let mut laid = State::default();
    c.layout(&mut laid, 100, 100);
    assert!(c.draw(&laid, 0, 100, 0).is_none());
    assert!(c.draw(&laid, 100, 0, 0).is_none());
    assert!(c.draw(&laid, 100, 100, 0).is_some());
}

#[test]
fn x_axis_draws_a_tick_per_step() {
    let c = Chart::new().x_range(Range::new(0, 10)).y_range(Range::new(0, 10));
    let mut state = State::default();
    c.layout(&mut state, 100, 100);
    let g = c.draw(&state, 100, 100, 0).unwrap();
    // Default amount 10: ticks at 0, 1, ..., 10.
    assert_eq!(g.x_axis.marks.len(), 11);
    let v = &g.x_axis.marks[3].label.value;
    assert_eq!(v.num, 3 * 10);
    assert_eq!(v.den, 10);
    assert_eq!(g.x_axis.marks[3].label.size, 12);
}

#[test]
fn y_axis_skips_the_zero_tick() {
    let c = Chart::new().x_range(Range::new(0, 10)).y_range(Range::new(0, 10));
    let mut state = State::default();
    c.layout(&mut state, 100, 100);
    let g = c.draw(&state, 100, 100, 0).unwrap();
    assert_eq!(g.y_axis.marks.len(), 10);
    let v = &g.y_axis.marks[0].label.value;
    assert_eq!(v.num, 10);  // index 1, step 10/10
    assert_eq!(v.den, 10);
}

#[test]
fn x_baseline_clamps_into_view() {
    // Data zero sits at the very bottom edge (y = 100): past the
    // 10-pixel label reserve, so the baseline is clamped to y = 90.
    let c = Chart::new().x_range(Range::new(0, 10)).y_range(Range::new(0, 10));
    let mut state = State::default();
    c.layout(&mut state, 100, 100);
    let g = c.draw(&state, 100, 100, 0).unwrap();
    assert_eq!(g.x_axis.baseline.from.y.num, 90);
    assert_eq!(g.x_axis.baseline.from.y.den, 1);
}

#[test]
fn y_baseline_clears_the_label_width() {
    // Data zero sits at the very left edge (x = 0): clamped right to
    // the measured label width.
    let c = Chart::new().x_range(Range::new(0, 10)).y_range(Range::new(0, 10));
    let mut state = State::default();
    c.layout(&mut state, 100, 100);
    let g = c.draw(&state, 100, 100, 25).unwrap();
    assert_eq!(g.y_axis.baseline.from.x.num, 25);
    assert_eq!(g.y_axis.baseline.from.x.den, 1);
}

#[test]
fn series_geometry_comes_in_series_order() {
    let c = Chart::new()
        .x_range(Range::new(0, 10))
        .y_range(Range::new(0, 10))
        .push_series(Series::Line(line_series(vec![(0, 0), (10, 10)])))
        .push_series(Series::Point(point_series(vec![(5, 5)])));
    let mut state = State::default();
    c.layout(&mut state, 100, 100);
    let g = c.draw(&state, 100, 100, 0).unwrap();
    assert_eq!(g.series.len(), 2);
}

#[test]
fn extend_series_appends_in_order() {
    let list = vec![
        Series::Line(line_series(vec![(1, 1)])),
        Series::Point(point_series(vec![(2, 2)])),
    ];
    let c = Chart::new().extend_series(list);
    assert_eq!(c.series.len(), 2);
}

#[test]
fn coords_resolve_through_the_stored_plane() {
    let c = hoverable_chart();
    let mut state = State::default();
    c.layout(&mut state, 20, 20);
    c.update(&mut state, Event::PointerMoved, bounds(20, 20), Some((0, 19)));
    let (dx, dy) = state.get_coords().unwrap();
    assert_eq!(dx.num, 0);
    // data y 0.5 at pixel y 19: (10 * 20 - 19 * 10) / 20
    assert_eq!(dy.num * 2, dy.den);
}

#[test]
fn hits_accumulate_across_identified_series_in_order() {
    let c = Chart::new()
        .x_range(Range::new(0, 10))
        .y_range(Range::new(0, 10))
        .push_series(Series::Point(point_series(vec![(0, 0)]).with_id(5)))
        .push_series(Series::Point(point_series(vec![(1, 0)]).with_id(3)))
        .on_move();
    let mut state = State::default();
    c.layout(&mut state, 20, 20);
    c.update(&mut state, Event::PointerMoved, bounds(20, 20), Some((0, 19)));
    // Both points fall in both windows; each series keeps only its own
    // id, and the lists concatenate in series order.
    assert_eq!(state.items().unwrap(), &vec![(5, 0), (3, 0)]);
}
