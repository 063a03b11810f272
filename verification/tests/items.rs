//! The spatial index: insertion, window queries, overwriting.

use chartcore::frac::Frac;
use chartcore::items::{Entry, Items, QueryRect};

fn whole(v: i128) -> Frac {
    Frac { num: v, den: 1 }
}

fn half(v: i128) -> Frac {
    Frac { num: v, den: 2 }
}

fn rect(x0: Frac, x1: Frac, y0: Frac, y1: Frac) -> QueryRect {
    QueryRect { x0, x1, y0, y1 }
}

fn sample_index() -> Items {
    let mut idx = Items::new();
    let entries = vec![
        Entry::new(0, 0, 0),
        Entry::new(1, 1, 1),
        Entry::new(2, 2, 1),
        Entry::new(3, 3, 0),
    ];
    idx.add_series(7, &entries);
    idx
}

#[test]
fn window_query_returns_exactly_the_covered_points() {
    let idx = sample_index();
    // x in [0.5, 2.5), y in [0.5, 1.5): exactly (1,1) and (2,1).
    let hits = idx.collision(rect(half(1), half(5), half(1), half(3)));
    assert_eq!(hits.len(), 2);
    assert!(hits.contains(&(7, 1)));
    assert!(hits.contains(&(7, 2)));
}

#[test]
fn disjoint_window_returns_nothing() {
    let idx = sample_index();
    let hits = idx.collision(rect(whole(10), whole(20), whole(10), whole(20)));
    assert!(hits.is_empty());
}

#[test]
fn window_edges_are_half_open() {
    let idx = sample_index();
    // x in [1, 2): catches x = 1 but not x = 2.
    let hits = idx.collision(rect(whole(1), whole(2), whole(-1), whole(2)));
    assert_eq!(hits, vec![(7, 1)]);
}

#[test]
fn hits_come_in_x_major_order() {
    let idx = sample_index();
    let hits = idx.collision(rect(whole(-1), whole(9), whole(-1), whole(9)));
    assert_eq!(hits, vec![(7, 0), (7, 1), (7, 2), (7, 3)]);
}

#[test]
fn coinciding_insertion_overwrites() {
    let mut idx = Items::new();
    idx.add_series(1, &vec![Entry::new(4, 5, 5)]);
    idx.add_series(2, &vec![Entry::new(9, 5, 5)]);
    let hits = idx.collision(rect(whole(5), whole(6), whole(5), whole(6)));
    assert_eq!(hits, vec![(2, 9)]);
}

#[test]
fn later_entry_of_one_series_overwrites_earlier() {
    let mut idx = Items::new();
    idx.add_series(1, &vec![Entry::new(0, 5, 5), Entry::new(1, 5, 5)]);
    let hits = idx.collision(rect(whole(5), whole(6), whole(5), whole(6)));
    assert_eq!(hits, vec![(1, 1)]);
}

#[test]
fn series_accumulate_across_buckets() {
    let mut idx = Items::new();
    idx.add_series(1, &vec![Entry::new(0, 0, 0)]);
    idx.add_series(2, &vec![Entry::new(0, 0, 1)]);
    let hits = idx.collision(rect(whole(0), whole(1), whole(-2), whole(2)));
    assert_eq!(hits, vec![(1, 0), (2, 0)]);
}
