//! The chart widget: configuration, per-instance state, the layout pass
//! that builds the plane, the draw pass that produces geometry, and the
//! interpretation of pointer events into typed interactions.

use vstd::prelude::*;
use crate::axis;
use crate::axis::{Labels, Tick};
use crate::cartesian::{Axis, Plane};
use crate::color::Color;
use crate::frac::{Frac, MAX_COORD};
use crate::geometry::{AxisGeometry, LabelAlign, LabelShape, ScreenPoint, Segment, TickMark};
use crate::items::Items;
use crate::series::Series;

verus! {

/// Pixel margins kept free around the plotted area.
#[derive(Clone, Copy, Debug)]
pub struct Margin {
    pub top: i64,
    pub bottom: i64,
    pub left: i64,
    pub right: i64,
}

impl Margin {
    pub open spec fn wf(self) -> bool {
        &&& 0 <= self.top <= MAX_COORD
        &&& 0 <= self.bottom <= MAX_COORD
        &&& 0 <= self.left <= MAX_COORD
        &&& 0 <= self.right <= MAX_COORD
    }
}

impl Default for Margin {
    fn default() -> (r: Margin)
        ensures
            r.wf(),
            r == (Margin { top: 0i64, bottom: 0i64, left: 0i64, right: 0i64 }),
    {
        Margin { top: 0, bottom: 0, left: 0, right: 0 }
    }
}

/// How much room the widget asks its host for along one dimension.
#[derive(Clone, Copy, Debug, PartialEq, Eq, Structural)]
pub enum Sizing {
    /// Take all the room the host offers.
    Fill,
    /// Take only as much as needed.
    Shrink,
    /// Take exactly this many pixels.
    Fixed(i64),
}

/// How label text is shaped by the host's text engine.
#[derive(Clone, Copy, Debug, PartialEq, Eq, Structural)]
pub enum TextShaping {
    Basic,
    Advanced,
}

/// Every series of `ss` has no data.
pub open spec fn all_empty(ss: Seq<Series>) -> bool {
    forall|k: int| 0 <= k < ss.len() ==> (#[trigger] ss[k]).data_spec().len() == 0
}

/// `m` is the least x coordinate over all data points of all series.
pub open spec fn is_min_x_all(ss: Seq<Series>, m: i64) -> bool {
    &&& exists|k: int, j: int|
        #![trigger ss[k].data_spec()[j]]
        0 <= k < ss.len() && 0 <= j < ss[k].data_spec().len() && ss[k].data_spec()[j].0 == m
    &&& forall|k: int, j: int|
        #![trigger ss[k].data_spec()[j]]
        0 <= k < ss.len() && 0 <= j < ss[k].data_spec().len() ==> m <= ss[k].data_spec()[j].0
}

/// `m` is the greatest x coordinate over all data points of all series.
pub open spec fn is_max_x_all(ss: Seq<Series>, m: i64) -> bool {
    &&& exists|k: int, j: int|
        #![trigger ss[k].data_spec()[j]]
        0 <= k < ss.len() && 0 <= j < ss[k].data_spec().len() && ss[k].data_spec()[j].0 == m
    &&& forall|k: int, j: int|
        #![trigger ss[k].data_spec()[j]]
        0 <= k < ss.len() && 0 <= j < ss[k].data_spec().len() ==> ss[k].data_spec()[j].0 <= m
}

/// `m` is the least y coordinate over all data points of all series.
pub open spec fn is_min_y_all(ss: Seq<Series>, m: i64) -> bool {
    &&& exists|k: int, j: int|
        #![trigger ss[k].data_spec()[j]]
        0 <= k < ss.len() && 0 <= j < ss[k].data_spec().len() && ss[k].data_spec()[j].1 == m
    &&& forall|k: int, j: int|
        #![trigger ss[k].data_spec()[j]]
        0 <= k < ss.len() && 0 <= j < ss[k].data_spec().len() ==> m <= ss[k].data_spec()[j].1
}

/// `m` is the greatest y coordinate over all data points of all series.
pub open spec fn is_max_y_all(ss: Seq<Series>, m: i64) -> bool {
    &&& exists|k: int, j: int|
        #![trigger ss[k].data_spec()[j]]
        0 <= k < ss.len() && 0 <= j < ss[k].data_spec().len() && ss[k].data_spec()[j].1 == m
    &&& forall|k: int, j: int|
        #![trigger ss[k].data_spec()[j]]
        0 <= k < ss.len() && 0 <= j < ss[k].data_spec().len() ==> ss[k].data_spec()[j].1 <= m
}

/// The chart widget's configuration: sizing, margins, axis styling,
/// explicit or automatic ranges, the series list, the spatial index
/// built from the identified series, and which interaction callbacks
/// the host registered (the host-side wrapper holds the closures).
pub struct Chart {
    pub width: Sizing,
    pub height: Sizing,
    pub shaping: TextShaping,
    pub margin: Margin,
    pub x_axis: axis::Axis,
    pub y_axis: axis::Axis,
    pub x_ticks: Tick,
    pub y_ticks: Tick,
    pub x_labels: Labels,
    pub y_labels: Labels,
    pub x_range: Option<crate::series::Range>,
    pub y_range: Option<crate::series::Range>,
    pub x_offset: i64,
    pub items: Items,
    pub series: Vec<Series>,
    pub on_move: bool,
    pub on_press: bool,
    pub on_release: bool,
    pub on_scroll: bool,
}

impl Chart {
    pub open spec fn wf(self) -> bool {
        &&& self.margin.wf()
        &&& self.x_axis.wf() && self.y_axis.wf()
        &&& self.x_ticks.wf() && self.y_ticks.wf()
        &&& self.x_labels.wf() && self.y_labels.wf()
        &&& match self.x_range {
            Some(r) => r.wf(),
            None => true,
        }
        &&& match self.y_range {
            Some(r) => r.wf(),
            None => true,
        }
        &&& -MAX_COORD <= self.x_offset <= MAX_COORD
        &&& self.items.wf()
        &&& forall|k: int| 0 <= k < self.series@.len() ==> (#[trigger] self.series@[k]).wf()
    }

    /// An empty chart with every option at its default.
    pub fn new() -> (r: Chart)
        ensures
            r.wf(),
            r.width == Sizing::Fill,
            r.height == Sizing::Fill,
            r.shaping == TextShaping::Basic,
            r.margin == (Margin { top: 0i64, bottom: 0i64, left: 0i64, right: 0i64 }),
            r.x_range is None,
            r.y_range is None,
            r.x_offset == 0,
            r.series@.len() == 0,
            forall|x: i64, y: i64, s: u64, it: usize| !r.items.has_item(x, y, s, it),
            !r.on_move && !r.on_press && !r.on_release && !r.on_scroll,
            r.x_ticks == (Tick {
                color: Color { r: 255u8, g: 255u8, b: 255u8, a: 255u8 },
                height: 5i64,
                width: 1i64,
                amount: 10i64,
            }),
            r.y_ticks == r.x_ticks,
            r.x_axis.width == 1 && r.y_axis.width == 1,
            r.x_labels.color is None && r.x_labels.font_size is None,
            r.y_labels.color is None && r.y_labels.font_size is None,
    {
        Chart {
            width: Sizing::Fill,
            height: Sizing::Fill,
            shaping: TextShaping::Basic,
            margin: Margin::default(),
            x_axis: axis::Axis::default(),
            y_axis: axis::Axis::default(),
            x_ticks: Tick::default(),
            y_ticks: Tick::default(),
            x_labels: Labels::default(),
            y_labels: Labels::default(),
            x_range: None,
            y_range: None,
            x_offset: 0,
            items: Items::new(),
            series: Vec::new(),
            on_move: false,
            on_press: false,
            on_release: false,
            on_scroll: false,
        }
    }

    /// Sets the requested width.
    pub fn width(self, width: Sizing) -> (r: Chart)
        ensures
            r == (Chart { width, ..self }),
    {
        Chart { width, ..self }
    }

    /// Sets the requested height.
    pub fn height(self, height: Sizing) -> (r: Chart)
        ensures
            r == (Chart { height, ..self }),
    {
        Chart { height, ..self }
    }

    /// Sets the text shaping mode labels are rendered with.
    pub fn text_shaping(self, shaping: TextShaping) -> (r: Chart)
        ensures
            r == (Chart { shaping, ..self }),
    {
        Chart { shaping, ..self }
    }

    pub fn margin(self, margin: Margin) -> (r: Chart)
        requires
            margin.wf(),
        ensures
            r == (Chart { margin, ..self }),
    {
        Chart { margin, ..self }
    }

    /// Fixes the x data range instead of deriving it from the series.
    pub fn x_range(self, range: crate::series::Range) -> (r: Chart)
        requires
            range.wf(),
        ensures
            r == (Chart { x_range: Some(range), ..self }),
    {
        Chart { x_range: Some(range), ..self }
    }

    /// Fixes the y data range instead of deriving it from the series.
    pub fn y_range(self, range: crate::series::Range) -> (r: Chart)
        requires
            range.wf(),
        ensures
            r == (Chart { y_range: Some(range), ..self }),
    {
        Chart { y_range: Some(range), ..self }
    }

    pub fn x_axis(self, x_axis: axis::Axis) -> (r: Chart)
        requires
            x_axis.wf(),
        ensures
            r == (Chart { x_axis, ..self }),
    {
        Chart { x_axis, ..self }
    }

    pub fn y_axis(self, y_axis: axis::Axis) -> (r: Chart)
        requires
            y_axis.wf(),
        ensures
            r == (Chart { y_axis, ..self }),
    {
        Chart { y_axis, ..self }
    }

    pub fn x_offset(self, x_offset: i64) -> (r: Chart)
        requires
            -MAX_COORD <= x_offset <= MAX_COORD,
        ensures
            r == (Chart { x_offset, ..self }),
    {
        Chart { x_offset, ..self }
    }

    pub fn x_ticks(self, x_ticks: Tick) -> (r: Chart)
        requires
            x_ticks.wf(),
        ensures
            r == (Chart { x_ticks, ..self }),
    {
        Chart { x_ticks, ..self }
    }

    pub fn y_ticks(self, y_ticks: Tick) -> (r: Chart)
        requires
            y_ticks.wf(),
        ensures
            r == (Chart { y_ticks, ..self }),
    {
        Chart { y_ticks, ..self }
    }

    pub fn x_labels(self, x_labels: Labels) -> (r: Chart)
        requires
            x_labels.wf(),
        ensures
            r == (Chart { x_labels, ..self }),
    {
        Chart { x_labels, ..self }
    }

    pub fn y_labels(self, y_labels: Labels) -> (r: Chart)
        requires
            y_labels.wf(),
        ensures
            r == (Chart { y_labels, ..self }),
    {
        Chart { y_labels, ..self }
    }

    /// Records that the host registered a press callback; the wrapper
    /// around the widget holds the closure itself.
    pub fn on_press(self) -> (r: Chart)
        ensures
            r == (Chart { on_press: true, ..self }),
    {
        Chart { on_press: true, ..self }
    }

    /// Records that the host registered a release callback.
    pub fn on_release(self) -> (r: Chart)
        ensures
            r == (Chart { on_release: true, ..self }),
    {
        Chart { on_release: true, ..self }
    }

    /// Records that the host registered a move callback.
    pub fn on_move(self) -> (r: Chart)
        ensures
            r == (Chart { on_move: true, ..self }),
    {
        Chart { on_move: true, ..self }
    }

    /// Records that the host registered a scroll callback.
    pub fn on_scroll(self) -> (r: Chart)
        ensures
            r == (Chart { on_scroll: true, ..self }),
    {
        Chart { on_scroll: true, ..self }
    }

    /// Appends a series; an identified series also enters the spatial
    /// index, one entry per data item, later coinciding points
    /// overwriting earlier ones.
    pub fn push_series(self, series: Series) -> (r: Chart)
        requires
            self.wf(),
            series.wf(),
        ensures
            r.wf(),
            r.series@ == self.series@.push(series),
            r.width == self.width && r.height == self.height && r.shaping == self.shaping,
            r.margin == self.margin && r.x_axis == self.x_axis && r.y_axis == self.y_axis,
            r.x_ticks == self.x_ticks && r.y_ticks == self.y_ticks,
            r.x_labels == self.x_labels && r.y_labels == self.y_labels,
            r.x_range == self.x_range && r.y_range == self.y_range,
            r.x_offset == self.x_offset,
            r.on_move == self.on_move && r.on_press == self.on_press,
            r.on_release == self.on_release && r.on_scroll == self.on_scroll,
            series.id_spec() is None ==> r.items == self.items,
            series.id_spec() matches Some(sid) ==> forall|a: i64, b: i64, s: u64, it: usize|
                r.items.has_item(a, b, s, it) <==> (match crate::items::find_last(
                    series_entries(series),
                    a,
                    b,
                ) {
                    Some(e) => s == sid && it == e.id,
                    None => self.items.has_item(a, b, s, it),
                }),
    {
        let mut c = self;
        match series.items() {
            Some((id, entries)) => {
                proof {
                    assert forall|k: int|
                        0 <= k < entries@.len() implies -MAX_COORD <= (#[trigger] entries@[k]).x
                        <= MAX_COORD && -MAX_COORD <= entries@[k].y <= MAX_COORD by {
                        assert(series.data_spec()[k] == series.data_spec()[k]);
                    }
                }
                c.items.add_series(id, &entries);
                proof {
                    assert(entries@ =~= series_entries(series));
                }
            },
            None => {},
        }
        c.series.push(series);
        c
    }

    /// Appends every series of the list, in order.
    pub fn extend_series(self, series_list: Vec<Series>) -> (r: Chart)
        requires
            self.wf(),
            forall|k: int| 0 <= k < series_list@.len() ==> (#[trigger] series_list@[k]).wf(),
        ensures
            r.wf(),
            r.series@.len() == self.series@.len() + series_list@.len(),
            forall|k: int|
                0 <= k < self.series@.len() ==> r.series@[k] == (#[trigger] self.series@[k]),
            forall|k: int|
                0 <= k < series_list@.len() ==> r.series@[self.series@.len() + k] == (
                #[trigger] series_list@[k]),
    {
        let mut c = self;
        let mut rest = series_list;
        let n = rest.len();
        let ghost orig = c;
        let ghost orig_list = rest;
        let mut k: usize = 0;
        while k < n
            invariant
                c.wf(),
                n == orig_list@.len(),
                k <= n,
                rest@ == orig_list@.subrange(k as int, n as int),
                forall|j: int| 0 <= j < orig_list@.len() ==> (#[trigger] orig_list@[j]).wf(),
                c.series@.len() == orig.series@.len() + k,
                forall|j: int|
                    0 <= j < orig.series@.len() ==> c.series@[j] == (#[trigger] orig.series@[j]),
                forall|j: int|
                    0 <= j < k ==> c.series@[orig.series@.len() + j] == (
                    #[trigger] orig_list@[j]),
            decreases n - k,
        {
            let s = rest.remove(0);
            proof {
                assert(s == orig_list@[k as int]);
                assert(orig_list@.subrange(k as int, n as int).remove(0) =~= orig_list@.subrange(
                    k + 1,
                    n as int,
                ));
            }
            c = c.push_series(s);
            k = k + 1;
        }
        c
    }

    /// The union of the series' x extents: the exact minimum and maximum
    /// over every data point, the absorbing sentinel when every series is
    /// empty, and the fixed default range when there is no series at all.
    pub fn compute_x_range_from_series(&self) -> (r: crate::series::Range)
        ensures
            self.series@.len() == 0 ==> r == (crate::series::Range { min: 0i64, max: 10i64 }),
            self.series@.len() > 0 && all_empty(self.series@) ==> r == (crate::series::Range {
                min: i64::MAX,
                max: i64::MIN,
            }),
            self.series@.len() > 0 && !all_empty(self.series@) ==> is_min_x_all(self.series@, r.min)
                && is_max_x_all(self.series@, r.max),
    {
        let n = self.series.len();
        if n == 0 {
            return crate::series::Range { min: 0, max: 10 };
        }
        let mut mn: i64 = i64::MAX;
        let mut mx: i64 = i64::MIN;
        let mut k: usize = 0;
        while k < n
            invariant
                n == self.series@.len(),
                k <= n,
                (mn == i64::MAX && mx == i64::MIN && forall|kk: int|
                    0 <= kk < k ==> (#[trigger] self.series@[kk]).data_spec().len() == 0) || ((
                exists|kk: int, j: int|
                    #![trigger self.series@[kk].data_spec()[j]]
                    0 <= kk < k && 0 <= j < self.series@[kk].data_spec().len()
                        && self.series@[kk].data_spec()[j].0 == mn) && (forall|kk: int, j: int|
                    #![trigger self.series@[kk].data_spec()[j]]
                    0 <= kk < k && 0 <= j < self.series@[kk].data_spec().len()
                        ==> mn <= self.series@[kk].data_spec()[j].0) && (exists|kk: int, j: int|
                    #![trigger self.series@[kk].data_spec()[j]]
                    0 <= kk < k && 0 <= j < self.series@[kk].data_spec().len()
                        && self.series@[kk].data_spec()[j].0 == mx) && (forall|kk: int, j: int|
                    #![trigger self.series@[kk].data_spec()[j]]
                    0 <= kk < k && 0 <= j < self.series@[kk].data_spec().len()
                        ==> self.series@[kk].data_spec()[j].0 <= mx)),
            decreases n - k,
        {
            let cur = self.series[k].x_range();
            if cur.min < mn {
                mn = cur.min;
            }
            if cur.max > mx {
                mx = cur.max;
            }
            k = k + 1;
        }
        crate::series::Range { min: mn, max: mx }
    }

    /// The union of the series' y extents, as `compute_x_range_from_series`
    /// along y.
    pub fn compute_y_range_from_series(&self) -> (r: crate::series::Range)
        ensures
            self.series@.len() == 0 ==> r == (crate::series::Range { min: 0i64, max: 10i64 }),
            self.series@.len() > 0 && all_empty(self.series@) ==> r == (crate::series::Range {
                min: i64::MAX,
                max: i64::MIN,
            }),
            self.series@.len() > 0 && !all_empty(self.series@) ==> is_min_y_all(self.series@, r.min)
                && is_max_y_all(self.series@, r.max),
    {
        let n = self.series.len();
        if n == 0 {
            return crate::series::Range { min: 0, max: 10 };
        }
        let mut mn: i64 = i64::MAX;
        let mut mx: i64 = i64::MIN;
        let mut k: usize = 0;
        while k < n
            invariant
                n == self.series@.len(),
                k <= n,
                (mn == i64::MAX && mx == i64::MIN && forall|kk: int|
                    0 <= kk < k ==> (#[trigger] self.series@[kk]).data_spec().len() == 0) || ((
                exists|kk: int, j: int|
                    #![trigger self.series@[kk].data_spec()[j]]
                    0 <= kk < k && 0 <= j < self.series@[kk].data_spec().len()
                        && self.series@[kk].data_spec()[j].1 == mn) && (forall|kk: int, j: int|
                    #![trigger self.series@[kk].data_spec()[j]]
                    0 <= kk < k && 0 <= j < self.series@[kk].data_spec().len()
                        ==> mn <= self.series@[kk].data_spec()[j].1) && (exists|kk: int, j: int|
                    #![trigger self.series@[kk].data_spec()[j]]
                    0 <= kk < k && 0 <= j < self.series@[kk].data_spec().len()
                        && self.series@[kk].data_spec()[j].1 == mx) && (forall|kk: int, j: int|
                    #![trigger self.series@[kk].data_spec()[j]]
                    0 <= kk < k && 0 <= j < self.series@[kk].data_spec().len()
                        ==> self.series@[kk].data_spec()[j].1 <= mx)),
            decreases n - k,
        {
            let cur = self.series[k].y_range();
            if cur.min < mn {
                mn = cur.min;
            }
            if cur.max > mx {
                mx = cur.max;
            }
            k = k + 1;
        }
        crate::series::Range { min: mn, max: mx }
    }
}

/// The spatial entries an identified series contributes: one per data
/// item, the item's index as its id.
pub open spec fn series_entries(s: Series) -> Seq<crate::items::Entry> {
    Seq::new(
        s.data_spec().len(),
        |k: int|
            crate::items::Entry { id: k as usize, x: s.data_spec()[k].0, y: s.data_spec()[k].1 },
    )
}

impl Chart {
    /// The plane `pl` is the one a layout pass over this configuration
    /// and this pixel rectangle stores: margins and pixel spans from the
    /// widget, data ranges resolved as the explicit override, else the
    /// exact union of the series extents, else the default `[0, 10]`.
    pub open spec fn plane_matches(self, width: i64, height: i64, pl: Plane) -> bool {
        &&& pl.x.margin_min == self.margin.left
        &&& pl.x.margin_max == self.margin.right
        &&& pl.x.pixel == width
        &&& pl.y.margin_min == self.margin.bottom
        &&& pl.y.margin_max == self.margin.top
        &&& pl.y.pixel == height
        &&& match self.x_range {
            Some(r) => pl.x.min == r.min && pl.x.max == r.max,
            None => if self.series@.len() > 0 && !all_empty(self.series@) {
                is_min_x_all(self.series@, pl.x.min) && is_max_x_all(self.series@, pl.x.max)
            } else {
                pl.x.min == 0 && pl.x.max == 10
            },
        }
        &&& match self.y_range {
            Some(r) => pl.y.min == r.min && pl.y.max == r.max,
            None => if self.series@.len() > 0 && !all_empty(self.series@) {
                is_min_y_all(self.series@, pl.y.min) && is_max_y_all(self.series@, pl.y.max)
            } else {
                pl.y.min == 0 && pl.y.max == 10
            },
        }
    }

    /// The layout pass: resolves the effective data ranges, builds the
    /// plane for the allotted pixel rectangle, and stores it in the
    /// per-instance state. Everything else in the state is untouched.
    pub fn layout(&self, state: &mut State, width: i64, height: i64)
        requires
            self.wf(),
            0 <= width <= MAX_COORD,
            0 <= height <= MAX_COORD,
        ensures
            final(state).plane matches Some(pl) && pl.wf() && self.plane_matches(
                width,
                height,
                pl,
            ),
            final(state).prev_position == old(state).prev_position,
            final(state).cursor_position == old(state).cursor_position,
            final(state).scroll_delta == old(state).scroll_delta,
            final(state).item_list == old(state).item_list,
    {
        let xr = match &self.x_range {
            Some(r) => *r,
            None => {
                let a = self.compute_x_range_from_series();
                if a.min <= a.max {
                    proof {
                        if self.series@.len() > 0 && !all_empty(self.series@) {
                            let (kk, j) = choose|kk: int, j: int|
                                #![trigger self.series@[kk].data_spec()[j]]
                                0 <= kk < self.series@.len() && 0 <= j
                                    < self.series@[kk].data_spec().len()
                                    && self.series@[kk].data_spec()[j].0 == a.min;
                            assert(self.series@[kk].wf());
                            let (kk2, j2) = choose|kk2: int, j2: int|
                                #![trigger self.series@[kk2].data_spec()[j2]]
                                0 <= kk2 < self.series@.len() && 0 <= j2
                                    < self.series@[kk2].data_spec().len()
                                    && self.series@[kk2].data_spec()[j2].0 == a.max;
                            assert(self.series@[kk2].wf());
                        }
                    }
                    a
                } else {
                    crate::series::Range { min: 0, max: 10 }
                }
            },
        };
        let yr = match &self.y_range {
            Some(r) => *r,
            None => {
                let a = self.compute_y_range_from_series();
                if a.min <= a.max {
                    proof {
                        if self.series@.len() > 0 && !all_empty(self.series@) {
                            let (kk, j) = choose|kk: int, j: int|
                                #![trigger self.series@[kk].data_spec()[j]]
                                0 <= kk < self.series@.len() && 0 <= j
                                    < self.series@[kk].data_spec().len()
                                    && self.series@[kk].data_spec()[j].1 == a.min;
                            assert(self.series@[kk].wf());
                            let (kk2, j2) = choose|kk2: int, j2: int|
                                #![trigger self.series@[kk2].data_spec()[j2]]
                                0 <= kk2 < self.series@.len() && 0 <= j2
                                    < self.series@[kk2].data_spec().len()
                                    && self.series@[kk2].data_spec()[j2].1 == a.max;
                            assert(self.series@[kk2].wf());
                        }
                    }
                    a
                } else {
                    crate::series::Range { min: 0, max: 10 }
                }
            },
        };
        let plane = Plane {
            x: Axis::new(xr.min, xr.max, self.margin.left, self.margin.right, width),
            y: Axis::new(yr.min, yr.max, self.margin.bottom, self.margin.top, height),
        };
        state.plane = Some(plane);
    }
}

impl Default for Chart {
    /// An empty chart with every option at its default.
    fn default() -> (r: Chart)
        ensures
            r.wf(),
            r.series@.len() == 0,
            r.x_range is None,
            r.y_range is None,
            !r.on_move && !r.on_press && !r.on_release && !r.on_scroll,
    {
        Chart::new()
    }
}

/// Laying out twice with identical inputs stores bit-identical planes:
/// the layout contract pins every plane field, so any two planes that
/// satisfy it for the same configuration and rectangle are equal.
pub proof fn lemma_layout_idempotent(c: Chart, width: i64, height: i64, p1: Plane, p2: Plane)
    requires
        c.plane_matches(width, height, p1),
        c.plane_matches(width, height, p2),
    ensures
        p1 == p2,
{
    if c.x_range is None && c.series@.len() > 0 && !all_empty(c.series@) {
        let (k1, j1) = choose|k1: int, j1: int|
            #![trigger c.series@[k1].data_spec()[j1]]
            0 <= k1 < c.series@.len() && 0 <= j1 < c.series@[k1].data_spec().len()
                && c.series@[k1].data_spec()[j1].0 == p1.x.min;
        let (k2, j2) = choose|k2: int, j2: int|
            #![trigger c.series@[k2].data_spec()[j2]]
            0 <= k2 < c.series@.len() && 0 <= j2 < c.series@[k2].data_spec().len()
                && c.series@[k2].data_spec()[j2].0 == p2.x.min;
        assert(p1.x.min <= c.series@[k2].data_spec()[j2].0);
        assert(p2.x.min <= c.series@[k1].data_spec()[j1].0);
        let (m1, n1) = choose|m1: int, n1: int|
            #![trigger c.series@[m1].data_spec()[n1]]
            0 <= m1 < c.series@.len() && 0 <= n1 < c.series@[m1].data_spec().len()
                && c.series@[m1].data_spec()[n1].0 == p1.x.max;
        let (m2, n2) = choose|m2: int, n2: int|
            #![trigger c.series@[m2].data_spec()[n2]]
            0 <= m2 < c.series@.len() && 0 <= n2 < c.series@[m2].data_spec().len()
                && c.series@[m2].data_spec()[n2].0 == p2.x.max;
        assert(c.series@[m2].data_spec()[n2].0 <= p1.x.max);
        assert(c.series@[m1].data_spec()[n1].0 <= p2.x.max);
    }
    if c.y_range is None && c.series@.len() > 0 && !all_empty(c.series@) {
        let (k1, j1) = choose|k1: int, j1: int|
            #![trigger c.series@[k1].data_spec()[j1]]
            0 <= k1 < c.series@.len() && 0 <= j1 < c.series@[k1].data_spec().len()
                && c.series@[k1].data_spec()[j1].1 == p1.y.min;
        let (k2, j2) = choose|k2: int, j2: int|
            #![trigger c.series@[k2].data_spec()[j2]]
            0 <= k2 < c.series@.len() && 0 <= j2 < c.series@[k2].data_spec().len()
                && c.series@[k2].data_spec()[j2].1 == p2.y.min;
        assert(p1.y.min <= c.series@[k2].data_spec()[j2].1);
        assert(p2.y.min <= c.series@[k1].data_spec()[j1].1);
        let (m1, n1) = choose|m1: int, n1: int|
            #![trigger c.series@[m1].data_spec()[n1]]
            0 <= m1 < c.series@.len() && 0 <= n1 < c.series@[m1].data_spec().len()
                && c.series@[m1].data_spec()[n1].1 == p1.y.max;
        let (m2, n2) = choose|m2: int, n2: int|
            #![trigger c.series@[m2].data_spec()[n2]]
            0 <= m2 < c.series@.len() && 0 <= n2 < c.series@[m2].data_spec().len()
                && c.series@[m2].data_spec()[n2].1 == p2.y.max;
        assert(c.series@[m2].data_spec()[n2].1 <= p1.y.max);
        assert(c.series@[m1].data_spec()[n1].1 <= p2.y.max);
    }
}

/// Local state of a chart instance: the plane of the last layout pass,
/// the cursor history, the last scroll delta and the last hit list.
pub struct State {
    pub plane: Option<Plane>,
    pub prev_position: Option<(i64, i64)>,
    pub cursor_position: Option<(i64, i64)>,
    pub scroll_delta: Option<(i64, i64)>,
    pub item_list: Option<Vec<(u64, usize)>>,
}

impl State {
    pub open spec fn wf(self) -> bool {
        &&& match self.plane {
            Some(pl) => pl.wf(),
            None => true,
        }
        &&& match self.cursor_position {
            Some(c) => -MAX_COORD <= c.0 <= MAX_COORD && -MAX_COORD <= c.1 <= MAX_COORD,
            None => true,
        }
    }

    /// The cursor position of the last event, in widget-local pixels.
    pub fn get_cursor_position(&self) -> (r: Option<(i64, i64)>)
        ensures
            r == self.cursor_position,
    {
        self.cursor_position
    }

    /// The data-space coordinates under the cursor, exact per axis, when
    /// both a cursor position and a plane are known.
    pub fn get_coords(&self) -> (r: Option<(Frac, Frac)>)
        requires
            self.wf(),
        ensures
            match (self.cursor_position, self.plane) {
                (Some(c), Some(pl)) => r matches Some(q) && q.0.wf() && q.1.wf() && q.0.num
                    == pl.x.inv_num(c.0 as int, 1) && q.0.den == pl.x.inv_den(1) && q.1.num
                    == pl.y.inv_num_inv(c.1 as int, 1) && q.1.den == pl.y.inv_den(1),
                _ => r is None,
            },
    {
        match (self.cursor_position, &self.plane) {
            (Some(c), Some(pl)) => Some(pl.get_cartesian(c.0, c.1)),
            _ => None,
        }
    }

    /// The data-space offset of the cursor from the center of the data
    /// range, when both a cursor position and a plane are known.
    pub fn get_offset(&self) -> (r: Option<(Frac, Frac)>)
        requires
            self.wf(),
        ensures
            match (self.cursor_position, self.plane) {
                (Some(c), Some(pl)) => r matches Some(q) && q.0.wf() && q.1.wf() && q.0.num == 2
                    * pl.x.inv_num(c.0 as int, 1) - (2 * pl.x.min + (pl.x.max - pl.x.min))
                    * pl.x.inv_den(1) && q.0.den == 2 * pl.x.inv_den(1) && q.1.num == 2
                    * pl.y.inv_num_inv(c.1 as int, 1) - (2 * pl.y.min + (pl.y.max - pl.y.min))
                    * pl.y.inv_den(1) && q.1.den == 2 * pl.y.inv_den(1),
                _ => r is None,
            },
    {
        match (self.cursor_position, &self.plane) {
            (Some(c), Some(pl)) => Some(pl.get_offset(c.0, c.1)),
            _ => None,
        }
    }

    /// The x data range of the last layout pass.
    pub fn x_range(&self) -> (r: Option<crate::series::Range>)
        ensures
            match self.plane {
                Some(pl) => r == Some(crate::series::Range { min: pl.x.min, max: pl.x.max }),
                None => r is None,
            },
    {
        match &self.plane {
            Some(pl) => Some(crate::series::Range { min: pl.x.min, max: pl.x.max }),
            None => None,
        }
    }

    /// The delta of the last scroll event, if any.
    pub fn scroll_delta(&self) -> (r: Option<(i64, i64)>)
        ensures
            r == self.scroll_delta,
    {
        self.scroll_delta
    }

    /// The hits resolved by the last move event, if any.
    pub fn items(&self) -> (r: Option<&Vec<(u64, usize)>>)
        ensures
            match self.item_list {
                Some(v) => r matches Some(rv) && *rv == v,
                None => r is None,
            },
    {
        match &self.item_list {
            Some(v) => Some(v),
            None => None,
        }
    }
}

impl Default for State {
    fn default() -> (r: State)
        ensures
            r.wf(),
            r.plane is None,
            r.prev_position is None,
            r.cursor_position is None,
            r.scroll_delta is None,
            r.item_list is None,
    {
        State {
            plane: None,
            prev_position: None,
            cursor_position: None,
            scroll_delta: None,
            item_list: None,
        }
    }
}

/// The pixel rectangle the host allotted to the widget, in absolute
/// screen coordinates.
#[derive(Clone, Copy, Debug)]
pub struct WidgetBounds {
    pub x: i64,
    pub y: i64,
    pub width: i64,
    pub height: i64,
}

impl WidgetBounds {
    pub open spec fn wf(self) -> bool {
        &&& -MAX_COORD <= self.x <= MAX_COORD
        &&& -MAX_COORD <= self.y <= MAX_COORD
        &&& 0 <= self.width <= MAX_COORD
        &&& 0 <= self.height <= MAX_COORD
    }

    /// The absolute point lies inside the rectangle.
    pub open spec fn holds_point(self, p: (i64, i64)) -> bool {
        self.x <= p.0 < self.x + self.width && self.y <= p.1 < self.y + self.height
    }
}

/// One raw input event, already merged across mouse and touch: a press
/// is a left-button press or a touch begin, and so on.
#[derive(Clone, Copy, Debug, PartialEq, Eq, Structural)]
pub enum Event {
    PointerPressed,
    PointerReleased,
    PointerMoved,
    WheelScrolled { dx: i64, dy: i64 },
}

/// Which interaction class one event resolved to; at most one class
/// fires per event.
#[derive(Clone, Copy, Debug, PartialEq, Eq, Structural)]
pub enum Interaction {
    Idle,
    Press,
    Release,
    Moved,
    Scroll,
}

/// The elements of `s` whose series id is `sid`, in order.
pub open spec fn filter_sid(s: Seq<(u64, usize)>, sid: u64) -> Seq<(u64, usize)>
    decreases s.len(),
{
    if s.len() == 0 {
        Seq::empty()
    } else {
        let rest = filter_sid(s.drop_last(), sid);
        if s.last().0 == sid {
            rest.push(s.last())
        } else {
            rest
        }
    }
}

/// Extending the scanned prefix by one hit keeps it exactly when its
/// series id matches.
proof fn lemma_filter_sid_step(s: Seq<(u64, usize)>, sid: u64, k: int)
    requires
        0 <= k < s.len(),
    ensures
        s[k].0 == sid ==> filter_sid(s.take(k + 1), sid) == filter_sid(s.take(k), sid).push(s[k]),
        s[k].0 != sid ==> filter_sid(s.take(k + 1), sid) == filter_sid(s.take(k), sid),
{
    assert(s.take(k + 1).drop_last() =~= s.take(k));
    assert(s.take(k + 1).last() == s[k]);
}

/// The hit-test window around the widget-local cursor position `rel`:
/// the pixel-space collision box, centered at the cursor's data-space
/// point, divided by the per-axis scale. Its data-space size is the
/// box's pixel size divided by the scale, so the box keeps its apparent
/// pixel size at any zoom.
pub open spec fn rect_for(plane: Plane, rel: (i64, i64), bx: crate::series::CollisionBox)
    -> crate::items::QueryRect {
    crate::items::QueryRect {
        x0: Frac {
            num: (2 * plane.x.inv_num(rel.0 as int, 1) - bx.width * plane.x.span()) as i128,
            den: (2 * plane.x.inv_den(1)) as i128,
        },
        x1: Frac {
            num: (2 * plane.x.inv_num(rel.0 as int, 1) + bx.width * plane.x.span()) as i128,
            den: (2 * plane.x.inv_den(1)) as i128,
        },
        y0: Frac {
            num: (2 * plane.y.inv_num_inv(rel.1 as int, 1) - bx.height * plane.y.span()) as i128,
            den: (2 * plane.y.inv_den(1)) as i128,
        },
        y1: Frac {
            num: (2 * plane.y.inv_num_inv(rel.1 as int, 1) + bx.height * plane.y.span()) as i128,
            den: (2 * plane.y.inv_den(1)) as i128,
        },
    }
}

/// Builds the hit-test window executably.
fn collision_rect(plane: &Plane, rel: (i64, i64), bx: crate::series::CollisionBox) -> (r:
    crate::items::QueryRect)
    requires
        plane.wf(),
        -MAX_COORD <= rel.0 <= MAX_COORD,
        -MAX_COORD <= rel.1 <= MAX_COORD,
        bx.wf(),
    ensures
        r == rect_for(*plane, rel, bx),
        r.wf(),
{
    let (dx, dy) = plane.get_cartesian(rel.0, rel.1);
    proof {
        crate::cartesian::lemma_axis_spans(plane.x);
        crate::cartesian::lemma_axis_spans(plane.y);
        crate::frac::lemma_mul_fits(
            rel.0 as int - plane.x.margin_min as int,
            plane.x.span(),
            0x200_0000_0000int,
            0x200_0000_0000int,
        );
        crate::frac::lemma_mul_fits(
            plane.x.min as int,
            plane.x.inner(),
            0x100_0000_0000int,
            0x100_0000_0000int,
        );
        crate::frac::lemma_mul_fits(
            rel.1 as int - plane.y.margin_max as int,
            plane.y.span(),
            0x200_0000_0000int,
            0x200_0000_0000int,
        );
        crate::frac::lemma_mul_fits(
            plane.y.max as int,
            plane.y.inner(),
            0x100_0000_0000int,
            0x100_0000_0000int,
        );
    }
    let wx: i128 = bx.width as i128;
    let wy: i128 = bx.height as i128;
    let span_x = plane.x.span_exec();
    let span_y = plane.y.span_exec();
    proof {
        crate::frac::lemma_mul_fits(wx as int, span_x as int, 0x100_0000_0000int, 0x200_0000_0000int);
        crate::frac::lemma_mul_fits(wy as int, span_y as int, 0x100_0000_0000int, 0x200_0000_0000int);
    }
    let half_x: i128 = wx * span_x;
    let half_y: i128 = wy * span_y;
    crate::items::QueryRect {
        x0: Frac { num: 2 * dx.num - half_x, den: 2 * dx.den },
        x1: Frac { num: 2 * dx.num + half_x, den: 2 * dx.den },
        y0: Frac { num: 2 * dy.num - half_y, den: 2 * dy.den },
        y1: Frac { num: 2 * dy.num + half_y, den: 2 * dy.den },
    }
}

/// What one series contributes to the hit list for the cursor at `rel`:
/// an identified series queries the index with its own scaled window and
/// keeps the hits carrying its id; a series without identity contributes
/// nothing.
pub open spec fn series_hits(
    s: Series,
    idx: Items,
    plane: Plane,
    rel: (i64, i64),
) -> Seq<(u64, usize)> {
    match s.id_spec() {
        Some(sid) => filter_sid(
            crate::items::bucket_hits(idx.buckets@, rect_for(plane, rel, resolved_box_of(s))),
            sid,
        ),
        None => Seq::empty(),
    }
}

/// The collision box of a series, where it has one; only consulted for
/// identified series, which always carry one.
pub open spec fn resolved_box_of(s: Series) -> crate::series::CollisionBox {
    match s.collision_box_spec() {
        Some(b) => b,
        None => crate::series::CollisionBox { width: 0, height: 0 },
    }
}

/// The hits the first `k` series contribute, concatenated in series
/// order.
pub open spec fn hits_upto(
    ss: Seq<Series>,
    idx: Items,
    plane: Plane,
    rel: (i64, i64),
    k: int,
) -> Seq<(u64, usize)>
    decreases k,
{
    if k <= 0 {
        Seq::empty()
    } else {
        hits_upto(ss, idx, plane, rel, k - 1) + series_hits(ss[k - 1], idx, plane, rel)
    }
}

/// The hit-test window is coupled to the zoom level exactly as the
/// transform prescribes: its data-space width times the x scale equals
/// the collision box's pixel width. Cross-multiplied with the window's
/// denominator, `(x1 - x0) * inner == width * span * den`, which says
/// the data-space width is `width / scale`.
pub proof fn lemma_hit_window_width(plane: Plane, rel: (i64, i64), bx: crate::series::CollisionBox)
    requires
        plane.wf(),
        -MAX_COORD <= rel.0 <= MAX_COORD,
        -MAX_COORD <= rel.1 <= MAX_COORD,
        bx.wf(),
    ensures
        ({
            let r = rect_for(plane, rel, bx);
            &&& r.x1.num - r.x0.num == 2 * (bx.width * plane.x.span())
            &&& r.x0.den == 2 * plane.x.inner()
            &&& (r.x1.num - r.x0.num) * plane.x.inner() == (bx.width * plane.x.span()) * r.x0.den
        }),
{
    crate::cartesian::lemma_axis_spans(plane.x);
    crate::cartesian::lemma_axis_spans(plane.y);
    crate::frac::lemma_mul_fits(
        rel.0 as int - plane.x.margin_min as int,
        plane.x.span(),
        0x200_0000_0000int,
        0x200_0000_0000int,
    );
    crate::frac::lemma_mul_fits(
        plane.x.min as int,
        plane.x.inner(),
        0x100_0000_0000int,
        0x100_0000_0000int,
    );
    crate::frac::lemma_mul_fits(
        bx.width as int,
        plane.x.span(),
        0x100_0000_0000int,
        0x200_0000_0000int,
    );
    let w = bx.width as int;
    let sp = plane.x.span();
    let inr = plane.x.inner();
    assert((2 * (w * sp)) * inr == (w * sp) * (2 * inr)) by (nonlinear_arith);
}

/// At a larger x scale the same pixel collision box spans a smaller
/// data-space window: with equal data spans, the window of the axis with
/// the larger inner pixel span is at most the other, as fractions.
pub proof fn lemma_hit_window_scale(
    p1: Plane,
    p2: Plane,
    rel1: (i64, i64),
    rel2: (i64, i64),
    bx: crate::series::CollisionBox,
)
    requires
        p1.wf(),
        p2.wf(),
        -MAX_COORD <= rel1.0 <= MAX_COORD,
        -MAX_COORD <= rel1.1 <= MAX_COORD,
        -MAX_COORD <= rel2.0 <= MAX_COORD,
        -MAX_COORD <= rel2.1 <= MAX_COORD,
        bx.wf(),
        p1.x.span() == p2.x.span(),
        p1.x.inner() >= p2.x.inner(),
    ensures
        ({
            let r1 = rect_for(p1, rel1, bx);
            let r2 = rect_for(p2, rel2, bx);
            (r1.x1.num - r1.x0.num) * r2.x0.den <= (r2.x1.num - r2.x0.num) * r1.x0.den
        }),
{
    lemma_hit_window_width(p1, rel1, bx);
    lemma_hit_window_width(p2, rel2, bx);
    let w = bx.width as int;
    let sp = p1.x.span();
    assert((2 * (w * sp)) * (2 * p2.x.inner()) <= (2 * (w * sp)) * (2 * p1.x.inner()))
        by (nonlinear_arith)
        requires
            w >= 0,
            sp >= 1,
            p2.x.inner() <= p1.x.inner(),
    ;
}

impl Chart {
    /// The ordered hit list for the cursor at widget-local `rel`: each
    /// identified series' window query, filtered to that series, in
    /// series order.
    fn resolve_hits(&self, plane: &Plane, rel: (i64, i64)) -> (r: Vec<(u64, usize)>)
        requires
            self.wf(),
            plane.wf(),
            -MAX_COORD <= rel.0 <= MAX_COORD,
            -MAX_COORD <= rel.1 <= MAX_COORD,
        ensures
            r@ == hits_upto(self.series@, self.items, *plane, rel, self.series@.len() as int),
    {
        let n = self.series.len();
        let mut r: Vec<(u64, usize)> = Vec::new();
        let mut k: usize = 0;
        while k < n
            invariant
                self.wf(),
                plane.wf(),
                -MAX_COORD <= rel.0 <= MAX_COORD,
                -MAX_COORD <= rel.1 <= MAX_COORD,
                n == self.series@.len(),
                k <= n,
                r@ == hits_upto(self.series@, self.items, *plane, rel, k as int),
            decreases n - k,
        {
            let s = &self.series[k];
            match s.id() {
                Some(sid) => {
                    let bx = match s.collision_box() {
                        Some(b) => b,
                        None => crate::series::CollisionBox { width: 0, height: 0 },
                    };
                    proof {
                        assert(self.series@[k as int].wf());
                    }
                    let rect = collision_rect(plane, rel, bx);
                    let part = self.items.collision(rect);
                    let m = part.len();
                    let mut j: usize = 0;
                    proof {
                        assert(part@.take(0) =~= Seq::<(u64, usize)>::empty());
                        assert(r@ =~= hits_upto(self.series@, self.items, *plane, rel, k as int)
                            + filter_sid(part@.take(0), sid));
                    }
                    while j < m
                        invariant
                            m == part@.len(),
                            j <= m,
                            r@ == hits_upto(self.series@, self.items, *plane, rel, k as int)
                                + filter_sid(part@.take(j as int), sid),
                        decreases m - j,
                    {
                        let hit = part[j];
                        proof {
                            lemma_filter_sid_step(part@, sid, j as int);
                        }
                        if hit.0 == sid {
                            r.push(hit);
                        }
                        j = j + 1;
                    }
                    proof {
                        assert(part@.take(m as int) =~= part@);
                    }
                },
                None => {},
            }
            k = k + 1;
        }
        r
    }

    /// Which interaction class an in-bounds event of this chart resolves
    /// to: its own class where the matching callback is registered,
    /// nothing otherwise. The classes are mutually exclusive by
    /// construction: one event resolves to at most one class.
    pub open spec fn interaction_for(self, event: Event) -> Interaction {
        match event {
            Event::PointerPressed => if self.on_press {
                Interaction::Press
            } else {
                Interaction::Idle
            },
            Event::PointerReleased => if self.on_release {
                Interaction::Release
            } else {
                Interaction::Idle
            },
            Event::PointerMoved => if self.on_move {
                Interaction::Moved
            } else {
                Interaction::Idle
            },
            Event::WheelScrolled { .. } => if self.on_scroll {
                Interaction::Scroll
            } else {
                Interaction::Idle
            },
        }
    }

    /// Interprets one raw event.
    ///
    /// Without a cursor position the event is ignored outright. With
    /// one, the widget-local position is recorded (the previous one
    /// shifting into the history) whether or not the cursor is inside
    /// the widget; but only an in-bounds event fires its interaction
    /// class, a move event additionally resolving the hit list when a
    /// plane is known, a scroll event recording its delta. An event
    /// outside the bounds fires nothing.
    pub fn update(
        &self,
        state: &mut State,
        event: Event,
        bounds: WidgetBounds,
        cursor: Option<(i64, i64)>,
    ) -> (r: Interaction)
        requires
            self.wf(),
            old(state).wf(),
            bounds.wf(),
            cursor matches Some(c) ==> -MAX_COORD <= c.0 - bounds.x <= MAX_COORD && -MAX_COORD
                <= c.1 - bounds.y <= MAX_COORD,
        ensures
            final(state).wf(),
            cursor is None ==> r == Interaction::Idle && *final(state) == *old(state),
            cursor matches Some(c) ==> {
                &&& final(state).plane == old(state).plane
                &&& final(state).prev_position == old(state).cursor_position
                &&& (final(state).cursor_position matches Some(rp) && rp.0 == c.0 - bounds.x
                    && rp.1 == c.1 - bounds.y)
                &&& !bounds.holds_point(c) ==> r == Interaction::Idle && final(state).scroll_delta
                    == old(state).scroll_delta && final(state).item_list == old(state).item_list
                &&& bounds.holds_point(c) ==> {
                    &&& r == self.interaction_for(event)
                    &&& final(state).scroll_delta == (match event {
                        Event::WheelScrolled { dx, dy } => if self.on_scroll {
                            Some((dx, dy))
                        } else {
                            old(state).scroll_delta
                        },
                        _ => old(state).scroll_delta,
                    })
                    &&& event == Event::PointerMoved && self.on_move ==> (old(
                        state,
                    ).plane matches Some(pl) ==> (final(state).item_list matches Some(v) && v@
                        == hits_upto(
                        self.series@,
                        self.items,
                        pl,
                        ((c.0 - bounds.x) as i64, (c.1 - bounds.y) as i64),
                        self.series@.len() as int,
                    )))
                    &&& !(event == Event::PointerMoved && self.on_move
                        && old(state).plane is Some) ==> final(state).item_list == old(
                        state,
                    ).item_list
                }
            },
    {
        let c = match cursor {
            Some(c) => c,
            None => {
                return Interaction::Idle;
            },
        };
        let rel = (c.0 - bounds.x, c.1 - bounds.y);
        state.prev_position = state.cursor_position;
        state.cursor_position = Some(rel);
        let inside = bounds.x <= c.0 && c.0 < bounds.x + bounds.width && bounds.y <= c.1 && c.1
            < bounds.y + bounds.height;
        if !inside {
            return Interaction::Idle;
        }
        match event {
            Event::PointerPressed => {
                if self.on_press {
                    Interaction::Press
                } else {
                    Interaction::Idle
                }
            },
            Event::PointerReleased => {
                if self.on_release {
                    Interaction::Release
                } else {
                    Interaction::Idle
                }
            },
            Event::PointerMoved => {
                if self.on_move {
                    match &state.plane {
                        Some(pl) => {
                            let plane = *pl;
                            let hits = self.resolve_hits(&plane, rel);
                            state.item_list = Some(hits);
                        },
                        None => {},
                    }
                    Interaction::Moved
                } else {
                    Interaction::Idle
                }
            },
            Event::WheelScrolled { dx, dy } => {
                if self.on_scroll {
                    state.scroll_delta = Some((dx, dy));
                    Interaction::Scroll
                } else {
                    Interaction::Idle
                }
            },
        }
    }
}

/// Membership in a filtered hit list: a payload passes the filter
/// exactly when it was in the unfiltered list and carries the wanted id.
proof fn lemma_filter_sid_member(q: Seq<(u64, usize)>, sid: u64, s: u64, it: usize)
    ensures
        filter_sid(q, sid).contains((s, it)) <==> (s == sid && q.contains((s, it))),
    decreases q.len(),
{
    if q.len() > 0 {
        lemma_filter_sid_member(q.drop_last(), sid, s, it);
        let rest = filter_sid(q.drop_last(), sid);
        if filter_sid(q, sid).contains((s, it)) {
            let w = choose|w: int|
                0 <= w < filter_sid(q, sid).len() && filter_sid(q, sid)[w] == (s, it);
            if q.last().0 == sid && w == rest.len() {
                assert(q[q.len() - 1] == (s, it));
            } else {
                assert(rest[w] == (s, it));
                assert(rest.contains((s, it)));
                let u = choose|u: int| 0 <= u < q.drop_last().len() && q.drop_last()[u] == (s, it);
                assert(q[u] == (s, it));
            }
        }
        if s == sid && q.contains((s, it)) {
            let u = choose|u: int| 0 <= u < q.len() && q[u] == (s, it);
            if u == q.len() - 1 {
                assert(filter_sid(q, sid)[rest.len() as int] == (s, it));
            } else {
                assert(q.drop_last()[u] == (s, it));
                assert(q.drop_last().contains((s, it)));
                let w = choose|w: int| 0 <= w < rest.len() && rest[w] == (s, it);
                assert(filter_sid(q, sid)[w] == (s, it));
            }
        }
    }
}

/// The series at index `k` accounts for the hit `(s, it)`: it carries
/// the id `s`, and the index stores `(s, it)` at some point inside that
/// series' own scaled hit-test window.
pub open spec fn series_accounts_for(
    ss: Seq<Series>,
    idx: Items,
    plane: Plane,
    rel: (i64, i64),
    k: int,
    s: u64,
    it: usize,
) -> bool {
    &&& ss[k].id_spec() == Some(s)
    &&& exists|x: i64, y: i64|
        #[trigger] idx.has_item(x, y, s, it) && rect_for(plane, rel, resolved_box_of(ss[k])).covers(
            x,
            y,
        )
}

/// What the move event's hit list holds, end to end: a pair `(s, it)`
/// is on the list exactly when some series carries the id `s` and the
/// spatial index stores `(s, it)` at a point inside that series' own
/// hit-test window around the cursor.
pub proof fn lemma_hits_member(
    ss: Seq<Series>,
    idx: Items,
    plane: Plane,
    rel: (i64, i64),
    n: int,
    s: u64,
    it: usize,
)
    requires
        idx.wf(),
        0 <= n <= ss.len(),
    ensures
        hits_upto(ss, idx, plane, rel, n).contains((s, it)) <==> exists|k: int|
            0 <= k < n && #[trigger] series_accounts_for(ss, idx, plane, rel, k, s, it),
    decreases n,
{
    if n > 0 {
        lemma_hits_member(ss, idx, plane, rel, n - 1, s, it);
        let prefix = hits_upto(ss, idx, plane, rel, n - 1);
        let last = series_hits(ss[n - 1], idx, plane, rel);
        let whole = hits_upto(ss, idx, plane, rel, n);
        match ss[n - 1].id_spec() {
            Some(sid) => {
                let rect = rect_for(plane, rel, resolved_box_of(ss[n - 1]));
                lemma_filter_sid_member(
                    crate::items::bucket_hits(idx.buckets@, rect),
                    sid,
                    s,
                    it,
                );
                crate::items::lemma_collision_exact(idx, rect, s, it);
            },
            None => {},
        }
        if whole.contains((s, it)) {
            let w = choose|w: int| 0 <= w < whole.len() && whole[w] == (s, it);
            if w < prefix.len() {
                assert(prefix[w] == (s, it));
                assert(prefix.contains((s, it)));
            } else {
                assert(last[w - prefix.len()] == (s, it));
                assert(last.contains((s, it)));
                assert(series_accounts_for(ss, idx, plane, rel, n - 1, s, it));
            }
        }
        if exists|k: int| 0 <= k < n && #[trigger] series_accounts_for(ss, idx, plane, rel, k, s, it) {
            let k = choose|k: int|
                0 <= k < n && #[trigger] series_accounts_for(ss, idx, plane, rel, k, s, it);
            if k < n - 1 {
                assert(prefix.contains((s, it)));
                let w = choose|w: int| 0 <= w < prefix.len() && prefix[w] == (s, it);
                assert(whole[w] == (s, it));
            } else {
                assert(last.contains((s, it)));
                let w = choose|w: int| 0 <= w < last.len() && last[w] == (s, it);
                assert(whole[prefix.len() + w] == (s, it));
            }
        }
    }
}

/// One event fires at most its own interaction class: a move event can
/// resolve only to a move interaction (when a move callback is
/// registered) or to nothing, never to a press, release or scroll,
/// however many other callbacks are registered.
pub proof fn lemma_move_fires_only_move(c: Chart)
    ensures
        c.on_move ==> c.interaction_for(Event::PointerMoved) == Interaction::Moved,
        c.interaction_for(Event::PointerMoved) != Interaction::Press,
        c.interaction_for(Event::PointerMoved) != Interaction::Release,
        c.interaction_for(Event::PointerMoved) != Interaction::Scroll,
{
}

/// The font size a label style resolves to.
pub open spec fn label_size_of(l: Labels) -> i64 {
    match l.font_size {
        Some(s) => s,
        None => 12,
    }
}

/// The color a label style resolves to.
pub open spec fn label_color_of(l: Labels) -> Color {
    match l.color {
        Some(c) => c,
        None => Color { r: 255, g: 255, b: 255, a: 255 },
    }
}

/// The screen y position of data height zero: where the x axis line
/// sits before clamping.
pub open spec fn x_axis_zero_y(plane: Plane) -> Frac {
    Frac { num: plane.y.fwd_num_inv(0) as i128, den: plane.y.span() as i128 }
}

/// The x axis line's screen y position, clamped to keep the line and
/// its labels inside the widget when data height zero sits below the
/// bottom edge.
pub open spec fn x_baseline_y(plane: Plane, height: i64) -> Frac {
    let sy = x_axis_zero_y(plane);
    if sy.gt_int(height - 10) {
        Frac { num: (height - 10) as i128, den: 1 }
    } else {
        sy
    }
}

/// The x axis baseline: a horizontal stroke across the x data range at
/// the clamped height of data zero.
pub open spec fn x_axis_baseline(c: Chart, plane: Plane, height: i64) -> Segment {
    Segment {
        from: ScreenPoint {
            x: Frac {
                num: plane.x.fwd_num(plane.x.min as int) as i128,
                den: plane.x.span() as i128,
            },
            y: x_baseline_y(plane, height),
        },
        to: ScreenPoint {
            x: Frac {
                num: plane.x.fwd_num(plane.x.max as int) as i128,
                den: plane.x.span() as i128,
            },
            y: x_baseline_y(plane, height),
        },
        width: c.x_axis.width,
        color: c.x_axis.color,
    }
}

/// Index of the lowest tick: the least multiple of the tick step not
/// below the range minimum, where the step is `span / amount`.
pub open spec fn tick_lo(min: i64, amount: i64, span: int) -> int {
    -((-(min * amount)) / span)
}

/// Index of the highest tick: the greatest multiple of the tick step
/// not above the range maximum.
pub open spec fn tick_hi(max: i64, amount: i64, span: int) -> int {
    (max * amount) / span
}

/// The `i`-th x tick: a vertical stroke across the baseline height at
/// the tick's screen x, and its value label hanging below.
pub open spec fn x_tick_mark(c: Chart, plane: Plane, i: int) -> TickMark {
    let v = Frac { num: (i * plane.x.span()) as i128, den: c.x_ticks.amount as i128 };
    let sx = Frac {
        num: plane.x.fwd_num_frac(v.num as int, v.den as int) as i128,
        den: (plane.x.span() * v.den) as i128,
    };
    let sy = x_axis_zero_y(plane);
    TickMark {
        line: Segment {
            from: ScreenPoint {
                x: sx,
                y: Frac {
                    num: (2 * sy.num - c.x_ticks.height * sy.den) as i128,
                    den: (2 * sy.den) as i128,
                },
            },
            to: ScreenPoint {
                x: sx,
                y: Frac {
                    num: (2 * sy.num + c.x_ticks.height * sy.den) as i128,
                    den: (2 * sy.den) as i128,
                },
            },
            width: c.x_ticks.width,
            color: c.x_ticks.color,
        },
        label: LabelShape {
            position: ScreenPoint {
                x: sx,
                y: Frac { num: (sy.num + 8 * sy.den) as i128, den: sy.den },
            },
            value: v,
            size: label_size_of(c.x_labels),
            color: label_color_of(c.x_labels),
            align: LabelAlign::CenterTop,
        },
    }
}

/// The geometry `g` is exactly the x axis of this chart under `plane`
/// in a widget `height` pixels tall: the clamped baseline and one mark
/// per multiple of the tick step inside the data range, in order.
pub open spec fn x_axis_ok(c: Chart, plane: Plane, height: i64, g: AxisGeometry) -> bool {
    let lo = tick_lo(plane.x.min, c.x_ticks.amount, plane.x.span());
    let hi = tick_hi(plane.x.max, c.x_ticks.amount, plane.x.span());
    &&& g.baseline == x_axis_baseline(c, plane, height)
    &&& g.marks@.len() == (if hi >= lo { hi - lo + 1 } else { 0 })
    &&& forall|k: int| 0 <= k < g.marks@.len() ==> g.marks@[k] == x_tick_mark(c, plane, lo + k)
}

impl Chart {
    /// Draws the x axis: its baseline, clamped into view when data
    /// height zero is off-screen, then one tick and label per multiple
    /// of the tick step within the x range.
    pub fn draw_x_axis(&self, plane: &Plane, height: i64) -> (r: AxisGeometry)
        requires
            self.wf(),
            plane.wf(),
            0 <= height <= MAX_COORD,
        ensures
            x_axis_ok(*self, *plane, height, r),
    {
        proof {
            crate::cartesian::lemma_axis_spans(plane.x);
            crate::cartesian::lemma_axis_spans(plane.y);
            crate::cartesian::lemma_fwd_bounds(plane.y, 0);
            crate::cartesian::lemma_fwd_bounds(plane.x, plane.x.min as int);
            crate::cartesian::lemma_fwd_bounds(plane.x, plane.x.max as int);
        }
        let sy0 = plane.scale_to_cartesian_y(0);
        let baseline_y = if sy0.gt_coord(height - 10) {
            Frac::from_int(height - 10)
        } else {
            sy0
        };
        let from_x = plane.scale_to_cartesian_x(plane.x.min);
        let to_x = plane.scale_to_cartesian_x(plane.x.max);
        let baseline = Segment {
            from: ScreenPoint { x: from_x, y: baseline_y },
            to: ScreenPoint { x: to_x, y: baseline_y },
            width: self.x_axis.width,
            color: self.x_axis.color,
        };
        let amt = self.x_ticks.amount;
        let sp = plane.x.span_exec();
        proof {
            crate::frac::lemma_mul_fits(
                plane.x.min as int,
                amt as int,
                0x100_0000_0000int,
                0x2_0000int,
            );
            crate::frac::lemma_mul_fits(
                plane.x.max as int,
                amt as int,
                0x100_0000_0000int,
                0x2_0000int,
            );
        }
        let na: i128 = plane.x.min as i128 * amt as i128;
        let nb: i128 = plane.x.max as i128 * amt as i128;
        let lo = crate::frac::div_ceil(na, sp);
        let hi = crate::frac::div_floor(nb, sp);
        let tick_size = label_size_exec(&self.x_labels);
        let tick_color = label_color_exec(&self.x_labels);
        let mut marks: Vec<TickMark> = Vec::new();
        let mut i: i128 = lo;
        while i <= hi
            invariant
                self.wf(),
                plane.wf(),
                0 <= height <= MAX_COORD,
                sp == plane.x.span(),
                amt == self.x_ticks.amount,
                1 <= amt <= 0x2_0000,
                sy0.num == plane.y.fwd_num_inv(0),
                sy0.den == plane.y.span(),
                lo == tick_lo(plane.x.min, self.x_ticks.amount, plane.x.span()),
                hi == tick_hi(plane.x.max, self.x_ticks.amount, plane.x.span()),
                na <= sp * lo < na + sp,
                sp * hi <= nb,
                na == plane.x.min * amt,
                nb == plane.x.max * amt,
                -0x200_0000_0000_0000 <= na <= 0x200_0000_0000_0000,
                -0x200_0000_0000_0000 <= nb <= 0x200_0000_0000_0000,
                lo <= i,
                hi >= lo ==> i <= hi + 1,
                hi < lo ==> i == lo,
                marks@.len() == i - lo,
                tick_size == label_size_of(self.x_labels),
                tick_color == label_color_of(self.x_labels),
                forall|k: int|
                    0 <= k < marks@.len() ==> marks@[k] == x_tick_mark(*self, *plane, lo + k),
            decreases hi + 1 - i,
        {
            proof {
                assert(sp * lo <= sp * i <= sp * hi) by (nonlinear_arith)
                    requires
                        lo <= i <= hi,
                        sp >= 1,
                ;
            }
            let vn: i128 = i * sp;
            let v = Frac { num: vn, den: amt as i128 };
            proof {
                assert(vn as int == i as int * plane.x.span()) by (nonlinear_arith)
                    requires
                        vn == i * sp,
                        sp == plane.x.span(),
                ;
                crate::cartesian::lemma_fwd_frac_bounds(plane.x, vn as int, amt as int);
                crate::cartesian::lemma_fwd_bounds(plane.y, 0);
                crate::frac::lemma_mul_fits(
                    self.x_ticks.height as int,
                    sy0.den as int,
                    0x100_0000_0000int,
                    0x200_0000_0000int,
                );
            }
            let sx = plane.scale_to_cartesian_x_frac(v);
            let from_y = sy0.add_half(0 - self.x_ticks.height);
            let to_y = sy0.add_half(self.x_ticks.height);
            let label_y = sy0.add_int(8);
            let mark = TickMark {
                line: Segment {
                    from: ScreenPoint { x: sx, y: from_y },
                    to: ScreenPoint { x: sx, y: to_y },
                    width: self.x_ticks.width,
                    color: self.x_ticks.color,
                },
                label: LabelShape {
                    position: ScreenPoint { x: sx, y: label_y },
                    value: v,
                    size: tick_size,
                    color: tick_color,
                    align: LabelAlign::CenterTop,
                },
            };
            marks.push(mark);
            proof {
                let sm = x_tick_mark(*self, *plane, i as int);
                assert((0 - self.x_ticks.height) as int * sy0.den == -(self.x_ticks.height as int
                    * sy0.den)) by (nonlinear_arith);
                assert(mark == sm);
            }
            i = i + 1;
        }
        AxisGeometry { baseline, marks }
    }
}

/// The font size a label style resolves to, executably.
fn label_size_exec(l: &Labels) -> (r: i64)
    ensures
        r == label_size_of(*l),
{
    match l.font_size {
        Some(s) => s,
        None => 12,
    }
}

/// The color a label style resolves to, executably.
fn label_color_exec(l: &Labels) -> (r: Color)
    ensures
        r == label_color_of(*l),
{
    match l.color {
        Some(c) => c,
        None => Color::white(),
    }
}

/// The screen x position of data value zero: where the y axis line sits
/// before clamping.
pub open spec fn y_axis_zero_x(plane: Plane) -> Frac {
    Frac { num: plane.x.fwd_num(0) as i128, den: plane.x.span() as i128 }
}

/// The y axis line's screen x position, clamped into view: pushed right
/// to clear the measured label width when data zero sits too far left,
/// and pulled back to the right edge when it sits past it.
pub open spec fn y_baseline_x(plane: Plane, width: i64, label_width: i64) -> Frac {
    let sx = y_axis_zero_x(plane);
    if sx.le_int(label_width as int) {
        Frac { num: label_width as i128, den: 1 }
    } else if sx.gt_int(width as int) {
        Frac { num: width as i128, den: 1 }
    } else {
        sx
    }
}

/// The y axis baseline: a vertical stroke across the y data range at
/// the clamped position of data zero.
pub open spec fn y_axis_baseline(c: Chart, plane: Plane, width: i64, label_width: i64) -> Segment {
    Segment {
        from: ScreenPoint {
            x: y_baseline_x(plane, width, label_width),
            y: Frac {
                num: plane.y.fwd_num_inv(plane.y.min as int) as i128,
                den: plane.y.span() as i128,
            },
        },
        to: ScreenPoint {
            x: y_baseline_x(plane, width, label_width),
            y: Frac {
                num: plane.y.fwd_num_inv(plane.y.max as int) as i128,
                den: plane.y.span() as i128,
            },
        },
        width: c.y_axis.width,
        color: c.y_axis.color,
    }
}

/// The tick index the `k`-th y mark stands for: the indices from `lo`
/// upward with index zero skipped, where the x axis already crosses.
pub open spec fn y_tick_index(lo: int, k: int) -> int {
    if lo > 0 || lo + k < 0 {
        lo + k
    } else {
        lo + k + 1
    }
}

/// The `i`-th y tick: a horizontal stroke across the clamped baseline
/// at the tick's screen y, and its value label to the left.
pub open spec fn y_tick_mark(c: Chart, plane: Plane, width: i64, label_width: i64, i: int)
    -> TickMark {
    let v = Frac { num: (i * plane.y.span()) as i128, den: c.y_ticks.amount as i128 };
    let sy = Frac {
        num: plane.y.fwd_num_inv_frac(v.num as int, v.den as int) as i128,
        den: (plane.y.span() * v.den) as i128,
    };
    let bx = y_baseline_x(plane, width, label_width);
    TickMark {
        line: Segment {
            from: ScreenPoint {
                x: Frac {
                    num: (2 * bx.num - c.y_ticks.height * bx.den) as i128,
                    den: (2 * bx.den) as i128,
                },
                y: sy,
            },
            to: ScreenPoint {
                x: Frac {
                    num: (2 * bx.num + c.y_ticks.height * bx.den) as i128,
                    den: (2 * bx.den) as i128,
                },
                y: sy,
            },
            width: c.y_ticks.width,
            color: c.y_ticks.color,
        },
        label: LabelShape {
            position: ScreenPoint {
                x: Frac { num: (bx.num - 8 * bx.den) as i128, den: bx.den },
                y: sy,
            },
            value: v,
            size: label_size_of(c.y_labels),
            color: label_color_of(c.y_labels),
            align: LabelAlign::RightCenter,
        },
    }
}

/// The geometry `g` is exactly the y axis of this chart under `plane`:
/// the clamped baseline and one mark per multiple of the tick step
/// inside the data range except zero, in order.
pub open spec fn y_axis_ok(
    c: Chart,
    plane: Plane,
    width: i64,
    label_width: i64,
    g: AxisGeometry,
) -> bool {
    let lo = tick_lo(plane.y.min, c.y_ticks.amount, plane.y.span());
    let hi = tick_hi(plane.y.max, c.y_ticks.amount, plane.y.span());
    &&& g.baseline == y_axis_baseline(c, plane, width, label_width)
    &&& g.marks@.len() == (if hi < lo {
        0int
    } else {
        hi - lo + 1 - (if lo <= 0 && 0 <= hi {
            1int
        } else {
            0int
        })
    })
    &&& forall|k: int|
        0 <= k < g.marks@.len() ==> g.marks@[k] == y_tick_mark(
            c,
            plane,
            width,
            label_width,
            y_tick_index(lo, k),
        )
}

impl Chart {
    /// Draws the y axis: its baseline at data zero, clamped to clear the
    /// measured label width on the left and the widget edge on the
    /// right, then one tick and label per multiple of the tick step
    /// within the y range, skipping zero where the x axis crosses.
    ///
    /// `label_width` is the widest label's pixel width as measured by
    /// the host's text engine; text measurement is a host capability.
    pub fn draw_y_axis(&self, plane: &Plane, width: i64, label_width: i64) -> (r: AxisGeometry)
        requires
            self.wf(),
            plane.wf(),
            0 <= width <= MAX_COORD,
            0 <= label_width <= MAX_COORD,
        ensures
            y_axis_ok(*self, *plane, width, label_width, r),
    {
        proof {
            crate::cartesian::lemma_axis_spans(plane.x);
            crate::cartesian::lemma_axis_spans(plane.y);
            crate::cartesian::lemma_fwd_bounds(plane.x, 0);
            crate::cartesian::lemma_fwd_bounds(plane.y, plane.y.min as int);
            crate::cartesian::lemma_fwd_bounds(plane.y, plane.y.max as int);
        }
        let sx0 = plane.scale_to_cartesian_x(0);
        let bx = if sx0.le_coord(label_width) {
            Frac::from_int(label_width)
        } else if sx0.gt_coord(width) {
            Frac::from_int(width)
        } else {
            sx0
        };
        let from_y = plane.scale_to_cartesian_y(plane.y.min);
        let to_y = plane.scale_to_cartesian_y(plane.y.max);
        let baseline = Segment {
            from: ScreenPoint { x: bx, y: from_y },
            to: ScreenPoint { x: bx, y: to_y },
            width: self.y_axis.width,
            color: self.y_axis.color,
        };
        let amt = self.y_ticks.amount;
        let sp = plane.y.span_exec();
        proof {
            crate::frac::lemma_mul_fits(
                plane.y.min as int,
                amt as int,
                0x100_0000_0000int,
                0x2_0000int,
            );
            crate::frac::lemma_mul_fits(
                plane.y.max as int,
                amt as int,
                0x100_0000_0000int,
                0x2_0000int,
            );
        }
        let na: i128 = plane.y.min as i128 * amt as i128;
        let nb: i128 = plane.y.max as i128 * amt as i128;
        let lo = crate::frac::div_ceil(na, sp);
        let hi = crate::frac::div_floor(nb, sp);
        let tick_size = label_size_exec(&self.y_labels);
        let tick_color = label_color_exec(&self.y_labels);
        let mut marks: Vec<TickMark> = Vec::new();
        let mut i: i128 = lo;
        while i <= hi
            invariant
                self.wf(),
                plane.wf(),
                0 <= width <= MAX_COORD,
                0 <= label_width <= MAX_COORD,
                sp == plane.y.span(),
                amt == self.y_ticks.amount,
                1 <= amt <= 0x2_0000,
                bx == y_baseline_x(*plane, width, label_width),
                -0x4_0000_0000_0000_0000_0000 <= bx.num <= 0x4_0000_0000_0000_0000_0000,
                0 < bx.den <= 0x200_0000_0000,
                lo == tick_lo(plane.y.min, self.y_ticks.amount, plane.y.span()),
                hi == tick_hi(plane.y.max, self.y_ticks.amount, plane.y.span()),
                na <= sp * lo < na + sp,
                sp * hi <= nb,
                na == plane.y.min * amt,
                nb == plane.y.max * amt,
                -0x200_0000_0000_0000 <= na <= 0x200_0000_0000_0000,
                -0x200_0000_0000_0000 <= nb <= 0x200_0000_0000_0000,
                lo <= i,
                hi >= lo ==> i <= hi + 1,
                hi < lo ==> i == lo,
                marks@.len() == (i - lo) - (if lo <= 0 && 0 < i {
                    1int
                } else {
                    0int
                }),
                tick_size == label_size_of(self.y_labels),
                tick_color == label_color_of(self.y_labels),
                forall|k: int|
                    0 <= k < marks@.len() ==> marks@[k] == y_tick_mark(
                        *self,
                        *plane,
                        width,
                        label_width,
                        y_tick_index(lo as int, k),
                    ),
            decreases hi + 1 - i,
        {
            proof {
                assert(sp * lo <= sp * i <= sp * hi) by (nonlinear_arith)
                    requires
                        lo <= i <= hi,
                        sp >= 1,
                ;
            }
            if i != 0 {
                let vn: i128 = i * sp;
                let v = Frac { num: vn, den: amt as i128 };
                proof {
                    assert(vn as int == i as int * plane.y.span()) by (nonlinear_arith)
                        requires
                            vn == i * sp,
                            sp == plane.y.span(),
                    ;
                    crate::cartesian::lemma_fwd_frac_bounds(plane.y, vn as int, amt as int);
                    crate::frac::lemma_mul_fits(
                        self.y_ticks.height as int,
                        bx.den as int,
                        0x100_0000_0000int,
                        0x200_0000_0000int,
                    );
                }
                let sy = plane.scale_to_cartesian_y_frac(v);
                let from_x = bx.add_half(0 - self.y_ticks.height);
                let to_x = bx.add_half(self.y_ticks.height);
                let label_x = bx.add_int(-8);
                let mark = TickMark {
                    line: Segment {
                        from: ScreenPoint { x: from_x, y: sy },
                        to: ScreenPoint { x: to_x, y: sy },
                        width: self.y_ticks.width,
                        color: self.y_ticks.color,
                    },
                    label: LabelShape {
                        position: ScreenPoint { x: label_x, y: sy },
                        value: v,
                        size: tick_size,
                        color: tick_color,
                        align: LabelAlign::RightCenter,
                    },
                };
                let ghost pos = marks@.len() as int;
                marks.push(mark);
                proof {
                    let sm = y_tick_mark(*self, *plane, width, label_width, i as int);
                    assert((0 - self.y_ticks.height) as int * bx.den == -(self.y_ticks.height
                        as int * bx.den)) by (nonlinear_arith);
                    assert(mark == sm);
                    assert(y_tick_index(lo as int, pos) == i as int);
                }
            }
            i = i + 1;
        }
        AxisGeometry { baseline, marks }
    }

    /// Renders every series against the plane, in series order.
    pub fn draw_data(&self, plane: &Plane) -> (r: Vec<crate::geometry::SeriesGeometry>)
        requires
            self.wf(),
            plane.wf(),
        ensures
            r@.len() == self.series@.len(),
            forall|k: int|
                0 <= k < r@.len() ==> crate::series::series_geometry_ok(
                    self.series@[k],
                    *plane,
                    #[trigger] r@[k],
                ),
    {
        let n = self.series.len();
        let mut r: Vec<crate::geometry::SeriesGeometry> = Vec::new();
        let mut k: usize = 0;
        while k < n
            invariant
                self.wf(),
                plane.wf(),
                n == self.series@.len(),
                k <= n,
                r@.len() == k,
                forall|j: int|
                    0 <= j < k ==> crate::series::series_geometry_ok(
                        self.series@[j],
                        *plane,
                        #[trigger] r@[j],
                    ),
            decreases n - k,
        {
            proof {
                assert(self.series@[k as int].wf());
            }
            let g = self.series[k].draw(plane);
            r.push(g);
            k = k + 1;
        }
        r
    }

    /// The draw pass: nothing for a degenerate rectangle or before the
    /// first layout pass; otherwise the series geometry in order, then
    /// the x axis, then the y axis, all computed deterministically from
    /// the stored plane.
    ///
    /// `y_label_width` is the widest y label's pixel width as measured
    /// by the host's text engine.
    pub fn draw(&self, state: &State, width: i64, height: i64, y_label_width: i64) -> (r: Option<
        crate::geometry::ChartGeometry,
    >)
        requires
            self.wf(),
            state.wf(),
            0 <= width <= MAX_COORD,
            0 <= height <= MAX_COORD,
            0 <= y_label_width <= MAX_COORD,
        ensures
            width < 1 || height < 1 ==> r is None,
            state.plane is None ==> r is None,
            width >= 1 && height >= 1 ==> match state.plane {
                Some(pl) => {
                    &&& r matches Some(g)
                    &&& g.series@.len() == self.series@.len()
                    &&& forall|k: int|
                        0 <= k < g.series@.len() ==> crate::series::series_geometry_ok(
                            self.series@[k],
                            pl,
                            #[trigger] g.series@[k],
                        )
                    &&& x_axis_ok(*self, pl, height, g.x_axis)
                    &&& y_axis_ok(*self, pl, width, y_label_width, g.y_axis)
                },
                None => r is None,
            },
    {
        if width < 1 || height < 1 {
            return None;
        }
        match &state.plane {
            None => None,
            Some(pl) => {
                let plane = *pl;
                let series = self.draw_data(&plane);
                let x_axis = self.draw_x_axis(&plane, height);
                let y_axis = self.draw_y_axis(&plane, width, y_label_width);
                Some(crate::geometry::ChartGeometry { series, x_axis, y_axis })
            },
        }
    }
}

} // verus!
