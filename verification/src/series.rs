//! Drawable data series: a closed set of two variants, line and point,
//! each knowing its own data extent, how to render itself against a
//! plane, and — for an identified point series — which spatial entries
//! it exposes for hit-testing.

mod line;
mod point;

pub use line::LineSeries;
pub use point::{CollisionBox, PointSeries, Style};

use vstd::prelude::*;
use crate::cartesian::Plane;
use crate::frac::MAX_COORD;
use crate::geometry::{Polyline, CircleShape, SeriesGeometry};
use crate::items::Entry;

verus! {

/// A closed data range along one axis.
///
/// The empty fold yields the inverted sentinel `[i64::MAX, i64::MIN]`,
/// which a union absorbs: a series without data contributes nothing to
/// the aggregated extent.
#[derive(Clone, Copy, Debug, PartialEq, Eq, Structural)]
pub struct Range {
    pub min: i64,
    pub max: i64,
}

impl Range {
    /// A proper range: ordered and within coordinate bounds.
    pub open spec fn wf(self) -> bool {
        -MAX_COORD <= self.min <= self.max <= MAX_COORD
    }

    pub fn new(min: i64, max: i64) -> (r: Range)
        requires
            -MAX_COORD <= min <= max <= MAX_COORD,
        ensures
            r.wf(),
            r == (Range { min, max }),
    {
        Range { min, max }
    }
}

/// `m` is the least x coordinate of `data`.
pub open spec fn is_min_x(data: Seq<(i64, i64)>, m: i64) -> bool {
    &&& exists|k: int| 0 <= k < data.len() && (#[trigger] data[k]).0 == m
    &&& forall|k: int| 0 <= k < data.len() ==> m <= (#[trigger] data[k]).0
}

/// `m` is the greatest x coordinate of `data`.
pub open spec fn is_max_x(data: Seq<(i64, i64)>, m: i64) -> bool {
    &&& exists|k: int| 0 <= k < data.len() && (#[trigger] data[k]).0 == m
    &&& forall|k: int| 0 <= k < data.len() ==> (#[trigger] data[k]).0 <= m
}

/// `m` is the least y coordinate of `data`.
pub open spec fn is_min_y(data: Seq<(i64, i64)>, m: i64) -> bool {
    &&& exists|k: int| 0 <= k < data.len() && (#[trigger] data[k]).1 == m
    &&& forall|k: int| 0 <= k < data.len() ==> m <= (#[trigger] data[k]).1
}

/// `m` is the greatest y coordinate of `data`.
pub open spec fn is_max_y(data: Seq<(i64, i64)>, m: i64) -> bool {
    &&& exists|k: int| 0 <= k < data.len() && (#[trigger] data[k]).1 == m
    &&& forall|k: int| 0 <= k < data.len() ==> (#[trigger] data[k]).1 <= m
}

/// Folds the x extent of `data`: its exact minimum and maximum, or the
/// absorbing sentinel when there is no data.
pub fn fold_x_range(data: &Vec<(i64, i64)>) -> (r: Range)
    ensures
        data@.len() == 0 ==> r == (Range { min: i64::MAX, max: i64::MIN }),
        data@.len() > 0 ==> is_min_x(data@, r.min) && is_max_x(data@, r.max),
{
    let n = data.len();
    let mut mn: i64 = i64::MAX;
    let mut mx: i64 = i64::MIN;
    let mut i: usize = 0;
    while i < n
        invariant
            n == data@.len(),
            i <= n,
            i == 0 ==> mn == i64::MAX && mx == i64::MIN,
            i > 0 ==> (exists|k: int| 0 <= k < i && (#[trigger] data@[k]).0 == mn) && (forall|
                k: int,
            | 0 <= k < i ==> mn <= (#[trigger] data@[k]).0),
            i > 0 ==> (exists|k: int| 0 <= k < i && (#[trigger] data@[k]).0 == mx) && (forall|
                k: int,
            | 0 <= k < i ==> (#[trigger] data@[k]).0 <= mx),
        decreases n - i,
    {
        let v = data[i].0;
        if i == 0 {
            mn = v;
            mx = v;
        } else {
            if v < mn {
                mn = v;
            }
            if v > mx {
                mx = v;
            }
        }
        i = i + 1;
    }
    Range { min: mn, max: mx }
}

/// Folds the y extent of `data`, as `fold_x_range` does for x.
pub fn fold_y_range(data: &Vec<(i64, i64)>) -> (r: Range)
    ensures
        data@.len() == 0 ==> r == (Range { min: i64::MAX, max: i64::MIN }),
        data@.len() > 0 ==> is_min_y(data@, r.min) && is_max_y(data@, r.max),
{
    let n = data.len();
    let mut mn: i64 = i64::MAX;
    let mut mx: i64 = i64::MIN;
    let mut i: usize = 0;
    while i < n
        invariant
            n == data@.len(),
            i <= n,
            i == 0 ==> mn == i64::MAX && mx == i64::MIN,
            i > 0 ==> (exists|k: int| 0 <= k < i && (#[trigger] data@[k]).1 == mn) && (forall|
                k: int,
            | 0 <= k < i ==> mn <= (#[trigger] data@[k]).1),
            i > 0 ==> (exists|k: int| 0 <= k < i && (#[trigger] data@[k]).1 == mx) && (forall|
                k: int,
            | 0 <= k < i ==> (#[trigger] data@[k]).1 <= mx),
        decreases n - i,
    {
        let v = data[i].1;
        if i == 0 {
            mn = v;
            mx = v;
        } else {
            if v < mn {
                mn = v;
            }
            if v > mx {
                mx = v;
            }
        }
        i = i + 1;
    }
    Range { min: mn, max: mx }
}

/// All data points lie within the coordinate bounds.
pub open spec fn data_bounded(data: Seq<(i64, i64)>) -> bool {
    forall|k: int|
        0 <= k < data.len() ==> -MAX_COORD <= (#[trigger] data[k]).0 <= MAX_COORD && -MAX_COORD
            <= data[k].1 <= MAX_COORD
}

/// One drawable dataset: a stroked line through the data, or one styled
/// circle per data point.
#[derive(Clone, Debug)]
pub enum Series {
    Line(LineSeries),
    Point(PointSeries),
}

impl Series {
    pub open spec fn wf(self) -> bool {
        match self {
            Series::Line(l) => l.wf(),
            Series::Point(p) => p.wf(),
        }
    }

    /// The data points of the series, whichever variant it is.
    pub open spec fn data_spec(self) -> Seq<(i64, i64)> {
        match self {
            Series::Line(l) => l.data@,
            Series::Point(p) => p.data@,
        }
    }

    /// The identity the host gave the series, if any; only an identified
    /// series takes part in hit-testing.
    pub open spec fn id_spec(self) -> Option<u64> {
        match self {
            Series::Line(_) => None,
            Series::Point(p) => p.id,
        }
    }

    /// The pixel-space collision box used to build hit-test queries, if
    /// the series has one.
    pub open spec fn collision_box_spec(self) -> Option<CollisionBox> {
        match self {
            Series::Line(_) => None,
            Series::Point(p) => Some(p.resolved_collision_box()),
        }
    }

    pub fn id(&self) -> (r: Option<u64>)
        ensures
            r == self.id_spec(),
    {
        match self {
            Series::Line(_) => None,
            Series::Point(p) => p.id,
        }
    }

    pub fn collision_box(&self) -> (r: Option<CollisionBox>)
        ensures
            r == self.collision_box_spec(),
    {
        match self {
            Series::Line(_) => None,
            Series::Point(p) => Some(p.resolved_box()),
        }
    }

    /// The spatial entries of an identified series: one per data item,
    /// the item's index as its id. A series without identity exposes
    /// none.
    pub fn items(&self) -> (r: Option<(u64, Vec<Entry>)>)
        ensures
            self.id_spec() is None ==> r is None,
            self.id_spec() matches Some(sid) ==> (r matches Some(pair) && pair.0 == sid
                && pair.1@.len() == self.data_spec().len() && (forall|k: int|
                0 <= k < pair.1@.len() ==> pair.1@[k] == (Entry {
                    id: k as usize,
                    x: self.data_spec()[k].0,
                    y: self.data_spec()[k].1,
                }))),
    {
        match self {
            Series::Line(_) => None,
            Series::Point(p) => p.items(),
        }
    }

    /// The x extent of the data: `[min, max]`, or the absorbing sentinel
    /// for an empty series.
    pub fn x_range(&self) -> (r: Range)
        ensures
            self.data_spec().len() == 0 ==> r == (Range { min: i64::MAX, max: i64::MIN }),
            self.data_spec().len() > 0 ==> is_min_x(self.data_spec(), r.min) && is_max_x(
                self.data_spec(),
                r.max,
            ),
    {
        match self {
            Series::Line(l) => fold_x_range(&l.data),
            Series::Point(p) => fold_x_range(&p.data),
        }
    }

    /// The y extent of the data, as `x_range` along y.
    pub fn y_range(&self) -> (r: Range)
        ensures
            self.data_spec().len() == 0 ==> r == (Range { min: i64::MAX, max: i64::MIN }),
            self.data_spec().len() > 0 ==> is_min_y(self.data_spec(), r.min) && is_max_y(
                self.data_spec(),
                r.max,
            ),
    {
        match self {
            Series::Line(l) => fold_y_range(&l.data),
            Series::Point(p) => fold_y_range(&p.data),
        }
    }

    /// Renders the series against a plane.
    pub fn draw(&self, plane: &Plane) -> (r: SeriesGeometry)
        requires
            self.wf(),
            plane.wf(),
        ensures
            series_geometry_ok(*self, *plane, r),
    {
        match self {
            Series::Line(l) => SeriesGeometry::Line(l.draw(plane)),
            Series::Point(p) => SeriesGeometry::Points(p.draw(plane)),
        }
    }
}

/// The geometry `r` is exactly what the series draws against `plane`.
pub open spec fn series_geometry_ok(s: Series, plane: Plane, r: SeriesGeometry) -> bool {
    match s {
        Series::Line(l) => r matches SeriesGeometry::Line(pl) && line::polyline_ok(l, plane, pl),
        Series::Point(p) => r matches SeriesGeometry::Points(cs) && point::circles_ok(
            p,
            plane,
            cs@,
        ),
    }
}

/// A line series over the given data.
pub fn line_series(data: Vec<(i64, i64)>) -> (r: LineSeries)
    requires
        data_bounded(data@),
    ensures
        r.wf(),
        r.data@ == data@,
{
    LineSeries::new(data)
}

/// A point series over the given data.
pub fn point_series(data: Vec<(i64, i64)>) -> (r: PointSeries)
    requires
        data_bounded(data@),
    ensures
        r.wf(),
        r.data@ == data@,
        r.id is None,
{
    PointSeries::new(data)
}

} // verus!
