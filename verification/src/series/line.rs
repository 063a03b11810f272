//! A line series: one continuous stroked polyline through the data
//! points that lie within the plane's data range.

use vstd::prelude::*;
use crate::cartesian::Plane;
use crate::color::Color;
use crate::frac::MAX_COORD;
use crate::geometry::Polyline;
use crate::series::data_bounded;

verus! {

/// The point lies within the plane's data range on both axes.
pub open spec fn visible(p: (i64, i64), plane: Plane) -> bool {
    plane.x.min <= p.0 <= plane.x.max && plane.y.min <= p.1 <= plane.y.max
}

/// The subsequence of `data` visible under `plane`, in data order: the
/// pre-filter applied before the polyline is built.
pub open spec fn visible_points(data: Seq<(i64, i64)>, plane: Plane) -> Seq<(i64, i64)>
    decreases data.len(),
{
    if data.len() == 0 {
        Seq::empty()
    } else {
        let rest = visible_points(data.drop_last(), plane);
        if visible(data.last(), plane) {
            rest.push(data.last())
        } else {
            rest
        }
    }
}

/// Extending the scanned prefix by one point appends it exactly when it
/// is visible.
proof fn lemma_visible_points_step(data: Seq<(i64, i64)>, plane: Plane, k: int)
    requires
        0 <= k < data.len(),
    ensures
        visible(data[k], plane) ==> visible_points(data.take(k + 1), plane) == visible_points(
            data.take(k),
            plane,
        ).push(data[k]),
        !visible(data[k], plane) ==> visible_points(data.take(k + 1), plane) == visible_points(
            data.take(k),
            plane,
        ),
{
    assert(data.take(k + 1).drop_last() =~= data.take(k));
    assert(data.take(k + 1).last() == data[k]);
}

/// The polyline `r` is exactly what the line series draws against
/// `plane`: its visible points in order, each mapped through the plane,
/// stroked two pixels wide in the series color.
pub open spec fn polyline_ok(l: LineSeries, plane: Plane, r: Polyline) -> bool {
    &&& r.width == 2
    &&& r.color == l.color
    &&& r.points@.len() == visible_points(l.data@, plane).len()
    &&& forall|j: int|
        0 <= j < r.points@.len() ==> {
            let p = visible_points(l.data@, plane)[j];
            &&& (#[trigger] r.points@[j]).x.num == plane.x.fwd_num(p.0 as int)
            &&& r.points@[j].x.den == plane.x.span()
            &&& r.points@[j].y.num == plane.y.fwd_num_inv(p.1 as int)
            &&& r.points@[j].y.den == plane.y.span()
        }
}

#[derive(Clone, Debug)]
pub struct LineSeries {
    pub data: Vec<(i64, i64)>,
    pub color: Color,
}

impl LineSeries {
    pub open spec fn wf(self) -> bool {
        data_bounded(self.data@)
    }

    /// A black line series over the given data.
    pub fn new(data: Vec<(i64, i64)>) -> (r: LineSeries)
        requires
            data_bounded(data@),
        ensures
            r.wf(),
            r.data@ == data@,
            r.color == (Color { r: 0u8, g: 0u8, b: 0u8, a: 255u8 }),
    {
        LineSeries { data, color: Color::black() }
    }

    pub fn color(self, color: Color) -> (r: LineSeries)
        ensures
            r.data@ == self.data@,
            r.color == color,
    {
        LineSeries { color, ..self }
    }

    /// Maps every visible data point through the plane and strokes one
    /// continuous polyline through them.
    pub fn draw(&self, plane: &Plane) -> (r: Polyline)
        requires
            self.wf(),
            plane.wf(),
        ensures
            polyline_ok(*self, *plane, r),
    {
        let n = self.data.len();
        let mut points: Vec<crate::geometry::ScreenPoint> = Vec::new();
        let mut i: usize = 0;
        proof {
            assert(self.data@.take(0) =~= Seq::<(i64, i64)>::empty());
        }
        while i < n
            invariant
                self.wf(),
                plane.wf(),
                n == self.data@.len(),
                i <= n,
                points@.len() == visible_points(self.data@.take(i as int), *plane).len(),
                forall|j: int|
                    0 <= j < points@.len() ==> {
                        let p = visible_points(self.data@.take(i as int), *plane)[j];
                        &&& (#[trigger] points@[j]).x.num == plane.x.fwd_num(p.0 as int)
                        &&& points@[j].x.den == plane.x.span()
                        &&& points@[j].y.num == plane.y.fwd_num_inv(p.1 as int)
                        &&& points@[j].y.den == plane.y.span()
                    },
            decreases n - i,
        {
            let p = self.data[i];
            proof {
                lemma_visible_points_step(self.data@, *plane, i as int);
            }
            if plane.x.min <= p.0 && p.0 <= plane.x.max && plane.y.min <= p.1 && p.1
                <= plane.y.max {
                let (sx, sy) = plane.scale_to_cartesian(p);
                points.push(crate::geometry::ScreenPoint { x: sx, y: sy });
            }
            i = i + 1;
        }
        proof {
            assert(self.data@.take(n as int) =~= self.data@);
        }
        Polyline { points, width: 2, color: self.color }
    }
}

} // verus!
