//! A point series: one filled, bordered circle per data item, each item
//! stylable individually, and — when the host gives the series an
//! identity — one hit-test entry per item.

use vstd::prelude::*;
use crate::cartesian::Plane;
use crate::color::Color;
use crate::frac::MAX_COORD;
use crate::geometry::{CircleShape, ScreenPoint};
use crate::items::Entry;
use crate::series::data_bounded;

verus! {

/// Per-item rendering style; unset colors fall back to the series color.
#[derive(Clone, Copy, Debug)]
pub struct Style {
    pub color: Option<Color>,
    pub border_color: Option<Color>,
    pub border: i64,
    pub radius: i64,
}

impl Style {
    pub open spec fn wf(self) -> bool {
        0 <= self.border <= MAX_COORD && 0 <= self.radius <= MAX_COORD
    }
}

impl Default for Style {
    /// Series-colored, two-pixel border, five-pixel radius.
    fn default() -> (r: Style)
        ensures
            r.wf(),
            r == (Style {
                color: Option::<Color>::None,
                border_color: Option::<Color>::None,
                border: 2i64,
                radius: 5i64,
            }),
    {
        Style { color: None, border_color: None, border: 2, radius: 5 }
    }
}

/// The pixel-space box laid around the cursor when hit-testing this
/// series; its size is fixed in pixels, so hit targets keep their
/// apparent size at any zoom.
#[derive(Clone, Copy, Debug)]
pub struct CollisionBox {
    pub width: i64,
    pub height: i64,
}

impl CollisionBox {
    pub open spec fn wf(self) -> bool {
        0 <= self.width <= MAX_COORD && 0 <= self.height <= MAX_COORD
    }

    /// A square box spanning `radius` pixels in every direction.
    pub fn with_radius(radius: i64) -> (r: CollisionBox)
        requires
            0 <= radius <= 0x80_0000_0000,
        ensures
            r.wf(),
            r.width == 2 * radius,
            r.height == 2 * radius,
    {
        CollisionBox { width: 2 * radius, height: 2 * radius }
    }
}

/// The fallback color `fallback` where `c` is unset.
pub open spec fn opt_color(c: Option<Color>, fallback: Color) -> Color {
    match c {
        Some(x) => x,
        None => fallback,
    }
}

#[derive(Clone, Debug)]
pub struct PointSeries {
    pub id: Option<u64>,
    pub data: Vec<(i64, i64)>,
    pub color: Color,
    pub collision_box: Option<CollisionBox>,
    pub style: Style,
    pub styles: Option<Vec<Style>>,
}

impl PointSeries {
    pub open spec fn wf(self) -> bool {
        &&& data_bounded(self.data@)
        &&& self.style.wf()
        &&& match self.collision_box {
            Some(b) => b.wf(),
            None => true,
        }
        &&& match self.styles {
            Some(v) => forall|k: int| 0 <= k < v@.len() ==> (#[trigger] v@[k]).wf(),
            None => true,
        }
    }

    /// The style item `i` is drawn with: its own entry in the per-item
    /// style list where one was given, the series-wide style otherwise.
    pub open spec fn style_of(self, i: int) -> Style {
        match self.styles {
            Some(v) => if 0 <= i < v@.len() {
                v@[i]
            } else {
                self.style
            },
            None => self.style,
        }
    }

    /// The collision box hit-testing uses: the one set on the series, or
    /// the square box around the default circle radius.
    pub open spec fn resolved_collision_box(self) -> CollisionBox {
        match self.collision_box {
            Some(b) => b,
            None => CollisionBox { width: 10, height: 10 },
        }
    }

    /// A black point series over the given data, without identity.
    pub fn new(data: Vec<(i64, i64)>) -> (r: PointSeries)
        requires
            data_bounded(data@),
        ensures
            r.wf(),
            r.data@ == data@,
            r.id is None,
            r.color == (Color { r: 0u8, g: 0u8, b: 0u8, a: 255u8 }),
            r.collision_box is None,
            r.styles is None,
            r.style == (Style {
                color: Option::<Color>::None,
                border_color: Option::<Color>::None,
                border: 2i64,
                radius: 5i64,
            }),
    {
        PointSeries {
            id: None,
            data,
            color: Color::black(),
            collision_box: None,
            style: Style::default(),
            styles: None,
        }
    }

    pub fn color(self, color: Color) -> (r: PointSeries)
        ensures
            r == (PointSeries { color, ..self }),
    {
        PointSeries { color, ..self }
    }

    /// Overrides the pixel-space hit-test box.
    pub fn collision_box(self, collision_box: CollisionBox) -> (r: PointSeries)
        requires
            collision_box.wf(),
        ensures
            r == (PointSeries { collision_box: Some(collision_box), ..self }),
    {
        PointSeries { collision_box: Some(collision_box), ..self }
    }

    /// Sets the series-wide style.
    pub fn style(self, style: Style) -> (r: PointSeries)
        requires
            style.wf(),
        ensures
            r == (PointSeries { style, ..self }),
    {
        PointSeries { style, ..self }
    }

    /// Gives each item its own style by index; items past the end of the
    /// list keep the series-wide style.
    pub fn style_for_each(self, styles: Vec<Style>) -> (r: PointSeries)
        requires
            forall|k: int| 0 <= k < styles@.len() ==> (#[trigger] styles@[k]).wf(),
        ensures
            r == (PointSeries { styles: Some(styles), ..self }),
    {
        PointSeries { styles: Some(styles), ..self }
    }

    /// Gives the series the host's identity, making it hit-testable.
    pub fn with_id(self, id: u64) -> (r: PointSeries)
        ensures
            r == (PointSeries { id: Some(id), ..self }),
    {
        PointSeries { id: Some(id), ..self }
    }

    /// The collision box hit-testing uses, executably.
    pub fn resolved_box(&self) -> (r: CollisionBox)
        ensures
            r == self.resolved_collision_box(),
    {
        match &self.collision_box {
            Some(b) => *b,
            None => CollisionBox { width: 10, height: 10 },
        }
    }

    /// The spatial entries of an identified series: one per data item,
    /// the item's index as its id.
    pub fn items(&self) -> (r: Option<(u64, Vec<Entry>)>)
        ensures
            self.id is None ==> r is None,
            self.id matches Some(sid) ==> (r matches Some(pair) && pair.0 == sid && pair.1@.len()
                == self.data@.len() && (forall|k: int|
                0 <= k < pair.1@.len() ==> pair.1@[k] == (Entry {
                    id: k as usize,
                    x: self.data@[k].0,
                    y: self.data@[k].1,
                }))),
    {
        match self.id {
            None => None,
            Some(sid) => {
                let n = self.data.len();
                let mut entries: Vec<Entry> = Vec::new();
                let mut k: usize = 0;
                while k < n
                    invariant
                        n == self.data@.len(),
                        k <= n,
                        entries@.len() == k,
                        forall|j: int|
                            0 <= j < k ==> entries@[j] == (Entry {
                                id: j as usize,
                                x: self.data@[j].0,
                                y: self.data@[j].1,
                            }),
                    decreases n - k,
                {
                    let p = self.data[k];
                    entries.push(Entry::new(k, p.0, p.1));
                    k = k + 1;
                }
                Some((sid, entries))
            },
        }
    }

    /// Maps each item through the plane and draws its filled circle and
    /// stroked border, resolving the item's style by index.
    pub fn draw(&self, plane: &Plane) -> (r: Vec<CircleShape>)
        requires
            self.wf(),
            plane.wf(),
        ensures
            circles_ok(*self, *plane, r@),
    {
        let n = self.data.len();
        let mut circles: Vec<CircleShape> = Vec::new();
        let mut i: usize = 0;
        while i < n
            invariant
                self.wf(),
                plane.wf(),
                n == self.data@.len(),
                i <= n,
                circles@.len() == i,
                forall|j: int| 0 <= j < i ==> circle_ok(*self, *plane, j, #[trigger] circles@[j]),
            decreases n - i,
        {
            let p = self.data[i];
            let style = self.item_style(i);
            let (sx, sy) = plane.scale_to_cartesian(p);
            let fill = match style.color {
                Some(c) => c,
                None => self.color,
            };
            let border_color = match style.border_color {
                Some(c) => c,
                None => self.color,
            };
            circles.push(
                CircleShape {
                    center: ScreenPoint { x: sx, y: sy },
                    radius: style.radius,
                    fill,
                    border: style.border,
                    border_color,
                },
            );
            i = i + 1;
        }
        circles
    }

    /// The style item `i` is drawn with, executably.
    fn item_style(&self, i: usize) -> (r: Style)
        ensures
            r == self.style_of(i as int),
    {
        match &self.styles {
            Some(v) => if i < v.len() {
                v[i]
            } else {
                self.style
            },
            None => self.style,
        }
    }
}

/// The circle at index `i` is exactly what the point series draws for
/// its item `i` against `plane`.
pub open spec fn circle_ok(p: PointSeries, plane: Plane, i: int, c: CircleShape) -> bool {
    let d = p.data@[i];
    let st = p.style_of(i);
    &&& c.center.x.num == plane.x.fwd_num(d.0 as int)
    &&& c.center.x.den == plane.x.span()
    &&& c.center.y.num == plane.y.fwd_num_inv(d.1 as int)
    &&& c.center.y.den == plane.y.span()
    &&& c.radius == st.radius
    &&& c.border == st.border
    &&& c.fill == opt_color(st.color, p.color)
    &&& c.border_color == opt_color(st.border_color, p.color)
}

/// The circles `r` are exactly what the point series draws against
/// `plane`: one per data item, in item order.
pub open spec fn circles_ok(p: PointSeries, plane: Plane, r: Seq<CircleShape>) -> bool {
    &&& r.len() == p.data@.len()
    &&& forall|i: int| 0 <= i < r.len() ==> circle_ok(p, plane, i, #[trigger] r[i])
}

} // verus!
