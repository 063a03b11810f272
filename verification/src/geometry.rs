//! The drawable geometry the chart produces.
//!
//! A draw pass returns plain values: screen positions as exact fractions,
//! stroke widths and radii in pixel units, colors as RGBA. The host walks
//! the geometry and issues its renderer's calls; nothing here draws.

use vstd::prelude::*;
use crate::color::Color;
use crate::frac::Frac;

verus! {

/// A screen-space position, one exact fraction per axis.
#[derive(Clone, Copy, Debug)]
pub struct ScreenPoint {
    pub x: Frac,
    pub y: Frac,
}

/// A straight stroked line between two screen points.
#[derive(Clone, Copy, Debug)]
pub struct Segment {
    pub from: ScreenPoint,
    pub to: ScreenPoint,
    pub width: i64,
    pub color: Color,
}

/// How a label hangs on its anchor position.
#[derive(Clone, Copy, Debug, PartialEq, Eq, Structural)]
pub enum LabelAlign {
    /// Horizontally centered, hanging below the anchor: x-axis labels.
    CenterTop,
    /// Right-aligned, vertically centered: y-axis labels.
    RightCenter,
}

/// A numeric label: the host formats `value` and renders the text.
#[derive(Clone, Copy, Debug)]
pub struct LabelShape {
    pub position: ScreenPoint,
    pub value: Frac,
    pub size: i64,
    pub color: Color,
    pub align: LabelAlign,
}

/// One tick: its stroke across the axis and its label.
#[derive(Clone, Copy, Debug)]
pub struct TickMark {
    pub line: Segment,
    pub label: LabelShape,
}

/// An axis: its baseline and its tick marks in increasing order.
#[derive(Clone, Debug)]
pub struct AxisGeometry {
    pub baseline: Segment,
    pub marks: Vec<TickMark>,
}

/// A stroked polyline through the given points, in order.
#[derive(Clone, Debug)]
pub struct Polyline {
    pub points: Vec<ScreenPoint>,
    pub width: i64,
    pub color: Color,
}

/// A filled circle with a stroked border.
#[derive(Clone, Copy, Debug)]
pub struct CircleShape {
    pub center: ScreenPoint,
    pub radius: i64,
    pub fill: Color,
    pub border: i64,
    pub border_color: Color,
}

/// What one series draws.
#[derive(Clone, Debug)]
pub enum SeriesGeometry {
    Line(Polyline),
    Points(Vec<CircleShape>),
}

/// One whole frame: every series' geometry in series order, then the two
/// axes drawn over them.
#[derive(Clone, Debug)]
pub struct ChartGeometry {
    pub series: Vec<SeriesGeometry>,
    pub x_axis: AxisGeometry,
    pub y_axis: AxisGeometry,
}

} // verus!
