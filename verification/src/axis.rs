//! Styling of an axis line, of its tick marks and of its labels.

mod label;
mod tick;

pub use label::Labels;
pub use tick::Tick;

use vstd::prelude::*;
use crate::color::Color;
use crate::frac::MAX_COORD;

verus! {

/// Style of the axis line itself: stroke color and stroke width in
/// pixel units.
#[derive(Clone, Copy, Debug)]
pub struct Axis {
    pub color: Color,
    pub width: i64,
}

impl Axis {
    pub open spec fn wf(self) -> bool {
        0 <= self.width <= MAX_COORD
    }

    pub fn color(self, color: Color) -> (r: Axis)
        ensures
            r == (Axis { color, ..self }),
    {
        Axis { color, ..self }
    }

    pub fn width(self, width: i64) -> (r: Axis)
        requires
            0 <= width <= MAX_COORD,
        ensures
            r == (Axis { width, ..self }),
    {
        Axis { width, ..self }
    }
}

impl Default for Axis {
    /// A one-pixel white line.
    fn default() -> (r: Axis)
        ensures
            r.wf(),
            r == (Axis { color: Color { r: 255u8, g: 255u8, b: 255u8, a: 255u8 }, width: 1i64 }),
    {
        Axis { color: Color::white(), width: 1 }
    }
}

} // verus!
