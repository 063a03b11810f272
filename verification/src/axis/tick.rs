//! Styling of the tick marks along an axis.

use vstd::prelude::*;
use crate::color::Color;
use crate::frac::MAX_COORD;

verus! {

/// Largest accepted tick count; it keeps the tick-step arithmetic of the
/// draw pass inside `i128`.
pub const MAX_TICK_AMOUNT: i64 = 100_000;

/// Tick style: stroke color, tick length across the axis (`height`),
/// stroke width, and how many steps the data range is divided into.
#[derive(Clone, Copy, Debug)]
pub struct Tick {
    pub color: Color,
    pub height: i64,
    pub width: i64,
    pub amount: i64,
}

impl Tick {
    pub open spec fn wf(self) -> bool {
        &&& 0 <= self.height <= MAX_COORD
        &&& 0 <= self.width <= MAX_COORD
        &&& 1 <= self.amount <= MAX_TICK_AMOUNT
    }

    pub fn color(self, color: Color) -> (r: Tick)
        ensures
            r == (Tick { color, ..self }),
    {
        Tick { color, ..self }
    }

    pub fn height(self, height: i64) -> (r: Tick)
        requires
            0 <= height <= MAX_COORD,
        ensures
            r == (Tick { height, ..self }),
    {
        Tick { height, ..self }
    }

    pub fn width(self, width: i64) -> (r: Tick)
        requires
            0 <= width <= MAX_COORD,
        ensures
            r == (Tick { width, ..self }),
    {
        Tick { width, ..self }
    }

    pub fn amount(self, amount: i64) -> (r: Tick)
        requires
            1 <= amount <= MAX_TICK_AMOUNT,
        ensures
            r == (Tick { amount, ..self }),
    {
        Tick { amount, ..self }
    }
}

impl Default for Tick {
    /// White one-pixel marks, five pixels long, ten steps per range.
    fn default() -> (r: Tick)
        ensures
            r.wf(),
            r == (Tick {
                color: Color { r: 255u8, g: 255u8, b: 255u8, a: 255u8 },
                height: 5i64,
                width: 1i64,
                amount: 10i64,
            }),
    {
        Tick { color: Color::white(), height: 5, width: 1, amount: 10 }
    }
}

} // verus!
