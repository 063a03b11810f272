//! An interactive 2-D chart core: cartesian data/screen transforms, a
//! two-level spatial index for hit-testing, line/point series geometry,
//! and the pointer-event interpretation of a chart widget.
//!
//! Coordinates are integer units throughout: the host decides what one
//! data unit or one pixel unit means and converts its own numbers at the
//! boundary. Positions produced by the transforms are exact fractions, so
//! mapping a value to the screen and back returns exactly the value.

pub mod axis;
pub mod cartesian;
pub mod chart;
pub mod color;
pub mod frac;
pub mod geometry;
pub mod items;
pub mod series;
