//! Styling of the numeric labels along an axis.
//!
//! A label's text is not produced here: label shapes carry the exact
//! data value they stand for, and the host formats it (possibly through
//! a custom formatter) when it renders the geometry.

use vstd::prelude::*;
use crate::color::Color;
use crate::frac::MAX_COORD;

verus! {

/// Label style: text color and font size in pixel units, each falling
/// back to a theme default when unset.
#[derive(Clone, Copy, Debug)]
pub struct Labels {
    pub color: Option<Color>,
    pub font_size: Option<i64>,
}

impl Default for Labels {
    /// No overrides: theme color and default font size.
    fn default() -> (r: Labels)
        ensures
            r.wf(),
            r == (Labels { color: Option::<Color>::None, font_size: Option::<i64>::None }),
    {
        Labels { color: None, font_size: None }
    }
}

impl Labels {
    pub open spec fn wf(self) -> bool {
        match self.font_size {
            Some(s) => 0 <= s <= MAX_COORD,
            None => true,
        }
    }

    pub fn color(self, color: Color) -> (r: Labels)
        ensures
            r == (Labels { color: Some(color), ..self }),
    {
        Labels { color: Some(color), ..self }
    }

    pub fn font_size(self, font_size: i64) -> (r: Labels)
        requires
            0 <= font_size <= MAX_COORD,
        ensures
            r == (Labels { font_size: Some(font_size), ..self }),
    {
        Labels { font_size: Some(font_size), ..self }
    }
}

} // verus!
