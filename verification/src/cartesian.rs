//! The per-axis transform between data space and screen space.
//!
//! An [`Axis`] maps a closed data range onto a pixel span with margins at
//! both ends; a [`Plane`] pairs an x axis with a y axis. Screen y grows
//! downward while data y grows upward, so the y transform is inverted.
//!
//! Degenerate inputs are guarded rather than left to divide by zero: a
//! zero-length data range and a pixel span no larger than its margins are
//! both treated as spans of one unit, so the scale factor is always a
//! positive rational and every transform below is total.

use vstd::prelude::*;
use crate::frac::{Frac, MAX_COORD, MAX_SCREEN_NUM, lemma_mul_fits, lemma_mul_pos};

verus! {

/// One axis of the transform: data range `min..=max`, the pixel span the
/// widget was given along this dimension, and the margins kept free at the
/// low and high ends of that span.
#[derive(Clone, Copy, Debug, PartialEq, Eq, Structural)]
pub struct Axis {
    pub min: i64,
    pub max: i64,
    pub margin_min: i64,
    pub margin_max: i64,
    pub pixel: i64,
}

impl Axis {
    /// Field bounds under which every product formed by the transforms
    /// fits in `i128`.
    pub open spec fn wf(self) -> bool {
        &&& -MAX_COORD <= self.min <= self.max <= MAX_COORD
        &&& 0 <= self.margin_min <= MAX_COORD
        &&& 0 <= self.margin_max <= MAX_COORD
        &&& 0 <= self.pixel <= MAX_COORD
    }

    /// The data span the scale divides by: the range length, or one unit
    /// for a degenerate range.
    pub open spec fn span(self) -> int {
        if self.min < self.max {
            self.max - self.min
        } else {
            1
        }
    }

    /// The pixel span left between the margins, or one unit when the
    /// margins consume the whole span. The scale factor of this axis is
    /// exactly `inner() / span()`.
    pub open spec fn inner(self) -> int {
        if self.margin_min + self.margin_max < self.pixel {
            self.pixel - self.margin_min - self.margin_max
        } else {
            1
        }
    }

    /// Numerator over `span()` of the screen position of data value `v`
    /// on an x-oriented axis: `(v - min) * scale + margin_min`.
    pub open spec fn fwd_num(self, v: int) -> int {
        (v - self.min) * self.inner() + self.margin_min * self.span()
    }

    /// Numerator over `span()` of the screen position of data value `v`
    /// on a y-oriented axis: `(max - v) * scale + margin_max`, the
    /// inverted form that puts larger data values nearer the top.
    pub open spec fn fwd_num_inv(self, v: int) -> int {
        (self.max - v) * self.inner() + self.margin_max * self.span()
    }

    /// Numerator over `inv_den(sd)` of the data value at screen position
    /// `sn / sd` on an x-oriented axis: `(s - margin_min) / scale + min`.
    pub open spec fn inv_num(self, sn: int, sd: int) -> int {
        (sn - self.margin_min * sd) * self.span() + self.min * self.inner() * sd
    }

    /// Numerator over `inv_den(sd)` of the data value at screen position
    /// `sn / sd` on a y-oriented axis: `max - (s - margin_max) / scale`.
    pub open spec fn inv_num_inv(self, sn: int, sd: int) -> int {
        self.max * self.inner() * sd - (sn - self.margin_max * sd) * self.span()
    }

    /// Shared denominator of the two inverse transforms, for a screen
    /// position with denominator `sd`.
    pub open spec fn inv_den(self, sd: int) -> int {
        self.inner() * sd
    }

    /// Numerator over `span() * vd` of the screen position of the
    /// fractional data value `vn / vd` on an x-oriented axis.
    pub open spec fn fwd_num_frac(self, vn: int, vd: int) -> int {
        (vn - self.min * vd) * self.inner() + self.margin_min * self.span() * vd
    }

    /// Numerator over `span() * vd` of the screen position of the
    /// fractional data value `vn / vd` on a y-oriented axis.
    pub open spec fn fwd_num_inv_frac(self, vn: int, vd: int) -> int {
        (self.max * vd - vn) * self.inner() + self.margin_max * self.span() * vd
    }

    /// Builds an axis from a data range, margins and a pixel span.
    pub fn new(min: i64, max: i64, margin_min: i64, margin_max: i64, pixel: i64) -> (r: Axis)
        requires
            -MAX_COORD <= min <= max <= MAX_COORD,
            0 <= margin_min <= MAX_COORD,
            0 <= margin_max <= MAX_COORD,
            0 <= pixel <= MAX_COORD,
        ensures
            r.wf(),
            r == (Axis { min, max, margin_min, margin_max, pixel }),
    {
        Axis { min, max, margin_min, margin_max, pixel }
    }

    /// The guarded data span, executably.
    pub(crate) fn span_exec(&self) -> (r: i128)
        requires
            self.wf(),
        ensures
            r == self.span(),
    {
        if self.min < self.max {
            self.max as i128 - self.min as i128
        } else {
            1
        }
    }

    /// The guarded inner pixel span, executably.
    pub(crate) fn inner_exec(&self) -> (r: i128)
        requires
            self.wf(),
        ensures
            r == self.inner(),
    {
        if self.margin_min + self.margin_max < self.pixel {
            self.pixel as i128 - self.margin_min as i128 - self.margin_max as i128
        } else {
            1
        }
    }
}

/// Facts the linear solver needs about the guarded spans.
pub proof fn lemma_axis_spans(a: Axis)
    requires
        a.wf(),
    ensures
        1 <= a.span() <= 2 * MAX_COORD,
        1 <= a.inner() <= MAX_COORD,
{
}

/// Bounds on the forward transform's numerator for a bounded data value.
pub proof fn lemma_fwd_bounds(a: Axis, v: int)
    requires
        a.wf(),
        -MAX_COORD <= v <= MAX_COORD,
    ensures
        -0x4_0000_0000_0000_0000_0000 <= a.fwd_num(v) <= 0x4_0000_0000_0000_0000_0000,
        -0x4_0000_0000_0000_0000_0000 <= a.fwd_num_inv(v) <= 0x4_0000_0000_0000_0000_0000,
{
    lemma_axis_spans(a);
    lemma_mul_fits(v - a.min, a.inner(), 0x200_0000_0000int, 0x100_0000_0000int);
    lemma_mul_fits(a.max - v, a.inner(), 0x200_0000_0000int, 0x100_0000_0000int);
    lemma_mul_fits(a.margin_min as int, a.span(), 0x100_0000_0000int, 0x200_0000_0000int);
    lemma_mul_fits(a.margin_max as int, a.span(), 0x100_0000_0000int, 0x200_0000_0000int);
}

/// Bounds on the forward transform's numerator and denominator for a
/// bounded fractional data value, such as a tick position.
pub proof fn lemma_fwd_frac_bounds(a: Axis, vn: int, vd: int)
    requires
        a.wf(),
        -0x400_0000_0000_0000 <= vn <= 0x400_0000_0000_0000,
        0 < vd <= 0x2_0000,
    ensures
        -0x10_0000_0000_0000_0000_0000_0000 <= a.fwd_num_frac(vn, vd)
            <= 0x10_0000_0000_0000_0000_0000_0000,
        -0x10_0000_0000_0000_0000_0000_0000 <= a.fwd_num_inv_frac(vn, vd)
            <= 0x10_0000_0000_0000_0000_0000_0000,
        0 < a.span() * vd <= 0x400_0000_0000_0000,
{
    lemma_axis_spans(a);
    lemma_mul_fits(a.min as int, vd, 0x100_0000_0000int, 0x2_0000int);
    lemma_mul_fits(a.max as int, vd, 0x100_0000_0000int, 0x2_0000int);
    lemma_mul_fits(
        vn - a.min * vd,
        a.inner(),
        0x800_0000_0000_0000int,
        0x100_0000_0000int,
    );
    lemma_mul_fits(
        a.max * vd - vn,
        a.inner(),
        0x800_0000_0000_0000int,
        0x100_0000_0000int,
    );
    lemma_mul_fits(a.margin_min as int, a.span(), 0x100_0000_0000int, 0x200_0000_0000int);
    lemma_mul_fits(a.margin_max as int, a.span(), 0x100_0000_0000int, 0x200_0000_0000int);
    lemma_mul_fits(
        a.margin_min * a.span(),
        vd,
        0x2_0000_0000_0000_0000_0000int,
        0x2_0000int,
    );
    lemma_mul_fits(
        a.margin_max * a.span(),
        vd,
        0x2_0000_0000_0000_0000_0000int,
        0x2_0000int,
    );
    lemma_mul_pos(a.span(), vd);
    lemma_mul_fits(a.span(), vd, 0x200_0000_0000int, 0x2_0000int);
}

/// The two-dimensional transform: one axis per dimension.
#[derive(Clone, Copy, Debug, PartialEq, Eq, Structural)]
pub struct Plane {
    pub x: Axis,
    pub y: Axis,
}

impl Plane {
    pub open spec fn wf(self) -> bool {
        self.x.wf() && self.y.wf()
    }

    /// Data-space point at the bottom of the y range on the y axis line.
    pub fn bottom_center(&self) -> (r: (i64, i64))
        ensures
            r == (0i64, self.y.min),
    {
        (0, self.y.min)
    }

    /// Data-space point at the top of the y range on the y axis line.
    pub fn top_center(&self) -> (r: (i64, i64))
        ensures
            r == (0i64, self.y.max),
    {
        (0, self.y.max)
    }

    /// Data-space point at the low end of the x range on the x axis line.
    pub fn bottom_left(&self) -> (r: (i64, i64))
        ensures
            r == (self.x.min, 0i64),
    {
        (self.x.min, 0)
    }

    /// Data-space point at the high end of the x range on the x axis line.
    pub fn bottom_right(&self) -> (r: (i64, i64))
        ensures
            r == (self.x.max, 0i64),
    {
        (self.x.max, 0)
    }

    /// Screen x position of data value `value`, as the exact fraction
    /// `fwd_num(value) / span`.
    pub fn scale_to_cartesian_x(&self, value: i64) -> (r: Frac)
        requires
            self.wf(),
            -MAX_COORD <= value <= MAX_COORD,
        ensures
            r.wf(),
            r.num == self.x.fwd_num(value as int),
            r.den == self.x.span(),
    {
        proof {
            lemma_axis_spans(self.x);
            lemma_mul_fits(
                value as int - self.x.min as int,
                self.x.inner(),
                0x200_0000_0000int,
                0x100_0000_0000int,
            );
            lemma_mul_fits(
                self.x.margin_min as int,
                self.x.span(),
                0x100_0000_0000int,
                0x200_0000_0000int,
            );
        }
        let span = self.x.span_exec();
        let inner = self.x.inner_exec();
        Frac {
            num: (value as i128 - self.x.min as i128) * inner + self.x.margin_min as i128 * span,
            den: span,
        }
    }

    /// Screen y position of data value `value`, as the exact fraction
    /// `fwd_num_inv(value) / span`; the y axis is inverted.
    pub fn scale_to_cartesian_y(&self, value: i64) -> (r: Frac)
        requires
            self.wf(),
            -MAX_COORD <= value <= MAX_COORD,
        ensures
            r.wf(),
            r.num == self.y.fwd_num_inv(value as int),
            r.den == self.y.span(),
    {
        proof {
            lemma_axis_spans(self.y);
            lemma_mul_fits(
                self.y.max as int - value as int,
                self.y.inner(),
                0x200_0000_0000int,
                0x100_0000_0000int,
            );
            lemma_mul_fits(
                self.y.margin_max as int,
                self.y.span(),
                0x100_0000_0000int,
                0x200_0000_0000int,
            );
        }
        let span = self.y.span_exec();
        let inner = self.y.inner_exec();
        Frac {
            num: (self.y.max as i128 - value as i128) * inner + self.y.margin_max as i128 * span,
            den: span,
        }
    }

    /// Screen position of a data-space point, one exact fraction per axis.
    pub fn scale_to_cartesian(&self, point: (i64, i64)) -> (r: (Frac, Frac))
        requires
            self.wf(),
            -MAX_COORD <= point.0 <= MAX_COORD,
            -MAX_COORD <= point.1 <= MAX_COORD,
        ensures
            r.0.wf() && r.1.wf(),
            r.0.num == self.x.fwd_num(point.0 as int),
            r.0.den == self.x.span(),
            r.1.num == self.y.fwd_num_inv(point.1 as int),
            r.1.den == self.y.span(),
    {
        (self.scale_to_cartesian_x(point.0), self.scale_to_cartesian_y(point.1))
    }

    /// Screen x position of a fractional data value, such as a tick
    /// position between two data units.
    pub fn scale_to_cartesian_x_frac(&self, v: Frac) -> (r: Frac)
        requires
            self.wf(),
            v.wf(),
            -0x400_0000_0000_0000 <= v.num <= 0x400_0000_0000_0000,
            v.den <= 0x2_0000,
        ensures
            r.wf(),
            r.num == self.x.fwd_num_frac(v.num as int, v.den as int),
            r.den == self.x.span() * v.den,
    {
        let span = self.x.span_exec();
        let inner = self.x.inner_exec();
        proof {
            lemma_axis_spans(self.x);
            lemma_mul_fits(self.x.min as int, v.den as int, 0x100_0000_0000int, 0x2_0000int);
            lemma_mul_fits(self.x.margin_min as int, span as int, 0x100_0000_0000int, 0x200_0000_0000int);
            lemma_mul_pos(span as int, v.den as int);
            lemma_mul_fits(span as int, v.den as int, 0x200_0000_0000int, 0x2_0000int);
        }
        let shifted: i128 = v.num - self.x.min as i128 * v.den;
        let margin_span: i128 = self.x.margin_min as i128 * span;
        proof {
            lemma_mul_fits(shifted as int, inner as int, 0x800_0000_0000_0000int, 0x100_0000_0000int);
            lemma_mul_fits(margin_span as int, v.den as int, 0x2_0000_0000_0000_0000_0000int, 0x2_0000int);
        }
        Frac { num: shifted * inner + margin_span * v.den, den: span * v.den }
    }

    /// Screen y position of a fractional data value on the inverted
    /// y axis.
    pub fn scale_to_cartesian_y_frac(&self, v: Frac) -> (r: Frac)
        requires
            self.wf(),
            v.wf(),
            -0x400_0000_0000_0000 <= v.num <= 0x400_0000_0000_0000,
            v.den <= 0x2_0000,
        ensures
            r.wf(),
            r.num == self.y.fwd_num_inv_frac(v.num as int, v.den as int),
            r.den == self.y.span() * v.den,
    {
        let span = self.y.span_exec();
        let inner = self.y.inner_exec();
        proof {
            lemma_axis_spans(self.y);
            lemma_mul_fits(self.y.max as int, v.den as int, 0x100_0000_0000int, 0x2_0000int);
            lemma_mul_fits(self.y.margin_max as int, span as int, 0x100_0000_0000int, 0x200_0000_0000int);
            lemma_mul_pos(span as int, v.den as int);
            lemma_mul_fits(span as int, v.den as int, 0x200_0000_0000int, 0x2_0000int);
        }
        let shifted: i128 = self.y.max as i128 * v.den - v.num;
        let margin_span: i128 = self.y.margin_max as i128 * span;
        proof {
            lemma_mul_fits(shifted as int, inner as int, 0x800_0000_0000_0000int, 0x100_0000_0000int);
            lemma_mul_fits(margin_span as int, v.den as int, 0x2_0000_0000_0000_0000_0000int, 0x2_0000int);
        }
        Frac { num: shifted * inner + margin_span * v.den, den: span * v.den }
    }

    /// Data x value under a screen x position given as a fraction.
    pub fn get_cartesian_x(&self, s: Frac) -> (r: Frac)
        requires
            self.wf(),
            s.wf(),
            -MAX_SCREEN_NUM <= s.num <= MAX_SCREEN_NUM,
            s.den <= 2 * MAX_COORD,
        ensures
            r.wf(),
            r.num == self.x.inv_num(s.num as int, s.den as int),
            r.den == self.x.inv_den(s.den as int),
    {
        let span = self.x.span_exec();
        let inner = self.x.inner_exec();
        proof {
            lemma_axis_spans(self.x);
            lemma_mul_fits(
                self.x.margin_min as int,
                s.den as int,
                0x100_0000_0000int,
                0x200_0000_0000int,
            );
            lemma_mul_fits(self.x.min as int, inner as int, 0x100_0000_0000int, 0x100_0000_0000int);
        }
        let shifted: i128 = s.num - self.x.margin_min as i128 * s.den;
        let base: i128 = self.x.min as i128 * inner;
        proof {
            lemma_mul_fits(
                shifted as int,
                span as int,
                0xA_0000_0000_0000_0000_0000int,
                0x200_0000_0000int,
            );
            lemma_mul_fits(
                base as int,
                s.den as int,
                0x1_0000_0000_0000_0000_0000int,
                0x200_0000_0000int,
            );
            lemma_mul_fits(inner as int, s.den as int, 0x100_0000_0000int, 0x200_0000_0000int);
            lemma_mul_pos(inner as int, s.den as int);
        }
        Frac { num: shifted * span + base * s.den, den: inner * s.den }
    }

    /// Data y value under a screen y position given as a fraction; the
    /// inverse of the inverted y transform.
    pub fn get_cartesian_y(&self, s: Frac) -> (r: Frac)
        requires
            self.wf(),
            s.wf(),
            -MAX_SCREEN_NUM <= s.num <= MAX_SCREEN_NUM,
            s.den <= 2 * MAX_COORD,
        ensures
            r.wf(),
            r.num == self.y.inv_num_inv(s.num as int, s.den as int),
            r.den == self.y.inv_den(s.den as int),
    {
        let span = self.y.span_exec();
        let inner = self.y.inner_exec();
        proof {
            lemma_axis_spans(self.y);
            lemma_mul_fits(
                self.y.margin_max as int,
                s.den as int,
                0x100_0000_0000int,
                0x200_0000_0000int,
            );
            lemma_mul_fits(self.y.max as int, inner as int, 0x100_0000_0000int, 0x100_0000_0000int);
        }
        let shifted: i128 = s.num - self.y.margin_max as i128 * s.den;
        let top: i128 = self.y.max as i128 * inner;
        proof {
            lemma_mul_fits(
                shifted as int,
                span as int,
                0xA_0000_0000_0000_0000_0000int,
                0x200_0000_0000int,
            );
            lemma_mul_fits(
                top as int,
                s.den as int,
                0x1_0000_0000_0000_0000_0000int,
                0x200_0000_0000int,
            );
            lemma_mul_fits(inner as int, s.den as int, 0x100_0000_0000int, 0x200_0000_0000int);
            lemma_mul_pos(inner as int, s.den as int);
        }
        Frac { num: top * s.den - shifted * span, den: inner * s.den }
    }

    /// Data-space point under the integer screen position `(px, py)`: the
    /// exact algebraic inverse of `scale_to_cartesian`, composed per axis.
    pub fn get_cartesian(&self, px: i64, py: i64) -> (r: (Frac, Frac))
        requires
            self.wf(),
            -MAX_COORD <= px <= MAX_COORD,
            -MAX_COORD <= py <= MAX_COORD,
        ensures
            r.0.wf() && r.1.wf(),
            r.0.num == self.x.inv_num(px as int, 1),
            r.0.den == self.x.inv_den(1),
            r.1.num == self.y.inv_num_inv(py as int, 1),
            r.1.den == self.y.inv_den(1),
    {
        (self.get_cartesian_x(Frac::from_int(px)), self.get_cartesian_y(Frac::from_int(py)))
    }

    /// Data-space position of the screen point `(px, py)` relative to the
    /// center of the data range: `get_cartesian(p) - (min + length / 2)`
    /// per axis, where `length` is the raw range length `max - min`.
    pub fn get_offset(&self, px: i64, py: i64) -> (r: (Frac, Frac))
        requires
            self.wf(),
            -MAX_COORD <= px <= MAX_COORD,
            -MAX_COORD <= py <= MAX_COORD,
        ensures
            r.0.wf() && r.1.wf(),
            r.0.num == 2 * self.x.inv_num(px as int, 1) - (2 * self.x.min + (self.x.max
                - self.x.min)) * self.x.inv_den(1),
            r.0.den == 2 * self.x.inv_den(1),
            r.1.num == 2 * self.y.inv_num_inv(py as int, 1) - (2 * self.y.min + (self.y.max
                - self.y.min)) * self.y.inv_den(1),
            r.1.den == 2 * self.y.inv_den(1),
    {
        let (dx, dy) = self.get_cartesian(px, py);
        proof {
            lemma_axis_spans(self.x);
            lemma_axis_spans(self.y);
            lemma_mul_fits(
                px as int - self.x.margin_min as int,
                self.x.span(),
                0x200_0000_0000int,
                0x200_0000_0000int,
            );
            lemma_mul_fits(self.x.min as int, self.x.inner(), 0x100_0000_0000int, 0x100_0000_0000int);
            lemma_mul_fits(
                py as int - self.y.margin_max as int,
                self.y.span(),
                0x200_0000_0000int,
                0x200_0000_0000int,
            );
            lemma_mul_fits(self.y.max as int, self.y.inner(), 0x100_0000_0000int, 0x100_0000_0000int);
            lemma_mul_fits(
                2 * self.x.min as int + (self.x.max as int - self.x.min as int),
                self.x.inner(),
                0x300_0000_0000int,
                0x100_0000_0000int,
            );
            lemma_mul_fits(
                2 * self.y.min as int + (self.y.max as int - self.y.min as int),
                self.y.inner(),
                0x300_0000_0000int,
                0x100_0000_0000int,
            );
        }
        let cx: i128 = 2 * self.x.min as i128 + (self.x.max as i128 - self.x.min as i128);
        let cy: i128 = 2 * self.y.min as i128 + (self.y.max as i128 - self.y.min as i128);
        let ox = Frac { num: 2 * dx.num - cx * dx.den, den: 2 * dx.den };
        let oy = Frac { num: 2 * dy.num - cy * dy.den, den: 2 * dy.den };
        (ox, oy)
    }
}

/// Mapping a data value to the screen and back returns exactly that value
/// on the x axis: for any result `s` of the forward transform and any
/// result `d` of the inverse transform applied to `s`, `d` is exactly `v`.
pub proof fn lemma_round_trip_x(a: Axis, v: int, s: Frac, d: Frac)
    requires
        a.wf(),
        s.num == a.fwd_num(v),
        s.den == a.span(),
        d.num == a.inv_num(s.num as int, s.den as int),
        d.den == a.inv_den(s.den as int),
    ensures
        d.wf(),
        d.is_int(v),
{
    lemma_axis_spans(a);
    assert((((v - a.min) * a.inner() + a.margin_min * a.span()) - a.margin_min * a.span())
        * a.span() + a.min * a.inner() * a.span() == v * (a.inner() * a.span()))
        by (nonlinear_arith);
    assert(a.inner() * a.span() > 0) by (nonlinear_arith)
        requires
            a.inner() >= 1,
            a.span() >= 1,
    ;
}

/// Mapping a data value to the screen and back returns exactly that value
/// on the inverted y axis.
pub proof fn lemma_round_trip_y(a: Axis, v: int, s: Frac, d: Frac)
    requires
        a.wf(),
        s.num == a.fwd_num_inv(v),
        s.den == a.span(),
        d.num == a.inv_num_inv(s.num as int, s.den as int),
        d.den == a.inv_den(s.den as int),
    ensures
        d.wf(),
        d.is_int(v),
{
    lemma_axis_spans(a);
    assert(a.max * a.inner() * a.span() - (((a.max - v) * a.inner() + a.margin_max * a.span())
        - a.margin_max * a.span()) * a.span() == v * (a.inner() * a.span()))
        by (nonlinear_arith);
    assert(a.inner() * a.span() > 0) by (nonlinear_arith)
        requires
            a.inner() >= 1,
            a.span() >= 1,
    ;
}

/// The x transform is non-decreasing in the data value: for any results
/// `r1`, `r2` of the forward transform on values `v1 <= v2`, `r1 <= r2`
/// as fractions.
pub proof fn lemma_monotone_x(a: Axis, v1: int, v2: int, r1: Frac, r2: Frac)
    requires
        a.wf(),
        v1 <= v2,
        r1.num == a.fwd_num(v1),
        r1.den == a.span(),
        r2.num == a.fwd_num(v2),
        r2.den == a.span(),
    ensures
        r1.le(r2),
{
    lemma_axis_spans(a);
    assert((v1 - a.min) * a.inner() <= (v2 - a.min) * a.inner()) by (nonlinear_arith)
        requires
            v1 <= v2,
            a.inner() >= 1,
    ;
    assert(a.fwd_num(v1) * a.span() <= a.fwd_num(v2) * a.span()) by (nonlinear_arith)
        requires
            a.fwd_num(v1) <= a.fwd_num(v2),
            a.span() >= 1,
    ;
}

/// The y transform is non-increasing in the data value: the y axis is
/// inverted, so the larger data value lands nearer the top of the screen.
pub proof fn lemma_monotone_y(a: Axis, v1: int, v2: int, r1: Frac, r2: Frac)
    requires
        a.wf(),
        v1 <= v2,
        r1.num == a.fwd_num_inv(v1),
        r1.den == a.span(),
        r2.num == a.fwd_num_inv(v2),
        r2.den == a.span(),
    ensures
        r2.le(r1),
{
    lemma_axis_spans(a);
    assert((a.max - v2) * a.inner() <= (a.max - v1) * a.inner()) by (nonlinear_arith)
        requires
            v1 <= v2,
            a.inner() >= 1,
    ;
    assert(a.fwd_num_inv(v2) * a.span() <= a.fwd_num_inv(v1) * a.span()) by (nonlinear_arith)
        requires
            a.fwd_num_inv(v2) <= a.fwd_num_inv(v1),
            a.span() >= 1,
    ;
}



} // verus!
