//! Exact fractions over machine integers.
//!
//! The cartesian transforms divide a pixel span by a data span, so their
//! results are rational, not integral. Instead of rounding, every position
//! that the library computes is carried as a numerator/denominator pair and
//! every contract speaks of the exact fraction through cross-multiplication,
//! which keeps all reasoning inside integer arithmetic.

use vstd::prelude::*;

verus! {

/// Largest magnitude accepted for a plain coordinate, in data units or in
/// pixel units. Keeping inputs below this bound keeps every product that
/// the library forms comfortably inside `i128`.
pub const MAX_COORD: i64 = 0x100_0000_0000;

/// Largest denominator for which the comparison helpers below may multiply
/// a coordinate across without overflowing `i128`.
pub const MAX_CMP_DEN: i128 = 0x1_0000_0000_0000_0000_0000;

/// Largest numerator magnitude of a screen position accepted by the
/// inverse transforms: eight times `MAX_COORD` squared, well above what
/// any forward transform can produce.
pub const MAX_SCREEN_NUM: i128 = 0x8_0000_0000_0000_0000_0000;

/// An exact fraction `num / den` with a positive denominator.
///
/// Fractions are not reduced: two values with different fields may stand
/// for the same rational, and contracts compare them by cross-multiplying.
#[derive(Clone, Copy, Debug)]
pub struct Frac {
    pub num: i128,
    pub den: i128,
}

impl Frac {
    /// A fraction is well formed when its denominator is positive.
    pub open spec fn wf(self) -> bool {
        self.den > 0
    }

    /// `self <= other` as rationals (meaningful when both are well formed).
    pub open spec fn le(self, other: Frac) -> bool {
        self.num * other.den <= other.num * self.den
    }

    /// The fraction is at most the integer `c`.
    pub open spec fn le_int(self, c: int) -> bool {
        self.num <= c * self.den
    }

    /// The fraction is strictly greater than the integer `c`.
    pub open spec fn gt_int(self, c: int) -> bool {
        c * self.den < self.num
    }

    /// The fraction stands for exactly the integer `c`.
    pub open spec fn is_int(self, c: int) -> bool {
        self.num == c * self.den
    }

    /// The exact fraction for an integer value.
    pub fn from_int(c: i64) -> (r: Frac)
        ensures
            r.wf(),
            r.num == c as int,
            r.den == 1,
            r.is_int(c as int),
    {
        Frac { num: c as i128, den: 1 }
    }

    /// Whether `self <= c` for an integer coordinate `c`.
    pub fn le_coord(&self, c: i64) -> (r: bool)
        requires
            self.wf(),
            -MAX_COORD <= c <= MAX_COORD,
            self.den <= MAX_CMP_DEN,
        ensures
            r == self.le_int(c as int),
    {
        proof {
            lemma_mul_fits(c as int, self.den as int, MAX_COORD as int, MAX_CMP_DEN as int);
        }
        self.num <= (c as i128) * self.den
    }

    /// The fraction `self + c` for an integer offset `c`.
    pub fn add_int(&self, c: i64) -> (r: Frac)
        requires
            self.wf(),
            -MAX_COORD <= c <= MAX_COORD,
            -0x10_0000_0000_0000_0000_0000_0000 <= self.num <= 0x10_0000_0000_0000_0000_0000_0000,
            self.den <= 0x400_0000_0000_0000,
        ensures
            r.num == self.num + c * self.den,
            r.den == self.den,
            r.wf(),
    {
        proof {
            lemma_mul_fits(c as int, self.den as int, 0x100_0000_0000int, 0x400_0000_0000_0000int);
        }
        Frac { num: self.num + c as i128 * self.den, den: self.den }
    }

    /// The fraction `self + c / 2` for an integer offset `c`; pass a
    /// negative `c` to subtract.
    pub fn add_half(&self, c: i64) -> (r: Frac)
        requires
            self.wf(),
            -MAX_COORD <= c <= MAX_COORD,
            -0x10_0000_0000_0000_0000_0000_0000 <= self.num <= 0x10_0000_0000_0000_0000_0000_0000,
            self.den <= 0x400_0000_0000_0000,
        ensures
            r.num == 2 * self.num + c * self.den,
            r.den == 2 * self.den,
            r.wf(),
    {
        proof {
            lemma_mul_fits(c as int, self.den as int, 0x100_0000_0000int, 0x400_0000_0000_0000int);
        }
        Frac { num: 2 * self.num + c as i128 * self.den, den: 2 * self.den }
    }

    /// Whether `self > c` for an integer coordinate `c`.
    pub fn gt_coord(&self, c: i64) -> (r: bool)
        requires
            self.wf(),
            -MAX_COORD <= c <= MAX_COORD,
            self.den <= MAX_CMP_DEN,
        ensures
            r == self.gt_int(c as int),
    {
        proof {
            lemma_mul_fits(c as int, self.den as int, MAX_COORD as int, MAX_CMP_DEN as int);
        }
        (c as i128) * self.den < self.num
    }
}

/// A product of two bounded factors is bounded by the product of the bounds.
pub proof fn lemma_mul_fits(a: int, b: int, ca: int, cb: int)
    by (nonlinear_arith)
    requires
        -ca <= a <= ca,
        -cb <= b <= cb,
        0 <= ca,
        0 <= cb,
    ensures
        -(ca * cb) <= a * b <= ca * cb,
{
}

/// Floor division of `n` by a positive `d`: exactly the Euclidean
/// quotient `n / d`.
pub fn div_floor(n: i128, d: i128) -> (q: i128)
    requires
        0 < d <= 0x10_0000_0000_0000_0000_0000_0000,
        -0x10_0000_0000_0000_0000_0000_0000 <= n <= 0x10_0000_0000_0000_0000_0000_0000,
    ensures
        q == n as int / d as int,
        d * q <= n < d * q + d,
        n >= 0 ==> 0 <= q <= n,
        n < 0 ==> n <= q <= 0,
{
    if n >= 0 {
        let qq: u128 = (n as u128) / (d as u128);
        proof {
            vstd::arithmetic::div_mod::lemma_fundamental_div_mod(n as int, d as int);
            vstd::arithmetic::div_mod::lemma_div_nonincreasing(n as int, d as int);
            vstd::arithmetic::div_mod::lemma_div_pos_is_pos(n as int, d as int);
        }
        qq as i128
    } else {
        let m: u128 = (-n) as u128;
        let dd: u128 = d as u128;
        let qc: u128 = (m + dd - 1) / dd;
        proof {
            vstd::arithmetic::div_mod::lemma_fundamental_div_mod(m as int + d - 1, d as int);
            vstd::arithmetic::div_mod::lemma_div_nonincreasing(m as int + d - 1, d as int);
            vstd::arithmetic::div_mod::lemma_div_pos_is_pos(m as int + d - 1, d as int);
            let qci = qc as int;
            let r2 = qci * (d as int) - m as int;
            assert((d as int) * qci == qci * (d as int)) by (nonlinear_arith);
            assert((-qci) * (d as int) == -(qci * (d as int))) by (nonlinear_arith);
            assert(qci <= m as int) by (nonlinear_arith)
                requires
                    qci * (d as int) <= m as int + d - 1,
                    d as int >= 1,
                    qci >= 0,
                    m as int >= 1,
            ;
            vstd::arithmetic::div_mod::lemma_fundamental_div_mod_converse(
                n as int,
                d as int,
                -qci,
                r2,
            );
        }
        -(qc as i128)
    }
}

/// Ceiling division of `n` by a positive `d`: the least integer at or
/// above the exact quotient, `-((-n) / d)` in Euclidean terms.
pub fn div_ceil(n: i128, d: i128) -> (q: i128)
    requires
        0 < d <= 0x10_0000_0000_0000_0000_0000_0000,
        -0x10_0000_0000_0000_0000_0000_0000 <= n <= 0x10_0000_0000_0000_0000_0000_0000,
    ensures
        q == -((-(n as int)) / d as int),
        n <= d * q < n + d,
        n >= 0 ==> 0 <= q <= n,
        n < 0 ==> n <= q <= 0,
{
    let f = div_floor(-n, d);
    proof {
        let fi = f as int;
        assert((d as int) * (-fi) == -((d as int) * fi)) by (nonlinear_arith);
    }
    -f
}

/// The integer comparisons against a fraction respect the order of the
/// integers: what is at most `c0` is at most any larger `c1`, and what
/// exceeds `c1` exceeds any smaller `c0`.
pub proof fn lemma_cmp_int_monotone(f: Frac, c0: int, c1: int)
    requires
        f.wf(),
        c0 <= c1,
    ensures
        f.le_int(c0) ==> f.le_int(c1),
        f.gt_int(c1) ==> f.gt_int(c0),
{
    assert(c0 * f.den <= c1 * f.den) by (nonlinear_arith)
        requires
            c0 <= c1,
            f.den > 0,
    ;
}

/// A product of two positive factors is positive.
pub proof fn lemma_mul_pos(a: int, b: int)
    by (nonlinear_arith)
    requires
        a > 0,
        b > 0,
    ensures
        a * b > 0,
{
}

} // verus!

