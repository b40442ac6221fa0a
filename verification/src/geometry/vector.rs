//! Points and vectors of the plane.
use vstd::prelude::*;
use crate::fixed::{ceil_sqrt, ceil_sqrt_u128, lemma_ceil_sqrt_exists, lemma_square_monotonic,
    lemma_trunc_div_bounds, mul_div, trunc_div};

verus! {

/// A point, or a vector, of the plane.
#[derive(Clone, Copy, Debug, PartialEq, Eq)]
pub struct Point2 {
    pub x: i64,
    pub y: i64,
}

/// The components of the vector `(x, y)` after its length is capped at `max`:
/// a longer vector is scaled by `max` over its length, rounded up, so that it
/// keeps its direction; a shorter one is left alone.
pub open spec fn clamp_length_max(x: int, y: int, max: int) -> (int, int) {
    let length_squared = x * x + y * y;
    if length_squared > max * max {
        let length = ceil_sqrt(length_squared);
        (trunc_div(x * max, length), trunc_div(y * max, length))
    } else {
        (x, y)
    }
}

/// The square of a quotient rounded toward zero, times the square of the
/// divisor, is at most the square of the dividend.
proof fn lemma_trunc_div_square(a: int, b: int)
    requires
        b > 0,
    ensures
        (trunc_div(a, b) * trunc_div(a, b)) * (b * b) <= a * a,
{
    let q = trunc_div(a, b);
    lemma_trunc_div_bounds(a, b);
    assert((q * q) * (b * b) == (q * b) * (q * b)) by (nonlinear_arith);
    if a >= 0 {
        lemma_square_monotonic(q * b, a);
    } else {
        lemma_square_monotonic(-(q * b), -a);
        assert((-(q * b)) * (-(q * b)) == (q * b) * (q * b)) by (nonlinear_arith);
        assert((-a) * (-a) == a * a) by (nonlinear_arith);
    }
}

/// The square of a number of bounded magnitude is bounded by the square of the bound.
proof fn lemma_square_bound(a: int, m: int)
    by (nonlinear_arith)
    requires
        -m <= a <= m,
    ensures
        0 <= a * a <= m * m,
{
}

/// A number whose square is at most the square of `m` lies between `-m` and `m`.
proof fn lemma_bounded_by_square(a: int, m: int)
    by (nonlinear_arith)
    requires
        0 <= m,
        a * a <= m * m,
    ensures
        -m <= a <= m,
{
}

/// A vector scaled by `max / length`, where `length` is at least its own
/// length, is no longer than `max`.
pub proof fn lemma_scaled_length(x: int, y: int, max: int, length: int)
    requires
        max >= 0,
        length > 0,
        x * x + y * y <= length * length,
    ensures
        ({
            let qx = trunc_div(x * max, length);
            let qy = trunc_div(y * max, length);
            &&& qx * qx + qy * qy <= max * max
            &&& -max <= qx <= max
            &&& -max <= qy <= max
        }),
{
    let qx = trunc_div(x * max, length);
    let qy = trunc_div(y * max, length);
    let l2 = length * length;
    let m2 = max * max;
    lemma_trunc_div_square(x * max, length);
    lemma_trunc_div_square(y * max, length);
    assert(l2 > 0) by (nonlinear_arith)
        requires
            l2 == length * length,
            length > 0,
    ;
    assert(m2 >= 0) by (nonlinear_arith)
        requires
            m2 == max * max,
    ;
    assert((x * max) * (x * max) + (y * max) * (y * max) == (x * x + y * y) * m2)
        by (nonlinear_arith)
        requires
            m2 == max * max,
    ;
    assert((x * x + y * y) * m2 <= l2 * m2) by (nonlinear_arith)
        requires
            x * x + y * y <= l2,
            m2 >= 0,
    ;
    assert((qx * qx) * l2 + (qy * qy) * l2 == (qx * qx + qy * qy) * l2) by (nonlinear_arith);
    assert((qx * qx + qy * qy) * l2 <= m2 * l2) by (nonlinear_arith)
        requires
            (qx * qx) * l2 <= (x * max) * (x * max),
            (qy * qy) * l2 <= (y * max) * (y * max),
            (qx * qx) * l2 + (qy * qy) * l2 == (qx * qx + qy * qy) * l2,
            (x * max) * (x * max) + (y * max) * (y * max) == (x * x + y * y) * m2,
            (x * x + y * y) * m2 <= l2 * m2,
    ;
    assert(qx * qx + qy * qy <= m2) by (nonlinear_arith)
        requires
            (qx * qx + qy * qy) * l2 <= m2 * l2,
            l2 > 0,
    ;
    assert(qx * qx <= m2 && qy * qy <= m2) by (nonlinear_arith)
        requires
            qx * qx + qy * qy <= m2,
    ;
    lemma_bounded_by_square(qx, max);
    lemma_bounded_by_square(qy, max);
}

/// A vector whose length has been capped at `max` is no longer than `max`.
pub proof fn lemma_clamped_length(v: Point2, max: int)
    requires
        0 <= max <= i64::MAX,
    ensures
        v.clamped(max).length_squared() <= max * max,
        -max <= v.clamped(max).x <= max,
        -max <= v.clamped(max).y <= max,
        (v.clamped(max).x as int, v.clamped(max).y as int) == clamp_length_max(
            v.x as int,
            v.y as int,
            max,
        ),
{
    let s = v.x * v.x + v.y * v.y;
    lemma_square_bound(v.x as int, 0x8000_0000_0000_0000);
    lemma_square_bound(v.y as int, 0x8000_0000_0000_0000);
    if s > max * max {
        lemma_ceil_sqrt_exists(s);
        let length = ceil_sqrt(s);
        assert(length != 0) by (nonlinear_arith)
            requires
                length * length >= s,
                s > 0,
        ;
        lemma_scaled_length(v.x as int, v.y as int, max, length);
    } else {
        lemma_bounded_by_square(v.x as int, max);
        lemma_bounded_by_square(v.y as int, max);
    }
}

impl Point2 {
    /// The point with the coordinates `x` and `y`.
    pub fn new(x: i64, y: i64) -> (p: Point2)
        ensures
            p.x == x,
            p.y == y,
    {
        Point2 { x, y }
    }

    /// The square of the vector's length.
    pub open spec fn length_squared(self) -> int {
        self.x * self.x + self.y * self.y
    }

    /// The vector with its length capped at `max`.
    pub open spec fn clamped(self, max: int) -> Point2 {
        let c = clamp_length_max(self.x as int, self.y as int, max);
        Point2 { x: c.0 as i64, y: c.1 as i64 }
    }

    /// Caps the vector's length at `max` and keeps its direction.
    pub fn clamp_length_max(self, max: i64) -> (r: Point2)
        requires
            max >= 0,
        ensures
            r == self.clamped(max as int),
            (r.x as int, r.y as int) == clamp_length_max(self.x as int, self.y as int, max as int),
            r.length_squared() <= max * max,
            -max <= r.x <= max,
            -max <= r.y <= max,
            self.length_squared() <= max * max ==> r == self,
    {
        let x: i128 = self.x as i128;
        let y: i128 = self.y as i128;
        let m: i128 = max as i128;
        proof {
            lemma_square_bound(x as int, 0x8000_0000_0000_0000);
            lemma_square_bound(y as int, 0x8000_0000_0000_0000);
            lemma_square_bound(m as int, 0x8000_0000_0000_0000);
        }
        let length_squared: u128 = (x * x) as u128 + (y * y) as u128;
        let limit: u128 = (m * m) as u128;
        if length_squared > limit {
            let length = ceil_sqrt_u128(length_squared);
            proof {
                assert(length != 0) by (nonlinear_arith)
                    requires
                        length * length >= length_squared,
                        length_squared > 0,
                ;
                if length >= 0x1_0000_0000_0000_0000 {
                    lemma_square_monotonic(0xffff_ffff_ffff_ffff, length - 1);
                }
                lemma_scaled_length(x as int, y as int, max as int, length as int);
            }
            let qx = mul_div(x, max, length as i128);
            let qy = mul_div(y, max, length as i128);
            Point2 { x: qx as i64, y: qy as i64 }
        } else {
            proof {
                lemma_bounded_by_square(x as int, max as int);
                lemma_bounded_by_square(y as int, max as int);
            }
            self
        }
    }
}

} // verus!
