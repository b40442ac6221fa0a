//! Fixed-point arithmetic: one unit is [`ONE`] raw steps.
use vstd::prelude::*;

verus! {

/// Raw steps per unit.
pub const ONE: i64 = 1_000_000;

/// The quotient `a / b` rounded toward zero.
pub open spec fn trunc_div(a: int, b: int) -> int
    recommends
        b > 0,
{
    if a >= 0 {
        a / b
    } else {
        -((-a) / b)
    }
}

/// The value of the `i64` range that lies nearest to `v`.
pub open spec fn saturate(v: int) -> int {
    if v < i64::MIN as int {
        i64::MIN as int
    } else if v > i64::MAX as int {
        i64::MAX as int
    } else {
        v
    }
}

/// `r` is the least natural number whose square reaches `n`.
pub open spec fn is_ceil_sqrt(n: int, r: int) -> bool {
    &&& r >= 0
    &&& r * r >= n
    &&& (r == 0 || (r - 1) * (r - 1) < n)
}

/// The square root of `n`, rounded up.
pub open spec fn ceil_sqrt(n: int) -> int {
    choose|r: int| is_ceil_sqrt(n, r)
}

/// Squares grow with their non-negative base.
pub proof fn lemma_square_monotonic(a: int, b: int)
    by (nonlinear_arith)
    requires
        0 <= a <= b,
    ensures
        a * a <= b * b,
{
}

/// At most one number is the rounded-up square root of `n`.
pub proof fn lemma_ceil_sqrt_unique(n: int, r1: int, r2: int)
    requires
        is_ceil_sqrt(n, r1),
        is_ceil_sqrt(n, r2),
    ensures
        r1 == r2,
{
    if r1 < r2 {
        lemma_square_monotonic(r1, r2 - 1);
    } else if r2 < r1 {
        lemma_square_monotonic(r2, r1 - 1);
    }
}

/// Every natural number has a rounded-up square root, and [`ceil_sqrt`] is it.
pub proof fn lemma_ceil_sqrt_exists(n: int)
    requires
        n >= 0,
    ensures
        is_ceil_sqrt(n, ceil_sqrt(n)),
    decreases n,
{
    if n == 0 {
        assert(is_ceil_sqrt(0, 0));
    } else {
        lemma_ceil_sqrt_exists(n - 1);
        let r = ceil_sqrt(n - 1);
        if r * r >= n {
            assert(is_ceil_sqrt(n, r));
        } else {
            assert((r + 1) * (r + 1) >= n) by (nonlinear_arith)
                requires
                    r >= 0,
                    r * r >= n - 1,
            ;
            assert(is_ceil_sqrt(n, r + 1));
        }
    }
}

/// Whatever satisfies [`is_ceil_sqrt`] is the value of [`ceil_sqrt`].
pub proof fn lemma_ceil_sqrt_is(n: int, r: int)
    requires
        is_ceil_sqrt(n, r),
    ensures
        ceil_sqrt(n) == r,
{
    lemma_ceil_sqrt_unique(n, r, ceil_sqrt(n));
}

/// The magnitude of a product is at most the product of the bounds on its factors.
pub proof fn lemma_product_bound(a: int, b: int, ma: int, mb: int)
    by (nonlinear_arith)
    requires
        -ma <= a <= ma,
        -mb <= b <= mb,
    ensures
        -(ma * mb) <= a * b <= ma * mb,
{
}

/// Rounding a quotient toward zero never increases its magnitude:
/// `trunc_div(a, b) * b` lies between zero and `a`.
pub proof fn lemma_trunc_div_bounds(a: int, b: int)
    by (nonlinear_arith)
    requires
        b > 0,
    ensures
        a >= 0 ==> 0 <= trunc_div(a, b) * b <= a && a - b < trunc_div(a, b) * b,
        a <= 0 ==> a <= trunc_div(a, b) * b <= 0 && trunc_div(a, b) * b < a + b,
        a >= 0 ==> 0 <= trunc_div(a, b) <= a,
        a <= 0 ==> a <= trunc_div(a, b) <= 0,
{
    if a >= 0 {
        assert(a == b * (a / b) + a % b && 0 <= a % b < b);
    } else {
        assert(-a == b * ((-a) / b) + (-a) % b && 0 <= (-a) % b < b);
    }
}

/// Clamps a wide intermediate value into the `i64` range.
pub fn saturating(v: i128) -> (r: i64)
    ensures
        r == saturate(v as int),
{
    if v < i64::MIN as i128 {
        i64::MIN
    } else if v > i64::MAX as i128 {
        i64::MAX
    } else {
        v as i64
    }
}

/// Computes `a * b / c`, rounded toward zero, without intermediate overflow.
pub fn mul_div(a: i128, b: i64, c: i128) -> (r: i128)
    requires
        -0x1_0000_0000_0000_0000 < a < 0x1_0000_0000_0000_0000,
        c > 0,
    ensures
        r == trunc_div(a * b, c as int),
{
    proof {
        lemma_product_bound(a as int, b as int, 0xffff_ffff_ffff_ffff, 0x8000_0000_0000_0000);
    }
    let p: i128 = a * (b as i128);
    p / c
}

/// Computes the square root of `n`, rounded up.
pub fn ceil_sqrt_u128(n: u128) -> (r: u128)
    ensures
        is_ceil_sqrt(n as int, r as int),
        r == ceil_sqrt(n as int),
        r <= 0x1_0000_0000_0000_0000,
{
    let mut lo: u128 = 0;
    let mut hi: u128 = 0x1_0000_0000_0000_0000;
    while lo < hi
        invariant
            lo <= hi <= 0x1_0000_0000_0000_0000,
            hi * hi >= n,
            lo == 0 || (lo - 1) * (lo - 1) < n,
        decreases hi - lo,
    {
        let mid: u128 = lo + (hi - lo) / 2;
        proof {
            lemma_square_monotonic(mid as int, 0xffff_ffff_ffff_ffff);
        }
        if mid * mid >= n {
            hi = mid;
        } else {
            lo = mid + 1;
        }
    }
    proof {
        lemma_ceil_sqrt_is(n as int, lo as int);
    }
    lo
}

} // verus!
