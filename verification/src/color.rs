//! Colours with an alpha channel, and their blending.
use vstd::prelude::*;
use crate::fixed::{mul_div, saturate, saturating, trunc_div, ONE};

verus! {

/// A colour of four channels; a channel ranges from 0 to [`ONE`].
#[derive(Clone, Copy, Debug, PartialEq, Eq)]
pub struct Srgba {
    pub red: i64,
    pub green: i64,
    pub blue: i64,
    pub alpha: i64,
}

/// The value on the way from `start` to `end` at the fraction `t` of the way.
pub open spec fn lerp(start: int, end: int, t: int) -> int {
    saturate(start + trunc_div((end - start) * t, ONE as int))
}

/// The colour on the way from `start` to `end` at the fraction `t`, channel by channel.
pub open spec fn color_lerp_spec(start: Srgba, end: Srgba, t: int) -> Srgba {
    Srgba {
        red: lerp(start.red as int, end.red as int, t) as i64,
        green: lerp(start.green as int, end.green as int, t) as i64,
        blue: lerp(start.blue as int, end.blue as int, t) as i64,
        alpha: lerp(start.alpha as int, end.alpha as int, t) as i64,
    }
}

/// Blending starts at the first colour and ends at the second.
pub proof fn lemma_color_lerp_ends(start: Srgba, end: Srgba)
    ensures
        color_lerp_spec(start, end, 0) == start,
        color_lerp_spec(start, end, ONE as int) == end,
{
    lemma_lerp_ends(start.red as int, end.red as int);
    lemma_lerp_ends(start.green as int, end.green as int);
    lemma_lerp_ends(start.blue as int, end.blue as int);
    lemma_lerp_ends(start.alpha as int, end.alpha as int);
}

/// A channel blends from `start` at fraction zero to `end` at fraction one.
pub proof fn lemma_lerp_ends(start: int, end: int)
    requires
        i64::MIN <= start <= i64::MAX,
        i64::MIN <= end <= i64::MAX,
    ensures
        lerp(start, end, 0) == start,
        lerp(start, end, ONE as int) == end,
{
    assert((end - start) * 0 == 0);
    assert(trunc_div((end - start) * 1_000_000, 1_000_000) == end - start);
}

/// A channel blended at a fraction between zero and one lies between its two ends.
pub proof fn lemma_lerp_between(start: int, end: int, t: int)
    requires
        i64::MIN <= start <= i64::MAX,
        i64::MIN <= end <= i64::MAX,
        0 <= t <= ONE,
    ensures
        start <= end ==> start <= lerp(start, end, t) <= end,
        end <= start ==> end <= lerp(start, end, t) <= start,
{
    let d = end - start;
    assert(d >= 0 ==> 0 <= d * t <= d * 1_000_000) by (nonlinear_arith)
        requires
            0 <= t <= 1_000_000,
    ;
    assert(d <= 0 ==> d * 1_000_000 <= d * t <= 0) by (nonlinear_arith)
        requires
            0 <= t <= 1_000_000,
    ;
}

/// A channel blended at the fraction `t` is short of `end` by the share
/// `1 - t` of the whole way, give or take one step: the nearer the
/// fraction is to one, the nearer the blend is to `end`.
pub proof fn lemma_lerp_distance(start: int, end: int, t: int)
    requires
        i64::MIN <= start <= i64::MAX,
        i64::MIN <= end <= i64::MAX,
        0 <= t <= ONE,
    ensures
        start <= end ==> 0 <= (end - lerp(start, end, t)) * ONE < (end - start) * (ONE - t) + ONE,
        end <= start ==> 0 <= (lerp(start, end, t) - end) * ONE < (start - end) * (ONE - t) + ONE,
{
    lemma_lerp_between(start, end, t);
    let d = if start <= end {
        end - start
    } else {
        start - end
    };
    let q = (d * t) / 1_000_000;
    assert(0 <= d * t) by (nonlinear_arith)
        requires
            0 <= d,
            0 <= t,
    ;
    assert(d * (1_000_000 - t) == d * 1_000_000 - d * t) by (nonlinear_arith);
    assert(q * 1_000_000 <= d * t < q * 1_000_000 + 1_000_000);
    if start <= end {
        assert(trunc_div((end - start) * t, 1_000_000) == q);
    } else {
        assert((end - start) * t == -(d * t)) by (nonlinear_arith)
            requires
                d == start - end,
        ;
        assert(trunc_div((end - start) * t, 1_000_000) == -q);
    }
}

fn lerp_channel(start: i64, end: i64, t: i64) -> (r: i64)
    ensures
        r == lerp(start as int, end as int, t as int),
{
    let step = mul_div(end as i128 - start as i128, t, ONE as i128);
    proof {
        crate::fixed::lemma_trunc_div_bounds((end - start) * t, ONE as int);
        crate::fixed::lemma_product_bound(
            end - start,
            t as int,
            0xffff_ffff_ffff_ffff,
            0x8000_0000_0000_0000,
        );
    }
    saturating(start as i128 + step)
}

/// Blends two colours channel by channel: `start` at `t == 0`, `end` at `t == ONE`.
pub fn color_lerp(start: &Srgba, end: &Srgba, t: i64) -> (c: Srgba)
    ensures
        c == color_lerp_spec(*start, *end, t as int),
{
    Srgba {
        red: lerp_channel(start.red, end.red, t),
        green: lerp_channel(start.green, end.green, t),
        blue: lerp_channel(start.blue, end.blue, t),
        alpha: lerp_channel(start.alpha, end.alpha, t),
    }
}

} // verus!
