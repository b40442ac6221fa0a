//! The source of chance.
use vstd::prelude::*;
use crate::fixed::ONE;

verus! {

/// Draws a number through `nannou::rand::random_range`, which samples the
/// thread's generator over the half-open range from the smaller of its two
/// arguments up to, and without, the larger. Equal bounds leave nothing to
/// draw from and are not admitted.
#[verifier::external_body]
pub(crate) fn random_range(min: i64, max: i64) -> (r: i64)
    requires
        min != max,
    ensures
        min < max ==> min <= r < max,
        max < min ==> max <= r < min,
{
    nannou::rand::random_range(min, max)
}

/// Draws a fraction of a unit: at least zero and less than one.
pub(crate) fn random_unit() -> (r: i64)
    ensures
        0 <= r < ONE,
{
    random_range(0, ONE)
}

} // verus!
