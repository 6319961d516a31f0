//! Random draws. Every draw comes from the thread-local generator of `rand`;
//! the functions here state what holds of every value that can come back.
use vstd::prelude::*;
use crate::fixed::{Fixed, SCALE};

verus! {

/// Relies on rand::Rng::gen_range (on rand::thread_rng): for a non-empty
/// range `0..bound` it returns a value in that range.
#[verifier::external_body]
fn random_below(bound: i64) -> (r: i64)
    requires
        0 < bound,
    ensures
        0 <= r < bound,
{
    rand::Rng::gen_range(&mut rand::thread_rng(), 0..bound)
}

/// Whether `u` can come out of `random_fraction`: a multiple of the
/// resolution in `[0, 1)`.
pub open spec fn is_fraction(u: Fixed) -> bool {
    0 <= u@ < SCALE
}

/// A uniformly drawn value in `[0, 1)`.
pub fn random_fraction() -> (r: Fixed)
    ensures
        is_fraction(r),
{
    Fixed { raw: random_below(SCALE) }
}

/// The point at fraction `u` of the way from `min` to `max`.
pub open spec fn lerp(min: Fixed, max: Fixed, u: Fixed) -> Fixed {
    min.plus(max.minus(min).times(u))
}

/// `min + (max - min) * u` for a uniformly drawn `u` in `[0, 1)`.
pub fn random_range(min: Fixed, max: Fixed) -> (r: Fixed)
    ensures
        exists|u: Fixed| is_fraction(u) && r == lerp(min, max, u),
{
    let u = random_fraction();
    min + (max - min) * u
}

} // verus!
