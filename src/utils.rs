//! Angles and random draws.

use vstd::prelude::*;
use crate::fixed::{fdiv, fixed_div, fixed_mul, fmul, SCALE};

pub use crate::color::{gamma_correct, to_rgb};
pub use crate::interval::Interval;
pub use crate::ray::Ray;
pub use crate::vec3::{rand_in_unit_disk, rand_in_unit_sphere, random_on_hemisphere, Color, Point, Vec3};

verus! {

/// π in fixed point.
pub const PI: i64 = 3_141_592_654;

/// An angle in degrees, in radians.
pub fn deg_to_rad(deg: i64) -> (r: i64)
    ensures
        r == fdiv(fmul(deg as int, PI as int), 180 * SCALE),
{
    fixed_div(fixed_mul(deg, PI), 180 * SCALE)
}

/// Relies on `rand::Rng::gen_range` over `rand::thread_rng()`: a value drawn
/// from `[lo, hi)`; it panics on an empty range.
#[verifier::external_body]
pub fn rand_from_range(lo: i64, hi: i64) -> (r: i64)
    requires
        lo < hi,
    ensures
        lo <= r < hi,
{
    rand::Rng::gen_range(&mut rand::thread_rng(), lo..hi)
}

/// A scalar drawn from `[0, 1)`.
pub fn rand_float() -> (r: i64)
    ensures
        0 <= r < SCALE,
{
    rand_from_range(0, SCALE)
}

} // verus!
