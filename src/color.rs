//! From linear colours to the channel values of an image.

use vstd::prelude::*;
use crate::fixed::{fixed_sqrt, fsqrt, SCALE};
use crate::interval::Interval;
use crate::vec3::Color;

verus! {

/// Largest channel intensity before scaling: `0.999`.
pub const INTENSITY_MAX: i64 = 999_000_000;

/// Channel values run from zero to this, exclusive.
pub const CHANNEL_SCALE: i64 = 256;

/// Gamma 2 encoding of a linear value; zero for values that are not positive.
pub open spec fn gamma(linear: int) -> int {
    if linear > 0 {
        fsqrt(linear)
    } else {
        0
    }
}

/// The channel value of a linear intensity: `⌊256 · clamp(√c, 0, 0.999)⌋`.
pub open spec fn channel(c: int) -> int {
    CHANNEL_SCALE * Interval { min: 0, max: INTENSITY_MAX }.clamped(gamma(c)) / SCALE as int
}

pub fn gamma_correct(linear: i64) -> (r: i64)
    ensures
        r == gamma(linear as int),
{
    if linear > 0 {
        return fixed_sqrt(linear);
    }
    0
}

/// The channel value of one component.
pub fn to_channel(c: i64) -> (r: u32)
    ensures
        r == channel(c as int),
        r < 256,
{
    let intensity = Interval::new(0, INTENSITY_MAX);
    let g = intensity.clamp(gamma_correct(c));
    ((CHANNEL_SCALE * g) / SCALE) as u32
}

/// The red, green and blue channel values of a colour.
pub fn to_rgb(color: Color<i64>) -> (r: [u32; 3])
    ensures
        r@ == seq![
            channel(color.x as int) as u32,
            channel(color.y as int) as u32,
            channel(color.z as int) as u32,
        ],
{
    [to_channel(color.x), to_channel(color.y), to_channel(color.z)]
}

} // verus!
