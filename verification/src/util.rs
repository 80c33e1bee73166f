//! Random sampling: one trusted draw of raw bits, and verified mappings
//! into the ranges the tracer needs. Nothing is promised of a drawn value
//! beyond its range, so everything downstream holds for every outcome.

use vstd::prelude::*;

verus! {

use crate::fx::{Fx, FX_ONE, FX_HALF, FX_HUGE};
use crate::vec::{Vector3, Vec3i, vec_in};

/// Relies on rand::random: draws one machine word from the thread-local
/// generator. Nothing is promised of the value.
#[verifier::external_body]
fn random_word() -> u64 {
    rand::random::<u64>()
}

/// A scalar drawn from [min, max).
pub fn random_float(min: Fx, max: Fx) -> (r: Fx)
    requires
        -FX_HUGE <= min < max <= FX_HUGE,
    ensures
        min <= r < max,
{
    let span = max - min;
    let w = random_word();
    let offset = ((w as u128) % (span as u128)) as i128;
    min + offset
}

/// A scalar drawn from [0, 1).
pub fn random_unit_float() -> (r: Fx)
    ensures
        0 <= r < FX_ONE,
{
    random_float(0, FX_ONE)
}

/// A jitter offset drawn from [-0.5, 0.5) in x and y, with zero z.
pub fn sample_square() -> (r: Vector3)
    ensures
        -FX_HALF <= r@.x < FX_HALF,
        -FX_HALF <= r@.y < FX_HALF,
        r@.z == 0,
{
    Vector3::new(random_unit_float() - FX_HALF, random_unit_float() - FX_HALF, 0)
}

/// A color with each channel drawn from [min, max).
pub fn random_color_range(min: Fx, max: Fx) -> (r: Vector3)
    requires
        0 <= min < max <= FX_ONE,
    ensures
        min <= r@.x < max,
        min <= r@.y < max,
        min <= r@.z < max,
        crate::material::color01(r@),
{
    Vector3::new(random_float(min, max), random_float(min, max), random_float(min, max))
}

/// A color with each channel drawn from [0, 1).
pub fn random_color() -> (r: Vector3)
    ensures
        crate::material::color01(r@),
{
    random_color_range(0, FX_ONE)
}

} // verus!
