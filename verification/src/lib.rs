//! A path-tracing renderer with a verified core.
//!
//! The scene intersection subsystem — exact ray/primitive intersection
//! math under a bounding volume hierarchy — and the Monte Carlo integrator
//! that drives it are written over Q.16 fixed-point scalars, so every
//! arithmetic step has an exact integer contract. Randomness enters through
//! one trusted draw of raw bits; everything downstream is specified for
//! every possible outcome of that draw.

pub mod fx;
pub mod vec;
pub mod material;
pub mod ray;
pub mod aabb;
pub mod sphere;
pub mod quad;
pub mod bvh;
pub mod mesh;
pub mod world;
pub mod util;
pub mod camera;

use vstd::prelude::*;

verus! {

} // verus!
