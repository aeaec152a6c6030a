//! Geometric core of an offline renderer: ray/plane intersection, nearest-hit
//! aggregation over a scene, and a tracer that turns the winning hit into a
//! pixel color.
//!
//! All coordinates are exact rationals held as integer numerators over a
//! positive denominator, so every geometric statement in the contracts is
//! exact; unit-length normals are produced by an integer square root and are
//! unit up to a stated tolerance.

pub mod color;
pub mod common;
pub mod ratio;
pub mod ray;
pub mod shade_record;
pub mod shape;
pub mod tracer;
pub mod vector3;
pub mod world;
