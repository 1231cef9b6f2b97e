//! The exact, non-floating-point core of a stochastic ray tracer: axis
//! naming for planar primitives, the faces and corners of boxes, the split of
//! a BVH node's objects, render configuration and pixel jobs, the
//! progressive sampling schedule and its per-pass bookkeeping, Perlin lattice
//! permutations, and byte-level image textures.

pub mod axis;
pub mod boxes;
pub mod bvh;
pub mod config;
pub mod image_texture;
pub mod perlin;
pub mod progressive;
pub mod ramp;
