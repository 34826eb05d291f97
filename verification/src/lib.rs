//! Exact-arithmetic core of a small ray tracer.
//!
//! Geometry is composed under chained affine transforms (translate, scale,
//! rotate) and queried with ray intersections against the unit sphere.  All
//! scalars are exact rationals over 64-bit integers, so every algebraic claim
//! here is proved exactly rather than up to rounding.

pub mod matrix;
pub mod rat;
pub mod render;
pub mod transform;
pub mod vector;
