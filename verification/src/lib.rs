//! A Whitted-style recursive ray tracer over fixed-point arithmetic.
//!
//! Every scalar is an `i64` holding its value times [`fixed::SCALE`], so the
//! whole rendering pipeline — camera ray generation, ray/primitive
//! intersection, nearest-hit selection, recursive shading with reflection,
//! refraction and Fresnel blending, and shadow determination — is exact
//! integer arithmetic with verified contracts. Conversion to and from
//! floating point, gamma encoding and image encoding live outside this crate.

pub mod fixed;
pub mod light;
pub mod plane;
pub mod primitives;
pub mod ray;
pub mod scene;
pub mod sphere;
pub mod vector;
