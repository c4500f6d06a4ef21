//! The decisions of a small stochastic path tracer over spheres.
//!
//! The radiance estimate itself is floating-point work (vector algebra, square
//! roots, random scatter directions); the verified part here is what that work
//! hands its decisions to:
//!
//! - `sphere`: which root of the ray–sphere quadratic is the hit, with the
//!   exact-arithmetic facts that an origin inside always hits and that a ray
//!   aimed at the center hits at the distance less the radius;
//! - `nearest`: the nearest hit of a ray among all geometries;
//! - `transport`: the depth-bounded course of one path sample (background,
//!   emitter, or a diffuse bounce), with the fact that every path ends;
//! - `raster`: the order in which pixels are rendered and the assembly of
//!   their 8-bit colors into an image buffer of the `image` crate.
use vstd::prelude::*;

pub mod nearest;
pub mod raster;
pub mod sphere;
pub mod transport;

verus! {

} // verus!
