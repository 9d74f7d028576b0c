//! Verified core of a small ray tracer: image texel lookup, the Perlin
//! permutation lattice, checker-cell parity and raster indexing.
//! Everything that computes with floating-point numbers lives in the
//! application crate around this library.

pub mod rtweekend;
pub mod rtw_image;
pub mod perlin;
pub mod texture;
pub mod camera;
pub mod color;
