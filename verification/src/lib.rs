//! A verified Mandelbrot-set renderer.
//!
//! Every pixel of an output grid is mapped to a point of the complex plane
//! and run through the bounded escape-time test; the iteration count becomes
//! a greyscale intensity. All arithmetic is Q39.24 fixed point on `i64`
//! (24 fractional bits), so the whole computation is integer arithmetic and
//! is verified end to end; encoding the finished buffer to an image file is
//! left to unverified callers.

pub mod buffer;
pub mod escape;
pub mod fixed;
pub mod render;
pub mod viewport;

use vstd::prelude::*;

verus! {

} // verus!
