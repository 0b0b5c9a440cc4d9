//! A character-cell renderer for a rotating solid cube.
//!
//! The library models 3D points in signed fixed-point arithmetic, rotates the
//! six faces of a cube about the coordinate axes, scan-converts them into a
//! supersampled palette buffer by a point-in-convex-polygon test, and collapses
//! each 2x2 sample block into one block-drawing glyph with a 16-color text
//! attribute. The animation state that throttles the rotation is carried as an
//! explicit value. Everything here is integer arithmetic; the surrounding
//! program supplies sine and cosine values in fixed point and owns the display
//! hardware.

pub mod anim;
pub mod geometry;
pub mod quant;
pub mod raster;

use vstd::prelude::*;

verus! {

} // verus!
