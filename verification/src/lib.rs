//! Incremental rasterization of ellipse outlines and orthogonal grid walks.
//!
//! Every producer is a small integer state machine: it is created fully
//! initialized from its parameters and hands out one pixel per pull until it
//! is exhausted.  No floating point, trigonometry or square roots are used;
//! all decisions are made with incremental integer arithmetic.

use vstd::prelude::*;

pub mod bresenham_ellipse;
pub mod grid_path;
pub mod grid_walking;
pub mod midpoint_ellipse;

verus! {

/// A lattice point: an ordered pair (x, y) with value equality only.
pub type Point = (i64, i64);

} // verus!
