//! Exact pixel coverage of rectangles, circles and line segments on the
//! integer grid.
//!
//! Every shape enumerates the grid points it covers through a small state
//! machine with a `next` method. Each state has a ghost view, `remaining`, the
//! points that are still to come, and each `next` is proved to hand out the
//! head of that view and to leave its tail.

use vstd::prelude::*;

pub mod iters;
pub mod ivec2;
pub mod model;
pub mod point;
pub mod shape;
pub mod uvec2;

pub use iters::circle_iter::CirclePoints;
pub use iters::common::Scanline;
pub use iters::line_iter::{LineDrawAlgo, LineIter};
pub use iters::rect_iter::{RectangleOutlinePixels, RectanglePixels};
pub use iters::{collect_pixels, PixelIter};
pub use point::{I64Vec2, IVec2, UVec2};
pub use shape::Shape;

verus! {

/// The circle on the signed grid.
pub type CircleIVec2 = ivec2::circle::Circle;

/// The circle on the unsigned grid.
pub type CircleUVec2 = uvec2::circle::Circle;

/// The rectangle on the signed grid.
pub type RectangleIVec2 = ivec2::rectangle::Rectangle;

/// The rectangle on the unsigned grid.
pub type RectangleUVec2 = uvec2::rectangle::Rectangle;

} // verus!
