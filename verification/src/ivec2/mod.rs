//! Shapes with signed integer coordinates.

pub mod circle;
pub mod line_segment;
pub mod rectangle;

pub use circle::Circle;
pub use line_segment::LineSegment;
pub use rectangle::Rectangle;
pub use crate::iters::line_iter::{LineDrawAlgo, LineIter};
