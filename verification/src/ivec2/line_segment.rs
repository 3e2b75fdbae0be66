//! Line segments between two points of the signed integer grid.

use vstd::prelude::*;
use crate::iters::line_iter::{line_points, LineDrawAlgo, LineIter};
use crate::iters::PixelIter;
use crate::point::{floor_sqrt, is_floor_sqrt, wrap_to_unsigned, IVec2};
use crate::uvec2::line_segment::LineSegment as LineSegmentUVec2;

verus! {

/// A line segment from `start` to `end`, both ends included. A segment whose
/// ends coincide is a single point.
#[derive(Debug, Copy, Clone, PartialEq, Eq, Structural)]
pub struct LineSegment {
    pub start: IVec2,
    pub end: IVec2,
}

impl LineSegment {
    /// The square of the distance between the two ends.
    pub open spec fn length_squared(&self) -> int {
        (self.end.x - self.start.x) * (self.end.x - self.start.x) + (self.end.y - self.start.y) * (
        self.end.y - self.start.y)
    }

    pub fn new(start: IVec2, end: IVec2) -> (ls: LineSegment)
        ensures
            ls.start == start,
            ls.end == end,
    {
        LineSegment { start, end }
    }

    /// The segment that starts at `start` and runs `length` times `dir`.
    pub fn new_from_length(start: IVec2, dir: IVec2, length: i32) -> (ls: LineSegment)
        requires
            i32::MIN <= dir.x * length <= i32::MAX,
            i32::MIN <= dir.y * length <= i32::MAX,
            i32::MIN <= start.x + dir.x * length <= i32::MAX,
            i32::MIN <= start.y + dir.y * length <= i32::MAX,
        ensures
            ls.start == start,
            ls.end.x == start.x + dir.x * length,
            ls.end.y == start.y + dir.y * length,
    {
        LineSegment {
            start,
            end: IVec2::new(start.x + dir.x * length, start.y + dir.y * length),
        }
    }

    /// The pixels of the segment as `draw_mode` draws them, from `start` to
    /// `end`, one per call of `next`.
    pub fn pixel_iter(&self, draw_mode: LineDrawAlgo) -> (it: LineIter)
        ensures
            it.wf(),
            it.remaining() == line_points(self.start@, self.end@, draw_mode),
    {
        LineIter::new_from_segment(*self, draw_mode)
    }

    /// The length of the segment: the distance between its ends rounded
    /// down, or the largest `i32` where that is smaller.
    pub fn length(&self) -> (len: i32)
        ensures
            is_floor_sqrt(len as int, self.length_squared()) || (len == i32::MAX && len * len
                <= self.length_squared()),
    {
        let dx: i128 = self.end.x as i128 - self.start.x as i128;
        let dy: i128 = self.end.y as i128 - self.start.y as i128;
        assert(0 <= dx * dx <= 0x1_0000_0000 * 0x1_0000_0000) by (nonlinear_arith)
            requires
                -0x1_0000_0000 <= dx <= 0x1_0000_0000,
        ;
        assert(0 <= dy * dy <= 0x1_0000_0000 * 0x1_0000_0000) by (nonlinear_arith)
            requires
                -0x1_0000_0000 <= dy <= 0x1_0000_0000,
        ;
        let root = floor_sqrt((dx * dx + dy * dy) as u128);
        if root >= 0x7fff_ffff {
            assert(0x7fff_ffff * 0x7fff_ffff <= root * root) by (nonlinear_arith)
                requires
                    0x7fff_ffff <= root,
            ;
            i32::MAX
        } else {
            root as i32
        }
    }

    /// The segment with the coordinates of both ends read as unsigned:
    /// negative ones wrap around.
    pub fn as_uvec2(&self) -> (ls: LineSegmentUVec2)
        ensures
            ls.start.x == wrap_to_unsigned(self.start.x as int),
            ls.start.y == wrap_to_unsigned(self.start.y as int),
            ls.end.x == wrap_to_unsigned(self.end.x as int),
            ls.end.y == wrap_to_unsigned(self.end.y as int),
    {
        LineSegmentUVec2 { start: self.start.as_uvec2(), end: self.end.as_uvec2() }
    }
}

impl Default for LineSegment {
    fn default() -> (ls: LineSegment)
        ensures
            ls.start@ == (0int, 0int),
            ls.end@ == (0int, 0int),
    {
        LineSegment { start: IVec2::splat(0), end: IVec2::splat(0) }
    }
}

} // verus!
