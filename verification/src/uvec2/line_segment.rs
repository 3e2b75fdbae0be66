//! Line segments between two points of the unsigned integer grid.

use vstd::prelude::*;
use crate::iters::line_iter::{line_points, LineDrawAlgo, LineIter};
use crate::iters::PixelIter;
use crate::ivec2::line_segment::LineSegment as LineSegmentIVec2;
use crate::point::{floor_sqrt, is_floor_sqrt, wrap_to_signed, UVec2};

verus! {

/// A line segment from `start` to `end`, both ends included. A segment whose
/// ends coincide is a single point.
#[derive(Debug, Copy, Clone, PartialEq, Eq, Structural)]
pub struct LineSegment {
    pub start: UVec2,
    pub end: UVec2,
}

impl LineSegment {
    /// The square of the distance between the two ends.
    pub open spec fn length_squared(&self) -> int {
        (self.end.x - self.start.x) * (self.end.x - self.start.x) + (self.end.y - self.start.y) * (
        self.end.y - self.start.y)
    }

    /// The two ends with their coordinates read as signed.
    pub open spec fn as_ivec2_spec(&self) -> ((int, int), (int, int)) {
        (
            (wrap_to_signed(self.start.x as int), wrap_to_signed(self.start.y as int)),
            (wrap_to_signed(self.end.x as int), wrap_to_signed(self.end.y as int)),
        )
    }

    pub fn new(start: UVec2, end: UVec2) -> (ls: LineSegment)
        ensures
            ls.start == start,
            ls.end == end,
    {
        LineSegment { start, end }
    }

    /// The segment that starts at `start` and runs `length` times `dir`.
    pub fn new_from_length(start: UVec2, dir: UVec2, length: u32) -> (ls: LineSegment)
        requires
            dir.x * length <= u32::MAX,
            dir.y * length <= u32::MAX,
            start.x + dir.x * length <= u32::MAX,
            start.y + dir.y * length <= u32::MAX,
        ensures
            ls.start == start,
            ls.end.x == start.x + dir.x * length,
            ls.end.y == start.y + dir.y * length,
    {
        LineSegment {
            start,
            end: UVec2::new(start.x + dir.x * length, start.y + dir.y * length),
        }
    }

    /// The pixels of the segment as `draw_mode` draws them, from `start` to
    /// `end`, one per call of `next`. They are handed out as points of the
    /// signed grid, so both ends must lie on it.
    pub fn pixel_iter(&self, draw_mode: LineDrawAlgo) -> (it: LineIter)
        requires
            self.start.x <= i32::MAX,
            self.start.y <= i32::MAX,
            self.end.x <= i32::MAX,
            self.end.y <= i32::MAX,
        ensures
            it.wf(),
            it.remaining() == line_points(self.start@, self.end@, draw_mode),
    {
        let iseg = LineSegmentIVec2::new(self.start.as_ivec2(), self.end.as_ivec2());
        LineIter::new_from_segment(iseg, draw_mode)
    }

    /// The length of the segment: the distance between its ends rounded
    /// down, or the largest `u32` where that is smaller.
    pub fn length(&self) -> (len: u32)
        ensures
            is_floor_sqrt(len as int, self.length_squared()) || (len == u32::MAX && len * len
                <= self.length_squared()),
    {
        let dx: i128 = self.end.x as i128 - self.start.x as i128;
        let dy: i128 = self.end.y as i128 - self.start.y as i128;
        assert(0 <= dx * dx <= 0x1_0000_0000 * 0x1_0000_0000) by (nonlinear_arith)
            requires
                -0x1_0000_0000 <= dx <= 0x1_0000_0000,
        ;
        assert(0 <= dy * dy <= 0x1_0000_0000 * 0x1_0000_0000) by (nonlinear_arith)
            requires
                -0x1_0000_0000 <= dy <= 0x1_0000_0000,
        ;
        let root = floor_sqrt((dx * dx + dy * dy) as u128);
        if root >= 0xffff_ffff {
            assert(0xffff_ffff * 0xffff_ffff <= root * root) by (nonlinear_arith)
                requires
                    0xffff_ffff <= root,
            ;
            u32::MAX
        } else {
            root as u32
        }
    }

    /// The segment with the coordinates of both ends read as signed: those
    /// beyond the signed range wrap around.
    pub fn as_ivec2(&self) -> (ls: LineSegmentIVec2)
        ensures
            (ls.start@, ls.end@) == self.as_ivec2_spec(),
    {
        LineSegmentIVec2 { start: self.start.as_ivec2(), end: self.end.as_ivec2() }
    }
}

impl Default for LineSegment {
    fn default() -> (ls: LineSegment)
        ensures
            ls.start@ == (0int, 0int),
            ls.end@ == (0int, 0int),
    {
        LineSegment { start: UVec2::splat(0), end: UVec2::splat(0) }
    }
}

} // verus!
