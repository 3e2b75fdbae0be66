//! Axis-aligned rectangles on the unsigned integer grid.

use vstd::prelude::*;
use core::ops::Range;
use crate::iters::rect_iter::RectanglePixels;
use crate::iters::PixelIter;
use crate::ivec2::rectangle::Rectangle as RectangleIVec2;
use crate::model::grid::{lemma_zero_sized_rect_is_empty, rect_pixels};
use crate::point::{max_int, min_int, within_signed, wrap_to_signed, IVec2, UVec2};

verus! {

/// An axis-aligned rectangle between its top left corner `tl` and its bottom
/// right corner `br`.
///
/// As a set of pixels it holds the columns from `tl.x` up to, not including,
/// `br.x` and the rows from `tl.y` up to, not including, `br.y`; as a region
/// for point tests it includes both corners.
#[derive(Debug, Copy, Clone, PartialEq, Eq, Structural)]
pub struct Rectangle {
    pub tl: UVec2,
    pub br: UVec2,
}

impl Rectangle {
    /// Whether the corners are in order: `tl` is not right of and not below
    /// `br`.
    pub open spec fn wf(&self) -> bool {
        self.tl.x <= self.br.x && self.tl.y <= self.br.y
    }

    /// The number of columns, negative where the corners are out of order.
    pub open spec fn width(&self) -> int {
        self.br.x - self.tl.x
    }

    /// The number of rows, negative where the corners are out of order.
    pub open spec fn height(&self) -> int {
        self.br.y - self.tl.y
    }

    /// Whether `p` lies in the region between the corners, both included.
    pub open spec fn covers(&self, p: (int, int)) -> bool {
        self.tl.x <= p.0 <= self.br.x && self.tl.y <= p.1 <= self.br.y
    }

    /// The pixels of the rectangle in the order in which they are handed out:
    /// row after row, each from left to right. In outline mode the first and
    /// the last row are whole and each row between them shows its two ends.
    /// They are those of the rectangle on the signed grid between the same
    /// two corners.
    pub open spec fn pixels(&self, outline: bool) -> Seq<(int, int)> {
        rect_pixels(
            self.tl.x as int,
            self.br.x as int,
            self.tl.y as int,
            self.br.y as int,
            outline,
        )
    }

    /// The rectangle with the given corners, taken as they are.
    pub fn new_const(tl: UVec2, br: UVec2) -> (r: Rectangle)
        ensures
            r.tl == tl,
            r.br == br,
    {
        Rectangle { tl, br }
    }

    /// The rectangle from the origin to `size`.
    pub fn new_on_origin(size: UVec2) -> (r: Rectangle)
        ensures
            r.tl@ == (0int, 0int),
            r.br == size,
    {
        Rectangle { tl: UVec2::splat(0), br: size }
    }

    /// The rectangle between two opposite corners, in whatever order they
    /// are given.
    pub fn new(tl: UVec2, br: UVec2) -> (r: Rectangle)
        ensures
            r.wf(),
            r.tl.x == min_int(tl.x as int, br.x as int),
            r.tl.y == min_int(tl.y as int, br.y as int),
            r.br.x == max_int(tl.x as int, br.x as int),
            r.br.y == max_int(tl.y as int, br.y as int),
    {
        Rectangle { tl: tl.min(br), br: tl.max(br) }
    }

    /// The rectangle between `tl` and `br` cut down to `limits`: no corner
    /// lies left of or above `limits.tl`, nor right of or below `limits.br`.
    pub fn new_with_limits(tl: UVec2, br: UVec2, limits: Rectangle) -> (r: Rectangle)
        ensures
            r.tl.x == max_int(tl.x as int, limits.tl.x as int),
            r.tl.y == max_int(tl.y as int, limits.tl.y as int),
            r.br.x == min_int(br.x as int, limits.br.x as int),
            r.br.y == min_int(br.y as int, limits.br.y as int),
    {
        let mut new_tl = tl;
        if tl.x < limits.tl.x {
            new_tl.x = limits.tl.x;
        }
        if tl.y < limits.tl.y {
            new_tl.y = limits.tl.y;
        }
        let mut new_br = br;
        if br.x > limits.br.x {
            new_br.x = limits.br.x;
        }
        if br.y > limits.br.y {
            new_br.y = limits.br.y;
        }
        Rectangle { tl: new_tl, br: new_br }
    }

    /// The smallest rectangle whose region holds every one of `points`.
    /// Without points it is the rectangle from the largest to the smallest
    /// coordinates, which `add_point` can grow from.
    pub fn from_points(points: Vec<UVec2>) -> (r: Rectangle)
        ensures
            forall|i: int| 0 <= i < points@.len() ==> r.covers(#[trigger] points@[i]@),
            points@.len() > 0 ==> ({
                &&& exists|i: int| 0 <= i < points@.len() && #[trigger] points@[i].x == r.tl.x
                &&& exists|i: int| 0 <= i < points@.len() && #[trigger] points@[i].y == r.tl.y
                &&& exists|i: int| 0 <= i < points@.len() && #[trigger] points@[i].x == r.br.x
                &&& exists|i: int| 0 <= i < points@.len() && #[trigger] points@[i].y == r.br.y
            }),
            points@.len() == 0 ==> ({
                &&& r.tl@ == (u32::MAX as int, u32::MAX as int)
                &&& r.br@ == (0int, 0int)
            }),
    {
        let mut tl = UVec2::new(u32::MAX, u32::MAX);
        let mut br = UVec2::new(u32::MIN, u32::MIN);
        let mut n: usize = 0;
        while n < points.len()
            invariant
                n <= points@.len(),
                forall|i: int|
                    0 <= i < n ==> (Rectangle { tl, br }).covers(#[trigger] points@[i]@),
                n > 0 ==> {
                    &&& exists|i: int| 0 <= i < n && #[trigger] points@[i].x == tl.x
                    &&& exists|i: int| 0 <= i < n && #[trigger] points@[i].y == tl.y
                    &&& exists|i: int| 0 <= i < n && #[trigger] points@[i].x == br.x
                    &&& exists|i: int| 0 <= i < n && #[trigger] points@[i].y == br.y
                },
                n == 0 ==> {
                    &&& tl@ == (u32::MAX as int, u32::MAX as int)
                    &&& br@ == (0int, 0int)
                },
            decreases points@.len() - n,
        {
            let point = points[n];
            proof {
                if n > 0 {
                    let a = choose|i: int| 0 <= i < n && #[trigger] points@[i].x == tl.x;
                    let b = choose|i: int| 0 <= i < n && #[trigger] points@[i].y == tl.y;
                    let c = choose|i: int| 0 <= i < n && #[trigger] points@[i].x == br.x;
                    let d = choose|i: int| 0 <= i < n && #[trigger] points@[i].y == br.y;
                    assert(points@[a].x == tl.x && points@[b].y == tl.y);
                    assert(points@[c].x == br.x && points@[d].y == br.y);
                }
                assert(points@[n as int] == point);
            }
            tl = tl.min(point);
            br = br.max(point);
            n = n + 1;
        }
        Rectangle { tl, br }
    }

    /// Whether both corners lie on the origin.
    pub fn is_zeroed(&self) -> (b: bool)
        ensures
            b <==> self.tl@ == (0int, 0int) && self.br@ == (0int, 0int),
    {
        self.tl.x == 0 && self.tl.y == 0 && self.br.x == 0 && self.br.y == 0
    }

    /// Grows the rectangle so that its region holds `point`.
    pub fn add_point(&mut self, point: UVec2)
        ensures
            final(self).tl.x == min_int(old(self).tl.x as int, point.x as int),
            final(self).tl.y == min_int(old(self).tl.y as int, point.y as int),
            final(self).br.x == max_int(old(self).br.x as int, point.x as int),
            final(self).br.y == max_int(old(self).br.y as int, point.y as int),
    {
        self.tl = self.tl.min(point);
        self.br = self.br.max(point);
    }

    /// The top left corner.
    pub fn tl(&self) -> (p: UVec2)
        ensures
            p == self.tl,
    {
        self.tl
    }

    /// The top right corner.
    pub fn tr(&self) -> (p: UVec2)
        ensures
            p.x == self.br.x,
            p.y == self.tl.y,
    {
        UVec2::new(self.br.x, self.tl.y)
    }

    /// The bottom right corner.
    pub fn br(&self) -> (p: UVec2)
        ensures
            p == self.br,
    {
        self.br
    }

    /// The bottom left corner.
    pub fn bl(&self) -> (p: UVec2)
        ensures
            p.x == self.tl.x,
            p.y == self.br.y,
    {
        UVec2::new(self.tl.x, self.br.y)
    }

    /// Width and height, of a rectangle whose corners are in order.
    pub fn size(&self) -> (s: UVec2)
        requires
            self.wf(),
        ensures
            s.x == self.width(),
            s.y == self.height(),
    {
        UVec2::new(self.br.x - self.tl.x, self.br.y - self.tl.y)
    }

    /// The position of the rectangle: its top left corner.
    pub fn position(&self) -> (p: UVec2)
        ensures
            p == self.tl,
    {
        self.tl
    }

    /// Whether `coord` lies between the corners, both corners included.
    pub fn contains(&self, coord: UVec2) -> (b: bool)
        ensures
            b == self.covers(coord@),
    {
        self.tl.x <= coord.x && self.tl.y <= coord.y && self.br.x >= coord.x && self.br.y
            >= coord.y
    }

    /// Whether the two rectangles share inner area. Rectangles that only
    /// touch along an edge do not overlap.
    pub fn overlaps(&self, other: &Rectangle) -> (b: bool)
        ensures
            b <==> self.tl.x < other.br.x && self.br.x > other.tl.x && self.tl.y < other.br.y
                && self.br.y > other.tl.y,
    {
        self.tl.x < other.br.x && self.br.x > other.tl.x && self.tl.y < other.br.y && self.br.y
            > other.tl.y
    }

    /// The rows of the rectangle: from `tl.y` up to, not including, `br.y`.
    pub fn rows(&self) -> (r: Range<u32>)
        ensures
            r.start == self.tl.y,
            r.end == self.br.y,
    {
        self.tl.y..self.br.y
    }

    /// The rows that the rectangle shares with `limit`, or all of its rows
    /// where there is no limit.
    pub fn rows_limited(&self, limit: &Option<Rectangle>) -> (r: Range<u32>)
        ensures
            (match *limit {
                Some(l) => r.start == max_int(self.tl.y as int, l.tl.y as int) && r.end == min_int(
                    self.br.y as int,
                    l.br.y as int,
                ),
                None => r.start == self.tl.y && r.end == self.br.y,
            }),
    {
        if let Some(limit) = limit {
            let start = if self.tl.y >= limit.tl.y { self.tl.y } else { limit.tl.y };
            let end = if self.br.y <= limit.br.y { self.br.y } else { limit.br.y };
            start..end
        } else {
            self.rows()
        }
    }

    /// The columns of the rectangle: from `tl.x` up to, not including,
    /// `br.x`.
    pub fn columns(&self) -> (r: Range<u32>)
        ensures
            r.start == self.tl.x,
            r.end == self.br.x,
    {
        self.tl.x..self.br.x
    }

    /// Whether the rectangle has no area: its width or its height is zero.
    pub fn is_zero_sized(&self) -> (b: bool)
        ensures
            b <==> self.width() == 0 || self.height() == 0,
    {
        self.br.y == self.tl.y || self.br.x == self.tl.x
    }

    /// The rectangle with the coordinates of both corners read as signed:
    /// those beyond the signed range wrap around.
    pub fn as_rectangle_ivec2(&self) -> (r: RectangleIVec2)
        ensures
            r.tl.x == wrap_to_signed(self.tl.x as int),
            r.tl.y == wrap_to_signed(self.tl.y as int),
            r.br.x == wrap_to_signed(self.br.x as int),
            r.br.y == wrap_to_signed(self.br.y as int),
    {
        RectangleIVec2 { tl: self.tl.as_ivec2(), br: self.br.as_ivec2() }
    }

    /// The pixels of the rectangle, one per call of `next`. They are handed
    /// out as points of the signed grid, so the rectangle must not reach
    /// beyond it.
    pub fn pixel_iter(&self, outline: bool) -> (it: RectanglePixels)
        requires
            self.br.x <= i32::MAX,
            self.br.y <= i32::MAX,
        ensures
            it.wf(),
            it.remaining() == self.pixels(outline),
    {
        let irect = RectangleIVec2 {
            tl: IVec2::new(within_signed(self.tl.x), within_signed(self.tl.y)),
            br: self.br.as_ivec2(),
        };
        proof {
            if self.tl.x > i32::MAX || self.tl.y > i32::MAX {
                lemma_zero_sized_rect_is_empty(
                    self.tl.x as int,
                    self.br.x as int,
                    self.tl.y as int,
                    self.br.y as int,
                    outline,
                );
                lemma_zero_sized_rect_is_empty(
                    irect.tl.x as int,
                    irect.br.x as int,
                    irect.tl.y as int,
                    irect.br.y as int,
                    outline,
                );
                assert(irect.pixels(outline) =~= self.pixels(outline));
            }
        }
        RectanglePixels::new(&irect, outline)
    }
}

impl Default for Rectangle {
    fn default() -> (r: Rectangle)
        ensures
            r.tl@ == (0int, 0int),
            r.br@ == (0int, 0int),
    {
        Rectangle { tl: UVec2::splat(0), br: UVec2::splat(0) }
    }
}

} // verus!
