//! Axis-aligned rectangles on the signed integer grid.

use vstd::prelude::*;
use core::ops::Range;
use crate::iters::rect_iter::RectanglePixels;
use crate::iters::PixelIter;
use crate::model::grid::{
    lemma_filled_rect, lemma_filled_rect_covers, lemma_filled_rect_distinct,
    lemma_outline_inner_row_at, lemma_outline_len, lemma_rect_rows_in_order,
    lemma_thin_outline_is_filled, lemma_zero_sized_rect_is_empty, rect_pixels, row_major_less,
};
use crate::point::{max_int, min_int, wrap_to_unsigned, IVec2};
use crate::uvec2::rectangle::Rectangle as RectangleUVec2;

verus! {

/// An axis-aligned rectangle between its top left corner `tl` and its bottom
/// right corner `br`.
///
/// As a set of pixels it holds the columns from `tl.x` up to, not including,
/// `br.x` and the rows from `tl.y` up to, not including, `br.y`; as a region
/// for point tests it includes both corners.
#[derive(Debug, Copy, Clone, PartialEq, Eq, Structural)]
pub struct Rectangle {
    pub tl: IVec2,
    pub br: IVec2,
}

impl Rectangle {
    /// Whether the corners are in order: `tl` is not right of and not below
    /// `br`.
    pub open spec fn wf(&self) -> bool {
        self.tl.x <= self.br.x && self.tl.y <= self.br.y
    }

    /// The number of columns, negative where the corners are out of order.
    pub open spec fn width(&self) -> int {
        self.br.x - self.tl.x
    }

    /// The number of rows, negative where the corners are out of order.
    pub open spec fn height(&self) -> int {
        self.br.y - self.tl.y
    }

    /// Whether `p` lies in the region between the corners, both included.
    pub open spec fn covers(&self, p: (int, int)) -> bool {
        self.tl.x <= p.0 <= self.br.x && self.tl.y <= p.1 <= self.br.y
    }

    /// The pixels of the rectangle in the order in which they are handed out:
    /// row after row, each from left to right. In outline mode the first and
    /// the last row are whole and each row between them shows its two ends.
    pub open spec fn pixels(&self, outline: bool) -> Seq<(int, int)> {
        rect_pixels(
            self.tl.x as int,
            self.br.x as int,
            self.tl.y as int,
            self.br.y as int,
            outline,
        )
    }

    /// The place of the inner row `y` in the outline of a rectangle that is
    /// more than two columns wide: behind the first row and two places for
    /// each inner row above it.
    pub open spec fn outline_place(&self, y: int) -> int {
        self.width() + 2 * (y - self.tl.y - 1)
    }

    /// The rectangle with the given corners, taken as they are.
    pub fn new_const(tl: IVec2, br: IVec2) -> (r: Rectangle)
        ensures
            r.tl == tl,
            r.br == br,
    {
        Rectangle { tl, br }
    }

    /// The rectangle from the origin to `size`.
    pub fn new_on_origin(size: IVec2) -> (r: Rectangle)
        ensures
            r.tl@ == (0int, 0int),
            r.br == size,
    {
        Rectangle { tl: IVec2::splat(0), br: size }
    }

    /// The rectangle between two opposite corners, in whatever order they
    /// are given.
    pub fn new(tl: IVec2, br: IVec2) -> (r: Rectangle)
        ensures
            r.wf(),
            r.tl.x == min_int(tl.x as int, br.x as int),
            r.tl.y == min_int(tl.y as int, br.y as int),
            r.br.x == max_int(tl.x as int, br.x as int),
            r.br.y == max_int(tl.y as int, br.y as int),
    {
        Rectangle { tl: tl.min(br), br: tl.max(br) }
    }

    /// The rectangle between `tl` and `br` cut down to `limits`: no corner
    /// lies left of or above `limits.tl`, nor right of or below `limits.br`.
    pub fn new_with_limits(tl: IVec2, br: IVec2, limits: Rectangle) -> (r: Rectangle)
        ensures
            r.tl.x == max_int(tl.x as int, limits.tl.x as int),
            r.tl.y == max_int(tl.y as int, limits.tl.y as int),
            r.br.x == min_int(br.x as int, limits.br.x as int),
            r.br.y == min_int(br.y as int, limits.br.y as int),
    {
        let mut new_tl = tl;
        if tl.x < limits.tl.x {
            new_tl.x = limits.tl.x;
        }
        if tl.y < limits.tl.y {
            new_tl.y = limits.tl.y;
        }
        let mut new_br = br;
        if br.x > limits.br.x {
            new_br.x = limits.br.x;
        }
        if br.y > limits.br.y {
            new_br.y = limits.br.y;
        }
        Rectangle { tl: new_tl, br: new_br }
    }

    /// The smallest rectangle whose region holds every one of `points`.
    /// Without points it is the rectangle from the largest to the smallest
    /// coordinates, which `add_point` can grow from.
    pub fn from_points(points: Vec<IVec2>) -> (r: Rectangle)
        ensures
            forall|i: int| 0 <= i < points@.len() ==> r.covers(#[trigger] points@[i]@),
            points@.len() > 0 ==> ({
                &&& exists|i: int| 0 <= i < points@.len() && #[trigger] points@[i].x == r.tl.x
                &&& exists|i: int| 0 <= i < points@.len() && #[trigger] points@[i].y == r.tl.y
                &&& exists|i: int| 0 <= i < points@.len() && #[trigger] points@[i].x == r.br.x
                &&& exists|i: int| 0 <= i < points@.len() && #[trigger] points@[i].y == r.br.y
            }),
            points@.len() == 0 ==> ({
                &&& r.tl@ == (i32::MAX as int, i32::MAX as int)
                &&& r.br@ == (i32::MIN as int, i32::MIN as int)
            }),
    {
        let mut tl = IVec2::new(i32::MAX, i32::MAX);
        let mut br = IVec2::new(i32::MIN, i32::MIN);
        let mut n: usize = 0;
        while n < points.len()
            invariant
                n <= points@.len(),
                forall|i: int|
                    0 <= i < n ==> (Rectangle { tl, br }).covers(#[trigger] points@[i]@),
                n > 0 ==> {
                    &&& exists|i: int| 0 <= i < n && #[trigger] points@[i].x == tl.x
                    &&& exists|i: int| 0 <= i < n && #[trigger] points@[i].y == tl.y
                    &&& exists|i: int| 0 <= i < n && #[trigger] points@[i].x == br.x
                    &&& exists|i: int| 0 <= i < n && #[trigger] points@[i].y == br.y
                },
                n == 0 ==> {
                    &&& tl@ == (i32::MAX as int, i32::MAX as int)
                    &&& br@ == (i32::MIN as int, i32::MIN as int)
                },
            decreases points@.len() - n,
        {
            let point = points[n];
            proof {
                if n > 0 {
                    let a = choose|i: int| 0 <= i < n && #[trigger] points@[i].x == tl.x;
                    let b = choose|i: int| 0 <= i < n && #[trigger] points@[i].y == tl.y;
                    let c = choose|i: int| 0 <= i < n && #[trigger] points@[i].x == br.x;
                    let d = choose|i: int| 0 <= i < n && #[trigger] points@[i].y == br.y;
                    assert(points@[a].x == tl.x && points@[b].y == tl.y);
                    assert(points@[c].x == br.x && points@[d].y == br.y);
                }
                assert(points@[n as int] == point);
            }
            tl = tl.min(point);
            br = br.max(point);
            n = n + 1;
        }
        Rectangle { tl, br }
    }

    /// Whether both corners lie on the origin.
    pub fn is_zeroed(&self) -> (b: bool)
        ensures
            b <==> self.tl@ == (0int, 0int) && self.br@ == (0int, 0int),
    {
        self.tl.x == 0 && self.tl.y == 0 && self.br.x == 0 && self.br.y == 0
    }

    /// Grows the rectangle so that its region holds `point`.
    pub fn add_point(&mut self, point: IVec2)
        ensures
            final(self).tl.x == min_int(old(self).tl.x as int, point.x as int),
            final(self).tl.y == min_int(old(self).tl.y as int, point.y as int),
            final(self).br.x == max_int(old(self).br.x as int, point.x as int),
            final(self).br.y == max_int(old(self).br.y as int, point.y as int),
    {
        self.tl = self.tl.min(point);
        self.br = self.br.max(point);
    }

    /// The top left corner.
    pub fn tl(&self) -> (p: IVec2)
        ensures
            p == self.tl,
    {
        self.tl
    }

    /// The top right corner.
    pub fn tr(&self) -> (p: IVec2)
        ensures
            p.x == self.br.x,
            p.y == self.tl.y,
    {
        IVec2::new(self.br.x, self.tl.y)
    }

    /// The bottom right corner.
    pub fn br(&self) -> (p: IVec2)
        ensures
            p == self.br,
    {
        self.br
    }

    /// The bottom left corner.
    pub fn bl(&self) -> (p: IVec2)
        ensures
            p.x == self.tl.x,
            p.y == self.br.y,
    {
        IVec2::new(self.tl.x, self.br.y)
    }

    /// Width and height.
    pub fn size(&self) -> (s: IVec2)
        requires
            i32::MIN <= self.width() <= i32::MAX,
            i32::MIN <= self.height() <= i32::MAX,
        ensures
            s.x == self.width(),
            s.y == self.height(),
    {
        IVec2::new(self.br.x - self.tl.x, self.br.y - self.tl.y)
    }

    /// The position of the rectangle: its top left corner.
    pub fn position(&self) -> (p: IVec2)
        ensures
            p == self.tl,
    {
        self.tl
    }

    /// Whether `coord` lies between the corners, both corners included.
    pub fn contains(&self, coord: IVec2) -> (b: bool)
        ensures
            b == self.covers(coord@),
    {
        self.tl.x <= coord.x && self.tl.y <= coord.y && self.br.x >= coord.x && self.br.y
            >= coord.y
    }

    /// Whether the two rectangles share inner area. Rectangles that only
    /// touch along an edge do not overlap.
    pub fn overlaps(&self, other: &Rectangle) -> (b: bool)
        ensures
            b <==> self.tl.x < other.br.x && self.br.x > other.tl.x && self.tl.y < other.br.y
                && self.br.y > other.tl.y,
    {
        self.tl.x < other.br.x && self.br.x > other.tl.x && self.tl.y < other.br.y && self.br.y
            > other.tl.y
    }

    /// The rows of the rectangle: from `tl.y` up to, not including, `br.y`.
    pub fn rows(&self) -> (r: Range<i32>)
        ensures
            r.start == self.tl.y,
            r.end == self.br.y,
    {
        self.tl.y..self.br.y
    }

    /// The rows that the rectangle shares with `limit`, or all of its rows
    /// where there is no limit.
    pub fn rows_limited(&self, limit: &Option<Rectangle>) -> (r: Range<i32>)
        ensures
            (match *limit {
                Some(l) => r.start == max_int(self.tl.y as int, l.tl.y as int) && r.end == min_int(
                    self.br.y as int,
                    l.br.y as int,
                ),
                None => r.start == self.tl.y && r.end == self.br.y,
            }),
    {
        if let Some(limit) = limit {
            let start = if self.tl.y >= limit.tl.y { self.tl.y } else { limit.tl.y };
            let end = if self.br.y <= limit.br.y { self.br.y } else { limit.br.y };
            start..end
        } else {
            self.rows()
        }
    }

    /// The columns of the rectangle: from `tl.x` up to, not including,
    /// `br.x`.
    pub fn columns(&self) -> (r: Range<i32>)
        ensures
            r.start == self.tl.x,
            r.end == self.br.x,
    {
        self.tl.x..self.br.x
    }

    /// Whether the rectangle has no area: its width or its height is zero.
    pub fn is_zero_sized(&self) -> (b: bool)
        ensures
            b <==> self.width() == 0 || self.height() == 0,
    {
        self.br.y == self.tl.y || self.br.x == self.tl.x
    }

    /// The rectangle with the coordinates of both corners read as unsigned:
    /// negative ones wrap around.
    pub fn as_rectangle_uvec2(&self) -> (r: RectangleUVec2)
        ensures
            r.tl.x == wrap_to_unsigned(self.tl.x as int),
            r.tl.y == wrap_to_unsigned(self.tl.y as int),
            r.br.x == wrap_to_unsigned(self.br.x as int),
            r.br.y == wrap_to_unsigned(self.br.y as int),
    {
        RectangleUVec2 { tl: self.tl.as_uvec2(), br: self.br.as_uvec2() }
    }

    /// The pixels of the rectangle, one per call of `next`.
    pub fn pixel_iter(&self, outline: bool) -> (it: RectanglePixels)
        ensures
            it.wf(),
            it.remaining() == self.pixels(outline),
    {
        RectanglePixels::new(self, outline)
    }
}

/// The filled pixels of a rectangle of width `w > 0` and height `h > 0` are
/// `w * h` points, all different, all of them in the columns from `tl.x` up
/// to `br.x` and the rows from `tl.y` up to `br.y`, and every grid point
/// there is among them.
pub proof fn lemma_filled_pixels(r: Rectangle)
    requires
        r.width() > 0,
        r.height() > 0,
    ensures
        r.pixels(false).len() == r.width() * r.height(),
        forall|i: int, j: int|
            0 <= i < j < r.pixels(false).len() ==> #[trigger] r.pixels(false)[i]
                != #[trigger] r.pixels(false)[j],
        forall|i: int|
            0 <= i < r.pixels(false).len() ==> ({
                let p = #[trigger] r.pixels(false)[i];
                r.tl.x <= p.0 < r.br.x && r.tl.y <= p.1 < r.br.y
            }),
        forall|x: int, y: int|
            r.tl.x <= x < r.br.x && r.tl.y <= y < r.br.y ==> #[trigger] r.pixels(false).contains(
                (x, y),
            ),
{
    let (x0, x1, y0, y1) = (r.tl.x as int, r.br.x as int, r.tl.y as int, r.br.y as int);
    lemma_filled_rect(x0, x1, y0, y1);
    lemma_filled_rect_covers(x0, x1, y0, y1);
    assert forall|i: int, j: int| 0 <= i < j < r.pixels(false).len() implies #[trigger] r.pixels(
        false,
    )[i] != #[trigger] r.pixels(false)[j] by {
        lemma_filled_rect_distinct(x0, x1, y0, y1, i, j);
    }
}

/// The pixels of a rectangle, filled or outlined, come in row-major order:
/// each one lies in a row below the one before, or in the same row further
/// right. So none of them comes twice.
pub proof fn lemma_pixels_in_row_major_order(r: Rectangle, outline: bool, i: int, j: int)
    requires
        0 <= i < j < r.pixels(outline).len(),
    ensures
        row_major_less(r.pixels(outline)[i], r.pixels(outline)[j]),
        r.pixels(outline)[i] != r.pixels(outline)[j],
{
    lemma_rect_rows_in_order(
        r.tl.x as int,
        r.br.x as int,
        r.tl.y as int,
        r.br.y as int,
        r.tl.y as int,
        outline,
        i,
        j,
    );
}

/// A rectangle of width or height zero has no pixels, filled or outlined,
/// and neither has one whose corners are out of order.
pub proof fn lemma_zero_sized_has_no_pixels(r: Rectangle, outline: bool)
    requires
        r.width() <= 0 || r.height() <= 0,
    ensures
        r.pixels(outline).len() == 0,
{
    lemma_zero_sized_rect_is_empty(
        r.tl.x as int,
        r.br.x as int,
        r.tl.y as int,
        r.br.y as int,
        outline,
    );
}

/// The outline of a rectangle that is at most two columns wide or at most two
/// rows high is the filled rectangle. The outline of any other rectangle has
/// its two whole rows and two points for each row between them, and each
/// such row `y` stands in it as its first column followed by its last.
pub proof fn lemma_outline_pixels(r: Rectangle)
    ensures
        r.width() <= 2 || r.height() <= 2 ==> r.pixels(true) == r.pixels(false),
        r.width() > 2 && r.height() > 2 ==> ({
            &&& r.pixels(true).len() == 2 * r.width() + 2 * (r.height() - 2)
            &&& forall|y: int|
                r.tl.y < y < r.br.y - 1 ==> {
                    &&& r.pixels(true)[#[trigger] r.outline_place(y)] == (r.tl.x as int, y)
                    &&& r.pixels(true)[r.outline_place(y) + 1] == (r.br.x - 1, y)
                }
        }),
{
    let (x0, x1, y0, y1) = (r.tl.x as int, r.br.x as int, r.tl.y as int, r.br.y as int);
    if r.width() <= 2 || r.height() <= 2 {
        lemma_thin_outline_is_filled(x0, x1, y0, y1);
    } else {
        lemma_outline_len(x0, x1, y0, y1);
        assert forall|y: int| r.tl.y < y < r.br.y - 1 implies {
            &&& r.pixels(true)[#[trigger] r.outline_place(y)] == (r.tl.x as int, y)
            &&& r.pixels(true)[r.outline_place(y) + 1] == (r.br.x - 1, y)
        } by {
            lemma_outline_inner_row_at(x0, x1, y0, y1, y);
        }
    }
}

impl Default for Rectangle {
    fn default() -> (r: Rectangle)
        ensures
            r.tl@ == (0int, 0int),
            r.br@ == (0int, 0int),
    {
        Rectangle { tl: IVec2::splat(0), br: IVec2::splat(0) }
    }
}

} // verus!
