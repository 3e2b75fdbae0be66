//! The pixels of a rectangle, filled or outlined.

use vstd::prelude::*;
use crate::iters::PixelIter;
use crate::ivec2::rectangle::Rectangle;
use crate::model::grid::{
    is_inner_row, lemma_rect_rows_no_columns, rect_rows_from, scanline_points,
};
use crate::point::IVec2;

verus! {

/// The pixels of a rectangle, row after row and from left to right in each
/// row.
///
/// The state is a cursor `(x, y)` within the columns from `x_start` up to
/// `x_end` and the rows from `y_start` up to `y_end`.
#[derive(Debug, Copy, Clone, PartialEq, Eq, Structural, Hash)]
pub struct RectanglePixels {
    outline: bool,
    x: i32,
    x_start: i32,
    x_end: i32,
    y: i32,
    y_start: i32,
    y_end: i32,
}

impl RectanglePixels {
    /// The pixels of `rectangle`: all of them, or in outline mode the first
    /// and the last row and the two ends of each row between them. A
    /// rectangle without area has none.
    pub fn new(rectangle: &Rectangle, outline: bool) -> (it: RectanglePixels)
        ensures
            it.wf(),
            it.remaining() == rectangle.pixels(outline),
    {
        if rectangle.tl.x >= rectangle.br.x || rectangle.tl.y >= rectangle.br.y {
            proof {
                if rectangle.tl.x >= rectangle.br.x {
                    lemma_rect_rows_no_columns(
                        rectangle.tl.x as int,
                        rectangle.br.x as int,
                        rectangle.tl.y as int,
                        rectangle.br.y as int,
                        rectangle.tl.y as int,
                        outline,
                    );
                }
            }
            return RectanglePixels::empty();
        }
        RectanglePixels {
            outline,
            x: rectangle.tl.x,
            x_start: rectangle.tl.x,
            x_end: rectangle.br.x,
            y: rectangle.tl.y,
            y_start: rectangle.tl.y,
            y_end: rectangle.br.y,
        }
    }

    /// A state that hands out no pixel.
    pub fn empty() -> (it: RectanglePixels)
        ensures
            it.wf(),
            it.remaining() == Seq::<(int, int)>::empty(),
    {
        RectanglePixels { outline: false, x: 0, x_start: 0, x_end: 0, y: 0, y_start: 0, y_end: 0 }
    }
}

impl PixelIter for RectanglePixels {
    closed spec fn wf(&self) -> bool {
        &&& self.y_start <= self.y
        &&& self.outline && self.y < self.y_end && is_inner_row(
            self.y_start as int,
            self.y_end as int,
            self.y as int,
        ) ==> self.x == self.x_start || self.x >= self.x_end - 1
    }

    closed spec fn remaining(&self) -> Seq<(int, int)> {
        if self.y < self.y_end {
            scanline_points(
                self.y as int,
                self.x as int,
                self.x_end as int,
                self.outline && is_inner_row(self.y_start as int, self.y_end as int, self.y as int),
            ) + rect_rows_from(
                self.x_start as int,
                self.x_end as int,
                self.y_start as int,
                self.y_end as int,
                self.y + 1,
                self.outline,
            )
        } else {
            Seq::empty()
        }
    }

    fn next(&mut self) -> (r: Option<IVec2>) {
        while self.y < self.y_end
            invariant
                self.wf(),
                self.remaining() == old(self).remaining(),
            decreases self.y_end - self.y,
        {
            if self.x < self.x_end {
                let ghost before = *self;
                let p = IVec2::new(self.x, self.y);
                if self.outline && self.y != self.y_start && self.y != self.y_end - 1 {
                    if self.x == self.x_start && self.x_end - 1 > self.x {
                        self.x = self.x_end - 1;
                    } else {
                        self.x = self.x_end;
                    }
                } else {
                    self.x = self.x + 1;
                }
                assert(self.remaining() =~= before.remaining().drop_first());
                return Some(p);
            }
            let ghost before = *self;
            self.y = self.y + 1;
            self.x = self.x_start;
            assert(self.remaining() =~= before.remaining());
        }
        None
    }
}

/// The pixels of the outline of a rectangle: its first and its last row, and
/// the two ends of each row between them.
#[derive(Debug, Copy, Clone, PartialEq, Eq, Structural, Hash)]
pub struct RectangleOutlinePixels {
    pixels: RectanglePixels,
}

impl RectangleOutlinePixels {
    /// The pixels of the outline of `rectangle`.
    pub fn new(rectangle: &Rectangle) -> (it: RectangleOutlinePixels)
        ensures
            it.wf(),
            it.remaining() == rectangle.pixels(true),
    {
        RectangleOutlinePixels { pixels: RectanglePixels::new(rectangle, true) }
    }
}

impl PixelIter for RectangleOutlinePixels {
    closed spec fn wf(&self) -> bool {
        self.pixels.wf()
    }

    closed spec fn remaining(&self) -> Seq<(int, int)> {
        self.pixels.remaining()
    }

    fn next(&mut self) -> (r: Option<IVec2>) {
        self.pixels.next()
    }
}

} // verus!
