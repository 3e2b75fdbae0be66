//! The pixels of a circle, scanline by scanline.

use vstd::prelude::*;
use crate::iters::common::Scanline;
use crate::iters::PixelIter;
use crate::ivec2::circle::{inside, Circle};
use crate::ivec2::rectangle::Rectangle;
use crate::model::disc::{disc_row, disc_row_span, disc_rows_from, first_inside, Disc};
use crate::point::{I64Vec2, IVec2};

verus! {

/// The scanlines of a circle, from its first row to its last.
///
/// For each row the columns of the bounding box are searched from the left
/// for the first pixel of the circle; the circle then ends as far before the
/// right end of the bounding box as it started after the left end.
#[derive(Debug, Copy, Clone)]
pub struct Scanlines {
    outline: bool,
    row: i32,
    row_end: i32,
    column_start: i32,
    column_end: i32,
    center_2x: I64Vec2,
    threshold: i128,
    limits: Option<Rectangle>,
}

impl Scanlines {
    /// The disc whose rows are handed out.
    pub closed spec fn disc(&self) -> Disc {
        Disc {
            c2: self.center_2x@,
            threshold: self.threshold as int,
            columns: (self.column_start as int, self.column_end as int),
            clip: match self.limits {
                Some(l) => Some((l.tl.x as int, l.br.x as int)),
                None => None,
            },
        }
    }

    /// The row that comes next.
    pub closed spec fn row(&self) -> int {
        self.row as int
    }

    /// The row behind the last row.
    pub closed spec fn row_end(&self) -> int {
        self.row_end as int
    }

    /// Whether the scanlines are outlined.
    pub closed spec fn outline(&self) -> bool {
        self.outline
    }

    /// The states that `new` makes and `next` keeps.
    pub closed spec fn wf(&self) -> bool {
        &&& -0x2_0000_0000 <= self.center_2x.x <= 0x2_0000_0000
        &&& -0x2_0000_0000 <= self.center_2x.y <= 0x2_0000_0000
    }

    /// The number of rows that are still to come.
    pub open spec fn rows_left(&self) -> int {
        if self.row() < self.row_end() {
            self.row_end() - self.row()
        } else {
            0
        }
    }

    /// The points of the rows that are still to come.
    pub open spec fn remaining(&self) -> Seq<(int, int)> {
        disc_rows_from(self.disc(), self.row(), self.row_end(), self.outline())
    }

    /// The scanlines of `circle`, from the first row in which it is drawn.
    pub fn new(circle: &Circle, outline: bool) -> (s: Scanlines)
        requires
            circle.wf(),
            circle.bounded(),
        ensures
            s.wf(),
            s.disc() == circle.disc(),
            s.row() == circle.drawn_rows().0,
            s.row_end() == circle.drawn_rows().1,
            s.outline() == outline,
    {
        let bounding_box = circle.bounding_box();
        let rows = bounding_box.rows_limited(&circle.limits);
        let columns = bounding_box.columns();
        Scanlines {
            outline,
            row: rows.start,
            row_end: rows.end,
            column_start: columns.start,
            column_end: columns.end,
            center_2x: circle.center_2x(),
            threshold: circle.threshold(),
            limits: circle.limits,
        }
    }

    /// The scanline of the next row, or `None` after the last row. A row in
    /// which the circle has no pixel gets a scanline without columns.
    pub fn next(&mut self) -> (r: Option<Scanline>)
        requires
            old(self).wf(),
        ensures
            final(self).wf(),
            final(self).disc() == old(self).disc(),
            final(self).row_end() == old(self).row_end(),
            final(self).outline() == old(self).outline(),
            old(self).rows_left() == 0 ==> r is None && final(self).row() == old(self).row(),
            old(self).rows_left() > 0 ==> ({
                &&& r is Some
                &&& final(self).row() == old(self).row() + 1
                &&& r->0.y == old(self).row()
                &&& r->0.x.start == disc_row_span(old(self).disc(), old(self).row()).0
                &&& r->0.x.end == disc_row_span(old(self).disc(), old(self).row()).1
                &&& r->0.outline == old(self).outline()
                &&& !r->0.outline_started
                &&& !r->0.outline_finished
            }),
    {
        if self.row >= self.row_end {
            return None;
        }
        let y = self.row;
        let ghost d = self.disc();
        let mut x = self.column_start;
        while x < self.column_end && !inside(self.center_2x, self.threshold, x as i64, y as i64)
            invariant
                self.wf(),
                *self == *old(self),
                self.column_start <= x,
                self.column_start <= self.column_end ==> x <= self.column_end,
                first_inside(d.c2, d.threshold, y as int, self.column_start as int, d.columns.1)
                    == first_inside(d.c2, d.threshold, y as int, x as int, d.columns.1),
                d == self.disc(),
            decreases self.column_end - x,
        {
            x = x + 1;
        }
        let scanline = if x < self.column_end {
            let end = (self.column_end as i64 - (x as i64 - self.column_start as i64)) as i32;
            if let Some(limits) = self.limits {
                let start_x = if x >= limits.tl.x { x } else { limits.tl.x };
                let end_x = if end <= limits.br.x { end } else { limits.br.x };
                Scanline::new(y, start_x..end_x, self.outline)
            } else {
                Scanline::new(y, x..end, self.outline)
            }
        } else {
            Scanline::new(y, self.column_end..self.column_end, self.outline)
        };
        self.row = self.row + 1;
        Some(scanline)
    }
}

/// The pixels of a circle, row after row and from left to right in each row.
#[derive(Debug)]
pub struct CirclePoints {
    scanlines: Scanlines,
    current_scanline: Scanline,
}

impl CirclePoints {
    /// The pixels of `circle`: in each row in which it is drawn the span that
    /// it covers, whole or in outline mode its two ends.
    pub fn new(circle: &Circle, outline: bool) -> (it: CirclePoints)
        requires
            circle.wf(),
            circle.bounded(),
        ensures
            it.wf(),
            it.remaining() == circle.pixels(outline),
    {
        let it = CirclePoints {
            scanlines: Scanlines::new(circle, outline),
            current_scanline: Scanline::new_empty(0),
        };
        assert(it.remaining() =~= circle.pixels(outline));
        it
    }
}

impl Clone for CirclePoints {
    fn clone(&self) -> (it: CirclePoints)
        ensures
            it == *self,
    {
        CirclePoints {
            scanlines: self.scanlines,
            current_scanline: self.current_scanline.clone(),
        }
    }
}

impl PixelIter for CirclePoints {
    closed spec fn wf(&self) -> bool {
        self.scanlines.wf()
    }

    closed spec fn remaining(&self) -> Seq<(int, int)> {
        self.current_scanline.remaining() + self.scanlines.remaining()
    }

    fn next(&mut self) -> (r: Option<IVec2>) {
        loop
            invariant
                self.wf(),
                self.remaining() == old(self).remaining(),
            decreases self.scanlines.rows_left(),
        {
            let ghost before = self.current_scanline.remaining();
            if let Some(p) = self.current_scanline.next() {
                assert(self.remaining() =~= old(self).remaining().drop_first());
                return Some(p);
            }
            match self.scanlines.next() {
                Some(scanline) => {
                    assert(scanline.remaining() == disc_row(
                        self.scanlines.disc(),
                        scanline.y as int,
                        scanline.outline,
                    ));
                    self.current_scanline = scanline;
                    assert(self.remaining() =~= old(self).remaining());
                },
                None => {
                    assert(self.remaining() =~= Seq::empty());
                    return None;
                },
            }
        }
    }
}

} // verus!
