//! One row of pixels.

use vstd::prelude::*;
use core::ops::Range;
use crate::iters::PixelIter;
use crate::model::grid::scanline_points;
use crate::point::IVec2;

verus! {

/// One row of pixels: the columns `x` of the row `y`.
///
/// A filled scanline hands out every column from left to right. An outlined
/// one hands out the first column and then, where it is another one, the
/// last.
#[derive(Debug)]
pub struct Scanline {
    pub y: i32,
    pub x: Range<i32>,
    pub outline: bool,
    pub outline_started: bool,
    pub outline_finished: bool,
}

impl Scanline {
    /// The scanline of the columns `x` in the row `y`.
    pub fn new(y: i32, x: Range<i32>, outline: bool) -> (s: Scanline)
        ensures
            s.y == y,
            s.x == x,
            s.outline == outline,
            !s.outline_started,
            !s.outline_finished,
            s.remaining() == scanline_points(y as int, x.start as int, x.end as int, outline),
    {
        Scanline { y, x, outline, outline_started: false, outline_finished: false }
    }

    /// A scanline without columns in the row `y`.
    pub fn new_empty(y: i32) -> (s: Scanline)
        ensures
            s.y == y,
            s.x.start == 0,
            s.x.end == 0,
            !s.outline,
            !s.outline_started,
            !s.outline_finished,
            s.remaining().len() == 0,
    {
        Scanline::new(y, 0..0, false)
    }

    /// Whether the scanline has no columns.
    pub fn is_empty(&self) -> (b: bool)
        ensures
            b <==> self.x.start >= self.x.end,
            b ==> self.remaining().len() == 0,
    {
        self.x.start >= self.x.end
    }
}

impl Clone for Scanline {
    fn clone(&self) -> (s: Scanline)
        ensures
            s == *self,
    {
        Scanline {
            y: self.y,
            x: self.x.start..self.x.end,
            outline: self.outline,
            outline_started: self.outline_started,
            outline_finished: self.outline_finished,
        }
    }
}

impl PixelIter for Scanline {
    open spec fn wf(&self) -> bool {
        true
    }

    open spec fn remaining(&self) -> Seq<(int, int)> {
        if !self.outline {
            scanline_points(self.y as int, self.x.start as int, self.x.end as int, false)
        } else if self.outline_finished || self.x.start >= self.x.end {
            Seq::empty()
        } else if self.outline_started {
            seq![(self.x.end - 1, self.y as int)]
        } else {
            scanline_points(self.y as int, self.x.start as int, self.x.end as int, true)
        }
    }

    fn next(&mut self) -> (r: Option<IVec2>) {
        if self.x.start >= self.x.end {
            return None;
        }
        if self.outline {
            if self.outline_finished {
                None
            } else if !self.outline_started {
                self.outline_started = true;
                self.outline_finished = self.x.end - 1 == self.x.start;
                let p = IVec2::new(self.x.start, self.y);
                assert(self.remaining() =~= old(self).remaining().drop_first());
                Some(p)
            } else {
                self.outline_finished = true;
                let p = IVec2::new(self.x.end - 1, self.y);
                assert(self.remaining() =~= old(self).remaining().drop_first());
                Some(p)
            }
        } else {
            let p = IVec2::new(self.x.start, self.y);
            self.x.start = self.x.start + 1;
            assert(self.remaining() =~= old(self).remaining().drop_first());
            Some(p)
        }
    }
}

} // verus!
