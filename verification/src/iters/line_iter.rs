//! Line drawing: Bresenham's algorithm and the grid walk.

use vstd::prelude::*;
use crate::point::IVec2;
use crate::ivec2::line_segment::LineSegment;
use crate::iters::PixelIter;
use crate::model::line::{
    abs_int, accumulator_at, bresenham_line, bresenham_point, chebyshev,
    lemma_accumulator_bounds, lemma_accumulator_closed_form, lemma_accumulator_step,
    lemma_bresenham_ends, lemma_round_half_down_ends, lemma_walk_grid_ends, place,
    walk_grid_line, walk_grid_offsets, walk_x_is_due,
};

verus! {

/// The state of Bresenham's algorithm: the current point and the error
/// accumulator that decides which axes move next.
#[derive(Debug, Copy, Clone)]
pub struct BresenhamParams {
    start: IVec2,
    end: IVec2,
    current_x: i32,
    current_y: i32,
    dx: i64,
    dy: i64,
    error: i64,
    sx: i32,
    sy: i32,
    done: bool,
}

impl BresenhamParams {
    /// The number of points handed out so far, while the line is not done.
    pub closed spec fn steps_taken(&self) -> int {
        if self.dx > self.dy {
            abs_int(self.current_x - self.start.x)
        } else {
            abs_int(self.current_y - self.start.y)
        }
    }

    /// The state before the first point of the line from `start` to `end`.
    pub fn new(start: IVec2, end: IVec2) -> (b: BresenhamParams)
        ensures
            b.wf(),
            b.remaining() == bresenham_line(start@, end@),
    {
        let dx: i64 = if start.x < end.x {
            end.x as i64 - start.x as i64
        } else {
            start.x as i64 - end.x as i64
        };
        let dy: i64 = if start.y < end.y {
            end.y as i64 - start.y as i64
        } else {
            start.y as i64 - end.y as i64
        };
        let error: i64 = if dx > dy { dx / 2 } else { -(dy / 2) };
        let sx: i32 = if start.x < end.x { 1 } else { -1 };
        let sy: i32 = if start.y < end.y { 1 } else { -1 };
        let b = BresenhamParams {
            start,
            end,
            current_x: start.x,
            current_y: start.y,
            dx,
            dy,
            error,
            sx,
            sy,
            done: false,
        };
        proof {
            lemma_bresenham_ends(start@, end@);
            if dx > dy {
                lemma_round_half_down_ends(dx as int, dy as int);
            } else if dy > 0 {
                lemma_round_half_down_ends(dy as int, dx as int);
            }
            assert(b.remaining() =~= bresenham_line(start@, end@));
        }
        b
    }
}

impl PixelIter for BresenhamParams {
    closed spec fn wf(&self) -> bool {
        let s = self.start@;
        let e = self.end@;
        let k = self.steps_taken();
        &&& self.dx == abs_int(e.0 - s.0)
        &&& self.dy == abs_int(e.1 - s.1)
        &&& self.sx == (if s.0 < e.0 { 1int } else { -1int })
        &&& self.sy == (if s.1 < e.1 { 1int } else { -1int })
        &&& !self.done ==> {
            &&& 0 <= k <= chebyshev(s, e)
            &&& (self.current_x as int, self.current_y as int) == bresenham_point(s, e, k)
            &&& if self.dx > self.dy {
                accumulator_at(
                    self.dx as int,
                    self.dy as int,
                    k,
                    abs_int(self.current_y - self.start.y),
                    self.error as int,
                )
            } else if self.dy > 0 {
                accumulator_at(
                    self.dy as int,
                    self.dx as int,
                    k,
                    abs_int(self.current_x - self.start.x),
                    -self.error,
                )
            } else {
                true
            }
        }
    }

    closed spec fn remaining(&self) -> Seq<(int, int)> {
        if self.done {
            Seq::empty()
        } else {
            let line = bresenham_line(self.start@, self.end@);
            line.subrange(self.steps_taken(), line.len() as int)
        }
    }

    fn next(&mut self) -> (r: Option<IVec2>) {
        if self.done {
            return None;
        }
        let ghost s = self.start@;
        let ghost e = self.end@;
        let ghost k = self.steps_taken();
        let ghost line = bresenham_line(s, e);
        let current = IVec2::new(self.current_x, self.current_y);
        proof {
            lemma_bresenham_ends(s, e);
            assert(line.subrange(k, line.len() as int).first() == line[k]);
        }
        if self.current_x == self.end.x && self.current_y == self.end.y {
            self.done = true;
            proof {
                assert(k == chebyshev(s, e));
            }
            return Some(current);
        }
        proof {
            if k == chebyshev(s, e) {
                assert(line.last() == e);
                assert(false);
            }
            if self.dx > self.dy {
                let y = abs_int(self.current_y - self.start.y);
                lemma_accumulator_step(self.dx as int, self.dy as int, k, y, self.error as int);
                lemma_accumulator_bounds(self.dx as int, self.dy as int, k, y, self.error as int);
                if self.error < self.dy {
                    lemma_accumulator_bounds(
                        self.dx as int,
                        self.dy as int,
                        k + 1,
                        y + 1,
                        self.error - self.dy + self.dx,
                    );
                    lemma_accumulator_closed_form(
                        self.dx as int,
                        self.dy as int,
                        k + 1,
                        y + 1,
                        self.error - self.dy + self.dx,
                    );
                } else {
                    lemma_accumulator_closed_form(
                        self.dx as int,
                        self.dy as int,
                        k + 1,
                        y,
                        self.error - self.dy,
                    );
                }
            } else {
                let x = abs_int(self.current_x - self.start.x);
                lemma_accumulator_step(self.dy as int, self.dx as int, k, x, -self.error);
                lemma_accumulator_bounds(self.dy as int, self.dx as int, k, x, -self.error);
                if -self.error < self.dx {
                    lemma_accumulator_bounds(
                        self.dy as int,
                        self.dx as int,
                        k + 1,
                        x + 1,
                        -self.error - self.dx + self.dy,
                    );
                    lemma_accumulator_closed_form(
                        self.dy as int,
                        self.dx as int,
                        k + 1,
                        x + 1,
                        -self.error - self.dx + self.dy,
                    );
                } else {
                    lemma_accumulator_closed_form(
                        self.dy as int,
                        self.dx as int,
                        k + 1,
                        x,
                        -self.error - self.dx,
                    );
                }
            }
        }
        let error2 = self.error;
        if error2 > -self.dx {
            self.error -= self.dy;
            self.current_x += self.sx;
        }
        if error2 < self.dy {
            self.error += self.dx;
            self.current_y += self.sy;
        }
        proof {
            assert(self.steps_taken() == k + 1);
            assert(line.subrange(k + 1, line.len() as int) =~= line.subrange(
                k,
                line.len() as int,
            ).drop_first());
        }
        Some(current)
    }
}

/// The state of the grid walk: how many steps have been taken along each
/// axis, out of how many.
#[derive(Debug, Copy, Clone)]
pub struct WalkGridParams {
    start: IVec2,
    end: IVec2,
    ix: i64,
    iy: i64,
    nx: i64,
    ny: i64,
}

impl WalkGridParams {
    /// The state before the first point of the walk from `start` to `end`.
    pub fn new(start: IVec2, end: IVec2) -> (w: WalkGridParams)
        ensures
            w.wf(),
            w.remaining() == walk_grid_line(start@, end@),
    {
        let nx: i64 = if start.x < end.x {
            end.x as i64 - start.x as i64
        } else {
            start.x as i64 - end.x as i64
        };
        let ny: i64 = if start.y < end.y {
            end.y as i64 - start.y as i64
        } else {
            start.y as i64 - end.y as i64
        };
        WalkGridParams { start, end, ix: 0, iy: 0, nx, ny }
    }

    /// Whether the next step of the walk goes along x.
    fn x_is_due(&self) -> (due: bool)
        requires
            self.wf(),
        ensures
            due == walk_x_is_due(self.ix as int, self.iy as int, self.nx as int, self.ny as int),
    {
        let ax: i128 = 2 * (self.ix as i128) + 1;
        let ay: i128 = 2 * (self.iy as i128) + 1;
        assert(0 <= ax * self.ny <= 0x2_0000_0003 * 0x1_0000_0000) by (nonlinear_arith)
            requires
                0 <= ax <= 0x2_0000_0003,
                0 <= self.ny <= 0x1_0000_0000,
        ;
        assert(0 <= ay * self.nx <= 0x2_0000_0003 * 0x1_0000_0000) by (nonlinear_arith)
            requires
                0 <= ay <= 0x2_0000_0003,
                0 <= self.nx <= 0x1_0000_0000,
        ;
        ax * (self.ny as i128) < ay * (self.nx as i128)
    }
}

impl PixelIter for WalkGridParams {
    closed spec fn wf(&self) -> bool {
        &&& self.nx == abs_int(self.end.x - self.start.x)
        &&& self.ny == abs_int(self.end.y - self.start.y)
        &&& 0 <= self.ix <= self.nx + 1
        &&& 0 <= self.iy <= self.ny + 1
    }

    closed spec fn remaining(&self) -> Seq<(int, int)> {
        walk_grid_offsets(
            self.ix as int,
            self.iy as int,
            self.nx as int,
            self.ny as int,
        ).map_values(|o: (int, int)| place(self.start@, self.end@, o))
    }

    fn next(&mut self) -> (r: Option<IVec2>) {
        if self.ix <= self.nx && self.iy <= self.ny {
            let ghost offsets = walk_grid_offsets(
                self.ix as int,
                self.iy as int,
                self.nx as int,
                self.ny as int,
            );
            let ghost before = self.remaining();
            let x: i64 = if self.start.x < self.end.x {
                self.start.x as i64 + self.ix
            } else {
                self.start.x as i64 - self.ix
            };
            let y: i64 = if self.start.y < self.end.y {
                self.start.y as i64 + self.iy
            } else {
                self.start.y as i64 - self.iy
            };
            let point = IVec2::new(x as i32, y as i32);
            if self.x_is_due() {
                self.ix += 1;
            } else {
                self.iy += 1;
            }
            proof {
                let rest = walk_grid_offsets(
                    self.ix as int,
                    self.iy as int,
                    self.nx as int,
                    self.ny as int,
                );
                assert(offsets =~= seq![offsets[0]] + rest);
                assert(before.first() == point@);
                assert(self.remaining() =~= before.drop_first());
            }
            Some(point)
        } else {
            assert(self.remaining() =~= Seq::empty());
            None
        }
    }
}

/// The algorithm that draws a line.
#[derive(Debug, Copy, Clone, PartialEq, Eq, Structural)]
pub enum LineDrawAlgo {
    /// The grid walk: every step moves along one axis only.
    WalkGrid,
    /// Bresenham's algorithm: every step moves along the longer axis, and
    /// along the shorter one where the line has come nearer to the next cell.
    Bresenham,
}

/// The points of the line from `s` to `e` as `algo` draws it.
pub open spec fn line_points(s: (int, int), e: (int, int), algo: LineDrawAlgo) -> Seq<(int, int)> {
    match algo {
        LineDrawAlgo::WalkGrid => walk_grid_line(s, e),
        LineDrawAlgo::Bresenham => bresenham_line(s, e),
    }
}

/// Every line, whatever draws it, starts with its start and ends with its
/// end. A line whose ends coincide is that one point.
pub proof fn lemma_line_points_ends(s: (int, int), e: (int, int), algo: LineDrawAlgo)
    ensures
        line_points(s, e, algo).len() >= 1,
        line_points(s, e, algo).first() == s,
        line_points(s, e, algo).last() == e,
        s == e ==> line_points(s, e, algo) == seq![s],
{
    lemma_bresenham_ends(s, e);
    lemma_walk_grid_ends(s, e);
    if s == e {
        assert(line_points(s, e, algo) =~= seq![s]);
    }
}

/// Bresenham's line takes as many steps as the Chebyshev distance of its
/// ends, the grid walk as many as their distance along both axes together.
pub proof fn lemma_line_points_len(s: (int, int), e: (int, int), algo: LineDrawAlgo)
    ensures
        algo == LineDrawAlgo::Bresenham ==> line_points(s, e, algo).len() == chebyshev(s, e) + 1,
        algo == LineDrawAlgo::WalkGrid ==> line_points(s, e, algo).len() == abs_int(e.0 - s.0)
            + abs_int(e.1 - s.1) + 1,
{
    lemma_bresenham_ends(s, e);
    lemma_walk_grid_ends(s, e);
}

#[derive(Debug, Copy, Clone)]
pub(crate) enum LineIterImpl {
    WalkGrid(WalkGridParams),
    Bresenham(BresenhamParams),
}

/// The points of a line segment, one per call of `next`.
#[derive(Debug, Copy, Clone)]
pub struct LineIter {
    impl_iter: LineIterImpl,
}

impl LineIter {
    /// The points of `ls` as `iter_type` draws them, from `ls.start` to
    /// `ls.end`.
    pub fn new_from_segment(ls: LineSegment, iter_type: LineDrawAlgo) -> (it: LineIter)
        ensures
            it.wf(),
            it.remaining() == line_points(ls.start@, ls.end@, iter_type),
    {
        match iter_type {
            LineDrawAlgo::WalkGrid => LineIter {
                impl_iter: LineIterImpl::WalkGrid(WalkGridParams::new(ls.start, ls.end)),
            },
            LineDrawAlgo::Bresenham => LineIter {
                impl_iter: LineIterImpl::Bresenham(BresenhamParams::new(ls.start, ls.end)),
            },
        }
    }
}

impl PixelIter for LineIter {
    closed spec fn wf(&self) -> bool {
        match self.impl_iter {
            LineIterImpl::WalkGrid(w) => w.wf(),
            LineIterImpl::Bresenham(b) => b.wf(),
        }
    }

    closed spec fn remaining(&self) -> Seq<(int, int)> {
        match self.impl_iter {
            LineIterImpl::WalkGrid(w) => w.remaining(),
            LineIterImpl::Bresenham(b) => b.remaining(),
        }
    }

    fn next(&mut self) -> (r: Option<IVec2>) {
        match &mut self.impl_iter {
            LineIterImpl::WalkGrid(w) => w.next(),
            LineIterImpl::Bresenham(b) => b.next(),
        }
    }
}

} // verus!
