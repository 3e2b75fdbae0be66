//! What all shapes have in common.

use vstd::prelude::*;
use crate::iters::circle_iter::CirclePoints;
use crate::iters::rect_iter::RectanglePixels;
use crate::iters::PixelIter;
use crate::ivec2::circle::Circle as CircleIVec2;
use crate::ivec2::rectangle::Rectangle as RectangleIVec2;
use crate::point::{IVec2, UVec2};
use crate::uvec2::circle::Circle as CircleUVec2;
use crate::uvec2::rectangle::Rectangle as RectangleUVec2;

verus! {

/// Half of `v`, rounded towards zero.
pub open spec fn half_toward_zero(v: int) -> int {
    if v >= 0 { v / 2 } else { -((-v) / 2) }
}

/// A shape with coordinates of type `T`: it has a position and a centre,
/// tells which points belong to it, and enumerates its pixels on the signed
/// grid.
pub trait Shape<T> {
    /// The state machine that hands out the pixels of the shape.
    type Pixels: PixelIter;

    /// Whether the numbers of the shape are of the kind that its
    /// constructors ask for.
    spec fn is_valid(&self) -> bool;

    /// Whether the shape can be drawn: it is valid and lies within the grid.
    spec fn drawable(&self) -> bool;

    /// The position of the shape.
    spec fn position_spec(&self) -> T;

    /// The centre of the shape.
    spec fn center_spec(&self) -> T;

    /// Whether `coord` belongs to the shape.
    spec fn contains_spec(&self, coord: T) -> bool;

    /// The pixels of the shape in the order in which they are handed out.
    spec fn pixels_spec(&self, outline: bool) -> Seq<(int, int)>;

    fn position(&self) -> (p: T)
        ensures
            p == self.position_spec(),
    ;

    fn center(&self) -> (c: T)
        ensures
            c == self.center_spec(),
    ;

    fn contains(&self, coord: T) -> (b: bool)
        requires
            self.is_valid(),
        ensures
            b == self.contains_spec(coord),
    ;

    fn pixel_iter(&self, outline: bool) -> (it: Self::Pixels)
        requires
            self.drawable(),
        ensures
            it.wf(),
            it.remaining() == self.pixels_spec(outline),
    ;
}

fn half_i64(v: i64) -> (h: i64)
    requires
        -0x1_0000_0000 <= v <= 0x1_0000_0000,
    ensures
        h == half_toward_zero(v as int),
{
    if v >= 0 {
        v / 2
    } else {
        -((-v) / 2)
    }
}

impl Shape<IVec2> for RectangleIVec2 {
    type Pixels = RectanglePixels;

    open spec fn is_valid(&self) -> bool {
        true
    }

    open spec fn drawable(&self) -> bool {
        true
    }

    open spec fn position_spec(&self) -> IVec2 {
        self.tl
    }

    /// The middle between the two corners, each coordinate rounded towards
    /// zero.
    open spec fn center_spec(&self) -> IVec2 {
        IVec2 {
            x: half_toward_zero(self.tl.x + self.br.x) as i32,
            y: half_toward_zero(self.tl.y + self.br.y) as i32,
        }
    }

    open spec fn contains_spec(&self, coord: IVec2) -> bool {
        self.covers(coord@)
    }

    open spec fn pixels_spec(&self, outline: bool) -> Seq<(int, int)> {
        self.pixels(outline)
    }

    fn position(&self) -> (p: IVec2) {
        self.tl
    }

    fn center(&self) -> (c: IVec2) {
        IVec2::new(
            half_i64(self.tl.x as i64 + self.br.x as i64) as i32,
            half_i64(self.tl.y as i64 + self.br.y as i64) as i32,
        )
    }

    fn contains(&self, coord: IVec2) -> (b: bool) {
        RectangleIVec2::contains(self, coord)
    }

    fn pixel_iter(&self, outline: bool) -> (it: RectanglePixels) {
        RectangleIVec2::pixel_iter(self, outline)
    }
}

impl Shape<UVec2> for RectangleUVec2 {
    type Pixels = RectanglePixels;

    open spec fn is_valid(&self) -> bool {
        true
    }

    open spec fn drawable(&self) -> bool {
        self.br.x <= i32::MAX && self.br.y <= i32::MAX
    }

    open spec fn position_spec(&self) -> UVec2 {
        self.tl
    }

    /// The middle between the two corners, each coordinate rounded down.
    open spec fn center_spec(&self) -> UVec2 {
        UVec2 {
            x: ((self.tl.x + self.br.x) / 2) as u32,
            y: ((self.tl.y + self.br.y) / 2) as u32,
        }
    }

    open spec fn contains_spec(&self, coord: UVec2) -> bool {
        self.covers(coord@)
    }

    open spec fn pixels_spec(&self, outline: bool) -> Seq<(int, int)> {
        self.pixels(outline)
    }

    fn position(&self) -> (p: UVec2) {
        self.tl
    }

    fn center(&self) -> (c: UVec2) {
        UVec2::new(
            ((self.tl.x as u64 + self.br.x as u64) / 2) as u32,
            ((self.tl.y as u64 + self.br.y as u64) / 2) as u32,
        )
    }

    fn contains(&self, coord: UVec2) -> (b: bool) {
        RectangleUVec2::contains(self, coord)
    }

    fn pixel_iter(&self, outline: bool) -> (it: RectanglePixels) {
        RectangleUVec2::pixel_iter(self, outline)
    }
}

impl Shape<IVec2> for CircleIVec2 {
    type Pixels = CirclePoints;

    open spec fn is_valid(&self) -> bool {
        self.wf()
    }

    open spec fn drawable(&self) -> bool {
        self.wf() && self.bounded()
    }

    open spec fn position_spec(&self) -> IVec2 {
        self.pos
    }

    open spec fn center_spec(&self) -> IVec2 {
        self.pos
    }

    open spec fn contains_spec(&self, coord: IVec2) -> bool {
        self.covers(coord@)
    }

    open spec fn pixels_spec(&self, outline: bool) -> Seq<(int, int)> {
        self.pixels(outline)
    }

    fn position(&self) -> (p: IVec2) {
        self.pos
    }

    fn center(&self) -> (c: IVec2) {
        self.pos
    }

    fn contains(&self, coord: IVec2) -> (b: bool) {
        CircleIVec2::contains(self, coord)
    }

    fn pixel_iter(&self, outline: bool) -> (it: CirclePoints) {
        CircleIVec2::pixel_iter(self, outline)
    }
}

impl Shape<UVec2> for CircleUVec2 {
    type Pixels = CirclePoints;

    open spec fn is_valid(&self) -> bool {
        true
    }

    open spec fn drawable(&self) -> bool {
        self.pos.x + self.radius <= i32::MAX && self.pos.y + self.radius <= i32::MAX
    }

    open spec fn position_spec(&self) -> UVec2 {
        self.pos
    }

    open spec fn center_spec(&self) -> UVec2 {
        self.pos
    }

    open spec fn contains_spec(&self, coord: UVec2) -> bool {
        self.covers(coord@)
    }

    open spec fn pixels_spec(&self, outline: bool) -> Seq<(int, int)> {
        self.pixels(outline)
    }

    fn position(&self) -> (p: UVec2) {
        self.pos
    }

    fn center(&self) -> (c: UVec2) {
        self.pos
    }

    fn contains(&self, coord: UVec2) -> (b: bool) {
        CircleUVec2::contains(self, coord)
    }

    fn pixel_iter(&self, outline: bool) -> (it: CirclePoints) {
        CircleUVec2::pixel_iter(self, outline)
    }
}

} // verus!
