//! Circles on the unsigned integer grid.

use vstd::prelude::*;
use crate::iters::circle_iter::CirclePoints;
use crate::iters::PixelIter;
use crate::ivec2::circle::{diameter_to_threshold, inside, Circle as CircleIVec2};
use crate::ivec2::rectangle::Rectangle as RectangleIVec2;
use crate::model::disc::{
    disc_of, disc_rows_from, doubled_center, in_disc, lemma_clip_apart_from_bounding_box,
    lemma_clip_beyond_bounding_box,
    lemma_clipped_span, lemma_disc_row_span, lemma_disc_rows_contain,
    lemma_disc_within_bounding_box, threshold_of, Disc,
};
use crate::point::{max_int, min_int, within_signed, wrap_to_signed, I64Vec2, IVec2, UVec2};
use crate::uvec2::rectangle::Rectangle;

verus! {

/// A circle about `pos` with the given radius, drawn only within `limits`
/// where there are any.
///
/// The circle covers `radius` columns and rows before `pos` and as many from
/// `pos` on.
#[derive(Debug, Copy, Clone, PartialEq, Eq)]
pub struct Circle {
    pub pos: UVec2,
    pub radius: u32,
    pub limits: Option<Rectangle>,
}

impl Circle {
    /// Whether the bounding box lies within the grid: the circle does not
    /// reach beyond the origin nor beyond the largest coordinate.
    pub open spec fn bounded(&self) -> bool {
        &&& self.radius <= self.pos.x
        &&& self.radius <= self.pos.y
        &&& self.pos.x + self.radius <= u32::MAX
        &&& self.pos.y + self.radius <= u32::MAX
    }

    /// The centre in the doubled frame.
    pub open spec fn center_2x_spec(&self) -> (int, int) {
        (
            doubled_center(self.pos.x as int, self.radius as int),
            doubled_center(self.pos.y as int, self.radius as int),
        )
    }

    /// The threshold of the circle.
    pub open spec fn threshold_spec(&self) -> int {
        threshold_of(2 * self.radius)
    }

    /// Whether the pixel `p` belongs to the circle, whatever the limits.
    pub open spec fn covers(&self, p: (int, int)) -> bool {
        in_disc(self.center_2x_spec(), self.threshold_spec(), p)
    }

    /// Whether the bounding box and the limits have columns and rows in
    /// common, if only an empty strip between two that touch. Without limits
    /// they do.
    pub open spec fn meets_limits(&self) -> bool {
        match self.limits {
            Some(l) => {
                &&& max_int(self.pos.x - self.radius, l.tl.x as int) <= min_int(
                    self.pos.x + self.radius,
                    l.br.x as int,
                )
                &&& max_int(self.pos.y - self.radius, l.tl.y as int) <= min_int(
                    self.pos.y + self.radius,
                    l.br.y as int,
                )
            },
            None => true,
        }
    }

    /// The circle as the rasteriser sees it.
    pub open spec fn disc(&self) -> Disc {
        Disc {
            c2: self.center_2x_spec(),
            threshold: self.threshold_spec(),
            columns: (self.pos.x - self.radius, self.pos.x + self.radius),
            clip: match self.limits {
                Some(l) => Some((l.tl.x as int, l.br.x as int)),
                None => None,
            },
        }
    }

    /// The rows in which the circle is drawn: those of its bounding box, cut
    /// down to the rows of the limits.
    pub open spec fn drawn_rows(&self) -> (int, int) {
        match self.limits {
            Some(l) => (
                max_int(self.pos.y - self.radius, l.tl.y as int),
                min_int(self.pos.y + self.radius, l.br.y as int),
            ),
            None => (self.pos.y - self.radius, self.pos.y + self.radius),
        }
    }

    /// The pixels of the circle in the order in which they are handed out:
    /// row after row, and in each row the span that the circle covers, cut
    /// down to the limits, whole or in outline mode its two ends. They are
    /// those of the circle on the signed grid about the same point, with the
    /// same radius and the same limits.
    pub open spec fn pixels(&self, outline: bool) -> Seq<(int, int)> {
        disc_rows_from(self.disc(), self.drawn_rows().0, self.drawn_rows().1, outline)
    }

    /// Whether the circle and its limits lie on the part of the grid that the
    /// signed and the unsigned coordinates share.
    pub open spec fn fits_signed(&self) -> bool {
        &&& self.pos.x <= i32::MAX
        &&& self.pos.y <= i32::MAX
        &&& self.radius <= i32::MAX
        &&& self.limits matches Some(l) ==> {
            &&& l.tl.x <= i32::MAX
            &&& l.tl.y <= i32::MAX
            &&& l.br.x <= i32::MAX
            &&& l.br.y <= i32::MAX
        }
    }

    /// The circle on the signed grid about the same point and within the same
    /// limits, with all coordinates and the radius read as signed.
    pub open spec fn as_circle_ivec2_spec(&self) -> CircleIVec2 {
        CircleIVec2 {
            pos: IVec2 {
                x: wrap_to_signed(self.pos.x as int) as i32,
                y: wrap_to_signed(self.pos.y as int) as i32,
            },
            radius: wrap_to_signed(self.radius as int) as i32,
            limits: match self.limits {
                Some(l) => Some(
                    RectangleIVec2 {
                        tl: IVec2 {
                            x: wrap_to_signed(l.tl.x as int) as i32,
                            y: wrap_to_signed(l.tl.y as int) as i32,
                        },
                        br: IVec2 {
                            x: wrap_to_signed(l.br.x as int) as i32,
                            y: wrap_to_signed(l.br.y as int) as i32,
                        },
                    },
                ),
                None => None,
            },
        }
    }

    /// The circle about `pos` with the given radius, without limits.
    pub fn new(pos: UVec2, radius: u32) -> (c: Circle)
        ensures
            c.pos == pos,
            c.radius == radius,
            c.limits is None,
    {
        Circle { pos, radius, limits: None }
    }

    /// The circle about `pos` with the given radius and limits.
    pub fn new_with_limits(pos: UVec2, radius: u32, limits: Rectangle) -> (c: Circle)
        ensures
            c.pos == pos,
            c.radius == radius,
            c.limits == Some(limits),
    {
        Circle { pos, radius, limits: Some(limits) }
    }

    /// The bounding box of the circle, whatever the limits: from `radius`
    /// before `pos` to `radius` after it on both axes.
    pub fn bounding_box(&self) -> (r: Rectangle)
        requires
            self.bounded(),
        ensures
            r.wf(),
            r.tl@ == (self.pos.x - self.radius, self.pos.y - self.radius),
            r.br@ == (self.pos.x + self.radius, self.pos.y + self.radius),
    {
        let tl = UVec2::new(self.pos.x - self.radius, self.pos.y - self.radius);
        let br = UVec2::new(self.pos.x + self.radius, self.pos.y + self.radius);
        Rectangle::new(tl, br)
    }

    /// The bounding box cut down to the limits: what the two have in common.
    /// Where they have nothing in common along an axis the corners of the
    /// result are out of order along that axis, and it has no pixels. Without
    /// limits it is the bounding box itself.
    pub fn limited_bounding_box(&self) -> (r: Rectangle)
        requires
            self.bounded(),
        ensures
            (match self.limits {
                Some(l) => ({
                    &&& r.tl.x == max_int(self.pos.x - self.radius, l.tl.x as int)
                    &&& r.tl.y == max_int(self.pos.y - self.radius, l.tl.y as int)
                    &&& r.br.x == min_int(self.pos.x + self.radius, l.br.x as int)
                    &&& r.br.y == min_int(self.pos.y + self.radius, l.br.y as int)
                }),
                None => ({
                    &&& r.tl@ == (self.pos.x - self.radius, self.pos.y - self.radius)
                    &&& r.br@ == (self.pos.x + self.radius, self.pos.y + self.radius)
                }),
            }),
            r.wf() == self.meets_limits(),
    {
        let bounding_box = self.bounding_box();
        if let Some(limits) = self.limits {
            Rectangle::new_with_limits(bounding_box.tl, bounding_box.br, limits)
        } else {
            bounding_box
        }
    }

    /// The centre of the circle in the doubled frame. It is not twice `pos`:
    /// the centre lies half a pixel before `pos` on both axes.
    pub fn center_2x(&self) -> (c: I64Vec2)
        ensures
            c@ == self.center_2x_spec(),
    {
        let r = self.radius as i64;
        I64Vec2 {
            x: (self.pos.x as i64 - r) * 2 + (2 * r - 1),
            y: (self.pos.y as i64 - r) * 2 + (2 * r - 1),
        }
    }

    /// The threshold of the circle: the squared distance in the doubled frame
    /// below which a pixel belongs to it.
    pub fn threshold(&self) -> (t: i128)
        ensures
            t == self.threshold_spec(),
    {
        diameter_to_threshold(self.radius as i64 * 2)
    }

    /// The position of the circle: the point it was made about.
    pub fn position(&self) -> (p: UVec2)
        ensures
            p == self.pos,
    {
        self.pos
    }

    /// The centre of the circle as a pixel: the point it was made about.
    pub fn center(&self) -> (p: UVec2)
        ensures
            p == self.pos,
    {
        self.pos
    }

    /// Whether the pixel `coord` belongs to the circle, whatever the limits:
    /// its squared distance from the centre, taken in the doubled frame, is
    /// below the threshold.
    pub fn contains(&self, coord: UVec2) -> (b: bool)
        ensures
            b == self.covers(coord@),
    {
        let c = self.center_2x();
        inside(c, self.threshold(), coord.x as i64, coord.y as i64)
    }

    /// The pixels of the circle, one per call of `next`, cut down to the
    /// limits where there are any. They are handed out as points of the
    /// signed grid, so the circle must not reach beyond it.
    pub fn pixel_iter(&self, outline: bool) -> (it: CirclePoints)
        requires
            self.pos.x + self.radius <= i32::MAX,
            self.pos.y + self.radius <= i32::MAX,
        ensures
            it.wf(),
            it.remaining() == self.pixels(outline),
    {
        let drawn = CircleIVec2 {
            pos: self.pos.as_ivec2(),
            radius: UVec2::splat(self.radius).as_ivec2().x,
            limits: match self.limits {
                Some(l) => Some(
                    RectangleIVec2 {
                        tl: IVec2::new(within_signed(l.tl.x), within_signed(l.tl.y)),
                        br: IVec2::new(within_signed(l.br.x), within_signed(l.br.y)),
                    },
                ),
                None => None,
            },
        };
        proof {
            if let Some(l) = self.limits {
                let whole = Disc { clip: None, ..self.disc() };
                lemma_clip_beyond_bounding_box(
                    whole,
                    (l.tl.x as int, l.br.x as int),
                    i32::MAX as int,
                    drawn.drawn_rows().0,
                    drawn.drawn_rows().1,
                    outline,
                );
                assert(self.disc() == Disc { clip: Some((l.tl.x as int, l.br.x as int)), ..whole });
                assert(drawn.disc() == Disc {
                    clip: Some(
                        (
                            min_int(l.tl.x as int, i32::MAX as int),
                            min_int(l.br.x as int, i32::MAX as int),
                        ),
                    ),
                    ..whole
                });
                assert(drawn.drawn_rows().1 == self.drawn_rows().1);
                if l.tl.y <= i32::MAX {
                    assert(drawn.drawn_rows().0 == self.drawn_rows().0);
                } else {
                    assert(drawn.pixels(outline) =~= self.pixels(outline));
                }
            }
        }
        CirclePoints::new(&drawn, outline)
    }

    /// The circle on the signed grid about the same point and within the same
    /// limits, with all coordinates and the radius read as signed: values
    /// beyond the signed range wrap around.
    pub fn as_circle_ivec2(&self) -> (c: CircleIVec2)
        ensures
            c == self.as_circle_ivec2_spec(),
    {
        let r = UVec2::splat(self.radius).as_ivec2();
        let limits = match self.limits {
            Some(l) => Some(l.as_rectangle_ivec2()),
            None => None,
        };
        CircleIVec2 { pos: self.pos.as_ivec2(), radius: r.x, limits }
    }
}

/// A circle that lies, with its limits, on the part of the grid that the
/// signed and the unsigned coordinates share has the pixels of the signed
/// circle about the same point, with the same radius and the same limits.
pub proof fn lemma_pixels_as_signed(c: Circle, outline: bool)
    requires
        c.fits_signed(),
    ensures
        c.as_circle_ivec2_spec().pos@ == c.pos@,
        c.as_circle_ivec2_spec().radius == c.radius,
        c.pixels(outline) == c.as_circle_ivec2_spec().pixels(outline),
{
    let s = c.as_circle_ivec2_spec();
    assert(s.disc() == c.disc());
    assert(s.drawn_rows() == c.drawn_rows());
}

/// The filled pixels of a circle are exactly the pixels that belong to it
/// and lie within its limits, where the limits hold the columns from
/// `tl.x` up to, not including, `br.x` and the rows from `tl.y` up to, not
/// including, `br.y`.
pub proof fn lemma_filled_pixels_are_contained(c: Circle, p: (int, int))
    ensures
        c.pixels(false).contains(p) == (c.covers(p) && match c.limits {
            Some(l) => l.tl.x <= p.0 < l.br.x && l.tl.y <= p.1 < l.br.y,
            None => true,
        }),
{
    let d = c.disc();
    let whole = disc_of(c.pos@, c.radius as int, None);
    assert(whole == Disc { clip: None, ..d });
    lemma_disc_rows_contain(d, c.drawn_rows().0, c.drawn_rows().1, p);
    lemma_clipped_span(d, p.1, p.0);
    lemma_disc_row_span(c.pos@, c.radius as int, p.1, p.0);
    if !(c.pos.y - c.radius <= p.1 < c.pos.y + c.radius) {
        lemma_disc_within_bounding_box(c.pos@, c.radius as int, p);
    }
}

/// A circle whose limited bounding box has no area has no pixels, filled or
/// outlined: the limits lie apart from the bounding box or only touch it.
pub proof fn lemma_apart_from_limits_has_no_pixels(c: Circle, outline: bool)
    requires
        c.limits matches Some(l) && (max_int(c.pos.x - c.radius, l.tl.x as int) >= min_int(
            c.pos.x + c.radius,
            l.br.x as int,
        ) || max_int(c.pos.y - c.radius, l.tl.y as int) >= min_int(
            c.pos.y + c.radius,
            l.br.y as int,
        )),
    ensures
        c.pixels(outline).len() == 0,
{
    let l = c.limits->0;
    if max_int(c.pos.x - c.radius, l.tl.x as int) >= min_int(c.pos.x + c.radius, l.br.x as int) {
        lemma_clip_apart_from_bounding_box(
            c.disc(),
            c.drawn_rows().0,
            c.drawn_rows().1,
            outline,
        );
    }
}

impl Default for Circle {
    fn default() -> (c: Circle)
        ensures
            c.pos@ == (0int, 0int),
            c.radius == 0,
            c.limits is None,
    {
        Circle { pos: UVec2::splat(0), radius: 0, limits: None }
    }
}

} // verus!
