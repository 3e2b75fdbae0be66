//! Circles on the signed integer grid.

use vstd::prelude::*;
use crate::iters::circle_iter::CirclePoints;
use crate::iters::PixelIter;
use crate::ivec2::rectangle::Rectangle;
use crate::model::disc::{
    disc_of, disc_row, disc_row_span, disc_rows_from, doubled_center, in_disc,
    lemma_clip_apart_from_bounding_box, lemma_clipped_span, lemma_disc_is_symmetric, lemma_disc_outline_row,
    lemma_disc_outline_rows_len, lemma_disc_row_span, lemma_disc_rows_contain,
    lemma_disc_rows_in_order, lemma_disc_within_bounding_box, opposite, threshold_of, Disc,
};
use crate::model::grid::row_major_less;
use crate::point::{max_int, min_int, wrap_to_unsigned, I64Vec2, IVec2};
use crate::uvec2::circle::Circle as CircleUVec2;

verus! {

/// A circle about `pos` with the given radius, drawn only within `limits`
/// where there are any.
///
/// The circle covers `radius` columns and rows before `pos` and as many from
/// `pos` on. The radius is not negative.
#[derive(Debug, Copy, Clone, PartialEq, Eq)]
pub struct Circle {
    pub pos: IVec2,
    pub radius: i32,
    pub limits: Option<Rectangle>,
}

/// The threshold for a circle of the given diameter: the squared distance in
/// the doubled frame below which a pixel belongs to the circle.
pub fn diameter_to_threshold(diameter: i64) -> (t: i128)
    requires
        0 <= diameter,
    ensures
        t == threshold_of(diameter as int),
{
    let d = diameter as i128;
    assert(0 <= d * d <= 0x8000_0000_0000_0000 * 0x8000_0000_0000_0000) by (nonlinear_arith)
        requires
            0 <= d <= 0x8000_0000_0000_0000,
    ;
    if diameter <= 4 {
        d * d - d / 2
    } else {
        d * d
    }
}

impl Circle {
    /// Whether the radius is not negative.
    pub open spec fn wf(&self) -> bool {
        self.radius >= 0
    }

    /// Whether the bounding box lies within the grid: no coordinate of it
    /// is beyond the range of a pixel coordinate.
    pub open spec fn bounded(&self) -> bool {
        &&& i32::MIN <= self.pos.x - self.radius
        &&& self.pos.x + self.radius <= i32::MAX
        &&& i32::MIN <= self.pos.y - self.radius
        &&& self.pos.y + self.radius <= i32::MAX
    }

    /// Whether the bounding box and the limits have columns and rows in
    /// common, if only an empty strip between two that touch. Without limits
    /// they do.
    pub open spec fn meets_limits(&self) -> bool {
        match self.limits {
            Some(l) => {
                &&& max_int(self.pos.x - self.radius, l.tl.x as int) <= min_int(
                    self.pos.x + self.radius,
                    l.br.x as int,
                )
                &&& max_int(self.pos.y - self.radius, l.tl.y as int) <= min_int(
                    self.pos.y + self.radius,
                    l.br.y as int,
                )
            },
            None => true,
        }
    }

    /// The centre in the doubled frame.
    pub open spec fn center_2x_spec(&self) -> (int, int) {
        (
            doubled_center(self.pos.x as int, self.radius as int),
            doubled_center(self.pos.y as int, self.radius as int),
        )
    }

    /// The threshold of the circle.
    pub open spec fn threshold_spec(&self) -> int {
        threshold_of(2 * self.radius)
    }

    /// Whether the pixel `p` belongs to the circle, whatever the limits.
    pub open spec fn covers(&self, p: (int, int)) -> bool {
        in_disc(self.center_2x_spec(), self.threshold_spec(), p)
    }

    /// The circle as the rasteriser sees it.
    pub open spec fn disc(&self) -> Disc {
        Disc {
            c2: self.center_2x_spec(),
            threshold: self.threshold_spec(),
            columns: (self.pos.x - self.radius, self.pos.x + self.radius),
            clip: match self.limits {
                Some(l) => Some((l.tl.x as int, l.br.x as int)),
                None => None,
            },
        }
    }

    /// The rows in which the circle is drawn: those of its bounding box, cut
    /// down to the rows of the limits.
    pub open spec fn drawn_rows(&self) -> (int, int) {
        match self.limits {
            Some(l) => (
                max_int(self.pos.y - self.radius, l.tl.y as int),
                min_int(self.pos.y + self.radius, l.br.y as int),
            ),
            None => (self.pos.y - self.radius, self.pos.y + self.radius),
        }
    }

    /// The pixels of the circle in the order in which they are handed out:
    /// row after row, and in each row the span that the circle covers, whole
    /// or in outline mode its two ends.
    pub open spec fn pixels(&self, outline: bool) -> Seq<(int, int)> {
        disc_rows_from(self.disc(), self.drawn_rows().0, self.drawn_rows().1, outline)
    }

    /// The circle about `pos` with the given radius, without limits.
    pub fn new(pos: IVec2, radius: i32) -> (c: Circle)
        requires
            radius >= 0,
        ensures
            c.wf(),
            c.pos == pos,
            c.radius == radius,
            c.limits is None,
    {
        Circle { pos, radius, limits: None }
    }

    /// The circle about `pos` with the given radius, drawn only within
    /// `limits`.
    pub fn new_with_limits(pos: IVec2, radius: i32, limits: Rectangle) -> (c: Circle)
        requires
            radius >= 0,
        ensures
            c.wf(),
            c.pos == pos,
            c.radius == radius,
            c.limits == Some(limits),
    {
        Circle { pos, radius, limits: Some(limits) }
    }

    /// The bounding box of the circle, whatever the limits: from `radius`
    /// before `pos` to `radius` after it on both axes.
    pub fn bounding_box(&self) -> (r: Rectangle)
        requires
            self.wf(),
            self.bounded(),
        ensures
            r.wf(),
            r.tl@ == (self.pos.x - self.radius, self.pos.y - self.radius),
            r.br@ == (self.pos.x + self.radius, self.pos.y + self.radius),
    {
        let tl = IVec2::new(self.pos.x - self.radius, self.pos.y - self.radius);
        let br = IVec2::new(self.pos.x + self.radius, self.pos.y + self.radius);
        Rectangle::new(tl, br)
    }

    /// The bounding box cut down to the limits: what the two have in common.
    /// Where they have nothing in common along an axis the corners of the
    /// result are out of order along that axis, and it has no pixels. Without
    /// limits it is the bounding box itself.
    pub fn limited_bounding_box(&self) -> (r: Rectangle)
        requires
            self.wf(),
            self.bounded(),
        ensures
            (match self.limits {
                Some(l) => ({
                    &&& r.tl.x == max_int(self.pos.x - self.radius, l.tl.x as int)
                    &&& r.tl.y == max_int(self.pos.y - self.radius, l.tl.y as int)
                    &&& r.br.x == min_int(self.pos.x + self.radius, l.br.x as int)
                    &&& r.br.y == min_int(self.pos.y + self.radius, l.br.y as int)
                }),
                None => ({
                    &&& r.tl@ == (self.pos.x - self.radius, self.pos.y - self.radius)
                    &&& r.br@ == (self.pos.x + self.radius, self.pos.y + self.radius)
                }),
            }),
            r.wf() == self.meets_limits(),
    {
        let bounding_box = self.bounding_box();
        if let Some(limits) = self.limits {
            Rectangle::new_with_limits(bounding_box.tl, bounding_box.br, limits)
        } else {
            bounding_box
        }
    }

    /// The centre of the circle in the doubled frame. It is not twice `pos`:
    /// the centre lies half a pixel before `pos` on both axes.
    pub fn center_2x(&self) -> (c: I64Vec2)
        ensures
            c@ == self.center_2x_spec(),
    {
        let r = self.radius as i64;
        I64Vec2 {
            x: (self.pos.x as i64 - r) * 2 + (2 * r - 1),
            y: (self.pos.y as i64 - r) * 2 + (2 * r - 1),
        }
    }

    /// The threshold of the circle: the squared distance in the doubled frame
    /// below which a pixel belongs to it.
    pub fn threshold(&self) -> (t: i128)
        requires
            self.wf(),
        ensures
            t == self.threshold_spec(),
    {
        diameter_to_threshold(self.radius as i64 * 2)
    }

    /// The position of the circle: the point it was made about.
    pub fn position(&self) -> (p: IVec2)
        ensures
            p == self.pos,
    {
        self.pos
    }

    /// The centre of the circle as a pixel: the point it was made about.
    pub fn center(&self) -> (p: IVec2)
        ensures
            p == self.pos,
    {
        self.pos
    }

    /// Whether the pixel `coord` belongs to the circle, whatever the limits:
    /// its squared distance from the centre, taken in the doubled frame, is
    /// below the threshold.
    pub fn contains(&self, coord: IVec2) -> (b: bool)
        requires
            self.wf(),
        ensures
            b == self.covers(coord@),
    {
        let c = self.center_2x();
        inside(c, self.threshold(), coord.x as i64, coord.y as i64)
    }

    /// The circle on the unsigned grid about the same point and within the
    /// same limits, with all coordinates and the radius read as unsigned:
    /// negative values wrap around.
    pub fn as_circle_uvec2(&self) -> (c: CircleUVec2)
        ensures
            c.pos.x == wrap_to_unsigned(self.pos.x as int),
            c.pos.y == wrap_to_unsigned(self.pos.y as int),
            c.radius == wrap_to_unsigned(self.radius as int),
            (match self.limits {
                Some(l) => ({
                    &&& c.limits is Some
                    &&& c.limits->0.tl.x == wrap_to_unsigned(l.tl.x as int)
                    &&& c.limits->0.tl.y == wrap_to_unsigned(l.tl.y as int)
                    &&& c.limits->0.br.x == wrap_to_unsigned(l.br.x as int)
                    &&& c.limits->0.br.y == wrap_to_unsigned(l.br.y as int)
                }),
                None => c.limits is None,
            }),
    {
        let r = IVec2::splat(self.radius).as_uvec2();
        let limits = match self.limits {
            Some(l) => Some(l.as_rectangle_uvec2()),
            None => None,
        };
        CircleUVec2 { pos: self.pos.as_uvec2(), radius: r.x, limits }
    }

    /// The pixels of the circle, one per call of `next`.
    pub fn pixel_iter(&self, outline: bool) -> (it: CirclePoints)
        requires
            self.wf(),
            self.bounded(),
        ensures
            it.wf(),
            it.remaining() == self.pixels(outline),
    {
        CirclePoints::new(self, outline)
    }
}

/// Whether the pixel `(x, y)` lies within `threshold` of the doubled centre
/// `c`.
pub(crate) fn inside(c: I64Vec2, threshold: i128, x: i64, y: i64) -> (b: bool)
    requires
        -0x2_0000_0000 <= c.x <= 0x2_0000_0000,
        -0x2_0000_0000 <= c.y <= 0x2_0000_0000,
        -0x1_0000_0000 <= x <= 0x1_0000_0000,
        -0x1_0000_0000 <= y <= 0x1_0000_0000,
    ensures
        b == in_disc(c@, threshold as int, (x as int, y as int)),
{
    let dx: i128 = c.x as i128 - 2 * (x as i128);
    let dy: i128 = c.y as i128 - 2 * (y as i128);
    assert(0 <= dx * dx <= 0x4_0000_0000 * 0x4_0000_0000) by (nonlinear_arith)
        requires
            -0x4_0000_0000 <= dx <= 0x4_0000_0000,
    ;
    assert(0 <= dy * dy <= 0x4_0000_0000 * 0x4_0000_0000) by (nonlinear_arith)
        requires
            -0x4_0000_0000 <= dy <= 0x4_0000_0000,
    ;
    dx * dx + dy * dy < threshold
}

/// A circle is symmetric about its centre: a pixel belongs to it exactly if
/// the pixel opposite it does, the one that a turn by 180 degrees about the
/// centre takes it to.
pub proof fn lemma_contains_is_symmetric(c: Circle, p: (int, int))
    ensures
        c.covers(p) == c.covers(opposite(c.center_2x_spec(), p)),
{
    lemma_disc_is_symmetric(c.center_2x_spec(), c.threshold_spec(), p);
}

/// The filled pixels of a circle are exactly the pixels that belong to it
/// and lie within its limits, where the limits hold the columns from
/// `tl.x` up to, not including, `br.x` and the rows from `tl.y` up to, not
/// including, `br.y`.
pub proof fn lemma_filled_pixels_are_contained(c: Circle, p: (int, int))
    requires
        c.wf(),
    ensures
        c.pixels(false).contains(p) == (c.covers(p) && match c.limits {
            Some(l) => l.tl.x <= p.0 < l.br.x && l.tl.y <= p.1 < l.br.y,
            None => true,
        }),
{
    let d = c.disc();
    let whole = disc_of(c.pos@, c.radius as int, None);
    assert(whole == Disc { clip: None, ..d });
    lemma_disc_rows_contain(d, c.drawn_rows().0, c.drawn_rows().1, p);
    lemma_clipped_span(d, p.1, p.0);
    lemma_disc_row_span(c.pos@, c.radius as int, p.1, p.0);
    if !(c.pos.y - c.radius <= p.1 < c.pos.y + c.radius) {
        lemma_disc_within_bounding_box(c.pos@, c.radius as int, p);
    }
}

/// The filled pixels of a circle all lie among the pixels of its limited
/// bounding box: in the columns from its `tl.x` up to, not including, its
/// `br.x` and the rows from its `tl.y` up to, not including, its `br.y`. A
/// circle whose bounding box does not meet its limits has no pixels.
pub proof fn lemma_filled_pixels_within_limited_bounding_box(c: Circle, p: (int, int))
    requires
        c.wf(),
        c.pixels(false).contains(p),
    ensures
        c.meets_limits(),
        c.pos.x - c.radius <= p.0 < c.pos.x + c.radius,
        c.pos.y - c.radius <= p.1 < c.pos.y + c.radius,
        c.limits matches Some(l) ==> l.tl.x <= p.0 < l.br.x && l.tl.y <= p.1 < l.br.y,
{
    lemma_filled_pixels_are_contained(c, p);
    if !(c.pos.x - c.radius <= p.0 < c.pos.x + c.radius && c.pos.y - c.radius <= p.1 < c.pos.y
        + c.radius) {
        lemma_disc_within_bounding_box(c.pos@, c.radius as int, p);
    }
}

/// A circle whose limited bounding box has no area has no pixels, filled or
/// outlined: the limits lie apart from the bounding box or only touch it.
pub proof fn lemma_apart_from_limits_has_no_pixels(c: Circle, outline: bool)
    requires
        c.wf(),
        c.limits matches Some(l) && (max_int(c.pos.x - c.radius, l.tl.x as int) >= min_int(
            c.pos.x + c.radius,
            l.br.x as int,
        ) || max_int(c.pos.y - c.radius, l.tl.y as int) >= min_int(
            c.pos.y + c.radius,
            l.br.y as int,
        )),
    ensures
        c.pixels(outline).len() == 0,
{
    let l = c.limits->0;
    if max_int(c.pos.x - c.radius, l.tl.x as int) >= min_int(c.pos.x + c.radius, l.br.x as int) {
        lemma_clip_apart_from_bounding_box(
            c.disc(),
            c.drawn_rows().0,
            c.drawn_rows().1,
            outline,
        );
    }
}

/// The pixels of a circle, filled or outlined, come in row-major order: each
/// one lies in a row below the one before, or in the same row further right.
/// So none of them comes twice.
pub proof fn lemma_pixels_in_row_major_order(c: Circle, outline: bool, i: int, j: int)
    requires
        0 <= i < j < c.pixels(outline).len(),
    ensures
        row_major_less(c.pixels(outline)[i], c.pixels(outline)[j]),
        c.pixels(outline)[i] != c.pixels(outline)[j],
{
    lemma_disc_rows_in_order(c.disc(), c.drawn_rows().0, c.drawn_rows().1, outline, i, j);
}

/// The outline of a circle without limits has two points in every row of its
/// bounding box, the top and the bottom row included: the first and the last
/// pixel of the circle in that row. A circle of radius zero has no pixels.
pub proof fn lemma_outline_has_two_points_per_row(c: Circle, y: int)
    requires
        c.wf(),
        c.limits is None,
    ensures
        c.pixels(true).len() == 4 * c.radius,
        c.pos.y - c.radius <= y < c.pos.y + c.radius ==> ({
            let span = disc_row_span(c.disc(), y);
            &&& span.0 < span.1 - 1
            &&& disc_row(c.disc(), y, true) == seq![(span.0, y), (span.1 - 1, y)]
        }),
{
    assert(c.disc() == disc_of(c.pos@, c.radius as int, None));
    if c.radius >= 1 {
        lemma_disc_outline_rows_len(
            c.pos@,
            c.radius as int,
            c.pos.y - c.radius,
            c.pos.y + c.radius,
        );
        if c.pos.y - c.radius <= y < c.pos.y + c.radius {
            lemma_disc_outline_row(c.pos@, c.radius as int, y);
        }
    }
}

impl Default for Circle {
    fn default() -> (c: Circle)
        ensures
            c.pos@ == (0int, 0int),
            c.radius == 0,
            c.limits is None,
    {
        Circle { pos: IVec2::splat(0), radius: 0, limits: None }
    }
}

} // verus!
