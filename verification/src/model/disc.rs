//! Discs on the pixel grid, in the doubled coordinate frame.
//!
//! A circle of radius `r` about `pos` covers the `2r` columns and rows
//! before and after `pos`, so its true centre lies half a pixel before `pos`
//! on both axes. All distances are therefore taken in a frame scaled by two,
//! where that centre and every pixel have integer coordinates.

use vstd::prelude::*;
use crate::model::grid::{lemma_scanline_in_order, row_major_less, scanline_points};
use crate::point::{max_int, min_int};

verus! {

/// One coordinate of the centre of a circle in the doubled frame.
pub open spec fn doubled_center(pos: int, radius: int) -> int {
    (pos - radius) * 2 + (2 * radius - 1)
}

/// The squared distance in the doubled frame below which a pixel belongs to
/// a circle of the given diameter. Circles of diameter 4 and less are cut a
/// little closer, which keeps them round.
pub open spec fn threshold_of(diameter: int) -> int {
    if diameter <= 4 {
        diameter * diameter - diameter / 2
    } else {
        diameter * diameter
    }
}

/// The squared distance in the doubled frame between the centre `c2` (given
/// in that frame) and the pixel `p`.
pub open spec fn doubled_distance_squared(c2: (int, int), p: (int, int)) -> int {
    (c2.0 - 2 * p.0) * (c2.0 - 2 * p.0) + (c2.1 - 2 * p.1) * (c2.1 - 2 * p.1)
}

/// Whether the pixel `p` belongs to the disc about `c2` with the given
/// threshold.
pub open spec fn in_disc(c2: (int, int), threshold: int, p: (int, int)) -> bool {
    doubled_distance_squared(c2, p) < threshold
}

/// The pixel that lies opposite `p` across the centre `c2`: `p` turned by
/// 180 degrees about the centre.
pub open spec fn opposite(c2: (int, int), p: (int, int)) -> (int, int) {
    (c2.0 - p.0, c2.1 - p.1)
}

/// The first column from `x` up to, not including, `x_end` whose pixel in the
/// row `y` belongs to the disc, or `x_end` where there is none.
pub open spec fn first_inside(c2: (int, int), threshold: int, y: int, x: int, x_end: int) -> int
    decreases x_end - x,
{
    if x >= x_end {
        x_end
    } else if in_disc(c2, threshold, (x, y)) {
        x
    } else {
        first_inside(c2, threshold, y, x + 1, x_end)
    }
}

/// The disc as the rasteriser sees it: its centre and threshold in the
/// doubled frame, the columns of its bounding box, and the columns to which
/// it is clipped, if any.
pub struct Disc {
    pub c2: (int, int),
    pub threshold: int,
    pub columns: (int, int),
    pub clip: Option<(int, int)>,
}

/// The columns that the disc covers in the row `y`, as a first column and the
/// column behind the last one: from the first column of the bounding box
/// that belongs to the disc up to the same distance before the end of the
/// bounding box, cut down to the clip columns. A row without any column in
/// the disc has the empty span at the end of the bounding box.
pub open spec fn disc_row_span(d: Disc, y: int) -> (int, int) {
    let first = first_inside(d.c2, d.threshold, y, d.columns.0, d.columns.1);
    if first >= d.columns.1 {
        (d.columns.1, d.columns.1)
    } else {
        let end = d.columns.1 - (first - d.columns.0);
        match d.clip {
            Some(c) => (max_int(first, c.0), min_int(end, c.1)),
            None => (first, end),
        }
    }
}

/// The points of the disc in the row `y`.
pub open spec fn disc_row(d: Disc, y: int, outline: bool) -> Seq<(int, int)> {
    let span = disc_row_span(d, y);
    scanline_points(y, span.0, span.1, outline)
}

/// The points of the disc in the rows from `y` up to, not including,
/// `y_end`, row after row.
pub open spec fn disc_rows_from(d: Disc, y: int, y_end: int, outline: bool) -> Seq<(int, int)>
    decreases y_end - y,
{
    if y >= y_end {
        Seq::empty()
    } else {
        disc_row(d, y, outline) + disc_rows_from(d, y + 1, y_end, outline)
    }
}

/// A pixel belongs to a disc exactly if the pixel opposite it does.
pub proof fn lemma_disc_is_symmetric(c2: (int, int), threshold: int, p: (int, int))
    ensures
        in_disc(c2, threshold, p) == in_disc(c2, threshold, opposite(c2, p)),
        opposite(c2, opposite(c2, p)) == p,
{
    let a = c2.0 - 2 * p.0;
    let b = c2.1 - 2 * p.1;
    assert(c2.0 - 2 * (c2.0 - p.0) == -a);
    assert(c2.1 - 2 * (c2.1 - p.1) == -b);
    assert((-a) * (-a) == a * a) by (nonlinear_arith);
    assert((-b) * (-b) == b * b) by (nonlinear_arith);
}

/// Where `first_inside` finds a column, that column belongs to the disc and
/// no column before it does; where it finds none, no column does.
pub proof fn lemma_first_inside(c2: (int, int), threshold: int, y: int, x: int, x_end: int)
    requires
        x <= x_end,
    ensures
        x <= first_inside(c2, threshold, y, x, x_end) <= x_end,
        first_inside(c2, threshold, y, x, x_end) < x_end ==> in_disc(
            c2,
            threshold,
            (first_inside(c2, threshold, y, x, x_end), y),
        ),
        forall|i: int|
            x <= i < first_inside(c2, threshold, y, x, x_end) ==> !in_disc(c2, threshold, (i, y)),
    decreases x_end - x,
{
    if x < x_end && !in_disc(c2, threshold, (x, y)) {
        lemma_first_inside(c2, threshold, y, x + 1, x_end);
    }
}

/// The disc of the circle of the given radius about `pos`, clipped to the
/// columns `clip` if there are any.
pub open spec fn disc_of(pos: (int, int), radius: int, clip: Option<(int, int)>) -> Disc {
    Disc {
        c2: (doubled_center(pos.0, radius), doubled_center(pos.1, radius)),
        threshold: threshold_of(2 * radius),
        columns: (pos.0 - radius, pos.0 + radius),
        clip,
    }
}

/// The square of a number is the square of its absolute value, and grows
/// with it.
proof fn lemma_square_grows(a: int, b: int)
    requires
        -b <= a <= b,
    ensures
        0 <= a * a <= b * b,
{
    assert(0 <= a * a <= b * b) by (nonlinear_arith)
        requires
            -b <= a <= b,
    ;
}

/// A pixel that is `radius` or more columns or rows before `pos`, or more
/// than that after it, lies outside the disc: the disc lies within its
/// bounding box.
pub proof fn lemma_disc_within_bounding_box(pos: (int, int), radius: int, p: (int, int))
    requires
        radius >= 0,
        !(pos.0 - radius <= p.0 < pos.0 + radius && pos.1 - radius <= p.1 < pos.1 + radius),
    ensures
        !in_disc(disc_of(pos, radius, None).c2, threshold_of(2 * radius), p),
{
    let d = 2 * radius;
    let c2 = disc_of(pos, radius, None).c2;
    let u = c2.0 - 2 * p.0;
    let v = c2.1 - 2 * p.1;
    assert(threshold_of(d) <= d * d);
    assert(d * d < (d + 1) * (d + 1)) by (nonlinear_arith)
        requires
            d >= 0,
    ;
    assert(u * u >= 0) by (nonlinear_arith);
    assert(v * v >= 0) by (nonlinear_arith);
    if p.0 < pos.0 - radius {
        lemma_square_grows(d + 1, u);
    } else if p.0 >= pos.0 + radius {
        lemma_square_grows(d + 1, -u);
        assert((-u) * (-u) == u * u) by (nonlinear_arith);
    } else if p.1 < pos.1 - radius {
        lemma_square_grows(d + 1, v);
    } else {
        lemma_square_grows(d + 1, -v);
        assert((-v) * (-v) == v * v) by (nonlinear_arith);
    }
}

/// A disc is symmetric within each row: a pixel belongs to it exactly if the
/// pixel at the same distance on the other side of the centre does.
proof fn lemma_disc_row_is_symmetric(c2: (int, int), threshold: int, p: (int, int))
    ensures
        in_disc(c2, threshold, p) == in_disc(c2, threshold, (c2.0 - p.0, p.1)),
{
    let a = c2.0 - 2 * p.0;
    assert(c2.0 - 2 * (c2.0 - p.0) == -a);
    assert((-a) * (-a) == a * a) by (nonlinear_arith);
}

/// In each row the span of a disc without clip holds exactly the pixels of
/// the row that belong to the disc.
pub proof fn lemma_disc_row_span(pos: (int, int), radius: int, y: int, x: int)
    requires
        radius >= 0,
    ensures
        ({
            let d = disc_of(pos, radius, None);
            let span = disc_row_span(d, y);
            (span.0 <= x < span.1) == in_disc(d.c2, d.threshold, (x, y))
        }),
{
    let d = disc_of(pos, radius, None);
    let c2 = d.c2;
    let t = d.threshold;
    let col0 = d.columns.0;
    let col1 = d.columns.1;
    let first = first_inside(c2, t, y, col0, col1);
    lemma_first_inside(c2, t, y, col0, col1);
    if x < col0 || x >= col1 {
        lemma_disc_within_bounding_box(pos, radius, (x, y));
    } else if first >= col1 {
    } else {
        let end = col1 - (first - col0);
        let far = c2.0 - first;
        assert(end == far + 1);
        // The first pixel of the row lies before the centre.
        if first > far {
            lemma_disc_row_is_symmetric(c2, t, (first, y));
            assert(col0 <= far < first);
            assert(false);
        }
        if x < first {
        } else if x <= far {
            let u = c2.0 - 2 * x;
            let w = c2.0 - 2 * first;
            lemma_square_grows(u, w);
        } else {
            lemma_disc_row_is_symmetric(c2, t, (x, y));
            assert(col0 <= c2.0 - x < first);
        }
    }
}

/// A filled row holds exactly the pixels of its columns.
pub proof fn lemma_filled_scanline_contains(y: int, x0: int, x1: int, p: (int, int))
    ensures
        scanline_points(y, x0, x1, false).contains(p) == (p.1 == y && x0 <= p.0 < x1),
{
    let row = scanline_points(y, x0, x1, false);
    if p.1 == y && x0 <= p.0 < x1 {
        assert(row[p.0 - x0] == p);
    }
}

/// The filled rows of a disc hold exactly the pixels of those rows that lie
/// within the span of their row.
pub proof fn lemma_disc_rows_contain(d: Disc, y: int, y_end: int, p: (int, int))
    ensures
        disc_rows_from(d, y, y_end, false).contains(p) == (y <= p.1 < y_end && disc_row_span(
            d,
            p.1,
        ).0 <= p.0 < disc_row_span(d, p.1).1),
    decreases y_end - y,
{
    if y < y_end {
        let row = disc_row(d, y, false);
        let rest = disc_rows_from(d, y + 1, y_end, false);
        let all = disc_rows_from(d, y, y_end, false);
        lemma_disc_rows_contain(d, y + 1, y_end, p);
        lemma_filled_scanline_contains(y, disc_row_span(d, y).0, disc_row_span(d, y).1, p);
        assert(all == row + rest);
        if row.contains(p) {
            let i = choose|i: int| 0 <= i < row.len() && row[i] == p;
            assert(all[i] == p);
        }
        if rest.contains(p) {
            let i = choose|i: int| 0 <= i < rest.len() && rest[i] == p;
            assert(all[row.len() + i] == p);
        }
        if all.contains(p) {
            let i = choose|i: int| 0 <= i < all.len() && all[i] == p;
            if i < row.len() {
                assert(row[i] == p);
            } else {
                assert(rest[i - row.len()] == p);
            }
        }
    }
}

/// The span of a clipped disc in a row is the span of the disc without the
/// clip, cut down to the clip.
pub proof fn lemma_clipped_span(d: Disc, y: int, x: int)
    ensures
        ({
            let whole = disc_row_span(Disc { clip: None, ..d }, y);
            let span = disc_row_span(d, y);
            (span.0 <= x < span.1) == (whole.0 <= x < whole.1 && match d.clip {
                Some(c) => c.0 <= x < c.1,
                None => true,
            })
        }),
{
}

/// In every row of its bounding box a circle of radius one or more covers
/// the two columns at its centre.
pub proof fn lemma_disc_covers_centre_columns(pos: (int, int), radius: int, y: int)
    requires
        radius >= 1,
        pos.1 - radius <= y < pos.1 + radius,
    ensures
        in_disc(disc_of(pos, radius, None).c2, threshold_of(2 * radius), (pos.0 - 1, y)),
        in_disc(disc_of(pos, radius, None).c2, threshold_of(2 * radius), (pos.0, y)),
{
    let d = 2 * radius;
    let c2 = disc_of(pos, radius, None).c2;
    let v = c2.1 - 2 * y;
    lemma_square_grows(v, d - 1);
    assert((d - 1) * (d - 1) == d * d - 2 * d + 1) by (nonlinear_arith);
    let before = c2.0 - 2 * (pos.0 - 1);
    let after = c2.0 - 2 * pos.0;
    assert(before == 1 && after == -1);
    assert(before * before == 1 && after * after == 1) by (nonlinear_arith)
        requires
            before == 1,
            after == -1,
    ;
    if d <= 4 {
        assert(d == 2 || d == 4);
        assert(d * d == 4 || d * d == 16) by (nonlinear_arith)
            requires
                d == 2 || d == 4,
        ;
    }
    assert(1 + v * v < threshold_of(d));
}

/// In every row of its bounding box the span of a circle of radius one or
/// more, without clip, is at least two columns wide, so the outline of the
/// row is its two ends.
pub proof fn lemma_disc_outline_row(pos: (int, int), radius: int, y: int)
    requires
        radius >= 1,
        pos.1 - radius <= y < pos.1 + radius,
    ensures
        ({
            let d = disc_of(pos, radius, None);
            let span = disc_row_span(d, y);
            &&& span.0 < pos.0 <= span.1 - 1
            &&& disc_row(d, y, true) == seq![(span.0, y), (span.1 - 1, y)]
        }),
{
    lemma_disc_covers_centre_columns(pos, radius, y);
    lemma_disc_row_span(pos, radius, y, pos.0 - 1);
    lemma_disc_row_span(pos, radius, y, pos.0);
}

/// The outline of the rows from `y` on of a circle of radius one or more,
/// without clip, has two points for each row.
pub proof fn lemma_disc_outline_rows_len(pos: (int, int), radius: int, y: int, y_end: int)
    requires
        radius >= 1,
        pos.1 - radius <= y <= y_end <= pos.1 + radius,
    ensures
        disc_rows_from(disc_of(pos, radius, None), y, y_end, true).len() == 2 * (y_end - y),
    decreases y_end - y,
{
    if y < y_end {
        lemma_disc_outline_row(pos, radius, y);
        lemma_disc_outline_rows_len(pos, radius, y + 1, y_end);
    }
}

/// The points of the rows of a disc from `y` on lie in those rows and come in
/// row-major order.
pub proof fn lemma_disc_rows_in_order(d: Disc, y: int, y_end: int, outline: bool, i: int, j: int)
    requires
        0 <= i < disc_rows_from(d, y, y_end, outline).len(),
    ensures
        y <= disc_rows_from(d, y, y_end, outline)[i].1 < y_end,
        i < j < disc_rows_from(d, y, y_end, outline).len() ==> row_major_less(
            disc_rows_from(d, y, y_end, outline)[i],
            disc_rows_from(d, y, y_end, outline)[j],
        ),
    decreases y_end - y,
{
    let span = disc_row_span(d, y);
    let row = disc_row(d, y, outline);
    let rest = disc_rows_from(d, y + 1, y_end, outline);
    let all = disc_rows_from(d, y, y_end, outline);
    assert(all == row + rest);
    if i < row.len() {
        lemma_scanline_in_order(y, span.0, span.1, outline, i, j);
        assert(all[i] == row[i]);
    } else {
        lemma_disc_rows_in_order(d, y + 1, y_end, outline, i - row.len(), j - row.len());
        assert(all[i] == rest[i - row.len()]);
    }
    if i < j < all.len() {
        if j < row.len() {
            assert(all[j] == row[j]);
        } else {
            lemma_disc_rows_in_order(d, y + 1, y_end, outline, j - row.len(), j - row.len());
            assert(all[j] == rest[j - row.len()]);
        }
    }
}

/// Clip columns that lie at or beyond `bound` cut a disc whose bounding box
/// ends at or before `bound` as `bound` itself does: no column of the disc
/// lies there.
pub proof fn lemma_clip_beyond_bounding_box(
    d: Disc,
    clip: (int, int),
    bound: int,
    y: int,
    y_end: int,
    outline: bool,
)
    requires
        d.columns.0 <= d.columns.1 <= bound,
    ensures
        disc_rows_from(Disc { clip: Some(clip), ..d }, y, y_end, outline) == disc_rows_from(
            Disc { clip: Some((min_int(clip.0, bound), min_int(clip.1, bound))), ..d },
            y,
            y_end,
            outline,
        ),
    decreases y_end - y,
{
    if y < y_end {
        lemma_first_inside(d.c2, d.threshold, y, d.columns.0, d.columns.1);
        lemma_clip_beyond_bounding_box(d, clip, bound, y + 1, y_end, outline);
        let cut = (min_int(clip.0, bound), min_int(clip.1, bound));
        assert(disc_row(Disc { clip: Some(clip), ..d }, y, outline) =~= disc_row(
            Disc { clip: Some(cut), ..d },
            y,
            outline,
        ));
    }
}

/// A disc whose clip columns have no column in common with its bounding box
/// has no points in any row.
pub proof fn lemma_clip_apart_from_bounding_box(d: Disc, y: int, y_end: int, outline: bool)
    requires
        d.columns.0 <= d.columns.1,
        d.clip matches Some(c) && max_int(d.columns.0, c.0) >= min_int(d.columns.1, c.1),
    ensures
        disc_rows_from(d, y, y_end, outline).len() == 0,
    decreases y_end - y,
{
    if y < y_end {
        lemma_first_inside(d.c2, d.threshold, y, d.columns.0, d.columns.1);
        lemma_clip_apart_from_bounding_box(d, y + 1, y_end, outline);
    }
}

} // verus!
