//! Rows of grid points, and rectangles as stacks of rows.

use vstd::prelude::*;

verus! {

/// The points of one row: of the columns from `x0` up to, not including,
/// `x1` in the row `y`, all of them from left to right, or in outline mode
/// only the first and, where it is another one, the last.
pub open spec fn scanline_points(y: int, x0: int, x1: int, outline: bool) -> Seq<(int, int)> {
    if x0 >= x1 {
        Seq::empty()
    } else if !outline {
        Seq::new((x1 - x0) as nat, |i: int| (x0 + i, y))
    } else if x1 - x0 == 1 {
        seq![(x0, y)]
    } else {
        seq![(x0, y), (x1 - 1, y)]
    }
}

/// Whether the outline of the rectangle of the rows from `y0` up to `y1`
/// shows only the two ends of the row `y`: it does of every row but the
/// first and the last.
pub open spec fn is_inner_row(y0: int, y1: int, y: int) -> bool {
    y != y0 && y != y1 - 1
}

/// The points of the row `y` of a rectangle.
pub open spec fn rect_row(x0: int, x1: int, y0: int, y1: int, y: int, outline: bool) -> Seq<
    (int, int),
> {
    scanline_points(y, x0, x1, outline && is_inner_row(y0, y1, y))
}

/// The points of the rows from `y` on of a rectangle, row after row.
pub open spec fn rect_rows_from(
    x0: int,
    x1: int,
    y0: int,
    y1: int,
    y: int,
    outline: bool,
) -> Seq<(int, int)>
    decreases y1 - y,
{
    if y >= y1 {
        Seq::empty()
    } else {
        rect_row(x0, x1, y0, y1, y, outline) + rect_rows_from(x0, x1, y0, y1, y + 1, outline)
    }
}

/// The points of the rectangle of the columns from `x0` up to `x1` and the
/// rows from `y0` up to `y1` (both upper ends not included), row after row
/// and from left to right in each row. In outline mode the first and the
/// last row are whole, and every other row shows its two ends.
pub open spec fn rect_pixels(x0: int, x1: int, y0: int, y1: int, outline: bool) -> Seq<(int, int)> {
    rect_rows_from(x0, x1, y0, y1, y0, outline)
}

/// A rectangle without columns has no points.
pub proof fn lemma_rect_rows_no_columns(x0: int, x1: int, y0: int, y1: int, y: int, outline: bool)
    requires
        x0 >= x1,
    ensures
        rect_rows_from(x0, x1, y0, y1, y, outline) == Seq::<(int, int)>::empty(),
    decreases y1 - y,
{
    if y < y1 {
        lemma_rect_rows_no_columns(x0, x1, y0, y1, y + 1, outline);
        assert(rect_rows_from(x0, x1, y0, y1, y, outline) =~= Seq::<(int, int)>::empty());
    }
}

/// A rectangle without columns or without rows has no points, filled or
/// outlined: one of width or height zero, or one whose corners are out of
/// order.
pub proof fn lemma_zero_sized_rect_is_empty(x0: int, x1: int, y0: int, y1: int, outline: bool)
    requires
        x0 >= x1 || y0 >= y1,
    ensures
        rect_pixels(x0, x1, y0, y1, outline).len() == 0,
{
    if x0 >= x1 {
        lemma_rect_rows_no_columns(x0, x1, y0, y1, y0, outline);
    }
}

/// The filled rows from `y` on hold one point for each column of each row,
/// and the point number `i` lies `i / w` rows down and `i % w` columns in.
pub proof fn lemma_filled_rows(x0: int, x1: int, y0: int, y1: int, y: int)
    requires
        x0 < x1,
        y <= y1,
    ensures
        rect_rows_from(x0, x1, y0, y1, y, false).len() == (x1 - x0) * (y1 - y),
        forall|i: int|
            0 <= i < (x1 - x0) * (y1 - y) ==> #[trigger] rect_rows_from(x0, x1, y0, y1, y, false)[i]
                == (x0 + i % (x1 - x0), y + i / (x1 - x0)),
    decreases y1 - y,
{
    let w = x1 - x0;
    if y < y1 {
        lemma_filled_rows(x0, x1, y0, y1, y + 1);
        let row = rect_row(x0, x1, y0, y1, y, false);
        let rest = rect_rows_from(x0, x1, y0, y1, y + 1, false);
        let all = rect_rows_from(x0, x1, y0, y1, y, false);
        assert(w * (y1 - y) == w + w * (y1 - (y + 1))) by (nonlinear_arith);
        assert forall|i: int| 0 <= i < w * (y1 - y) implies #[trigger] all[i] == (
            x0 + i % w,
            y + i / w,
        ) by {
            if i < w {
                vstd::arithmetic::div_mod::lemma_fundamental_div_mod_converse(i, w, 0, i);
                assert(all[i] == row[i]);
            } else {
                let j = i - w;
                assert(all[i] == rest[j]);
                vstd::arithmetic::div_mod::lemma_fundamental_div_mod(j, w);
                assert((j / w + 1) * w == w * (j / w) + w) by (nonlinear_arith);
                vstd::arithmetic::div_mod::lemma_mod_pos_bound(j, w);
                vstd::arithmetic::div_mod::lemma_fundamental_div_mod_converse(
                    i,
                    w,
                    j / w + 1,
                    j % w,
                );
            }
        }
    } else {
        assert((x1 - x0) * (y1 - y) == 0) by (nonlinear_arith)
            requires
                y1 - y == 0,
        ;
    }
}

/// A filled rectangle of width `w` and height `h` has `w * h` points; the
/// point number `i` is the one `i % w` columns and `i / w` rows from the top
/// left corner.
pub proof fn lemma_filled_rect(x0: int, x1: int, y0: int, y1: int)
    requires
        x0 < x1,
        y0 < y1,
    ensures
        rect_pixels(x0, x1, y0, y1, false).len() == (x1 - x0) * (y1 - y0),
        forall|i: int|
            0 <= i < (x1 - x0) * (y1 - y0) ==> #[trigger] rect_pixels(x0, x1, y0, y1, false)[i] == (
                x0 + i % (x1 - x0),
                y0 + i / (x1 - x0),
            ),
{
    lemma_filled_rows(x0, x1, y0, y1, y0);
}

/// The points of a filled rectangle are all different.
pub proof fn lemma_filled_rect_distinct(x0: int, x1: int, y0: int, y1: int, i: int, j: int)
    requires
        x0 < x1,
        y0 < y1,
        0 <= i < j < rect_pixels(x0, x1, y0, y1, false).len(),
    ensures
        rect_pixels(x0, x1, y0, y1, false)[i] != rect_pixels(x0, x1, y0, y1, false)[j],
{
    let w = x1 - x0;
    lemma_filled_rect(x0, x1, y0, y1);
    vstd::arithmetic::div_mod::lemma_fundamental_div_mod(i, w);
    vstd::arithmetic::div_mod::lemma_fundamental_div_mod(j, w);
}

/// A filled rectangle covers exactly the columns from `x0` up to `x1` in the
/// rows from `y0` up to `y1`: every point of it lies there, and every grid
/// point there is one of its points.
pub proof fn lemma_filled_rect_covers(x0: int, x1: int, y0: int, y1: int)
    requires
        x0 < x1,
        y0 < y1,
    ensures
        forall|i: int|
            0 <= i < rect_pixels(x0, x1, y0, y1, false).len() ==> ({
                let p = #[trigger] rect_pixels(x0, x1, y0, y1, false)[i];
                x0 <= p.0 < x1 && y0 <= p.1 < y1
            }),
        forall|x: int, y: int|
            x0 <= x < x1 && y0 <= y < y1 ==> #[trigger] rect_pixels(x0, x1, y0, y1, false).contains(
                (x, y),
            ),
{
    let w = x1 - x0;
    let h = y1 - y0;
    let px = rect_pixels(x0, x1, y0, y1, false);
    lemma_filled_rect(x0, x1, y0, y1);
    assert forall|i: int| 0 <= i < px.len() implies {
        let p = #[trigger] px[i];
        x0 <= p.0 < x1 && y0 <= p.1 < y1
    } by {
        vstd::arithmetic::div_mod::lemma_fundamental_div_mod(i, w);
        vstd::arithmetic::div_mod::lemma_mod_pos_bound(i, w);
        let q = i / w;
        assert(0 <= q < h) by (nonlinear_arith)
            requires
                0 <= i < w * h,
                i == w * q + i % w,
                0 <= i % w < w,
                w > 0,
        ;
    }
    assert forall|x: int, y: int| x0 <= x < x1 && y0 <= y < y1 implies #[trigger] px.contains(
        (x, y),
    ) by {
        let i = (y - y0) * w + (x - x0);
        assert(0 <= i < w * h) by (nonlinear_arith)
            requires
                i == (y - y0) * w + (x - x0),
                0 <= x - x0 < w,
                0 <= y - y0 < h,
        ;
        vstd::arithmetic::div_mod::lemma_fundamental_div_mod_converse(i, w, y - y0, x - x0);
        assert(px[i] == (x, y));
    }
}

/// The outlined rows from `y` on are the filled rows where the rectangle is
/// at most two columns wide, or where none of them is an inner row.
pub proof fn lemma_outline_rows_same_as_filled(x0: int, x1: int, y0: int, y1: int, y: int)
    requires
        x1 - x0 <= 2 || forall|r: int| y <= r < y1 ==> !is_inner_row(y0, y1, r),
    ensures
        rect_rows_from(x0, x1, y0, y1, y, true) == rect_rows_from(x0, x1, y0, y1, y, false),
    decreases y1 - y,
{
    if y < y1 {
        lemma_outline_rows_same_as_filled(x0, x1, y0, y1, y + 1);
        assert(rect_row(x0, x1, y0, y1, y, true) =~= rect_row(x0, x1, y0, y1, y, false));
    }
}

/// The outline of a rectangle that is at most two columns wide or at most
/// two rows high is the filled rectangle.
pub proof fn lemma_thin_outline_is_filled(x0: int, x1: int, y0: int, y1: int)
    requires
        x1 - x0 <= 2 || y1 - y0 <= 2,
    ensures
        rect_pixels(x0, x1, y0, y1, true) == rect_pixels(x0, x1, y0, y1, false),
{
    lemma_outline_rows_same_as_filled(x0, x1, y0, y1, y0);
}

/// In the outline of a rectangle that is more than two columns wide each
/// inner row holds two points, its first and its last column.
pub proof fn lemma_outline_inner_row(x0: int, x1: int, y0: int, y1: int, y: int)
    requires
        x1 - x0 > 2,
        y0 < y < y1 - 1,
    ensures
        rect_row(x0, x1, y0, y1, y, true) == seq![(x0, y), (x1 - 1, y)],
{
}

/// The outlined rows from `y` on of a rectangle that is more than two columns
/// wide: whole rows at the top and the bottom, two points in each row
/// between them.
pub proof fn lemma_outline_rows_len(x0: int, x1: int, y0: int, y1: int, y: int)
    requires
        x1 - x0 > 2,
        y1 - y0 > 2,
        y0 <= y <= y1,
    ensures
        rect_rows_from(x0, x1, y0, y1, y, true).len() == (if y == y1 {
            0
        } else if y == y0 {
            2 * (x1 - x0) + 2 * (y1 - y0 - 2)
        } else {
            (x1 - x0) + 2 * (y1 - 1 - y)
        }),
    decreases y1 - y,
{
    if y < y1 {
        lemma_outline_rows_len(x0, x1, y0, y1, y + 1);
    }
}

/// The outline of a rectangle of width `w > 2` and height `h > 2` has
/// `2 * w + 2 * (h - 2)` points.
pub proof fn lemma_outline_len(x0: int, x1: int, y0: int, y1: int)
    requires
        x1 - x0 > 2,
        y1 - y0 > 2,
    ensures
        rect_pixels(x0, x1, y0, y1, true).len() == 2 * (x1 - x0) + 2 * (y1 - y0 - 2),
{
    lemma_outline_rows_len(x0, x1, y0, y1, y0);
}

/// The rows from `y` on are the end of the rows from any earlier row `a` on.
pub proof fn lemma_rows_are_suffix(
    x0: int,
    x1: int,
    y0: int,
    y1: int,
    a: int,
    y: int,
    outline: bool,
)
    requires
        a <= y,
    ensures
        rect_rows_from(x0, x1, y0, y1, y, outline).len() <= rect_rows_from(
            x0,
            x1,
            y0,
            y1,
            a,
            outline,
        ).len(),
        rect_rows_from(x0, x1, y0, y1, a, outline).skip(
            rect_rows_from(x0, x1, y0, y1, a, outline).len() - rect_rows_from(
                x0,
                x1,
                y0,
                y1,
                y,
                outline,
            ).len(),
        ) == rect_rows_from(x0, x1, y0, y1, y, outline),
    decreases y - a,
{
    let from_a = rect_rows_from(x0, x1, y0, y1, a, outline);
    let from_y = rect_rows_from(x0, x1, y0, y1, y, outline);
    if a == y {
        assert(from_a.skip(0) =~= from_a);
    } else if a >= y1 {
        assert(from_a.skip(0) =~= from_a);
    } else {
        lemma_rows_are_suffix(x0, x1, y0, y1, a + 1, y, outline);
        let next = rect_rows_from(x0, x1, y0, y1, a + 1, outline);
        let row = rect_row(x0, x1, y0, y1, a, outline);
        assert(from_a == row + next);
        assert(from_a.skip(from_a.len() - from_y.len()) =~= next.skip(next.len() - from_y.len()));
    }
}

/// In the outline of a rectangle of width `w > 2` and height `h > 2` the
/// first row takes the first `w` places, and each inner row `y` takes the
/// two places after it and the inner rows above it: its first column, then
/// its last.
pub proof fn lemma_outline_inner_row_at(x0: int, x1: int, y0: int, y1: int, y: int)
    requires
        x1 - x0 > 2,
        y0 < y < y1 - 1,
    ensures
        (x1 - x0) + 2 * (y - y0 - 1) + 1 < rect_pixels(x0, x1, y0, y1, true).len(),
        rect_pixels(x0, x1, y0, y1, true)[(x1 - x0) + 2 * (y - y0 - 1)] == (x0, y),
        rect_pixels(x0, x1, y0, y1, true)[(x1 - x0) + 2 * (y - y0 - 1) + 1] == (x1 - 1, y),
{
    let all = rect_pixels(x0, x1, y0, y1, true);
    let from_y = rect_rows_from(x0, x1, y0, y1, y, true);
    let at = (x1 - x0) + 2 * (y - y0 - 1);
    lemma_outline_rows_len(x0, x1, y0, y1, y0);
    lemma_outline_rows_len(x0, x1, y0, y1, y);
    lemma_rows_are_suffix(x0, x1, y0, y1, y0, y, true);
    assert(all.len() - from_y.len() == at);
    assert(from_y == rect_row(x0, x1, y0, y1, y, true) + rect_rows_from(
        x0,
        x1,
        y0,
        y1,
        y + 1,
        true,
    ));
    assert(all.skip(at)[0] == all[at]);
    assert(all.skip(at)[1] == all[at + 1]);
    assert(from_y[0] == (x0, y));
    assert(from_y[1] == (x1 - 1, y));
}

/// Whether `p` comes before `q` in row-major order: in a row above, or in
/// the same row further left.
pub open spec fn row_major_less(p: (int, int), q: (int, int)) -> bool {
    p.1 < q.1 || (p.1 == q.1 && p.0 < q.0)
}

/// The points of a row all lie in that row, within its columns, and further
/// right one after the other.
pub proof fn lemma_scanline_in_order(y: int, x0: int, x1: int, outline: bool, i: int, j: int)
    requires
        0 <= i < scanline_points(y, x0, x1, outline).len(),
    ensures
        scanline_points(y, x0, x1, outline)[i].1 == y,
        x0 <= scanline_points(y, x0, x1, outline)[i].0 < x1,
        i < j < scanline_points(y, x0, x1, outline).len() ==> scanline_points(
            y,
            x0,
            x1,
            outline,
        )[i].0 < scanline_points(y, x0, x1, outline)[j].0,
{
}

/// The points of the rows of a rectangle from `y` on lie in those rows and
/// come in row-major order.
pub proof fn lemma_rect_rows_in_order(
    x0: int,
    x1: int,
    y0: int,
    y1: int,
    y: int,
    outline: bool,
    i: int,
    j: int,
)
    requires
        0 <= i < rect_rows_from(x0, x1, y0, y1, y, outline).len(),
    ensures
        y <= rect_rows_from(x0, x1, y0, y1, y, outline)[i].1 < y1,
        x0 <= rect_rows_from(x0, x1, y0, y1, y, outline)[i].0 < x1,
        i < j < rect_rows_from(x0, x1, y0, y1, y, outline).len() ==> row_major_less(
            rect_rows_from(x0, x1, y0, y1, y, outline)[i],
            rect_rows_from(x0, x1, y0, y1, y, outline)[j],
        ),
    decreases y1 - y,
{
    let inner = outline && is_inner_row(y0, y1, y);
    let row = rect_row(x0, x1, y0, y1, y, outline);
    let rest = rect_rows_from(x0, x1, y0, y1, y + 1, outline);
    let all = rect_rows_from(x0, x1, y0, y1, y, outline);
    assert(all == row + rest);
    if i < row.len() {
        lemma_scanline_in_order(y, x0, x1, inner, i, j);
        assert(all[i] == row[i]);
    } else {
        lemma_rect_rows_in_order(x0, x1, y0, y1, y + 1, outline, i - row.len(), j - row.len());
        assert(all[i] == rest[i - row.len()]);
    }
    if i < j < all.len() {
        if j < row.len() {
            assert(all[j] == row[j]);
        } else {
            lemma_rect_rows_in_order(x0, x1, y0, y1, y + 1, outline, j - row.len(), j - row.len());
            assert(all[j] == rest[j - row.len()]);
        }
    }
}

} // verus!
