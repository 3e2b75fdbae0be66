//! Rasterised line segments as sequences of grid points.

use vstd::prelude::*;
use vstd::arithmetic::div_mod::lemma_fundamental_div_mod_converse;

verus! {

/// The absolute value of an integer.
pub open spec fn abs_int(a: int) -> int {
    if a < 0 { -a } else { a }
}

/// The coordinate that lies `dist` steps from `from` in the direction of `to`.
pub open spec fn toward(from: int, to: int, dist: int) -> int {
    if from < to { from + dist } else { from - dist }
}

/// The Chebyshev distance between two grid points: the larger of the two
/// coordinate distances.
pub open spec fn chebyshev(s: (int, int), e: (int, int)) -> int {
    let dx = abs_int(e.0 - s.0);
    let dy = abs_int(e.1 - s.1);
    if dx > dy { dx } else { dy }
}

/// The fraction `num / den` rounded to the nearest integer, an exact half
/// rounded down.
pub open spec fn round_half_down(num: int, den: int) -> int
    recommends
        den > 0,
{
    (2 * num + den - 1) / (2 * den)
}

/// The rounded fraction is the integer nearest to the fraction: it lies at
/// most a half below it and less than a half above.
pub proof fn lemma_round_half_down_is_nearest(num: int, den: int)
    requires
        den > 0,
    ensures
        2 * num - den <= 2 * (round_half_down(num, den) * den) < 2 * num + den,
{
    let d = 2 * den;
    let n = 2 * num + den - 1;
    vstd::arithmetic::div_mod::lemma_fundamental_div_mod(n, d);
    vstd::arithmetic::div_mod::lemma_mod_bound(n, d);
    assert(d * (n / d) == 2 * ((n / d) * den)) by (nonlinear_arith)
        requires
            d == 2 * den,
    ;
}

/// The point number `k` of Bresenham's line from `s` to `e`: `k` steps along
/// the longer axis, and along the shorter axis the nearest integer to the
/// exact position of the line (halves rounded towards `s`).
pub open spec fn bresenham_point(s: (int, int), e: (int, int), k: int) -> (int, int) {
    let dx = abs_int(e.0 - s.0);
    let dy = abs_int(e.1 - s.1);
    if dx > dy {
        (toward(s.0, e.0, k), toward(s.1, e.1, round_half_down(k * dy, dx)))
    } else if dy > 0 {
        (toward(s.0, e.0, round_half_down(k * dx, dy)), toward(s.1, e.1, k))
    } else {
        s
    }
}

/// Bresenham's line from `s` to `e`, both ends included.
pub open spec fn bresenham_line(s: (int, int), e: (int, int)) -> Seq<(int, int)> {
    Seq::new((chebyshev(s, e) + 1) as nat, |k: int| bresenham_point(s, e, k))
}

/// The state of the error accumulator after `k` steps along an axis of
/// length `major`, of which `y` also moved along the axis of length `minor`.
/// `a` is the accumulator counted from the lower end of its range.
pub open spec fn accumulator_at(major: int, minor: int, k: int, y: int, a: int) -> bool {
    &&& 0 <= a < major
    &&& a == major / 2 - k * minor + y * major
}

/// An accumulator that is in range fixes the progress along the shorter
/// axis: it is the rounded position of the exact line.
pub proof fn lemma_accumulator_closed_form(major: int, minor: int, k: int, y: int, a: int)
    requires
        major > 0,
        accumulator_at(major, minor, k, y, a),
    ensures
        y == round_half_down(k * minor, major),
{
    let r = 2 * (major / 2) + major - 1 - 2 * a;
    let x = 2 * (k * minor) + major - 1;
    assert(0 <= r < 2 * major);
    assert(y * (2 * major) == 2 * (y * major)) by (nonlinear_arith);
    assert(x == y * (2 * major) + r);
    lemma_fundamental_div_mod_converse(x, 2 * major, y, r);
}

/// One step of the accumulator: the shorter axis moves exactly when the
/// accumulator is below `minor`.
pub proof fn lemma_accumulator_step(major: int, minor: int, k: int, y: int, a: int)
    requires
        major > 0,
        0 <= minor <= major,
        accumulator_at(major, minor, k, y, a),
    ensures
        a < minor ==> accumulator_at(major, minor, k + 1, y + 1, a - minor + major),
        a >= minor ==> accumulator_at(major, minor, k + 1, y, a - minor),
{
    assert((k + 1) * minor == k * minor + minor) by (nonlinear_arith);
    assert((y + 1) * major == y * major + major) by (nonlinear_arith);
}

/// Within the line the progress along the shorter axis stays within that
/// axis, and at the last step it has reached its end.
pub proof fn lemma_accumulator_bounds(major: int, minor: int, k: int, y: int, a: int)
    requires
        major > 0,
        0 <= minor <= major,
        0 <= k <= major,
        accumulator_at(major, minor, k, y, a),
    ensures
        0 <= y <= minor,
        k == major ==> y == minor,
        k == 0 ==> y == 0,
{
    let p = k * minor;
    let q = y * major;
    assert(0 <= p <= major * minor) by (nonlinear_arith)
        requires
            p == k * minor,
            0 <= k <= major,
            0 <= minor,
    ;
    assert(k == major ==> p == major * minor);
    assert(k == 0 ==> p == 0) by (nonlinear_arith)
        requires
            p == k * minor,
    ;
    assert(q == a - major / 2 + p);
    assert(-major < q < major * minor + major);
    assert(0 <= y <= minor) by (nonlinear_arith)
        requires
            q == y * major,
            major > 0,
            -major < q < major * minor + major,
    ;
    if k == major {
        assert(q - major * minor == (y - minor) * major) by (nonlinear_arith)
            requires
                q == y * major,
        ;
        assert(y == minor) by (nonlinear_arith)
            requires
                -major < (y - minor) * major < major,
                major > 0,
        ;
    }
    if k == 0 {
        assert(y == 0) by (nonlinear_arith)
            requires
                -major < y * major < major,
                major > 0,
        ;
    }
}

/// Rounding at the two ends of a line: no progress at the start, and all of
/// the shorter axis at the end.
pub proof fn lemma_round_half_down_ends(major: int, minor: int)
    requires
        major > 0,
        0 <= minor,
    ensures
        round_half_down(0 * minor, major) == 0,
        round_half_down(major * minor, major) == minor,
{
    assert(0 * minor == 0) by (nonlinear_arith);
    lemma_fundamental_div_mod_converse(major - 1, 2 * major, 0, major - 1);
    assert(2 * (major * minor) + major - 1 == minor * (2 * major) + (major - 1))
        by (nonlinear_arith);
    lemma_fundamental_div_mod_converse(
        2 * (major * minor) + major - 1,
        2 * major,
        minor,
        major - 1,
    );
}

/// From one step to the next the rounded position moves by nothing or by one.
pub proof fn lemma_round_half_down_step(major: int, minor: int, k: int)
    requires
        major > 0,
        0 <= minor <= major,
    ensures
        round_half_down(k * minor, major) <= round_half_down((k + 1) * minor, major)
            <= round_half_down(k * minor, major) + 1,
{
    let d = 2 * major;
    let n0 = 2 * (k * minor) + major - 1;
    let n1 = 2 * ((k + 1) * minor) + major - 1;
    let q = n0 / d;
    let r = n0 % d;
    assert((k + 1) * minor == k * minor + minor) by (nonlinear_arith);
    vstd::arithmetic::div_mod::lemma_fundamental_div_mod(n0, d);
    assert(d * q == q * d) by (nonlinear_arith);
    if r + 2 * minor < d {
        lemma_fundamental_div_mod_converse(n1, d, q, r + 2 * minor);
    } else {
        assert((q + 1) * d == q * d + d) by (nonlinear_arith);
        lemma_fundamental_div_mod_converse(n1, d, q + 1, r + 2 * minor - d);
    }
}

/// Bresenham's line has one point more than the Chebyshev distance of its
/// ends, starts at `s` and ends at `e`.
pub proof fn lemma_bresenham_ends(s: (int, int), e: (int, int))
    ensures
        bresenham_line(s, e).len() == chebyshev(s, e) + 1,
        bresenham_line(s, e).first() == s,
        bresenham_line(s, e).last() == e,
{
    let dx = abs_int(e.0 - s.0);
    let dy = abs_int(e.1 - s.1);
    if dx > dy {
        lemma_round_half_down_ends(dx, dy);
    } else if dy > 0 {
        lemma_round_half_down_ends(dy, dx);
    }
}

/// Each step of Bresenham's line moves one cell along the longer axis and at
/// most one cell along the shorter axis, both towards `e`.
pub proof fn lemma_bresenham_step(s: (int, int), e: (int, int), k: int)
    requires
        0 <= k < chebyshev(s, e),
    ensures
        ({
            let p = bresenham_point(s, e, k);
            let q = bresenham_point(s, e, k + 1);
            let dx = abs_int(e.0 - s.0);
            let dy = abs_int(e.1 - s.1);
            if dx > dy {
                &&& q.0 == toward(p.0, e.0, 1)
                &&& q.1 == p.1 || q.1 == toward(p.1, e.1, 1)
            } else {
                &&& q.1 == toward(p.1, e.1, 1)
                &&& q.0 == p.0 || q.0 == toward(p.0, e.0, 1)
            }
        }),
{
    let dx = abs_int(e.0 - s.0);
    let dy = abs_int(e.1 - s.1);
    if dx > dy {
        lemma_round_half_down_step(dx, dy, k);
        lemma_round_half_down_within(dx, dy, k);
        lemma_round_half_down_within(dx, dy, k + 1);
    } else {
        lemma_round_half_down_step(dy, dx, k);
        lemma_round_half_down_within(dy, dx, k);
        lemma_round_half_down_within(dy, dx, k + 1);
    }
}

/// Within the line the rounded position lies within the shorter axis.
pub proof fn lemma_round_half_down_within(major: int, minor: int, k: int)
    requires
        major > 0,
        0 <= minor <= major,
        0 <= k <= major,
    ensures
        0 <= round_half_down(k * minor, major) <= minor,
{
    let d = 2 * major;
    let n0 = 2 * (k * minor) + major - 1;
    let q = n0 / d;
    let r = n0 % d;
    vstd::arithmetic::div_mod::lemma_fundamental_div_mod(n0, d);
    assert(d * q == 2 * (q * major)) by (nonlinear_arith)
        requires
            d == 2 * major,
    ;
    assert(0 <= k * minor <= major * minor) by (nonlinear_arith)
        requires
            0 <= k <= major,
            0 <= minor,
    ;
    let qm = q * major;
    assert(2 * qm + r == n0);
    assert(-major < qm < major * minor + major);
    assert(0 <= q <= minor) by (nonlinear_arith)
        requires
            qm == q * major,
            major > 0,
            -major < qm < major * minor + major,
    ;
}

/// Whether the grid walk moves along x next: after `ix` of `nx` steps along x
/// and `iy` of `ny` steps along y, the middle of the next x step comes
/// earlier on the line than the middle of the next y step, that is
/// `(ix + 1/2) / nx < (iy + 1/2) / ny`, compared exactly. An axis of length
/// zero is never due before the other, and on a tie the walk moves along y.
pub open spec fn walk_x_is_due(ix: int, iy: int, nx: int, ny: int) -> bool {
    (2 * ix + 1) * ny < (2 * iy + 1) * nx
}

/// The rest of the grid walk over `nx` by `ny` steps from the offset
/// `(ix, iy)`: that offset, then the walk from the offset one step further
/// along the axis that is due. Outside the grid the walk is over.
pub open spec fn walk_grid_offsets(ix: int, iy: int, nx: int, ny: int) -> Seq<(int, int)>
    decreases nx - ix + ny - iy + 2,
{
    if 0 <= ix <= nx && 0 <= iy <= ny {
        seq![(ix, iy)] + (if walk_x_is_due(ix, iy, nx, ny) {
            walk_grid_offsets(ix + 1, iy, nx, ny)
        } else {
            walk_grid_offsets(ix, iy + 1, nx, ny)
        })
    } else {
        Seq::empty()
    }
}

/// The grid point at the offset `o` on the way from `s` to `e`.
pub open spec fn place(s: (int, int), e: (int, int), o: (int, int)) -> (int, int) {
    (toward(s.0, e.0, o.0), toward(s.1, e.1, o.1))
}

/// The grid walk from `s` to `e`: from `s`, one step at a time along the
/// axis that is due, until `e` has been passed. It visits every cell that
/// the segment between the two cell centres passes through.
pub open spec fn walk_grid_line(s: (int, int), e: (int, int)) -> Seq<(int, int)> {
    walk_grid_offsets(0, 0, abs_int(e.0 - s.0), abs_int(e.1 - s.1)).map_values(
        |o: (int, int)| place(s, e, o),
    )
}

/// On the far edge of the grid the walk runs along that edge: with all x
/// steps taken and y steps left it moves along y, and the other way round.
pub proof fn lemma_walk_along_edge(ix: int, iy: int, nx: int, ny: int)
    requires
        0 <= ix <= nx,
        0 <= iy <= ny,
    ensures
        ix == nx && iy < ny ==> !walk_x_is_due(ix, iy, nx, ny),
        iy == ny && ix < nx ==> walk_x_is_due(ix, iy, nx, ny),
{
    if ix == nx && iy < ny {
        assert((2 * iy + 1) * nx <= (2 * nx + 1) * ny) by (nonlinear_arith)
            requires
                0 <= iy < ny,
                0 <= nx,
        ;
    }
    if iy == ny && ix < nx {
        assert((2 * ix + 1) * ny < (2 * ny + 1) * nx) by (nonlinear_arith)
            requires
                0 <= ix < nx,
                0 <= ny,
        ;
    }
}

/// From an offset within the grid the walk takes one point for each step that
/// is left along either axis, starts at that offset and ends in the far
/// corner.
pub proof fn lemma_walk_grid_offsets_ends(ix: int, iy: int, nx: int, ny: int)
    requires
        0 <= ix <= nx,
        0 <= iy <= ny,
    ensures
        walk_grid_offsets(ix, iy, nx, ny).len() == (nx - ix) + (ny - iy) + 1,
        walk_grid_offsets(ix, iy, nx, ny).first() == (ix, iy),
        walk_grid_offsets(ix, iy, nx, ny).last() == (nx, ny),
    decreases nx - ix + ny - iy,
{
    lemma_walk_along_edge(ix, iy, nx, ny);
    if walk_x_is_due(ix, iy, nx, ny) {
        if ix < nx {
            lemma_walk_grid_offsets_ends(ix + 1, iy, nx, ny);
        } else {
            assert(iy == ny);
            assert(walk_grid_offsets(ix + 1, iy, nx, ny) =~= Seq::empty());
        }
    } else {
        if iy < ny {
            lemma_walk_grid_offsets_ends(ix, iy + 1, nx, ny);
        } else {
            assert(ix == nx);
            assert(walk_grid_offsets(ix, iy + 1, nx, ny) =~= Seq::empty());
        }
    }
}

/// Every offset of the walk lies within the grid, and each one is one step
/// along exactly one axis from the one before.
pub proof fn lemma_walk_grid_offsets_steps(ix: int, iy: int, nx: int, ny: int, j: int)
    requires
        0 <= ix <= nx,
        0 <= iy <= ny,
        0 <= j < walk_grid_offsets(ix, iy, nx, ny).len(),
    ensures
        ix <= walk_grid_offsets(ix, iy, nx, ny)[j].0 <= nx,
        iy <= walk_grid_offsets(ix, iy, nx, ny)[j].1 <= ny,
        walk_grid_offsets(ix, iy, nx, ny)[j].0 + walk_grid_offsets(ix, iy, nx, ny)[j].1 == ix + iy
            + j,
        j + 1 < walk_grid_offsets(ix, iy, nx, ny).len() ==> ({
            let a = walk_grid_offsets(ix, iy, nx, ny)[j];
            let b = walk_grid_offsets(ix, iy, nx, ny)[j + 1];
            (b.0 == a.0 + 1 && b.1 == a.1) || (b.0 == a.0 && b.1 == a.1 + 1)
        }),
    decreases nx - ix + ny - iy,
{
    lemma_walk_along_edge(ix, iy, nx, ny);
    lemma_walk_grid_offsets_ends(ix, iy, nx, ny);
    let (ax, ay) = if walk_x_is_due(ix, iy, nx, ny) { (ix + 1, iy) } else { (ix, iy + 1) };
    let rest = walk_grid_offsets(ax, ay, nx, ny);
    assert(walk_grid_offsets(ix, iy, nx, ny) =~= seq![(ix, iy)] + rest);
    if ax <= nx && ay <= ny {
        lemma_walk_grid_offsets_ends(ax, ay, nx, ny);
        if j >= 1 {
            lemma_walk_grid_offsets_steps(ax, ay, nx, ny, j - 1);
            assert(walk_grid_offsets(ix, iy, nx, ny)[j] == rest[j - 1]);
            if j + 1 < walk_grid_offsets(ix, iy, nx, ny).len() {
                assert(walk_grid_offsets(ix, iy, nx, ny)[j + 1] == rest[j]);
            }
        } else {
            assert(walk_grid_offsets(ix, iy, nx, ny)[1] == rest[0]);
        }
    }
}

/// The grid walk from `s` to `e` has one point for each step along either
/// axis and one more, starts at `s` and ends at `e`.
pub proof fn lemma_walk_grid_ends(s: (int, int), e: (int, int))
    ensures
        walk_grid_line(s, e).len() == abs_int(e.0 - s.0) + abs_int(e.1 - s.1) + 1,
        walk_grid_line(s, e).first() == s,
        walk_grid_line(s, e).last() == e,
{
    lemma_walk_grid_offsets_ends(0, 0, abs_int(e.0 - s.0), abs_int(e.1 - s.1));
}

/// Each point of the grid walk is a neighbour of the one before: one cell
/// further towards `e` along exactly one axis.
pub proof fn lemma_walk_grid_step(s: (int, int), e: (int, int), j: int)
    requires
        0 <= j,
        j + 1 < walk_grid_line(s, e).len(),
    ensures
        ({
            let p = walk_grid_line(s, e)[j];
            let q = walk_grid_line(s, e)[j + 1];
            (q.0 == toward(p.0, e.0, 1) && q.1 == p.1) || (q.0 == p.0 && q.1 == toward(p.1, e.1, 1))
        }),
{
    let nx = abs_int(e.0 - s.0);
    let ny = abs_int(e.1 - s.1);
    lemma_walk_grid_offsets_steps(0, 0, nx, ny, j);
    lemma_walk_grid_offsets_steps(0, 0, nx, ny, j + 1);
}

/// Whether the grid walk over `nx` by `ny` steps visits the offset `(i, j)`.
///
/// Take the cell of an offset to be the square of side one about it, and the
/// segment to run from the offset `(0, 0)` to the offset `(nx, ny)`. The
/// walk visits the cell `(i, j)` exactly if the segment has entered the
/// column `i` before it leaves the row `j`, and has entered the row `j` when
/// it leaves the column `i`. Where the segment runs exactly through the
/// corner between four cells, the walk goes round it along y first.
pub open spec fn walk_visits(i: int, j: int, nx: int, ny: int) -> bool {
    &&& 0 <= i <= nx
    &&& 0 <= j <= ny
    &&& i == 0 || (2 * i - 1) * ny < (2 * j + 1) * nx
    &&& j == 0 || (2 * j - 1) * nx <= (2 * i + 1) * ny
}

/// Whether the segment from the offset `(0, 0)` to the offset `(nx, ny)`
/// passes through the inside of the cell of the offset `(i, j)`: it enters
/// the column `i` before it leaves the row `j`, and the row `j` before it
/// leaves the column `i`.
pub open spec fn segment_crosses_cell(i: int, j: int, nx: int, ny: int) -> bool {
    &&& 0 <= i <= nx
    &&& 0 <= j <= ny
    &&& (2 * i - 1) * ny < (2 * j + 1) * nx
    &&& (2 * j - 1) * nx < (2 * i + 1) * ny
}

/// One step of the walk leads from a visited offset to a visited offset.
proof fn lemma_walk_visits_next(ix: int, iy: int, nx: int, ny: int)
    requires
        walk_visits(ix, iy, nx, ny),
    ensures
        walk_x_is_due(ix, iy, nx, ny) && ix < nx ==> walk_visits(ix + 1, iy, nx, ny),
        !walk_x_is_due(ix, iy, nx, ny) && iy < ny ==> walk_visits(ix, iy + 1, nx, ny),
{
    if walk_x_is_due(ix, iy, nx, ny) && ix < nx {
        assert(2 * (ix + 1) - 1 == 2 * ix + 1);
        assert((2 * ix + 1) * ny <= (2 * (ix + 1) + 1) * ny) by (nonlinear_arith)
            requires
                ny >= 0,
        ;
    }
    if !walk_x_is_due(ix, iy, nx, ny) && iy < ny {
        assert(2 * (iy + 1) - 1 == 2 * iy + 1);
        assert((2 * iy + 1) * nx <= (2 * (iy + 1) + 1) * nx) by (nonlinear_arith)
            requires
                nx >= 0,
        ;
    }
}

/// Of the offsets at the same distance from the start, counted in steps,
/// the walk visits at most one.
proof fn lemma_walk_visits_one_per_distance(a: int, b: int, c: int, d: int, nx: int, ny: int)
    requires
        walk_visits(a, b, nx, ny),
        walk_visits(c, d, nx, ny),
        a + b == c + d,
    ensures
        a == c,
        b == d,
{
    if a < c {
        assert((2 * d + 1) * nx <= (2 * b - 1) * nx) by (nonlinear_arith)
            requires
                d + 1 <= b,
                nx >= 0,
        ;
        assert((2 * a + 1) * ny <= (2 * c - 1) * ny) by (nonlinear_arith)
            requires
                a + 1 <= c,
                ny >= 0,
        ;
    } else if c < a {
        assert((2 * b + 1) * nx <= (2 * d - 1) * nx) by (nonlinear_arith)
            requires
                b + 1 <= d,
                nx >= 0,
        ;
        assert((2 * c + 1) * ny <= (2 * a - 1) * ny) by (nonlinear_arith)
            requires
                c + 1 <= a,
                ny >= 0,
        ;
    }
}

/// From a visited offset on the walk meets only visited offsets.
proof fn lemma_walk_offsets_are_visited(ix: int, iy: int, nx: int, ny: int, k: int)
    requires
        walk_visits(ix, iy, nx, ny),
        0 <= k < walk_grid_offsets(ix, iy, nx, ny).len(),
    ensures
        walk_visits(
            walk_grid_offsets(ix, iy, nx, ny)[k].0,
            walk_grid_offsets(ix, iy, nx, ny)[k].1,
            nx,
            ny,
        ),
    decreases nx - ix + ny - iy,
{
    lemma_walk_along_edge(ix, iy, nx, ny);
    lemma_walk_visits_next(ix, iy, nx, ny);
    let (ax, ay) = if walk_x_is_due(ix, iy, nx, ny) { (ix + 1, iy) } else { (ix, iy + 1) };
    let rest = walk_grid_offsets(ax, ay, nx, ny);
    assert(walk_grid_offsets(ix, iy, nx, ny) =~= seq![(ix, iy)] + rest);
    if k >= 1 {
        assert(walk_grid_offsets(ix, iy, nx, ny)[k] == rest[k - 1]);
        lemma_walk_offsets_are_visited(ax, ay, nx, ny, k - 1);
    }
}

/// The grid walk visits exactly the offsets that `walk_visits` names, each
/// at the place of its distance from the start.
pub proof fn lemma_walk_grid_visits(i: int, j: int, nx: int, ny: int)
    requires
        0 <= nx,
        0 <= ny,
    ensures
        walk_grid_offsets(0, 0, nx, ny).contains((i, j)) == walk_visits(i, j, nx, ny),
        walk_visits(i, j, nx, ny) ==> walk_grid_offsets(0, 0, nx, ny)[i + j] == (i, j),
{
    let walk = walk_grid_offsets(0, 0, nx, ny);
    lemma_walk_grid_offsets_ends(0, 0, nx, ny);
    if walk.contains((i, j)) {
        let k = choose|k: int| 0 <= k < walk.len() && walk[k] == (i, j);
        lemma_walk_offsets_are_visited(0, 0, nx, ny, k);
    }
    if walk_visits(i, j, nx, ny) {
        let k = i + j;
        lemma_walk_offsets_are_visited(0, 0, nx, ny, k);
        lemma_walk_grid_offsets_steps(0, 0, nx, ny, k);
        lemma_walk_visits_one_per_distance(walk[k].0, walk[k].1, i, j, nx, ny);
    }
}

/// The grid walk misses no cell: it visits every cell through whose inside
/// the segment between its two ends passes.
pub proof fn lemma_walk_grid_covers_segment(i: int, j: int, nx: int, ny: int)
    requires
        0 <= nx,
        0 <= ny,
        segment_crosses_cell(i, j, nx, ny),
    ensures
        walk_grid_offsets(0, 0, nx, ny).contains((i, j)),
{
    lemma_walk_grid_visits(i, j, nx, ny);
}

/// The grid walk from `s` to `e` misses no cell: it visits the cell at every
/// offset through whose inside the segment from `s` to `e` passes.
pub proof fn lemma_walk_grid_line_covers_segment(s: (int, int), e: (int, int), i: int, j: int)
    requires
        segment_crosses_cell(i, j, abs_int(e.0 - s.0), abs_int(e.1 - s.1)),
    ensures
        walk_grid_line(s, e).contains(place(s, e, (i, j))),
{
    let nx = abs_int(e.0 - s.0);
    let ny = abs_int(e.1 - s.1);
    lemma_walk_grid_visits(i, j, nx, ny);
    lemma_walk_grid_offsets_ends(0, 0, nx, ny);
    assert(walk_grid_line(s, e)[i + j] == place(s, e, (i, j)));
}

} // verus!
