use pixel_shapes::iters::line_iter::{LineDrawAlgo, LineIter};
use pixel_shapes::iters::{collect_pixels, PixelIter};
use pixel_shapes::ivec2::LineSegment;
use pixel_shapes::point::IVec2;

fn line(sx: i32, sy: i32, ex: i32, ey: i32, algo: LineDrawAlgo) -> Vec<IVec2> {
    let ls = LineSegment::new(IVec2::new(sx, sy), IVec2::new(ex, ey));
    let mut iter = LineIter::new_from_segment(ls, algo);
    collect_pixels(&mut iter)
}

#[test]
fn test_bresenham_line_iter_impl_down() {
    let ls = LineSegment::new(IVec2::new(1, 1), IVec2::new(1, 5));
    let mut iter = LineIter::new_from_segment(ls, LineDrawAlgo::Bresenham);

    let expected = vec![
        IVec2::new(1, 1),
        IVec2::new(1, 2),
        IVec2::new(1, 3),
        IVec2::new(1, 4),
        IVec2::new(1, 5),
    ];

    assert_eq!(collect_pixels(&mut iter), expected);
}

#[test]
fn test_bresenham_line_iter_impl() {
    let ls = LineSegment::new(IVec2::new(1, 1), IVec2::new(11, 5));
    let mut iter = LineIter::new_from_segment(ls, LineDrawAlgo::Bresenham);

    let expected = vec![
        IVec2::new(1, 1),
        IVec2::new(2, 1),
        IVec2::new(3, 2),
        IVec2::new(4, 2),
        IVec2::new(5, 3),
        IVec2::new(6, 3),
        IVec2::new(7, 3),
        IVec2::new(8, 4),
        IVec2::new(9, 4),
        IVec2::new(10, 5),
        IVec2::new(11, 5),
    ];

    assert_eq!(collect_pixels(&mut iter), expected);
}

#[test]
fn test_bresenham_line_iter_impl_going_left() {
    let ls = LineSegment::new(IVec2::new(0, 0), IVec2::new(-5, 5));
    let mut iter = LineIter::new_from_segment(ls, LineDrawAlgo::Bresenham);

    let expected = vec![
        IVec2::new(0, 0),
        IVec2::new(-1, 1),
        IVec2::new(-2, 2),
        IVec2::new(-3, 3),
        IVec2::new(-4, 4),
        IVec2::new(-5, 5),
    ];

    assert_eq!(collect_pixels(&mut iter), expected);
}

#[test]
fn test_bresenham_line_iter_impl_diag() {
    let ls = LineSegment::new(IVec2::new(0, 0), IVec2::new(3, 3));
    let mut iter = LineIter::new_from_segment(ls, LineDrawAlgo::Bresenham);

    let expected = vec![
        IVec2::new(0, 0),
        IVec2::new(1, 1),
        IVec2::new(2, 2),
        IVec2::new(3, 3),
    ];
    assert_eq!(collect_pixels(&mut iter), expected);
}

#[test]
fn test_pixel_iterator() {
    let start = glam::Vec2::new(0.0, 0.0).as_ivec2();
    let end = glam::Vec2::new(3.0, 3.0).as_ivec2();
    let ls = LineSegment::new(IVec2::new(start.x, start.y), IVec2::new(end.x, end.y));
    let mut iter = ls.pixel_iter(LineDrawAlgo::Bresenham);
    assert_eq!(iter.next(), Some(IVec2::new(0, 0)));
    assert_eq!(iter.next(), Some(IVec2::new(1, 1)));
    assert_eq!(iter.next(), Some(IVec2::new(2, 2)));
    assert_eq!(iter.next(), Some(IVec2::new(3, 3)));
    assert_eq!(iter.next(), None);
}

#[test]
fn bresenham_stays_exhausted() {
    let ls = LineSegment::new(IVec2::new(2, 2), IVec2::new(3, 2));
    let mut iter = ls.pixel_iter(LineDrawAlgo::Bresenham);
    assert_eq!(iter.next(), Some(IVec2::new(2, 2)));
    assert_eq!(iter.next(), Some(IVec2::new(3, 2)));
    assert_eq!(iter.next(), None);
    assert_eq!(iter.next(), None);
}

#[test]
fn bresenham_steep_line_reaches_its_end() {
    assert_eq!(
        line(0, 0, 1, 5, LineDrawAlgo::Bresenham),
        vec![
            IVec2::new(0, 0),
            IVec2::new(0, 1),
            IVec2::new(0, 2),
            IVec2::new(1, 3),
            IVec2::new(1, 4),
            IVec2::new(1, 5),
        ]
    );
    assert_eq!(
        line(0, 0, -2, 5, LineDrawAlgo::Bresenham),
        vec![
            IVec2::new(0, 0),
            IVec2::new(0, 1),
            IVec2::new(-1, 2),
            IVec2::new(-1, 3),
            IVec2::new(-2, 4),
            IVec2::new(-2, 5),
        ]
    );
}

#[test]
fn bresenham_steep_line_going_left() {
    let pixels = line(0, 0, -1, 10, LineDrawAlgo::Bresenham);
    assert_eq!(pixels.len(), 11);
    assert_eq!(pixels[0], IVec2::new(0, 0));
    assert_eq!(pixels[4], IVec2::new(0, 4));
    assert_eq!(pixels[5], IVec2::new(0, 5));
    assert_eq!(pixels[6], IVec2::new(-1, 6));
    assert_eq!(pixels[10], IVec2::new(-1, 10));
}

#[test]
fn bresenham_x_is_monotonic() {
    let pixels = line(1, 1, 11, 5, LineDrawAlgo::Bresenham);
    assert_eq!(pixels.len(), 11);
    for i in 1..pixels.len() {
        assert_eq!(pixels[i].x, pixels[i - 1].x + 1);
        assert!(pixels[i].y == pixels[i - 1].y || pixels[i].y == pixels[i - 1].y + 1);
    }
}

#[test]
fn bresenham_rounds_halves_towards_the_start() {
    // Two columns for one row: the exact line is half way at x = 1.
    assert_eq!(
        line(0, 0, 2, 1, LineDrawAlgo::Bresenham),
        vec![IVec2::new(0, 0), IVec2::new(1, 0), IVec2::new(2, 1)]
    );
    assert_eq!(
        line(2, 1, 0, 0, LineDrawAlgo::Bresenham),
        vec![IVec2::new(2, 1), IVec2::new(1, 1), IVec2::new(0, 0)]
    );
}

#[test]
fn zero_length_line_is_one_point() {
    assert_eq!(line(7, -3, 7, -3, LineDrawAlgo::Bresenham), vec![IVec2::new(7, -3)]);
    assert_eq!(line(7, -3, 7, -3, LineDrawAlgo::WalkGrid), vec![IVec2::new(7, -3)]);
}

#[test]
fn walk_grid_moves_one_axis_at_a_time() {
    assert_eq!(
        line(0, 0, 2, 2, LineDrawAlgo::WalkGrid),
        vec![
            IVec2::new(0, 0),
            IVec2::new(0, 1),
            IVec2::new(1, 1),
            IVec2::new(1, 2),
            IVec2::new(2, 2),
        ]
    );
    assert_eq!(
        line(0, 0, 3, 1, LineDrawAlgo::WalkGrid),
        vec![
            IVec2::new(0, 0),
            IVec2::new(1, 0),
            IVec2::new(1, 1),
            IVec2::new(2, 1),
            IVec2::new(3, 1),
        ]
    );
}

#[test]
fn walk_grid_along_an_axis() {
    assert_eq!(
        line(0, 0, 2, 0, LineDrawAlgo::WalkGrid),
        vec![IVec2::new(0, 0), IVec2::new(1, 0), IVec2::new(2, 0)]
    );
    assert_eq!(
        line(4, 1, 4, -1, LineDrawAlgo::WalkGrid),
        vec![IVec2::new(4, 1), IVec2::new(4, 0), IVec2::new(4, -1)]
    );
}

#[test]
fn walk_grid_going_left_and_up() {
    assert_eq!(
        line(0, 0, -2, -1, LineDrawAlgo::WalkGrid),
        vec![IVec2::new(0, 0), IVec2::new(-1, 0), IVec2::new(-1, -1), IVec2::new(-2, -1)]
    );
}

#[test]
fn every_line_starts_at_start_and_ends_at_end() {
    let ends = [
        (0, 0, 5, 0),
        (5, 0, 0, 0),
        (0, 0, 0, 5),
        (0, 5, 0, 0),
        (0, 0, 4, 4),
        (4, 4, 0, 0),
        (-3, 2, 4, -7),
        (4, -7, -3, 2),
        (1, 1, 11, 5),
        (11, 5, 1, 1),
        (i32::MIN, i32::MAX, i32::MIN + 3, i32::MAX - 2),
        (i32::MAX, 0, i32::MAX - 2, 0),
    ];
    for (sx, sy, ex, ey) in ends {
        for algo in [LineDrawAlgo::Bresenham, LineDrawAlgo::WalkGrid] {
            let pixels = line(sx, sy, ex, ey, algo);
            assert_eq!(pixels[0], IVec2::new(sx, sy));
            assert_eq!(pixels[pixels.len() - 1], IVec2::new(ex, ey));
            let dx = (ex as i64 - sx as i64).unsigned_abs() as usize;
            let dy = (ey as i64 - sy as i64).unsigned_abs() as usize;
            match algo {
                LineDrawAlgo::Bresenham => assert_eq!(pixels.len(), dx.max(dy) + 1),
                LineDrawAlgo::WalkGrid => assert_eq!(pixels.len(), dx + dy + 1),
            }
        }
    }
}

#[test]
fn line_across_the_whole_grid_does_not_overflow() {
    let ls = LineSegment::new(IVec2::new(i32::MIN, i32::MIN), IVec2::new(i32::MAX, i32::MAX));
    for algo in [LineDrawAlgo::Bresenham, LineDrawAlgo::WalkGrid] {
        let mut iter = ls.pixel_iter(algo);
        assert_eq!(iter.next(), Some(IVec2::new(i32::MIN, i32::MIN)));
        assert!(iter.next().is_some());
        assert!(iter.next().is_some());
    }
}

#[test]
fn collect_takes_what_is_left() {
    let ls = LineSegment::new(IVec2::new(0, 0), IVec2::new(3, 0));
    let mut iter = ls.pixel_iter(LineDrawAlgo::Bresenham);
    assert_eq!(iter.next(), Some(IVec2::new(0, 0)));
    assert_eq!(
        collect_pixels(&mut iter),
        vec![IVec2::new(1, 0), IVec2::new(2, 0), IVec2::new(3, 0)]
    );
    assert_eq!(collect_pixels(&mut iter), vec![]);
}

/// The grid walk with the progress along both axes held in `f32`.
fn float_walk(start: glam::IVec2, end: glam::IVec2) -> Vec<IVec2> {
    let d = end - start;
    let mut point = start;
    let mut i = glam::Vec2::ZERO;
    let sign = d.signum();
    let n = d.abs().as_vec2();
    let mut points = vec![];
    while i.x <= n.x && i.y <= n.y {
        points.push(IVec2::new(point.x, point.y));
        if (0.5 + i.x) / n.x < (0.5 + i.y) / n.y {
            point.x += sign.x;
            i.x += 1.0;
        } else {
            point.y += sign.y;
            i.y += 1.0;
        }
    }
    points
}

/// Bresenham's algorithm with all of its state in `i32`.
fn plain_bresenham(start: (i32, i32), end: (i32, i32)) -> Vec<IVec2> {
    let dx = i32::abs(end.0 - start.0);
    let dy = i32::abs(end.1 - start.1);
    let mut error = (if dx > dy { dx } else { -dy }) / 2;
    let sx = if start.0 < end.0 { 1 } else { -1 };
    let sy = if start.1 < end.1 { 1 } else { -1 };
    let (mut x, mut y) = start;
    let mut points = vec![];
    loop {
        points.push(IVec2::new(x, y));
        if x == end.0 && y == end.1 {
            return points;
        }
        let error2 = error;
        if error2 > -dx {
            error -= dy;
            x += sx;
        }
        if error2 < dy {
            error += dx;
            y += sy;
        }
    }
}

#[test]
fn walk_grid_agrees_with_the_walk_in_floating_point() {
    for ex in -12..=12 {
        for ey in -12..=12 {
            let expected = float_walk(glam::IVec2::new(3, -2), glam::IVec2::new(3 + ex, -2 + ey));
            assert_eq!(line(3, -2, 3 + ex, -2 + ey, LineDrawAlgo::WalkGrid), expected);
        }
    }
    let expected = float_walk(glam::IVec2::new(0, 0), glam::IVec2::new(700, 300));
    assert_eq!(line(0, 0, 700, 300, LineDrawAlgo::WalkGrid), expected);
}

#[test]
fn bresenham_agrees_with_the_plain_algorithm() {
    for ex in -12..=12 {
        for ey in -12..=12 {
            let expected = plain_bresenham((3, -2), (3 + ex, -2 + ey));
            assert_eq!(line(3, -2, 3 + ex, -2 + ey, LineDrawAlgo::Bresenham), expected);
        }
    }
}

#[test]
fn bresenham_is_the_rounded_line() {
    // The point number k of a line of 10 by 4 steps lies at k * 4 / 10 rows,
    // rounded to the nearest row with halves rounded down.
    let pixels = line(0, 0, 10, 4, LineDrawAlgo::Bresenham);
    let rows: Vec<i32> = pixels.iter().map(|p| p.y).collect();
    assert_eq!(rows, vec![0, 0, 1, 1, 2, 2, 2, 3, 3, 4, 4]);
    for (k, p) in pixels.iter().enumerate() {
        assert_eq!(p.x, k as i32);
        assert_eq!(p.y, (2 * (k as i32) * 4 + 10 - 1) / (2 * 10));
    }
}

#[test]
fn walk_grid_visits_every_cell_that_the_segment_crosses() {
    for (nx, ny) in [(5i64, 3i64), (3, 5), (4, 4), (7, 0), (0, 7), (6, 2), (1, 9), (0, 0)] {
        let pixels = line(0, 0, nx as i32, ny as i32, LineDrawAlgo::WalkGrid);
        for i in 0..=nx {
            for j in 0..=ny {
                let crossed =
                    (2 * i - 1) * ny < (2 * j + 1) * nx && (2 * j - 1) * nx < (2 * i + 1) * ny;
                let visited = (i == 0 || (2 * i - 1) * ny < (2 * j + 1) * nx)
                    && (j == 0 || (2 * j - 1) * nx <= (2 * i + 1) * ny);
                let p = IVec2::new(i as i32, j as i32);
                assert_eq!(pixels.contains(&p), visited);
                if crossed {
                    assert_eq!(pixels[(i + j) as usize], p);
                }
            }
        }
    }
}

#[test]
fn walk_grid_steps_are_neighbours() {
    let pixels = line(-3, 4, 5, -9, LineDrawAlgo::WalkGrid);
    assert_eq!(pixels.len(), 8 + 13 + 1);
    for i in 1..pixels.len() {
        let (dx, dy) = (pixels[i].x - pixels[i - 1].x, pixels[i].y - pixels[i - 1].y);
        assert!((dx, dy) == (1, 0) || (dx, dy) == (0, -1));
    }
}
