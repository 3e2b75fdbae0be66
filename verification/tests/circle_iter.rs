use pixel_shapes::iters::circle_iter::Scanlines;
use pixel_shapes::iters::{collect_pixels, PixelIter};
use pixel_shapes::ivec2::circle::diameter_to_threshold;
use pixel_shapes::point::{I64Vec2, IVec2, UVec2};
use pixel_shapes::{uvec2, CircleIVec2, CircleUVec2, RectangleIVec2, Scanline};

#[test]
fn test_iter() {
    let circle = CircleIVec2::new(IVec2::new(10, 10), 3);
    let points: Vec<IVec2> = collect_pixels(&mut circle.pixel_iter(false));

    assert_eq!(
        points,
        vec![
            IVec2::new(8, 7),
            IVec2::new(9, 7),
            IVec2::new(10, 7),
            IVec2::new(11, 7),
            IVec2::new(7, 8),
            IVec2::new(8, 8),
            IVec2::new(9, 8),
            IVec2::new(10, 8),
            IVec2::new(11, 8),
            IVec2::new(12, 8),
            IVec2::new(7, 9),
            IVec2::new(8, 9),
            IVec2::new(9, 9),
            IVec2::new(10, 9),
            IVec2::new(11, 9),
            IVec2::new(12, 9),
            IVec2::new(7, 10),
            IVec2::new(8, 10),
            IVec2::new(9, 10),
            IVec2::new(10, 10),
            IVec2::new(11, 10),
            IVec2::new(12, 10),
            IVec2::new(7, 11),
            IVec2::new(8, 11),
            IVec2::new(9, 11),
            IVec2::new(10, 11),
            IVec2::new(11, 11),
            IVec2::new(12, 11),
            IVec2::new(8, 12),
            IVec2::new(9, 12),
            IVec2::new(10, 12),
            IVec2::new(11, 12)
        ]
    );
    assert_eq!(points.len(), 32);
}

#[test]
fn circle_outline_has_the_two_ends_of_each_row() {
    let circle = CircleIVec2::new(IVec2::new(10, 10), 3);
    let points = collect_pixels(&mut circle.pixel_iter(true));
    assert_eq!(
        points,
        vec![
            IVec2::new(8, 7),
            IVec2::new(11, 7),
            IVec2::new(7, 8),
            IVec2::new(12, 8),
            IVec2::new(7, 9),
            IVec2::new(12, 9),
            IVec2::new(7, 10),
            IVec2::new(12, 10),
            IVec2::new(7, 11),
            IVec2::new(12, 11),
            IVec2::new(8, 12),
            IVec2::new(11, 12),
        ]
    );
}

#[test]
fn circle_pixels_are_the_pixels_it_contains() {
    for radius in 0..7 {
        let circle = CircleIVec2::new(IVec2::new(-2, 5), radius);
        let points = collect_pixels(&mut circle.pixel_iter(false));
        let mut expected = vec![];
        for y in (5 - radius - 2)..(5 + radius + 2) {
            for x in (-2 - radius - 2)..(-2 + radius + 2) {
                if circle.contains(IVec2::new(x, y)) {
                    expected.push(IVec2::new(x, y));
                }
            }
        }
        assert_eq!(points, expected);
    }
}

#[test]
fn containment_is_symmetric_about_the_centre() {
    for radius in 0..6 {
        let circle = CircleIVec2::new(IVec2::new(10, -4), radius);
        let c = circle.center_2x();
        for y in -12..6 {
            for x in 2..20 {
                let opposite = IVec2::new(c.x as i32 - x, c.y as i32 - y);
                assert_eq!(circle.contains(IVec2::new(x, y)), circle.contains(opposite));
            }
        }
    }
}

#[test]
fn small_circles() {
    let none = CircleIVec2::new(IVec2::new(3, 3), 0);
    assert_eq!(collect_pixels(&mut none.pixel_iter(false)), vec![]);
    assert_eq!(collect_pixels(&mut none.pixel_iter(true)), vec![]);

    let one = CircleIVec2::new(IVec2::new(3, 3), 1);
    assert_eq!(
        collect_pixels(&mut one.pixel_iter(false)),
        vec![IVec2::new(2, 2), IVec2::new(3, 2), IVec2::new(2, 3), IVec2::new(3, 3)]
    );

    let two = CircleIVec2::new(IVec2::new(0, 0), 2);
    assert_eq!(
        collect_pixels(&mut two.pixel_iter(false)),
        vec![
            IVec2::new(-1, -2),
            IVec2::new(0, -2),
            IVec2::new(-2, -1),
            IVec2::new(-1, -1),
            IVec2::new(0, -1),
            IVec2::new(1, -1),
            IVec2::new(-2, 0),
            IVec2::new(-1, 0),
            IVec2::new(0, 0),
            IVec2::new(1, 0),
            IVec2::new(-1, 1),
            IVec2::new(0, 1),
        ]
    );
}

#[test]
fn threshold_values() {
    assert_eq!(diameter_to_threshold(0), 0);
    assert_eq!(diameter_to_threshold(2), 3);
    assert_eq!(diameter_to_threshold(3), 8);
    assert_eq!(diameter_to_threshold(4), 14);
    assert_eq!(diameter_to_threshold(5), 25);
    assert_eq!(diameter_to_threshold(6), 36);
    assert_eq!(CircleIVec2::new(IVec2::new(0, 0), 3).threshold(), 36);
    assert_eq!(CircleIVec2::new(IVec2::new(0, 0), 2).threshold(), 14);
    assert_eq!(CircleIVec2::new(IVec2::new(0, 0), i32::MAX).threshold(), 4 * (i32::MAX as i128) * (i32::MAX as i128));
}

#[test]
fn doubled_centre() {
    assert_eq!(CircleIVec2::new(IVec2::new(10, 10), 3).center_2x(), I64Vec2 { x: 19, y: 19 });
    assert_eq!(CircleIVec2::new(IVec2::new(0, -1), 5).center_2x(), I64Vec2 { x: -1, y: -3 });
    assert_eq!(
        CircleIVec2::new(IVec2::new(i32::MAX, i32::MIN), 0).center_2x(),
        I64Vec2 { x: 2 * (i32::MAX as i64) - 1, y: 2 * (i32::MIN as i64) - 1 }
    );
}

#[test]
fn circle_bounding_boxes() {
    let circle = CircleIVec2::new(IVec2::new(10, 20), 3);
    let bb = circle.bounding_box();
    assert_eq!(bb.tl, IVec2::new(7, 17));
    assert_eq!(bb.br, IVec2::new(13, 23));
    assert_eq!(circle.limited_bounding_box(), bb);

    let limits = RectangleIVec2::new(IVec2::new(10, 10), IVec2::new(12, 40));
    let limited = CircleIVec2::new_with_limits(IVec2::new(10, 20), 3, limits);
    assert_eq!(limited.bounding_box(), bb);
    let lbb = limited.limited_bounding_box();
    assert_eq!(lbb.tl, IVec2::new(10, 17));
    assert_eq!(lbb.br, IVec2::new(12, 23));

    // Limits apart from the circle: the two have nothing in common, the
    // corners come out of order and there are no pixels.
    let apart = RectangleIVec2::new(IVec2::new(20, 30), IVec2::new(25, 35));
    let outside = CircleIVec2::new_with_limits(IVec2::new(10, 20), 3, apart);
    let obb = outside.limited_bounding_box();
    assert_eq!(obb.tl, IVec2::new(20, 30));
    assert_eq!(obb.br, IVec2::new(13, 23));
    for outline in [false, true] {
        assert_eq!(collect_pixels(&mut obb.pixel_iter(outline)), vec![]);
        assert_eq!(collect_pixels(&mut outside.pixel_iter(outline)), vec![]);
    }
    let other = CircleIVec2::new_with_limits(
        IVec2::new(10, 10),
        3,
        RectangleIVec2::new(IVec2::new(20, 20), IVec2::new(30, 30)),
    );
    let obb = other.limited_bounding_box();
    assert_eq!((obb.tl, obb.br), (IVec2::new(20, 20), IVec2::new(13, 13)));
    assert_eq!(collect_pixels(&mut obb.pixel_iter(false)), vec![]);

    // Limits apart along one axis only.
    let beside = RectangleIVec2::new(IVec2::new(20, 0), IVec2::new(25, 50));
    let bbb = CircleIVec2::new_with_limits(IVec2::new(10, 20), 3, beside).limited_bounding_box();
    assert_eq!((bbb.tl, bbb.br), (IVec2::new(20, 17), IVec2::new(13, 23)));
    assert_eq!(collect_pixels(&mut bbb.pixel_iter(false)), vec![]);
}

#[test]
fn circle_pixels_lie_in_the_limited_bounding_box() {
    let limits = RectangleIVec2::new(IVec2::new(-3, -2), IVec2::new(9, 4));
    let circle = CircleIVec2::new_with_limits(IVec2::new(0, 0), 5, limits);
    let lbb = circle.limited_bounding_box();
    assert_eq!((lbb.tl, lbb.br), (IVec2::new(-3, -2), IVec2::new(5, 4)));
    let inside = collect_pixels(&mut lbb.pixel_iter(false));
    for outline in [false, true] {
        for p in collect_pixels(&mut circle.pixel_iter(outline)) {
            assert!(inside.contains(&p));
        }
    }
}

#[test]
fn circle_with_limits() {
    let circle = CircleIVec2::new_with_limits(
        IVec2::new(10, 10),
        3,
        RectangleIVec2::new(IVec2::new(10, 10), IVec2::new(20, 20)),
    );
    let points = collect_pixels(&mut circle.pixel_iter(false));
    assert_eq!(
        points,
        vec![
            IVec2::new(10, 10),
            IVec2::new(11, 10),
            IVec2::new(12, 10),
            IVec2::new(10, 11),
            IVec2::new(11, 11),
            IVec2::new(12, 11),
            IVec2::new(10, 12),
            IVec2::new(11, 12),
        ]
    );
}

#[test]
fn circle_with_limits_skips_rows_that_are_cut_away() {
    // The limits start at the column 12: the first and the last row of the
    // circle end before it.
    let circle = CircleIVec2::new_with_limits(
        IVec2::new(10, 10),
        3,
        RectangleIVec2::new(IVec2::new(12, 0), IVec2::new(20, 20)),
    );
    let expected = vec![
        IVec2::new(12, 8),
        IVec2::new(12, 9),
        IVec2::new(12, 10),
        IVec2::new(12, 11),
    ];
    assert_eq!(collect_pixels(&mut circle.pixel_iter(false)), expected);
    assert_eq!(collect_pixels(&mut circle.pixel_iter(true)), expected);
}

#[test]
fn circle_limits_do_not_change_containment() {
    let limits = RectangleIVec2::new(IVec2::new(12, 0), IVec2::new(20, 20));
    let circle = CircleIVec2::new_with_limits(IVec2::new(10, 10), 3, limits);
    assert!(circle.contains(IVec2::new(9, 9)));
    assert!(!circle.contains(IVec2::new(7, 7)));
    assert!(!circle.contains(IVec2::new(13, 10)));
    assert_eq!(circle.position(), IVec2::new(10, 10));
    assert_eq!(circle.center(), IVec2::new(10, 10));
}

#[test]
fn scanlines_of_a_circle() {
    let circle = CircleIVec2::new(IVec2::new(10, 10), 3);
    let mut scanlines = Scanlines::new(&circle, false);
    let mut rows = vec![];
    while let Some(s) = scanlines.next() {
        rows.push((s.y, s.x.start, s.x.end));
    }
    assert_eq!(
        rows,
        vec![(7, 8, 12), (8, 7, 13), (9, 7, 13), (10, 7, 13), (11, 7, 13), (12, 8, 12)]
    );
    assert!(scanlines.next().is_none());
}

#[test]
fn scanline_filled_and_outlined() {
    assert_eq!(
        collect_pixels(&mut Scanline::new(4, 2..5, false)),
        vec![IVec2::new(2, 4), IVec2::new(3, 4), IVec2::new(4, 4)]
    );
    assert_eq!(
        collect_pixels(&mut Scanline::new(4, 2..5, true)),
        vec![IVec2::new(2, 4), IVec2::new(4, 4)]
    );
    assert_eq!(collect_pixels(&mut Scanline::new(4, 2..4, true)), vec![
        IVec2::new(2, 4),
        IVec2::new(3, 4)
    ]);
    assert_eq!(collect_pixels(&mut Scanline::new(4, 2..3, true)), vec![IVec2::new(2, 4)]);
    assert_eq!(collect_pixels(&mut Scanline::new(4, 2..2, true)), vec![]);
    assert_eq!(collect_pixels(&mut Scanline::new(4, 5..2, false)), vec![]);
    assert_eq!(collect_pixels(&mut Scanline::new_empty(9)), vec![]);
}

#[test]
fn scanline_is_empty() {
    assert!(Scanline::new_empty(3).is_empty());
    assert!(Scanline::new(0, 4..4, true).is_empty());
    assert!(Scanline::new(0, 5..4, false).is_empty());
    assert!(!Scanline::new(0, 4..5, false).is_empty());
    let mut s = Scanline::new(0, 4..5, false);
    assert_eq!(s.next(), Some(IVec2::new(4, 0)));
    assert!(s.is_empty());
    assert_eq!(s.next(), None);
    let copy = Scanline::new(1, 2..6, true).clone();
    assert_eq!((copy.y, copy.x, copy.outline), (1, 2..6, true));
}

#[test]
fn unsigned_circle_is_drawn_on_the_signed_grid() {
    let circle = CircleUVec2::new(UVec2::new(10, 10), 3);
    let signed = CircleIVec2::new(IVec2::new(10, 10), 3);
    for outline in [false, true] {
        assert_eq!(
            collect_pixels(&mut circle.pixel_iter(outline)),
            collect_pixels(&mut signed.pixel_iter(outline))
        );
    }
    assert_eq!(collect_pixels(&mut circle.pixel_iter(false)).len(), 32);
}

#[test]
fn unsigned_circle_is_cut_down_to_its_limits() {
    let limits = uvec2::Rectangle::new(UVec2::new(10, 10), UVec2::new(20, 20));
    let limited = CircleUVec2::new_with_limits(UVec2::new(10, 10), 3, limits);
    let signed = CircleIVec2::new_with_limits(
        IVec2::new(10, 10),
        3,
        RectangleIVec2::new(IVec2::new(10, 10), IVec2::new(20, 20)),
    );
    assert_eq!(
        collect_pixels(&mut limited.pixel_iter(false)),
        vec![
            IVec2::new(10, 10),
            IVec2::new(11, 10),
            IVec2::new(12, 10),
            IVec2::new(10, 11),
            IVec2::new(11, 11),
            IVec2::new(12, 11),
            IVec2::new(10, 12),
            IVec2::new(11, 12),
        ]
    );
    assert_eq!(
        collect_pixels(&mut limited.pixel_iter(true)),
        vec![
            IVec2::new(10, 10),
            IVec2::new(12, 10),
            IVec2::new(10, 11),
            IVec2::new(12, 11),
            IVec2::new(10, 12),
            IVec2::new(11, 12),
        ]
    );
    for outline in [false, true] {
        assert_eq!(
            collect_pixels(&mut limited.pixel_iter(outline)),
            collect_pixels(&mut signed.pixel_iter(outline))
        );
    }
    let converted = limited.as_circle_ivec2();
    assert_eq!(converted, signed);
    assert_eq!(converted.as_circle_uvec2(), limited);
}

#[test]
fn unsigned_circle_with_limits_beyond_the_signed_grid() {
    // Limits that end beyond the signed grid do not cut the circle there.
    let wide = uvec2::Rectangle::new(UVec2::new(10, 0), UVec2::new(u32::MAX, u32::MAX));
    let circle = CircleUVec2::new_with_limits(UVec2::new(10, 10), 3, wide);
    let pixels = collect_pixels(&mut circle.pixel_iter(false));
    let mut expected = vec![];
    for y in 7..13 {
        for x in 10..13 {
            if circle.contains(UVec2::new(x, y)) {
                expected.push(IVec2::new(x as i32, y as i32));
            }
        }
    }
    assert_eq!(pixels, expected);
    assert_eq!(pixels.len(), 16);
    // Limits that start beyond the signed grid leave nothing of it.
    let far = uvec2::Rectangle::new(UVec2::new(0x8000_0000, 0), UVec2::new(u32::MAX, u32::MAX));
    let circle = CircleUVec2::new_with_limits(UVec2::new(10, 10), 3, far);
    assert_eq!(collect_pixels(&mut circle.pixel_iter(false)), vec![]);
    assert_eq!(collect_pixels(&mut circle.pixel_iter(true)), vec![]);
    let below = uvec2::Rectangle::new(UVec2::new(0, 0x8000_0000), UVec2::new(50, u32::MAX));
    let circle = CircleUVec2::new_with_limits(UVec2::new(10, 10), 3, below);
    assert_eq!(collect_pixels(&mut circle.pixel_iter(false)), vec![]);
    let edge = CircleUVec2::new_with_limits(
        UVec2::new(0x7fff_fffe, 1),
        1,
        uvec2::Rectangle::new(UVec2::new(0x7fff_fffe, 0), UVec2::new(u32::MAX, u32::MAX)),
    );
    assert_eq!(
        collect_pixels(&mut edge.pixel_iter(false)),
        vec![IVec2::new(i32::MAX - 1, 0), IVec2::new(i32::MAX - 1, 1)]
    );
}

#[test]
fn unsigned_circle_measures() {
    let circle = CircleUVec2::new(UVec2::new(10, 20), 3);
    let bb = circle.bounding_box();
    assert_eq!(bb.tl, UVec2::new(7, 17));
    assert_eq!(bb.br, UVec2::new(13, 23));
    assert_eq!(circle.limited_bounding_box(), bb);
    assert_eq!(circle.center_2x(), I64Vec2 { x: 19, y: 39 });
    assert_eq!(CircleUVec2::new(UVec2::new(0, 0), 0).center_2x(), I64Vec2 { x: -1, y: -1 });
    assert_eq!(circle.threshold(), 36);
    assert_eq!(CircleUVec2::new(UVec2::new(0, 0), u32::MAX).threshold(), 4 * (u32::MAX as i128) * (u32::MAX as i128));
    assert!(circle.contains(UVec2::new(12, 21)));
    assert!(circle.contains(UVec2::new(7, 18)));
    assert!(!circle.contains(UVec2::new(7, 17)));
    assert!(!circle.contains(UVec2::new(13, 20)));
    assert!(CircleUVec2::new(UVec2::new(1, 1), 1).contains(UVec2::new(0, 0)));
    let limits = uvec2::Rectangle::new(UVec2::new(10, 10), UVec2::new(12, 40));
    let limited = CircleUVec2::new_with_limits(UVec2::new(10, 20), 3, limits);
    let lbb = limited.limited_bounding_box();
    assert_eq!(lbb.tl, UVec2::new(10, 17));
    assert_eq!(lbb.br, UVec2::new(12, 23));
    let apart = uvec2::Rectangle::new(UVec2::new(20, 20), UVec2::new(30, 30));
    let outside = CircleUVec2::new_with_limits(UVec2::new(10, 10), 3, apart);
    let obb = outside.limited_bounding_box();
    assert_eq!((obb.tl, obb.br), (UVec2::new(20, 20), UVec2::new(13, 13)));
    assert_eq!(collect_pixels(&mut outside.pixel_iter(false)), vec![]);
    assert_eq!(circle.position(), UVec2::new(10, 20));
    assert_eq!(circle.center(), UVec2::new(10, 20));
}

#[test]
fn circle_conversions_wrap_around() {
    let circle = CircleIVec2::new(IVec2::new(-1, 7), 4);
    let unsigned = circle.as_circle_uvec2();
    assert_eq!(unsigned.pos, UVec2::new(u32::MAX, 7));
    assert_eq!(unsigned.radius, 4);
    assert!(unsigned.limits.is_none());
    let back = unsigned.as_circle_ivec2();
    assert_eq!(back.pos, IVec2::new(-1, 7));
    assert_eq!(back.radius, 4);
    let big = CircleUVec2::new(UVec2::new(0x8000_0000, 0), 0xffff_ffff).as_circle_ivec2();
    assert_eq!(big.pos, IVec2::new(i32::MIN, 0));
    assert_eq!(big.radius, -1);
    let limits = RectangleIVec2::new(IVec2::new(-5, 2), IVec2::new(6, 9));
    let limited = CircleIVec2::new_with_limits(IVec2::new(1, 7), 4, limits).as_circle_uvec2();
    let carried = limited.limits.unwrap();
    assert_eq!((carried.tl, carried.br), (UVec2::new(u32::MAX - 4, 2), UVec2::new(6, 9)));
    assert_eq!(limited.as_circle_ivec2().limits, Some(limits));
}

#[test]
fn circle_at_the_edge_of_the_grid() {
    let circle = CircleIVec2::new(IVec2::new(i32::MAX - 1, i32::MIN + 1), 1);
    assert_eq!(
        collect_pixels(&mut circle.pixel_iter(false)),
        vec![
            IVec2::new(i32::MAX - 2, i32::MIN),
            IVec2::new(i32::MAX - 1, i32::MIN),
            IVec2::new(i32::MAX - 2, i32::MIN + 1),
            IVec2::new(i32::MAX - 1, i32::MIN + 1),
        ]
    );
}

#[test]
fn circle_outline_has_two_points_in_every_row() {
    for radius in 0..9 {
        let circle = CircleIVec2::new(IVec2::new(4, -6), radius);
        let outline = collect_pixels(&mut circle.pixel_iter(true));
        let filled = collect_pixels(&mut circle.pixel_iter(false));
        assert_eq!(outline.len(), 4 * radius as usize);
        for y in (-6 - radius)..(-6 + radius) {
            let row: Vec<IVec2> = filled.iter().filter(|p| p.y == y).cloned().collect();
            let ends: Vec<IVec2> = outline.iter().filter(|p| p.y == y).cloned().collect();
            assert_eq!(ends, vec![row[0], row[row.len() - 1]]);
        }
    }
}

#[test]
fn circle_pixels_come_in_row_major_order() {
    let limits = RectangleIVec2::new(IVec2::new(-3, -2), IVec2::new(9, 4));
    for circle in [
        CircleIVec2::new(IVec2::new(0, 0), 5),
        CircleIVec2::new_with_limits(IVec2::new(0, 0), 5, limits),
    ] {
        for outline in [false, true] {
            let pixels = collect_pixels(&mut circle.pixel_iter(outline));
            for i in 1..pixels.len() {
                let (p, q) = (pixels[i - 1], pixels[i]);
                assert!(p.y < q.y || (p.y == q.y && p.x < q.x));
            }
        }
    }
}

#[test]
fn clipped_circle_pixels_are_the_contained_pixels_within_the_limits() {
    let limits = RectangleIVec2::new(IVec2::new(-3, -2), IVec2::new(9, 4));
    let circle = CircleIVec2::new_with_limits(IVec2::new(0, 0), 5, limits);
    let pixels = collect_pixels(&mut circle.pixel_iter(false));
    let mut expected = vec![];
    for y in -8..8 {
        for x in -8..8 {
            let p = IVec2::new(x, y);
            if circle.contains(p) && -3 <= x && x < 9 && -2 <= y && y < 4 {
                expected.push(p);
            }
        }
    }
    assert_eq!(pixels, expected);
}

#[test]
fn circle_that_only_touches_its_limits_has_no_pixels() {
    let touching = RectangleIVec2::new(IVec2::new(13, 0), IVec2::new(40, 40));
    let circle = CircleIVec2::new_with_limits(IVec2::new(10, 10), 3, touching);
    let lbb = circle.limited_bounding_box();
    assert_eq!((lbb.tl, lbb.br), (IVec2::new(13, 7), IVec2::new(13, 13)));
    assert!(lbb.is_zero_sized());
    for outline in [false, true] {
        assert_eq!(collect_pixels(&mut circle.pixel_iter(outline)), vec![]);
    }
    let above = RectangleIVec2::new(IVec2::new(0, 0), IVec2::new(40, 7));
    let circle = CircleIVec2::new_with_limits(IVec2::new(10, 10), 3, above);
    for outline in [false, true] {
        assert_eq!(collect_pixels(&mut circle.pixel_iter(outline)), vec![]);
    }
}
