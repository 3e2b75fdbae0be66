use pixel_shapes::iters::rect_iter::{RectangleOutlinePixels, RectanglePixels};
use pixel_shapes::iters::{collect_pixels, PixelIter};
use pixel_shapes::ivec2;
use pixel_shapes::point::IVec2;

fn pixels_of(x0: i32, y0: i32, x1: i32, y1: i32, outline: bool) -> Vec<IVec2> {
    let rect = ivec2::Rectangle::new_const(IVec2::new(x0, y0), IVec2::new(x1, y1));
    collect_pixels(&mut rect.pixel_iter(outline))
}

#[test]
fn rectangle_pixels() {
    let rect = ivec2::Rectangle::new(IVec2::new(0, 0), IVec2::new(2, 2));
    let pixels: Vec<IVec2> = collect_pixels(&mut RectanglePixels::new(&rect, false));
    assert_eq!(pixels, vec![
        IVec2::new(0, 0),
        IVec2::new(1, 0),
        IVec2::new(0, 1),
        IVec2::new(1, 1),
    ]);
}

#[test]
fn outline_y_start_not_zero() {
    let rect = ivec2::Rectangle::new(IVec2::new(0, 34), IVec2::new(4, 39));
    let pixels: Vec<IVec2> = collect_pixels(&mut RectanglePixels::new(&rect, true));
    assert_eq!(pixels, vec![
        IVec2::new(0, 34),
        IVec2::new(1, 34),
        IVec2::new(2, 34),
        IVec2::new(3, 34),

        IVec2::new(0, 35),
        IVec2::new(3, 35),

        IVec2::new(0, 36),
        IVec2::new(3, 36),

        IVec2::new(0, 37),
        IVec2::new(3, 37),

        IVec2::new(0, 38),
        IVec2::new(1, 38),
        IVec2::new(2, 38),
        IVec2::new(3, 38),
    ]);
}

#[test]
fn outline_x_start_not_zero() {
    let rect = ivec2::Rectangle::new(IVec2::new(10, 0), IVec2::new(14, 4));
    let pixels: Vec<IVec2> = collect_pixels(&mut RectanglePixels::new(&rect, true));
    assert_eq!(pixels, vec![
        IVec2::new(10, 0),
        IVec2::new(11, 0),
        IVec2::new(12, 0),
        IVec2::new(13, 0),

        IVec2::new(10, 1),
        IVec2::new(13, 1),

        IVec2::new(10, 2),
        IVec2::new(13, 2),

        IVec2::new(10, 3),
        IVec2::new(11, 3),
        IVec2::new(12, 3),
        IVec2::new(13, 3),
    ]);
}

#[test]
fn rectangle_outline_pixels() {
    let rect = ivec2::Rectangle::new(IVec2::new(0, 0), IVec2::new(4, 4));
    let pixels: Vec<IVec2> = collect_pixels(&mut RectanglePixels::new(&rect, true));

    assert_eq!(pixels, vec![
        IVec2::new(0, 0),
        IVec2::new(1, 0),
        IVec2::new(2, 0),
        IVec2::new(3, 0),
        IVec2::new(0, 1),
        IVec2::new(3, 1),
        IVec2::new(0, 2),
        IVec2::new(3, 2),
        IVec2::new(0, 3),
        IVec2::new(1, 3),
        IVec2::new(2, 3),
        IVec2::new(3, 3),
    ]);

    // top row
    assert_eq!(pixels[0..4], vec![
        IVec2::new(0, 0),
        IVec2::new(1, 0),
        IVec2::new(2, 0),
        IVec2::new(3, 0),
    ]);

    // second row
    assert_eq!(pixels[4..6], vec![
        IVec2::new(0, 1),
        IVec2::new(3, 1),
    ]);

    // third row
    assert_eq!(pixels[6..8], vec![
        IVec2::new(0, 2),
        IVec2::new(3, 2),
    ]);

    // fourth row
    assert_eq!(pixels[8..12], vec![
        IVec2::new(0, 3),
        IVec2::new(1, 3),
        IVec2::new(2, 3),
        IVec2::new(3, 3),
    ]);
}

#[test]
fn filled_rectangle_has_every_pixel_once() {
    let (x0, y0, x1, y1) = (-2, 5, 3, 9);
    let pixels = pixels_of(x0, y0, x1, y1, false);
    assert_eq!(pixels.len(), 5 * 4);
    for (i, p) in pixels.iter().enumerate() {
        assert_eq!(*p, IVec2::new(x0 + (i % 5) as i32, y0 + (i / 5) as i32));
        assert!(x0 <= p.x && p.x < x1 && y0 <= p.y && p.y < y1);
        assert!(!pixels[..i].contains(p));
    }
    for y in y0..y1 {
        for x in x0..x1 {
            assert!(pixels.contains(&IVec2::new(x, y)));
        }
    }
    assert!(!pixels.contains(&IVec2::new(x1, y1)));
}

#[test]
fn zero_sized_rectangle_has_no_pixels() {
    for outline in [false, true] {
        assert_eq!(pixels_of(3, 3, 3, 9, outline), vec![]);
        assert_eq!(pixels_of(3, 3, 9, 3, outline), vec![]);
        assert_eq!(pixels_of(0, 0, 0, 0, outline), vec![]);
        let rect = ivec2::Rectangle::new_const(IVec2::new(3, 3), IVec2::new(3, 9));
        assert_eq!(rect.pixel_iter(outline).next(), None);
    }
}

#[test]
fn rectangle_with_corners_out_of_order_has_no_pixels() {
    for outline in [false, true] {
        assert_eq!(pixels_of(5, 0, 2, 4, outline), vec![]);
        assert_eq!(pixels_of(0, 5, 4, 2, outline), vec![]);
    }
}

#[test]
fn thin_outline_is_the_filled_rectangle() {
    for (w, h) in [(1, 1), (1, 5), (2, 5), (5, 1), (5, 2), (2, 2), (1, 3), (3, 2)] {
        assert_eq!(pixels_of(4, -1, 4 + w, -1 + h, true), pixels_of(4, -1, 4 + w, -1 + h, false));
    }
}

#[test]
fn outline_of_a_single_column() {
    assert_eq!(
        pixels_of(7, 0, 8, 4, true),
        vec![IVec2::new(7, 0), IVec2::new(7, 1), IVec2::new(7, 2), IVec2::new(7, 3)]
    );
}

#[test]
fn outline_inner_rows_have_two_points() {
    let (x0, y0, w, h) = (2, 3, 5, 6);
    let pixels = pixels_of(x0, y0, x0 + w, y0 + h, true);
    assert_eq!(pixels.len(), (2 * w + 2 * (h - 2)) as usize);
    for y in (y0 + 1)..(y0 + h - 1) {
        let row: Vec<IVec2> = pixels.iter().filter(|p| p.y == y).cloned().collect();
        assert_eq!(row, vec![IVec2::new(x0, y), IVec2::new(x0 + w - 1, y)]);
        let at = (w + 2 * (y - y0 - 1)) as usize;
        assert_eq!(pixels[at], IVec2::new(x0, y));
        assert_eq!(pixels[at + 1], IVec2::new(x0 + w - 1, y));
    }
}

#[test]
fn empty_state_hands_out_nothing() {
    let mut it = RectanglePixels::empty();
    assert_eq!(it.next(), None);
    assert_eq!(it.next(), None);
}

#[test]
fn rectangle_at_the_edge_of_the_grid() {
    assert_eq!(
        pixels_of(i32::MAX - 2, i32::MAX - 1, i32::MAX, i32::MAX, false),
        vec![IVec2::new(i32::MAX - 2, i32::MAX - 1), IVec2::new(i32::MAX - 1, i32::MAX - 1)]
    );
    assert_eq!(
        pixels_of(i32::MIN, i32::MIN, i32::MIN + 1, i32::MIN + 2, true),
        vec![IVec2::new(i32::MIN, i32::MIN), IVec2::new(i32::MIN, i32::MIN + 1)]
    );
}

#[test]
fn outline_pixels_are_the_outlined_pixels() {
    let rect = ivec2::Rectangle::new(IVec2::new(0, 34), IVec2::new(4, 39));
    let mut outline = RectangleOutlinePixels::new(&rect);
    assert_eq!(outline.next(), Some(IVec2::new(0, 34)));
    let rest = collect_pixels(&mut outline);
    assert_eq!(rest.len(), 13);
    assert_eq!(rest, pixels_of(0, 34, 4, 39, true)[1..]);
    assert_eq!(outline.next(), None);
}
