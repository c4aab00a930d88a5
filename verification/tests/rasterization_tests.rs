use raytracer::color::Col3q;
use raytracer::image::Image;
use raytracer::rasterization::{
    bresenham, draw_line_antialiased, draw_point, draw_point_circle, draw_point_square,
    plot_line_high, plot_line_low, scanline_triangle, PointType,
};
use raytracer::scalar::ONE;
use raytracer::vector::Vec2i;

fn white_count(img: &Image) -> usize {
    img.data.iter().filter(|p| **p == Col3q::white()).count()
}

#[test]
fn draw_point_blends_one_pixel() {
    let mut img = Image::with_dimensions(4, 4);
    draw_point(&mut img, Vec2i::new(1, 2), Col3q::red(), ONE);
    assert_eq!(*img.index_2d(1, 2), Col3q::red());
    assert_eq!(*img.index_2d(2, 1), Col3q::white());
}

#[test]
fn draw_point_outside_is_ignored() {
    let mut img = Image::with_dimensions(4, 4);
    let before = img.data.clone();
    draw_point(&mut img, Vec2i::new(-1, 2), Col3q::red(), ONE);
    draw_point(&mut img, Vec2i::new(1, 9), Col3q::red(), ONE);
    assert_eq!(img.data, before);
}

#[test]
fn horizontal_bresenham_paints_a_row() {
    let mut img = Image::with_dimensions(8, 3);
    // Start from black so the white line is visible.
    for y in 0..3usize {
        for x in 0..8usize {
            img.set_2d(x, y, Col3q::black());
        }
    }
    bresenham(&mut img, Vec2i::new(1, 1), Vec2i::new(6, 1));
    for x in 0..8usize {
        let expect = x >= 1 && x <= 6;
        assert_eq!(*img.index_2d(x, 1) == Col3q::white(), expect);
    }
    assert_eq!(white_count(&img), 6);
}

#[test]
fn vertical_bresenham_paints_a_column() {
    let mut img = Image::with_dimensions(3, 8);
    for y in 0..8usize {
        for x in 0..3usize {
            img.set_2d(x, y, Col3q::black());
        }
    }
    bresenham(&mut img, Vec2i::new(2, 6), Vec2i::new(2, 1));
    for y in 0..8usize {
        let expect = y >= 1 && y <= 6;
        assert_eq!(*img.index_2d(2, y) == Col3q::white(), expect);
    }
}

#[test]
fn diagonal_bresenham_paints_the_diagonal() {
    let mut img = Image::with_dimensions(5, 5);
    for y in 0..5usize {
        for x in 0..5usize {
            img.set_2d(x, y, Col3q::black());
        }
    }
    bresenham(&mut img, Vec2i::new(0, 0), Vec2i::new(4, 4));
    for k in 0..5usize {
        assert_eq!(*img.index_2d(k, k), Col3q::white());
    }
    assert_eq!(white_count(&img), 5);
}

#[test]
fn bresenham_clips_outside_the_buffer() {
    let mut img = Image::with_dimensions(4, 4);
    for y in 0..4usize {
        for x in 0..4usize {
            img.set_2d(x, y, Col3q::black());
        }
    }
    // Runs from outside the image through it: out-of-range pixels are
    // ignored, in-range ones painted, and nothing panics.
    bresenham(&mut img, Vec2i::new(-3, 1), Vec2i::new(7, 1));
    for x in 0..4usize {
        assert_eq!(*img.index_2d(x, 1), Col3q::white());
    }
}

#[test]
fn plot_line_low_and_high_agree_on_the_diagonal() {
    let mut img1 = Image::with_dimensions(6, 6);
    let mut img2 = Image::with_dimensions(6, 6);
    plot_line_low(&mut img1, Vec2i::new(0, 0), Vec2i::new(5, 5));
    plot_line_high(&mut img2, Vec2i::new(0, 0), Vec2i::new(5, 5));
    assert_eq!(img1.data, img2.data);
}

#[test]
fn antialiased_line_spreads_over_neighbor_pixels() {
    let mut img = Image::with_dimensions(8, 4);
    for y in 0..4usize {
        for x in 0..8usize {
            img.set_2d(x, y, Col3q::black());
        }
    }
    // A half-pixel-per-column slope: the color splits between rows.
    draw_line_antialiased(&mut img, Vec2i::new(0, 0), Vec2i::new(7, 3), Col3q::green());
    // The first column starts exactly on row 0.
    assert_eq!(*img.index_2d(0, 0), Col3q::green());
    // A later column lands between two rows: both carry some green.
    let upper = *img.index_2d(3, 1);
    let lower = *img.index_2d(3, 2);
    assert!(upper.g > 0);
    assert!(lower.g > 0);
}

#[test]
fn point_square_fills_a_block() {
    let mut img = Image::with_dimensions(9, 9);
    for y in 0..9usize {
        for x in 0..9usize {
            img.set_2d(x, y, Col3q::black());
        }
    }
    draw_point_square(&mut img, Vec2i::new(4, 4), Col3q::white(), ONE, 3);
    // Offsets -2..=1 on each axis: a 4x4 block.
    for y in 0..9usize {
        for x in 0..9usize {
            let inside = x >= 2 && x <= 5 && y >= 2 && y <= 5;
            assert_eq!(*img.index_2d(x, y) == Col3q::white(), inside);
        }
    }
}

#[test]
fn point_circle_respects_the_radius() {
    let mut img = Image::with_dimensions(11, 11);
    for y in 0..11usize {
        for x in 0..11usize {
            img.set_2d(x, y, Col3q::black());
        }
    }
    draw_point_circle(&mut img, Vec2i::new(5, 5), Col3q::white(), ONE, 4);
    // The center is painted, the corners of the bounding box are not.
    assert_eq!(*img.index_2d(5, 5), Col3q::white());
    assert_eq!(*img.index_2d(5, 8), Col3q::white());
    assert_eq!(*img.index_2d(2, 2), Col3q::black());
    assert_eq!(*img.index_2d(1, 5), Col3q::black());
}

#[test]
fn point_dispatch_matches_the_direct_calls() {
    let mut via_dispatch = Image::with_dimensions(9, 9);
    let mut direct = Image::with_dimensions(9, 9);
    via_dispatch.draw_point(Vec2i::new(4, 4), Col3q::red(), ONE / 2, 3, PointType::Circle);
    draw_point_circle(&mut direct, Vec2i::new(4, 4), Col3q::red(), ONE / 2, 3);
    assert_eq!(via_dispatch.data, direct.data);
}

#[test]
fn scanline_triangle_fills_the_interior() {
    let mut img = Image::with_dimensions(16, 16);
    for y in 0..16usize {
        for x in 0..16usize {
            img.set_2d(x, y, Col3q::black());
        }
    }
    scanline_triangle(&mut img, Vec2i::new(8, 2), Vec2i::new(2, 13), Vec2i::new(14, 13),
        Col3q::red(), ONE);
    // A point well inside the triangle is filled, the outside corners are
    // untouched.
    assert_eq!(*img.index_2d(8, 10), Col3q::red());
    assert_eq!(*img.index_2d(0, 0), Col3q::black());
    assert_eq!(*img.index_2d(15, 0), Col3q::black());
    assert_eq!(*img.index_2d(0, 15), Col3q::black());
}

#[test]
fn zero_radius_point_draws_nothing() {
    let mut img = Image::with_dimensions(4, 4);
    let before = img.data.clone();
    draw_point_square(&mut img, Vec2i::new(2, 2), Col3q::red(), ONE, 0);
    draw_point_circle(&mut img, Vec2i::new(2, 2), Col3q::red(), ONE, 0);
    assert_eq!(img.data, before);
}
