use raytracer::color::{Col3q, Col3u8};
use raytracer::image::Image;
use raytracer::scalar::ONE;

#[test]
fn with_dimensions_starts_white() {
    let img = Image::with_dimensions(4, 3);
    assert_eq!(img.width, 4);
    assert_eq!(img.height, 3);
    assert_eq!(img.data.len(), 12);
    for p in img.data.iter() {
        assert_eq!(*p, Col3q::white());
    }
}

#[test]
fn set_and_index_are_row_major() {
    let mut img = Image::with_dimensions(4, 3);
    img.set_2d(1, 2, Col3q::red());
    assert_eq!(*img.index_2d(1, 2), Col3q::red());
    assert_eq!(img.data[2 * 4 + 1], Col3q::red());
    assert_eq!(*img.index_2d(2, 1), Col3q::white());
}

#[test]
fn over_with_full_opacity_replaces() {
    let mut img = Image::with_dimensions(2, 2);
    img.over(0, 0, Col3q::red(), ONE);
    assert_eq!(*img.index_2d(0, 0), Col3q::red());
}

#[test]
fn over_with_zero_opacity_keeps_pixel() {
    let mut img = Image::with_dimensions(2, 2);
    img.over(0, 0, Col3q::red(), 0);
    assert_eq!(*img.index_2d(0, 0), Col3q::white());
}

#[test]
fn over_with_half_opacity_blends() {
    let mut img = Image::with_dimensions(2, 2);
    img.set_2d(1, 1, Col3q::black());
    img.over(1, 1, Col3q::white(), ONE / 2);
    assert_eq!(*img.index_2d(1, 1), Col3q { r: ONE / 2, g: ONE / 2, b: ONE / 2 });
}

#[test]
fn over_outside_bounds_is_ignored() {
    let mut img = Image::with_dimensions(2, 2);
    let before = img.data.clone();
    img.over(2, 0, Col3q::red(), ONE);
    img.over(0, 7, Col3q::red(), ONE);
    assert_eq!(img.data, before);
}

#[test]
fn col3u8_constants() {
    assert_eq!(Col3u8::white(), Col3u8 { r: 255, g: 255, b: 255 });
    assert_eq!(Col3u8::black(), Col3u8 { r: 0, g: 0, b: 0 });
    assert_eq!(Col3u8::red(), Col3u8 { r: 255, g: 0, b: 0 });
    assert_eq!(Col3u8::green(), Col3u8 { r: 0, g: 255, b: 0 });
    assert_eq!(Col3u8::blue(), Col3u8 { r: 0, g: 0, b: 255 });
    assert_eq!(Col3u8::new(1, 2, 3), Col3u8 { r: 1, g: 2, b: 3 });
}

#[test]
fn col3u8_add_sums_channels() {
    let c = Col3u8::new(10, 20, 30).add(Col3u8::new(1, 2, 3));
    assert_eq!(c, Col3u8 { r: 11, g: 22, b: 33 });
}

#[test]
fn col3q_constants_and_ops() {
    assert_eq!(Col3q::white(), Col3q { r: ONE, g: ONE, b: ONE });
    assert_eq!(Col3q::magenta(), Col3q { r: ONE, g: 0, b: ONE });
    assert_eq!(Col3q::yellow(), Col3q { r: ONE, g: ONE, b: 0 });
    assert_eq!(Col3q::cyan(), Col3q { r: 0, g: ONE, b: ONE });
    let c = Col3q::new(ONE / 2, ONE / 4, ONE).add(Col3q::new(ONE / 2, 0, 0));
    assert_eq!(c, Col3q { r: ONE, g: ONE / 4, b: ONE });
    assert_eq!(c.scaled(ONE / 2), Col3q { r: ONE / 2, g: ONE / 8, b: ONE / 2 });
    let filtered = Col3q::white().attenuated(Col3q::new(ONE / 2, ONE / 4, 0));
    assert_eq!(filtered, Col3q { r: ONE / 2, g: ONE / 4, b: 0 });
}

#[test]
fn col3q_to_bytes_caps_and_scales() {
    // Channels scale by 255.999 and truncate: 1.0 maps to 255 and 0.5 to
    // 127, with out-of-range values clamped.
    let c = Col3q { r: ONE, g: ONE / 2, b: 0 };
    let b = c.to_col3u8();
    assert_eq!(b, Col3u8 { r: 255, g: 127, b: 0 });
    let over = Col3q { r: 3 * ONE, g: -ONE, b: ONE / 4 };
    assert_eq!(over.to_col3u8(), Col3u8 { r: 255, g: 0, b: 63 });
}

#[test]
fn col3u8_to_col3q_scales_down() {
    let q = Col3u8::new(255, 0, 51).to_col3q();
    assert_eq!(q.r, ONE);
    assert_eq!(q.g, 0);
    // 51/255 = 1/5 of a unit, rounded down in fixed point.
    assert_eq!(q.b, 13107);
}
