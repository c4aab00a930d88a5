use raytracer::extensions::{in_viewport, line_intersection, ndc_to_image};
use raytracer::scalar::ONE;
use raytracer::vector::{Vec2i, Vec2q};

#[test]
fn ndc_center_maps_to_image_center() {
    let p = ndc_to_image(256, 256, Vec2q::new(0, 0));
    assert_eq!(p, Vec2i { x: 128, y: 128 });
}

#[test]
fn ndc_corners_map_to_image_corners() {
    assert_eq!(ndc_to_image(256, 256, Vec2q::new(-ONE, -ONE)), Vec2i { x: 0, y: 0 });
    assert_eq!(ndc_to_image(256, 256, Vec2q::new(ONE, ONE)), Vec2i { x: 256, y: 256 });
}

#[test]
fn viewport_test_is_inclusive() {
    assert!(in_viewport(Vec2q::new(0, 0)));
    assert!(in_viewport(Vec2q::new(ONE, -ONE)));
    assert!(!in_viewport(Vec2q::new(ONE + 1, 0)));
    assert!(!in_viewport(Vec2q::new(0, -ONE - 1)));
}

#[test]
fn crossing_segments_intersect_in_the_middle() {
    let (exists, at) = line_intersection(
        Vec2q::new(0, 0),
        Vec2q::new(2 * ONE, 2 * ONE),
        Vec2q::new(0, 2 * ONE),
        Vec2q::new(2 * ONE, 0),
    );
    assert!(exists);
    assert_eq!(at, Vec2q { x: ONE, y: ONE });
}

#[test]
fn parallel_segments_do_not_intersect() {
    let (exists, _) = line_intersection(
        Vec2q::new(0, 0),
        Vec2q::new(2 * ONE, 0),
        Vec2q::new(0, ONE),
        Vec2q::new(2 * ONE, ONE),
    );
    assert!(!exists);
}

#[test]
fn disjoint_segments_do_not_intersect() {
    // The lines cross, but beyond the ends of the second segment.
    let (exists, _) = line_intersection(
        Vec2q::new(0, 0),
        Vec2q::new(2 * ONE, 2 * ONE),
        Vec2q::new(10 * ONE, 0),
        Vec2q::new(10 * ONE, ONE),
    );
    assert!(!exists);
}
