use raytracer::scalar::ONE;
use raytracer::vector::{Vec2i, Vec2q, Vec3};

#[test]
fn dot_and_cross_of_axes() {
    let x = Vec3::new(ONE, 0, 0);
    let y = Vec3::new(0, ONE, 0);
    assert_eq!(x.dot(y), 0);
    assert_eq!(x.dot(x), ONE);
    let z = x.cross(y);
    assert_eq!(z, Vec3 { x: 0, y: 0, z: ONE });
}

#[test]
fn length_of_three_four_five() {
    let v = Vec3::new(3 * ONE, 4 * ONE, 0);
    assert_eq!(v.length_squared(), 25 * ONE);
    assert_eq!(v.length(), 5 * ONE);
}

#[test]
fn normalized_axis_vector() {
    let v = Vec3::new(0, 0, 2 * ONE);
    let n = v.normalized();
    assert_eq!(n, Vec3 { x: 0, y: 0, z: ONE });
}

#[test]
fn normalize_in_place_matches_normalized() {
    let v = Vec3::new(3 * ONE, 4 * ONE, 0);
    let mut w = v;
    w.normalize();
    assert_eq!(w, v.normalized());
}

#[test]
fn add_sub_neg_scaled() {
    let a = Vec3::new(ONE, 2 * ONE, -ONE);
    let b = Vec3::new(ONE, ONE, ONE);
    assert_eq!(a.add(b), Vec3 { x: 2 * ONE, y: 3 * ONE, z: 0 });
    assert_eq!(a.sub(b), Vec3 { x: 0, y: ONE, z: -2 * ONE });
    assert_eq!(a.neg(), Vec3 { x: -ONE, y: -2 * ONE, z: ONE });
    assert_eq!(a.scaled(2 * ONE), Vec3 { x: 2 * ONE, y: 4 * ONE, z: -2 * ONE });
    assert_eq!(a.divided(2 * ONE), Vec3 { x: ONE / 2, y: ONE, z: -ONE / 2 });
}

#[test]
fn translate_and_scale_non_uniform() {
    let mut a = Vec3::new(ONE, ONE, ONE);
    a.translate(Vec3::new(ONE, 0, -ONE));
    assert_eq!(a, Vec3 { x: 2 * ONE, y: ONE, z: 0 });
    a.scale_non_uniform(Vec3::new(ONE / 2, 3 * ONE, ONE));
    assert_eq!(a, Vec3 { x: ONE, y: 3 * ONE, z: 0 });
}

#[test]
fn reflect_across_horizontal_surface() {
    let v = Vec3::new(ONE, -ONE, 0);
    let n = Vec3::new(0, ONE, 0);
    assert_eq!(v.reflect(n), Vec3 { x: ONE, y: ONE, z: 0 });
}

#[test]
fn refract_at_index_one_head_on_is_identity() {
    let n = Vec3::new(0, 0, ONE);
    let v = Vec3::new(0, 0, -ONE);
    assert_eq!(v.refract(n, ONE), v);
}

#[test]
fn vec2i_new_and_add() {
    let a = Vec2i::new(3, -4);
    assert_eq!(a.x, 3);
    assert_eq!(a.y, -4);
    let b = a.add(Vec2i::new(10, 10));
    assert_eq!(b, Vec2i { x: 13, y: 6 });
}

#[test]
fn vec2i_of_vec3_truncates_toward_zero() {
    let v = Vec3::new(3 * ONE + ONE / 2, -(3 * ONE + ONE / 2), 0);
    let p = Vec2i::of_vec3(v);
    assert_eq!(p, Vec2i { x: 3, y: -3 });
}

#[test]
fn vec2q_new_keeps_values() {
    let p = Vec2q::new(ONE, -ONE);
    assert_eq!(p.x, ONE);
    assert_eq!(p.y, -ONE);
}
