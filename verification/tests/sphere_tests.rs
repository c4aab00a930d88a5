use raytracer::hittable::{HitRecord, HittableList};
use raytracer::interval::Interval;
use raytracer::material::{Lambertian, Material};
use raytracer::ray::Ray;
use raytracer::scalar::{ONE, Q_MAX};
use raytracer::sphere::{quadratic_formula, ray_sphere_intersection, Sphere};
use raytracer::vector::Vec3;
use raytracer::color::Col3q;

fn gray_scene() -> HittableList {
    let mut scene = HittableList::new();
    scene.add_material(Material::Lambertian(Lambertian::new(Col3q::new(
        ONE / 2,
        ONE / 2,
        ONE / 2,
    ))));
    scene
}

#[test]
fn quadratic_formula_exact_roots() {
    // t^2 - 3t + 2 = 0 has roots 1 and 2.
    let (exists, t0, t1) = quadratic_formula(ONE, -3 * ONE, 2 * ONE);
    assert!(exists);
    assert_eq!(t0, ONE);
    assert_eq!(t1, 2 * ONE);
}

#[test]
fn quadratic_formula_no_real_roots() {
    // t^2 + 1 = 0 has no real roots.
    let (exists, _, _) = quadratic_formula(ONE, 0, ONE);
    assert!(!exists);
}

#[test]
fn quadratic_formula_degenerate_leading_coefficient() {
    let (exists, _, _) = quadratic_formula(0, ONE, ONE);
    assert!(!exists);
}

#[test]
fn hit_from_outside_reports_smaller_root() {
    // Ray down -z from the origin; sphere of radius 1 centered at z = -2.
    // Roots are t = 1 and t = 3; the nearer one wins, with the normal
    // pointing back toward the camera.
    let s = Sphere::new(Vec3::new(0, 0, -2 * ONE), ONE, 0);
    let ray = Ray::new(Vec3::new(0, 0, 0), Vec3::new(0, 0, -ONE));
    let mut interval = Interval::new(1, Q_MAX);
    let mut rec = HitRecord::new();
    let hit = s.first_hit_on_interval(ray, &mut interval, &mut rec);
    assert!(hit);
    assert_eq!(rec.t, ONE);
    assert_eq!(interval.upper_bound, ONE);
    assert_eq!(rec.point, Vec3 { x: 0, y: 0, z: -ONE });
    assert_eq!(rec.normal, Vec3 { x: 0, y: 0, z: ONE });
    assert!(rec.front_face);
    assert_eq!(rec.mat, Some(0));
}

#[test]
fn hit_from_inside_reports_far_root_with_flipped_normal() {
    // Ray starts at the center of the sphere: only the far root t = 1 is
    // ahead, the geometric normal points along the ray and is flipped.
    let s = Sphere::new(Vec3::new(0, 0, 0), ONE, 0);
    let ray = Ray::new(Vec3::new(0, 0, 0), Vec3::new(0, 0, -ONE));
    let mut interval = Interval::new(1, Q_MAX);
    let mut rec = HitRecord::new();
    let hit = s.first_hit_on_interval(ray, &mut interval, &mut rec);
    assert!(hit);
    assert_eq!(rec.t, ONE);
    assert_eq!(rec.point, Vec3 { x: 0, y: 0, z: -ONE });
    assert!(!rec.front_face);
    assert_eq!(rec.normal, Vec3 { x: 0, y: 0, z: ONE });
}

#[test]
fn miss_leaves_interval_and_record_unchanged() {
    // Perpendicular distance from the center to the ray line is 3, well
    // beyond the radius 1: no hit, nothing touched.
    let s = Sphere::new(Vec3::new(0, 3 * ONE, -2 * ONE), ONE, 0);
    let ray = Ray::new(Vec3::new(0, 0, 0), Vec3::new(0, 0, -ONE));
    let mut interval = Interval::new(1, Q_MAX);
    let mut rec = HitRecord::new();
    let before_interval = interval;
    let before_rec = rec;
    let hit = s.first_hit_on_interval(ray, &mut interval, &mut rec);
    assert!(!hit);
    assert_eq!(interval, before_interval);
    assert_eq!(rec, before_rec);
}

#[test]
fn behind_ray_is_not_hit() {
    // The sphere sits behind the ray origin: both roots are negative.
    let s = Sphere::new(Vec3::new(0, 0, 2 * ONE), ONE, 0);
    let ray = Ray::new(Vec3::new(0, 0, 0), Vec3::new(0, 0, -ONE));
    let mut interval = Interval::new(1, Q_MAX);
    let mut rec = HitRecord::new();
    assert!(!s.first_hit_on_interval(ray, &mut interval, &mut rec));
}

#[test]
fn closest_hit_wins_in_any_insertion_order() {
    let ray = Ray::new(Vec3::new(0, 0, 0), Vec3::new(0, 0, -ONE));
    let near = Sphere::new(Vec3::new(0, 0, -3 * ONE), ONE, 0);
    let far = Sphere::new(Vec3::new(0, 0, -6 * ONE), ONE, 0);

    let mut scene_a = gray_scene();
    scene_a.add(near);
    scene_a.add(far);
    let mut iv_a = Interval::new(1, Q_MAX);
    let mut rec_a = HitRecord::new();
    assert!(scene_a.first_hit_on_interval(ray, &mut iv_a, &mut rec_a));

    let mut scene_b = gray_scene();
    scene_b.add(far);
    scene_b.add(near);
    let mut iv_b = Interval::new(1, Q_MAX);
    let mut rec_b = HitRecord::new();
    assert!(scene_b.first_hit_on_interval(ray, &mut iv_b, &mut rec_b));

    assert_eq!(rec_a.t, 2 * ONE);
    assert_eq!(rec_a.t, rec_b.t);
    assert_eq!(rec_a.point, rec_b.point);
    assert_eq!(rec_a.normal, rec_b.normal);
    assert_eq!(iv_a.upper_bound, iv_b.upper_bound);
}

#[test]
fn scene_hit_equals_minimum_of_individual_hits() {
    let ray = Ray::new(Vec3::new(0, 0, 0), Vec3::new(0, 0, -ONE));
    let spheres = [
        Sphere::new(Vec3::new(0, 0, -8 * ONE), ONE, 0),
        Sphere::new(Vec3::new(0, 0, -4 * ONE), ONE, 0),
        Sphere::new(Vec3::new(0, 0, -12 * ONE), ONE, 0),
    ];
    let mut min_t: i64 = i64::MAX;
    for s in spheres.iter() {
        let mut iv = Interval::new(1, Q_MAX);
        let mut rec = HitRecord::new();
        if s.first_hit_on_interval(ray, &mut iv, &mut rec) && rec.t < min_t {
            min_t = rec.t;
        }
    }
    let mut scene = gray_scene();
    for s in spheres.iter() {
        scene.add(*s);
    }
    let mut iv = Interval::new(1, Q_MAX);
    let mut rec = HitRecord::new();
    assert!(scene.first_hit_on_interval(ray, &mut iv, &mut rec));
    assert_eq!(rec.t, min_t);
    assert_eq!(rec.t, 3 * ONE);
}

#[test]
fn empty_scene_reports_no_hit() {
    let scene = HittableList::new();
    let ray = Ray::new(Vec3::new(0, 0, 0), Vec3::new(0, 0, -ONE));
    let mut iv = Interval::new(1, Q_MAX);
    let mut rec = HitRecord::new();
    let before = rec;
    assert!(!scene.first_hit_on_interval(ray, &mut iv, &mut rec));
    assert_eq!(rec, before);
}

#[test]
fn standalone_intersection_tightens_interval() {
    let s = Sphere::new(Vec3::new(0, 0, -2 * ONE), ONE, 0);
    let ray = Ray::new(Vec3::new(0, 0, 0), Vec3::new(0, 0, -ONE));
    let mut interval = Interval::new(1, Q_MAX);
    let (hit, point, normal) = ray_sphere_intersection(ray, s, &mut interval);
    assert!(hit);
    assert_eq!(interval.upper_bound, ONE);
    assert_eq!(point, Vec3 { x: 0, y: 0, z: -ONE });
    assert_eq!(normal, Vec3 { x: 0, y: 0, z: ONE });
}

#[test]
fn interval_contains_is_inclusive_and_surrounds_is_strict() {
    let iv = Interval::new(ONE, 3 * ONE);
    assert!(iv.contains(ONE));
    assert!(iv.contains(3 * ONE));
    assert!(iv.contains(2 * ONE));
    assert!(!iv.contains(ONE - 1));
    assert!(!iv.contains(3 * ONE + 1));
    assert!(!iv.surrounds(ONE));
    assert!(!iv.surrounds(3 * ONE));
    assert!(iv.surrounds(2 * ONE));
    assert_eq!(iv.size(), 2 * ONE);
}

#[test]
fn sphere_caches_squared_radius() {
    let s = Sphere::new(Vec3::new(0, 0, 0), 3 * ONE, 0);
    assert_eq!(s.radius, 3 * ONE);
    assert_eq!(s.radius_squared, 9 * ONE);
}

#[test]
fn normal_at_points_away_from_center() {
    let s = Sphere::new(Vec3::new(0, 0, 0), 2 * ONE, 0);
    let n = s.normal_at(Vec3::new(2 * ONE, 0, 0));
    assert_eq!(n, Vec3 { x: ONE, y: 0, z: 0 });
}
