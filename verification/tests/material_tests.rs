use raytracer::color::Col3q;
use raytracer::hittable::HitRecord;
use raytracer::material::{Dielectric, Lambertian, Material, Metal};
use raytracer::ray::Ray;
use raytracer::scalar::ONE;
use raytracer::vector::Vec3;

fn surface_hit(point: Vec3, normal: Vec3, front_face: bool) -> HitRecord {
    HitRecord { point, normal, t: ONE, front_face, mat: Some(0) }
}

#[test]
fn lambertian_scatter_always_succeeds_with_albedo() {
    let albedo = Col3q::new(ONE / 2, ONE / 4, ONE / 8);
    let m = Lambertian::new(albedo);
    let hit = surface_hit(Vec3::new(0, 0, -ONE), Vec3::new(0, 0, ONE), true);
    let ray_in = Ray::new(Vec3::new(0, 0, 0), Vec3::new(0, 0, -ONE));
    let mut attenuation = Col3q::black();
    let mut scattered = Ray::new(Vec3::new(0, 0, 0), Vec3::new(0, 0, 0));
    let unit_sample = Vec3::new(0, 0, ONE);
    let ok = m.scatter_with(ray_in, &hit, unit_sample, &mut attenuation, &mut scattered);
    assert!(ok);
    assert_eq!(attenuation, albedo);
    assert_eq!(scattered.origin, hit.point);
    assert_eq!(scattered.direction, Vec3 { x: 0, y: 0, z: 2 * ONE });
    assert!(scattered.direction.dot(hit.normal) >= 0);
}

#[test]
fn lambertian_scatter_direction_stays_above_surface_for_many_samples() {
    // The nonnegative-dot property, exercised across a spread of unit
    // samples no longer than the normal.
    let m = Lambertian::new(Col3q::new(ONE / 2, ONE / 2, ONE / 2));
    let normal = Vec3::new(0, 0, ONE);
    let hit = surface_hit(Vec3::new(0, 0, -ONE), normal, true);
    let ray_in = Ray::new(Vec3::new(0, 0, 0), Vec3::new(0, 0, -ONE));
    let samples = [
        Vec3::new(0, 0, -ONE),
        Vec3::new(0, 0, ONE),
        Vec3::new(ONE, 0, 0),
        Vec3::new(-ONE, 0, 0),
        Vec3::new(0, -ONE, 0),
        Vec3::new(46341, 46341, 0),
        Vec3::new(-46341, 0, -46341),
    ];
    for u in samples.iter() {
        let mut attenuation = Col3q::black();
        let mut scattered = Ray::new(Vec3::new(0, 0, 0), Vec3::new(0, 0, 0));
        let ok = m.scatter_with(ray_in, &hit, *u, &mut attenuation, &mut scattered);
        assert!(ok);
        assert!(scattered.direction.dot(normal) >= 0);
    }
}

#[test]
fn lambertian_degenerate_sum_falls_back_to_normal() {
    let m = Lambertian::new(Col3q::new(ONE / 2, ONE / 2, ONE / 2));
    let normal = Vec3::new(0, 0, ONE);
    let hit = surface_hit(Vec3::new(0, 0, -ONE), normal, true);
    let ray_in = Ray::new(Vec3::new(0, 0, 0), Vec3::new(0, 0, -ONE));
    let mut attenuation = Col3q::black();
    let mut scattered = Ray::new(Vec3::new(0, 0, 0), Vec3::new(0, 0, 0));
    // The sample exactly cancels the normal; the normal stands in.
    let ok = m.scatter_with(ray_in, &hit, Vec3::new(0, 0, -ONE), &mut attenuation, &mut scattered);
    assert!(ok);
    assert_eq!(scattered.direction, normal);
}

#[test]
fn metal_reflects_and_succeeds_above_surface() {
    let albedo = Col3q::new(ONE, ONE / 2, ONE / 4);
    let m = Metal::new(albedo, 0);
    let normal = Vec3::new(0, ONE, 0);
    let hit = surface_hit(Vec3::new(0, 0, 0), normal, true);
    let ray_in = Ray::new(Vec3::new(-ONE, ONE, 0), Vec3::new(ONE, -ONE, 0));
    let mut attenuation = Col3q::black();
    let mut scattered = Ray::new(Vec3::new(0, 0, 0), Vec3::new(0, 0, 0));
    let ok = m.scatter_with(ray_in, &hit, Vec3::new(0, 0, 0), &mut attenuation, &mut scattered);
    assert!(ok);
    assert_eq!(attenuation, albedo);
    // (1,-1,0) reflects to (1,1,0), normalized.
    assert_eq!(scattered.direction, Vec3 { x: 46341, y: 46341, z: 0 });
}

#[test]
fn metal_absorbs_when_reflection_goes_inside() {
    let m = Metal::new(Col3q::new(ONE, ONE, ONE), 0);
    let normal = Vec3::new(0, ONE, 0);
    let hit = surface_hit(Vec3::new(0, 0, 0), normal, true);
    // Incoming along the normal itself: the mirror image points into the
    // surface, which signals absorption.
    let ray_in = Ray::new(Vec3::new(0, -ONE, 0), Vec3::new(0, ONE, 0));
    let mut attenuation = Col3q::black();
    let mut scattered = Ray::new(Vec3::new(0, 0, 0), Vec3::new(0, 0, 0));
    let ok = m.scatter_with(ray_in, &hit, Vec3::new(0, 0, 0), &mut attenuation, &mut scattered);
    assert!(!ok);
}

#[test]
fn metal_fuzz_is_clamped_at_construction() {
    assert_eq!(Metal::new(Col3q::white(), 3 * ONE).fuzz, ONE);
    assert_eq!(Metal::new(Col3q::white(), -ONE).fuzz, 0);
    assert_eq!(Metal::new(Col3q::white(), ONE / 2).fuzz, ONE / 2);
}

#[test]
fn dielectric_at_index_one_is_a_no_op_head_on() {
    let d = Dielectric::new(ONE);
    let normal = Vec3::new(0, 0, ONE);
    let hit = surface_hit(Vec3::new(0, 0, -ONE), normal, true);
    let ray_in = Ray::new(Vec3::new(0, 0, 0), Vec3::new(0, 0, -ONE));
    let mut attenuation = Col3q::black();
    let mut scattered = Ray::new(Vec3::new(0, 0, 0), Vec3::new(0, 0, 0));
    let ok = d.scatter_with(ray_in, &hit, 0, &mut attenuation, &mut scattered);
    assert!(ok);
    assert_eq!(attenuation, Col3q::white());
    assert_eq!(scattered.direction, ray_in.direction);
}

#[test]
fn dielectric_reflects_totally_beyond_critical_angle() {
    // Exiting a dense medium at a grazing angle: total internal reflection,
    // so the scattered direction is the mirror reflection of the unit
    // incoming direction.
    let d = Dielectric::new(2 * ONE);
    let normal = Vec3::new(0, 0, ONE);
    let hit = surface_hit(Vec3::new(0, 0, 0), normal, false);
    let direction = Vec3::new(4 * ONE, 0, -3 * ONE);
    let ray_in = Ray::new(Vec3::new(0, 0, 0), direction);
    let mut attenuation = Col3q::black();
    let mut scattered = Ray::new(Vec3::new(0, 0, 0), Vec3::new(0, 0, 0));
    let ok = d.scatter_with(ray_in, &hit, ONE - 1, &mut attenuation, &mut scattered);
    assert!(ok);
    assert_eq!(attenuation, Col3q::white());
    let expected = direction.normalized().reflect(normal);
    assert_eq!(scattered.direction, expected);
}

#[test]
fn reflectance_at_grazing_incidence_is_total() {
    // Schlick's approximation at cosine 0 gives full reflectance for any
    // index; at index 1.5 the fixed-point value is exactly one.
    assert_eq!(Dielectric::reflectance(0, 3 * ONE / 2), ONE);
}

#[test]
fn material_dispatch_matches_variants() {
    let hit = surface_hit(Vec3::new(0, 0, -ONE), Vec3::new(0, 0, ONE), true);
    let ray_in = Ray::new(Vec3::new(0, 0, 0), Vec3::new(0, 0, -ONE));
    let albedo = Col3q::new(ONE / 2, ONE / 2, ONE / 2);
    let m = Material::Lambertian(Lambertian::new(albedo));
    let mut attenuation = Col3q::black();
    let mut scattered = Ray::new(Vec3::new(0, 0, 0), Vec3::new(0, 0, 0));
    let ok = m.scatter_with(ray_in, &hit, Vec3::new(0, 0, ONE), 0, &mut attenuation,
        &mut scattered);
    assert!(ok);
    assert_eq!(attenuation, albedo);
    assert_eq!(scattered.direction, Vec3 { x: 0, y: 0, z: 2 * ONE });
}

#[test]
fn material_scatter_with_random_draws_stays_in_unit_cube() {
    let hit = surface_hit(Vec3::new(0, 0, -ONE), Vec3::new(0, 0, ONE), true);
    let ray_in = Ray::new(Vec3::new(0, 0, 0), Vec3::new(0, 0, -ONE));
    let m = Material::Lambertian(Lambertian::new(Col3q::new(ONE / 2, ONE / 3, ONE / 4)));
    for _ in 0..50 {
        let mut attenuation = Col3q::black();
        let mut scattered = Ray::new(Vec3::new(0, 0, 0), Vec3::new(0, 0, 0));
        let ok = m.scatter(ray_in, &hit, &mut attenuation, &mut scattered);
        assert!(ok);
        assert!(attenuation.r >= 0 && attenuation.r <= ONE);
        assert!(attenuation.g >= 0 && attenuation.g <= ONE);
        assert!(attenuation.b >= 0 && attenuation.b <= ONE);
        assert_eq!(scattered.origin, hit.point);
    }
}
