use raytracer::random::{
    random_in_unit_disk, random_on_hemisphere, random_unit_interval, random_unit_vector,
    random_vector_in_unit_sphere, sample_square,
};
use raytracer::scalar::ONE;
use raytracer::vector::Vec3;

#[test]
fn unit_interval_draws_stay_in_range() {
    for _ in 0..200 {
        let r = random_unit_interval();
        assert!(r >= 0 && r < ONE);
    }
}

#[test]
fn unit_sphere_draws_are_strictly_inside_the_ball() {
    for _ in 0..100 {
        let v = random_vector_in_unit_sphere();
        let ls = v.length_squared();
        assert!(ls >= ONE / 4 && ls < ONE);
    }
}

#[test]
fn unit_vector_draws_have_unit_length_up_to_rounding() {
    for _ in 0..100 {
        let v = random_unit_vector();
        let ls = v.length_squared();
        assert!(ls >= ONE - 64 && ls <= ONE + 64);
    }
}

#[test]
fn hemisphere_draws_agree_with_the_normal() {
    let normal = Vec3::new(0, 0, ONE);
    for _ in 0..100 {
        let v = random_on_hemisphere(normal);
        assert!(v.dot(normal) >= 0);
    }
}

#[test]
fn disk_draws_lie_in_the_plane() {
    for _ in 0..100 {
        let v = random_in_unit_disk();
        assert_eq!(v.z, 0);
        assert!(v.length_squared() < ONE);
    }
}

#[test]
fn square_samples_jitter_within_half_a_pixel() {
    for _ in 0..100 {
        let v = sample_square();
        assert!(v.x >= -ONE / 2 && v.x < ONE / 2);
        assert!(v.y >= -ONE / 2 && v.y < ONE / 2);
        assert_eq!(v.z, 0);
    }
}
