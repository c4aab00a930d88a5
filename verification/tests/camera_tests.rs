use raytracer::camera::{linear_to_gamma, linear_to_gamma_q, sky_color, Camera};
use raytracer::color::Col3q;
use raytracer::hittable::HittableList;
use raytracer::material::{Lambertian, Material};
use raytracer::scalar::{q_add, q_clamp, q_mul, q_sub, ONE};
use raytracer::sphere::Sphere;
use raytracer::vector::Vec3;

fn small_camera() -> Camera {
    let mut cam = Camera::new(8, 8);
    cam.samples_per_pixel = 1;
    cam.max_depth = 1;
    cam.focus_dist = ONE;
    cam
}

fn single_gray_sphere_scene() -> HittableList {
    let mut scene = HittableList::new();
    let gray = scene.add_material(Material::Lambertian(Lambertian::new(Col3q::new(
        ONE / 2,
        ONE / 2,
        ONE / 2,
    ))));
    scene.add(Sphere::new(Vec3::new(0, 0, -ONE), ONE / 2, gray));
    scene
}

#[test]
fn gamma_endpoints_and_monotonicity() {
    assert_eq!(linear_to_gamma_q(0), 0);
    assert_eq!(linear_to_gamma_q(ONE), ONE);
    assert_eq!(linear_to_gamma_q(ONE / 4), ONE / 2);
    let mut prev: i64 = -1;
    let mut c: i64 = 0;
    while c <= ONE {
        let g = linear_to_gamma_q(c);
        assert!(g >= prev);
        assert!(g >= 0 && g <= ONE);
        prev = g;
        c += 997;
    }
}

#[test]
fn gamma_of_color_applies_per_channel() {
    let c = linear_to_gamma(Col3q::new(0, ONE, ONE / 4));
    assert_eq!(c, Col3q { r: 0, g: ONE, b: ONE / 2 });
}

#[test]
fn from_aspect_ratio_computes_height() {
    let aspect = raytracer::scalar::q_div(16 * ONE, 9 * ONE);
    let cam = Camera::from_aspect_ratio(192, aspect);
    assert_eq!(cam.viewport.width, 192);
    assert_eq!(cam.viewport.height, 108);
}

#[test]
fn from_aspect_ratio_clamps_height_to_one() {
    let cam = Camera::from_aspect_ratio(4, 1000 * ONE);
    assert_eq!(cam.viewport.height, 1);
}

#[test]
fn render_of_empty_scene_is_the_sky_gradient() {
    // With no spheres, every pixel must equal the analytically computed
    // sky-gradient formula at that pixel's centered ray, gamma-corrected.
    let scene = HittableList::new();
    let mut cam = small_camera();
    cam.render_deterministic(&scene);

    let mut reference = small_camera();
    reference.initialize();
    for y in 0..8usize {
        for x in 0..8usize {
            let ray = reference.get_ray_centered(x, y);
            let unit = ray.direction.normalized();
            let a = q_clamp(q_mul(ONE / 2, q_add(unit.y, ONE)), 0, ONE);
            let white = Col3q::white().scaled(q_sub(ONE, a));
            let blue = Col3q { r: ONE / 2, g: 45875, b: ONE }.scaled(a);
            let expected = linear_to_gamma(white.add(blue));
            assert_eq!(*cam.viewport.index_2d(x, y), expected);
            assert_eq!(white.add(blue), sky_color(ray));
        }
    }
}

#[test]
fn render_deterministic_is_bit_identical_across_runs() {
    let scene = single_gray_sphere_scene();
    let mut cam1 = small_camera();
    let mut cam2 = small_camera();
    cam1.render_deterministic(&scene);
    cam2.render_deterministic(&scene);
    assert_eq!(cam1.viewport.width, cam2.viewport.width);
    assert_eq!(cam1.viewport.height, cam2.viewport.height);
    assert_eq!(cam1.viewport.data, cam2.viewport.data);
}

#[test]
fn render_single_sphere_darkens_center_against_sky() {
    // One diffuse sphere dead ahead, depth 1, one centered sample: center
    // pixels terminate at the bounce and come out black, the corners show
    // the sky, and every channel is a valid gamma-corrected value.
    let scene = single_gray_sphere_scene();
    let mut cam = small_camera();
    cam.render_deterministic(&scene);

    let center = *cam.viewport.index_2d(3, 3);
    let corner = *cam.viewport.index_2d(0, 0);
    assert_eq!(center, Col3q { r: 0, g: 0, b: 0 });
    assert_ne!(center, corner);
    for y in 0..8usize {
        for x in 0..8usize {
            let p = *cam.viewport.index_2d(x, y);
            assert!(p.r >= 0 && p.r <= ONE);
            assert!(p.g >= 0 && p.g <= ONE);
            assert!(p.b >= 0 && p.b <= ONE);
        }
    }
}

#[test]
fn render_deeper_bounce_picks_up_albedo() {
    // With depth 2 the center ray bounces once and carries half-gray
    // attenuation times whatever the bounce sees: never brighter than the
    // albedo, and still a valid color.
    let scene = single_gray_sphere_scene();
    let mut cam = small_camera();
    cam.max_depth = 2;
    cam.render_deterministic(&scene);
    let center = *cam.viewport.index_2d(3, 3);
    assert!(center.r <= linear_to_gamma_q(ONE / 2));
    assert!(center.r >= 0);
}

#[test]
fn render_sampled_stays_in_unit_cube() {
    let scene = single_gray_sphere_scene();
    let mut cam = small_camera();
    cam.samples_per_pixel = 4;
    cam.max_depth = 3;
    cam.render(&scene);
    assert_eq!(cam.viewport.width, 8);
    assert_eq!(cam.viewport.height, 8);
    for y in 0..8usize {
        for x in 0..8usize {
            let p = *cam.viewport.index_2d(x, y);
            assert!(p.r >= 0 && p.r <= ONE);
            assert!(p.g >= 0 && p.g <= ONE);
            assert!(p.b >= 0 && p.b <= ONE);
        }
    }
}

#[test]
fn sampled_render_of_empty_scene_keeps_the_sky_blue_channel() {
    // With no spheres every sample is a sky color, whose blue channel is
    // exactly one; averaging over a power-of-two sample count (where the
    // reciprocal is exact) and gamma keep it there for every jitter.
    let scene = HittableList::new();
    let mut cam = small_camera();
    cam.samples_per_pixel = 4;
    cam.render(&scene);
    for y in 0..8usize {
        for x in 0..8usize {
            let p = *cam.viewport.index_2d(x, y);
            assert_eq!(p.b, ONE);
            assert!(p.r > 0 && p.g > 0);
        }
    }
}

#[test]
fn render_row_matches_full_render() {
    let scene = single_gray_sphere_scene();
    let mut cam = small_camera();
    cam.render_deterministic(&scene);
    let mut reference = small_camera();
    reference.initialize();
    let row = reference.render_row(&scene, 2);
    assert_eq!(row.len(), 8);
    for x in 0..8usize {
        assert_eq!(row[x], *cam.viewport.index_2d(x, 2));
    }
}

#[test]
fn initialize_derives_view_basis() {
    // Looking down -z with +y up: the right-handed basis comes out as the
    // world axes, and the viewport spans 2 * tan(fov/2) * focus_dist units.
    let mut cam = Camera::new(4, 4);
    cam.focus_dist = ONE;
    cam.initialize();
    assert_eq!(cam.w, Vec3 { x: 0, y: 0, z: ONE });
    assert_eq!(cam.u, Vec3 { x: ONE, y: 0, z: 0 });
    assert_eq!(cam.v, Vec3 { x: 0, y: ONE, z: 0 });
    assert_eq!(cam.viewport_width, 2 * ONE);
    assert_eq!(cam.viewport_height, 2 * ONE);
    assert_eq!(cam.position, cam.look_from);
}

#[test]
fn centered_ray_points_through_pixel_grid() {
    let mut cam = Camera::new(2, 2);
    cam.focus_dist = ONE;
    cam.initialize();
    // Pixel deltas each cover half the 2-unit viewport.
    assert_eq!(cam.pixel_delta_u, Vec3 { x: ONE, y: 0, z: 0 });
    assert_eq!(cam.pixel_delta_v, Vec3 { x: 0, y: -ONE, z: 0 });
    let r = cam.get_ray_centered(0, 0);
    assert_eq!(r.origin, Vec3 { x: 0, y: 0, z: 0 });
    assert_eq!(r.direction, Vec3 { x: -ONE / 2, y: ONE / 2, z: -ONE });
}
