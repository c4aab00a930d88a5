//! The camera and the path-tracing integrator: view-basis derivation, ray
//! generation with sub-pixel jitter and defocus-disk sampling, the recursive
//! depth-bounded color estimate with a sky-gradient miss color, gamma
//! correction, and the per-pixel render loops.
//!
//! Angles enter as precomputed tangents (`tan_half_fov`, `tan_half_defocus`):
//! turning degrees into a tangent is trigonometry at the configuration edge,
//! outside the fixed-point model.

use vstd::prelude::*;
use crate::scalar::{
    q_ok, q_add_spec, q_sub_spec, q_mul_spec, q_div_spec, q_sqrt_spec, q_clamp_spec,
    q_add, q_sub, q_mul, q_div, q_sqrt, q_clamp, ONE, Q_MAX,
    lemma_q_mul_one, lemma_q_sqrt_one, lemma_q_sqrt_monotone, lemma_q_sqrt_nonneg,
    lemma_tdiv_monotone,
};
use crate::vector::Vec3;
use crate::color::Col3q;
use crate::ray::Ray;
use crate::interval::Interval;
use crate::hittable::{HitRecord, HittableList, scene_fold_spec};
use crate::sphere::Sphere;
use crate::material::Material;
use crate::image::Image;
use crate::random::{sample_square, random_in_unit_disk};

verus! {

/// The shadow-acne epsilon: the lower bound of every scene query interval,
/// one least-significant fixed-point step above zero, applied uniformly.
pub const SHADOW_ACNE_EPS: i64 = 1;

/// Gamma correction of one linear channel: the square-root approximation of
/// the display gamma curve.
pub fn linear_to_gamma_q(linear_component: i64) -> (r: i64)
    requires
        q_ok(linear_component as int),
    ensures
        r as int == q_sqrt_spec(linear_component as int),
        0 <= r <= Q_MAX,
{
    q_sqrt(linear_component)
}

/// Gamma correction applied to each channel of a linear color.
pub open spec fn linear_to_gamma_spec(c: Col3q) -> Col3q {
    Col3q {
        r: q_sqrt_spec(c.r as int) as i64,
        g: q_sqrt_spec(c.g as int) as i64,
        b: q_sqrt_spec(c.b as int) as i64,
    }
}

pub fn linear_to_gamma(linear_color: Col3q) -> (c: Col3q)
    requires
        linear_color.wf(),
    ensures
        c == linear_to_gamma_spec(linear_color),
        c.wf(),
{
    proof {
        lemma_q_sqrt_nonneg(linear_color.r as int);
        lemma_q_sqrt_nonneg(linear_color.g as int);
        lemma_q_sqrt_nonneg(linear_color.b as int);
    }
    Col3q {
        r: linear_to_gamma_q(linear_color.r),
        g: linear_to_gamma_q(linear_color.g),
        b: linear_to_gamma_q(linear_color.b),
    }
}

/// Gamma fixes the endpoints of the unit interval: 0 maps to 0 and 1 maps
/// to 1.
pub proof fn lemma_gamma_endpoints()
    ensures
        q_sqrt_spec(0) == 0,
        q_sqrt_spec(ONE as int) == ONE,
{
    lemma_q_sqrt_one();
}

/// Gamma is monotone: a brighter linear channel never maps to a darker
/// encoded channel.
pub proof fn lemma_gamma_monotone(a: int, b: int)
    requires
        a <= b,
    ensures
        q_sqrt_spec(a) <= q_sqrt_spec(b),
{
    lemma_q_sqrt_monotone(a, b);
}

/// Gamma keeps the unit interval.
pub proof fn lemma_gamma_unit(c: int)
    requires
        0 <= c <= ONE,
    ensures
        0 <= q_sqrt_spec(c) <= ONE,
{
    lemma_q_sqrt_nonneg(c);
    lemma_q_sqrt_monotone(c, ONE as int);
    lemma_q_sqrt_one();
}

/// A product of unit-interval scalars stays below either factor.
pub proof fn lemma_unit_product(c: int, a: int)
    requires
        0 <= c <= ONE,
        0 <= a <= ONE,
    ensures
        0 <= q_mul_spec(c, a) <= a,
        q_mul_spec(c, a) <= c,
{
    assert(c * a <= (ONE as int) * a && c * a <= c * (ONE as int) && 0 <= c * a)
        by (nonlinear_arith)
        requires
            0 <= c <= ONE,
            0 <= a <= ONE,
    ;
    lemma_q_mul_one(a);
    lemma_q_mul_one(c);
    lemma_tdiv_monotone(c * a, (ONE as int) * a, ONE as int);
    lemma_tdiv_monotone(c * a, c * (ONE as int), ONE as int);
    vstd::arithmetic::div_mod::lemma_div_pos_is_pos(c * a, ONE as int);
    assert((ONE as int) * a == a * (ONE as int)) by (nonlinear_arith);
}

/// The sky gradient for a missed ray: a vertical blend from white at the
/// horizon to sky blue at the zenith, with the blend weight clamped into the
/// unit interval as the guard against degenerate directions.
pub open spec fn sky_color_spec(ray: Ray) -> Col3q {
    let unit_direction = ray.direction.normalized_spec();
    let a = q_clamp_spec(
        q_mul_spec((ONE as int) / 2, q_add_spec(unit_direction.y as int, ONE as int)),
        0,
        ONE as int,
    );
    Col3q { r: ONE, g: ONE, b: ONE }.scaled_spec(q_sub_spec(ONE as int, a)).add_spec(
        (Col3q { r: 32768i64, g: 45875i64, b: ONE }).scaled_spec(a),
    )
}

/// The sky gradient lies in the unit color cube.
pub proof fn lemma_sky_in_unit(ray: Ray)
    ensures
        sky_color_spec(ray).in_unit(),
{
    let unit_direction = ray.direction.normalized_spec();
    let a = q_clamp_spec(
        q_mul_spec((ONE as int) / 2, q_add_spec(unit_direction.y as int, ONE as int)),
        0,
        ONE as int,
    );
    assert(0 <= a <= ONE);
    let w = q_sub_spec(ONE as int, a);
    assert(0 <= w <= ONE);
    lemma_q_mul_one(w);
    lemma_unit_product((ONE as int) / 2, a);
    lemma_unit_product(45875, a);
    lemma_unit_product(ONE as int, a);
}

pub fn sky_color(ray: Ray) -> (c: Col3q)
    requires
        ray.wf(),
    ensures
        c == sky_color_spec(ray),
        c.in_unit(),
        c.wf(),
{
    let unit_direction: Vec3 = ray.direction.normalized();
    let a: i64 = q_clamp(q_mul(ONE / 2, q_add(unit_direction.y, ONE)), 0, ONE);
    let blend: Col3q = Col3q::white().scaled(q_sub(ONE, a)).add(
        Col3q { r: ONE / 2, g: 45875, b: ONE }.scaled(a),
    );
    proof {
        lemma_sky_in_unit(ray);
    }
    blend
}

/// The camera: user-set view configuration, the derived view basis and
/// pixel grid, and the output image.
pub struct Camera {
    pub viewport: Image,
    pub aspect_ratio: i64,
    pub position: Vec3,
    pub up: Vec3,
    pub samples_per_pixel: usize,
    pub max_depth: usize,
    pub tan_half_fov: i64,
    pub look_from: Vec3,
    pub look_at: Vec3,
    pub tan_half_defocus: i64,
    pub focus_dist: i64,
    pub viewport_width: i64,
    pub viewport_height: i64,
    pub pixel00_top_left: Vec3,
    pub pixel00_center: Vec3,
    pub pixel_delta_u: Vec3,
    pub pixel_delta_v: Vec3,
    pub u: Vec3,
    pub v: Vec3,
    pub w: Vec3,
    pub defocus_disk_u: Vec3,
    pub defocus_disk_v: Vec3,
}

/// The image height a width and aspect ratio determine: the width divided
/// by the ratio, and at least one pixel.
pub open spec fn aspect_height_spec(image_width: int, aspect_ratio: int) -> int {
    let hq = q_div_spec(image_width * (ONE as int), aspect_ratio);
    if hq < ONE {
        1
    } else {
        hq / (ONE as int)
    }
}

impl Camera {
    /// A camera over a fresh white image with the default configuration:
    /// 10 samples per pixel, recursion depth 10, a 90-degree field of view
    /// (tangent 1), no defocus, focus distance 10, looking down the
    /// negative z axis.
    pub fn new(image_width: usize, image_height: usize) -> (cam: Camera)
        requires
            image_width * image_height <= usize::MAX,
            image_width <= 0x4000_0000,
            image_height <= 0x4000_0000,
        ensures
            cam.config_wf(),
            cam.derived_wf(),
            cam.viewport.width == image_width,
            cam.viewport.height == image_height,
            cam.aspect_ratio as int == q_div_spec(
                (image_width as int) * (ONE as int),
                (image_height as int) * (ONE as int),
            ),
            cam.samples_per_pixel == 10,
            cam.max_depth == 10,
            cam.tan_half_fov == ONE,
            cam.tan_half_defocus == 0,
            cam.focus_dist == 10 * ONE,
            cam.position == (Vec3 { x: 0i64, y: 0i64, z: 0i64 }),
            cam.up == (Vec3 { x: 0i64, y: ONE, z: 0i64 }),
            cam.look_from == (Vec3 { x: 0i64, y: 0i64, z: 0i64 }),
            cam.look_at == (Vec3 { x: 0i64, y: 0i64, z: (-65536) as i64 }),
    {
        Camera {
            viewport: Image::with_dimensions(image_width, image_height),
            aspect_ratio: q_div((image_width as i64) * ONE, (image_height as i64) * ONE),
            position: Vec3::new(0, 0, 0),
            up: Vec3::new(0, ONE, 0),
            samples_per_pixel: 10,
            max_depth: 10,
            tan_half_fov: ONE,
            look_from: Vec3::new(0, 0, 0),
            look_at: Vec3::new(0, 0, -ONE),
            tan_half_defocus: 0,
            focus_dist: 10 * ONE,
            viewport_width: ONE,
            viewport_height: ONE,
            pixel00_top_left: Vec3::new(0, 0, 0),
            pixel00_center: Vec3::new(0, 0, 0),
            pixel_delta_u: Vec3::new(0, 0, 0),
            pixel_delta_v: Vec3::new(0, 0, 0),
            u: Vec3::new(0, 0, 0),
            v: Vec3::new(0, 0, 0),
            w: Vec3::new(0, 0, 0),
            defocus_disk_u: Vec3::new(0, 0, 0),
            defocus_disk_v: Vec3::new(0, 0, 0),
        }
    }

    /// A camera whose image height follows from a width and an aspect
    /// ratio, clamped to at least one pixel; otherwise the same defaults as
    /// `new`.
    pub fn from_aspect_ratio(image_width: usize, aspect_ratio: i64) -> (cam: Camera)
        requires
            image_width <= 0x4000_0000,
            q_ok(aspect_ratio as int),
            (image_width as int) * aspect_height_spec(image_width as int, aspect_ratio as int)
                <= usize::MAX,
        ensures
            cam.config_wf(),
            cam.derived_wf(),
            cam.viewport.width == image_width,
            cam.viewport.height as int == aspect_height_spec(
                image_width as int,
                aspect_ratio as int,
            ),
            cam.aspect_ratio == aspect_ratio,
            cam.samples_per_pixel == 10,
            cam.max_depth == 10,
            cam.tan_half_fov == ONE,
            cam.tan_half_defocus == 0,
            cam.focus_dist == 10 * ONE,
            cam.position == (Vec3 { x: 0i64, y: 0i64, z: 0i64 }),
            cam.up == (Vec3 { x: 0i64, y: ONE, z: 0i64 }),
            cam.look_from == (Vec3 { x: 0i64, y: 0i64, z: 0i64 }),
            cam.look_at == (Vec3 { x: 0i64, y: 0i64, z: (-65536) as i64 }),
    {
        let hq: i64 = q_div((image_width as i64) * ONE, aspect_ratio);
        let image_height: usize = if hq < ONE {
            1
        } else {
            (hq / ONE) as usize
        };
        Camera {
            viewport: Image::with_dimensions(image_width, image_height),
            aspect_ratio,
            position: Vec3::new(0, 0, 0),
            up: Vec3::new(0, ONE, 0),
            samples_per_pixel: 10,
            max_depth: 10,
            tan_half_fov: ONE,
            look_from: Vec3::new(0, 0, 0),
            look_at: Vec3::new(0, 0, -ONE),
            tan_half_defocus: 0,
            focus_dist: 10 * ONE,
            viewport_width: ONE,
            viewport_height: ONE,
            pixel00_top_left: Vec3::new(0, 0, 0),
            pixel00_center: Vec3::new(0, 0, 0),
            pixel_delta_u: Vec3::new(0, 0, 0),
            pixel_delta_v: Vec3::new(0, 0, 0),
            u: Vec3::new(0, 0, 0),
            v: Vec3::new(0, 0, 0),
            w: Vec3::new(0, 0, 0),
            defocus_disk_u: Vec3::new(0, 0, 0),
            defocus_disk_v: Vec3::new(0, 0, 0),
        }
    }

    /// The user-set configuration is in range: vectors in the scalar range,
    /// scalars in range, and image dimensions small enough that pixel
    /// coordinates fit the scalar range.
    pub open spec fn config_wf(self) -> bool {
        &&& self.position.wf() && self.up.wf() && self.look_from.wf() && self.look_at.wf()
        &&& q_ok(self.aspect_ratio as int) && q_ok(self.tan_half_fov as int)
        &&& q_ok(self.tan_half_defocus as int) && q_ok(self.focus_dist as int)
        &&& self.viewport.wf()
        &&& self.viewport.width <= 0x4000_0000 && self.viewport.height <= 0x4000_0000
    }

    /// The derived view-basis fields are in range.
    pub open spec fn derived_wf(self) -> bool {
        &&& self.pixel00_top_left.wf() && self.pixel00_center.wf()
        &&& self.pixel_delta_u.wf() && self.pixel_delta_v.wf()
        &&& self.u.wf() && self.v.wf() && self.w.wf()
        &&& self.defocus_disk_u.wf() && self.defocus_disk_v.wf()
        &&& q_ok(self.viewport_width as int) && q_ok(self.viewport_height as int)
    }

    /// What initialization derives from the user-set configuration: the
    /// orthonormal view basis, the viewport extent from the field-of-view
    /// tangent and focus distance, the pixel grid, and the defocus disk.
    pub open spec fn derived_spec(self) -> Camera {
        let position = self.look_from;
        let viewport_width = q_mul_spec(
            q_mul_spec(2 * ONE, self.tan_half_fov as int),
            self.focus_dist as int,
        );
        let viewport_height = q_div_spec(viewport_width, self.aspect_ratio as int);
        let w = self.look_from.sub_spec(self.look_at).normalized_spec();
        let u = self.up.cross_spec(w).normalized_spec();
        let v = w.cross_spec(u);
        let viewport_u = u.scaled_spec(viewport_width);
        let viewport_v = v.neg_spec().scaled_spec(viewport_height);
        let pixel_delta_u = viewport_u.scaled_spec(
            q_div_spec(ONE as int, (self.viewport.width as int) * (ONE as int)),
        );
        let pixel_delta_v = viewport_v.scaled_spec(
            q_div_spec(ONE as int, (self.viewport.height as int) * (ONE as int)),
        );
        let pixel00_top_left = position.sub_spec(w.scaled_spec(self.focus_dist as int)).sub_spec(
            viewport_u.divided_spec(2 * ONE),
        ).sub_spec(viewport_v.divided_spec(2 * ONE));
        let pixel00_center = pixel00_top_left.add_spec(
            pixel_delta_u.add_spec(pixel_delta_v).scaled_spec((ONE as int) / 2),
        );
        let defocus_radius = q_mul_spec(self.focus_dist as int, self.tan_half_defocus as int);
        let defocus_disk_u = u.scaled_spec(defocus_radius);
        let defocus_disk_v = v.scaled_spec(defocus_radius);
        Camera {
            position,
            viewport_width: viewport_width as i64,
            viewport_height: viewport_height as i64,
            pixel00_top_left,
            pixel00_center,
            pixel_delta_u,
            pixel_delta_v,
            u,
            v,
            w,
            defocus_disk_u,
            defocus_disk_v,
            ..self
        }
    }

    /// Derive the view basis and pixel grid from the user-set parameters.
    /// Must run before rays are generated; the render entry points call it
    /// first.
    pub fn initialize(&mut self)
        requires
            old(self).config_wf(),
        ensures
            *final(self) == old(self).derived_spec(),
            final(self).config_wf(),
            final(self).derived_wf(),
    {
        self.position = self.look_from;
        self.viewport_width = q_mul(q_mul(2 * ONE, self.tan_half_fov), self.focus_dist);
        self.viewport_height = q_div(self.viewport_width, self.aspect_ratio);
        self.w = self.look_from.sub(self.look_at).normalized();
        self.u = self.up.cross(self.w).normalized();
        self.v = self.w.cross(self.u);
        let viewport_u: Vec3 = self.u.scaled(self.viewport_width);
        let viewport_v: Vec3 = self.v.neg().scaled(self.viewport_height);
        self.pixel_delta_u = viewport_u.scaled(q_div(ONE, (self.viewport.width as i64) * ONE));
        self.pixel_delta_v = viewport_v.scaled(q_div(ONE, (self.viewport.height as i64) * ONE));
        self.pixel00_top_left = self.position.sub(self.w.scaled(self.focus_dist)).sub(
            viewport_u.divided(2 * ONE),
        ).sub(viewport_v.divided(2 * ONE));
        self.pixel00_center = self.pixel00_top_left.add(
            self.pixel_delta_u.add(self.pixel_delta_v).scaled(ONE / 2),
        );
        let defocus_radius: i64 = q_mul(self.focus_dist, self.tan_half_defocus);
        self.defocus_disk_u = self.u.scaled(defocus_radius);
        self.defocus_disk_v = self.v.scaled(defocus_radius);
    }

    /// The ray through the exact center of pixel `(i, j)`, from the exact
    /// camera position: the deterministic sampling mode.
    pub open spec fn get_ray_centered_spec(self, i: int, j: int) -> Ray {
        let pixel_sample = self.pixel00_center.add_spec(
            self.pixel_delta_u.scaled_spec(i * (ONE as int)),
        ).add_spec(self.pixel_delta_v.scaled_spec(j * (ONE as int)));
        Ray { origin: self.position, direction: pixel_sample.sub_spec(self.position) }
    }

    pub fn get_ray_centered(&self, i: usize, j: usize) -> (r: Ray)
        requires
            self.derived_wf(),
            self.position.wf(),
            i <= 0x4000_0000,
            j <= 0x4000_0000,
        ensures
            r == self.get_ray_centered_spec(i as int, j as int),
            r.wf(),
    {
        let pixel_sample: Vec3 = self.pixel00_center.add(
            self.pixel_delta_u.scaled((i as i64) * ONE),
        ).add(self.pixel_delta_v.scaled((j as i64) * ONE));
        Ray { origin: self.position, direction: pixel_sample.sub(self.position) }
    }

    /// The point on the defocus disk picked by a unit-disk sample.
    pub open spec fn defocus_disk_sample_spec(self, disk: Vec3) -> Vec3 {
        self.position.add_spec(self.defocus_disk_u.scaled_spec(disk.x as int)).add_spec(
            self.defocus_disk_v.scaled_spec(disk.y as int),
        )
    }

    pub fn defocus_disk_sample(&self, disk: Vec3) -> (p: Vec3)
        requires
            self.derived_wf(),
            self.position.wf(),
            disk.wf(),
        ensures
            p == self.defocus_disk_sample_spec(disk),
            p.wf(),
    {
        self.position.add(self.defocus_disk_u.scaled(disk.x)).add(
            self.defocus_disk_v.scaled(disk.y),
        )
    }

    /// The ray for pixel `(i, j)` given a sub-pixel jitter offset and a
    /// defocus-disk sample; the disk sample matters only when the defocus
    /// angle is positive.
    pub open spec fn get_ray_sampled_spec(self, i: int, j: int, offset: Vec3, disk: Vec3) -> Ray {
        let pixel_sample = self.pixel00_center.add_spec(
            self.pixel_delta_u.scaled_spec(q_add_spec(i * (ONE as int), offset.x as int)),
        ).add_spec(
            self.pixel_delta_v.scaled_spec(q_add_spec(j * (ONE as int), offset.y as int)),
        );
        let origin = if self.tan_half_defocus <= 0 {
            self.position
        } else {
            self.defocus_disk_sample_spec(disk)
        };
        Ray { origin, direction: pixel_sample.sub_spec(origin) }
    }

    pub fn get_ray_sampled(&self, i: usize, j: usize, offset: Vec3, disk: Vec3) -> (r: Ray)
        requires
            self.derived_wf(),
            self.position.wf(),
            offset.wf(),
            disk.wf(),
            i <= 0x4000_0000,
            j <= 0x4000_0000,
        ensures
            r == self.get_ray_sampled_spec(i as int, j as int, offset, disk),
            r.wf(),
    {
        let pixel_sample: Vec3 = self.pixel00_center.add(
            self.pixel_delta_u.scaled(q_add((i as i64) * ONE, offset.x)),
        ).add(self.pixel_delta_v.scaled(q_add((j as i64) * ONE, offset.y)));
        let ray_origin: Vec3 = if self.tan_half_defocus <= 0 {
            self.position
        } else {
            self.defocus_disk_sample(disk)
        };
        Ray { origin: ray_origin, direction: pixel_sample.sub(ray_origin) }
    }

    /// A jittered ray for pixel `(i, j)`: whatever the draws come back as,
    /// the ray matches the sampled-ray model on an in-range jitter and disk
    /// sample.
    pub fn get_ray(&self, i: usize, j: usize) -> (r: Ray)
        requires
            self.derived_wf(),
            self.position.wf(),
            i <= 0x4000_0000,
            j <= 0x4000_0000,
        ensures
            exists|offset: Vec3, disk: Vec3|
                ray_sample_matches(*self, i as int, j as int, offset, disk, r),
            r.wf(),
    {
        let offset: Vec3 = sample_square();
        let disk: Vec3 = random_in_unit_disk();
        let r: Ray = self.get_ray_sampled(i, j, offset, disk);
        proof {
            assert(ray_sample_matches(*self, i as int, j as int, offset, disk, r));
        }
        r
    }
}

/// The recursive color estimate of the deterministic sampling mode: black
/// once the depth budget is spent; on a hit, the scatter model evaluated at
/// the zero sample with attenuation applied multiplicatively; on a miss,
/// the sky gradient.
pub open spec fn ray_color_spec(
    spheres: Seq<Sphere>,
    materials: Seq<Material>,
    ray: Ray,
    depth: nat,
) -> Col3q
    decreases depth,
{
    if depth == 0 {
        Col3q { r: 0i64, g: 0i64, b: 0i64 }
    } else {
        let iv = Interval { lower_bound: SHADOW_ACNE_EPS, upper_bound: Q_MAX };
        let folded = scene_fold_spec(spheres, ray, iv, HitRecord::new_spec());
        if folded.2 {
            match folded.1.mat {
                Some(mi) => if mi < materials.len() {
                    let sr = materials[mi as int].scatter_spec(
                        ray,
                        folded.1,
                        Vec3 { x: 0i64, y: 0i64, z: 0i64 },
                        0,
                    );
                    if sr.2 {
                        ray_color_spec(spheres, materials, sr.1, (depth - 1) as nat).attenuated_spec(
                            sr.0,
                        )
                    } else {
                        Col3q { r: 0i64, g: 0i64, b: 0i64 }
                    }
                } else {
                    Col3q { r: 0i64, g: 0i64, b: 0i64 }
                },
                None => Col3q { r: 0i64, g: 0i64, b: 0i64 },
            }
        } else {
            sky_color_spec(ray)
        }
    }
}

/// One level of the sampled color estimate, for given scatter draws and a
/// given continuation color: the result is pinned on the deterministic
/// paths (spent depth budget is black, a miss is the sky gradient,
/// absorption and an invalid material are black), and on a scatter it is
/// the continuation color filtered by the scatter attenuation.
pub open spec fn ray_color_step_matches(
    spheres: Seq<Sphere>,
    materials: Seq<Material>,
    ray: Ray,
    depth: nat,
    u: Vec3,
    rnd: int,
    rest: Col3q,
    c: Col3q,
) -> bool {
    &&& crate::random::unit_draw_ok(u)
    &&& 0 <= rnd < ONE
    &&& rest.in_unit()
    &&& if depth == 0 {
        c == (Col3q { r: 0i64, g: 0i64, b: 0i64 })
    } else {
        let iv = Interval { lower_bound: SHADOW_ACNE_EPS, upper_bound: Q_MAX };
        let folded = scene_fold_spec(spheres, ray, iv, HitRecord::new_spec());
        if folded.2 {
            match folded.1.mat {
                Some(mi) => if mi < materials.len() {
                    let sr = materials[mi as int].scatter_spec(ray, folded.1, u, rnd);
                    if sr.2 {
                        c == rest.attenuated_spec(sr.0)
                    } else {
                        c == (Col3q { r: 0i64, g: 0i64, b: 0i64 })
                    }
                } else {
                    c == (Col3q { r: 0i64, g: 0i64, b: 0i64 })
                },
                None => c == (Col3q { r: 0i64, g: 0i64, b: 0i64 }),
            }
        } else {
            c == sky_color_spec(ray)
        }
    }
}

/// The sampled color estimate matches the model for some in-range draws
/// and some unit-cube continuation color.
pub open spec fn ray_color_outcome_matches(
    spheres: Seq<Sphere>,
    materials: Seq<Material>,
    ray: Ray,
    depth: nat,
    c: Col3q,
) -> bool {
    exists|u: Vec3, rnd: int, rest: Col3q|
        #[trigger] ray_color_step_matches(spheres, materials, ray, depth, u, rnd, rest, c)
}

impl Camera {
    /// The depth-bounded color estimate in the deterministic sampling mode:
    /// scattering is evaluated at the zero sample instead of a random draw,
    /// so the result is exactly the model color.
    pub fn ray_color_deterministic(&self, ray: Ray, scene_objects: &HittableList, depth: usize) -> (c:
        Col3q)
        requires
            scene_objects.wf(),
            ray.wf(),
        ensures
            c == ray_color_spec(scene_objects.hittables@, scene_objects.materials@, ray,
                depth as nat),
            c.wf(),
        decreases depth,
    {
        if depth == 0 {
            return Col3q::black();
        }
        let mut hit_record: HitRecord = HitRecord::new();
        let mut interval: Interval = Interval::new(SHADOW_ACNE_EPS, Q_MAX);
        if scene_objects.first_hit_on_interval(ray, &mut interval, &mut hit_record) {
            proof {
                crate::hittable::lemma_scene_fold_record(
                    scene_objects.hittables@,
                    ray,
                    Interval { lower_bound: SHADOW_ACNE_EPS, upper_bound: Q_MAX },
                    HitRecord::new_spec(),
                    scene_objects.materials@.len() as int,
                );
            }
            match hit_record.mat {
                Some(mi) => {
                    if mi < scene_objects.materials.len() {
                        let m: Material = scene_objects.material_at(mi);
                        let mut attenuation: Col3q = Col3q::black();
                        let mut scattered: Ray = Ray::new(Vec3::new(0, 0, 0), Vec3::new(0, 0, 0));
                        if m.scatter_with(ray, &hit_record, Vec3::new(0, 0, 0), 0,
                            &mut attenuation, &mut scattered) {
                            let rc: Col3q = self.ray_color_deterministic(scattered, scene_objects,
                                depth - 1);
                            rc.attenuated(attenuation)
                        } else {
                            Col3q::black()
                        }
                    } else {
                        Col3q::black()
                    }
                },
                None => Col3q::black(),
            }
        } else {
            sky_color(ray)
        }
    }

    /// The depth-bounded color estimate with random scattering: a spent
    /// depth budget gives black and a miss gives the sky gradient
    /// regardless of the draws; on a hit the result matches the scatter
    /// model for whatever draws came back, and in every case it is a color
    /// in the unit cube.
    pub fn ray_color(&self, ray: Ray, scene_objects: &HittableList, depth: usize) -> (c: Col3q)
        requires
            scene_objects.wf(),
            ray.wf(),
        ensures
            c.in_unit(),
            c.wf(),
            depth == 0 ==> c == (Col3q { r: 0i64, g: 0i64, b: 0i64 }),
            depth > 0 && !scene_fold_spec(
                scene_objects.hittables@,
                ray,
                Interval { lower_bound: SHADOW_ACNE_EPS, upper_bound: Q_MAX },
                HitRecord::new_spec(),
            ).2 ==> c == sky_color_spec(ray),
            ray_color_outcome_matches(scene_objects.hittables@, scene_objects.materials@, ray,
                depth as nat, c),
        decreases depth,
    {
        let ghost zero_draw = Vec3 { x: 0i64, y: ONE, z: 0i64 };
        proof {
            assert((zero_draw.y as int) * (zero_draw.y as int) == 0x1_0000_0000 && (
            zero_draw.x as int) * (zero_draw.x as int) == 0 && (zero_draw.z as int) * (
            zero_draw.z as int) == 0) by (nonlinear_arith)
                requires
                    zero_draw.x as int == 0,
                    zero_draw.y as int == 65536,
                    zero_draw.z as int == 0,
            ;
            assert(crate::random::unit_draw_ok(zero_draw));
        }
        if depth == 0 {
            let out: Col3q = Col3q::black();
            proof {
                assert(ray_color_step_matches(scene_objects.hittables@, scene_objects.materials@,
                    ray, depth as nat, zero_draw, 0, out, out));
            }
            return out;
        }
        let mut hit_record: HitRecord = HitRecord::new();
        let mut interval: Interval = Interval::new(SHADOW_ACNE_EPS, Q_MAX);
        if scene_objects.first_hit_on_interval(ray, &mut interval, &mut hit_record) {
            proof {
                crate::hittable::lemma_scene_fold_record(
                    scene_objects.hittables@,
                    ray,
                    Interval { lower_bound: SHADOW_ACNE_EPS, upper_bound: Q_MAX },
                    HitRecord::new_spec(),
                    scene_objects.materials@.len() as int,
                );
            }
            match hit_record.mat {
                Some(mi) => {
                    if mi < scene_objects.materials.len() {
                        let m: Material = scene_objects.material_at(mi);
                        let mut attenuation: Col3q = Col3q::black();
                        let mut scattered: Ray = Ray::new(Vec3::new(0, 0, 0), Vec3::new(0, 0, 0));
                        if m.scatter(ray, &hit_record, &mut attenuation, &mut scattered) {
                            let rc: Col3q = self.ray_color(scattered, scene_objects, depth - 1);
                            let out: Col3q = rc.attenuated(attenuation);
                            proof {
                                lemma_unit_product(rc.r as int, attenuation.r as int);
                                lemma_unit_product(rc.g as int, attenuation.g as int);
                                lemma_unit_product(rc.b as int, attenuation.b as int);
                                let (u, rnd) = choose|u: Vec3, rnd: int|
                                    crate::material::scatter_rand_matches(m, ray, hit_record, u,
                                    rnd, attenuation, scattered, true);
                                assert(ray_color_step_matches(scene_objects.hittables@,
                                    scene_objects.materials@, ray, depth as nat, u, rnd, rc,
                                    out));
                            }
                            out
                        } else {
                            let out: Col3q = Col3q::black();
                            proof {
                                let (u, rnd) = choose|u: Vec3, rnd: int|
                                    crate::material::scatter_rand_matches(m, ray, hit_record, u,
                                    rnd, attenuation, scattered, false);
                                assert(ray_color_step_matches(scene_objects.hittables@,
                                    scene_objects.materials@, ray, depth as nat, u, rnd, out,
                                    out));
                            }
                            out
                        }
                    } else {
                        let out: Col3q = Col3q::black();
                        proof {
                            assert(ray_color_step_matches(scene_objects.hittables@,
                                scene_objects.materials@, ray, depth as nat, zero_draw, 0, out,
                                out));
                        }
                        out
                    }
                },
                None => {
                    let out: Col3q = Col3q::black();
                    proof {
                        assert(ray_color_step_matches(scene_objects.hittables@,
                            scene_objects.materials@, ray, depth as nat, zero_draw, 0, out, out));
                    }
                    out
                },
            }
        } else {
            let out: Col3q = sky_color(ray);
            proof {
                assert(ray_color_step_matches(scene_objects.hittables@, scene_objects.materials@,
                    ray, depth as nat, zero_draw, 0, out, out));
            }
            out
        }
    }

    /// One gamma-corrected pixel of the deterministic sampling mode.
    pub open spec fn pixel_spec(
        self,
        spheres: Seq<Sphere>,
        materials: Seq<Material>,
        x: int,
        y: int,
    ) -> Col3q {
        linear_to_gamma_spec(
            ray_color_spec(spheres, materials, self.get_ray_centered_spec(x, y),
                self.max_depth as nat),
        )
    }

    /// One row of pixels in the deterministic sampling mode.  The camera
    /// must already be initialized.
    pub fn render_row(&self, scene_objects: &HittableList, j: usize) -> (row: Vec<Col3q>)
        requires
            self.derived_wf(),
            self.position.wf(),
            self.viewport.width <= 0x4000_0000,
            j <= 0x4000_0000,
            scene_objects.wf(),
        ensures
            row@.len() == self.viewport.width,
            forall|x: int|
                0 <= x < self.viewport.width ==> row@[x] == #[trigger] self.pixel_spec(
                    scene_objects.hittables@,
                    scene_objects.materials@,
                    x,
                    j as int,
                ),
    {
        let w: usize = self.viewport.width;
        let mut row: Vec<Col3q> = Vec::new();
        let mut x: usize = 0;
        while x < w
            invariant
                x <= w,
                w == self.viewport.width,
                w <= 0x4000_0000,
                j <= 0x4000_0000,
                self.derived_wf(),
                self.position.wf(),
                scene_objects.wf(),
                row@.len() == x,
                forall|x1: int|
                    0 <= x1 < x ==> row@[x1] == #[trigger] self.pixel_spec(
                        scene_objects.hittables@,
                        scene_objects.materials@,
                        x1,
                        j as int,
                    ),
            decreases w - x,
        {
            let ray: Ray = self.get_ray_centered(x, j);
            let c: Col3q = self.ray_color_deterministic(ray, scene_objects, self.max_depth);
            row.push(linear_to_gamma(c));
            x = x + 1;
        }
        row
    }

    /// Render the full image in the deterministic sampling mode: one
    /// centered, jitter-free ray per pixel, no defocus sampling randomness,
    /// so every pixel is exactly the model color of its ray.  Repeated
    /// renders of one configuration are bit-identical.
    pub fn render_deterministic(&mut self, scene_objects: &HittableList)
        requires
            old(self).config_wf(),
            scene_objects.wf(),
        ensures
            final(self).viewport.width == old(self).viewport.width,
            final(self).viewport.height == old(self).viewport.height,
            final(self).viewport.wf(),
            forall|x: int, y: int|
                0 <= x < old(self).viewport.width && 0 <= y < old(self).viewport.height ==> final(
                self).viewport.data@[y * (old(self).viewport.width as int) + x] == #[trigger] old(
                self).derived_spec().pixel_spec(
                    scene_objects.hittables@,
                    scene_objects.materials@,
                    x,
                    y,
                ),
            *final(self) == (Camera { viewport: final(self).viewport, ..old(self).derived_spec() }),
    {
        self.initialize();
        let w: usize = self.viewport.width;
        let h: usize = self.viewport.height;
        let mut data: Vec<Col3q> = Vec::new();
        let mut y: usize = 0;
        while y < h
            invariant
                y <= h,
                w == self.viewport.width,
                h == self.viewport.height,
                *self == old(self).derived_spec(),
                self.config_wf(),
                self.derived_wf(),
                scene_objects.wf(),
                data@.len() == y * w,
                forall|x1: int, y1: int|
                    0 <= x1 < w && 0 <= y1 < y ==> data@[y1 * (w as int) + x1]
                        == #[trigger] self.pixel_spec(
                        scene_objects.hittables@,
                        scene_objects.materials@,
                        x1,
                        y1,
                    ),
            decreases h - y,
        {
            let ghost prefix = data@;
            let mut row: Vec<Col3q> = self.render_row(scene_objects, y);
            let ghost rowview = row@;
            data.append(&mut row);
            proof {
                lemma_row_step(w as int, y as int);
                assert forall|x1: int, y1: int|
                    0 <= x1 < w && 0 <= y1 < y + 1 implies data@[y1 * (w as int) + x1]
                    == #[trigger] self.pixel_spec(
                    scene_objects.hittables@,
                    scene_objects.materials@,
                    x1,
                    y1,
                ) by {
                    if y1 < y {
                        lemma_row_index_below(w as int, x1, y1, y as int);
                        assert(data@[y1 * (w as int) + x1] == prefix[y1 * (w as int) + x1]);
                    } else {
                        assert(data@[y1 * (w as int) + x1] == rowview[x1]);
                    }
                }
            }
            y = y + 1;
        }
        proof {
            lemma_dims_commute(w as int, h as int);
        }
        self.viewport = Image { width: w, height: h, data };
    }

    /// One row of pixels with jittered, defocus-sampled rays and random
    /// scattering: `samples_per_pixel` estimates per pixel, summed,
    /// averaged, clamped and gamma-corrected.  Every pixel is the finished
    /// average of a sequence of per-sample colors that each match the
    /// ray/scatter model on some in-range draws, and lies in the unit
    /// color cube.  The camera must already be initialized.
    pub fn render_row_sampled(&self, scene_objects: &HittableList, j: usize) -> (row: Vec<Col3q>)
        requires
            self.derived_wf(),
            self.position.wf(),
            self.viewport.width <= 0x4000_0000,
            j <= 0x4000_0000,
            1 <= self.samples_per_pixel <= 0x4000_0000,
            scene_objects.wf(),
        ensures
            row@.len() == self.viewport.width,
            forall|x: int| 0 <= x < row@.len() ==> (#[trigger] row@[x]).in_unit(),
            forall|x: int|
                0 <= x < row@.len() ==> #[trigger] sampled_pixel_ok(*self,
                    scene_objects.hittables@, scene_objects.materials@, x, j as int, row@[x]),
    {
        let w: usize = self.viewport.width;
        let spp: usize = self.samples_per_pixel;
        let scale: i64 = q_div(ONE, (spp as i64) * ONE);
        let mut row: Vec<Col3q> = Vec::new();
        let mut x: usize = 0;
        while x < w
            invariant
                x <= w,
                w == self.viewport.width,
                w <= 0x4000_0000,
                j <= 0x4000_0000,
                spp == self.samples_per_pixel,
                1 <= spp,
                scale as int == crate::scalar::q_div_spec(ONE as int, (spp as int) * (
                ONE as int)),
                self.derived_wf(),
                self.position.wf(),
                scene_objects.wf(),
                row@.len() == x,
                forall|x1: int| 0 <= x1 < row@.len() ==> (#[trigger] row@[x1]).in_unit(),
                forall|x1: int|
                    0 <= x1 < row@.len() ==> #[trigger] sampled_pixel_ok(*self,
                        scene_objects.hittables@, scene_objects.materials@, x1, j as int,
                        row@[x1]),
            decreases w - x,
        {
            let mut accum: Col3q = Col3q::black();
            let ghost mut samples: Seq<Col3q> = Seq::empty();
            let mut s: usize = 0;
            while s < spp
                invariant
                    s <= spp,
                    x < w,
                    w == self.viewport.width,
                    w <= 0x4000_0000,
                    j <= 0x4000_0000,
                    self.derived_wf(),
                    self.position.wf(),
                    scene_objects.wf(),
                    accum.wf(),
                    samples.len() == s,
                    accum == color_sum_spec(samples),
                    forall|k: int|
                        0 <= k < samples.len() ==> #[trigger] pixel_sample_matches(*self,
                            scene_objects.hittables@, scene_objects.materials@, x as int,
                            j as int, samples[k]),
                decreases spp - s,
            {
                let ray: Ray = self.get_ray(x, j);
                let c: Col3q = self.ray_color(ray, scene_objects, self.max_depth);
                proof {
                    let (offset, disk) = choose|offset: Vec3, disk: Vec3|
                        ray_sample_matches(*self, x as int, j as int, offset, disk, ray);
                    assert(sample_draws_match(*self, scene_objects.hittables@,
                        scene_objects.materials@, x as int, j as int, offset, disk, c));
                    assert(pixel_sample_matches(*self, scene_objects.hittables@,
                        scene_objects.materials@, x as int, j as int, c));
                    let ghost prev = samples;
                    samples = samples.push(c);
                    assert(samples.drop_last() =~= prev);
                    assert(samples.last() == c);
                }
                accum = accum.add(c);
                s = s + 1;
            }
            let avg: Col3q = accum.scaled(scale);
            let clamped: Col3q = Col3q {
                r: q_clamp(avg.r, 0, ONE),
                g: q_clamp(avg.g, 0, ONE),
                b: q_clamp(avg.b, 0, ONE),
            };
            proof {
                lemma_gamma_unit(clamped.r as int);
                lemma_gamma_unit(clamped.g as int);
                lemma_gamma_unit(clamped.b as int);
            }
            let out: Col3q = linear_to_gamma(clamped);
            proof {
                assert(sampled_pixel_matches(*self, scene_objects.hittables@,
                    scene_objects.materials@, x as int, j as int, samples, out));
            }
            row.push(out);
            x = x + 1;
        }
        row
    }

    /// Render the full image with jittered, defocus-sampled rays and random
    /// scattering: every pixel is the finished (summed, averaged, clamped,
    /// gamma-corrected) value of `samples_per_pixel` per-sample colors that
    /// each match the ray/scatter model on some in-range draws, and lies in
    /// the unit color cube.
    pub fn render(&mut self, scene_objects: &HittableList)
        requires
            old(self).config_wf(),
            scene_objects.wf(),
            1 <= old(self).samples_per_pixel <= 0x4000_0000,
        ensures
            final(self).viewport.width == old(self).viewport.width,
            final(self).viewport.height == old(self).viewport.height,
            final(self).viewport.wf(),
            forall|i: int|
                0 <= i < final(self).viewport.data@.len() ==> (#[trigger] final(
                self).viewport.data@[i]).in_unit(),
            forall|x: int, y: int|
                0 <= x < old(self).viewport.width && 0 <= y < old(self).viewport.height
                    ==> sampled_pixel_ok(
                    old(self).derived_spec(),
                    scene_objects.hittables@,
                    scene_objects.materials@,
                    x,
                    y,
                    #[trigger] crate::image::pixel_at_spec(
                        final(self).viewport.data@,
                        old(self).viewport.width as int,
                        x,
                        y,
                    ),
                ),
            *final(self) == (Camera { viewport: final(self).viewport, ..old(self).derived_spec() }),
    {
        self.initialize();
        let w: usize = self.viewport.width;
        let h: usize = self.viewport.height;
        let mut data: Vec<Col3q> = Vec::new();
        let mut y: usize = 0;
        while y < h
            invariant
                y <= h,
                w == self.viewport.width,
                h == self.viewport.height,
                *self == old(self).derived_spec(),
                self.config_wf(),
                self.derived_wf(),
                1 <= self.samples_per_pixel <= 0x4000_0000,
                scene_objects.wf(),
                data@.len() == y * w,
                forall|i: int| 0 <= i < data@.len() ==> (#[trigger] data@[i]).in_unit(),
                forall|x1: int, y1: int|
                    0 <= x1 < w && 0 <= y1 < y ==> sampled_pixel_ok(
                        *self,
                        scene_objects.hittables@,
                        scene_objects.materials@,
                        x1,
                        y1,
                        #[trigger] crate::image::pixel_at_spec(data@, w as int, x1, y1),
                    ),
            decreases h - y,
        {
            let ghost prefix = data@;
            let mut row: Vec<Col3q> = self.render_row_sampled(scene_objects, y);
            let ghost rowview = row@;
            data.append(&mut row);
            proof {
                lemma_row_step(w as int, y as int);
                assert forall|x1: int, y1: int|
                    0 <= x1 < w && 0 <= y1 < y + 1 implies sampled_pixel_ok(
                    *self,
                    scene_objects.hittables@,
                    scene_objects.materials@,
                    x1,
                    y1,
                    #[trigger] crate::image::pixel_at_spec(data@, w as int, x1, y1),
                ) by {
                    if y1 < y {
                        lemma_row_index_below(w as int, x1, y1, y as int);
                        assert(crate::image::pixel_at_spec(data@, w as int, x1, y1)
                            == crate::image::pixel_at_spec(prefix, w as int, x1, y1));
                    } else {
                        assert(crate::image::pixel_at_spec(data@, w as int, x1, y1)
                            == rowview[x1]);
                    }
                }
            }
            y = y + 1;
        }
        proof {
            lemma_dims_commute(w as int, h as int);
        }
        self.viewport = Image { width: w, height: h, data };
    }
}

/// Appending one full row advances the flat length by one row.
proof fn lemma_row_step(w: int, y: int)
    by (nonlinear_arith)
    ensures
        (y + 1) * w == y * w + w,
{
}

/// A cell of an earlier row lies inside the flat prefix.
proof fn lemma_row_index_below(w: int, x: int, ysmall: int, ybig: int)
    by (nonlinear_arith)
    requires
        0 <= x < w,
        0 <= ysmall < ybig,
    ensures
        0 <= ysmall * w + x < ybig * w,
{
}

/// The flat buffer length reads the same either way around.
proof fn lemma_dims_commute(w: int, h: int)
    by (nonlinear_arith)
    ensures
        w * h == h * w,
{
}

/// The running sum of per-sample colors, as the accumulation loop computes
/// it: channelwise saturating addition, in order.
pub open spec fn color_sum_spec(samples: Seq<Col3q>) -> Col3q
    decreases samples.len(),
{
    if samples.len() == 0 {
        Col3q { r: 0i64, g: 0i64, b: 0i64 }
    } else {
        color_sum_spec(samples.drop_last()).add_spec(samples.last())
    }
}

/// Averaging and display encoding of one pixel: the sample sum scaled by
/// the reciprocal sample count, clamped into the unit cube, and
/// gamma-corrected.
pub open spec fn finish_pixel_spec(sum: Col3q, spp: int) -> Col3q {
    let avg = sum.scaled_spec(q_div_spec(ONE as int, spp * (ONE as int)));
    linear_to_gamma_spec(
        Col3q {
            r: q_clamp_spec(avg.r as int, 0, ONE as int) as i64,
            g: q_clamp_spec(avg.g as int, 0, ONE as int) as i64,
            b: q_clamp_spec(avg.b as int, 0, ONE as int) as i64,
        },
    )
}

/// One sample of one pixel matches the ray/scatter model on the given
/// draws: the jitter and disk draws are in range, and the color matches
/// the estimate model for the ray they generate.
pub open spec fn sample_draws_match(
    cam: Camera,
    spheres: Seq<Sphere>,
    materials: Seq<Material>,
    x: int,
    y: int,
    offset: Vec3,
    disk: Vec3,
    sample: Col3q,
) -> bool {
    &&& ray_sample_matches(cam, x, y, offset, disk, cam.get_ray_sampled_spec(x, y, offset, disk))
    &&& sample.in_unit()
    &&& ray_color_outcome_matches(spheres, materials, cam.get_ray_sampled_spec(x, y, offset,
        disk), cam.max_depth as nat, sample)
}

/// One sample of one pixel matches the ray/scatter model on some in-range
/// draws.
pub open spec fn pixel_sample_matches(
    cam: Camera,
    spheres: Seq<Sphere>,
    materials: Seq<Material>,
    x: int,
    y: int,
    sample: Col3q,
) -> bool {
    exists|offset: Vec3, disk: Vec3|
        #[trigger] sample_draws_match(cam, spheres, materials, x, y, offset, disk, sample)
}

/// A finished pixel of the sampled renderer: the given sequence holds one
/// model-matching color per sample, and the pixel is their finished
/// (summed, averaged, clamped, gamma-corrected) value.
pub open spec fn sampled_pixel_matches(
    cam: Camera,
    spheres: Seq<Sphere>,
    materials: Seq<Material>,
    x: int,
    y: int,
    samples: Seq<Col3q>,
    c: Col3q,
) -> bool {
    &&& samples.len() == cam.samples_per_pixel
    &&& forall|k: int|
        0 <= k < samples.len() ==> #[trigger] pixel_sample_matches(cam, spheres, materials, x, y,
            samples[k])
    &&& c == finish_pixel_spec(color_sum_spec(samples), cam.samples_per_pixel as int)
}

/// A finished pixel of the sampled renderer, for some sequence of
/// model-matching per-sample colors.
pub open spec fn sampled_pixel_ok(
    cam: Camera,
    spheres: Seq<Sphere>,
    materials: Seq<Material>,
    x: int,
    y: int,
    c: Col3q,
) -> bool {
    exists|samples: Seq<Col3q>|
        #[trigger] sampled_pixel_matches(cam, spheres, materials, x, y, samples, c)
}

/// The ray matches the sampled-ray model on an in-range jitter offset and
/// unit-disk sample.
pub open spec fn ray_sample_matches(
    cam: Camera,
    i: int,
    j: int,
    offset: Vec3,
    disk: Vec3,
    r: Ray,
) -> bool {
    &&& offset.wf() && -ONE / 2 <= offset.x < ONE / 2 && -ONE / 2 <= offset.y < ONE / 2
        && offset.z == 0
    &&& disk.wf() && -ONE <= disk.x <= ONE && -ONE <= disk.y <= ONE && disk.z == 0
        && disk.length_squared_spec() < ONE
    &&& r == cam.get_ray_sampled_spec(i, j, offset, disk)
}

} // verus!
