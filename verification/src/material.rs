//! Materials and their scattering rules: diffuse (Lambertian), fuzzy mirror
//! (Metal), and glass (Dielectric) with Schlick reflectance.
//!
//! Each material has a deterministic scatter function taking the random
//! draws as arguments, verified for every value of them, and a sampling
//! scatter function that draws through the `rand` wrappers and calls it.

use vstd::prelude::*;
use crate::scalar::{
    q_ok, q_add_spec, q_sub_spec, q_mul_spec, q_div_spec, q_min_spec, q_sqrt_spec,
    q_add, q_sub, q_mul, q_div, q_min, q_sqrt, q_clamp, ONE, Q_MAX,
};
use crate::vector::{Vec3, dot_spec, raw_dot_spec, lemma_self_dot_nonneg};
use crate::color::Col3q;
use crate::ray::Ray;
use crate::hittable::HitRecord;
use crate::random::{random_unit_vector, random_unit_interval};

verus! {

/// A diffuse surface with a fixed albedo.
#[derive(Clone, Copy, Debug, PartialEq, Eq, Structural)]
pub struct Lambertian {
    pub albedo: Col3q,
}

/// A reflective surface with a fixed albedo and a fuzz radius in `[0, 1]`.
#[derive(Clone, Copy, Debug, PartialEq, Eq, Structural)]
pub struct Metal {
    pub albedo: Col3q,
    pub fuzz: i64,
}

/// A transparent surface with a fixed refraction index.
#[derive(Clone, Copy, Debug, PartialEq, Eq, Structural)]
pub struct Dielectric {
    pub refraction_index: i64,
}

/// The diffuse scatter direction: the surface normal plus a random unit
/// vector, with the normal itself standing in when the sum degenerates to
/// (a rounded) zero.
pub open spec fn lambertian_dir_spec(normal: Vec3, u: Vec3) -> Vec3 {
    let d = normal.add_spec(u);
    if d.length_squared_spec() == 0 {
        normal
    } else {
        d
    }
}

/// The metal scatter direction: the mirror reflection, normalized, perturbed
/// by `fuzz` times a random unit vector.
pub open spec fn metal_dir_spec(m: Metal, ray_in: Ray, hit: HitRecord, u: Vec3) -> Vec3 {
    ray_in.direction.reflect_spec(hit.normal).normalized_spec().add_spec(u.scaled_spec(
        m.fuzz as int,
    ))
}

/// Schlick's reflectance approximation, over the fixed-point model.
pub open spec fn reflectance_spec(cos_theta: int, refractive_index: int) -> int {
    let r0 = q_div_spec(q_sub_spec(ONE as int, refractive_index), q_add_spec(ONE as int,
        refractive_index));
    let r0sq = q_mul_spec(r0, r0);
    let p = q_sub_spec(ONE as int, cos_theta);
    let p2 = q_mul_spec(p, p);
    let p4 = q_mul_spec(p2, p2);
    q_add_spec(r0sq, q_mul_spec(q_sub_spec(ONE as int, r0sq), q_mul_spec(p4, p)))
}

/// The effective refractive-index ratio: entering from air on a front-face
/// hit, exiting into air otherwise.
pub open spec fn dielectric_ratio_spec(d: Dielectric, front_face: bool) -> int {
    if front_face {
        q_div_spec(ONE as int, d.refraction_index as int)
    } else {
        d.refraction_index as int
    }
}

/// The dielectric scatter direction: mirror reflection on total internal
/// reflection or a winning Schlick draw, Snell refraction otherwise.
pub open spec fn dielectric_dir_spec(d: Dielectric, ray_in: Ray, hit: HitRecord, rnd: int) -> Vec3 {
    let ri = dielectric_ratio_spec(d, hit.front_face);
    let unit_direction = ray_in.direction.normalized_spec();
    let cos_theta = q_min_spec(dot_spec(unit_direction.neg_spec(), hit.normal), ONE as int);
    let sin_theta = q_sqrt_spec(q_sub_spec(ONE as int, q_mul_spec(cos_theta, cos_theta)));
    let cannot_refract = q_mul_spec(ri, sin_theta) > ONE;
    if cannot_refract || reflectance_spec(cos_theta, ri) > rnd {
        unit_direction.reflect_spec(hit.normal)
    } else {
        unit_direction.refract_spec(hit.normal, ri)
    }
}

impl Lambertian {
    #[inline]
    pub fn new(albedo: Col3q) -> (m: Self)
        ensures
            m.albedo == albedo,
    {
        Lambertian { albedo }
    }

    /// Diffuse scattering for a given unit-vector draw: always succeeds,
    /// attenuating by the albedo.
    pub fn scatter_with(
        &self,
        ray_in: Ray,
        hit_record: &HitRecord,
        unit_sample: Vec3,
        attenuation: &mut Col3q,
        scattered: &mut Ray,
    ) -> (ok: bool)
        requires
            hit_record.wf(),
            unit_sample.wf(),
        ensures
            *final(attenuation) == self.albedo,
            *final(scattered) == (Ray {
                origin: hit_record.point,
                direction: lambertian_dir_spec(hit_record.normal, unit_sample),
            }),
            final(scattered).wf(),
            ok,
    {
        let mut scatter_direction: Vec3 = hit_record.normal.add(unit_sample);
        if scatter_direction.length_squared() == 0 {
            scatter_direction = hit_record.normal;
        }
        *scattered = Ray::new(hit_record.point, scatter_direction);
        *attenuation = self.albedo;
        true
    }
}

impl Metal {
    /// The fuzz radius is clamped into `[0, 1]` at construction.
    #[inline]
    pub fn new(albedo: Col3q, fuzz: i64) -> (m: Self)
        ensures
            m.albedo == albedo,
            m.fuzz as int == crate::scalar::q_clamp_spec(fuzz as int, 0, ONE as int),
            0 <= m.fuzz <= ONE,
    {
        Metal { albedo, fuzz: q_clamp(fuzz, 0, ONE) }
    }

    /// Mirror scattering for a given unit-vector draw: succeeds only when
    /// the perturbed reflection still points out of the surface.
    pub fn scatter_with(
        &self,
        ray_in: Ray,
        hit_record: &HitRecord,
        unit_sample: Vec3,
        attenuation: &mut Col3q,
        scattered: &mut Ray,
    ) -> (ok: bool)
        requires
            ray_in.wf(),
            hit_record.wf(),
            unit_sample.wf(),
        ensures
            *final(attenuation) == self.albedo,
            *final(scattered) == (Ray {
                origin: hit_record.point,
                direction: metal_dir_spec(*self, ray_in, *hit_record, unit_sample),
            }),
            final(scattered).wf(),
            ok == (dot_spec(metal_dir_spec(*self, ray_in, *hit_record, unit_sample),
            hit_record.normal) > 0),
    {
        let reflected: Vec3 = ray_in.direction.reflect(hit_record.normal);
        let direction: Vec3 = reflected.normalized().add(unit_sample.scaled(self.fuzz));
        *scattered = Ray::new(hit_record.point, direction);
        *attenuation = self.albedo;
        scattered.direction.dot(hit_record.normal) > 0
    }
}

impl Dielectric {
    #[inline]
    pub fn new(refraction_index: i64) -> (m: Self)
        requires
            0 <= refraction_index <= Q_MAX,
        ensures
            m.refraction_index == refraction_index,
    {
        Dielectric { refraction_index }
    }

    /// Schlick's reflectance approximation.
    #[inline]
    pub fn reflectance(cos_theta: i64, refractive_index: i64) -> (r: i64)
        requires
            q_ok(cos_theta as int),
            q_ok(refractive_index as int),
        ensures
            r as int == reflectance_spec(cos_theta as int, refractive_index as int),
    {
        let r0: i64 = q_div(q_sub(ONE, refractive_index), q_add(ONE, refractive_index));
        let r0sq: i64 = q_mul(r0, r0);
        let p: i64 = q_sub(ONE, cos_theta);
        let p2: i64 = q_mul(p, p);
        let p4: i64 = q_mul(p2, p2);
        q_add(r0sq, q_mul(q_sub(ONE, r0sq), q_mul(p4, p)))
    }

    /// Glass scattering for a given reflectance draw: always succeeds with
    /// white attenuation, reflecting or refracting as the model says.
    pub fn scatter_with(
        &self,
        ray_in: Ray,
        hit_record: &HitRecord,
        rnd: i64,
        attenuation: &mut Col3q,
        scattered: &mut Ray,
    ) -> (ok: bool)
        requires
            ray_in.wf(),
            hit_record.wf(),
            q_ok(self.refraction_index as int),
        ensures
            *final(attenuation) == (Col3q { r: ONE, g: ONE, b: ONE }),
            *final(scattered) == (Ray {
                origin: hit_record.point,
                direction: dielectric_dir_spec(*self, ray_in, *hit_record, rnd as int),
            }),
            final(scattered).wf(),
            ok,
    {
        *attenuation = Col3q::white();
        let refractive_index: i64 = if hit_record.front_face {
            q_div(ONE, self.refraction_index)
        } else {
            self.refraction_index
        };
        let unit_direction: Vec3 = ray_in.direction.normalized();
        let cos_theta: i64 = q_min(unit_direction.neg().dot(hit_record.normal), ONE);
        let sin_theta: i64 = q_sqrt(q_sub(ONE, q_mul(cos_theta, cos_theta)));
        let cannot_refract: bool = q_mul(refractive_index, sin_theta) > ONE;
        let direction: Vec3 = if cannot_refract || Self::reflectance(cos_theta, refractive_index)
            > rnd {
            unit_direction.reflect(hit_record.normal)
        } else {
            unit_direction.refract(hit_record.normal, refractive_index)
        };
        *scattered = Ray::new(hit_record.point, direction);
        true
    }
}

/// A scene material: a closed set of scattering behaviors dispatched by
/// variant.
#[derive(Clone, Copy, Debug, PartialEq, Eq, Structural)]
pub enum Material {
    Lambertian(Lambertian),
    Metal(Metal),
    Dielectric(Dielectric),
}

impl Material {
    /// Albedos lie in the unit color cube; fuzz and refraction index are
    /// in-range scalars.
    pub open spec fn wf(self) -> bool {
        match self {
            Material::Lambertian(m) => m.albedo.in_unit(),
            Material::Metal(m) => m.albedo.in_unit() && 0 <= m.fuzz <= ONE,
            Material::Dielectric(m) => 0 <= m.refraction_index <= Q_MAX,
        }
    }

    /// What scattering produces for the given random draws: the attenuation,
    /// the scattered ray, and whether the ray survives.
    pub open spec fn scatter_spec(self, ray_in: Ray, hit: HitRecord, u: Vec3, rnd: int) -> (
        Col3q,
        Ray,
        bool,
    ) {
        match self {
            Material::Lambertian(m) => (
                m.albedo,
                Ray { origin: hit.point, direction: lambertian_dir_spec(hit.normal, u) },
                true,
            ),
            Material::Metal(m) => (
                m.albedo,
                Ray { origin: hit.point, direction: metal_dir_spec(m, ray_in, hit, u) },
                dot_spec(metal_dir_spec(m, ray_in, hit, u), hit.normal) > 0,
            ),
            Material::Dielectric(m) => (
                Col3q { r: ONE, g: ONE, b: ONE },
                Ray { origin: hit.point, direction: dielectric_dir_spec(m, ray_in, hit, rnd) },
                true,
            ),
        }
    }

    /// Scattering with the random draws supplied as arguments; deterministic
    /// and exactly specified.
    pub fn scatter_with(
        &self,
        ray_in: Ray,
        hit_record: &HitRecord,
        unit_sample: Vec3,
        rnd: i64,
        attenuation: &mut Col3q,
        scattered: &mut Ray,
    ) -> (ok: bool)
        requires
            ray_in.wf(),
            hit_record.wf(),
            unit_sample.wf(),
            self.wf(),
        ensures
            ({
                let (att, sc, okv) = self.scatter_spec(ray_in, *hit_record, unit_sample,
                    rnd as int);
                *final(attenuation) == att && *final(scattered) == sc && ok == okv
            }),
            final(scattered).wf(),
            final(attenuation).in_unit(),
    {
        match self {
            Material::Lambertian(m) => m.scatter_with(ray_in, hit_record, unit_sample,
                attenuation, scattered),
            Material::Metal(m) => m.scatter_with(ray_in, hit_record, unit_sample, attenuation,
                scattered),
            Material::Dielectric(m) => m.scatter_with(ray_in, hit_record, rnd, attenuation,
                scattered),
        }
    }

    /// Scattering with fresh random draws.  Whatever the draws come back as,
    /// the outcome matches the scatter model on some in-range draw pair.
    pub fn scatter(
        &self,
        ray_in: Ray,
        hit_record: &HitRecord,
        attenuation: &mut Col3q,
        scattered: &mut Ray,
    ) -> (ok: bool)
        requires
            ray_in.wf(),
            hit_record.wf(),
            self.wf(),
        ensures
            exists|u: Vec3, rnd: int|
                scatter_rand_matches(*self, ray_in, *hit_record, u, rnd, *final(attenuation),
                *final(scattered), ok),
            final(scattered).wf(),
            final(attenuation).in_unit(),
    {
        let u: Vec3 = random_unit_vector();
        let rnd: i64 = random_unit_interval();
        let ok: bool = self.scatter_with(ray_in, hit_record, u, rnd, attenuation, scattered);
        proof {
            assert(scatter_rand_matches(*self, ray_in, *hit_record, u, rnd as int, *attenuation,
            *scattered, ok));
        }
        ok
    }
}

/// The scatter outcome matches the model on in-range random draws: a
/// unit-length vector draw and a unit-interval reflectance draw.
pub open spec fn scatter_rand_matches(
    m: Material,
    ray_in: Ray,
    hit: HitRecord,
    u: Vec3,
    rnd: int,
    attenuation: Col3q,
    scattered: Ray,
    ok: bool,
) -> bool {
    crate::random::unit_draw_ok(u) && 0 <= rnd < ONE && {
        let (att, sc, okv) = m.scatter_spec(ray_in, hit, u, rnd);
        attenuation == att && scattered == sc && ok == okv
    }
}

/// Lambertian scattering sends the ray to the same side of the surface as
/// the normal: the scatter direction's dot product with the normal is never
/// negative, for any sample no longer than the normal (in particular, any
/// unit sample against a unit normal).
pub proof fn lemma_lambertian_scatter_nonnegative(normal: Vec3, u: Vec3)
    requires
        -0x1_0000_0000 <= normal.x <= 0x1_0000_0000,
        -0x1_0000_0000 <= normal.y <= 0x1_0000_0000,
        -0x1_0000_0000 <= normal.z <= 0x1_0000_0000,
        -0x1_0000_0000 <= u.x <= 0x1_0000_0000,
        -0x1_0000_0000 <= u.y <= 0x1_0000_0000,
        -0x1_0000_0000 <= u.z <= 0x1_0000_0000,
        raw_dot_spec(u, u) <= raw_dot_spec(normal, normal),
    ensures
        dot_spec(lambertian_dir_spec(normal, u), normal) >= 0,
{
    let d = normal.add_spec(u);
    if d.length_squared_spec() == 0 {
        lemma_self_dot_nonneg(normal);
    } else {
        let nx = normal.x as int;
        let ny = normal.y as int;
        let nz = normal.z as int;
        let ux = u.x as int;
        let uy = u.y as int;
        let uz = u.z as int;
        let nn = nx * nx + ny * ny + nz * nz;
        let un = ux * nx + uy * ny + uz * nz;
        let uu = ux * ux + uy * uy + uz * uz;
        assert(d.x as int == nx + ux && d.y as int == ny + uy && d.z as int == nz + uz);
        assert(raw_dot_spec(d, normal) == (nx + ux) * nx + (ny + uy) * ny + (nz + uz) * nz);
        assert((nx + ux) * nx + (ny + uy) * ny + (nz + uz) * nz == nn + un) by (nonlinear_arith)
            requires
                nn == nx * nx + ny * ny + nz * nz,
                un == ux * nx + uy * ny + uz * nz,
        ;
        crate::vector::lemma_cauchy_schwarz(u, normal);
        assert(un * un <= uu * nn);
        assert(nn >= 0 && uu >= 0) by (nonlinear_arith)
            requires
                nn == nx * nx + ny * ny + nz * nz,
                uu == ux * ux + uy * uy + uz * uz,
        ;
        assert(un * un <= nn * nn) by (nonlinear_arith)
            requires
                un * un <= uu * nn,
                uu <= nn,
                nn >= 0,
                uu >= 0,
        ;
        assert(-nn <= un) by (nonlinear_arith)
            requires
                un * un <= nn * nn,
                nn >= 0,
        ;
        assert(raw_dot_spec(d, normal) >= 0);
        vstd::arithmetic::div_mod::lemma_div_pos_is_pos(raw_dot_spec(d, normal), ONE as int);
    }
}

/// Lambertian scattering from a unit-length draw, as the sampling path
/// produces them: against an exactly-unit normal, the scatter direction's
/// dot product with the normal dips below zero by at most 33 fixed-point
/// steps (half a thousandth of a unit), the draw's rounding band.
pub proof fn lemma_lambertian_sampled_dip_bound(normal: Vec3, u: Vec3)
    requires
        -0x1_0000_0000 <= normal.x <= 0x1_0000_0000,
        -0x1_0000_0000 <= normal.y <= 0x1_0000_0000,
        -0x1_0000_0000 <= normal.z <= 0x1_0000_0000,
        dot_spec(normal, normal) == ONE as int,
        crate::random::unit_draw_ok(u),
    ensures
        dot_spec(lambertian_dir_spec(normal, u), normal) >= -33,
{
    let d = normal.add_spec(u);
    if d.length_squared_spec() == 0 {
    } else {
        let nx = normal.x as int;
        let ny = normal.y as int;
        let nz = normal.z as int;
        let ux = u.x as int;
        let uy = u.y as int;
        let uz = u.z as int;
        let nn = nx * nx + ny * ny + nz * nz;
        let un = ux * nx + uy * ny + uz * nz;
        let uu = ux * ux + uy * uy + uz * uz;
        assert(nn >= 0 && uu >= 0) by (nonlinear_arith)
            requires
                nn == nx * nx + ny * ny + nz * nz,
                uu == ux * ux + uy * uy + uz * uz,
        ;
        // Pin the raw sums from the fixed-point lengths.
        assert(raw_dot_spec(normal, normal) == nn);
        assert(raw_dot_spec(u, u) == uu);
        vstd::arithmetic::div_mod::lemma_fundamental_div_mod(nn, ONE as int);
        assert(nn / (ONE as int) == ONE as int);
        assert((ONE as int) * (ONE as int) <= nn < (ONE as int) * (ONE as int) + ONE);
        vstd::arithmetic::div_mod::lemma_fundamental_div_mod(uu, ONE as int);
        assert(uu / (ONE as int) <= ONE + 64);
        assert(uu <= (ONE as int) * ((ONE as int) + 64) + ONE - 1) by (nonlinear_arith)
            requires
                uu >= 0,
                uu == (ONE as int) * (uu / (ONE as int)) + uu % (ONE as int),
                uu / (ONE as int) <= ONE + 64,
                0 <= uu % (ONE as int) < ONE,
        ;
        // Cauchy-Schwarz bounds the cross term.
        crate::vector::lemma_cauchy_schwarz(u, normal);
        assert(un * un <= uu * nn);
        assert(uu * nn <= 4299227135 * 4295032831) by (nonlinear_arith)
            requires
                0 <= uu <= 4299227135,
                0 <= nn <= 4295032831,
        ;
        assert(4297129984 * 4297129984 >= 4299227135 * 4295032831) by (nonlinear_arith);
        assert(un >= -4297129984) by (nonlinear_arith)
            requires
                un * un <= 4297129984 * 4297129984,
        ;
        // The scatter direction's raw dot with the normal.
        assert(d.x as int == nx + ux && d.y as int == ny + uy && d.z as int == nz + uz);
        assert(raw_dot_spec(d, normal) == (nx + ux) * nx + (ny + uy) * ny + (nz + uz) * nz);
        assert((nx + ux) * nx + (ny + uy) * ny + (nz + uz) * nz == nn + un) by (nonlinear_arith)
            requires
                nn == nx * nx + ny * ny + nz * nz,
                un == ux * nx + uy * ny + uz * nz,
        ;
        assert(raw_dot_spec(d, normal) >= -2162688);
        // Rescaling keeps the dip within 33 steps.
        if raw_dot_spec(d, normal) >= 0 {
            vstd::arithmetic::div_mod::lemma_div_pos_is_pos(raw_dot_spec(d, normal), ONE as int);
        } else {
            vstd::arithmetic::div_mod::lemma_div_is_ordered(-raw_dot_spec(d, normal), 2162688,
                ONE as int);
        }
    }
}

/// A dielectric with refraction index 1 passes a head-on ray straight
/// through: for an exactly-unit normal and an incoming direction opposite to
/// it, the scattered direction equals the incoming direction, for every
/// reflectance draw in `[0, 1)`.
pub proof fn lemma_dielectric_identity_head_on(d: Dielectric, ray_in: Ray, hit: HitRecord, rnd: int)
    requires
        d.refraction_index == ONE,
        hit.normal.wf(),
        dot_spec(hit.normal, hit.normal) == ONE,
        ray_in.direction == hit.normal.neg_spec(),
        0 <= rnd,
    ensures
        dielectric_dir_spec(d, ray_in, hit, rnd) == ray_in.direction,
{
    crate::scalar::lemma_q_mul_one(ONE as int);
    let ri = dielectric_ratio_spec(d, hit.front_face);
    assert(q_div_spec(ONE as int, ONE as int) == ONE as int);
    assert(ri == ONE as int);
    let n = hit.normal;
    let u = ray_in.direction;
    // The incoming direction is exactly unit length.
    crate::vector::lemma_dot_neg(n, n);
    crate::vector::lemma_dot_neg(n, n.neg_spec());
    assert(dot_spec(u, u) == ONE as int) by {
        assert(dot_spec(n.neg_spec(), n.neg_spec()) == -dot_spec(n, n.neg_spec()));
        assert(dot_spec(n.neg_spec(), n) == -dot_spec(n, n));
        crate::vector::lemma_dot_comm(n, n.neg_spec());
    }
    // Normalizing it leaves it unchanged.
    crate::scalar::lemma_q_sqrt_one();
    assert(u.length_spec() == ONE as int);
    crate::scalar::lemma_q_mul_one(u.x as int);
    crate::scalar::lemma_q_mul_one(u.y as int);
    crate::scalar::lemma_q_mul_one(u.z as int);
    let ud = u.normalized_spec();
    assert(ud == u);
    // Head-on: the cosine is exactly one, the sine exactly zero.
    assert(ud.neg_spec() == n) by {
        crate::vector::lemma_neg_involution(n);
    }
    let cos_theta = q_min_spec(dot_spec(ud.neg_spec(), n), ONE as int);
    assert(cos_theta == ONE as int);
    assert(q_mul_spec(ONE as int, ONE as int) == ONE as int);
    let sin_theta = q_sqrt_spec(q_sub_spec(ONE as int, q_mul_spec(cos_theta, cos_theta)));
    assert(sin_theta == 0);
    assert(q_mul_spec(ri, 0) == 0) by {
        assert(ri * 0 == 0) by (nonlinear_arith);
    }
    // Schlick reflectance at ratio 1 and cosine 1 is exactly zero.
    assert(reflectance_spec(cos_theta, ri) == 0) by {
        assert(q_sub_spec(ONE as int, ri) == 0);
        assert(q_div_spec(0, q_add_spec(ONE as int, ri)) == 0) by {
            assert(q_add_spec(ONE as int, ri) == 2 * ONE);
            assert(0 * (ONE as int) == 0) by (nonlinear_arith);
            vstd::arithmetic::div_mod::lemma_div_of0(2 * ONE);
        }
        assert(q_mul_spec(0, 0) == 0) by {
            assert(0 * 0 == 0) by (nonlinear_arith);
        }
        assert(q_sub_spec(ONE as int, cos_theta) == 0);
        assert(q_mul_spec(ONE as int, 0) == 0) by {
            assert((ONE as int) * 0 == 0) by (nonlinear_arith);
        }
    }
    // So the ray refracts, and refraction at ratio 1 is exact.
    assert(dielectric_dir_spec(d, ray_in, hit, rnd) == ud.refract_spec(n, ri));
    let cos2 = q_min_spec(dot_spec(ud.neg_spec(), n), ONE as int);
    assert(cos2 == ONE as int);
    crate::scalar::lemma_q_mul_one(n.x as int);
    crate::scalar::lemma_q_mul_one(n.y as int);
    crate::scalar::lemma_q_mul_one(n.z as int);
    let inner = ud.add_spec(n.scaled_spec(cos2));
    assert(inner == (Vec3 { x: 0i64, y: 0i64, z: 0i64 }));
    crate::scalar::lemma_q_mul_one(0);
    let r_out_perp = inner.scaled_spec(ri);
    assert(r_out_perp == (Vec3 { x: 0i64, y: 0i64, z: 0i64 }));
    assert(r_out_perp.length_squared_spec() == 0) by {
        assert(0int * 0int == 0) by (nonlinear_arith);
    }
    assert(q_sub_spec(ONE as int, 0) == ONE as int);
    crate::scalar::lemma_q_mul_neg_one(n.x as int);
    crate::scalar::lemma_q_mul_neg_one(n.y as int);
    crate::scalar::lemma_q_mul_neg_one(n.z as int);
    let r_out_parallel = n.scaled_spec(crate::scalar::q_neg_spec(q_sqrt_spec(ONE as int)));
    assert(r_out_parallel == n.neg_spec());
    assert(r_out_parallel.add_spec(r_out_perp) == r_out_perp.add_spec(r_out_parallel));
    assert(r_out_perp.add_spec(r_out_parallel) == u);
}

} // verus!
