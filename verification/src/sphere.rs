//! The sphere implicit surface and its ray intersection: the quadratic
//! formula, root selection against the closest-hit interval, and outward
//! normal computation.

use vstd::prelude::*;
use crate::scalar::{
    q_ok, q_add_spec, q_sub_spec, q_neg_spec, q_mul_spec, q_div_spec, q_sqrt_spec,
    q_add, q_sub, q_neg, q_mul, q_div, q_sqrt, q_sat, ONE,
    lemma_q_div_monotone,
};
use crate::vector::{Vec3, dot_spec, lemma_self_dot_nonneg, lemma_dot_exact};
use crate::ray::Ray;
use crate::interval::Interval;
use crate::hittable::HitRecord;

verus! {

/// The discriminant `b*b - 4*a*c`, over the fixed-point model.
pub open spec fn quad_disc_spec(a: int, b: int, c: int) -> int {
    q_sub_spec(q_mul_spec(b, b), q_mul_spec(q_mul_spec(4 * ONE, a), c))
}

/// The denominator `2*a` of the quadratic formula.
pub open spec fn quad_den_spec(a: int) -> int {
    q_mul_spec(2 * ONE, a)
}

/// The square root of the discriminant (0 when it is negative).
pub open spec fn quad_root_spec(a: int, b: int, c: int) -> int {
    q_sqrt_spec(quad_disc_spec(a, b, c))
}

/// Whether real roots exist: nonnegative discriminant and nonzero
/// denominator.
pub open spec fn quad_exists_spec(a: int, b: int, c: int) -> bool {
    quad_disc_spec(a, b, c) >= 0 && quad_den_spec(a) != 0
}

/// The smaller root `(-b - sqrt(disc)) / (2a)`.
pub open spec fn quad_t0_spec(a: int, b: int, c: int) -> int {
    q_div_spec(q_sub_spec(q_neg_spec(b), quad_root_spec(a, b, c)), quad_den_spec(a))
}

/// The larger root `(-b + sqrt(disc)) / (2a)`.
pub open spec fn quad_t1_spec(a: int, b: int, c: int) -> int {
    q_div_spec(q_add_spec(q_neg_spec(b), quad_root_spec(a, b, c)), quad_den_spec(a))
}

/// Solve `a*t^2 + b*t + c = 0`.  Returns whether a solution exists, and the
/// two candidate roots (unspecified values when none exists, as the model
/// states).
pub fn quadratic_formula(a: i64, b: i64, c: i64) -> (r: (bool, i64, i64))
    requires
        q_ok(a as int),
        q_ok(b as int),
        q_ok(c as int),
    ensures
        r.0 == quad_exists_spec(a as int, b as int, c as int),
        r.1 as int == quad_t0_spec(a as int, b as int, c as int),
        r.2 as int == quad_t1_spec(a as int, b as int, c as int),
        q_ok(r.1 as int),
        q_ok(r.2 as int),
{
    let denominator: i64 = q_mul(2 * ONE, a);
    let inside_sqrt: i64 = q_sub(q_mul(b, b), q_mul(q_mul(4 * ONE, a), c));
    let solution_exists: bool = inside_sqrt >= 0 && denominator != 0;
    let root: i64 = q_sqrt(inside_sqrt);
    let t0: i64 = q_div(q_sub(q_neg(b), root), denominator);
    let t1: i64 = q_div(q_add(q_neg(b), root), denominator);
    (solution_exists, t0, t1)
}

/// When the quadratic is solvable with a positive denominator, the smaller
/// root really is no larger than the other.
pub proof fn lemma_quad_roots_ordered(a: int, b: int, c: int)
    requires
        q_ok(a),
        q_ok(b),
        q_ok(c),
        quad_den_spec(a) > 0,
    ensures
        quad_t0_spec(a, b, c) <= quad_t1_spec(a, b, c),
{
    let root = quad_root_spec(a, b, c);
    let disc = quad_disc_spec(a, b, c);
    if disc > 0 {
        crate::scalar::lemma_isqrt_exists((disc * (ONE as int)) as nat);
    }
    assert(root >= 0);
    lemma_q_div_monotone(
        q_sub_spec(q_neg_spec(b), root),
        q_add_spec(q_neg_spec(b), root),
        quad_den_spec(a),
    );
}

/// A ray that reaches a sphere from outside reports the smaller of the two
/// roots: when the intersection quadratic is solvable and its smaller root
/// lies in the valid interval, the hit is exactly that root (which is no
/// larger than the other root), and the outward normal at the reported
/// point points away from the sphere's center.
pub proof fn lemma_hit_reports_smaller_root(s: Sphere, ray: Ray, iv: Interval)
    requires
        quad_exists_spec(s.quad_a_spec(ray), s.quad_b_spec(ray), s.quad_c_spec(ray)),
        iv.contains_spec(quad_t0_spec(s.quad_a_spec(ray), s.quad_b_spec(ray), s.quad_c_spec(ray))),
        s.radius > 0,
    ensures
        s.hit_t_spec(ray, iv) == Some(
            quad_t0_spec(s.quad_a_spec(ray), s.quad_b_spec(ray), s.quad_c_spec(ray)),
        ),
        quad_t0_spec(s.quad_a_spec(ray), s.quad_b_spec(ray), s.quad_c_spec(ray)) <= quad_t1_spec(
            s.quad_a_spec(ray),
            s.quad_b_spec(ray),
            s.quad_c_spec(ray),
        ),
        ({
            let t = quad_t0_spec(s.quad_a_spec(ray), s.quad_b_spec(ray), s.quad_c_spec(ray));
            let point = ray.at_spec(t);
            dot_spec(s.normal_at_spec(point), point.sub_spec(s.position)) >= 0
        }),
{
    lemma_sphere_den_pos(s, ray);
    lemma_quad_roots_ordered(s.quad_a_spec(ray), s.quad_b_spec(ray), s.quad_c_spec(ray));
    let t = quad_t0_spec(s.quad_a_spec(ray), s.quad_b_spec(ray), s.quad_c_spec(ray));
    let point = ray.at_spec(t);
    let inv = q_div_spec(ONE as int, s.radius as int);
    vstd::arithmetic::div_mod::lemma_div_pos_is_pos((ONE as int) * (ONE as int), s.radius as int);
    crate::vector::lemma_scaled_nonneg_dot(point.sub_spec(s.position), inv);
}

/// A ray whose line passes farther from a sphere's center than its radius
/// misses it.  Stated on whole-unit data, where the fixed-point model
/// computes the intersection discriminant exactly: a positive
/// squared-distance margin forces a negative discriminant, so no hit is
/// reported, and `first_hit_on_interval` then leaves its interval and
/// record untouched.
pub proof fn lemma_miss_when_beyond_radius(
    s: Sphere,
    ray: Ray,
    iv: Interval,
    ox: int,
    oy: int,
    oz: int,
    dx: int,
    dy: int,
    dz: int,
    cx: int,
    cy: int,
    cz: int,
    ru: int,
)
    requires
        -32 <= ox <= 32,
        -32 <= oy <= 32,
        -32 <= oz <= 32,
        -32 <= dx <= 32,
        -32 <= dy <= 32,
        -32 <= dz <= 32,
        -32 <= cx <= 32,
        -32 <= cy <= 32,
        -32 <= cz <= 32,
        0 <= ru <= 32,
        ray.origin.x as int == ox * (ONE as int),
        ray.origin.y as int == oy * (ONE as int),
        ray.origin.z as int == oz * (ONE as int),
        ray.direction.x as int == dx * (ONE as int),
        ray.direction.y as int == dy * (ONE as int),
        ray.direction.z as int == dz * (ONE as int),
        s.position.x as int == cx * (ONE as int),
        s.position.y as int == cy * (ONE as int),
        s.position.z as int == cz * (ONE as int),
        s.radius as int == ru * (ONE as int),
        s.radius_squared as int == q_mul_spec(s.radius as int, s.radius as int),
        (dx * dx + dy * dy + dz * dz) * ((cx - ox) * (cx - ox) + (cy - oy) * (cy - oy) + (cz - oz)
            * (cz - oz) - ru * ru) > ((cx - ox) * dx + (cy - oy) * dy + (cz - oz) * dz) * ((cx
            - ox) * dx + (cy - oy) * dy + (cz - oz) * dz),
    ensures
        s.hit_t_spec(ray, iv) is None,
{
    let wx = cx - ox;
    let wy = cy - oy;
    let wz = cz - oz;
    let dotv = dx * dx + dy * dy + dz * dz;
    let ococ = wx * wx + wy * wy + wz * wz;
    let ocd = wx * dx + wy * dy + wz * dz;
    let oc = s.position.sub_spec(ray.origin);
    assert(oc.x as int == wx * (ONE as int) && oc.y as int == wy * (ONE as int) && oc.z as int
        == wz * (ONE as int));
    lemma_dot_exact(ray.direction, ray.direction, dx, dy, dz, dx, dy, dz);
    lemma_dot_exact(oc, ray.direction, wx, wy, wz, dx, dy, dz);
    lemma_dot_exact(oc, oc, wx, wy, wz, wx, wy, wz);
    assert(s.quad_a_spec(ray) == dotv * (ONE as int));
    assert(-6144 <= ocd <= 6144 && 0 <= dotv <= 3072 && 0 <= ococ <= 12288) by (nonlinear_arith)
        requires
            ocd == wx * dx + wy * dy + wz * dz,
            dotv == dx * dx + dy * dy + dz * dz,
            ococ == wx * wx + wy * wy + wz * wz,
            -64 <= wx <= 64,
            -64 <= wy <= 64,
            -64 <= wz <= 64,
            -32 <= dx <= 32,
            -32 <= dy <= 32,
            -32 <= dz <= 32,
    ;
    // The quadratic's coefficients, exactly in whole units.
    crate::scalar::lemma_q_mul_exact(-2, ocd);
    assert(s.quad_b_spec(ray) == (-2 * ocd) * (ONE as int));
    crate::scalar::lemma_q_mul_exact(ru, ru);
    assert(s.radius_squared as int == (ru * ru) * (ONE as int));
    assert(s.quad_c_spec(ray) == (ococ - ru * ru) * (ONE as int)) by {
        assert(ococ * (ONE as int) - (ru * ru) * (ONE as int) == (ococ - ru * ru) * (ONE as int))
            by (nonlinear_arith);
        assert(-0x4000_0000 <= (ococ - ru * ru) * (ONE as int) <= 0x4000_0000_0000)
            by (nonlinear_arith)
            requires
                0 <= ococ <= 12288,
                0 <= ru <= 32,
        ;
    }
    // The discriminant, exactly in whole units.
    crate::scalar::lemma_q_mul_exact(-2 * ocd, -2 * ocd);
    crate::scalar::lemma_q_mul_exact(4, dotv);
    assert(0 <= ru * ru <= 1024) by (nonlinear_arith)
        requires
            0 <= ru <= 32,
    ;
    crate::scalar::lemma_q_mul_exact(4 * dotv, ococ - ru * ru);
    let bsq = (-2 * ocd) * (-2 * ocd);
    let fourac = (4 * dotv) * (ococ - ru * ru);
    assert(quad_disc_spec(s.quad_a_spec(ray), s.quad_b_spec(ray), s.quad_c_spec(ray))
        == q_sub_spec(bsq * (ONE as int), fourac * (ONE as int)));
    // The margin makes it negative.
    assert(bsq - fourac < 0) by (nonlinear_arith)
        requires
            bsq == (-2 * ocd) * (-2 * ocd),
            fourac == (4 * dotv) * (ococ - ru * ru),
            dotv * (ococ - ru * ru) > ocd * ocd,
    ;
    assert((bsq - fourac) * (ONE as int) < 0) by (nonlinear_arith)
        requires
            bsq - fourac < 0,
    ;
    assert(bsq * (ONE as int) - fourac * (ONE as int) == (bsq - fourac) * (ONE as int))
        by (nonlinear_arith);
    assert(quad_disc_spec(s.quad_a_spec(ray), s.quad_b_spec(ray), s.quad_c_spec(ray)) < 0);
}

/// The record reported for a transversal hit: when the ray direction
/// strictly opposes the outward normal at the hit point — as it does for a
/// crossing from outside with a margin that survives fixed-point rounding —
/// the record marks the front face, holds the outward normal
/// `(point - center) / radius` itself, and places the point at the hit
/// parameter.
pub proof fn lemma_hit_record_front_face(s: Sphere, ray: Ray, t: int)
    requires
        dot_spec(ray.direction, s.normal_at_spec(ray.at_spec(t))) < 0,
    ensures
        s.hit_record_for_spec(ray, t).front_face,
        s.hit_record_for_spec(ray, t).normal == s.normal_at_spec(ray.at_spec(t)),
        s.hit_record_for_spec(ray, t).point == ray.at_spec(t),
        s.hit_record_for_spec(ray, t).t as int == t as i64 as int,
{
}

/// An accepted hit parameter lies inside the interval it was accepted
/// against, and inside the scalar range.
pub proof fn lemma_hit_t_in_range(s: Sphere, ray: Ray, iv: Interval)
    ensures
        match s.hit_t_spec(ray, iv) {
            Some(t) => iv.lower_bound <= t <= iv.upper_bound && q_ok(t),
            None => true,
        },
{
}

/// The denominator of a sphere's intersection quadratic is positive whenever
/// roots exist: the leading coefficient is a self dot product.
pub proof fn lemma_sphere_den_pos(s: Sphere, ray: Ray)
    ensures
        quad_den_spec(s.quad_a_spec(ray)) >= 0,
        quad_exists_spec(s.quad_a_spec(ray), s.quad_b_spec(ray), s.quad_c_spec(ray))
            ==> quad_den_spec(s.quad_a_spec(ray)) > 0,
{
    lemma_self_dot_nonneg(ray.direction);
    let a = s.quad_a_spec(ray);
    vstd::arithmetic::div_mod::lemma_div_pos_is_pos(2 * ONE * a, ONE as int);
}

/// Narrowing the interval from above changes an accepted hit only by
/// rejecting parameters beyond the new upper bound: a hit accepted against
/// the narrow interval is the hit of the wide one, and a hit of the wide one
/// at or below the narrow bound is accepted unchanged against the narrow
/// one.
pub proof fn lemma_hit_t_narrower(s: Sphere, ray: Ray, iv: Interval, iv2: Interval)
    requires
        iv2.lower_bound == iv.lower_bound,
        iv2.upper_bound <= iv.upper_bound,
    ensures
        match s.hit_t_spec(ray, iv2) {
            Some(t2) => s.hit_t_spec(ray, iv) == Some(t2),
            None => true,
        },
        match s.hit_t_spec(ray, iv) {
            Some(t) => t > iv2.upper_bound || s.hit_t_spec(ray, iv2) == Some(t),
            None => s.hit_t_spec(ray, iv2) is None,
        },
{
    let a = s.quad_a_spec(ray);
    let b = s.quad_b_spec(ray);
    let c = s.quad_c_spec(ray);
    if quad_exists_spec(a, b, c) {
        lemma_sphere_den_pos(s, ray);
        lemma_quad_roots_ordered(a, b, c);
    }
}

/// What the standalone intersection query computes: the accepted parameter
/// (0 when no root is accepted) and the interval after tightening.
pub open spec fn ray_sphere_intersection_spec(ray: Ray, sphere: Sphere, iv: Interval) -> (
    int,
    Interval,
) {
    let a = sphere.quad_a_spec(ray);
    let b = sphere.quad_b_spec(ray);
    let c = sphere.quad_c_spec(ray);
    let t0 = quad_t0_spec(a, b, c);
    let t1 = quad_t1_spec(a, b, c);
    let first = if iv.contains_spec(t0) {
        (t0, Interval { lower_bound: iv.lower_bound, upper_bound: t0 as i64 })
    } else {
        (0, iv)
    };
    if first.1.contains_spec(t1) {
        (t1, Interval { lower_bound: first.1.lower_bound, upper_bound: t1 as i64 })
    } else {
        first
    }
}

/// The standalone intersection query: whether the quadratic has real roots
/// at all (whatever the interval), the point at the accepted parameter, and
/// the unit normal there.  The interval's upper bound is tightened to the
/// accepted parameter.
pub fn ray_sphere_intersection(ray: Ray, sphere: Sphere, interval: &mut Interval) -> (r: (
    bool,
    Vec3,
    Vec3,
))
    requires
        ray.wf(),
        sphere.wf(),
    ensures
        r.0 == quad_exists_spec(sphere.quad_a_spec(ray), sphere.quad_b_spec(ray),
            sphere.quad_c_spec(ray)),
        *final(interval) == ray_sphere_intersection_spec(ray, sphere, *old(interval)).1,
        r.1 == ray.at_spec(ray_sphere_intersection_spec(ray, sphere, *old(interval)).0),
        r.2 == r.1.sub_spec(sphere.position).normalized_spec(),
        r.1.wf(),
        r.2.wf(),
{
    let oc: Vec3 = sphere.position.sub(ray.origin);
    let a: i64 = ray.direction.dot(ray.direction);
    let b: i64 = q_mul(-2 * ONE, oc.dot(ray.direction));
    let c: i64 = q_sub(oc.dot(oc), sphere.radius_squared);
    let sr: (bool, i64, i64) = quadratic_formula(a, b, c);
    let hit_sphere: bool = sr.0;
    let t0: i64 = sr.1;
    let t1: i64 = sr.2;
    let mut t: i64 = 0;
    if interval.contains(t0) {
        interval.upper_bound = t0;
        t = t0;
    }
    if interval.contains(t1) {
        interval.upper_bound = t1;
        t = t1;
    }
    let hit_point: Vec3 = ray.at(t);
    let hit_normal: Vec3 = hit_point.sub(sphere.position).normalized();
    (hit_sphere, hit_point, hit_normal)
}

/// A sphere with a cached squared radius and an index into the scene's
/// material table.
#[derive(Clone, Copy, Debug, PartialEq, Eq, Structural)]
pub struct Sphere {
    pub position: Vec3,
    pub radius: i64,
    pub radius_squared: i64,
    pub mat: usize,
}

impl Sphere {
    /// The cached squared radius stays consistent with the radius.
    pub open spec fn wf(self) -> bool {
        self.position.wf() && q_ok(self.radius as int) && self.radius_squared as int
            == q_mul_spec(self.radius as int, self.radius as int)
    }

    pub fn new(position: Vec3, radius: i64, mat: usize) -> (s: Sphere)
        requires
            position.wf(),
        ensures
            s.position == position,
            s.radius as int == crate::scalar::sat_spec(radius as int),
            s.mat == mat,
            s.wf(),
    {
        let r: i64 = q_sat(radius as i128);
        Sphere { position, radius: r, radius_squared: q_mul(r, r), mat }
    }

    /// The outward unit normal at a surface point: `(point - center) / radius`.
    pub open spec fn normal_at_spec(self, point: Vec3) -> Vec3 {
        point.sub_spec(self.position).scaled_spec(q_div_spec(ONE as int, self.radius as int))
    }

    /// The outward normal; `point` is expected to lie on the surface.
    pub fn normal_at(&self, point: Vec3) -> (n: Vec3)
        requires
            self.wf(),
            point.wf(),
        ensures
            n == self.normal_at_spec(point),
            n.wf(),
    {
        point.sub(self.position).scaled(q_div(ONE, self.radius))
    }

    /// Whether a point lies strictly inside the sphere.
    pub fn is_point_inside(&self, point: Vec3) -> (r: bool)
        requires
            self.wf(),
            point.wf(),
        ensures
            r == (point.sub_spec(self.position).length_squared_spec() < self.radius_squared),
    {
        point.sub(self.position).length_squared() < self.radius_squared
    }

    /// The quadratic coefficients of the intersection equation for a ray.
    pub open spec fn quad_a_spec(self, ray: Ray) -> int {
        dot_spec(ray.direction, ray.direction)
    }

    pub open spec fn quad_b_spec(self, ray: Ray) -> int {
        q_mul_spec(-2 * ONE, dot_spec(self.position.sub_spec(ray.origin), ray.direction))
    }

    pub open spec fn quad_c_spec(self, ray: Ray) -> int {
        q_sub_spec(
            dot_spec(self.position.sub_spec(ray.origin), self.position.sub_spec(ray.origin)),
            self.radius_squared as int,
        )
    }

    /// The accepted hit parameter for a ray within an interval: the smaller
    /// root if the interval contains it, else the larger root if contained,
    /// else none.
    pub open spec fn hit_t_spec(self, ray: Ray, iv: Interval) -> Option<int> {
        let a = self.quad_a_spec(ray);
        let b = self.quad_b_spec(ray);
        let c = self.quad_c_spec(ray);
        if !quad_exists_spec(a, b, c) {
            None
        } else if iv.contains_spec(quad_t0_spec(a, b, c)) {
            Some(quad_t0_spec(a, b, c))
        } else if iv.contains_spec(quad_t1_spec(a, b, c)) {
            Some(quad_t1_spec(a, b, c))
        } else {
            None
        }
    }

    /// The hit record reported for an accepted hit at parameter `t`.
    pub open spec fn hit_record_for_spec(self, ray: Ray, t: int) -> HitRecord {
        let point = ray.at_spec(t);
        let outward = self.normal_at_spec(point);
        let front = dot_spec(ray.direction, outward) < 0;
        HitRecord {
            point,
            normal: if front {
                outward
            } else {
                outward.neg_spec()
            },
            t: t as i64,
            front_face: front,
            mat: Some(self.mat),
        }
    }

    /// Report the nearest intersection within the interval, if any.  On a
    /// hit, the interval's upper bound is tightened to the accepted
    /// parameter and the record is overwritten; on a miss both are left
    /// unchanged.
    pub fn first_hit_on_interval(&self, ray: Ray, interval: &mut Interval, hit_record: &mut HitRecord) -> (hit: bool)
        requires
            self.wf(),
            ray.wf(),
        ensures
            match self.hit_t_spec(ray, *old(interval)) {
                Some(t) => hit && *final(interval) == (Interval {
                    lower_bound: old(interval).lower_bound,
                    upper_bound: t as i64,
                }) && *final(hit_record) == self.hit_record_for_spec(ray, t),
                None => !hit && *final(interval) == *old(interval) && *final(hit_record) == *old(
                hit_record),
            },
    {
        let oc: Vec3 = self.position.sub(ray.origin);
        let a: i64 = ray.direction.dot(ray.direction);
        let b: i64 = q_mul(-2 * ONE, oc.dot(ray.direction));
        let c: i64 = q_sub(oc.dot(oc), self.radius_squared);
        let sr: (bool, i64, i64) = quadratic_formula(a, b, c);
        let solution_exists: bool = sr.0;
        let t0: i64 = sr.1;
        let t1: i64 = sr.2;
        let hit_sphere: bool = solution_exists && (interval.contains(t0) || interval.contains(t1));
        if !hit_sphere {
            return false;
        }
        proof {
            lemma_self_dot_nonneg(ray.direction);
            lemma_quad_roots_ordered(a as int, b as int, c as int);
        }
        if interval.contains(t0) {
            interval.upper_bound = t0;
            hit_record.t = t0;
            hit_record.point = ray.at(t0);
            let outward_normal: Vec3 = self.normal_at(hit_record.point);
            hit_record.set_face_normal(ray, outward_normal);
            hit_record.mat = Some(self.mat);
        }
        if interval.contains(t1) {
            interval.upper_bound = t1;
            hit_record.t = t1;
            hit_record.point = ray.at(t1);
            let outward_normal: Vec3 = self.normal_at(hit_record.point);
            hit_record.set_face_normal(ray, outward_normal);
            hit_record.mat = Some(self.mat);
        }
        true
    }
}

} // verus!
