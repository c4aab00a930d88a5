//! Vectors over the fixed-point scalar: the 3-component `Vec3` used by the
//! ray tracer, and the integer pixel coordinate `Vec2i`.

use vstd::prelude::*;
use crate::scalar::{
    q_ok, q_add_spec, q_sub_spec, q_neg_spec, q_mul_spec, q_div_spec, q_min_spec,
    q_sqrt_spec, sat_spec, scale_dn_spec, tdiv_spec,
    q_add, q_sub, q_neg, q_mul, q_div, q_min, q_sat, q_sqrt, ONE, Q_MAX,
};

verus! {

/// A 3-component vector of fixed-point scalars.
#[derive(Clone, Copy, Debug, PartialEq, Eq, Structural)]
pub struct Vec3 {
    pub x: i64,
    pub y: i64,
    pub z: i64,
}

/// The dot product of two vectors, over the fixed-point model: the exact
/// integer sum of products, rescaled toward zero and saturated.
pub open spec fn dot_spec(a: Vec3, b: Vec3) -> int {
    sat_spec(scale_dn_spec((a.x as int) * (b.x as int) + (a.y as int) * (b.y as int) + (
    a.z as int) * (b.z as int)))
}

impl Vec3 {
    /// All components lie in the saturated scalar range.
    pub open spec fn wf(self) -> bool {
        q_ok(self.x as int) && q_ok(self.y as int) && q_ok(self.z as int)
    }

    pub open spec fn new_spec(x: int, y: int, z: int) -> Vec3 {
        Vec3 { x: sat_spec(x) as i64, y: sat_spec(y) as i64, z: sat_spec(z) as i64 }
    }

    pub open spec fn add_spec(self, o: Vec3) -> Vec3 {
        Vec3 {
            x: q_add_spec(self.x as int, o.x as int) as i64,
            y: q_add_spec(self.y as int, o.y as int) as i64,
            z: q_add_spec(self.z as int, o.z as int) as i64,
        }
    }

    pub open spec fn sub_spec(self, o: Vec3) -> Vec3 {
        Vec3 {
            x: q_sub_spec(self.x as int, o.x as int) as i64,
            y: q_sub_spec(self.y as int, o.y as int) as i64,
            z: q_sub_spec(self.z as int, o.z as int) as i64,
        }
    }

    pub open spec fn neg_spec(self) -> Vec3 {
        Vec3 {
            x: q_neg_spec(self.x as int) as i64,
            y: q_neg_spec(self.y as int) as i64,
            z: q_neg_spec(self.z as int) as i64,
        }
    }

    pub open spec fn scaled_spec(self, s: int) -> Vec3 {
        Vec3 {
            x: q_mul_spec(self.x as int, s) as i64,
            y: q_mul_spec(self.y as int, s) as i64,
            z: q_mul_spec(self.z as int, s) as i64,
        }
    }

    pub open spec fn scaled_non_uniform_spec(self, o: Vec3) -> Vec3 {
        Vec3 {
            x: q_mul_spec(self.x as int, o.x as int) as i64,
            y: q_mul_spec(self.y as int, o.y as int) as i64,
            z: q_mul_spec(self.z as int, o.z as int) as i64,
        }
    }

    pub open spec fn divided_spec(self, s: int) -> Vec3 {
        Vec3 {
            x: q_div_spec(self.x as int, s) as i64,
            y: q_div_spec(self.y as int, s) as i64,
            z: q_div_spec(self.z as int, s) as i64,
        }
    }

    pub open spec fn cross_spec(self, o: Vec3) -> Vec3 {
        Vec3 {
            x: q_sub_spec(q_mul_spec(self.y as int, o.z as int), q_mul_spec(self.z as int, o.y as int)) as i64,
            y: q_sub_spec(q_mul_spec(self.z as int, o.x as int), q_mul_spec(self.x as int, o.z as int)) as i64,
            z: q_sub_spec(q_mul_spec(self.x as int, o.y as int), q_mul_spec(self.y as int, o.x as int)) as i64,
        }
    }

    /// The squared length, as the fixed-point model computes it.
    pub open spec fn length_squared_spec(self) -> int {
        dot_spec(self, self)
    }

    pub open spec fn length_spec(self) -> int {
        q_sqrt_spec(self.length_squared_spec())
    }

    /// `normalized` scales by the reciprocal of the length.
    pub open spec fn normalized_spec(self) -> Vec3 {
        self.scaled_spec(q_div_spec(ONE as int, self.length_spec()))
    }

    pub open spec fn reflect_spec(self, normal: Vec3) -> Vec3 {
        self.sub_spec(normal.scaled_spec(q_mul_spec(2 * ONE, dot_spec(self, normal))))
    }

    pub open spec fn refract_spec(self, normal: Vec3, etai_over_etat: int) -> Vec3 {
        let cos_theta = q_min_spec(dot_spec(self.neg_spec(), normal), ONE as int);
        let r_out_perp = self.add_spec(normal.scaled_spec(cos_theta)).scaled_spec(etai_over_etat);
        let pl = q_sub_spec(ONE as int, r_out_perp.length_squared_spec());
        let pa = if pl >= 0 {
            pl
        } else {
            -pl
        };
        let r_out_parallel = normal.scaled_spec(q_neg_spec(q_sqrt_spec(pa)));
        r_out_perp.add_spec(r_out_parallel)
    }

    /// Build a vector, saturating each component into the scalar range.
    #[inline]
    pub fn new(x: i64, y: i64, z: i64) -> (r: Vec3)
        ensures
            r == Self::new_spec(x as int, y as int, z as int),
            r.wf(),
    {
        Vec3 { x: q_sat(x as i128), y: q_sat(y as i128), z: q_sat(z as i128) }
    }

    #[inline]
    pub fn dot(&self, other: Self) -> (r: i64)
        requires
            self.wf(),
            other.wf(),
        ensures
            r as int == dot_spec(*self, other),
            q_ok(r as int),
    {
        proof {
            lemma_comp_product_bound(self.x as int, other.x as int);
            lemma_comp_product_bound(self.y as int, other.y as int);
            lemma_comp_product_bound(self.z as int, other.z as int);
        }
        let px: i128 = (self.x as i128) * (other.x as i128);
        let py: i128 = (self.y as i128) * (other.y as i128);
        let pz: i128 = (self.z as i128) * (other.z as i128);
        q_sat(crate::scalar::scale_dn_pub(px + py + pz))
    }

    #[inline]
    pub fn cross(&self, other: Self) -> (r: Self)
        requires
            self.wf(),
            other.wf(),
        ensures
            r == self.cross_spec(other),
            r.wf(),
    {
        Vec3 {
            x: q_sub(q_mul(self.y, other.z), q_mul(self.z, other.y)),
            y: q_sub(q_mul(self.z, other.x), q_mul(self.x, other.z)),
            z: q_sub(q_mul(self.x, other.y), q_mul(self.y, other.x)),
        }
    }

    #[inline]
    pub fn length_squared(&self) -> (r: i64)
        requires
            self.wf(),
        ensures
            r as int == self.length_squared_spec(),
            0 <= r <= Q_MAX,
    {
        proof {
            lemma_self_dot_nonneg(*self);
        }
        self.dot(*self)
    }

    #[inline]
    pub fn length(&self) -> (r: i64)
        requires
            self.wf(),
        ensures
            r as int == self.length_spec(),
            0 <= r <= Q_MAX,
    {
        q_sqrt(self.length_squared())
    }

    #[inline]
    pub fn normalized(&self) -> (r: Self)
        requires
            self.wf(),
        ensures
            r == self.normalized_spec(),
            r.wf(),
    {
        let inv: i64 = q_div(ONE, self.length());
        self.scaled(inv)
    }

    #[inline]
    pub fn normalize(&mut self)
        requires
            old(self).wf(),
        ensures
            *final(self) == old(self).normalized_spec(),
            final(self).wf(),
    {
        *self = self.normalized();
    }

    #[inline]
    pub fn scale(&mut self, scalar: i64)
        requires
            old(self).wf(),
        ensures
            *final(self) == old(self).scaled_spec(scalar as int),
            final(self).wf(),
    {
        *self = self.scaled(scalar);
    }

    #[inline]
    pub fn scaled(&self, scalar: i64) -> (r: Self)
        requires
            self.wf(),
        ensures
            r == self.scaled_spec(scalar as int),
            r.wf(),
    {
        Vec3 { x: q_mul(self.x, scalar), y: q_mul(self.y, scalar), z: q_mul(self.z, scalar) }
    }

    /// Each component divided by a fixed-point scalar.
    #[inline]
    pub fn divided(&self, scalar: i64) -> (r: Self)
        requires
            self.wf(),
        ensures
            r == self.divided_spec(scalar as int),
            r.wf(),
    {
        Vec3 { x: q_div(self.x, scalar), y: q_div(self.y, scalar), z: q_div(self.z, scalar) }
    }

    #[inline]
    pub fn translate(&mut self, translation: Self)
        requires
            old(self).wf(),
            translation.wf(),
        ensures
            *final(self) == old(self).add_spec(translation),
            final(self).wf(),
    {
        *self = self.translated(translation);
    }

    #[inline]
    pub fn translated(&self, translation: Self) -> (r: Self)
        requires
            self.wf(),
            translation.wf(),
        ensures
            r == self.add_spec(translation),
            r.wf(),
    {
        self.add(translation)
    }

    #[inline]
    pub fn add(&self, other: Self) -> (r: Self)
        ensures
            r == self.add_spec(other),
            r.wf(),
    {
        Vec3 { x: q_add(self.x, other.x), y: q_add(self.y, other.y), z: q_add(self.z, other.z) }
    }

    #[inline]
    pub fn sub(&self, other: Self) -> (r: Self)
        ensures
            r == self.sub_spec(other),
            r.wf(),
    {
        Vec3 { x: q_sub(self.x, other.x), y: q_sub(self.y, other.y), z: q_sub(self.z, other.z) }
    }

    #[inline]
    pub fn neg(&self) -> (r: Self)
        ensures
            r == self.neg_spec(),
            r.wf(),
    {
        Vec3 { x: q_neg(self.x), y: q_neg(self.y), z: q_neg(self.z) }
    }

    #[inline]
    pub fn scale_non_uniform(&mut self, scale_vec: Self)
        requires
            old(self).wf(),
            scale_vec.wf(),
        ensures
            *final(self) == old(self).scaled_non_uniform_spec(scale_vec),
            final(self).wf(),
    {
        *self = self.scaled_non_uniform(scale_vec);
    }

    #[inline]
    pub fn scaled_non_uniform(&self, scale_vec: Self) -> (r: Self)
        requires
            self.wf(),
            scale_vec.wf(),
        ensures
            r == self.scaled_non_uniform_spec(scale_vec),
            r.wf(),
    {
        Vec3 {
            x: q_mul(self.x, scale_vec.x),
            y: q_mul(self.y, scale_vec.y),
            z: q_mul(self.z, scale_vec.z),
        }
    }

    /// Mirror reflection about a surface normal.
    #[inline]
    pub fn reflect(&self, normal: Vec3) -> (r: Vec3)
        requires
            self.wf(),
            normal.wf(),
        ensures
            r == self.reflect_spec(normal),
            r.wf(),
    {
        let d: i64 = self.dot(normal);
        self.sub(normal.scaled(q_mul(2 * ONE, d)))
    }

    /// Snell refraction of a unit direction about a unit normal, given the
    /// ratio of refractive indices.
    #[inline]
    pub fn refract(&self, normal: Vec3, etai_over_etat: i64) -> (r: Vec3)
        requires
            self.wf(),
            normal.wf(),
        ensures
            r == self.refract_spec(normal, etai_over_etat as int),
            r.wf(),
    {
        let cos_theta: i64 = q_min(self.neg().dot(normal), ONE);
        let r_out_perp: Vec3 = self.add(normal.scaled(cos_theta)).scaled(etai_over_etat);
        let pl: i64 = q_sub(ONE, r_out_perp.length_squared());
        let pa: i64 = if pl >= 0 {
            pl
        } else {
            -pl
        };
        let r_out_parallel: Vec3 = normal.scaled(q_neg(q_sqrt(pa)));
        r_out_perp.add(r_out_parallel)
    }
}

/// A product of two in-range components stays far inside the wide
/// intermediate range.
proof fn lemma_comp_product_bound(a: int, b: int)
    by (nonlinear_arith)
    requires
        q_ok(a),
        q_ok(b),
    ensures
        -0x1_0000_0000_0000_0000_0000_0000 <= a * b <= 0x1_0000_0000_0000_0000_0000_0000,
{
}

/// The dot product of a vector with itself is nonnegative.
pub proof fn lemma_self_dot_nonneg(a: Vec3)
    ensures
        dot_spec(a, a) >= 0,
{
    assert((a.x as int) * (a.x as int) >= 0 && (a.y as int) * (a.y as int) >= 0 && (a.z as int)
        * (a.z as int) >= 0) by (nonlinear_arith);
}

/// The exact integer dot product, before rescaling and saturation.
pub open spec fn raw_dot_spec(a: Vec3, b: Vec3) -> int {
    (a.x as int) * (b.x as int) + (a.y as int) * (b.y as int) + (a.z as int) * (b.z as int)
}

/// Cauchy-Schwarz for the exact integer dot product, through the Lagrange
/// identity.
pub proof fn lemma_cauchy_schwarz(a: Vec3, b: Vec3)
    ensures
        raw_dot_spec(a, b) * raw_dot_spec(a, b) <= raw_dot_spec(a, a) * raw_dot_spec(b, b),
{
    let ax = a.x as int;
    let ay = a.y as int;
    let az = a.z as int;
    let bx = b.x as int;
    let by = b.y as int;
    let bz = b.z as int;
    let d = ax * bx + ay * by + az * bz;
    let aa = ax * ax + ay * ay + az * az;
    let bb = bx * bx + by * by + bz * bz;
    let a1 = ax * ax;
    let a2 = ay * ay;
    let a3 = az * az;
    let b1 = bx * bx;
    let b2 = by * by;
    let b3 = bz * bz;
    let s1 = ax * bx;
    let s2 = ay * by;
    let s3 = az * bz;
    let c12 = (ax * ay) * (bx * by);
    let c23 = (ay * az) * (by * bz);
    let c13 = (ax * az) * (bx * bz);
    let p = ax * by - ay * bx;
    let q = ay * bz - az * by;
    let r = az * bx - ax * bz;
    assert(aa * bb == a1 * b1 + a1 * b2 + a1 * b3 + a2 * b1 + a2 * b2 + a2 * b3 + a3 * b1 + a3
        * b2 + a3 * b3) by (nonlinear_arith)
        requires
            aa == a1 + a2 + a3,
            bb == b1 + b2 + b3,
    ;
    assert(d * d == s1 * s1 + s2 * s2 + s3 * s3 + 2 * (s1 * s2) + 2 * (s2 * s3) + 2 * (s1 * s3))
        by (nonlinear_arith)
        requires
            d == s1 + s2 + s3,
    ;
    assert(s1 * s1 == a1 * b1 && s2 * s2 == a2 * b2 && s3 * s3 == a3 * b3) by (nonlinear_arith)
        requires
            s1 == ax * bx,
            s2 == ay * by,
            s3 == az * bz,
            a1 == ax * ax,
            a2 == ay * ay,
            a3 == az * az,
            b1 == bx * bx,
            b2 == by * by,
            b3 == bz * bz,
    ;
    assert(s1 * s2 == c12 && s2 * s3 == c23 && s1 * s3 == c13) by (nonlinear_arith)
        requires
            s1 == ax * bx,
            s2 == ay * by,
            s3 == az * bz,
            c12 == (ax * ay) * (bx * by),
            c23 == (ay * az) * (by * bz),
            c13 == (ax * az) * (bx * bz),
    ;
    let u1 = ax * by;
    let v1 = ay * bx;
    let u2 = ay * bz;
    let v2 = az * by;
    let u3 = az * bx;
    let v3 = ax * bz;
    assert(p * p == u1 * u1 - 2 * (u1 * v1) + v1 * v1) by (nonlinear_arith)
        requires
            p == u1 - v1,
    ;
    assert(q * q == u2 * u2 - 2 * (u2 * v2) + v2 * v2) by (nonlinear_arith)
        requires
            q == u2 - v2,
    ;
    assert(r * r == u3 * u3 - 2 * (u3 * v3) + v3 * v3) by (nonlinear_arith)
        requires
            r == u3 - v3,
    ;
    assert(u1 * u1 == a1 * b2 && v1 * v1 == a2 * b1 && u1 * v1 == c12) by (nonlinear_arith)
        requires
            u1 == ax * by,
            v1 == ay * bx,
            a1 == ax * ax,
            a2 == ay * ay,
            b1 == bx * bx,
            b2 == by * by,
            c12 == (ax * ay) * (bx * by),
    ;
    assert(u2 * u2 == a2 * b3 && v2 * v2 == a3 * b2 && u2 * v2 == c23) by (nonlinear_arith)
        requires
            u2 == ay * bz,
            v2 == az * by,
            a2 == ay * ay,
            a3 == az * az,
            b2 == by * by,
            b3 == bz * bz,
            c23 == (ay * az) * (by * bz),
    ;
    assert(u3 * u3 == a3 * b1 && v3 * v3 == a1 * b3 && u3 * v3 == c13) by (nonlinear_arith)
        requires
            u3 == az * bx,
            v3 == ax * bz,
            a1 == ax * ax,
            a3 == az * az,
            b1 == bx * bx,
            b3 == bz * bz,
            c13 == (ax * az) * (bx * bz),
    ;
    assert(p * p == a1 * b2 - 2 * c12 + a2 * b1);
    assert(q * q == a2 * b3 - 2 * c23 + a3 * b2);
    assert(r * r == a3 * b1 - 2 * c13 + a1 * b3);
    assert(p * p >= 0 && q * q >= 0 && r * r >= 0) by (nonlinear_arith);
    assert(aa * bb - d * d == p * p + q * q + r * r);
}

/// On whole-unit vectors the fixed-point dot product is exact: it equals
/// the integer dot product of the unit values, in whole units.
pub proof fn lemma_dot_exact(
    a: Vec3,
    b: Vec3,
    ax: int,
    ay: int,
    az: int,
    bx: int,
    by: int,
    bz: int,
)
    requires
        a.x as int == ax * (ONE as int),
        a.y as int == ay * (ONE as int),
        a.z as int == az * (ONE as int),
        b.x as int == bx * (ONE as int),
        b.y as int == by * (ONE as int),
        b.z as int == bz * (ONE as int),
        -64 <= ax <= 64,
        -64 <= ay <= 64,
        -64 <= az <= 64,
        -64 <= bx <= 64,
        -64 <= by <= 64,
        -64 <= bz <= 64,
    ensures
        dot_spec(a, b) == (ax * bx + ay * by + az * bz) * (ONE as int),
{
    let k = ax * bx + ay * by + az * bz;
    assert((a.x as int) * (b.x as int) + (a.y as int) * (b.y as int) + (a.z as int) * (b.z as int)
        == (k * (ONE as int)) * (ONE as int)) by (nonlinear_arith)
        requires
            a.x as int == ax * (ONE as int),
            a.y as int == ay * (ONE as int),
            a.z as int == az * (ONE as int),
            b.x as int == bx * (ONE as int),
            b.y as int == by * (ONE as int),
            b.z as int == bz * (ONE as int),
            k == ax * bx + ay * by + az * bz,
    ;
    crate::scalar::lemma_scale_dn_multiple(k * (ONE as int));
    assert(-12288 <= k <= 12288) by (nonlinear_arith)
        requires
            k == ax * bx + ay * by + az * bz,
            -64 <= ax <= 64,
            -64 <= ay <= 64,
            -64 <= az <= 64,
            -64 <= bx <= 64,
            -64 <= by <= 64,
            -64 <= bz <= 64,
    ;
}

/// Scaling a vector by a nonnegative scalar keeps each component's sign,
/// so the scaled vector never turns against the original: their dot product
/// is nonnegative.
pub proof fn lemma_scaled_nonneg_dot(v: Vec3, k: int)
    requires
        k >= 0,
    ensures
        dot_spec(v.scaled_spec(k), v) >= 0,
{
    let w = v.scaled_spec(k);
    lemma_scaled_comp_sign(v.x as int, k);
    lemma_scaled_comp_sign(v.y as int, k);
    lemma_scaled_comp_sign(v.z as int, k);
    assert((w.x as int) * (v.x as int) >= 0) by (nonlinear_arith)
        requires
            w.x as int == q_mul_spec(v.x as int, k),
            v.x as int >= 0 ==> q_mul_spec(v.x as int, k) >= 0,
            (v.x as int) < 0 ==> q_mul_spec(v.x as int, k) <= 0,
    ;
    assert((w.y as int) * (v.y as int) >= 0) by (nonlinear_arith)
        requires
            w.y as int == q_mul_spec(v.y as int, k),
            v.y as int >= 0 ==> q_mul_spec(v.y as int, k) >= 0,
            (v.y as int) < 0 ==> q_mul_spec(v.y as int, k) <= 0,
    ;
    assert((w.z as int) * (v.z as int) >= 0) by (nonlinear_arith)
        requires
            w.z as int == q_mul_spec(v.z as int, k),
            v.z as int >= 0 ==> q_mul_spec(v.z as int, k) >= 0,
            (v.z as int) < 0 ==> q_mul_spec(v.z as int, k) <= 0,
    ;
    vstd::arithmetic::div_mod::lemma_div_pos_is_pos(
        (w.x as int) * (v.x as int) + (w.y as int) * (v.y as int) + (w.z as int) * (v.z as int),
        crate::scalar::ONE as int,
    );
}

/// A product with a nonnegative scalar keeps the sign of the other factor.
proof fn lemma_scaled_comp_sign(x: int, k: int)
    requires
        k >= 0,
    ensures
        x >= 0 ==> q_mul_spec(x, k) >= 0,
        x < 0 ==> q_mul_spec(x, k) <= 0,
{
    assert(x >= 0 ==> x * k >= 0) by (nonlinear_arith)
        requires
            k >= 0,
    ;
    assert(x < 0 ==> x * k <= 0) by (nonlinear_arith)
        requires
            k >= 0,
    ;
    if x * k >= 0 {
        vstd::arithmetic::div_mod::lemma_div_pos_is_pos(x * k, crate::scalar::ONE as int);
    } else {
        vstd::arithmetic::div_mod::lemma_div_pos_is_pos(-(x * k), crate::scalar::ONE as int);
    }
}

/// The dot product is symmetric.
pub proof fn lemma_dot_comm(a: Vec3, b: Vec3)
    ensures
        dot_spec(a, b) == dot_spec(b, a),
        raw_dot_spec(a, b) == raw_dot_spec(b, a),
{
    assert((a.x as int) * (b.x as int) == (b.x as int) * (a.x as int)) by (nonlinear_arith);
    assert((a.y as int) * (b.y as int) == (b.y as int) * (a.y as int)) by (nonlinear_arith);
    assert((a.z as int) * (b.z as int) == (b.z as int) * (a.z as int)) by (nonlinear_arith);
}

/// Negation of an in-range vector is exact and self-inverse.
pub proof fn lemma_neg_involution(a: Vec3)
    requires
        a.wf(),
    ensures
        a.neg_spec().neg_spec() == a,
{
}

/// Negating one argument negates the dot product exactly: negation,
/// rescaling toward zero, and saturation are all symmetric about zero.
pub proof fn lemma_dot_neg(a: Vec3, b: Vec3)
    requires
        a.wf(),
        b.wf(),
    ensures
        dot_spec(a.neg_spec(), b) == -dot_spec(a, b),
{
    let n = a.neg_spec();
    assert(n.x as int == -(a.x as int) && n.y as int == -(a.y as int) && n.z as int == -(
    a.z as int));
    assert((-(a.x as int)) * (b.x as int) == -((a.x as int) * (b.x as int))) by (nonlinear_arith);
    assert((-(a.y as int)) * (b.y as int) == -((a.y as int) * (b.y as int))) by (nonlinear_arith);
    assert((-(a.z as int)) * (b.z as int) == -((a.z as int) * (b.z as int))) by (nonlinear_arith);
}

/// A 2-component integer pixel coordinate.
#[derive(Clone, Copy, Debug, PartialEq, Eq, Structural)]
pub struct Vec2i {
    pub x: i32,
    pub y: i32,
}

impl Vec2i {
    #[inline]
    pub fn new(x: i32, y: i32) -> (r: Self)
        ensures
            r.x == x,
            r.y == y,
    {
        Self { x, y }
    }

    /// Componentwise saturating addition.
    #[inline]
    pub fn add(&self, other: Vec2i) -> (r: Self)
        ensures
            r.x as int == i32_sat_spec(self.x + other.x),
            r.y as int == i32_sat_spec(self.y + other.y),
    {
        Self { x: i32_sat_add(self.x, other.x), y: i32_sat_add(self.y, other.y) }
    }

    /// The pixel under a point: each fixed-point coordinate rounded toward
    /// zero to a whole number of units.
    #[inline]
    pub fn of_vec3(vec: Vec3) -> (r: Self)
        requires
            vec.wf(),
        ensures
            r.x as int == i32_sat_spec(tdiv_spec(vec.x as int, ONE as int)),
            r.y as int == i32_sat_spec(tdiv_spec(vec.y as int, ONE as int)),
    {
        Self { x: q_to_i32(vec.x), y: q_to_i32(vec.y) }
    }
}

/// A 2-component vector of fixed-point scalars, for normalized device
/// coordinates.
#[derive(Clone, Copy, Debug, PartialEq, Eq, Structural)]
pub struct Vec2q {
    pub x: i64,
    pub y: i64,
}

impl Vec2q {
    pub open spec fn wf(self) -> bool {
        q_ok(self.x as int) && q_ok(self.y as int)
    }

    #[inline]
    pub fn new(x: i64, y: i64) -> (r: Self)
        ensures
            r.x as int == sat_spec(x as int),
            r.y as int == sat_spec(y as int),
            r.wf(),
    {
        Self { x: q_sat(x as i128), y: q_sat(y as i128) }
    }
}

/// Saturating addition of two pixel offsets.
fn i32_sat_add(a: i32, b: i32) -> (r: i32)
    ensures
        r as int == i32_sat_spec(a + b),
{
    let w: i64 = (a as i64) + (b as i64);
    if w > i32::MAX as i64 {
        i32::MAX
    } else if w < i32::MIN as i64 {
        i32::MIN
    } else {
        w as i32
    }
}

/// Saturation into the `i32` range.
pub open spec fn i32_sat_spec(v: int) -> int {
    if v > i32::MAX {
        i32::MAX as int
    } else if v < i32::MIN {
        i32::MIN as int
    } else {
        v
    }
}

/// A fixed-point scalar rounded toward zero to a whole count, saturated into
/// `i32`.
pub fn q_to_i32(a: i64) -> (r: i32)
    requires
        q_ok(a as int),
    ensures
        r as int == i32_sat_spec(tdiv_spec(a as int, ONE as int)),
{
    let w: i64 = if a >= 0 {
        ((a as u64) / 65536u64) as i64
    } else {
        -((((-a) as u64) / 65536u64) as i64)
    };
    if w > i32::MAX as i64 {
        i32::MAX
    } else if w < i32::MIN as i64 {
        i32::MIN
    } else {
        w as i32
    }
}

} // verus!
