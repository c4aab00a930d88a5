//! Random sampling for jittered rays and material scattering.
//!
//! All randomness enters through one trusted wrapper around the `rand`
//! crate; everything built on top of it is verified for every value the
//! wrapper can return.  Rejection sampling is attempt-bounded with a defined
//! fallback, so every function here terminates on every random stream.

use vstd::prelude::*;
use crate::scalar::{q_ok, q_div, q_sqrt, ONE, lemma_q_mul_bound, lemma_isqrt_monotone};
use crate::vector::{Vec3, dot_spec, lemma_self_dot_nonneg};

verus! {

/// Relies on `rand::random_range`: a uniform draw from a nonempty integer
/// range lies within that range.
#[verifier::external_body]
fn random_raw_unit() -> (r: i64)
    ensures
        0 <= r < ONE,
{
    rand::random_range(0..65536i64)
}

/// A uniform fixed-point draw from `[0, 1)`.
pub fn random_unit_interval() -> (r: i64)
    ensures
        0 <= r < ONE,
{
    random_raw_unit()
}

/// A uniform fixed-point draw from `[-1, 1)`.
pub fn random_symmetric_interval() -> (r: i64)
    ensures
        -ONE <= r < ONE,
{
    let d: i64 = random_raw_unit();
    2 * d - ONE
}

/// A draw from the unit ball: nonzero, strictly inside, and bounded away
/// from zero for numerical stability.
pub open spec fn ball_draw_ok(u: Vec3) -> bool {
    &&& u.wf()
    &&& -ONE <= u.x <= ONE && -ONE <= u.y <= ONE && -ONE <= u.z <= ONE
    &&& ONE / 4 <= u.length_squared_spec() < ONE
}

/// A unit-length draw: components within two units and squared length
/// within a small rounding band of one.
pub open spec fn unit_draw_ok(u: Vec3) -> bool {
    &&& u.wf()
    &&& -2 * ONE <= u.x <= 2 * ONE && -2 * ONE <= u.y <= 2 * ONE && -2 * ONE <= u.z <= 2 * ONE
    &&& ONE - 64 <= u.length_squared_spec() <= ONE + 64
}

/// A random vector strictly within the unit ball, bounded away from zero
/// for numerical stability.  Rejection sampling is capped; after that a
/// half-unit x-axis vector stands in, a defined fallback of vanishing
/// probability.
pub fn random_vector_in_unit_sphere() -> (v: Vec3)
    ensures
        ball_draw_ok(v),
{
    let mut tries: u32 = 0;
    while tries < 64
        invariant
            tries <= 64,
        decreases 64 - tries,
    {
        let sample: Vec3 = Vec3::new(
            random_symmetric_interval(),
            random_symmetric_interval(),
            random_symmetric_interval(),
        );
        let ls: i64 = sample.length_squared();
        if ONE / 4 <= ls && ls < ONE {
            return sample;
        }
        tries = tries + 1;
    }
    let fallback: Vec3 = Vec3::new(ONE / 2, 0, 0);
    proof {
        assert((fallback.x as int) * (fallback.x as int) == 0x4000_0000 && (fallback.y as int) * (
        fallback.y as int) == 0 && (fallback.z as int) * (fallback.z as int) == 0)
            by (nonlinear_arith)
            requires
                fallback.x as int == 32768,
                fallback.y as int == 0,
                fallback.z as int == 0,
        ;
    }
    fallback
}

/// A random direction of unit length up to rounding: a ball sample,
/// normalized.  The squared length is checked against its rounding band;
/// a draw that rounds outside it (which none is expected to) is replaced
/// by the unit x-axis vector, a defined fallback.
pub fn random_unit_vector() -> (v: Vec3)
    ensures
        unit_draw_ok(v),
{
    let s: Vec3 = random_vector_in_unit_sphere();
    let ls: i64 = s.length_squared();
    let len: i64 = q_sqrt(ls);
    proof {
        lemma_isqrt_monotone((16384 * 65536) as nat, (ls * 65536) as nat);
        crate::scalar::lemma_isqrt_exists((16384 * 65536) as nat);
        crate::scalar::lemma_isqrt_unique((16384 * 65536) as int, 32768, crate::scalar::isqrt_spec((16384 * 65536) as int));
        assert(crate::scalar::sqrt_bounds((16384 * 65536) as int, 32768));
        assert(len >= 32768);
    }
    let inv: i64 = q_div(ONE, len);
    proof {
        vstd::arithmetic::div_mod::lemma_div_is_ordered_by_denominator((ONE as int) * (
        ONE as int), 32768, len as int);
        vstd::arithmetic::div_mod::lemma_div_pos_is_pos((ONE as int) * (ONE as int), len as int);
        assert(0 <= inv <= 2 * ONE);
        lemma_q_mul_bound(s.x as int, inv as int, ONE as int, 2 * ONE as int);
        lemma_q_mul_bound(s.y as int, inv as int, ONE as int, 2 * ONE as int);
        lemma_q_mul_bound(s.z as int, inv as int, ONE as int, 2 * ONE as int);
    }
    let v: Vec3 = s.scaled(inv);
    let vls: i64 = v.length_squared();
    if ONE - 64 <= vls && vls <= ONE + 64 {
        v
    } else {
        let fallback: Vec3 = Vec3::new(ONE, 0, 0);
        proof {
            assert((fallback.x as int) * (fallback.x as int) == 0x1_0000_0000 && (
            fallback.y as int) * (fallback.y as int) == 0 && (fallback.z as int) * (
            fallback.z as int) == 0) by (nonlinear_arith)
                requires
                    fallback.x as int == 65536,
                    fallback.y as int == 0,
                    fallback.z as int == 0,
            ;
        }
        fallback
    }
}

/// A random unit-length direction on the same side of the surface as the
/// given normal: its dot product with the normal is nonnegative.
pub fn random_on_hemisphere(normal: Vec3) -> (v: Vec3)
    requires
        normal.wf(),
    ensures
        v.wf(),
        dot_spec(v, normal) >= 0,
{
    let on_unit_sphere: Vec3 = random_unit_vector();
    if on_unit_sphere.dot(normal) > 0 {
        on_unit_sphere
    } else {
        proof {
            crate::vector::lemma_dot_neg(on_unit_sphere, normal);
        }
        on_unit_sphere.neg()
    }
}

/// A diffuse scatter direction built from a unit-length draw: the sum of
/// the normal and the draw, with a nonzero rounded length.
pub open spec fn above_normal_unit_matches(normal: Vec3, u: Vec3, v: Vec3) -> bool {
    unit_draw_ok(u) && v == normal.add_spec(u) && v.length_squared_spec() > 0
}

/// A diffuse scatter direction built from a ball draw: the sum of the
/// normal and the draw, with a nonzero rounded length.
pub open spec fn above_normal_ball_matches(normal: Vec3, u: Vec3, v: Vec3) -> bool {
    ball_draw_ok(u) && v == normal.add_spec(u) && v.length_squared_spec() > 0
}

/// A scatter direction for diffuse bounces: the normal plus a random unit
/// vector, retried while the sum is degenerate; after the bounded retries
/// the normal itself stands in.
pub fn random_on_unit_sphere_above_normal(normal: Vec3) -> (v: Vec3)
    requires
        normal.wf(),
    ensures
        v.wf(),
        v == normal || exists|u: Vec3| #[trigger] above_normal_unit_matches(normal, u, v),
{
    let mut tries: u32 = 0;
    while tries < 64
        invariant
            tries <= 64,
            normal.wf(),
        decreases 64 - tries,
    {
        let on_unit_sphere: Vec3 = random_unit_vector();
        let above: Vec3 = on_unit_sphere.add(normal);
        if above.length_squared() > 0 {
            proof {
                assert(above_normal_unit_matches(normal, on_unit_sphere, above));
            }
            return above;
        }
        tries = tries + 1;
    }
    normal
}

/// As `random_on_unit_sphere_above_normal`, with the offset drawn from the
/// unit ball instead of the unit shell.
pub fn random_in_unit_sphere_above_normal(normal: Vec3) -> (v: Vec3)
    requires
        normal.wf(),
    ensures
        v.wf(),
        v == normal || exists|u: Vec3| #[trigger] above_normal_ball_matches(normal, u, v),
{
    let mut tries: u32 = 0;
    while tries < 64
        invariant
            tries <= 64,
            normal.wf(),
        decreases 64 - tries,
    {
        let in_unit_sphere: Vec3 = random_vector_in_unit_sphere();
        let above: Vec3 = in_unit_sphere.add(normal);
        if above.length_squared() > 0 {
            proof {
                assert(above_normal_ball_matches(normal, in_unit_sphere, above));
            }
            return above;
        }
        tries = tries + 1;
    }
    normal
}

/// A random point strictly within the unit disk in the xy-plane.
pub fn random_in_unit_disk() -> (v: Vec3)
    ensures
        v.wf(),
        -ONE <= v.x <= ONE,
        -ONE <= v.y <= ONE,
        v.z == 0,
        v.length_squared_spec() < ONE,
{
    let mut tries: u32 = 0;
    while tries < 64
        invariant
            tries <= 64,
        decreases 64 - tries,
    {
        let sample: Vec3 = Vec3::new(random_symmetric_interval(), random_symmetric_interval(), 0);
        if sample.length_squared() < ONE {
            return sample;
        }
        tries = tries + 1;
    }
    let fallback: Vec3 = Vec3::new(0, 0, 0);
    proof {
        assert((fallback.x as int) * (fallback.x as int) == 0 && (fallback.y as int) * (
        fallback.y as int) == 0 && (fallback.z as int) * (fallback.z as int) == 0)
            by (nonlinear_arith)
            requires
                fallback.x as int == 0,
                fallback.y as int == 0,
                fallback.z as int == 0,
        ;
    }
    fallback
}

/// A uniform sub-pixel jitter offset in `[-1/2, 1/2)^2`.
pub fn sample_square() -> (v: Vec3)
    ensures
        v.wf(),
        -ONE / 2 <= v.x < ONE / 2,
        -ONE / 2 <= v.y < ONE / 2,
        v.z == 0,
{
    let x: i64 = random_raw_unit() - ONE / 2;
    let y: i64 = random_raw_unit() - ONE / 2;
    Vec3::new(x, y, 0)
}

/// A uniform sample over the parallelogram spanned by `du` and `dv` at
/// `top_left`.
pub fn sample_square_3d(top_left: Vec3, du: Vec3, dv: Vec3) -> (v: Vec3)
    requires
        top_left.wf(),
        du.wf(),
        dv.wf(),
    ensures
        v.wf(),
        exists|r1: int, r2: int|
            sample_square_3d_matches(top_left, du, dv, r1, r2, v),
{
    let r1: i64 = random_raw_unit();
    let r2: i64 = random_raw_unit();
    let v: Vec3 = top_left.add(du.scaled(r1)).add(dv.scaled(r2));
    proof {
        assert(sample_square_3d_matches(top_left, du, dv, r1 as int, r2 as int, v));
    }
    v
}

/// The parallelogram sample for the given pair of unit-interval draws.
pub open spec fn sample_square_3d_matches(
    top_left: Vec3,
    du: Vec3,
    dv: Vec3,
    r1: int,
    r2: int,
    v: Vec3,
) -> bool {
    0 <= r1 < ONE && 0 <= r2 < ONE && v == top_left.add_spec(du.scaled_spec(r1)).add_spec(
        dv.scaled_spec(r2),
    )
}

} // verus!
