//! Viewport helpers for normalized device coordinates: mapping NDC points
//! to pixel coordinates, the viewport test, and segment intersection by
//! Cramer's rule, used for clipping lines against the viewport edges.

use vstd::prelude::*;
use crate::scalar::{
    q_ok, q_add_spec, q_sub_spec, q_mul_spec, q_div_spec, tdiv_spec,
    q_add, q_sub, q_mul, q_div, ONE,
};
use crate::vector::{Vec2q, Vec2i, i32_sat_spec, q_to_i32};

verus! {

/// The pixel under a normalized-device-coordinate point: the viewport's
/// bottom-left corner is (-1, -1) and its top-right corner is (1, 1).
pub open spec fn ndc_to_image_spec(width: int, height: int, point: Vec2q) -> (int, int) {
    let xscale = q_div_spec(width * (ONE as int), 2 * ONE);
    let yscale = q_div_spec(height * (ONE as int), 2 * ONE);
    (
        i32_sat_spec(
            tdiv_spec(q_mul_spec(q_add_spec(ONE as int, point.x as int), xscale), ONE as int),
        ),
        i32_sat_spec(
            tdiv_spec(q_mul_spec(q_add_spec(ONE as int, point.y as int), yscale), ONE as int),
        ),
    )
}

/// Normalized device coordinates to image coordinates; the point is
/// expected to lie between -1 and 1 on each axis.
pub fn ndc_to_image(width: usize, height: usize, point: Vec2q) -> (r: Vec2i)
    requires
        width <= 0x4000_0000,
        height <= 0x4000_0000,
        point.wf(),
    ensures
        r.x as int == ndc_to_image_spec(width as int, height as int, point).0,
        r.y as int == ndc_to_image_spec(width as int, height as int, point).1,
{
    let xscale: i64 = q_div((width as i64) * ONE, 2 * ONE);
    let yscale: i64 = q_div((height as i64) * ONE, 2 * ONE);
    Vec2i {
        x: q_to_i32(q_mul(q_add(ONE, point.x), xscale)),
        y: q_to_i32(q_mul(q_add(ONE, point.y), yscale)),
    }
}

/// Whether a normalized-device-coordinate point lies within the viewport
/// square, inclusively.
pub fn in_viewport(point: Vec2q) -> (r: bool)
    ensures
        r == (-ONE <= point.x && point.x <= ONE && -ONE <= point.y && point.y <= ONE),
{
    !(point.x < -ONE || point.x > ONE || point.y < -ONE || point.y > ONE)
}

/// Segment intersection by Cramer's rule: whether the segments
/// `start1..end1` and `start2..end2` intersect, and where the first
/// segment's line reaches the crossing parameter.
pub open spec fn line_intersection_spec(start1: Vec2q, end1: Vec2q, start2: Vec2q, end2: Vec2q) -> (
    bool,
    Vec2q,
) {
    let a1 = q_sub_spec(end1.x as int, start1.x as int);
    let b1 = q_sub_spec(start2.x as int, end2.x as int);
    let c1 = q_sub_spec(start2.x as int, start1.x as int);
    let a2 = q_sub_spec(end1.y as int, start1.y as int);
    let b2 = q_sub_spec(start2.y as int, end2.y as int);
    let c2 = q_sub_spec(start2.y as int, start1.y as int);
    let denom = q_sub_spec(q_mul_spec(a1, b2), q_mul_spec(a2, b1));
    let s = q_div_spec(q_sub_spec(q_mul_spec(c1, b2), q_mul_spec(c2, b1)), denom);
    let t = q_div_spec(q_sub_spec(q_mul_spec(a1, c2), q_mul_spec(a2, c1)), denom);
    let intersection_exists = !(s < 0 || s > ONE || t < 0 || t > ONE || denom == 0);
    let intersection = Vec2q {
        x: q_add_spec(start1.x as int, q_mul_spec(s, q_sub_spec(end1.x as int, start1.x as int)))
            as i64,
        y: q_add_spec(start1.y as int, q_mul_spec(s, q_sub_spec(end1.y as int, start1.y as int)))
            as i64,
    };
    (intersection_exists, intersection)
}

/// Whether two segments intersect, and the crossing point on the first
/// segment's line; helps with out-of-bounds line drawing.
pub fn line_intersection(start1: Vec2q, end1: Vec2q, start2: Vec2q, end2: Vec2q) -> (r: (
    bool,
    Vec2q,
))
    requires
        start1.wf(),
        end1.wf(),
        start2.wf(),
        end2.wf(),
    ensures
        r.0 == line_intersection_spec(start1, end1, start2, end2).0,
        r.1 == line_intersection_spec(start1, end1, start2, end2).1,
        r.1.wf(),
{
    let a1: i64 = q_sub(end1.x, start1.x);
    let b1: i64 = q_sub(start2.x, end2.x);
    let c1: i64 = q_sub(start2.x, start1.x);
    let a2: i64 = q_sub(end1.y, start1.y);
    let b2: i64 = q_sub(start2.y, end2.y);
    let c2: i64 = q_sub(start2.y, start1.y);
    let denom: i64 = q_sub(q_mul(a1, b2), q_mul(a2, b1));
    let s: i64 = q_div(q_sub(q_mul(c1, b2), q_mul(c2, b1)), denom);
    let t: i64 = q_div(q_sub(q_mul(a1, c2), q_mul(a2, c1)), denom);
    let intersection_exists: bool = !(s < 0 || s > ONE || t < 0 || t > ONE || denom == 0);
    let intersection = Vec2q {
        x: q_add(start1.x, q_mul(s, q_sub(end1.x, start1.x))),
        y: q_add(start1.y, q_mul(s, q_sub(end1.y, start1.y))),
    };
    (intersection_exists, intersection)
}

} // verus!
