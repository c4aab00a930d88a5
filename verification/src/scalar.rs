//! The scalar type of the renderer: binary fixed point with 16 fractional
//! bits, stored in an `i64`.
//!
//! Every operation saturates to the symmetric range `[-Q_MAX, Q_MAX]` and is
//! therefore total: no input can make it overflow or panic.  Division by zero
//! and the square root of a negative number return 0, the renderer's defined
//! fallback for degenerate numeric cases.  Each executable operation is
//! specified exactly by a spec-level model over `int`.

use vstd::prelude::*;

verus! {

/// One whole unit: the fixed-point encoding of 1.
pub const ONE: i64 = 65536;

/// The saturation bound of the scalar range (2^46 raw, about 10^9 units).
pub const Q_MAX: i64 = 70368744177664;

/// A value within the saturated scalar range.
pub open spec fn q_ok(a: int) -> bool {
    -Q_MAX <= a <= Q_MAX
}

/// Saturation to the scalar range.
pub open spec fn sat_spec(v: int) -> int {
    if v > Q_MAX {
        Q_MAX as int
    } else if v < -Q_MAX {
        -Q_MAX as int
    } else {
        v
    }
}

/// Division by the scale factor, rounding toward zero.
pub open spec fn scale_dn_spec(p: int) -> int {
    if p >= 0 {
        p / (ONE as int)
    } else {
        -((-p) / (ONE as int))
    }
}

/// Division rounding toward zero, for a nonzero divisor.
pub open spec fn tdiv_spec(p: int, d: int) -> int {
    let pa = if p >= 0 { p } else { -p };
    let da = if d >= 0 { d } else { -d };
    if (p >= 0) == (d >= 0) {
        pa / da
    } else {
        -(pa / da)
    }
}

pub open spec fn q_add_spec(a: int, b: int) -> int {
    sat_spec(a + b)
}

pub open spec fn q_sub_spec(a: int, b: int) -> int {
    sat_spec(a - b)
}

pub open spec fn q_neg_spec(a: int) -> int {
    sat_spec(-a)
}

pub open spec fn q_mul_spec(a: int, b: int) -> int {
    sat_spec(scale_dn_spec(a * b))
}

pub open spec fn q_div_spec(a: int, b: int) -> int {
    if b == 0 {
        0
    } else {
        sat_spec(tdiv_spec(a * (ONE as int), b))
    }
}

pub open spec fn q_min_spec(a: int, b: int) -> int {
    if a <= b {
        a
    } else {
        b
    }
}

pub open spec fn q_max_spec(a: int, b: int) -> int {
    if a >= b {
        a
    } else {
        b
    }
}

pub open spec fn q_clamp_spec(v: int, lo: int, hi: int) -> int {
    if v < lo {
        lo
    } else if v > hi {
        hi
    } else {
        v
    }
}

/// `r` is the integer square root of `n`.
pub open spec fn sqrt_bounds(n: int, r: int) -> bool {
    0 <= r && r * r <= n && n < (r + 1) * (r + 1)
}

/// The integer square root, as a spec-level value.
pub open spec fn isqrt_spec(n: int) -> int {
    choose|r: int| #[trigger] sqrt_bounds(n, r)
}

/// The fixed-point square root: 0 for negative input, else the rounded-down
/// square root of the value (`isqrt` of the raw value times the scale).
pub open spec fn q_sqrt_spec(a: int) -> int {
    if a <= 0 {
        0
    } else {
        isqrt_spec(a * (ONE as int))
    }
}

/// The integer square root exists for every nonnegative integer.
pub proof fn lemma_isqrt_exists(n: nat)
    ensures
        sqrt_bounds(n as int, isqrt_spec(n as int)),
    decreases n,
{
    if n == 0 {
        assert(sqrt_bounds(0, 0));
    } else {
        lemma_isqrt_exists((n - 1) as nat);
        let p = isqrt_spec(n - 1);
        if n < (p + 1) * (p + 1) {
            assert(sqrt_bounds(n as int, p));
        } else {
            assert((p + 1) * (p + 1) <= n);
            assert(n - 1 < (p + 1) * (p + 1));
            assert(n as int == (p + 1) * (p + 1));
            assert((p + 2) * (p + 2) > n) by (nonlinear_arith)
                requires
                    n as int == (p + 1) * (p + 1),
                    p >= 0,
            ;
            assert(sqrt_bounds(n as int, p + 1));
        }
    }
}

/// The integer square root is unique.
pub proof fn lemma_isqrt_unique(n: int, r1: int, r2: int)
    requires
        sqrt_bounds(n, r1),
        sqrt_bounds(n, r2),
    ensures
        r1 == r2,
{
    if r1 < r2 {
        assert((r1 + 1) * (r1 + 1) <= r2 * r2) by (nonlinear_arith)
            requires
                0 <= r1,
                r1 < r2,
        ;
    }
    if r2 < r1 {
        assert((r2 + 1) * (r2 + 1) <= r1 * r1) by (nonlinear_arith)
            requires
                0 <= r2,
                r2 < r1,
        ;
    }
}

/// The integer square root is monotone.
pub proof fn lemma_isqrt_monotone(a: nat, b: nat)
    requires
        a <= b,
    ensures
        isqrt_spec(a as int) <= isqrt_spec(b as int),
{
    lemma_isqrt_exists(a);
    lemma_isqrt_exists(b);
    let ra = isqrt_spec(a as int);
    let rb = isqrt_spec(b as int);
    if ra > rb {
        assert((rb + 1) * (rb + 1) <= ra * ra) by (nonlinear_arith)
            requires
                0 <= rb,
                rb < ra,
        ;
    }
}

/// Division rounding toward zero is monotone in the numerator, for a
/// positive divisor.
pub proof fn lemma_tdiv_monotone(x: int, y: int, d: int)
    requires
        x <= y,
        d > 0,
    ensures
        tdiv_spec(x, d) <= tdiv_spec(y, d),
{
    if 0 <= x {
        vstd::arithmetic::div_mod::lemma_div_is_ordered(x, y, d);
    } else if y < 0 {
        vstd::arithmetic::div_mod::lemma_div_is_ordered(-y, -x, d);
    } else {
        vstd::arithmetic::div_mod::lemma_div_pos_is_pos(-x, d);
        vstd::arithmetic::div_mod::lemma_div_pos_is_pos(y, d);
    }
}

/// Fixed-point division is monotone in the numerator, for a positive divisor.
pub proof fn lemma_q_div_monotone(x: int, y: int, d: int)
    requires
        x <= y,
        d > 0,
    ensures
        q_div_spec(x, d) <= q_div_spec(y, d),
{
    lemma_tdiv_monotone(x * (ONE as int), y * (ONE as int), d);
}

/// A bound on a fixed-point product from bounds on its operands.
pub proof fn lemma_q_mul_bound(a: int, b: int, m: int, n: int)
    requires
        -m <= a <= m,
        -n <= b <= n,
    ensures
        -sat_spec((m * n) / (ONE as int)) <= q_mul_spec(a, b) <= sat_spec((m * n) / (ONE as int)),
{
    assert(-(m * n) <= a * b && a * b <= m * n) by (nonlinear_arith)
        requires
            -m <= a <= m,
            -n <= b <= n,
    ;
    let p = a * b;
    let mn = m * n;
    if p >= 0 {
        vstd::arithmetic::div_mod::lemma_div_is_ordered(p, mn, ONE as int);
        vstd::arithmetic::div_mod::lemma_div_pos_is_pos(p, ONE as int);
    } else {
        vstd::arithmetic::div_mod::lemma_div_is_ordered(-p, mn, ONE as int);
        vstd::arithmetic::div_mod::lemma_div_pos_is_pos(-p, ONE as int);
    }
}

/// Multiplying by 1 is exact.
pub proof fn lemma_q_mul_one(x: int)
    requires
        q_ok(x),
    ensures
        q_mul_spec(x, ONE as int) == x,
        q_mul_spec(ONE as int, x) == x,
{
    assert(x * (ONE as int) == (ONE as int) * x) by (nonlinear_arith);
    vstd::arithmetic::div_mod::lemma_div_multiples_vanish(x, ONE as int);
    if x < 0 {
        vstd::arithmetic::div_mod::lemma_div_multiples_vanish(-x, ONE as int);
        assert(-(x * (ONE as int)) == (ONE as int) * (-x)) by (nonlinear_arith);
    }
}

/// Multiplying by -1 is exact negation.
pub proof fn lemma_q_mul_neg_one(x: int)
    requires
        q_ok(x),
    ensures
        q_mul_spec(x, -(ONE as int)) == -x,
{
    assert(x * (-(ONE as int)) == -(x * (ONE as int))) by (nonlinear_arith);
    vstd::arithmetic::div_mod::lemma_div_multiples_vanish(x, ONE as int);
    assert(x * (ONE as int) == (ONE as int) * x) by (nonlinear_arith);
    if x < 0 {
        vstd::arithmetic::div_mod::lemma_div_multiples_vanish(-x, ONE as int);
        assert(-(x * (ONE as int)) == (ONE as int) * (-x)) by (nonlinear_arith);
    }
}

/// Rescaling a multiple of the scale factor recovers the multiplier
/// exactly.
pub proof fn lemma_scale_dn_multiple(k: int)
    ensures
        scale_dn_spec(k * (ONE as int)) == k,
{
    if k >= 0 {
        assert(k * (ONE as int) == (ONE as int) * k) by (nonlinear_arith);
        vstd::arithmetic::div_mod::lemma_div_multiples_vanish(k, ONE as int);
    } else {
        assert(-(k * (ONE as int)) == (ONE as int) * (-k)) by (nonlinear_arith);
        vstd::arithmetic::div_mod::lemma_div_multiples_vanish(-k, ONE as int);
    }
}

/// On whole-unit operands the fixed-point product is exact: no rounding,
/// and no saturation within these bounds.
pub proof fn lemma_q_mul_exact(xu: int, yu: int)
    requires
        -0x4000 <= xu <= 0x4000,
        -0x4000 <= yu <= 0x4000,
    ensures
        q_mul_spec(xu * (ONE as int), yu * (ONE as int)) == (xu * yu) * (ONE as int),
{
    let k = xu * yu;
    assert((xu * (ONE as int)) * (yu * (ONE as int)) == (k * (ONE as int)) * (ONE as int))
        by (nonlinear_arith)
        requires
            k == xu * yu,
    ;
    lemma_scale_dn_multiple(k * (ONE as int));
    assert(-0x1000_0000 <= k <= 0x1000_0000) by (nonlinear_arith)
        requires
            k == xu * yu,
            -0x4000 <= xu <= 0x4000,
            -0x4000 <= yu <= 0x4000,
    ;
}

/// The square root of 1 is 1.
pub proof fn lemma_q_sqrt_one()
    ensures
        q_sqrt_spec(ONE as int) == ONE,
{
    assert(sqrt_bounds((ONE as int) * (ONE as int), ONE as int));
    lemma_isqrt_exists(((ONE as int) * (ONE as int)) as nat);
    lemma_isqrt_unique((ONE as int) * (ONE as int), ONE as int, isqrt_spec((ONE as int) * (
    ONE as int)));
}

/// The fixed-point square root is monotone.
pub proof fn lemma_q_sqrt_monotone(a: int, b: int)
    requires
        a <= b,
    ensures
        q_sqrt_spec(a) <= q_sqrt_spec(b),
{
    if b <= 0 {
    } else if a <= 0 {
        lemma_isqrt_exists((b * (ONE as int)) as nat);
    } else {
        lemma_isqrt_monotone((a * (ONE as int)) as nat, (b * (ONE as int)) as nat);
    }
}

/// The fixed-point square root is never negative.
pub proof fn lemma_q_sqrt_nonneg(a: int)
    ensures
        q_sqrt_spec(a) >= 0,
{
    if a > 0 {
        lemma_isqrt_exists((a * (ONE as int)) as nat);
    }
}

/// Saturate a wide intermediate value back into the scalar range.
pub fn q_sat(v: i128) -> (r: i64)
    ensures
        r as int == sat_spec(v as int),
        q_ok(r as int),
{
    if v > Q_MAX as i128 {
        Q_MAX
    } else if v < -(Q_MAX as i128) {
        -Q_MAX
    } else {
        v as i64
    }
}

/// Saturating fixed-point addition.
pub fn q_add(a: i64, b: i64) -> (r: i64)
    ensures
        r as int == q_add_spec(a as int, b as int),
        q_ok(r as int),
{
    q_sat((a as i128) + (b as i128))
}

/// Saturating fixed-point subtraction.
pub fn q_sub(a: i64, b: i64) -> (r: i64)
    ensures
        r as int == q_sub_spec(a as int, b as int),
        q_ok(r as int),
{
    q_sat((a as i128) - (b as i128))
}

/// Saturating fixed-point negation.
pub fn q_neg(a: i64) -> (r: i64)
    ensures
        r as int == q_neg_spec(a as int),
        q_ok(r as int),
{
    q_sat(-(a as i128))
}

/// Divide a wide product by the scale factor, rounding toward zero.
fn scale_dn(p: i128) -> (r: i128)
    requires
        p > i128::MIN,
    ensures
        r as int == scale_dn_spec(p as int),
{
    if p >= 0 {
        (((p as u128) / (ONE as u128)) as i128)
    } else {
        let m: u128 = (-p) as u128;
        -((m / (ONE as u128)) as i128)
    }
}

/// Divide a wide intermediate sum of products by the scale factor, rounding
/// toward zero.
pub fn scale_dn_pub(p: i128) -> (r: i128)
    requires
        p > i128::MIN,
    ensures
        r as int == scale_dn_spec(p as int),
{
    scale_dn(p)
}

/// Saturating fixed-point multiplication.
pub fn q_mul(a: i64, b: i64) -> (r: i64)
    ensures
        r as int == q_mul_spec(a as int, b as int),
        q_ok(r as int),
{
    assert((a as int) * (b as int) <= 0x4000_0000_0000_0000_0000_0000_0000_0000
        && (a as int) * (b as int) > -0x4000_0000_0000_0000_0000_0000_0000_0000) by (nonlinear_arith)
        requires
            -0x8000_0000_0000_0000 <= a as int <= 0x7fff_ffff_ffff_ffff,
            -0x8000_0000_0000_0000 <= b as int <= 0x7fff_ffff_ffff_ffff,
    ;
    let p: i128 = (a as i128) * (b as i128);
    q_sat(scale_dn(p))
}

/// Saturating fixed-point division; division by zero returns 0.
pub fn q_div(a: i64, b: i64) -> (r: i64)
    ensures
        r as int == q_div_spec(a as int, b as int),
        q_ok(r as int),
{
    if b == 0 {
        0
    } else {
        let pw: i128 = (a as i128) * 65536i128;
        let pa: u128 = if pw >= 0 {
            pw as u128
        } else {
            (-pw) as u128
        };
        let da: u128 = if b >= 0 {
            b as u128
        } else {
            (-(b as i128)) as u128
        };
        let m: u128 = pa / da;
        if (pw >= 0) == (b >= 0) {
            q_sat(m as i128)
        } else {
            q_sat(-(m as i128))
        }
    }
}

/// The smaller of two scalars.
pub fn q_min(a: i64, b: i64) -> (r: i64)
    ensures
        r as int == q_min_spec(a as int, b as int),
{
    if a <= b {
        a
    } else {
        b
    }
}

/// The larger of two scalars.
pub fn q_max(a: i64, b: i64) -> (r: i64)
    ensures
        r as int == q_max_spec(a as int, b as int),
{
    if a >= b {
        a
    } else {
        b
    }
}

/// Clamp a scalar into `[lo, hi]`.
pub fn q_clamp(v: i64, lo: i64, hi: i64) -> (r: i64)
    requires
        lo <= hi,
    ensures
        r as int == q_clamp_spec(v as int, lo as int, hi as int),
{
    if v < lo {
        lo
    } else if v > hi {
        hi
    } else {
        v
    }
}

/// The rounded-down square root of a nonnegative integer, by bisection.
fn isqrt(n: u64) -> (r: u64)
    requires
        n <= 0x4000_0000_0000_0000,
    ensures
        sqrt_bounds(n as int, r as int),
{
    if n == 0 {
        return 0;
    }
    let mut lo: u64 = 0;
    let mut hi: u64 = 0x1_0000_0000;
    assert((hi * hi) as int > n as int) by (nonlinear_arith)
        requires
            hi == 0x1_0000_0000u64,
            n <= 0x4000_0000_0000_0000u64,
    ;
    while lo + 1 < hi
        invariant
            lo < hi,
            hi <= 0x1_0000_0000,
            (lo as int) * (lo as int) <= n as int,
            (n as int) < (hi as int) * (hi as int),
        decreases hi - lo,
    {
        let mid: u64 = lo + (hi - lo) / 2;
        assert((mid as int) * (mid as int) <= 0x1_0000_0000_0000_0000) by (nonlinear_arith)
            requires
                0 <= mid as int <= 0x1_0000_0000,
        ;
        if (mid as u128) * (mid as u128) <= n as u128 {
            lo = mid;
        } else {
            hi = mid;
        }
    }
    lo
}

/// The fixed-point square root.  Exactly the rounded-down square root of the
/// represented value; 0 for negative input.
pub fn q_sqrt(a: i64) -> (r: i64)
    requires
        a <= Q_MAX,
    ensures
        r as int == q_sqrt_spec(a as int),
        0 <= r <= Q_MAX,
{
    if a <= 0 {
        0
    } else {
        let n: u64 = (a as u64) * 65536u64;
        let r: u64 = isqrt(n);
        proof {
            lemma_isqrt_exists(n as nat);
            lemma_isqrt_unique(n as int, r as int, isqrt_spec(n as int));
            assert((r as int) * (r as int) <= n as int);
            assert(r <= 0x8000_0000u64) by (nonlinear_arith)
                requires
                    (r as int) * (r as int) <= n as int,
                    n <= 0x4000_0000_0000_0000u64,
                    r >= 0,
            ;
        }
        r as i64
    }
}

} // verus!
