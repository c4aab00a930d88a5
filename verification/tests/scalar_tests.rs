use raytracer::scalar::{q_add, q_clamp, q_div, q_max, q_min, q_mul, q_sqrt, q_sub, ONE, Q_MAX};

#[test]
fn mul_of_ones_is_one() {
    assert_eq!(q_mul(ONE, ONE), ONE);
    assert_eq!(q_mul(ONE, 0), 0);
    assert_eq!(q_mul(0, ONE), 0);
}

#[test]
fn mul_of_halves_is_quarter() {
    assert_eq!(q_mul(ONE / 2, ONE / 2), ONE / 4);
}

#[test]
fn mul_rounds_toward_zero() {
    // -3/65536 times 1/2 is -1.5/65536, rounded toward zero.
    assert_eq!(q_mul(-3, ONE / 2), -1);
    assert_eq!(q_mul(3, ONE / 2), 1);
}

#[test]
fn div_basics() {
    assert_eq!(q_div(ONE, 2 * ONE), ONE / 2);
    assert_eq!(q_div(3 * ONE, 2 * ONE), 3 * ONE / 2);
    assert_eq!(q_div(-ONE, 2 * ONE), -ONE / 2);
    assert_eq!(q_div(ONE, -2 * ONE), -ONE / 2);
}

#[test]
fn div_by_zero_returns_zero() {
    assert_eq!(q_div(ONE, 0), 0);
    assert_eq!(q_div(-5 * ONE, 0), 0);
}

#[test]
fn add_saturates_at_range_bound() {
    assert_eq!(q_add(Q_MAX, Q_MAX), Q_MAX);
    assert_eq!(q_sub(-Q_MAX, Q_MAX), -Q_MAX);
    assert_eq!(q_add(ONE, ONE), 2 * ONE);
}

#[test]
fn sqrt_exact_values() {
    assert_eq!(q_sqrt(0), 0);
    assert_eq!(q_sqrt(ONE), ONE);
    assert_eq!(q_sqrt(4 * ONE), 2 * ONE);
    assert_eq!(q_sqrt(ONE / 4), ONE / 2);
    assert_eq!(q_sqrt(-ONE), 0);
}

#[test]
fn sqrt_is_monotone_on_samples() {
    let mut prev: i64 = -1;
    let mut c: i64 = 0;
    while c <= 4 * ONE {
        let g = q_sqrt(c);
        assert!(g >= prev);
        prev = g;
        c += 1234;
    }
}

#[test]
fn min_max_clamp() {
    assert_eq!(q_min(3, 7), 3);
    assert_eq!(q_max(3, 7), 7);
    assert_eq!(q_clamp(-5, 0, ONE), 0);
    assert_eq!(q_clamp(2 * ONE, 0, ONE), ONE);
    assert_eq!(q_clamp(123, 0, ONE), 123);
}
