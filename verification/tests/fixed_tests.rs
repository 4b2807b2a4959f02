//! Fixed-point scalar arithmetic tests: 65536 is one.

use raytracer::fixed::{div_fp, isqrt_u128, mul_fp, sqrt_fp};

const S: i64 = 65536;

#[test]
fn multiplication_is_exact_on_whole_numbers() {
    assert_eq!(mul_fp(2 * S, 3 * S), 6 * S);
    assert_eq!(mul_fp(-2 * S, 3 * S), -6 * S);
    assert_eq!(mul_fp(-2 * S, -3 * S), 6 * S);
    assert_eq!(mul_fp(0, 3 * S), 0);
    // One half of one half, exactly representable.
    assert_eq!(mul_fp(S / 2, S / 2), S / 4);
}

#[test]
fn multiplication_truncates_toward_zero() {
    // The product of the two smallest positive quanta is far below one
    // quantum and truncates to zero, from both sides.
    assert_eq!(mul_fp(1, 1), 0);
    assert_eq!(mul_fp(-1, 1), 0);
}

#[test]
fn division_is_exact_on_whole_quotients() {
    assert_eq!(div_fp(6 * S, 3 * S), 2 * S);
    assert_eq!(div_fp(-6 * S, 3 * S), -2 * S);
    assert_eq!(div_fp(6 * S, -3 * S), -2 * S);
    assert_eq!(div_fp(-6 * S, -3 * S), 2 * S);
    // One third truncates toward zero.
    assert_eq!(div_fp(1 * S, 3 * S), 21845);
    assert_eq!(div_fp(-1 * S, 3 * S), -21845);
}

#[test]
fn square_roots_round_down() {
    assert_eq!(sqrt_fp(0), 0);
    assert_eq!(sqrt_fp(4 * S), 2 * S);
    assert_eq!(sqrt_fp(9 * S), 3 * S);
    // The square root of two in fixed point.
    assert_eq!(sqrt_fp(2 * S), 92681);
    assert_eq!(isqrt_u128(0), 0);
    assert_eq!(isqrt_u128(15), 3);
    assert_eq!(isqrt_u128(16), 4);
    assert_eq!(isqrt_u128(1 << 80), 1 << 40);
}
