//! Signed 16.16 fixed-point scalar arithmetic.
//!
//! The `i64` value `v` represents the real number `v / SCALE`. Products and
//! quotients round toward zero, as the mathematical functions [`fmul`] and
//! [`fdiv`] state; square roots round down. All executable operations are
//! proved equal to those functions, so every computation built from them is
//! a mathematical function of its inputs.

use vstd::prelude::*;

verus! {

/// Number of fixed-point units that make up one: values carry 16 fraction bits.
pub const SCALE: i64 = 65536;

/// Magnitude of a mathematical integer.
pub open spec fn abs_i(a: int) -> int {
    if a >= 0 {
        a
    } else {
        -a
    }
}

/// Integer division that rounds toward zero (the rounding of the executable
/// operations), written over Euclidean division on magnitudes.
pub open spec fn tdiv(a: int, b: int) -> int {
    if (a >= 0) == (b >= 0) {
        abs_i(a) / abs_i(b)
    } else {
        -(abs_i(a) / abs_i(b))
    }
}

/// Product of two fixed-point scalars.
pub open spec fn fmul(a: int, b: int) -> int {
    tdiv(a * b, SCALE as int)
}

/// Quotient of two fixed-point scalars.
pub open spec fn fdiv(a: int, b: int) -> int {
    tdiv(a * SCALE, b)
}

/// Integer square root, rounded down; zero on negative input.
pub open spec fn sqrt_i(n: int) -> int
    decreases n,
{
    if n <= 0 {
        0
    } else {
        let h = sqrt_i(n / 4);
        if (2 * h + 1) * (2 * h + 1) <= n {
            2 * h + 1
        } else {
            2 * h
        }
    }
}

/// Square root of a nonnegative fixed-point scalar, in fixed point.
pub open spec fn fsqrt(a: int) -> int {
    sqrt_i(a * SCALE)
}

/// `sqrt_i` is the rounded-down square root: it is the unique `r >= 0` with
/// `r * r <= n < (r + 1) * (r + 1)`.
pub proof fn lemma_sqrt_i(n: int)
    requires
        n >= 0,
    ensures
        sqrt_i(n) >= 0,
        sqrt_i(n) * sqrt_i(n) <= n,
        n < (sqrt_i(n) + 1) * (sqrt_i(n) + 1),
    decreases n,
{
    if n > 0 {
        lemma_sqrt_i(n / 4);
        let h = sqrt_i(n / 4);
        assert(n == 4 * (n / 4) + n % 4) by (nonlinear_arith);
        assert(4 * (h * h) <= 4 * (n / 4)) by (nonlinear_arith)
            requires h * h <= n / 4;
        assert((2 * h) * (2 * h) == 4 * (h * h)) by (nonlinear_arith);
        assert(4 * (n / 4) < 4 * ((h + 1) * (h + 1))) by (nonlinear_arith)
            requires n / 4 < (h + 1) * (h + 1);
        assert(4 * ((h + 1) * (h + 1)) == (2 * h + 2) * (2 * h + 2)) by (nonlinear_arith);
    }
}

/// An upper bound on the argument gives an upper bound on the root.
pub proof fn lemma_sqrt_i_upper(n: int, b: int)
    requires
        0 <= n,
        0 <= b,
        n < (b + 1) * (b + 1),
    ensures
        sqrt_i(n) <= b,
{
    lemma_sqrt_i(n);
    let r = sqrt_i(n);
    if r > b {
        assert((b + 1) * (b + 1) <= r * r) by (nonlinear_arith)
            requires 0 <= b, b + 1 <= r;
    }
}

/// Magnitudes multiply: `|a * b| == |a| * |b|`, and bounds on the factors
/// bound the product.
pub proof fn lemma_abs_mul(a: int, b: int, aa: int, bb: int)
    requires
        abs_i(a) <= aa,
        abs_i(b) <= bb,
    ensures
        abs_i(a * b) == abs_i(a) * abs_i(b),
        abs_i(a * b) <= aa * bb,
{
    assert(abs_i(a * b) == abs_i(a) * abs_i(b)) by (nonlinear_arith);
    assert(abs_i(a) * abs_i(b) <= aa * bb) by (nonlinear_arith)
        requires 0 <= abs_i(a) <= aa, 0 <= abs_i(b) <= bb;
}

/// A fixed-point product of bounded factors is bounded: `|fmul(a, b)| <= aa * bb / SCALE`.
pub proof fn lemma_fmul_bound(a: int, b: int, aa: int, bb: int)
    requires
        abs_i(a) <= aa,
        abs_i(b) <= bb,
    ensures
        abs_i(fmul(a, b)) <= aa * bb / (SCALE as int),
        abs_i(fmul(a, b)) == abs_i(a * b) / (SCALE as int),
{
    lemma_abs_mul(a, b, aa, bb);
    vstd::arithmetic::div_mod::lemma_div_is_ordered(abs_i(a * b), aa * bb, SCALE as int);
}

/// A fixed-point quotient is bounded once the numerator is bounded and the
/// denominator is bounded away from zero.
pub proof fn lemma_fdiv_bound(a: int, b: int, aa: int, bmin: int)
    requires
        abs_i(a) <= aa,
        0 < bmin <= abs_i(b),
    ensures
        abs_i(fdiv(a, b)) <= aa * (SCALE as int) / bmin,
        abs_i(fdiv(a, b)) == abs_i(a) * (SCALE as int) / abs_i(b),
{
    lemma_abs_mul(a, SCALE as int, aa, SCALE as int);
    vstd::arithmetic::div_mod::lemma_div_is_ordered(
        abs_i(a) * (SCALE as int),
        aa * (SCALE as int),
        abs_i(b),
    );
    vstd::arithmetic::div_mod::lemma_div_is_ordered_by_denominator(
        aa * (SCALE as int),
        bmin,
        abs_i(b),
    );
    assert(abs_i(a) * (SCALE as int) <= aa * (SCALE as int)) by (nonlinear_arith)
        requires 0 <= abs_i(a) <= aa;
}

/// Truncating division by a positive divisor does not decrease when the
/// dividend grows.
pub proof fn lemma_tdiv_mono(x: int, y: int, d: int)
    requires
        x <= y,
        0 < d,
    ensures
        tdiv(x, d) <= tdiv(y, d),
{
    if x >= 0 {
        vstd::arithmetic::div_mod::lemma_div_is_ordered(x, y, d);
    } else if y < 0 {
        vstd::arithmetic::div_mod::lemma_div_is_ordered(-y, -x, d);
    } else {
        vstd::arithmetic::div_mod::lemma_div_pos_is_pos(y, d);
        vstd::arithmetic::div_mod::lemma_div_pos_is_pos(-x, d);
    }
}

/// A fixed-point product by a nonnegative factor does not decrease when the
/// other factor grows.
pub proof fn lemma_fmul_mono(a: int, b: int, f: int)
    requires
        a <= b,
        0 <= f,
    ensures
        fmul(a, f) <= fmul(b, f),
{
    assert(a * f <= b * f) by (nonlinear_arith)
        requires a <= b, 0 <= f;
    lemma_tdiv_mono(a * f, b * f, SCALE as int);
}

/// Scaling by a fraction in `[0, 1]` stays between zero and the scaled
/// value.
pub proof fn lemma_fmul_frac(w: int, f: int)
    requires
        0 <= f <= 65536,
    ensures
        w >= 0 ==> 0 <= fmul(w, f) <= w,
        w < 0 ==> w <= fmul(w, f) <= 0,
{
    if w >= 0 {
        assert(0 <= w * f <= w * 65536) by (nonlinear_arith)
            requires 0 <= f <= 65536, 0 <= w;
        lemma_tdiv_mono(0, w * f, SCALE as int);
        lemma_tdiv_mono(w * f, w * 65536, SCALE as int);
        vstd::arithmetic::div_mod::lemma_div_multiples_vanish(w, 65536);
        assert(65536 * w == w * 65536) by (nonlinear_arith);
    } else {
        assert(w * 65536 <= w * f <= 0) by (nonlinear_arith)
            requires 0 <= f <= 65536, w < 0;
        lemma_tdiv_mono(w * f, 0, SCALE as int);
        lemma_tdiv_mono(w * 65536, w * f, SCALE as int);
        vstd::arithmetic::div_mod::lemma_div_multiples_vanish(-w, 65536);
        assert(65536 * (-w) == -(w * 65536)) by (nonlinear_arith);
        assert(tdiv(w * 65536, 65536) == w);
    }
}

/// Negating the dividend negates a truncating quotient.
pub proof fn lemma_tdiv_neg(x: int, d: int)
    requires
        0 < d,
    ensures
        tdiv(-x, d) == -tdiv(x, d),
{
}

/// Negating one factor negates a fixed-point product.
pub proof fn lemma_fmul_neg(a: int, b: int)
    ensures
        fmul(-a, b) == -fmul(a, b),
{
    assert((-a) * b == -(a * b)) by (nonlinear_arith);
    lemma_tdiv_neg(a * b, SCALE as int);
}

/// Clamps a scalar into `[lo, hi]`.
pub fn clamp_i64(v: i64, lo: i64, hi: i64) -> (r: i64)
    requires
        lo <= hi,
    ensures
        r == vstd::math::min(vstd::math::max(v as int, lo as int), hi as int),
{
    if v < lo {
        lo
    } else if v > hi {
        hi
    } else {
        v
    }
}

/// Magnitude of an `i64`, as a `u64`.
pub fn abs64(a: i64) -> (r: u64)
    ensures
        r == abs_i(a as int),
{
    if a >= 0 {
        a as u64
    } else {
        (-(a as i128)) as u64
    }
}

/// Fixed-point multiplication. The precondition asks only that the true
/// result fits in an `i64`.
pub fn mul_fp(a: i64, b: i64) -> (r: i64)
    requires
        abs_i(fmul(a as int, b as int)) <= i64::MAX as int,
    ensures
        r == fmul(a as int, b as int),
{
    let am = abs64(a);
    let bm = abs64(b);
    proof {
        lemma_abs_mul(a as int, b as int, abs_i(a as int), abs_i(b as int));
    }
    let p: u128 = (am as u128) * (bm as u128) / 65536;
    proof {
        assert((((a as int) < 0) != ((b as int) < 0)) ==> (a as int) * (b as int) <= 0)
            by (nonlinear_arith);
        assert((((a as int) < 0) == ((b as int) < 0)) ==> (a as int) * (b as int) >= 0)
            by (nonlinear_arith);
    }
    if (a < 0) != (b < 0) {
        -(p as i64)
    } else {
        p as i64
    }
}

/// Fixed-point division, rounding toward zero. The precondition asks that
/// the divisor is nonzero and that the true quotient fits in an `i64`.
pub fn div_fp(a: i64, b: i64) -> (r: i64)
    requires
        b != 0,
        abs_i(fdiv(a as int, b as int)) <= i64::MAX as int,
    ensures
        r == fdiv(a as int, b as int),
{
    let am = abs64(a);
    let bm = abs64(b);
    proof {
        lemma_abs_mul(a as int, SCALE as int, abs_i(a as int), SCALE as int);
    }
    let p: u128 = (am as u128) * 65536 / (bm as u128);
    if (a < 0) != (b < 0) {
        -(p as i64)
    } else {
        p as i64
    }
}

/// The larger of two scalars.
pub fn max_i64(a: i64, b: i64) -> (r: i64)
    ensures
        r == vstd::math::max(a as int, b as int),
{
    if a >= b {
        a
    } else {
        b
    }
}

/// The smaller of two scalars.
pub fn min_i64(a: i64, b: i64) -> (r: i64)
    ensures
        r == vstd::math::min(a as int, b as int),
{
    if a <= b {
        a
    } else {
        b
    }
}

/// Integer square root by halving the argument two bits at a time.
pub fn isqrt_u128(n: u128) -> (r: u128)
    requires
        n < 0x4000_0000_0000_0000_0000_0000_0000_0000u128,
    ensures
        r == sqrt_i(n as int),
    decreases n,
{
    if n == 0 {
        0
    } else {
        let h = isqrt_u128(n / 4);
        proof {
            lemma_sqrt_i((n / 4) as int);
            assert(4 * ((n as int) / 4) <= n as int && (n as int) < 4 * ((n as int) / 4) + 4)
                by (nonlinear_arith);
            lemma_sqrt_i_upper((n / 4) as int, 4611686018427387903int);
        }
        let c = 2 * h + 1;
        proof {
            assert((c as int) * (c as int) <= 85070591730234615847396907784232501249int)
                by (nonlinear_arith)
                requires 0 <= c as int <= 9223372036854775807int;
        }
        if c * c <= n {
            c
        } else {
            2 * h
        }
    }
}

/// Fixed-point square root of a nonnegative scalar.
pub fn sqrt_fp(a: i64) -> (r: i64)
    requires
        0 <= a,
    ensures
        r == fsqrt(a as int),
        0 <= r,
{
    let n: u128 = (a as u128) * 65536;
    proof {
        lemma_sqrt_i(n as int);
        lemma_sqrt_i_upper(n as int, 1099511627776int);
    }
    isqrt_u128(n) as i64
}

} // verus!
