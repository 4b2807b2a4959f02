//! Three-component vectors over fixed-point scalars.
//!
//! [`Vec3`] is a general vector (a [`Pnt3`] is a `Vec3` used positionally);
//! [`UnitVec3`] carries the invariant that its length is one up to the
//! quantization tolerance [`UNIT_TOL`]. The mathematical model of a vector is
//! [`V3`], a triple of unbounded integers; every executable operation is
//! proved equal to its model function.

use vstd::prelude::*;
use crate::fixed::{
    abs_i, div_fp, fdiv, fmul, fsqrt, isqrt_u128, lemma_fdiv_bound, lemma_fmul_bound,
    lemma_sqrt_i, lemma_sqrt_i_upper, mul_fp, sqrt_fp, sqrt_i, SCALE,
};

verus! {

/// Largest magnitude accepted by the dot product (and so by the vector
/// operations feeding it): three squared terms must stay inside `i64`.
pub const VMAX: i64 = 274877906944;

/// Largest coordinate magnitude of stored scene geometry.
pub const GEOM_MAX: i64 = 2147483648;

/// Largest magnitude accepted by `normalize`: three squared full-precision
/// terms must stay inside `u128`.
pub const NORM_MAX: i64 = 144115188075855872;

/// How far the squared length of a unit vector may sit from one, in fixed
/// point units, due to quantization of `normalize`.
pub const UNIT_TOL: i64 = 1024;

/// Mathematical model of a vector: an unbounded integer per component, each
/// denoting the real number `value / SCALE`.
pub struct V3 {
    pub x: int,
    pub y: int,
    pub z: int,
}

/// A vector of three fixed-point scalars.
#[derive(Debug, Clone, Copy, PartialEq, Eq, Structural)]
pub struct Vec3 {
    pub x: i64,
    pub y: i64,
    pub z: i64,
}

/// A point is a vector used positionally.
pub type Pnt3 = Vec3;

/// A vector whose length is one up to [`UNIT_TOL`].
#[derive(Debug, Clone, Copy, PartialEq, Eq, Structural)]
pub struct UnitVec3 {
    pub x: i64,
    pub y: i64,
    pub z: i64,
}

impl View for Vec3 {
    type V = V3;

    open spec fn view(&self) -> V3 {
        V3 { x: self.x as int, y: self.y as int, z: self.z as int }
    }
}

impl View for UnitVec3 {
    type V = V3;

    open spec fn view(&self) -> V3 {
        V3 { x: self.x as int, y: self.y as int, z: self.z as int }
    }
}

/// Every component's magnitude is at most `m`.
pub open spec fn v3_bounded(a: V3, m: int) -> bool {
    abs_i(a.x) <= m && abs_i(a.y) <= m && abs_i(a.z) <= m
}

pub open spec fn v3_add(a: V3, b: V3) -> V3 {
    V3 { x: a.x + b.x, y: a.y + b.y, z: a.z + b.z }
}

pub open spec fn v3_sub(a: V3, b: V3) -> V3 {
    V3 { x: a.x - b.x, y: a.y - b.y, z: a.z - b.z }
}

pub open spec fn v3_neg(a: V3) -> V3 {
    V3 { x: -a.x, y: -a.y, z: -a.z }
}

/// Scaling by a fixed-point scalar.
pub open spec fn v3_scale(a: V3, t: int) -> V3 {
    V3 { x: fmul(a.x, t), y: fmul(a.y, t), z: fmul(a.z, t) }
}

/// Fixed-point dot product.
pub open spec fn v3_dot(a: V3, b: V3) -> int {
    fmul(a.x, b.x) + fmul(a.y, b.y) + fmul(a.z, b.z)
}

/// Fixed-point cross product, with the same sign convention as the
/// executable code: the middle component is negated.
pub open spec fn v3_cross(a: V3, b: V3) -> V3 {
    V3 {
        x: fmul(a.y, b.z) - fmul(a.z, b.y),
        y: -(fmul(a.x, b.z) - fmul(a.z, b.x)),
        z: fmul(a.x, b.y) - fmul(a.y, b.x),
    }
}

/// Squared length in raw units (components are not rescaled first), the
/// full-precision quantity `normalize` takes its root from.
pub open spec fn v3_dot_raw(a: V3) -> int {
    a.x * a.x + a.y * a.y + a.z * a.z
}

/// Length in fixed point, computed from the raw squared length.
pub open spec fn v3_norm_len(a: V3) -> int {
    sqrt_i(v3_dot_raw(a))
}

/// The normalized vector: each component divided by the length.
pub open spec fn v3_normalized(a: V3) -> V3 {
    let l = v3_norm_len(a);
    V3 { x: fdiv(a.x, l), y: fdiv(a.y, l), z: fdiv(a.z, l) }
}

/// The unit-vector invariant: components no larger than one, and squared
/// length within [`UNIT_TOL`] of one.
pub open spec fn is_unit(a: V3) -> bool {
    v3_bounded(a, SCALE as int) && abs_i(v3_dot(a, a) - SCALE) <= UNIT_TOL as int
}

/// Whether `normalize` succeeds on `a`: the vector is nonzero and the
/// quantized quotient passes the unit check.
pub open spec fn norm_ok(a: V3) -> bool {
    v3_norm_len(a) != 0 && is_unit(v3_normalized(a))
}

/// Length in fixed point as `len` computes it: root of the fixed-point
/// squared length (coarser than [`v3_norm_len`], which keeps all bits).
pub open spec fn v3_len(a: V3) -> int {
    fsqrt(v3_dot(a, a))
}

/// A square is never negative, so neither is a fixed-point square.
pub proof fn lemma_fmul_self_nonneg(a: int)
    ensures
        fmul(a, a) >= 0,
{
    assert(a * a >= 0) by (nonlinear_arith);
}

/// A dot product of a vector with itself is never negative.
pub proof fn lemma_v3_dot_self_nonneg(a: V3)
    ensures
        v3_dot(a, a) >= 0,
{
    lemma_fmul_self_nonneg(a.x);
    lemma_fmul_self_nonneg(a.y);
    lemma_fmul_self_nonneg(a.z);
}

/// Component bounds on the operands bound the dot product.
pub proof fn lemma_v3_dot_bound(a: V3, b: V3, ma: int, mb: int)
    requires
        v3_bounded(a, ma),
        v3_bounded(b, mb),
    ensures
        abs_i(v3_dot(a, b)) <= 3 * (ma * mb / (SCALE as int)),
        abs_i(fmul(a.x, b.x)) <= ma * mb / (SCALE as int),
        abs_i(fmul(a.y, b.y)) <= ma * mb / (SCALE as int),
        abs_i(fmul(a.z, b.z)) <= ma * mb / (SCALE as int),
{
    lemma_fmul_bound(a.x, b.x, ma, mb);
    lemma_fmul_bound(a.y, b.y, ma, mb);
    lemma_fmul_bound(a.z, b.z, ma, mb);
}

/// Component bounds on the operands bound the cross product's components.
pub proof fn lemma_v3_cross_bound(a: V3, b: V3, ma: int, mb: int)
    requires
        v3_bounded(a, ma),
        v3_bounded(b, mb),
    ensures
        v3_bounded(v3_cross(a, b), 2 * (ma * mb / (SCALE as int))),
{
    lemma_fmul_bound(a.y, b.z, ma, mb);
    lemma_fmul_bound(a.z, b.y, ma, mb);
    lemma_fmul_bound(a.x, b.z, ma, mb);
    lemma_fmul_bound(a.z, b.x, ma, mb);
    lemma_fmul_bound(a.x, b.y, ma, mb);
    lemma_fmul_bound(a.y, b.x, ma, mb);
}

impl Vec3 {
    /// Builds the vector with the given fixed-point components.
    pub fn new(x: i64, y: i64, z: i64) -> (r: Vec3)
        ensures
            r@ == (V3 { x: x as int, y: y as int, z: z as int }),
    {
        Vec3 { x, y, z }
    }

    /// The zero vector.
    pub fn null() -> (r: Vec3)
        ensures
            r@ == (V3 { x: 0, y: 0, z: 0 }),
    {
        Vec3 { x: 0, y: 0, z: 0 }
    }

    /// Component by axis index: 0 is x, 1 is y, 2 is z.
    pub fn index(&self, i: usize) -> (r: i64)
        requires
            i < 3,
        ensures
            i == 0 ==> r == self.x,
            i == 1 ==> r == self.y,
            i == 2 ==> r == self.z,
    {
        match i {
            0 => self.x,
            1 => self.y,
            _ => self.z,
        }
    }

    /// Componentwise sum.
    pub fn add(self, other: Vec3) -> (r: Vec3)
        requires
            v3_bounded(self@, 4611686018427387903),
            v3_bounded(other@, 4611686018427387903),
        ensures
            r@ == v3_add(self@, other@),
    {
        Vec3 { x: self.x + other.x, y: self.y + other.y, z: self.z + other.z }
    }

    /// Componentwise difference.
    pub fn sub(self, other: Vec3) -> (r: Vec3)
        requires
            v3_bounded(self@, 4611686018427387903),
            v3_bounded(other@, 4611686018427387903),
        ensures
            r@ == v3_sub(self@, other@),
    {
        Vec3 { x: self.x - other.x, y: self.y - other.y, z: self.z - other.z }
    }

    /// Componentwise negation.
    pub fn neg(self) -> (r: Vec3)
        requires
            v3_bounded(self@, 4611686018427387903),
        ensures
            r@ == v3_neg(self@),
    {
        Vec3 { x: -self.x, y: -self.y, z: -self.z }
    }

    /// Scaling by a fixed-point scalar.
    pub fn mul(self, t: i64) -> (r: Vec3)
        requires
            abs_i(fmul(self@.x, t as int)) <= i64::MAX as int,
            abs_i(fmul(self@.y, t as int)) <= i64::MAX as int,
            abs_i(fmul(self@.z, t as int)) <= i64::MAX as int,
        ensures
            r@ == v3_scale(self@, t as int),
    {
        Vec3 { x: mul_fp(self.x, t), y: mul_fp(self.y, t), z: mul_fp(self.z, t) }
    }

    /// Fixed-point dot product.
    pub fn dot(&self, other: &Vec3) -> (r: i64)
        requires
            v3_bounded(self@, VMAX as int),
            v3_bounded(other@, VMAX as int),
        ensures
            r == v3_dot(self@, other@),
    {
        proof {
            lemma_v3_dot_bound(self@, other@, VMAX as int, VMAX as int);
        }
        mul_fp(self.x, other.x) + mul_fp(self.y, other.y) + mul_fp(self.z, other.z)
    }

    /// Fixed-point cross product.
    pub fn cross(&self, other: &Vec3) -> (r: Vec3)
        requires
            v3_bounded(self@, VMAX as int),
            v3_bounded(other@, VMAX as int),
        ensures
            r@ == v3_cross(self@, other@),
    {
        proof {
            lemma_v3_cross_bound(self@, other@, VMAX as int, VMAX as int);
            lemma_fmul_bound(self@.y, other@.z, VMAX as int, VMAX as int);
            lemma_fmul_bound(self@.z, other@.y, VMAX as int, VMAX as int);
            lemma_fmul_bound(self@.x, other@.z, VMAX as int, VMAX as int);
            lemma_fmul_bound(self@.z, other@.x, VMAX as int, VMAX as int);
            lemma_fmul_bound(self@.x, other@.y, VMAX as int, VMAX as int);
            lemma_fmul_bound(self@.y, other@.x, VMAX as int, VMAX as int);
        }
        Vec3 {
            x: mul_fp(self.y, other.z) - mul_fp(self.z, other.y),
            y: -(mul_fp(self.x, other.z) - mul_fp(self.z, other.x)),
            z: mul_fp(self.x, other.y) - mul_fp(self.y, other.x),
        }
    }

    /// Length in fixed point.
    pub fn len(&self) -> (r: i64)
        requires
            v3_bounded(self@, VMAX as int),
        ensures
            r == v3_len(self@),
            0 <= r,
    {
        proof {
            lemma_v3_dot_self_nonneg(self@);
            lemma_v3_dot_bound(self@, self@, VMAX as int, VMAX as int);
        }
        let d = self.dot(self);
        sqrt_fp(d)
    }

    /// Normalization. Fails on the zero vector, returning it; also fails on
    /// a vector so short that the quantized quotient misses the unit
    /// tolerance, likewise returning the input.
    pub fn normalize(&self) -> (r: Result<UnitVec3, Vec3>)
        requires
            v3_bounded(self@, NORM_MAX as int),
        ensures
            match r {
                Ok(u) => norm_ok(self@) && u@ == v3_normalized(self@) && is_unit(u@),
                Err(v) => !norm_ok(self@) && v == *self,
            },
    {
        proof {
            assert(self@.x * self@.x >= 0) by (nonlinear_arith);
            assert(self@.y * self@.y >= 0) by (nonlinear_arith);
            assert(self@.z * self@.z >= 0) by (nonlinear_arith);
            assert(self@.x * self@.x <= 20769187434139310514121985316880384int)
                by (nonlinear_arith)
                requires abs_i(self@.x) <= 144115188075855872int;
            assert(self@.y * self@.y <= 20769187434139310514121985316880384int)
                by (nonlinear_arith)
                requires abs_i(self@.y) <= 144115188075855872int;
            assert(self@.z * self@.z <= 20769187434139310514121985316880384int)
                by (nonlinear_arith)
                requires abs_i(self@.z) <= 144115188075855872int;
        }
        let xx: i128 = (self.x as i128) * (self.x as i128);
        let yy: i128 = (self.y as i128) * (self.y as i128);
        let zz: i128 = (self.z as i128) * (self.z as i128);
        let n2: u128 = (xx + yy + zz) as u128;
        let l64: u128 = isqrt_u128(n2);
        proof {
            lemma_sqrt_i(n2 as int);
            lemma_sqrt_i_upper(n2 as int, 288230376151711744int);
        }
        if l64 == 0 {
            proof {
                assert(v3_norm_len(self@) == 0);
            }
            Err(*self)
        } else {
            let l: i64 = l64 as i64;
            proof {
                let n2i = n2 as int;
                let li = l as int;
                assert(self@.x * self@.x <= n2i);
                assert(self@.y * self@.y <= n2i);
                assert(self@.z * self@.z <= n2i);
                lemma_abs_le_sqrt(self@.x, li, n2i);
                lemma_abs_le_sqrt(self@.y, li, n2i);
                lemma_abs_le_sqrt(self@.z, li, n2i);
                lemma_fdiv_bound(self@.x, li, li, li);
                lemma_fdiv_bound(self@.y, li, li, li);
                lemma_fdiv_bound(self@.z, li, li, li);
                vstd::arithmetic::div_mod::lemma_div_multiples_vanish(SCALE as int, li);
                assert(li * (SCALE as int) == (SCALE as int) * li) by (nonlinear_arith);
            }
            let cx = div_fp(self.x, l);
            let cy = div_fp(self.y, l);
            let cz = div_fp(self.z, l);
            let cand = UnitVec3 { x: cx, y: cy, z: cz };
            proof {
                assert(cand@ == v3_normalized(self@));
                lemma_v3_dot_bound(cand@, cand@, SCALE as int, SCALE as int);
            }
            let d = mul_fp(cx, cx) + mul_fp(cy, cy) + mul_fp(cz, cz);
            let dev = if d >= SCALE {
                d - SCALE
            } else {
                SCALE - d
            };
            if dev <= UNIT_TOL {
                Ok(cand)
            } else {
                Err(*self)
            }
        }
    }
}

/// If `a * a <= n` and `l` is the rounded-down square root of `n`, then
/// `|a| <= l`.
proof fn lemma_abs_le_sqrt(a: int, l: int, n: int)
    requires
        0 <= l,
        a * a <= n,
        l * l <= n,
        n < (l + 1) * (l + 1),
    ensures
        abs_i(a) <= l,
{
    if abs_i(a) > l {
        assert((l + 1) * (l + 1) <= abs_i(a) * abs_i(a)) by (nonlinear_arith)
            requires 0 <= l, l + 1 <= abs_i(a);
        assert(abs_i(a) * abs_i(a) == a * a) by (nonlinear_arith);
    }
}

impl UnitVec3 {
    /// Wraps components already known to satisfy the unit invariant.
    pub fn new_unchecked(x: i64, y: i64, z: i64) -> (r: UnitVec3)
        requires
            is_unit(V3 { x: x as int, y: y as int, z: z as int }),
        ensures
            r@ == (V3 { x: x as int, y: y as int, z: z as int }),
            is_unit(r@),
    {
        UnitVec3 { x, y, z }
    }

    /// Builds a unit vector by normalizing the given components, which must
    /// admit normalization.
    pub fn new(x: i64, y: i64, z: i64) -> (r: UnitVec3)
        requires
            abs_i(x as int) <= NORM_MAX as int,
            abs_i(y as int) <= NORM_MAX as int,
            abs_i(z as int) <= NORM_MAX as int,
            norm_ok(V3 { x: x as int, y: y as int, z: z as int }),
        ensures
            r@ == v3_normalized(V3 { x: x as int, y: y as int, z: z as int }),
            is_unit(r@),
    {
        let v = Vec3 { x, y, z };
        match v.normalize() {
            Ok(u) => u,
            Err(_) => {
                proof {
                    assert(false);
                }
                UnitVec3 { x: 0, y: 0, z: SCALE }
            },
        }
    }

    /// The same components as a general vector.
    pub fn to_vec3(&self) -> (r: Vec3)
        ensures
            r@ == self@,
    {
        Vec3 { x: self.x, y: self.y, z: self.z }
    }

    /// Componentwise negation.
    pub fn neg(self) -> (r: UnitVec3)
        requires
            v3_bounded(self@, 4611686018427387903),
        ensures
            r@ == v3_neg(self@),
    {
        UnitVec3 { x: -self.x, y: -self.y, z: -self.z }
    }

    /// Component by axis index: 0 is x, 1 is y, 2 is z.
    pub fn index(&self, i: usize) -> (r: i64)
        requires
            i < 3,
        ensures
            i == 0 ==> r == self.x,
            i == 1 ==> r == self.y,
            i == 2 ==> r == self.z,
    {
        match i {
            0 => self.x,
            1 => self.y,
            _ => self.z,
        }
    }

    /// Fixed-point dot product with a general vector.
    pub fn dot(&self, other: &Vec3) -> (r: i64)
        requires
            v3_bounded(self@, VMAX as int),
            v3_bounded(other@, VMAX as int),
        ensures
            r == v3_dot(self@, other@),
    {
        self.to_vec3().dot(other)
    }

    /// Fixed-point cross product with a general vector.
    pub fn cross(&self, other: &Vec3) -> (r: Vec3)
        requires
            v3_bounded(self@, VMAX as int),
            v3_bounded(other@, VMAX as int),
        ensures
            r@ == v3_cross(self@, other@),
    {
        self.to_vec3().cross(other)
    }

    /// Scaling by a fixed-point scalar, yielding a general vector.
    pub fn mul(self, t: i64) -> (r: Vec3)
        requires
            abs_i(fmul(self@.x, t as int)) <= i64::MAX as int,
            abs_i(fmul(self@.y, t as int)) <= i64::MAX as int,
            abs_i(fmul(self@.z, t as int)) <= i64::MAX as int,
        ensures
            r@ == v3_scale(self@, t as int),
    {
        self.to_vec3().mul(t)
    }

    /// Componentwise sum of two unit vectors, a general vector.
    pub fn add(self, other: UnitVec3) -> (r: Vec3)
        requires
            v3_bounded(self@, 4611686018427387903),
            v3_bounded(other@, 4611686018427387903),
        ensures
            r@ == v3_add(self@, other@),
    {
        self.to_vec3().add(other.to_vec3())
    }

    /// Componentwise difference of two unit vectors, a general vector.
    pub fn sub(self, other: UnitVec3) -> (r: Vec3)
        requires
            v3_bounded(self@, 4611686018427387903),
            v3_bounded(other@, 4611686018427387903),
        ensures
            r@ == v3_sub(self@, other@),
    {
        self.to_vec3().sub(other.to_vec3())
    }
}

/// One component of a normalization: writing `c` for the quantized
/// quotient of `x` by the length `l`, the product `l * |c|` brackets
/// `|x| * SCALE` to within `l`, and `|c|` is at most one.
proof fn lemma_norm_comp(x: int, l: int, n2: int)
    requires
        0 < l,
        x * x <= n2,
        l * l <= n2,
        n2 < (l + 1) * (l + 1),
    ensures
        l * abs_i(fdiv(x, l)) <= abs_i(x) * (SCALE as int),
        abs_i(x) * (SCALE as int) < l * abs_i(fdiv(x, l)) + l,
        0 <= abs_i(fdiv(x, l)) <= SCALE as int,
{
    lemma_abs_le_sqrt(x, l, n2);
    let m = abs_i(x);
    let q = (m * (SCALE as int)) / l;
    assert(abs_i(x * (SCALE as int)) == m * (SCALE as int)) by (nonlinear_arith)
        requires m == abs_i(x);
    assert(abs_i(fdiv(x, l)) == q);
    vstd::arithmetic::div_mod::lemma_fundamental_div_mod(m * (SCALE as int), l);
    assert(l * q <= m * (SCALE as int) < l * q + l);
    assert(m * (SCALE as int) <= l * (SCALE as int)) by (nonlinear_arith)
        requires 0 <= m <= l;
    vstd::arithmetic::div_mod::lemma_div_is_ordered(m * (SCALE as int), l * (SCALE as int), l);
    vstd::arithmetic::div_mod::lemma_div_multiples_vanish(SCALE as int, l);
    assert(l * (SCALE as int) == (SCALE as int) * l) by (nonlinear_arith);
    vstd::arithmetic::div_mod::lemma_div_pos_is_pos(m * (SCALE as int), l);
    assert(m * (SCALE as int) >= 0) by (nonlinear_arith)
        requires m >= 0;
}

/// Normalization succeeds on every vector that is long enough: once the
/// integer length reaches 256 quanta, the quantized quotient always passes
/// the unit check. Together with `normalize`'s contract this is the
/// positive half of the normalization law; only the zero vector and
/// near-quantum slivers below this length can fail.
pub proof fn lemma_normalize_long_ok(a: V3)
    requires
        v3_norm_len(a) >= 256,
    ensures
        norm_ok(a),
{
    let s = SCALE as int;
    let n2 = v3_dot_raw(a);
    let l = v3_norm_len(a);
    assert(a.x * a.x >= 0) by (nonlinear_arith);
    assert(a.y * a.y >= 0) by (nonlinear_arith);
    assert(a.z * a.z >= 0) by (nonlinear_arith);
    lemma_sqrt_i(n2);
    lemma_norm_comp(a.x, l, n2);
    lemma_norm_comp(a.y, l, n2);
    lemma_norm_comp(a.z, l, n2);
    let cx = abs_i(fdiv(a.x, l));
    let cy = abs_i(fdiv(a.y, l));
    let cz = abs_i(fdiv(a.z, l));
    let c2 = cx * cx + cy * cy + cz * cz;
    // Square the per-component bracket on each side.
    assert((l * cx) * (l * cx) <= (abs_i(a.x) * s) * (abs_i(a.x) * s)) by (nonlinear_arith)
        requires 0 <= l * cx <= abs_i(a.x) * s;
    assert((l * cy) * (l * cy) <= (abs_i(a.y) * s) * (abs_i(a.y) * s)) by (nonlinear_arith)
        requires 0 <= l * cy <= abs_i(a.y) * s;
    assert((l * cz) * (l * cz) <= (abs_i(a.z) * s) * (abs_i(a.z) * s)) by (nonlinear_arith)
        requires 0 <= l * cz <= abs_i(a.z) * s;
    assert((abs_i(a.x) * s) * (abs_i(a.x) * s) < (l * (cx + 1)) * (l * (cx + 1)))
        by (nonlinear_arith)
        requires 0 <= abs_i(a.x) * s, abs_i(a.x) * s < l * cx + l;
    assert((abs_i(a.y) * s) * (abs_i(a.y) * s) < (l * (cy + 1)) * (l * (cy + 1)))
        by (nonlinear_arith)
        requires 0 <= abs_i(a.y) * s, abs_i(a.y) * s < l * cy + l;
    assert((abs_i(a.z) * s) * (abs_i(a.z) * s) < (l * (cz + 1)) * (l * (cz + 1)))
        by (nonlinear_arith)
        requires 0 <= abs_i(a.z) * s, abs_i(a.z) * s < l * cz + l;
    // Rewrite the squares into products of squares and sum them.
    assert((l * cx) * (l * cx) == (l * l) * (cx * cx)) by (nonlinear_arith);
    assert((l * cy) * (l * cy) == (l * l) * (cy * cy)) by (nonlinear_arith);
    assert((l * cz) * (l * cz) == (l * l) * (cz * cz)) by (nonlinear_arith);
    assert((abs_i(a.x) * s) * (abs_i(a.x) * s) == (s * s) * (a.x * a.x)) by (nonlinear_arith);
    assert((abs_i(a.y) * s) * (abs_i(a.y) * s) == (s * s) * (a.y * a.y)) by (nonlinear_arith);
    assert((abs_i(a.z) * s) * (abs_i(a.z) * s) == (s * s) * (a.z * a.z)) by (nonlinear_arith);
    assert((l * (cx + 1)) * (l * (cx + 1)) == (l * l) * ((cx + 1) * (cx + 1)))
        by (nonlinear_arith);
    assert((l * (cy + 1)) * (l * (cy + 1)) == (l * l) * ((cy + 1) * (cy + 1)))
        by (nonlinear_arith);
    assert((l * (cz + 1)) * (l * (cz + 1)) == (l * l) * ((cz + 1) * (cz + 1)))
        by (nonlinear_arith);
    assert((l * l) * c2 <= (s * s) * n2) by (nonlinear_arith)
        requires
            (l * l) * (cx * cx) <= (s * s) * (a.x * a.x),
            (l * l) * (cy * cy) <= (s * s) * (a.y * a.y),
            (l * l) * (cz * cz) <= (s * s) * (a.z * a.z),
            c2 == cx * cx + cy * cy + cz * cz,
            n2 == a.x * a.x + a.y * a.y + a.z * a.z;
    let c2hi = c2 + 2 * (cx + cy + cz) + 3;
    assert((cx + 1) * (cx + 1) == cx * cx + 2 * cx + 1) by (nonlinear_arith);
    assert((cy + 1) * (cy + 1) == cy * cy + 2 * cy + 1) by (nonlinear_arith);
    assert((cz + 1) * (cz + 1) == cz * cz + 2 * cz + 1) by (nonlinear_arith);
    assert((s * s) * n2 < (l * l) * c2hi) by (nonlinear_arith)
        requires
            (s * s) * (a.x * a.x) < (l * l) * ((cx + 1) * (cx + 1)),
            (s * s) * (a.y * a.y) < (l * l) * ((cy + 1) * (cy + 1)),
            (s * s) * (a.z * a.z) < (l * l) * ((cz + 1) * (cz + 1)),
            c2hi == (cx + 1) * (cx + 1) + (cy + 1) * (cy + 1) + (cz + 1) * (cz + 1),
            n2 == a.x * a.x + a.y * a.y + a.z * a.z;
    // The squared length brackets n2 between l^2 and (l+1)^2 - 1 = l^2 + 2 l.
    assert((s * s) * (l * l) <= (s * s) * n2) by (nonlinear_arith)
        requires l * l <= n2, 0 <= s * s;
    assert(n2 <= l * l + 2 * l) by (nonlinear_arith)
        requires n2 < (l + 1) * (l + 1);
    assert((s * s) * n2 <= (s * s) * (l * l + 2 * l)) by (nonlinear_arith)
        requires n2 <= l * l + 2 * l, 0 <= s * s;
    // Lower bound: s^2 < c2 + 6 s + 3.
    assert(c2hi <= c2 + 6 * s + 3) by (nonlinear_arith)
        requires cx <= s, cy <= s, cz <= s, c2hi == c2 + 2 * (cx + cy + cz) + 3;
    assert((s * s) * (l * l) < (l * l) * (c2 + 6 * s + 3)) by (nonlinear_arith)
        requires
            (s * s) * (l * l) <= (s * s) * n2,
            (s * s) * n2 < (l * l) * c2hi,
            c2hi <= c2 + 6 * s + 3;
    assert(0 < l * l) by (nonlinear_arith)
        requires 0 < l;
    assert(s * s < c2 + 6 * s + 3) by (nonlinear_arith)
        requires (s * s) * (l * l) < (l * l) * (c2 + 6 * s + 3), 0 < l * l;
    // Upper bound: c2 <= s^2 + 2 s^2 / l <= s^2 + 512 s.
    assert((l * l) * c2 <= (s * s) * (l * l) + (2 * l) * (s * s)) by (nonlinear_arith)
        requires (l * l) * c2 <= (s * s) * n2, (s * s) * n2 <= (s * s) * (l * l + 2 * l);
    if c2 > s * s {
        assert(l * (l * (c2 - s * s)) <= l * (2 * (s * s))) by (nonlinear_arith)
            requires (l * l) * c2 <= (s * s) * (l * l) + (2 * l) * (s * s);
        assert(l * (c2 - s * s) <= 2 * (s * s)) by (nonlinear_arith)
            requires l * (l * (c2 - s * s)) <= l * (2 * (s * s)), 0 < l;
        assert(256 * (c2 - s * s) <= l * (c2 - s * s)) by (nonlinear_arith)
            requires 256 <= l, 0 <= c2 - s * s;
    }
    assert(c2 <= s * s + 33554432);
    // Carry the bounds through the final fixed-point squares.
    let vx = fdiv(a.x, l);
    let vy = fdiv(a.y, l);
    let vz = fdiv(a.z, l);
    let fx = fmul(vx, vx);
    let fy = fmul(vy, vy);
    let fz = fmul(vz, vz);
    assert(vx * vx == cx * cx && vx * vx >= 0) by (nonlinear_arith)
        requires cx == (if vx >= 0 { vx } else { -vx });
    assert(vy * vy == cy * cy && vy * vy >= 0) by (nonlinear_arith)
        requires cy == (if vy >= 0 { vy } else { -vy });
    assert(vz * vz == cz * cz && vz * vz >= 0) by (nonlinear_arith)
        requires cz == (if vz >= 0 { vz } else { -vz });
    assert(fx == (cx * cx) / s);
    assert(fy == (cy * cy) / s);
    assert(fz == (cz * cz) / s);
    vstd::arithmetic::div_mod::lemma_fundamental_div_mod(cx * cx, s);
    vstd::arithmetic::div_mod::lemma_fundamental_div_mod(cy * cy, s);
    vstd::arithmetic::div_mod::lemma_fundamental_div_mod(cz * cz, s);
    assert(s * (fx + fy + fz) <= c2 && c2 < s * (fx + fy + fz) + 3 * s) by (nonlinear_arith)
        requires
            s * fx <= cx * cx < s * fx + s,
            s * fy <= cy * cy < s * fy + s,
            s * fz <= cz * cz < s * fz + s,
            c2 == cx * cx + cy * cy + cz * cz;
    let d = fx + fy + fz;
    assert(s * d <= s * s + 33554432);
    assert(d <= s + 512) by (nonlinear_arith)
        requires s * d <= s * s + 33554432, s == 65536;
    assert(s * s - 6 * s - 3 < s * d + 3 * s);
    assert(d > s - 10) by (nonlinear_arith)
        requires s * d > s * s - 9 * s - 3, s == 65536;
    assert(v3_dot(v3_normalized(a), v3_normalized(a)) == d);
    assert(is_unit(v3_normalized(a)));
}

/// The integer length vanishes exactly on the zero vector. Together with
/// `normalize`'s contract this says: normalizing the zero vector always
/// fails and surfaces the input, and any vector that normalizes has unit
/// length within [`UNIT_TOL`].
pub proof fn lemma_norm_len_zero(a: V3)
    ensures
        (v3_norm_len(a) == 0) <==> (a == (V3 { x: 0, y: 0, z: 0 })),
{
    assert(a.x * a.x >= 0) by (nonlinear_arith);
    assert(a.y * a.y >= 0) by (nonlinear_arith);
    assert(a.z * a.z >= 0) by (nonlinear_arith);
    if a == (V3 { x: 0, y: 0, z: 0 }) {
        assert(v3_dot_raw(a) == 0);
    } else {
        assert(a.x != 0 ==> a.x * a.x >= 1) by (nonlinear_arith);
        assert(a.y != 0 ==> a.y * a.y >= 1) by (nonlinear_arith);
        assert(a.z != 0 ==> a.z * a.z >= 1) by (nonlinear_arith);
        lemma_sqrt_i(v3_dot_raw(a));
        let r = sqrt_i(v3_dot_raw(a));
        if r == 0 {
            assert(v3_dot_raw(a) < 1);
        }
    }
}

} // verus!
