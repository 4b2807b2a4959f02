//! Axis-aligned boxes and the slab intersection test.

use vstd::prelude::*;
use crate::fixed::{
    abs_i, div_fp, fdiv, fmul, lemma_fdiv_bound, lemma_fmul_bound, max_i64, min_i64, mul_fp,
    SCALE,
};
use crate::ray::{hit_of, ray_at, ray_wf, HitModel, Ray, RayModel, AT_TMAX};
use crate::vec3::{
    is_unit, norm_ok, v3_bounded, v3_normalized, Pnt3, UnitVec3, V3, Vec3, GEOM_MAX,
};

verus! {

/// How close to a face (in fixed-point units) a hit point must lie for that
/// face to contribute to the normal: one ten-thousandth, rounded up to whole
/// quanta.
pub const FACE_EPS: i64 = 7;

/// Largest magnitude a slab bound may have: twice the geometry range, so a
/// line's far endpoint fits too.
pub const SLAB_MAX: i64 = 4294967296;

/// Mathematical model of a box.
pub struct CubeModel {
    pub p1: V3,
    pub p2: V3,
}

/// An axis-aligned box between two corners.
#[derive(Debug, Clone, Copy, PartialEq, Eq, Structural)]
pub struct Cube {
    pub p1: Pnt3,
    pub p2: Pnt3,
}

impl View for Cube {
    type V = CubeModel;

    open spec fn view(&self) -> CubeModel {
        CubeModel { p1: self.p1@, p2: self.p2@ }
    }
}

/// Well-formedness: both corners in geometry range and distinct.
pub open spec fn cube_wf(c: CubeModel) -> bool {
    v3_bounded(c.p1, GEOM_MAX as int) && v3_bounded(c.p2, GEOM_MAX as int) && c.p1 != c.p2
}

/// The model of an optional pair of scalars.
pub open spec fn opt_pair_of(o: Option<(i64, i64)>) -> Option<(int, int)> {
    match o {
        Some(p) => Some((p.0 as int, p.1 as int)),
        None => None,
    }
}

/// One axis of the slab test: the running parameter interval
/// `[tmin, tmax]` is cut down to the slab `[lo, hi]` along an axis where
/// the ray direction component is `d` and the origin component is `o`. An
/// axis the ray runs parallel to keeps the interval if the origin lies
/// between the slab's bounds and misses otherwise; an empty or degenerate
/// interval is a miss.
pub open spec fn slab_update(
    lo: int,
    hi: int,
    o: int,
    d: int,
    tmin: int,
    tmax: int,
) -> Option<(int, int)> {
    if d == 0 {
        if o < vstd::math::min(lo, hi) || o > vstd::math::max(lo, hi) {
            None
        } else {
            Some((tmin, tmax))
        }
    } else {
        let inv = fdiv(SCALE as int, d);
        let t0 = fmul(lo - o, inv);
        let t1 = fmul(hi - o, inv);
        let a0 = if inv < 0 { t1 } else { t0 };
        let a1 = if inv < 0 { t0 } else { t1 };
        let nmin = vstd::math::max(tmin, a0);
        let nmax = vstd::math::min(tmax, a1);
        if nmax <= nmin {
            None
        } else {
            Some((nmin, nmax))
        }
    }
}

/// The normal contribution of one axis: minus one near the low face, plus
/// one near the high face, zero in between.
pub open spec fn axis_normal(p: int, lo: int, hi: int) -> int {
    if p - lo < FACE_EPS as int {
        -(SCALE as int)
    } else if p - hi > -(FACE_EPS as int) {
        SCALE as int
    } else {
        0
    }
}

/// The face normal of a box at a point, before normalization.
pub open spec fn cube_normal(c: CubeModel, p: V3) -> V3 {
    V3 {
        x: axis_normal(p.x, c.p1.x, c.p2.x),
        y: axis_normal(p.y, c.p1.y, c.p2.y),
        z: axis_normal(p.z, c.p1.z, c.p2.z),
    }
}

/// The hit a ray scores against a box: the slab test runs over the three
/// axes (the parameter interval starting at the finite stand-ins for minus
/// and plus infinity, which no slab value can reach); the hit parameter is
/// the interval's lower end clamped to be nonnegative and no larger than
/// its upper end clamped likewise; the normal collects the faces the hit
/// point lies near. A hit point near no face (a ray from inside) has a zero
/// normal, which cannot be normalized, and resolves to a miss.
pub open spec fn cube_hit(c: CubeModel, ray: RayModel) -> Option<HitModel> {
    let o = ray.origin;
    let d = ray.dir;
    match slab_update(c.p1.x, c.p2.x, o.x, d.x, -(AT_TMAX as int), AT_TMAX as int) {
        None => None,
        Some(mx) => match slab_update(c.p1.y, c.p2.y, o.y, d.y, mx.0, mx.1) {
            None => None,
            Some(my) => match slab_update(c.p1.z, c.p2.z, o.z, d.z, my.0, my.1) {
                None => None,
                Some(mz) => {
                    let t = vstd::math::min(
                        vstd::math::max(mz.0, 0),
                        vstd::math::max(mz.1, 0),
                    );
                    let n = cube_normal(c, ray_at(ray, t));
                    if norm_ok(n) {
                        Some(HitModel { t: t, normal: v3_normalized(n) })
                    } else {
                        None
                    }
                },
            },
        },
    }
}

/// One axis of the slab test, executably.
pub fn slab_axis(lo: i64, hi: i64, o: i64, d: i64, tmin: i64, tmax: i64) -> (res: Option<
    (i64, i64),
>)
    requires
        abs_i(lo as int) <= SLAB_MAX as int,
        abs_i(hi as int) <= SLAB_MAX as int,
        abs_i(o as int) <= 17179869184,
        abs_i(d as int) <= SCALE as int,
        abs_i(tmin as int) <= AT_TMAX as int,
        abs_i(tmax as int) <= AT_TMAX as int,
        tmin < tmax,
    ensures
        opt_pair_of(res) == slab_update(lo as int, hi as int, o as int, d as int, tmin as int,
            tmax as int),
        match res {
            Some(p) => abs_i(p.0 as int) <= AT_TMAX as int && abs_i(p.1 as int) <= AT_TMAX as int
                && p.0 < p.1,
            None => true,
        },
{
    if d == 0 {
        let lo2 = min_i64(lo, hi);
        let hi2 = max_i64(lo, hi);
        if o < lo2 || o > hi2 {
            None
        } else {
            Some((tmin, tmax))
        }
    } else {
        proof {
            lemma_fdiv_bound(SCALE as int, d as int, SCALE as int, 1int);
        }
        let inv = div_fp(SCALE, d);
        proof {
            lemma_fmul_bound((lo - o) as int, inv as int, 21474836480int, 4294967296int);
            lemma_fmul_bound((hi - o) as int, inv as int, 21474836480int, 4294967296int);
        }
        let t0 = mul_fp(lo - o, inv);
        let t1 = mul_fp(hi - o, inv);
        let a0 = if inv < 0 {
            t1
        } else {
            t0
        };
        let a1 = if inv < 0 {
            t0
        } else {
            t1
        };
        let nmin = max_i64(tmin, a0);
        let nmax = min_i64(tmax, a1);
        if nmax <= nmin {
            None
        } else {
            Some((nmin, nmax))
        }
    }
}

/// The normal contribution of one axis, executably.
fn axis_normal_exec(p: i64, lo: i64, hi: i64) -> (r: i64)
    requires
        abs_i(p as int) <= 162129586585337856,
        abs_i(lo as int) <= SLAB_MAX as int,
        abs_i(hi as int) <= SLAB_MAX as int,
    ensures
        r == axis_normal(p as int, lo as int, hi as int),
{
    if p - lo < FACE_EPS {
        -SCALE
    } else if p - hi > -FACE_EPS {
        SCALE
    } else {
        0
    }
}

impl Cube {
    /// Builds the box between the two given corners, which must differ.
    pub fn new(p1: Pnt3, p2: Pnt3) -> (ret: Cube)
        requires
            p1 != p2,
        ensures
            ret.p1 == p1,
            ret.p2 == p2,
            ret.p1 != ret.p2,
    {
        Cube { p1, p2 }
    }

    /// Intersects a ray with this box; `None` is a miss. On a hit the
    /// distance is nonnegative and the normal is a unit vector.
    pub fn intersect(&self, ray: &Ray) -> (res: Option<(i64, UnitVec3)>)
        requires
            cube_wf(self@),
            ray_wf(ray@),
        ensures
            hit_of(res) == cube_hit(self@, ray@),
            match res {
                Some(p) => 0 <= p.0 && p.0 <= AT_TMAX && is_unit(p.1@),
                None => true,
            },
    {
        let sx = match slab_axis(self.p1.x, self.p2.x, ray.origin.x, ray.dir.x, -AT_TMAX, AT_TMAX) {
            None => {
                return None;
            },
            Some(m) => m,
        };
        let sy = match slab_axis(self.p1.y, self.p2.y, ray.origin.y, ray.dir.y, sx.0, sx.1) {
            None => {
                return None;
            },
            Some(m) => m,
        };
        let sz = match slab_axis(self.p1.z, self.p2.z, ray.origin.z, ray.dir.z, sy.0, sy.1) {
            None => {
                return None;
            },
            Some(m) => m,
        };
        let t = min_i64(max_i64(sz.0, 0), max_i64(sz.1, 0));
        let p = ray.at(t);
        let nx = axis_normal_exec(p.x, self.p1.x, self.p2.x);
        let ny = axis_normal_exec(p.y, self.p1.y, self.p2.y);
        let nz = axis_normal_exec(p.z, self.p1.z, self.p2.z);
        let n = Vec3 { x: nx, y: ny, z: nz };
        match n.normalize() {
            Ok(u) => Some((t, u)),
            Err(_) => None,
        }
    }
}

} // verus!
