//! Spheres and ray-sphere intersection.

use vstd::prelude::*;
use crate::fixed::{
    abs_i, div_fp, fdiv, fmul, fsqrt, lemma_fdiv_bound, lemma_fmul_bound, lemma_sqrt_i_upper,
    max_i64, min_i64, mul_fp, sqrt_fp, SCALE,
};
use crate::ray::{hit_of, ray_at, ray_wf, HitModel, Ray, RayModel};
use crate::vec3::{
    is_unit, lemma_v3_dot_bound, norm_ok, v3_bounded, v3_dot, v3_normalized, v3_sub, Pnt3,
    UnitVec3, V3, GEOM_MAX,
};

verus! {

/// Mathematical model of a sphere.
pub struct SphereModel {
    pub mid: V3,
    pub r: int,
}

/// A sphere: center and radius.
#[derive(Debug, Clone, Copy, PartialEq, Eq, Structural)]
pub struct Sphere {
    pub mid: Pnt3,
    pub r: i64,
}

impl View for Sphere {
    type V = SphereModel;

    open spec fn view(&self) -> SphereModel {
        SphereModel { mid: self.mid@, r: self.r as int }
    }
}

/// Well-formedness: the center is in geometry range and the radius is
/// positive and in range.
pub open spec fn sphere_wf(s: SphereModel) -> bool {
    v3_bounded(s.mid, GEOM_MAX as int) && 0 < s.r <= GEOM_MAX as int
}

/// The hit a ray scores against a sphere: the quadratic from the ray-center
/// substitution is solved; a negative discriminant misses; the nearer
/// nonnegative root wins, negative roots clamping to zero when the other
/// root is nonnegative. A hit whose normal cannot be normalized (possible
/// only in quantization corner cases) resolves to a miss.
pub open spec fn sphere_hit(s: SphereModel, ray: RayModel) -> Option<HitModel> {
    let a = v3_dot(ray.dir, ray.dir);
    let oc = v3_sub(ray.origin, s.mid);
    let b = 2 * v3_dot(ray.dir, oc);
    let c = v3_dot(oc, oc) - fmul(s.r, s.r);
    let disc = fmul(b, b) - 4 * fmul(a, c);
    if disc < 0 {
        None
    } else {
        let sq = fsqrt(disc);
        let t1 = fdiv(-b + sq, 2 * a);
        let t2 = fdiv(-b - sq, 2 * a);
        if t1 < 0 && t2 < 0 {
            None
        } else {
            let t = vstd::math::min(vstd::math::max(t1, 0), vstd::math::max(t2, 0));
            let n = v3_sub(ray_at(ray, t), s.mid);
            if norm_ok(n) {
                Some(HitModel { t: t, normal: v3_normalized(n) })
            } else {
                None
            }
        }
    }
}

impl Sphere {
    /// Builds the sphere with the given center and radius.
    pub fn new(mid: Pnt3, r: i64) -> (ret: Sphere)
        requires
            r > 0,
        ensures
            ret.mid == mid,
            ret.r == r,
    {
        Sphere { mid, r }
    }

    /// Intersects a ray with this sphere; `None` is a miss. On a hit the
    /// distance is nonnegative and the normal is a unit vector.
    pub fn intersect(&self, ray: &Ray) -> (res: Option<(i64, UnitVec3)>)
        requires
            sphere_wf(self@),
            ray_wf(ray@),
        ensures
            hit_of(res) == sphere_hit(self@, ray@),
            match res {
                Some(p) => 0 <= p.0 && p.0 <= crate::ray::AT_TMAX && is_unit(p.1@),
                None => true,
            },
    {
        let dirv = ray.dir.to_vec3();
        let a = dirv.dot(&dirv);
        proof {
            assert(64512 <= a as int <= 66560);
        }
        let oc = ray.origin.sub(self.mid);
        proof {
            assert(v3_bounded(oc@, 19327352832int));
            lemma_v3_dot_bound(ray@.dir, oc@, SCALE as int, 19327352832int);
            lemma_v3_dot_bound(oc@, oc@, 19327352832int, 19327352832int);
            lemma_fmul_bound(self@.r, self@.r, GEOM_MAX as int, GEOM_MAX as int);
        }
        let b = 2 * ray.dir.dot(&oc);
        let rr = mul_fp(self.r, self.r);
        let c = oc.dot(&oc) - rr;
        proof {
            assert(abs_i(b as int) <= 115964116992int);
            assert(abs_i(c as int) <= 17169973579350016int);
            lemma_fmul_bound(b as int, b as int, 115964116992int, 115964116992int);
            lemma_fmul_bound(a as int, c as int, 196608int, 17169973579350016int);
        }
        let bb = mul_fp(b, b);
        let ac = mul_fp(a, c);
        let disc = bb - 4 * ac;
        if disc < 0 {
            return None;
        }
        let sq = sqrt_fp(disc);
        proof {
            lemma_sqrt_i_upper((disc as int) * (SCALE as int), 170000000000int);
            assert(abs_i(-(b as int) + sq as int) <= 285964116992int);
            assert(abs_i(-(b as int) - sq as int) <= 285964116992int);
            lemma_fdiv_bound(-(b as int) + sq as int, 2 * (a as int), 285964116992int, 129024int);
            lemma_fdiv_bound(-(b as int) - sq as int, 2 * (a as int), 285964116992int, 129024int);
        }
        let t1 = div_fp(-b + sq, 2 * a);
        let t2 = div_fp(-b - sq, 2 * a);
        if t1 < 0 && t2 < 0 {
            return None;
        }
        let t = min_i64(max_i64(t1, 0), max_i64(t2, 0));
        proof {
            assert(0 <= t as int <= 145251614980int);
            lemma_fmul_bound(ray@.dir.x, t as int, SCALE as int, 145251614980int);
            lemma_fmul_bound(ray@.dir.y, t as int, SCALE as int, 145251614980int);
            lemma_fmul_bound(ray@.dir.z, t as int, SCALE as int, 145251614980int);
        }
        let p = ray.at(t);
        proof {
            assert(v3_bounded(p@, 162431484164int));
        }
        let n = p.sub(self.mid);
        match n.normalize() {
            Ok(u) => Some((t, u)),
            Err(_) => None,
        }
    }
}

} // verus!
