//! Rays and intersection results.

use vstd::prelude::*;
use crate::fixed::{abs_i, lemma_fmul_bound, SCALE};
use crate::interval::Interval;
use crate::material::{Material, MaterialModel};
use crate::vec3::{is_unit, v3_add, v3_bounded, v3_scale, Pnt3, UnitVec3, V3};

verus! {

/// Largest magnitude a ray origin may have when it is intersected against
/// geometry: keeps every quadratic-form intermediate inside `i64`.
pub const ORG_MAX: i64 = 17179869184;

/// Largest ray parameter `at` accepts.
pub const AT_TMAX: i64 = 18014398509481984;

/// Mathematical model of a ray.
pub struct RayModel {
    pub origin: V3,
    pub dir: V3,
}

/// Mathematical model of an interval.
pub struct IntervalModel {
    pub left: int,
    pub right: int,
}

/// Mathematical model of a pixel-bounded ray.
pub struct BoundedRayModel {
    pub ray: RayModel,
    pub up: V3,
    pub right: V3,
    pub up_interval: IntervalModel,
    pub right_interval: IntervalModel,
}

/// Mathematical model of a full intersection record.
pub struct IntersectModel {
    pub t: int,
    pub normal: V3,
    pub material: MaterialModel,
}

/// Mathematical model of a bare hit: distance and surface normal.
pub struct HitModel {
    pub t: int,
    pub normal: V3,
}

/// A ray: origin and unit direction.
#[derive(Debug, Clone, Copy, PartialEq, Eq, Structural)]
pub struct Ray {
    pub origin: Pnt3,
    pub dir: UnitVec3,
}

impl View for Ray {
    type V = RayModel;

    open spec fn view(&self) -> RayModel {
        RayModel { origin: self.origin@, dir: self.dir@ }
    }
}

impl View for Interval {
    type V = IntervalModel;

    open spec fn view(&self) -> IntervalModel {
        IntervalModel { left: self.left as int, right: self.right as int }
    }
}

/// A ray is well formed when its origin is in range and its direction is a
/// unit vector.
pub open spec fn ray_wf(r: RayModel) -> bool {
    v3_bounded(r.origin, ORG_MAX as int) && is_unit(r.dir)
}

/// The point a ray reaches after parameter `t`.
pub open spec fn ray_at(r: RayModel, t: int) -> V3 {
    v3_add(r.origin, v3_scale(r.dir, t))
}

impl Ray {
    /// Builds the ray with the given origin and direction.
    pub fn new(origin: Pnt3, dir: UnitVec3) -> (r: Ray)
        ensures
            r.origin == origin,
            r.dir == dir,
    {
        Ray { origin, dir }
    }

    /// The point this ray reaches after parameter `t`.
    pub fn at(&self, t: i64) -> (r: Pnt3)
        requires
            v3_bounded(self@.origin, 144115188075855872),
            v3_bounded(self@.dir, SCALE as int),
            abs_i(t as int) <= AT_TMAX as int,
        ensures
            r@ == ray_at(self@, t as int),
            v3_bounded(r@, 144115188075855872 + AT_TMAX as int),
    {
        proof {
            lemma_fmul_bound(self@.dir.x, t as int, SCALE as int, AT_TMAX as int);
            lemma_fmul_bound(self@.dir.y, t as int, SCALE as int, AT_TMAX as int);
            lemma_fmul_bound(self@.dir.z, t as int, SCALE as int, AT_TMAX as int);
        }
        self.origin.add(self.dir.mul(t))
    }
}

/// A ray together with the camera axes and the per-axis sampling intervals
/// of the pixel it was generated for.
#[derive(Debug, Clone, Copy, PartialEq, Eq, Structural)]
pub struct UpRightBoundedRay {
    pub ray: Ray,
    pub up_vec: UnitVec3,
    pub right_vec: UnitVec3,
    pub up_interval: Interval,
    pub right_interval: Interval,
}

impl View for UpRightBoundedRay {
    type V = BoundedRayModel;

    open spec fn view(&self) -> BoundedRayModel {
        BoundedRayModel {
            ray: self.ray@,
            up: self.up_vec@,
            right: self.right_vec@,
            up_interval: self.up_interval@,
            right_interval: self.right_interval@,
        }
    }
}

/// The point a bounded ray reaches after parameter `t`, offset by `u` along
/// the up axis and `v` along the right axis.
pub open spec fn bounded_ray_at(r: BoundedRayModel, t: int, u: int, v: int) -> V3 {
    v3_add(v3_add(ray_at(r.ray, t), v3_scale(r.up, u)), v3_scale(r.right, v))
}

impl UpRightBoundedRay {
    /// Builds the bounded ray from its parts.
    pub fn new(
        ray: Ray,
        up_vec: UnitVec3,
        right_vec: UnitVec3,
        up_interval: Interval,
        right_interval: Interval,
    ) -> (r: UpRightBoundedRay)
        ensures
            r.ray == ray,
            r.up_vec == up_vec,
            r.right_vec == right_vec,
            r.up_interval == up_interval,
            r.right_interval == right_interval,
    {
        UpRightBoundedRay { ray, up_vec, right_vec, up_interval, right_interval }
    }

    /// The point this ray reaches after parameter `t`, offset by `u` along
    /// the up axis and `v` along the right axis.
    pub fn at(&self, t: i64, u: i64, v: i64) -> (r: Pnt3)
        requires
            v3_bounded(self@.ray.origin, 144115188075855872),
            v3_bounded(self@.ray.dir, SCALE as int),
            v3_bounded(self@.up, SCALE as int),
            v3_bounded(self@.right, SCALE as int),
            abs_i(t as int) <= AT_TMAX as int,
            abs_i(u as int) <= AT_TMAX as int,
            abs_i(v as int) <= AT_TMAX as int,
        ensures
            r@ == bounded_ray_at(self@, t as int, u as int, v as int),
    {
        proof {
            lemma_fmul_bound(self@.up.x, u as int, SCALE as int, AT_TMAX as int);
            lemma_fmul_bound(self@.up.y, u as int, SCALE as int, AT_TMAX as int);
            lemma_fmul_bound(self@.up.z, u as int, SCALE as int, AT_TMAX as int);
            lemma_fmul_bound(self@.right.x, v as int, SCALE as int, AT_TMAX as int);
            lemma_fmul_bound(self@.right.y, v as int, SCALE as int, AT_TMAX as int);
            lemma_fmul_bound(self@.right.z, v as int, SCALE as int, AT_TMAX as int);
        }
        self.ray.at(t).add(self.up_vec.mul(u)).add(self.right_vec.mul(v))
    }
}

/// A full intersection record: distance along the ray, surface normal, and
/// a copy of the surface material.
#[derive(Debug, Clone, Copy, PartialEq, Eq, Structural)]
pub struct IntersectResult {
    /// The distance along the ray to the intersection point.
    pub t: i64,
    /// The normal of the surface at the intersection point.
    pub normal: UnitVec3,
    /// The material of the surface at the intersection point.
    pub material: Material,
}

impl View for IntersectResult {
    type V = IntersectModel;

    open spec fn view(&self) -> IntersectModel {
        IntersectModel { t: self.t as int, normal: self.normal@, material: self.material@ }
    }
}

/// The model of an optional bare hit.
pub open spec fn hit_of(o: Option<(i64, UnitVec3)>) -> Option<HitModel> {
    match o {
        Some(p) => Some(HitModel { t: p.0 as int, normal: p.1@ }),
        None => None,
    }
}

/// The model of an optional full intersection record.
pub open spec fn ires_of(o: Option<IntersectResult>) -> Option<IntersectModel> {
    match o {
        Some(i) => Some(i@),
        None => None,
    }
}

} // verus!
