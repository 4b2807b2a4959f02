//! Planes and ray-plane intersection.

use vstd::prelude::*;
use crate::fixed::{div_fp, fdiv, lemma_fdiv_bound, SCALE};
use crate::material::{mat_wf, Material, MaterialModel};
use crate::ray::{ires_of, ray_wf, IntersectModel, IntersectResult, Ray, RayModel};
use crate::vec3::{
    is_unit, lemma_v3_dot_bound, v3_bounded, v3_dot, v3_sub, Pnt3, UnitVec3, V3, Vec3, GEOM_MAX,
};

verus! {

/// Mathematical model of a plane.
pub struct PlaneModel {
    pub pnt: V3,
    pub normal: V3,
}

/// An unbounded plane: a point on it and its unit normal.
#[derive(Debug, Clone, Copy, PartialEq, Eq, Structural)]
pub struct Plane {
    pub pnt: Pnt3,
    pub normal: UnitVec3,
}

impl View for Plane {
    type V = PlaneModel;

    open spec fn view(&self) -> PlaneModel {
        PlaneModel { pnt: self.pnt@, normal: self.normal@ }
    }
}

/// Well-formedness: the point is in geometry range and the normal is a unit
/// vector.
pub open spec fn plane_wf(p: PlaneModel) -> bool {
    v3_bounded(p.pnt, GEOM_MAX as int) && is_unit(p.normal)
}

/// The fixed material every plane hit carries: a green-leaning surface.
pub open spec fn plane_material() -> MaterialModel {
    MaterialModel {
        color: V3 { x: 5 * (SCALE as int), y: 150 * (SCALE as int), z: 5 * (SCALE as int) },
        albedo: 52429,
        roughness: 52429,
        refractive_index: SCALE as int,
        absorption_coefficient: 0,
    }
}

/// The hit a ray scores against a plane: a denominator of zero is a miss
/// (the near-parallel guard — one fixed-point quantum is already coarser
/// than any useful epsilon), as is a negative distance; otherwise the
/// distance solves the plane equation and the normal is the plane's own.
pub open spec fn plane_hit(p: PlaneModel, ray: RayModel) -> Option<IntersectModel> {
    let denom = v3_dot(p.normal, ray.dir);
    if denom == 0 {
        None
    } else {
        let t = fdiv(v3_dot(v3_sub(p.pnt, ray.origin), p.normal), denom);
        if t < 0 {
            None
        } else {
            Some(IntersectModel { t: t, normal: p.normal, material: plane_material() })
        }
    }
}

impl Plane {
    /// Builds the plane through `pnt` with unit normal `normal`.
    pub fn new(pnt: Pnt3, normal: UnitVec3) -> (r: Plane)
        ensures
            r.pnt == pnt,
            r.normal == normal,
    {
        Plane { pnt, normal }
    }

    /// Intersects a ray with this plane; `None` is a miss. On a hit the
    /// distance is nonnegative, the normal is the plane's unit normal, and
    /// the material is the plane's fixed material.
    pub fn intersect(&self, ray: &Ray) -> (res: Option<IntersectResult>)
        requires
            plane_wf(self@),
            ray_wf(ray@),
        ensures
            ires_of(res) == plane_hit(self@, ray@),
            match res {
                Some(i) => 0 <= i.t && i.t <= crate::ray::AT_TMAX && is_unit(i.normal@)
                    && mat_wf(i.material@),
                None => true,
            },
    {
        let denom = self.normal.dot(&ray.dir.to_vec3());
        if denom == 0 {
            return None;
        }
        let diff = self.pnt.sub(ray.origin);
        proof {
            assert(v3_bounded(diff@, 19327352832int));
            lemma_v3_dot_bound(diff@, self@.normal, 19327352832int, SCALE as int);
        }
        let num = diff.dot(&self.normal.to_vec3());
        proof {
            lemma_fdiv_bound(num as int, denom as int, 57982058496int, 1int);
        }
        let t = div_fp(num, denom);
        if t < 0 {
            return None;
        }
        let material = Material {
            color: Vec3 { x: 5 * SCALE, y: 150 * SCALE, z: 5 * SCALE },
            albedo: 52429,
            roughness: 52429,
            refractive_index: SCALE,
            absorption_coefficient: 0,
        };
        Some(IntersectResult { t, normal: self.normal, material })
    }
}

} // verus!
