//! Bounded lines and their slab-based intersection.
//!
//! A line runs from its base point along its unit direction for `length`;
//! the slab test of the box primitive is reused with the far endpoint as
//! the high corner. The `width` field is carried but takes no part in the
//! intersection mathematics.

use vstd::prelude::*;
use crate::fixed::{abs_i, fmul, lemma_fmul_bound, max_i64, min_i64, mul_fp, SCALE};
use crate::material::Material;
use crate::ray::{
    ires_of, ray_at, ray_wf, IntersectModel, IntersectResult, Ray, RayModel, AT_TMAX,
};
use crate::scene::cube::{slab_axis, slab_update, FACE_EPS};
use crate::material::{default_material, mat_wf};
use crate::vec3::{
    is_unit, norm_ok, v3_bounded, v3_normalized, Pnt3, UnitVec3, V3, Vec3, GEOM_MAX,
};

verus! {

/// Mathematical model of a bounded line.
pub struct LineModel {
    pub pnt: V3,
    pub dir: V3,
    pub width: int,
    pub length: int,
}

/// A line from a base point along a unit direction, of bounded length.
#[derive(Debug, Clone, Copy, PartialEq, Eq, Structural)]
pub struct Line {
    pub pnt: Pnt3,
    pub dir: UnitVec3,
    pub width: i64,
    pub length: i64,
}

impl View for Line {
    type V = LineModel;

    open spec fn view(&self) -> LineModel {
        LineModel {
            pnt: self.pnt@,
            dir: self.dir@,
            width: self.width as int,
            length: self.length as int,
        }
    }
}

/// Well-formedness: base point in geometry range, unit direction, and
/// nonnegative extents in range.
pub open spec fn line_wf(l: LineModel) -> bool {
    &&& v3_bounded(l.pnt, GEOM_MAX as int)
    &&& is_unit(l.dir)
    &&& 0 <= l.width <= GEOM_MAX as int
    &&& 0 < l.length <= GEOM_MAX as int
}

/// The line's far endpoint: the base point advanced by `length` along the
/// direction.
pub open spec fn line_far(l: LineModel) -> V3 {
    V3 {
        x: l.pnt.x + fmul(l.dir.x, l.length),
        y: l.pnt.y + fmul(l.dir.y, l.length),
        z: l.pnt.z + fmul(l.dir.z, l.length),
    }
}

/// The normal contribution of one axis: one near the base-point face, zero
/// elsewhere.
pub open spec fn line_axis_normal(p: int, base: int) -> int {
    if p - base < FACE_EPS as int {
        SCALE as int
    } else {
        0
    }
}

/// The face normal of a line at a point, before normalization.
pub open spec fn line_normal(l: LineModel, p: V3) -> V3 {
    V3 {
        x: line_axis_normal(p.x, l.pnt.x),
        y: line_axis_normal(p.y, l.pnt.y),
        z: line_axis_normal(p.z, l.pnt.z),
    }
}

/// The hit a ray scores against a bounded line: the box slab test between
/// the base point and the far endpoint, the hit parameter clamped as for a
/// box, the normal collecting the axes on which the hit point lies at the
/// base. A zero normal cannot be normalized and resolves to a miss; a hit
/// carries the default material.
pub open spec fn line_hit(l: LineModel, ray: RayModel) -> Option<IntersectModel> {
    let o = ray.origin;
    let d = ray.dir;
    let far = line_far(l);
    match slab_update(l.pnt.x, far.x, o.x, d.x, -(AT_TMAX as int), AT_TMAX as int) {
        None => None,
        Some(mx) => match slab_update(l.pnt.y, far.y, o.y, d.y, mx.0, mx.1) {
            None => None,
            Some(my) => match slab_update(l.pnt.z, far.z, o.z, d.z, my.0, my.1) {
                None => None,
                Some(mz) => {
                    let t = vstd::math::min(
                        vstd::math::max(mz.0, 0),
                        vstd::math::max(mz.1, 0),
                    );
                    let n = line_normal(l, ray_at(ray, t));
                    if norm_ok(n) {
                        Some(
                            IntersectModel {
                                t: t,
                                normal: v3_normalized(n),
                                material: default_material(),
                            },
                        )
                    } else {
                        None
                    }
                },
            },
        },
    }
}

/// The normal contribution of one axis, executably.
fn line_axis_normal_exec(p: i64, base: i64) -> (r: i64)
    requires
        abs_i(p as int) <= 162129586585337856,
        abs_i(base as int) <= GEOM_MAX as int,
    ensures
        r == line_axis_normal(p as int, base as int),
{
    if p - base < FACE_EPS {
        SCALE
    } else {
        0
    }
}

impl Line {
    /// Builds the line from its base point, direction and extents.
    pub fn new(pnt: Pnt3, dir: UnitVec3, width: i64, length: i64) -> (r: Line)
        ensures
            r.pnt == pnt,
            r.dir == dir,
            r.width == width,
            r.length == length,
    {
        Line { pnt, dir, width, length }
    }

    /// Intersects a ray with this line; `None` is a miss. On a hit the
    /// distance is nonnegative, the normal is a unit vector and the
    /// material is the default one.
    pub fn intersect(&self, ray: &Ray) -> (res: Option<IntersectResult>)
        requires
            line_wf(self@),
            ray_wf(ray@),
        ensures
            ires_of(res) == line_hit(self@, ray@),
            match res {
                Some(i) => 0 <= i.t && i.t <= AT_TMAX && is_unit(i.normal@) && mat_wf(
                    i.material@,
                ),
                None => true,
            },
    {
        proof {
            lemma_fmul_bound(self@.dir.x, self@.length, SCALE as int, GEOM_MAX as int);
            lemma_fmul_bound(self@.dir.y, self@.length, SCALE as int, GEOM_MAX as int);
            lemma_fmul_bound(self@.dir.z, self@.length, SCALE as int, GEOM_MAX as int);
        }
        let fx = self.pnt.x + mul_fp(self.dir.x, self.length);
        let fy = self.pnt.y + mul_fp(self.dir.y, self.length);
        let fz = self.pnt.z + mul_fp(self.dir.z, self.length);
        let sx = match slab_axis(self.pnt.x, fx, ray.origin.x, ray.dir.x, -AT_TMAX, AT_TMAX) {
            None => {
                return None;
            },
            Some(m) => m,
        };
        let sy = match slab_axis(self.pnt.y, fy, ray.origin.y, ray.dir.y, sx.0, sx.1) {
            None => {
                return None;
            },
            Some(m) => m,
        };
        let sz = match slab_axis(self.pnt.z, fz, ray.origin.z, ray.dir.z, sy.0, sy.1) {
            None => {
                return None;
            },
            Some(m) => m,
        };
        let t = min_i64(max_i64(sz.0, 0), max_i64(sz.1, 0));
        let p = ray.at(t);
        let nx = line_axis_normal_exec(p.x, self.pnt.x);
        let ny = line_axis_normal_exec(p.y, self.pnt.y);
        let nz = line_axis_normal_exec(p.z, self.pnt.z);
        let n = Vec3 { x: nx, y: ny, z: nz };
        match n.normalize() {
            Ok(u) => Some(
                IntersectResult { t, normal: u, material: Material::default() },
            ),
            Err(_) => None,
        }
    }
}

} // verus!
