//! Surface materials.

use vstd::prelude::*;
use crate::fixed::SCALE;
use crate::vec3::{V3, Vec3};

verus! {

/// Mathematical model of a material: unbounded integers per field.
pub struct MaterialModel {
    pub color: V3,
    pub albedo: int,
    pub roughness: int,
    pub refractive_index: int,
    pub absorption_coefficient: int,
}

/// A surface material, all fields in fixed point.
#[derive(Debug, Clone, Copy, PartialEq, Eq, Structural)]
pub struct Material {
    /// Color channels, each conceptually in `[0, 255]`.
    pub color: Vec3,
    /// Fraction of incident light reflected, in `[0, 1]`.
    pub albedo: i64,
    /// Fraction of light scattered in a random direction, in `[0, 1]`.
    pub roughness: i64,
    /// Refractive index, at least one.
    pub refractive_index: i64,
    /// Absorption coefficient, in `[0, 1]`.
    pub absorption_coefficient: i64,
}

impl View for Material {
    type V = MaterialModel;

    open spec fn view(&self) -> MaterialModel {
        MaterialModel {
            color: self.color@,
            albedo: self.albedo as int,
            roughness: self.roughness as int,
            refractive_index: self.refractive_index as int,
            absorption_coefficient: self.absorption_coefficient as int,
        }
    }
}

/// Well-formedness: channels in `[0, 255]`, fractions in `[0, 1]`, index at
/// least one — all in fixed point.
pub open spec fn mat_wf(m: MaterialModel) -> bool {
    &&& 0 <= m.color.x <= 255 * (SCALE as int)
    &&& 0 <= m.color.y <= 255 * (SCALE as int)
    &&& 0 <= m.color.z <= 255 * (SCALE as int)
    &&& 0 <= m.albedo <= SCALE as int
    &&& 0 <= m.roughness <= SCALE as int
    &&& SCALE as int <= m.refractive_index <= 16 * (SCALE as int)
    &&& 0 <= m.absorption_coefficient <= SCALE as int
}

/// The default material as a model value: white, albedo one, roughness one
/// half, refractive index one, no absorption.
pub open spec fn default_material() -> MaterialModel {
    MaterialModel {
        color: V3 { x: 255 * (SCALE as int), y: 255 * (SCALE as int), z: 255 * (SCALE as int) },
        albedo: SCALE as int,
        roughness: 32768,
        refractive_index: SCALE as int,
        absorption_coefficient: 0,
    }
}

impl Default for Material {
    /// The default material: white, albedo one, roughness one half,
    /// refractive index one, no absorption.
    fn default() -> (r: Material)
        ensures
            r@ == default_material(),
            mat_wf(r@),
    {
        Material {
            color: Vec3 { x: 255 * SCALE, y: 255 * SCALE, z: 255 * SCALE },
            albedo: SCALE,
            roughness: 32768,
            refractive_index: SCALE,
            absorption_coefficient: 0,
        }
    }
}

} // verus!
