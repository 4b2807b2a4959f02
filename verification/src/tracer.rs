//! The path tracer: bounded random-walk light accumulation.
//!
//! For one sample ray the walk intersects the scene, accumulates the hit
//! material's contribution into a running color, scatters into a random
//! direction in the hemisphere opposing the incoming ray, and repeats for
//! at most [`BOUNCES`] bounces; a miss ends it. All randomness comes from
//! the caller's [`Rng`], so the walk is a mathematical function of scene,
//! ray and generator state.

use vstd::prelude::*;
use crate::fixed::{
    abs_i, clamp_i64, fmul, lemma_fmul_bound, lemma_fmul_neg, mul_fp, SCALE,
};
use crate::ray::{ray_at, ray_wf, Ray, RayModel, ORG_MAX};
use crate::rng::{rng_out, rng_step, unit_frac, Rng};
use crate::scene::{scene_hit, scene_wf, Scene, SceneModel};
use crate::vec3::{
    is_unit, norm_ok, v3_add, v3_bounded, v3_dot, v3_neg, v3_normalized, v3_scale, UnitVec3, V3,
    Vec3,
};

verus! {

/// Bounce ceiling of the random walk.
pub const BOUNCES: u32 = 255;

/// How many scatter draws are attempted before the walk falls back to
/// reflecting straight back along the incoming ray.
pub const SCATTER_ATTEMPTS: u32 = 64;

/// How far the next bounce's origin is offset along its direction to avoid
/// immediate self-intersection: one ten-thousandth, in whole quanta.
pub const ORIGIN_EPS: i64 = 7;

/// Largest channel value a walk can accumulate: the ceiling number of
/// bounces, each clamped to the white level.
pub const ACC_MAX: i64 = 4261478400;

/// The vector one scatter draw produces: three coordinates uniform in
/// `[-1, 1]`, drawn in order from the generator.
pub open spec fn rius_vec(r: Rng) -> V3 {
    V3 {
        x: 2 * unit_frac(rng_out(r)) - 65536,
        y: 2 * unit_frac(rng_out(rng_step(r))) - 65536,
        z: 2 * unit_frac(rng_out(rng_step(rng_step(r)))) - 65536,
    }
}

impl UnitVec3 {
    /// One attempt at a uniformly random direction: three coordinates in
    /// `[-1, 1]`, normalized; `None` when the draw cannot be normalized.
    pub fn random_in_unit_sphere(rand: &mut Rng) -> (r: Option<UnitVec3>)
        ensures
            *final(rand) == rng_step(rng_step(rng_step(*old(rand)))),
            match r {
                Some(u) => norm_ok(rius_vec(*old(rand))) && u@ == v3_normalized(
                    rius_vec(*old(rand)),
                ) && is_unit(u@),
                None => !norm_ok(rius_vec(*old(rand))),
            },
    {
        let x = 2 * rand.next_unit() - SCALE;
        let y = 2 * rand.next_unit() - SCALE;
        let z = 2 * rand.next_unit() - SCALE;
        let v = Vec3 { x, y, z };
        match v.normalize() {
            Ok(u) => Some(u),
            Err(_) => None,
        }
    }
}

/// The scatter recursion: each attempt draws a direction in the unit
/// sphere, flips it into the hemisphere opposing the incoming direction,
/// and accepts it when the two strictly oppose; once the attempts are
/// exhausted, the reversed incoming direction stands in.
pub open spec fn scatter_spec(dir: V3, r: Rng, k: nat) -> (V3, Rng)
    decreases k,
{
    if k == 0 {
        (v3_neg(dir), r)
    } else {
        let v = rius_vec(r);
        let r3 = rng_step(rng_step(rng_step(r)));
        if norm_ok(v) {
            let n = v3_normalized(v);
            let n2 = if v3_dot(n, dir) > 0 {
                v3_neg(n)
            } else {
                n
            };
            if v3_dot(n2, dir) < 0 {
                (n2, r3)
            } else {
                scatter_spec(dir, r3, (k - 1) as nat)
            }
        } else {
            scatter_spec(dir, r3, (k - 1) as nat)
        }
    }
}

/// Negating a vector negates its dot products and keeps its length.
proof fn lemma_neg_dot(a: V3, b: V3)
    ensures
        v3_dot(v3_neg(a), b) == -v3_dot(a, b),
        v3_dot(v3_neg(a), v3_neg(a)) == v3_dot(a, a),
{
    lemma_fmul_neg(a.x, b.x);
    lemma_fmul_neg(a.y, b.y);
    lemma_fmul_neg(a.z, b.z);
    lemma_fmul_neg(a.x, -a.x);
    lemma_fmul_neg(a.y, -a.y);
    lemma_fmul_neg(a.z, -a.z);
    lemma_fmul_neg(a.x, a.x);
    lemma_fmul_neg(a.y, a.y);
    lemma_fmul_neg(a.z, a.z);
}

/// A reversed unit vector is a unit vector, and it strictly opposes the
/// original.
proof fn lemma_neg_unit(a: V3)
    requires
        is_unit(a),
    ensures
        is_unit(v3_neg(a)),
        v3_dot(v3_neg(a), a) < 0,
{
    lemma_neg_dot(a, a);
}

/// Draws a scatter direction with at most `k` attempts.
fn scatter_rec(dir: &UnitVec3, rand: &mut Rng, k: u32) -> (r: UnitVec3)
    requires
        is_unit(dir@),
    ensures
        r@ == scatter_spec(dir@, *old(rand), k as nat).0,
        *final(rand) == scatter_spec(dir@, *old(rand), k as nat).1,
        is_unit(r@),
        v3_dot(r@, dir@) < 0,
    decreases k,
{
    if k == 0 {
        proof {
            lemma_neg_unit(dir@);
        }
        dir.neg()
    } else {
        match UnitVec3::random_in_unit_sphere(rand) {
            Some(n) => {
                let d = n.dot(&dir.to_vec3());
                let n2 = if d > 0 {
                    proof {
                        lemma_neg_unit(n@);
                        lemma_neg_dot(n@, dir@);
                    }
                    n.neg()
                } else {
                    n
                };
                let d2 = n2.dot(&dir.to_vec3());
                if d2 < 0 {
                    n2
                } else {
                    scatter_rec(dir, rand, k - 1)
                }
            },
            None => scatter_rec(dir, rand, k - 1),
        }
    }
}

/// One channel's contribution on a hit: the material color scaled by the
/// albedo, plus the roughness-scaled random fraction, clamped to the white
/// level.
pub open spec fn channel_inc(color: int, albedo: int, roughness: int, u: u64) -> int {
    vstd::math::min(
        vstd::math::max(fmul(color, albedo) + fmul(roughness, unit_frac(u)), 0),
        16711680,
    )
}

/// The random walk: intersect, accumulate, scatter, for at most `k` more
/// bounces. It ends on a miss, at the bounce ceiling, or when the next
/// origin would leave the range intersection admits; the result is the
/// accumulated color, the number of hits, and the generator state.
pub open spec fn walk_spec(
    s: SceneModel,
    ray: RayModel,
    r: Rng,
    k: nat,
    acc: V3,
    hits: int,
) -> (V3, int, Rng)
    decreases k,
{
    if k == 0 {
        (acc, hits, r)
    } else {
        match scene_hit(s, ray) {
            None => (acc, hits, r),
            Some(h) => {
                let u1 = rng_out(r);
                let r1 = rng_step(r);
                let u2 = rng_out(r1);
                let r2 = rng_step(r1);
                let u3 = rng_out(r2);
                let r3 = rng_step(r2);
                let acc2 = V3 {
                    x: acc.x + channel_inc(
                        h.material.color.x,
                        h.material.albedo,
                        h.material.roughness,
                        u1,
                    ),
                    y: acc.y + channel_inc(
                        h.material.color.y,
                        h.material.albedo,
                        h.material.roughness,
                        u2,
                    ),
                    z: acc.z + channel_inc(
                        h.material.color.z,
                        h.material.albedo,
                        h.material.roughness,
                        u3,
                    ),
                };
                let sc = scatter_spec(ray.dir, r3, SCATTER_ATTEMPTS as nat);
                let no = v3_add(ray_at(ray, h.t), v3_scale(sc.0, ORIGIN_EPS as int));
                if !v3_bounded(no, ORG_MAX as int) {
                    (acc2, hits + 1, sc.1)
                } else {
                    walk_spec(
                        s,
                        RayModel { origin: no, dir: sc.0 },
                        sc.1,
                        (k - 1) as nat,
                        acc2,
                        hits + 1,
                    )
                }
            },
        }
    }
}

/// Runs the random walk for at most `k` more bounces.
pub fn walk(s: &Scene, ray: Ray, rand: &mut Rng, k: u32, acc: Vec3, hits: u32) -> (res: (
    Vec3,
    u32,
))
    requires
        scene_wf(s@),
        ray_wf(ray@),
        k <= BOUNCES,
        hits + k <= BOUNCES,
        0 <= acc@.x && acc@.x + k * 16711680 <= ACC_MAX as int,
        0 <= acc@.y && acc@.y + k * 16711680 <= ACC_MAX as int,
        0 <= acc@.z && acc@.z + k * 16711680 <= ACC_MAX as int,
    ensures
        (res.0@, res.1 as int, *final(rand)) == walk_spec(
            s@,
            ray@,
            *old(rand),
            k as nat,
            acc@,
            hits as int,
        ),
        0 <= res.0@.x <= ACC_MAX as int,
        0 <= res.0@.y <= ACC_MAX as int,
        0 <= res.0@.z <= ACC_MAX as int,
        res.1 <= BOUNCES,
    decreases k,
{
    if k == 0 {
        return (acc, hits);
    }
    match s.intersect(&ray) {
        None => (acc, hits),
        Some(hit) => {
            let f1 = rand.next_unit();
            let f2 = rand.next_unit();
            let f3 = rand.next_unit();
            proof {
                lemma_fmul_bound(hit@.material.color.x, hit@.material.albedo, 16711680int,
                    65536int);
                lemma_fmul_bound(hit@.material.color.y, hit@.material.albedo, 16711680int,
                    65536int);
                lemma_fmul_bound(hit@.material.color.z, hit@.material.albedo, 16711680int,
                    65536int);
                lemma_fmul_bound(hit@.material.roughness, f1 as int, 65536int, 65536int);
                lemma_fmul_bound(hit@.material.roughness, f2 as int, 65536int, 65536int);
                lemma_fmul_bound(hit@.material.roughness, f3 as int, 65536int, 65536int);
            }
            let ix = clamp_i64(
                mul_fp(hit.material.color.x, hit.material.albedo) + mul_fp(
                    hit.material.roughness,
                    f1,
                ),
                0,
                16711680,
            );
            let iy = clamp_i64(
                mul_fp(hit.material.color.y, hit.material.albedo) + mul_fp(
                    hit.material.roughness,
                    f2,
                ),
                0,
                16711680,
            );
            let iz = clamp_i64(
                mul_fp(hit.material.color.z, hit.material.albedo) + mul_fp(
                    hit.material.roughness,
                    f3,
                ),
                0,
                16711680,
            );
            let acc2 = Vec3 { x: acc.x + ix, y: acc.y + iy, z: acc.z + iz };
            let nd = scatter_rec(&ray.dir, rand, SCATTER_ATTEMPTS);
            let p = ray.at(hit.t);
            proof {
                lemma_fmul_bound(nd@.x, ORIGIN_EPS as int, SCALE as int, ORIGIN_EPS as int);
                lemma_fmul_bound(nd@.y, ORIGIN_EPS as int, SCALE as int, ORIGIN_EPS as int);
                lemma_fmul_bound(nd@.z, ORIGIN_EPS as int, SCALE as int, ORIGIN_EPS as int);
            }
            let off = nd.mul(ORIGIN_EPS);
            let no = p.add(off);
            if no.x < -ORG_MAX || no.x > ORG_MAX || no.y < -ORG_MAX || no.y > ORG_MAX || no.z
                < -ORG_MAX || no.z > ORG_MAX {
                return (acc2, hits + 1);
            }
            let nray = Ray::new(no, nd);
            walk(s, nray, rand, k - 1, acc2, hits + 1)
        },
    }
}

} // verus!
