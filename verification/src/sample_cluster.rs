//! Per-pixel sample clusters for antialiasing.
//!
//! A cluster yields a fixed number of jittered copies of one pixel's
//! primary ray. Each draw offsets the ray origin along the camera's right
//! and up axes by a value sampled uniformly from the pixel's sampling
//! intervals, using a pseudo-random source seeded deterministically from
//! the primary ray's origin: resampling a pixel reproduces the same rays.

use vstd::prelude::*;
use crate::camera::{Camera, DIST_MAX};
use crate::fixed::{abs_i, fmul, lemma_fmul_bound, lemma_fmul_frac, mul_fp, SCALE};
use crate::interval::Interval;
use crate::ray::{ray_wf, IntervalModel, Ray, UpRightBoundedRay};
use crate::rng::{rng_out, rng_seeded, rng_step, to_unit_frac, unit_frac, Rng};
use crate::vec3::{is_unit, v3_add, v3_bounded, v3_scale};

verus! {

/// How many jittered rays one cluster yields.
pub const CLUSTER_SIZE: usize = 256;

/// A cluster of rays that are close to each other: one pixel's primary ray
/// with its sampling intervals, the camera axes to jitter along, and the
/// pixel's own random source.
pub struct SampleCluster {
    pub ray: UpRightBoundedRay,
    pub camera: Camera,
    pub rand: Rng,
    pub current_iteration: usize,
}

/// The seed a primary ray determines: its origin's x component, clamped
/// below at zero.
pub open spec fn seed_of(x: int) -> u64 {
    if x < 0 {
        0
    } else {
        x as u64
    }
}

/// A value drawn uniformly from an interval: the left end plus the
/// interval's width scaled by the fraction the raw word denotes.
pub open spec fn sample_from_spec(iv: IntervalModel, u: u64) -> int {
    iv.left + fmul(iv.right - iv.left, unit_frac(u))
}

/// Well-formedness of a cluster: the pixel ray is in range with room for
/// the jitter, the intervals are bounded, and the camera axes are unit
/// vectors.
pub open spec fn cluster_wf(s: SampleCluster) -> bool {
    &&& ray_wf(s.ray@.ray)
    &&& v3_bounded(s.ray@.ray.origin, 6442450944)
    &&& abs_i(s.ray@.up_interval.left) <= DIST_MAX as int
    &&& abs_i(s.ray@.up_interval.right) <= DIST_MAX as int
    &&& abs_i(s.ray@.right_interval.left) <= DIST_MAX as int
    &&& abs_i(s.ray@.right_interval.right) <= DIST_MAX as int
    &&& is_unit(s.camera@.up)
    &&& is_unit(s.camera@.right)
}

impl SampleCluster {
    /// Builds the cluster for one pixel: the random source is seeded from
    /// the primary ray's origin, and no draws have happened yet.
    pub fn from_camera_ray(camera: Camera, ray: UpRightBoundedRay) -> (r: SampleCluster)
        ensures
            r.ray == ray,
            r.camera == camera,
            r.rand == rng_seeded(seed_of(ray@.ray.origin.x)),
            r.current_iteration == 0,
    {
        let x = ray.ray.origin.x;
        let seed: u64 = if x < 0 {
            0
        } else {
            x as u64
        };
        SampleCluster { rand: Rng::seeded(seed), ray, camera, current_iteration: 0 }
    }

    /// How many rays this cluster yields in all.
    pub fn len(&self) -> (r: usize)
        ensures
            r == CLUSTER_SIZE,
    {
        CLUSTER_SIZE
    }

    /// Samples a value from the interval using the given raw draw. The
    /// result lies between the interval's ends.
    pub fn sample_from(interval: Interval, u: u64) -> (r: i64)
        requires
            abs_i(interval@.left) <= DIST_MAX as int,
            abs_i(interval@.right) <= DIST_MAX as int,
        ensures
            r == sample_from_spec(interval@, u),
            abs_i(r as int) <= DIST_MAX as int,
    {
        let frac = to_unit_frac(u);
        proof {
            lemma_fmul_frac(interval@.right - interval@.left, unit_frac(u));
        }
        let w = interval.right - interval.left;
        interval.left + mul_fp(w, frac)
    }

    /// The next jittered ray, or `None` once the cluster is exhausted. The
    /// right-axis offset is drawn first, then the up-axis offset.
    pub fn next(&mut self) -> (r: Option<Ray>)
        requires
            cluster_wf(*old(self)),
        ensures
            cluster_wf(*final(self)),
            final(self).ray == old(self).ray,
            final(self).camera == old(self).camera,
            old(self).current_iteration >= CLUSTER_SIZE ==> r is None && *final(self) == *old(
                self,
            ),
            old(self).current_iteration < CLUSTER_SIZE ==> {
                let u1 = rng_out(old(self).rand);
                let u2 = rng_out(rng_step(old(self).rand));
                let xoff = sample_from_spec(old(self).ray@.right_interval, u1);
                let yoff = sample_from_spec(old(self).ray@.up_interval, u2);
                &&& final(self).rand == rng_step(rng_step(old(self).rand))
                &&& final(self).current_iteration == old(self).current_iteration + 1
                &&& match r {
                    Some(ray) => {
                        &&& ray@.origin == v3_add(
                            v3_add(
                                old(self).ray@.ray.origin,
                                v3_scale(old(self).camera@.right, xoff),
                            ),
                            v3_scale(old(self).camera@.up, yoff),
                        )
                        &&& ray@.dir == old(self).ray@.ray.dir
                        &&& ray_wf(ray@)
                    },
                    None => false,
                }
            },
    {
        if self.current_iteration >= CLUSTER_SIZE {
            return None;
        }
        self.current_iteration = self.current_iteration + 1;
        let u1 = self.rand.next_u64();
        let u2 = self.rand.next_u64();
        let x = Self::sample_from(self.ray.right_interval, u1);
        let y = Self::sample_from(self.ray.up_interval, u2);
        proof {
            lemma_fmul_bound(self.camera@.right.x, x as int, SCALE as int, DIST_MAX as int);
            lemma_fmul_bound(self.camera@.right.y, x as int, SCALE as int, DIST_MAX as int);
            lemma_fmul_bound(self.camera@.right.z, x as int, SCALE as int, DIST_MAX as int);
            lemma_fmul_bound(self.camera@.up.x, y as int, SCALE as int, DIST_MAX as int);
            lemma_fmul_bound(self.camera@.up.y, y as int, SCALE as int, DIST_MAX as int);
            lemma_fmul_bound(self.camera@.up.z, y as int, SCALE as int, DIST_MAX as int);
        }
        let right = self.camera.right.mul(x);
        let up = self.camera.up.mul(y);
        let pnt = self.ray.ray.origin.add(right).add(up);
        Some(Ray::new(pnt, self.ray.ray.dir))
    }
}

} // verus!
