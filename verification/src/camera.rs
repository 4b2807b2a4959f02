//! The camera: orthonormal basis derivation and per-pixel ray generation.

use vstd::prelude::*;
use crate::fixed::{
    abs_i, fmul, lemma_fmul_bound, lemma_fmul_mono, mul_fp, SCALE,
};
use crate::interval::Interval;
use crate::ray::{ray_wf, BoundedRayModel, IntervalModel, Ray, RayModel, UpRightBoundedRay};
use crate::fixed::{lemma_sqrt_i_upper};
use crate::vec3::{
    is_unit, lemma_v3_cross_bound, lemma_v3_dot_bound, lemma_v3_dot_self_nonneg, norm_ok, v3_add,
    v3_bounded, v3_cross, v3_dot, v3_len, v3_normalized, v3_scale, v3_sub, Pnt3, UnitVec3, V3,
    Vec3,
};

verus! {

/// Largest magnitude of a camera position handed to `look_at`: keeps the
/// focal length inside the camera range.
pub const CAM_MAX: i64 = 536870912;

/// Largest focal length of a well-formed camera.
pub const FOCAL_MAX: i64 = 2147483648;

/// Largest pixel offset `get_rays` accepts, keeping ray origins — with
/// room for the antialiasing jitter on top — inside the range that
/// intersection admits.
pub const DIST_MAX: i64 = 2147483648;

/// Largest image dimension.
pub const DIM_MAX: u32 = 32768;

/// Mathematical model of a camera.
pub struct CameraModel {
    pub focal_length: int,
    pub center: V3,
    pub up: V3,
    pub right: V3,
}

/// A camera: focal length, position and its up/right axes.
#[derive(Debug, Clone, Copy, PartialEq, Eq, Structural)]
pub struct Camera {
    pub focal_length: i64,
    pub center: Pnt3,
    pub up: UnitVec3,
    pub right: UnitVec3,
}

impl View for Camera {
    type V = CameraModel;

    open spec fn view(&self) -> CameraModel {
        CameraModel {
            focal_length: self.focal_length as int,
            center: self.center@,
            up: self.up@,
            right: self.right@,
        }
    }
}

/// Well-formedness: positive bounded focal length, center in geometry
/// range, unit axes.
pub open spec fn cam_wf(c: CameraModel) -> bool {
    &&& 0 < c.focal_length <= FOCAL_MAX as int
    &&& v3_bounded(c.center, 2147483648)
    &&& is_unit(c.up)
    &&& is_unit(c.right)
}

/// What `look_at` yields: the forward axis is the normalized difference,
/// the right axis the normalized cross with the world up axis (or with the
/// world forward axis when the view is parallel to world up), the up axis
/// the normalized cross of right and forward, and the focal length the
/// distance to the target. Any normalization that fails — possible only on
/// degenerate or quantization-boundary inputs — surfaces the offending
/// vector.
pub open spec fn look_at_spec(o: V3, t: V3) -> Result<CameraModel, V3> {
    let diff = v3_sub(t, o);
    if !norm_ok(diff) {
        Result::Err(diff)
    } else {
        let z = v3_normalized(diff);
        let cx = v3_cross(z, V3 { x: 0, y: SCALE as int, z: 0 });
        let cxx = if norm_ok(cx) {
            cx
        } else {
            v3_cross(z, V3 { x: 0, y: 0, z: SCALE as int })
        };
        if !norm_ok(cxx) {
            Result::Err(cxx)
        } else {
            let x = v3_normalized(cxx);
            let cy = v3_cross(x, z);
            if !norm_ok(cy) {
                Result::Err(cy)
            } else {
                let y = v3_normalized(cy);
                let f = v3_len(diff);
                if f <= 0 {
                    Result::Err(diff)
                } else {
                    Result::Ok(
                        CameraModel { focal_length: f, center: o, up: y, right: x },
                    )
                }
            }
        }
    }
}

/// The camera-space offset of pixel edge `k`, when `h` pixels span the
/// image: `(2 (k + 1/2) / h - 1)` times the focal length, in fixed point.
pub open spec fn cam_dist(focal: int, h: int, k: int) -> int {
    fmul(2 * (k * 65536 + 32768) / h - 65536, focal)
}

/// The direction every primary ray of a camera shares: forward, the
/// normalized cross of up and right.
pub open spec fn cam_fwd(c: CameraModel) -> V3 {
    v3_normalized(v3_cross(c.up, c.right))
}

/// The bounded primary ray of pixel index `i`: the origin is the center
/// offset along right by the column's distance and along up by the row's,
/// the direction is forward, and both sampling intervals span the first
/// pixel's edges.
pub open spec fn cam_ray(c: CameraModel, w: int, h: int, i: int) -> BoundedRayModel {
    let x = i % w;
    let y = i / w;
    let origin = v3_add(
        v3_add(c.center, v3_scale(c.right, cam_dist(c.focal_length, h, x))),
        v3_scale(c.up, cam_dist(c.focal_length, h, y)),
    );
    let pixel_interval = IntervalModel {
        left: cam_dist(c.focal_length, h, 0),
        right: cam_dist(c.focal_length, h, 1),
    };
    BoundedRayModel {
        ray: RayModel { origin: origin, dir: cam_fwd(c) },
        up: c.up,
        right: c.right,
        up_interval: pixel_interval,
        right_interval: pixel_interval,
    }
}

/// Pixel offsets grow with the pixel index.
pub proof fn lemma_cam_dist_mono(focal: int, h: int, k1: int, k2: int)
    requires
        0 < focal,
        0 < h,
        0 <= k1 <= k2,
    ensures
        cam_dist(focal, h, k1) <= cam_dist(focal, h, k2),
{
    let n1 = 2 * (k1 * 65536 + 32768);
    let n2 = 2 * (k2 * 65536 + 32768);
    vstd::arithmetic::div_mod::lemma_div_is_ordered(n1, n2, h);
    lemma_fmul_mono(n1 / h - 65536, n2 / h - 65536, focal);
}

/// One pixel-edge offset, executably.
fn cam_dist_exec(focal: i64, h: u32, k: u32) -> (r: i64)
    requires
        1 <= h <= DIM_MAX,
        k <= DIM_MAX,
        0 < focal <= FOCAL_MAX as int,
    ensures
        r == cam_dist(focal as int, h as int, k as int),
{
    let num: u64 = 2 * ((k as u64) * 65536 + 32768);
    let q: u64 = num / (h as u64);
    proof {
        vstd::arithmetic::div_mod::lemma_div_is_ordered_by_denominator(num as int, 1, h as int);
        vstd::arithmetic::div_mod::lemma_div_by_multiple(num as int, 1);
        lemma_fmul_bound((q as int) - 65536, focal as int, 4294967296int, FOCAL_MAX as int);
    }
    let qs: i64 = (q as i64) - 65536;
    mul_fp(qs, focal)
}

impl Camera {
    /// Builds a camera looking from `origin` toward `target`. The two must
    /// differ; a degenerate basis (or a target within one quantum of the
    /// origin) is reported as an error carrying the offending vector.
    pub fn look_at(origin: Pnt3, target: Pnt3) -> (r: Result<Camera, Vec3>)
        requires
            v3_bounded(origin@, CAM_MAX as int),
            v3_bounded(target@, CAM_MAX as int),
            origin@ != target@,
        ensures
            match r {
                Ok(c) => look_at_spec(origin@, target@) == Result::<CameraModel, V3>::Ok(c@)
                    && cam_wf(c@),
                Err(v) => look_at_spec(origin@, target@) == Result::<CameraModel, V3>::Err(v@),
            },
    {
        let diff = target.sub(origin);
        let zaxis = match diff.normalize() {
            Ok(z) => z,
            Err(v) => {
                return Err(v);
            },
        };
        let world_up = Vec3 { x: 0, y: SCALE, z: 0 };
        proof {
            lemma_v3_cross_bound(zaxis@, world_up@, SCALE as int, SCALE as int);
        }
        let cx = zaxis.cross(&world_up);
        let cand = match cx.normalize() {
            Ok(x) => Ok(x),
            Err(_) => {
                let world_fwd = Vec3 { x: 0, y: 0, z: SCALE };
                proof {
                    lemma_v3_cross_bound(zaxis@, world_fwd@, SCALE as int, SCALE as int);
                }
                let cz = zaxis.cross(&world_fwd);
                match cz.normalize() {
                    Ok(x) => Ok(x),
                    Err(v) => Err(v),
                }
            },
        };
        let xaxis = match cand {
            Ok(x) => x,
            Err(v) => {
                return Err(v);
            },
        };
        proof {
            lemma_v3_cross_bound(xaxis@, zaxis@, SCALE as int, SCALE as int);
        }
        let cy = xaxis.cross(&zaxis.to_vec3());
        let yaxis = match cy.normalize() {
            Ok(y) => y,
            Err(v) => {
                return Err(v);
            },
        };
        proof {
            lemma_v3_dot_bound(diff@, diff@, 1073741824int, 1073741824int);
            lemma_v3_dot_self_nonneg(diff@);
            lemma_sqrt_i_upper(v3_dot(diff@, diff@) * (SCALE as int), 2147483647int);
        }
        let focal_length = diff.len();
        if focal_length <= 0 {
            return Err(diff);
        }
        Ok(Camera { focal_length, center: origin, up: yaxis, right: xaxis })
    }

    /// Builds a camera directly from its parts.
    pub fn new(focal_length: i64, center: Pnt3, up: UnitVec3, right: UnitVec3) -> (r: Camera)
        ensures
            r.focal_length == focal_length,
            r.center == center,
            r.up == up,
            r.right == right,
    {
        Camera { focal_length, center, up, right }
    }

    /// Produces one bounded primary ray per pixel index
    /// `i = y * width + x`, row-major. The precondition bounds the image
    /// dimensions and asks that the extreme pixel offsets stay in camera
    /// range, and that the forward axis admits normalization.
    pub fn get_rays(&self, image_width: u32, image_height: u32) -> (out: Vec<UpRightBoundedRay>)
        requires
            cam_wf(self@),
            0 < image_width <= DIM_MAX,
            0 < image_height <= DIM_MAX,
            norm_ok(v3_cross(self@.up, self@.right)),
            abs_i(cam_dist(self@.focal_length, image_height as int, 0)) <= DIST_MAX as int,
            abs_i(cam_dist(self@.focal_length, image_height as int, 1)) <= DIST_MAX as int,
            abs_i(
                cam_dist(
                    self@.focal_length,
                    image_height as int,
                    vstd::math::max(image_width as int, image_height as int) - 1,
                ),
            ) <= DIST_MAX as int,
        ensures
            out@.len() == image_width * image_height,
            forall|i: int|
                0 <= i < out@.len() ==> (#[trigger] out@[i])@ == cam_ray(
                    self@,
                    image_width as int,
                    image_height as int,
                    i,
                ),
            forall|i: int|
                0 <= i < out@.len() ==> ray_wf((#[trigger] out@[i])@.ray) && v3_bounded(
                    (out@[i])@.ray.origin,
                    6442450944,
                ) && (out@[i])@.up == self@.up && (out@[i])@.right == self@.right && abs_i(
                    (out@[i])@.up_interval.left,
                ) <= DIST_MAX as int && abs_i((out@[i])@.up_interval.right) <= DIST_MAX as int
                    && abs_i((out@[i])@.right_interval.left) <= DIST_MAX as int && abs_i(
                    (out@[i])@.right_interval.right,
                ) <= DIST_MAX as int,
    {
        proof {
            lemma_v3_cross_bound(self@.up, self@.right, SCALE as int, SCALE as int);
        }
        let fwd_raw = self.up.cross(&self.right.to_vec3());
        let dir = match fwd_raw.normalize() {
            Ok(d) => d,
            Err(_) => {
                proof {
                    assert(false);
                }
                UnitVec3 { x: 0, y: 0, z: SCALE }
            },
        };
        let d0 = cam_dist_exec(self.focal_length, image_height, 0);
        let d1 = cam_dist_exec(self.focal_length, image_height, 1);
        let pixel_interval = Interval::new(d0, d1);
        proof {
            assert((image_width as int) * (image_height as int) <= 1073741824int)
                by (nonlinear_arith)
                requires 0 < image_width as int <= 32768, 0 < image_height as int <= 32768;
        }
        let n: u32 = image_width * image_height;
        let mut out: Vec<UpRightBoundedRay> = Vec::new();
        let mut i: u32 = 0;
        while i < n
            invariant
                n == image_width * image_height,
                0 < image_width <= DIM_MAX,
                0 < image_height <= DIM_MAX,
                cam_wf(self@),
                norm_ok(v3_cross(self@.up, self@.right)),
                abs_i(cam_dist(self@.focal_length, image_height as int, 0)) <= DIST_MAX as int,
                abs_i(cam_dist(self@.focal_length, image_height as int, 1)) <= DIST_MAX as int,
                abs_i(
                    cam_dist(
                        self@.focal_length,
                        image_height as int,
                        vstd::math::max(image_width as int, image_height as int) - 1,
                    ),
                ) <= DIST_MAX as int,
                dir@ == cam_fwd(self@),
                is_unit(dir@),
                d0 == cam_dist(self@.focal_length, image_height as int, 0),
                d1 == cam_dist(self@.focal_length, image_height as int, 1),
                pixel_interval.left == d0,
                pixel_interval.right == d1,
                i <= n,
                out@.len() == i,
                forall|j: int|
                    0 <= j < i ==> (#[trigger] out@[j])@ == cam_ray(
                        self@,
                        image_width as int,
                        image_height as int,
                        j,
                    ),
                forall|j: int|
                    0 <= j < i ==> ray_wf((#[trigger] out@[j])@.ray) && v3_bounded(
                        (out@[j])@.ray.origin,
                        6442450944,
                    ) && (out@[j])@.up == self@.up && (out@[j])@.right == self@.right && abs_i(
                        (out@[j])@.up_interval.left,
                    ) <= DIST_MAX as int && abs_i((out@[j])@.up_interval.right) <= DIST_MAX as int
                        && abs_i((out@[j])@.right_interval.left) <= DIST_MAX as int && abs_i(
                        (out@[j])@.right_interval.right,
                    ) <= DIST_MAX as int,
            decreases n - i,
        {
            let x: u32 = i % image_width;
            let y: u32 = i / image_width;
            proof {
                assert(x as int == (i as int) % (image_width as int));
                assert(y as int == (i as int) / (image_width as int));
                vstd::arithmetic::div_mod::lemma_div_is_ordered(
                    i as int,
                    (n - 1) as int,
                    image_width as int,
                );
                assert((image_height as int - 1) * (image_width as int) + (image_width as int
                    - 1) == n - 1) by (nonlinear_arith)
                    requires n as int == (image_width as int) * (image_height as int);
                assert((n - 1) as int / (image_width as int) == image_height as int - 1) by {
                    vstd::arithmetic::div_mod::lemma_fundamental_div_mod_converse(
                        (n - 1) as int,
                        image_width as int,
                        image_height as int - 1,
                        image_width as int - 1,
                    );
                };
            }
            let dr = cam_dist_exec(self.focal_length, image_height, x);
            let du = cam_dist_exec(self.focal_length, image_height, y);
            proof {
                let f = self@.focal_length;
                let h = image_height as int;
                let kmax = vstd::math::max(image_width as int, image_height as int) - 1;
                lemma_cam_dist_mono(f, h, 0, x as int);
                lemma_cam_dist_mono(f, h, x as int, kmax);
                lemma_cam_dist_mono(f, h, 0, y as int);
                lemma_cam_dist_mono(f, h, y as int, kmax);
                lemma_fmul_bound(self@.right.x, dr as int, SCALE as int, DIST_MAX as int);
                lemma_fmul_bound(self@.right.y, dr as int, SCALE as int, DIST_MAX as int);
                lemma_fmul_bound(self@.right.z, dr as int, SCALE as int, DIST_MAX as int);
                lemma_fmul_bound(self@.up.x, du as int, SCALE as int, DIST_MAX as int);
                lemma_fmul_bound(self@.up.y, du as int, SCALE as int, DIST_MAX as int);
                lemma_fmul_bound(self@.up.z, du as int, SCALE as int, DIST_MAX as int);
            }
            let right_off = self.right.mul(dr);
            let up_off = self.up.mul(du);
            let pnt = self.center.add(right_off).add(up_off);
            let ray = Ray::new(pnt, dir);
            let bray = UpRightBoundedRay::new(ray, self.up, self.right, pixel_interval,
                pixel_interval);
            out.push(bray);
            i += 1;
        }
        out
    }
}

} // verus!
