//! The image: pixel buffer, noise fill, rendering, and the pixel-text
//! encoding.
//!
//! Rendering maps every pixel's sample cluster independently to a color
//! and writes it into the buffer at the matching index. The whole pass is
//! a mathematical function of the scene, the camera and the dimensions
//! ([`render_spec`]), so re-rendering the same inputs reproduces the same
//! buffer bit for bit.

use vstd::prelude::*;
use crate::camera::{cam_dist, cam_ray, cam_wf, Camera, CameraModel, DIM_MAX, DIST_MAX};
use crate::color::{channel_of, fixed_to_u8, Color};
use crate::fixed::abs_i;
use crate::ray::BoundedRayModel;
use crate::rng::{byte_of, rng_out, rng_seeded, rng_step, Rng};
use crate::sample_cluster::{cluster_wf, sample_from_spec, seed_of, SampleCluster, CLUSTER_SIZE};
use crate::scene::{scene_wf, Scene, SceneModel};
use crate::tracer::{walk, walk_spec, ACC_MAX, BOUNCES};
use crate::vec3::{norm_ok, v3_add, v3_cross, v3_scale, V3, Vec3};
use crate::ray::RayModel;

verus! {

/// The fixed-point aspect ratio of an image.
pub open spec fn aspect_of(w: int, h: int) -> int {
    w * 65536 / h
}

/// An image: dimensions, aspect ratio and a row-major pixel buffer of
/// exactly `width * height` colors.
#[derive(Debug, Clone, PartialEq)]
pub struct Image {
    pub width: u32,
    pub height: u32,
    pub aspect_ratio: i64,
    pub pixels: Vec<Color>,
}

/// The image invariant: positive bounded dimensions, a buffer of exactly
/// `width * height` pixels, and the matching aspect ratio.
pub open spec fn image_wf(im: Image) -> bool {
    &&& 0 < im.width <= DIM_MAX
    &&& 0 < im.height <= DIM_MAX
    &&& im.pixels@.len() == im.width * im.height
    &&& im.aspect_ratio == aspect_of(im.width as int, im.height as int)
}

/// One noise pixel: three bytes drawn in order from the generator.
pub open spec fn noise_color(r: Rng) -> Color {
    Color {
        r: byte_of(rng_out(r)) as u8,
        g: byte_of(rng_out(rng_step(r))) as u8,
        b: byte_of(rng_out(rng_step(rng_step(r)))) as u8,
    }
}

/// `n` noise pixels and the generator state after drawing them.
pub open spec fn noise_seq(r: Rng, n: nat) -> (Seq<Color>, Rng)
    decreases n,
{
    if n == 0 {
        (Seq::empty(), r)
    } else {
        let rest = noise_seq(rng_step(rng_step(rng_step(r))), (n - 1) as nat);
        (seq![noise_color(r)] + rest.0, rest.1)
    }
}

/// The jittered sample ray one cluster state yields: the pixel origin
/// offset along the camera axes by draws from the sampling intervals.
pub open spec fn cluster_ray_m(bray: BoundedRayModel, up: V3, right: V3, rand: Rng) -> RayModel {
    RayModel {
        origin: v3_add(
            v3_add(
                bray.ray.origin,
                v3_scale(right, sample_from_spec(bray.right_interval, rng_out(rand))),
            ),
            v3_scale(up, sample_from_spec(bray.up_interval, rng_out(rng_step(rand)))),
        ),
        dir: bray.ray.dir,
    }
}

/// The pixel accumulation: each of `n` more samples traces one jittered
/// ray through the walk, divides the walk's color by the number of hits
/// (at least one) and adds it to the running sum; the sampling and walk
/// generators thread through.
pub open spec fn pixel_loop_spec(
    s: SceneModel,
    bray: BoundedRayModel,
    up: V3,
    right: V3,
    srand: Rng,
    wrand: Rng,
    sum: V3,
    n: nat,
) -> (V3, Rng, Rng)
    decreases n,
{
    if n == 0 {
        (sum, srand, wrand)
    } else {
        let ray = cluster_ray_m(bray, up, right, srand);
        let w = walk_spec(s, ray, wrand, BOUNCES as nat, V3 { x: 0, y: 0, z: 0 }, 0);
        let d = vstd::math::max(w.1, 1);
        let sample = V3 { x: w.0.x / d, y: w.0.y / d, z: w.0.z / d };
        pixel_loop_spec(
            s,
            bray,
            up,
            right,
            rng_step(rng_step(srand)),
            w.2,
            v3_add(sum, sample),
            (n - 1) as nat,
        )
    }
}

/// One pixel's final color: the cluster's samples averaged and truncated
/// to bytes. The sampling generator is seeded from the pixel ray's origin;
/// the walk generator from a fixed constant.
pub open spec fn pixel_color_spec(s: SceneModel, bray: BoundedRayModel, up: V3, right: V3)
    -> Color {
    let r = pixel_loop_spec(
        s,
        bray,
        up,
        right,
        rng_seeded(seed_of(bray.ray.origin.x)),
        rng_seeded(1337),
        V3 { x: 0, y: 0, z: 0 },
        CLUSTER_SIZE as nat,
    );
    Color {
        r: channel_of(r.0.x / 256) as u8,
        g: channel_of(r.0.y / 256) as u8,
        b: channel_of(r.0.z / 256) as u8,
    }
}

/// The whole rendered buffer, pixel `i` colored from its own cluster.
pub open spec fn render_spec(s: SceneModel, c: CameraModel, w: int, h: int) -> Seq<Color> {
    Seq::new((w * h) as nat, |i: int| pixel_color_spec(s, cam_ray(c, w, h, i), c.up, c.right))
}

/// Rendering is deterministic: two buffers rendered from the same scene,
/// camera and dimensions are equal, bit for bit.
pub proof fn lemma_render_deterministic(
    s: SceneModel,
    c: CameraModel,
    w: int,
    h: int,
    p1: Seq<Color>,
    p2: Seq<Color>,
)
    requires
        p1 == render_spec(s, c, w, h),
        p2 == render_spec(s, c, w, h),
    ensures
        p1 == p2,
{
}

/// The decimal digits of a nonnegative number, in ASCII.
pub open spec fn dec_digits(n: int) -> Seq<u8>
    decreases n,
{
    if n < 10 {
        seq![(48 + n) as u8]
    } else {
        dec_digits(n / 10) + seq![(48 + n % 10) as u8]
    }
}

/// The text of one pixel: a newline, then the three channels in decimal,
/// separated by single spaces.
pub open spec fn pixel_text(c: Color) -> Seq<u8> {
    seq![10u8] + dec_digits(c.r as int) + seq![32u8] + dec_digits(c.g as int) + seq![32u8]
        + dec_digits(c.b as int)
}

/// The text of the first `n` pixels.
pub open spec fn pixels_text(ps: Seq<Color>, n: nat) -> Seq<u8>
    decreases n,
{
    if n == 0 {
        Seq::empty()
    } else {
        pixels_text(ps, (n - 1) as nat) + pixel_text(ps[n - 1])
    }
}

/// The pixel-file bytes of an image: the magic line, the dimensions, the
/// channel ceiling, and one decimal triple per pixel.
pub open spec fn p3_bytes(w: int, h: int, ps: Seq<Color>) -> Seq<u8> {
    seq![80u8, 51u8, 10u8] + dec_digits(w) + seq![32u8] + dec_digits(h) + seq![10u8]
        + dec_digits(255) + seq![10u8] + pixels_text(ps, ps.len())
}

/// Appends the decimal digits of `n`.
fn push_dec(out: &mut Vec<u8>, n: u32)
    ensures
        final(out)@ == old(out)@ + dec_digits(n as int),
    decreases n,
{
    if n < 10 {
        out.push((48 + n) as u8);
        proof {
            assert(out@ =~= old(out)@ + dec_digits(n as int));
        }
    } else {
        push_dec(out, n / 10);
        out.push((48 + n % 10) as u8);
        proof {
            assert(out@ =~= old(out)@ + dec_digits(n as int));
        }
    }
}

impl Image {
    /// Allocates a black image of the given dimensions.
    pub fn new(width: u32, height: u32) -> (r: Image)
        requires
            0 < width <= DIM_MAX,
            0 < height <= DIM_MAX,
        ensures
            r.width == width,
            r.height == height,
            image_wf(r),
            forall|i: int|
                0 <= i < r.pixels@.len() ==> (#[trigger] r.pixels@[i]) == (Color {
                    r: 0,
                    g: 0,
                    b: 0,
                }),
    {
        proof {
            assert((width as int) * (height as int) <= 1073741824int) by (nonlinear_arith)
                requires 0 < width as int <= 32768, 0 < height as int <= 32768;
        }
        let n: u32 = width * height;
        let mut pixels: Vec<Color> = Vec::new();
        let mut i: u32 = 0;
        while i < n
            invariant
                i <= n,
                pixels@.len() == i,
                forall|j: int|
                    0 <= j < i ==> (#[trigger] pixels@[j]) == (Color { r: 0, g: 0, b: 0 }),
            decreases n - i,
        {
            pixels.push(Color::black());
            i += 1;
        }
        let aspect_ratio = ((width as u64) * 65536 / (height as u64)) as i64;
        Image { width, height, aspect_ratio, pixels }
    }

    /// Fills an image with noise drawn from the given generator, three
    /// bytes per pixel.
    pub fn noise(rand: &mut Rng, width: u32, height: u32) -> (r: Image)
        requires
            0 < width <= DIM_MAX,
            0 < height <= DIM_MAX,
        ensures
            r.width == width,
            r.height == height,
            image_wf(r),
            r.pixels@ == noise_seq(*old(rand), (width * height) as nat).0,
            *final(rand) == noise_seq(*old(rand), (width * height) as nat).1,
    {
        proof {
            assert((width as int) * (height as int) <= 1073741824int) by (nonlinear_arith)
                requires 0 < width as int <= 32768, 0 < height as int <= 32768;
        }
        let n: u32 = width * height;
        let ghost r0 = *rand;
        let mut pixels: Vec<Color> = Vec::new();
        let mut i: u32 = 0;
        while i < n
            invariant
                i <= n,
                pixels@.len() == i,
                noise_seq(r0, n as nat).0 == pixels@ + noise_seq(*rand, (n - i) as nat).0,
                noise_seq(r0, n as nat).1 == noise_seq(*rand, (n - i) as nat).1,
            decreases n - i,
        {
            let ghost pre = *rand;
            let cr = rand.next_byte();
            let cg = rand.next_byte();
            let cb = rand.next_byte();
            let c = Color { r: cr, g: cg, b: cb };
            proof {
                assert(c == noise_color(pre));
                assert(pixels@.push(c) + noise_seq(*rand, (n - i - 1) as nat).0 =~= pixels@ + (
                seq![noise_color(pre)] + noise_seq(*rand, (n - i - 1) as nat).0));
            }
            pixels.push(c);
            i += 1;
        }
        let aspect_ratio = ((width as u64) * 65536 / (height as u64)) as i64;
        proof {
            assert(noise_seq(r0, n as nat).0 =~= pixels@);
        }
        Image { width, height, aspect_ratio, pixels }
    }

    /// Renders the scene through the camera into a fresh image: one sample
    /// cluster per pixel, each averaged into its own buffer slot. The
    /// buffer holds exactly `width * height` pixels and equals
    /// [`render_spec`] of the inputs.
    pub fn gen_image(cam: &Camera, scene: &Scene, width: u32, height: u32) -> (r: Image)
        requires
            scene_wf(scene@),
            cam_wf(cam@),
            0 < width <= DIM_MAX,
            0 < height <= DIM_MAX,
            norm_ok(v3_cross(cam@.up, cam@.right)),
            abs_i(cam_dist(cam@.focal_length, height as int, 0)) <= DIST_MAX as int,
            abs_i(cam_dist(cam@.focal_length, height as int, 1)) <= DIST_MAX as int,
            abs_i(
                cam_dist(
                    cam@.focal_length,
                    height as int,
                    vstd::math::max(width as int, height as int) - 1,
                ),
            ) <= DIST_MAX as int,
        ensures
            r.width == width,
            r.height == height,
            image_wf(r),
            r.pixels@.len() == width * height,
            r.pixels@ == render_spec(scene@, cam@, width as int, height as int),
    {
        let rays = cam.get_rays(width, height);
        proof {
            assert((width as int) * (height as int) <= 1073741824int) by (nonlinear_arith)
                requires 0 < width as int <= 32768, 0 < height as int <= 32768;
        }
        let n: u32 = width * height;
        let mut pixels: Vec<Color> = Vec::new();
        let mut i: u32 = 0;
        while i < n
            invariant
                i <= n,
                n == width * height,
                scene_wf(scene@),
                cam_wf(cam@),
                rays@.len() == n,
                forall|j: int|
                    0 <= j < n ==> (#[trigger] rays@[j])@ == cam_ray(
                        cam@,
                        width as int,
                        height as int,
                        j,
                    ),
                forall|j: int|
                    0 <= j < n ==> crate::ray::ray_wf((#[trigger] rays@[j])@.ray)
                        && crate::vec3::v3_bounded((rays@[j])@.ray.origin, 6442450944) && abs_i(
                        (rays@[j])@.up_interval.left,
                    ) <= DIST_MAX as int && abs_i((rays@[j])@.up_interval.right) <= DIST_MAX as int
                        && abs_i((rays@[j])@.right_interval.left) <= DIST_MAX as int && abs_i(
                        (rays@[j])@.right_interval.right,
                    ) <= DIST_MAX as int,
                pixels@.len() == i,
                forall|j: int|
                    0 <= j < i ==> (#[trigger] pixels@[j]) == pixel_color_spec(
                        scene@,
                        cam_ray(cam@, width as int, height as int, j),
                        cam@.up,
                        cam@.right,
                    ),
            decreases n - i,
        {
            let bray = rays[i as usize];
            let cluster = SampleCluster::from_camera_ray(*cam, bray);
            proof {
                assert(cluster_wf(cluster));
            }
            let px = render_pixel(scene, cluster);
            pixels.push(px);
            i += 1;
        }
        let aspect_ratio = ((width as u64) * 65536 / (height as u64)) as i64;
        proof {
            assert(pixels@ =~= render_spec(scene@, cam@, width as int, height as int));
        }
        Image { width, height, aspect_ratio, pixels }
    }

    /// The pixel-file text of this image, byte for byte.
    pub fn to_p3(&self) -> (out: Vec<u8>)
        ensures
            out@ == p3_bytes(self.width as int, self.height as int, self.pixels@),
    {
        let mut out: Vec<u8> = Vec::new();
        out.push(80);
        out.push(51);
        out.push(10);
        proof {
            assert(out@ =~= seq![80u8, 51u8, 10u8]);
        }
        push_dec(&mut out, self.width);
        out.push(32);
        proof {
            assert(out@ =~= seq![80u8, 51u8, 10u8] + dec_digits(self.width as int) + seq![32u8]);
        }
        push_dec(&mut out, self.height);
        out.push(10);
        push_dec(&mut out, 255);
        out.push(10);
        let ghost header = seq![80u8, 51u8, 10u8] + dec_digits(self.width as int) + seq![32u8]
            + dec_digits(self.height as int) + seq![10u8] + dec_digits(255) + seq![10u8];
        proof {
            assert(out@ =~= header);
        }
        let m = self.pixels.len();
        let mut i: usize = 0;
        while i < m
            invariant
                i <= m,
                m == self.pixels@.len(),
                out@ == header + pixels_text(self.pixels@, i as nat),
            decreases m - i,
        {
            let px = self.pixels[i];
            out.push(10);
            push_dec(&mut out, px.r as u32);
            out.push(32);
            push_dec(&mut out, px.g as u32);
            out.push(32);
            push_dec(&mut out, px.b as u32);
            proof {
                assert(out@ =~= header + (pixels_text(self.pixels@, i as nat) + pixel_text(
                    self.pixels@[i as int],
                )));
                assert(header + (pixels_text(self.pixels@, i as nat) + pixel_text(
                    self.pixels@[i as int],
                )) =~= header + pixels_text(self.pixels@, (i + 1) as nat));
            }
            i += 1;
        }
        proof {
            assert(out@ =~= p3_bytes(self.width as int, self.height as int, self.pixels@));
        }
        out
    }
}

/// Renders one pixel from its sample cluster: every sample in the cluster
/// is traced and the average is truncated to bytes. Pixels are independent
/// of one another, so callers may schedule these passes in any order.
pub fn render_pixel(scene: &Scene, cluster: SampleCluster) -> (r: Color)
    requires
        scene_wf(scene@),
        cluster_wf(cluster),
        cluster.current_iteration == 0,
        cluster.rand == rng_seeded(seed_of(cluster.ray@.ray.origin.x)),
    ensures
        r == pixel_color_spec(scene@, cluster.ray@, cluster.camera@.up, cluster.camera@.right),
{
    let ghost bray = cluster.ray@;
    let ghost up = cluster.camera@.up;
    let ghost right = cluster.camera@.right;
    let ghost srand0 = cluster.rand;
    let ghost wrand0 = rng_seeded(1337);
    let mut cl = cluster;
    let mut wrand = Rng::seeded(1337);
    let mut sum = Vec3 { x: 0, y: 0, z: 0 };
    let mut i: usize = 0;
    while i < CLUSTER_SIZE
        invariant
            i <= CLUSTER_SIZE,
            scene_wf(scene@),
            cluster_wf(cl),
            cl.ray@ == bray,
            cl.camera@.up == up,
            cl.camera@.right == right,
            cl.current_iteration == i,
            0 <= sum@.x <= i * (ACC_MAX as int),
            0 <= sum@.y <= i * (ACC_MAX as int),
            0 <= sum@.z <= i * (ACC_MAX as int),
            pixel_loop_spec(scene@, bray, up, right, srand0, wrand0, V3 { x: 0, y: 0, z: 0 },
                CLUSTER_SIZE as nat) == pixel_loop_spec(
                scene@,
                bray,
                up,
                right,
                cl.rand,
                wrand,
                sum@,
                (CLUSTER_SIZE - i) as nat,
            ),
        decreases CLUSTER_SIZE - i,
    {
        let ghost pre_rand = cl.rand;
        let ray = match cl.next() {
            Some(ray) => ray,
            None => {
                proof {
                    assert(false);
                }
                return Color::black();
            },
        };
        proof {
            assert(ray@ == cluster_ray_m(bray, up, right, pre_rand));
        }
        let w = walk(scene, ray, &mut wrand, BOUNCES, Vec3 { x: 0, y: 0, z: 0 }, 0);
        let hits = w.1;
        let d: u32 = if hits == 0 {
            1
        } else {
            hits
        };
        let sx = ((w.0.x as u64) / (d as u64)) as i64;
        let sy = ((w.0.y as u64) / (d as u64)) as i64;
        let sz = ((w.0.z as u64) / (d as u64)) as i64;
        proof {
            vstd::arithmetic::div_mod::lemma_div_is_ordered_by_denominator(w.0@.x, 1, d as int);
            vstd::arithmetic::div_mod::lemma_div_by_multiple(w.0@.x, 1);
            vstd::arithmetic::div_mod::lemma_div_is_ordered_by_denominator(w.0@.y, 1, d as int);
            vstd::arithmetic::div_mod::lemma_div_by_multiple(w.0@.y, 1);
            vstd::arithmetic::div_mod::lemma_div_is_ordered_by_denominator(w.0@.z, 1, d as int);
            vstd::arithmetic::div_mod::lemma_div_by_multiple(w.0@.z, 1);
            vstd::arithmetic::div_mod::lemma_div_pos_is_pos(w.0@.x, d as int);
            vstd::arithmetic::div_mod::lemma_div_pos_is_pos(w.0@.y, d as int);
            vstd::arithmetic::div_mod::lemma_div_pos_is_pos(w.0@.z, d as int);
        }
        sum = Vec3 { x: sum.x + sx, y: sum.y + sy, z: sum.z + sz };
        i += 1;
    }
    let cr = fixed_to_u8(((sum.x as u64) / 256) as i64);
    let cg = fixed_to_u8(((sum.y as u64) / 256) as i64);
    let cb = fixed_to_u8(((sum.z as u64) / 256) as i64);
    Color { r: cr, g: cg, b: cb }
}

} // verus!
