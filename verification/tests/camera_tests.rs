//! Camera basis and ray-generation tests, in 16.16 fixed point.

use raytracer::camera::Camera;
use raytracer::interval::Interval;
use raytracer::ray::{Ray, UpRightBoundedRay};
use raytracer::vec3::{Pnt3, UnitVec3, Vec3};

const S: i64 = 65536;

fn pnt(x: i64, y: i64, z: i64) -> Pnt3 {
    Vec3 { x, y, z }
}

#[test]
fn camera_look_at() {
    let camera = Camera::look_at(pnt(100 * S, 0, 0), pnt(0, 0, 0)).unwrap();
    assert_eq!(camera.up.x, 0);
    assert_eq!(camera.up.y, S);
    assert_eq!(camera.up.z, 0);
    assert_eq!(camera.right.x, 0);
    assert_eq!(camera.right.y, 0);
    assert_eq!(camera.right.z, -S);

    // Other way
    let camera = Camera::look_at(pnt(0, 0, 0), pnt(100 * S, 0, 0)).unwrap();
    assert_eq!(camera.up.x, 0);
    assert_eq!(camera.up.y, S);
    assert_eq!(camera.up.z, 0);
    assert_eq!(camera.right.x, 0);
    assert_eq!(camera.right.y, 0);
    assert_eq!(camera.right.z, S);

    // Looking down the up axis, which needs the fallback world axis
    let camera = Camera::look_at(pnt(0, 100 * S, 0), pnt(0, 0, 0)).unwrap();
    assert_eq!(camera.up.x, 0);
    assert_eq!(camera.up.y, 0);
    assert_eq!(camera.up.z, S);
    assert_eq!(camera.right.x, -S);
    assert_eq!(camera.right.y, 0);
    assert_eq!(camera.right.z, 0);
}

#[test]
fn camera_look_at_degenerate() {
    // A target one quantum away is distinct but too close for a usable
    // focal length: the offending difference vector comes back.
    match Camera::look_at(pnt(0, 0, 0), pnt(0, 0, 1)) {
        Err(v) => assert_eq!(v, pnt(0, 0, 1)),
        Ok(_) => panic!("a sub-quantum view distance must be rejected"),
    }
}

#[test]
fn get_rays() {
    let camera = Camera::look_at(pnt(0, 0, S), pnt(0, 0, 0)).unwrap();
    assert_eq!(camera.up.x, 0);
    assert_eq!(camera.up.y, S);
    assert_eq!(camera.up.z, 0);
    assert_eq!(camera.right.x, S);
    assert_eq!(camera.right.y, 0);
    assert_eq!(camera.right.z, 0);
    assert_eq!(camera.focal_length, S);

    let rays = camera.get_rays(2, 2);
    assert_eq!(rays.len(), 4);

    let ray = &rays[0];
    assert_eq!(ray.ray.origin.x, -S / 2);
    assert_eq!(ray.ray.origin.y, -S / 2);
    assert_eq!(ray.ray.origin.z, S);
    assert_eq!(ray.ray.dir.x, 0);
    assert_eq!(ray.ray.dir.y, 0);
    assert_eq!(ray.ray.dir.z, -S);
    assert_eq!(ray.up_vec.x, 0);
    assert_eq!(ray.up_vec.y, S);
    assert_eq!(ray.up_vec.z, 0);
    assert_eq!(ray.right_vec.x, S);
    assert_eq!(ray.right_vec.y, 0);
    assert_eq!(ray.right_vec.z, 0);
    assert_eq!(ray.up_interval, Interval::new(-S / 2, S / 2));
    assert_eq!(ray.right_interval, Interval::new(-S / 2, S / 2));

    let ray = &rays[1];
    assert_eq!(ray.ray.origin.x, S / 2);
    assert_eq!(ray.ray.origin.y, -S / 2);
    assert_eq!(ray.ray.origin.z, S);
    assert_eq!(ray.ray.dir.x, 0);
    assert_eq!(ray.ray.dir.y, 0);
    assert_eq!(ray.ray.dir.z, -S);
    assert_eq!(ray.up_interval, Interval::new(-S / 2, S / 2));
    assert_eq!(ray.right_interval, Interval::new(-S / 2, S / 2));

    let ray = &rays[2];
    assert_eq!(ray.ray.origin.x, -S / 2);
    assert_eq!(ray.ray.origin.y, S / 2);
    assert_eq!(ray.ray.origin.z, S);

    let ray = &rays[3];
    assert_eq!(ray.ray.origin.x, S / 2);
    assert_eq!(ray.ray.origin.y, S / 2);
    assert_eq!(ray.ray.origin.z, S);

    let rays = camera.get_rays(1, 1);
    assert_eq!(rays.len(), 1);
    assert_eq!(rays[0].ray.origin.x, 0);
    assert_eq!(rays[0].ray.origin.y, 0);
    assert_eq!(rays[0].ray.origin.z, S);
}

#[test]
fn test_up_right_bounded_ray_at() {
    let origin = pnt(0, 0, 0);
    let dir = UnitVec3::new(S, 0, 0);
    let ray = Ray::new(origin, dir);

    let up_vec = UnitVec3::new(0, S, 0);
    let right_vec = UnitVec3::new(0, 0, S);

    let up_interval = Interval::new(0, S);
    let right_interval = Interval::new(0, S);

    let bounded_ray = UpRightBoundedRay::new(ray, up_vec, right_vec, up_interval, right_interval);

    let t = S / 2;
    let u = S / 4;
    let v = 3 * S / 4;

    let result = bounded_ray.at(t, u, v);

    assert_eq!(result, pnt(S / 2, S / 4, 3 * S / 4));
}

#[test]
fn test_up_right_bounded_ray_at_out_of_bounds() {
    let origin = pnt(0, 0, 0);
    let dir = UnitVec3::new(S, 0, 0);
    let ray = Ray::new(origin, dir);

    let up_vec = UnitVec3::new(0, S, 0);
    let right_vec = UnitVec3::new(0, 0, S);

    let up_interval = Interval::new(0, S);
    let right_interval = Interval::new(0, S);

    let bounded_ray = UpRightBoundedRay::new(ray, up_vec, right_vec, up_interval, right_interval);

    let t = S / 2;
    let u = 3 * S / 2;  // outside the interval: `at` clamps nothing
    let v = 3 * S / 4;

    let result = bounded_ray.at(t, u, v);
    assert_eq!(result, pnt(S / 2, 3 * S / 2, 3 * S / 4));
}
