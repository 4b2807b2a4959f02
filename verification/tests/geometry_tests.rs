//! Primitive intersection tests, in 16.16 fixed point.

use raytracer::ray::Ray;
use raytracer::scene::cube::Cube;
use raytracer::scene::line::Line;
use raytracer::scene::plane::Plane;
use raytracer::scene::sphere::Sphere;
use raytracer::vec3::{Pnt3, UnitVec3, Vec3};

const S: i64 = 65536;

fn pnt(x: i64, y: i64, z: i64) -> Pnt3 {
    Vec3 { x, y, z }
}

fn unit(x: i64, y: i64, z: i64) -> UnitVec3 {
    UnitVec3::new(x, y, z)
}

#[test]
fn sphere_new() {
    let sphere = Sphere { mid: pnt(1 * S, 2 * S, 3 * S), r: 4 * S };
    assert_eq!(sphere.mid.x, 1 * S);
    assert_eq!(sphere.mid.y, 2 * S);
    assert_eq!(sphere.mid.z, 3 * S);
    assert_eq!(sphere.r, 4 * S);
}

#[test]
fn ray_at() {
    let ray = Ray::new(pnt(1 * S, 2 * S, 3 * S), unit(S, 0, 0));
    let point = ray.at(2 * S);
    assert_eq!(point.x, 3 * S);
    assert_eq!(point.y, 2 * S);
    assert_eq!(point.z, 3 * S);
}

#[test]
fn ray_sphere_intersection() {
    let sphere = Sphere { mid: pnt(0, 0, 0), r: 1 * S };
    let ray = Ray::new(pnt(0, 0, -2 * S), unit(0, 0, S));
    let intersection = sphere.intersect(&ray);
    assert_eq!(intersection, Some((1 * S, UnitVec3 { x: 0, y: 0, z: -S })));

    let ray = Ray::new(pnt(0, 0, -2 * S), unit(0, 0, -S));
    assert_eq!(sphere.intersect(&ray), None);

    let ray = Ray::new(pnt(0, 0, -2 * S), unit(0, S, 0));
    assert_eq!(sphere.intersect(&ray), None);

    let sphere = Sphere { mid: pnt(454 * S, 303 * S, -50 * S), r: 1 * S };
    let ray = Ray::new(pnt(455 * S, 255 * S, 20 * S), unit(0, 0, -S));
    assert_eq!(sphere.intersect(&ray), None);

    let sphere = Sphere { mid: pnt(454 * S, 303 * S, -500 * S), r: 100 * S };
    let intersection = sphere.intersect(&ray);
    assert_eq!(intersection, Some((28329827, UnitVec3 { x: 655, y: -31457, z: 57488 })));
}

#[test]
fn cube_test_intersect() {
    let cube = Cube::new(pnt(0, 0, 0), pnt(S, S, S));
    let ray = Ray::new(pnt(S / 2, S / 2, -S), unit(0, 0, S));
    let (t, normal) = cube.intersect(&ray).unwrap();
    assert_eq!(t, 1 * S);
    assert_eq!(normal, UnitVec3 { x: 0, y: 0, z: -S });

    let ray = Ray::new(pnt(S / 2, S / 2, S), unit(0, 0, S));
    let (t, normal) = cube.intersect(&ray).unwrap();
    assert_eq!(t, 0);
    assert_eq!(normal, UnitVec3 { x: 0, y: 0, z: S });

    // x
    let ray = Ray::new(pnt(-S, S / 2, S / 2), unit(S, 0, 0));
    let (t, normal) = cube.intersect(&ray).unwrap();
    assert_eq!(t, 1 * S);
    assert_eq!(normal, UnitVec3 { x: -S, y: 0, z: 0 });

    let ray = Ray::new(pnt(S, S / 2, S / 2), unit(S, 0, 0));
    let (t, normal) = cube.intersect(&ray).unwrap();
    assert_eq!(t, 0);
    assert_eq!(normal, UnitVec3 { x: S, y: 0, z: 0 });

    // y
    let ray = Ray::new(pnt(S / 2, -S, S / 2), unit(0, S, 0));
    let (t, normal) = cube.intersect(&ray).unwrap();
    assert_eq!(t, 1 * S);
    assert_eq!(normal, UnitVec3 { x: 0, y: -S, z: 0 });

    let ray = Ray::new(pnt(S / 2, S, S / 2), unit(0, S, 0));
    let (t, normal) = cube.intersect(&ray).unwrap();
    assert_eq!(t, 0);
    assert_eq!(normal, UnitVec3 { x: 0, y: S, z: 0 });

    // xz, hitting at a 45 degree angle: the distance is the square root of
    // two and the normal points back along both axes, quantized
    let ray = Ray::new(pnt(-S, S / 2, -S), unit(S, 0, S));
    let (t, normal) = cube.intersect(&ray).unwrap();
    assert_eq!(t, 92681);
    assert_eq!(normal, UnitVec3 { x: -46341, y: 0, z: -46341 });

    let ray = Ray::new(pnt(S, S / 2, S), unit(-S, 0, -S));
    let (t, normal) = cube.intersect(&ray).unwrap();
    assert_eq!(t, 0);
    assert_eq!(normal, UnitVec3 { x: 46341, y: 0, z: 46341 });

    // odd angle
    let ray = Ray::new(pnt(0, 0, 0), unit(S, S, S));
    let (t, normal) = cube.intersect(&ray).unwrap();
    assert_eq!(t, 0);
    assert_eq!(normal, UnitVec3 { x: -37837, y: -37837, z: -37837 });

    // no intersection
    let ray = Ray::new(pnt(5 * S, 0, 0), unit(-S, 19661, 0));
    assert!(cube.intersect(&ray).is_none());

    let ray = Ray::new(pnt(5 * S, 0, 0), unit(0, -S, 0));
    assert!(cube.intersect(&ray).is_none());

    let ray = Ray::new(pnt(0, 5 * S, 0), unit(0, 0, -S));
    assert!(cube.intersect(&ray).is_none());

    let ray = Ray::new(pnt(0, 5 * S, 0), unit(S, S, S));
    assert!(cube.intersect(&ray).is_none());
}

#[test]
fn plane_test_intersect() {
    let plane = Plane::new(pnt(0, 0, 0), unit(0, 0, S));
    let ray = Ray::new(pnt(S / 2, S / 2, -S), unit(0, 0, S));
    let intersection = plane.intersect(&ray).unwrap();
    assert_eq!(intersection.t, 1 * S);
    assert_eq!(intersection.normal, UnitVec3 { x: 0, y: 0, z: S });

    let ray = Ray::new(pnt(S / 2, S / 2, S), unit(0, 0, S));
    assert!(plane.intersect(&ray).is_none());
}

#[test]
fn line_test_intersect() {
    // A line has zero thickness: only rays that pass exactly through its
    // axis can meet it.
    let line = Line::new(pnt(0, 0, 0), unit(0, 0, S), 50 * S, 10000 * S);

    // A ray offset from the axis misses, even running parallel to it.
    let ray = Ray::new(pnt(S / 2, S / 2, -S), unit(0, 0, S));
    assert!(line.intersect(&ray).is_none());

    // A ray starting on the axis, short of the base point, meets it one
    // unit in; the normal points back along every axis at the base corner.
    let ray = Ray::new(pnt(0, 0, -S), unit(0, 0, S));
    let hit = line.intersect(&ray).unwrap();
    assert_eq!(hit.t, 1 * S);
    assert_eq!(hit.normal, UnitVec3 { x: 37837, y: 37837, z: 37837 });
}
