//! Vector algebra tests. Scalars are in 16.16 fixed point: 65536 is one.

use raytracer::vec3::{UnitVec3, Vec3};

const S: i64 = 65536;

#[test]
fn vec3_add() {
    let a = Vec3 { x: 1 * S, y: 2 * S, z: 3 * S };
    let b = Vec3 { x: 4 * S, y: 5 * S, z: 6 * S };
    let c = a.add(b);
    assert_eq!(c.x, 5 * S);
    assert_eq!(c.y, 7 * S);
    assert_eq!(c.z, 9 * S);

    let a = Vec3 { x: 1 * S, y: 2 * S, z: 3 * S };
    let b = Vec3 { x: -4 * S, y: -5 * S, z: -6 * S };
    let c = a.add(b);
    assert_eq!(c.x, -3 * S);
    assert_eq!(c.y, -3 * S);
    assert_eq!(c.z, -3 * S);
}

#[test]
fn vec3_cross() {
    let a = Vec3 { x: 1 * S, y: 2 * S, z: 3 * S };
    let b = Vec3 { x: 4 * S, y: 5 * S, z: 6 * S };
    let c = a.cross(&b);
    assert_eq!(c.x, -3 * S);
    assert_eq!(c.y, 6 * S);
    assert_eq!(c.z, -3 * S);
}

#[test]
fn vec3_mul_scalar() {
    let a = Vec3 { x: 1 * S, y: 2 * S, z: 3 * S };
    let b = 2 * S;
    let c = a.mul(b);
    assert_eq!(c.x, 2 * S);
    assert_eq!(c.y, 4 * S);
    assert_eq!(c.z, 6 * S);
}

#[test]
fn vec3_dot() {
    let a = Vec3 { x: 1 * S, y: 2 * S, z: 3 * S };
    let b = Vec3 { x: 4 * S, y: 5 * S, z: 6 * S };
    assert_eq!(a.dot(&b), 32 * S);

    let a = Vec3 { x: 1 * S, y: 0, z: 0 };
    let b = Vec3 { x: 0, y: 1 * S, z: 0 };
    assert_eq!(a.dot(&b), 0);

    let a = Vec3 { x: 1 * S, y: 0, z: 0 };
    let b = Vec3 { x: 1 * S, y: 0, z: 0 };
    assert_eq!(a.dot(&b), 1 * S);
}

#[test]
fn normalize_unit_length() {
    // A 3-4-5 triangle normalizes exactly at the integer level.
    let v = Vec3 { x: 3 * S, y: 4 * S, z: 0 };
    let u = v.normalize().unwrap();
    assert_eq!(u.x, 39321);
    assert_eq!(u.y, 52428);
    assert_eq!(u.z, 0);
    // Its squared length is one to within the unit tolerance.
    let uv = u.to_vec3();
    let d = uv.dot(&uv);
    assert!((d - S).abs() <= raytracer::vec3::UNIT_TOL);

    // An axis vector normalizes to itself.
    let v = Vec3 { x: 0, y: 0, z: 7 * S };
    let u = v.normalize().unwrap();
    assert_eq!((u.x, u.y, u.z), (0, 0, S));
}

#[test]
fn normalize_zero_reports_input() {
    let v = Vec3 { x: 0, y: 0, z: 0 };
    match v.normalize() {
        Err(w) => assert_eq!(w, v),
        Ok(_) => panic!("the zero vector must not normalize"),
    }
}

#[test]
fn unit_vector_new_matches_normalize() {
    let u = UnitVec3::new(S, 0, S);
    assert_eq!((u.x, u.y, u.z), (46341, 0, 46341));
    let n = UnitVec3::new(0, 0, S).neg();
    assert_eq!((n.x, n.y, n.z), (0, 0, -S));
}
