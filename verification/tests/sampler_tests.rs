//! Random-source and sample-cluster tests.

use raytracer::camera::Camera;
use raytracer::interval::Interval;
use raytracer::ray::{Ray, UpRightBoundedRay};
use raytracer::rng::Rng;
use raytracer::sample_cluster::SampleCluster;
use raytracer::vec3::{UnitVec3, Vec3};

const S: i64 = 65536;

#[test]
fn rng_reference_words() {
    let mut rng = Rng::seeded(42);
    assert_eq!(rng.next_u64(), 343935597);
    assert_eq!(rng.next_u64(), 360712942);
    assert_eq!(rng.next_u64(), 2885118872162522);
}

#[test]
fn rng_is_deterministic() {
    let mut a = Rng::seeded(1337);
    let mut b = Rng::seeded(1337);
    for _ in 0..100 {
        assert_eq!(a.next_u64(), b.next_u64());
    }
}

#[test]
fn sample_from() {
    let interval = Interval::new(-S, S);

    let result = SampleCluster::sample_from(interval, 0);
    assert_eq!(result, -S);

    let result = SampleCluster::sample_from(interval, u64::MAX);
    assert_eq!(result, S);

    let result = SampleCluster::sample_from(interval, u64::MAX / 2);
    assert_eq!(result, 0);
}

fn test_cluster() -> SampleCluster {
    let up = UnitVec3::new(0, S, 0);
    let right = UnitVec3::new(S, 0, 0);
    let camera = Camera::new(S, Vec3 { x: 0, y: 0, z: 0 }, up, right);
    let ray = Ray::new(Vec3 { x: 0, y: 0, z: 0 }, UnitVec3::new(0, 0, -S));
    let bray = UpRightBoundedRay::new(
        ray,
        up,
        right,
        Interval::new(-S / 2, S / 2),
        Interval::new(-S / 2, S / 2),
    );
    SampleCluster::from_camera_ray(camera, bray)
}

#[test]
fn cluster_yields_exactly_its_size() {
    let mut cluster = test_cluster();
    assert_eq!(cluster.len(), 256);
    for _ in 0..256 {
        assert!(cluster.next().is_some());
    }
    assert!(cluster.next().is_none());
    assert!(cluster.next().is_none());
}

#[test]
fn cluster_is_reproducible_per_pixel() {
    let mut a = test_cluster();
    let mut b = test_cluster();
    for _ in 0..256 {
        assert_eq!(a.next(), b.next());
    }
}

#[test]
fn cluster_jitter_stays_in_interval() {
    let mut cluster = test_cluster();
    while let Some(ray) = cluster.next() {
        assert!(ray.origin.x >= -S / 2 && ray.origin.x <= S / 2);
        assert!(ray.origin.y >= -S / 2 && ray.origin.y <= S / 2);
        assert_eq!(ray.origin.z, 0);
        assert_eq!((ray.dir.x, ray.dir.y, ray.dir.z), (0, 0, -S));
    }
}
