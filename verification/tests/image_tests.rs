//! Scene dispatch, rendering and pixel-buffer tests.

use raytracer::camera::Camera;
use raytracer::color::{fixed_to_u8, Color};
use raytracer::image::Image;
use raytracer::material::Material;
use raytracer::ray::Ray;
use raytracer::rng::Rng;
use raytracer::scene::cube::Cube;
use raytracer::scene::plane::Plane;
use raytracer::scene::sphere::Sphere;
use raytracer::scene::Scene;
use raytracer::vec3::{Pnt3, UnitVec3, Vec3};

const S: i64 = 65536;

fn pnt(x: i64, y: i64, z: i64) -> Pnt3 {
    Vec3 { x, y, z }
}

#[test]
fn fixed_to_u8_saturates() {
    assert_eq!(fixed_to_u8(-500 * S), 0);
    assert_eq!(fixed_to_u8(-255 * S), 0);
    assert_eq!(fixed_to_u8(-1 * S), 0);
    assert_eq!(fixed_to_u8(0), 0);
    assert_eq!(fixed_to_u8(1 * S), 1);
    assert_eq!(fixed_to_u8(255 * S), 255);
    assert_eq!(fixed_to_u8(500 * S), 255);
}

#[test]
fn create_noise_image() {
    let mut rand = Rng::seeded(1337);
    let image = Image::noise(&mut rand, 1600, 900);
    assert_eq!(image.width, 1600);
    assert_eq!(image.height, 900);
    assert_eq!(image.pixels.len(), 1600 * 900);
}

#[test]
fn noise_is_deterministic() {
    let mut r1 = Rng::seeded(1337);
    let mut r2 = Rng::seeded(1337);
    let a = Image::noise(&mut r1, 64, 64);
    let b = Image::noise(&mut r2, 64, 64);
    assert_eq!(a.pixels, b.pixels);
}

#[test]
fn color_add_averages() {
    let a = Color { r: 100, g: 20, b: 30 };
    let b = Color { r: 50, g: 60, b: 70 };
    let c = a.add(b);
    assert_eq!((c.r, c.g, c.b), (75, 40, 50));
}

#[test]
fn color_constructors() {
    assert_eq!(Color::black().to_rgb(), [0, 0, 0]);
    assert_eq!(Color::white().to_rgb(), [255, 255, 255]);
}

#[test]
fn material_default_values() {
    let m = Material::default();
    assert_eq!(m.color, Vec3 { x: 255 * S, y: 255 * S, z: 255 * S });
    assert_eq!(m.albedo, S);
    assert_eq!(m.roughness, S / 2);
    assert_eq!(m.refractive_index, S);
    assert_eq!(m.absorption_coefficient, 0);
}

#[test]
fn scene_nearest_hit_wins() {
    // A sphere behind an overlapping box: the box's face is nearer.
    let mut scene = Scene::new();
    scene.add_sphere(Sphere::new(pnt(0, 0, 0), 1 * S));
    scene.add_cube(Cube::new(pnt(-S, -S, -2 * S), pnt(S, S, 0)));
    let ray = Ray::new(pnt(0, 0, -5 * S), UnitVec3::new(0, 0, S));

    let hit = scene.intersect(&ray).unwrap();
    assert_eq!(hit.t, 3 * S);
    assert_eq!(hit.normal, UnitVec3 { x: 0, y: 0, z: -S });

    // With only the sphere, its own hit is reported.
    let mut scene = Scene::new();
    scene.add_sphere(Sphere::new(pnt(0, 0, 0), 1 * S));
    let hit = scene.intersect(&ray).unwrap();
    assert_eq!(hit.t, 4 * S);
    assert_eq!(hit.normal, UnitVec3 { x: 0, y: 0, z: -S });

    // With nothing in the scene, nothing is hit.
    let scene = Scene::new();
    assert!(scene.intersect(&ray).is_none());

    // A plane facing the ray is found too.
    let mut scene = Scene::new();
    scene.add_plane(Plane::new(pnt(0, 0, 0), UnitVec3::new(0, 0, S)));
    let hit = scene.intersect(&ray).unwrap();
    assert_eq!(hit.t, 5 * S);
}

#[test]
fn render_buffer_has_width_times_height_pixels() {
    let cam = Camera::look_at(pnt(0, 0, 50 * S), pnt(0, 0, 0)).unwrap();
    let mut scene = Scene::new();
    scene.add_sphere(Sphere::new(pnt(0, 0, 0), 1 * S));

    let image = Image::gen_image(&cam, &scene, 3, 2);
    assert_eq!(image.width, 3);
    assert_eq!(image.height, 2);
    assert_eq!(image.pixels.len(), 6);

    let image = Image::gen_image(&cam, &scene, 1, 1);
    assert_eq!(image.pixels.len(), 1);
}

#[test]
fn render_is_deterministic() {
    let cam = Camera::look_at(pnt(0, 0, 50 * S), pnt(0, 0, 0)).unwrap();
    let mut scene = Scene::new();
    scene.add_sphere(Sphere::new(pnt(0, 0, 0), 1 * S));
    scene.add_cube(Cube::new(pnt(-2 * S, -2 * S, -4 * S), pnt(2 * S, 2 * S, -2 * S)));

    let a = Image::gen_image(&cam, &scene, 2, 2);
    let b = Image::gen_image(&cam, &scene, 2, 2);
    assert_eq!(a.pixels, b.pixels);
    assert_eq!(a, b);
}

#[test]
fn p3_text_matches_format() {
    let image = Image::new(1, 1);
    let bytes = image.to_p3();
    assert_eq!(bytes, b"P3\n1 1\n255\n\n0 0 0".to_vec());

    let image = Image::new(2, 1);
    let bytes = image.to_p3();
    assert_eq!(bytes, b"P3\n2 1\n255\n\n0 0 0\n0 0 0".to_vec());
}

#[test]
fn noise_p3_has_one_triple_per_pixel() {
    let mut rand = Rng::seeded(1337);
    let image = Image::noise(&mut rand, 16, 16);
    let bytes = image.to_p3();
    let text = String::from_utf8(bytes).unwrap();
    let mut lines = text.lines();
    assert_eq!(lines.next(), Some("P3"));
    assert_eq!(lines.next(), Some("16 16"));
    assert_eq!(lines.next(), Some("255"));
    // Every pixel is prefixed with a newline, so one empty line follows
    // the header.
    assert_eq!(lines.next(), Some(""));
    let triples: Vec<&str> = lines.collect();
    assert_eq!(triples.len(), 256);
    for t in triples {
        assert_eq!(t.split(' ').count(), 3);
    }
}
