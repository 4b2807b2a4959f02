//! A ray tracer over fixed-point scalars.
//!
//! Every geometric quantity is a real number represented in signed 16.16
//! fixed point: the `i64` value `v` stands for the real `v / 65536`. All of
//! the rendering pipeline — vector algebra, primitive intersection, scene
//! dispatch, camera ray generation, stratified sampling and the bounded
//! random-walk integrator — is written over this representation and verified.

pub mod camera;
pub mod color;
pub mod fixed;
pub mod image;
pub mod interval;
pub mod material;
pub mod ray;
pub mod rng;
pub mod sample_cluster;
pub mod scene;
pub mod tracer;
pub mod vec3;
