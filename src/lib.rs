//! A recursive ray tracer over saturating fixed-point arithmetic: vectors, rays,
//! intervals, spheres and their aggregation, the scattering rules of three
//! materials, and the camera that turns a scene into pixel colours.

pub mod camera;
pub mod color;
pub mod fixed;
pub mod hit;
pub mod interval;
pub mod material;
pub mod ray;
pub mod sphere;
pub mod utils;
pub mod vec3;
