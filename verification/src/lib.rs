//! A small recursive ray tracer, verified with Verus.
//!
//! All geometry and shading is computed over an exact decimal fixed-point
//! scalar, so every arithmetic step has a precise mathematical contract.

pub mod camera;
pub mod fixed;
pub mod geometry;
pub mod interval;
pub mod material;
pub mod ray;
pub mod rng;
pub mod vec3;

pub use camera::{Camera, Rgb};
pub use fixed::Fx;
pub use geometry::{HitRecord, Hittable, HittableList, Sphere};
pub use interval::Interval;
pub use material::{Lambertian, Material, Metal};
pub use ray::Ray;
pub use rng::Rng;
pub use vec3::{Color, Point3, Vec3};
