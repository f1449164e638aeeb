//! The decision core of a small path tracer.
//!
//! A picture is made by casting rays from a camera into a scene of spheres
//! and following each ray as the surfaces scatter it. This crate decides
//! what is hit, how a material sends a ray on, how far a path is followed,
//! what its radiance is made of and where each pixel goes. It holds every
//! number as the bit pattern of an IEEE 754 single-precision value, compares
//! and truncates such numbers exactly, and never rounds: sums, products,
//! quotients and square roots are evaluated by the caller and handed in.

pub mod materials;
pub mod parallel;
pub mod ray;
pub mod scalar;
pub mod scene;
pub mod shade;
pub mod utils;
pub mod vector;

pub use materials::{rand_in_unit_sphere, Lambertian, Material, Metal};
pub use ray::{Hit, Ray};
pub use scalar::Scalar;
pub use scene::{Camera, Crossing, List, Nearest, Sphere, Surface};
pub use shade::{color, Path, Radiance, Sight, Stage};
pub use vector::Vector3;
