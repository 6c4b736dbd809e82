//! The decision core of a Monte Carlo ray tracer.
//!
//! Scalars are binary64 values held by their bit patterns. The crate decides
//! everything that depends on their order alone (which root of a sphere is
//! hit, which surface is nearest, whether a ray scatters, how deep a ray is
//! followed, where a pixel goes in the output), and leaves rounding
//! arithmetic to its callers, who hand in the computed quantities or an
//! `Arithmetic` that computes them.

pub mod arithmetic;
pub mod hit;
pub mod material;
pub mod ray;
pub mod render;
pub mod scalar;
pub mod trace;
pub mod vec3;

pub use arithmetic::Arithmetic;
pub use hit::{nearest_hit, Crossing, Crossings, Hit, Hittable, HittableList, Interval, Sphere};
pub use material::{Dielectric, Lambertian, Material, Metal};
pub use ray::Ray;
pub use render::{
    encode, merge, pixel_sum, reduce, render, render_thread, sample, tone_map, ImageSettings,
    RenderSettings,
};
pub use scalar::{clamp, Scalar};
pub use trace::{bounce, ray_color, Bounce};
pub use vec3::{Vec3, Vec3IntoIterator, Vec3Iterator};
