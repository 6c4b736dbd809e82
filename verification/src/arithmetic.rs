//! The rounding arithmetic that the renderer leaves to its caller.
//!
//! The crate orders and compares scalars; it does not add, multiply, divide
//! or take roots of them, and it draws no random numbers. Whoever renders a
//! scene supplies these operations as an `Arithmetic`. The crate states
//! nothing of their results and relies on nothing: its contracts speak of
//! whatever the operations give.

use vstd::prelude::*;
use crate::hit::{Crossings, Sphere};
use crate::ray::Ray;
use crate::scalar::Scalar;
use crate::vec3::Vec3;

verus! {

/// What the renderer asks of binary64 arithmetic and of chance. Each method
/// is described by what it is meant to compute; none promises anything, and
/// whatever it returns is taken as it comes.
pub trait Arithmetic {
    /// The crossings of `ray` with `sphere`: the discriminant of their
    /// quadratic, and at each of its two roots the point on the ray, the
    /// outward normal there, and the scalar product of the ray's direction
    /// and that normal, the smaller root first.
    fn solve(&self, sphere: Sphere, ray: Ray) -> Crossings;

    /// The normal plus a random unit vector: the direction in which a
    /// diffuse surface scatters.
    fn diffuse(&self, normal: Vec3) -> Vec3;

    /// The unit vector along `direction` reflected about `normal`, plus
    /// `fuzz` times a random point of the unit sphere; and the scalar
    /// product of that vector and `normal`.
    fn mirror(&self, direction: Vec3, normal: Vec3, fuzz: Scalar) -> (Vec3, Scalar);

    /// One divided by `x`.
    fn inverse(&self, x: Scalar) -> Scalar;

    /// The scalar product of the reversed unit vector along `direction` and
    /// `normal`.
    fn projection(&self, direction: Vec3, normal: Vec3) -> Scalar;

    /// For a refraction ratio and the cosine of the angle of incidence: the
    /// ratio times the sine of that angle.
    fn bend(&self, ratio: Scalar, cos_theta: Scalar) -> Scalar;

    /// For a refraction index and the cosine of the angle of incidence: the
    /// share of the light that is reflected.
    fn reflectance(&self, refraction_index: Scalar, cos_theta: Scalar) -> Scalar;

    /// A number drawn uniformly from zero up to one.
    fn uniform(&self) -> Scalar;

    /// The unit vector along `direction`, reflected about `normal`.
    fn reflect(&self, direction: Vec3, normal: Vec3) -> Vec3;

    /// The unit vector along `direction`, refracted at a surface with the
    /// normal `normal` and the refraction ratio `ratio`.
    fn refract(&self, direction: Vec3, normal: Vec3, ratio: Scalar) -> Vec3;

    /// The colour that a ray sees which hits nothing.
    fn background(&self, ray: Ray) -> Vec3;

    /// The colour `colour` with `attenuation` applied: their product,
    /// channel by channel.
    fn tint(&self, attenuation: Vec3, colour: Vec3) -> Vec3;

    /// A ray from the camera through a random point of pixel `(i, j)`.
    fn camera_ray(&self, i: u32, j: u32) -> Ray;

    /// The sum of two colours, channel by channel.
    fn plus(&self, a: Vec3, b: Vec3) -> Vec3;

    /// A channel's sum over `samples` samples, divided by `samples`.
    fn average(&self, sum: Scalar, samples: u32) -> Scalar;

    /// A channel's value from 0 to 0.999, multiplied by 255.
    fn scale(&self, x: Scalar) -> Scalar;
}

} // verus!
