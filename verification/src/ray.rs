//! Rays.

use vstd::prelude::*;
use crate::vec3::Vec3;

verus! {

/// A half-line: the points `origin + t * direction`. The direction need not
/// have unit length.
#[derive(Clone, Copy, Debug, PartialEq, Eq, Structural)]
pub struct Ray {
    pub origin: Vec3,
    pub direction: Vec3,
}

impl Ray {
    pub fn new(origin: Vec3, direction: Vec3) -> (ray: Ray)
        ensures
            ray.origin == origin,
            ray.direction == direction,
    {
        Ray { origin, direction }
    }
}

} // verus!
