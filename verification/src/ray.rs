//! Rays: a starting point and a direction.
use vstd::prelude::*;
use crate::vec3::Vec3;

verus! {

/// The half-line `origin + t * direction`.
#[derive(Clone, Copy, Debug)]
pub struct Ray {
    pub origin: Vec3,
    pub direction: Vec3,
}

impl Ray {
    pub fn new(origin: Vec3, direction: Vec3) -> (r: Ray)
        ensures
            r == (Ray { origin, direction }),
    {
        Ray { origin, direction }
    }

    pub fn origin(self) -> (o: Vec3)
        ensures
            o == self.origin,
    {
        self.origin
    }

    pub fn direction(self) -> (d: Vec3)
        ensures
            d == self.direction,
    {
        self.direction
    }
}

impl Default for Ray {
    fn default() -> (r: Ray)
        ensures
            r.origin == (Vec3 { x: crate::scalar::Scalar { bits: 0 }, y: crate::scalar::Scalar { bits: 0 }, z: crate::scalar::Scalar { bits: 0 } }),
            r.direction == r.origin,
    {
        Ray { origin: Vec3::default(), direction: Vec3::default() }
    }
}

} // verus!
