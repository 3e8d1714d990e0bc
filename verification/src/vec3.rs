//! Triples of numbers: points, directions and linear-light colours.
use vstd::prelude::*;
use crate::scalar::Scalar;
use crate::scalar::EPSILON_BITS;
use crate::scalar::ONE_BITS;

verus! {

/// Three numbers. The same type serves as a point, a direction and a colour;
/// which one is meant is the caller's business.
#[derive(Clone, Copy, Debug)]
pub struct Vec3 {
    pub x: Scalar,
    pub y: Scalar,
    pub z: Scalar,
}

impl Vec3 {
    /// The vector with every sign flipped.
    pub open spec fn neg_spec(self) -> Vec3 {
        Vec3 { x: self.x.neg_spec(), y: self.y.neg_spec(), z: self.z.neg_spec() }
    }

    /// Whether every component is smaller in absolute value than `2^-52`.
    pub open spec fn near_zero(self) -> bool {
        let eps = Scalar { bits: EPSILON_BITS };
        self.x.abs_spec().lt_spec(eps) && self.y.abs_spec().lt_spec(eps) && self.z.abs_spec().lt_spec(
            eps,
        )
    }

    /// Whether every component lies in `[0, 1]`, as a reflectance must.
    pub open spec fn in_unit_cube(self) -> bool {
        let zero = Scalar { bits: 0 };
        let one = Scalar { bits: ONE_BITS };
        zero.le_spec(self.x) && self.x.le_spec(one) && zero.le_spec(self.y) && self.y.le_spec(one)
            && zero.le_spec(self.z) && self.z.le_spec(one)
    }

    pub fn new(x: Scalar, y: Scalar, z: Scalar) -> (v: Vec3)
        ensures
            v == (Vec3 { x, y, z }),
    {
        Vec3 { x, y, z }
    }

    /// The vector whose three components are `i`.
    pub fn splat(i: Scalar) -> (v: Vec3)
        ensures
            v == (Vec3 { x: i, y: i, z: i }),
    {
        Vec3 { x: i, y: i, z: i }
    }

    pub fn x(self) -> (r: Scalar)
        ensures
            r == self.x,
    {
        self.x
    }

    pub fn y(self) -> (r: Scalar)
        ensures
            r == self.y,
    {
        self.y
    }

    pub fn z(self) -> (r: Scalar)
        ensures
            r == self.z,
    {
        self.z
    }

    /// The opposite vector. Negation never rounds, so this is exact.
    pub fn neg(self) -> (v: Vec3)
        ensures
            v == self.neg_spec(),
    {
        Vec3 { x: self.x.neg(), y: self.y.neg(), z: self.z.neg() }
    }

    /// Whether the vector is too short to serve as a direction: every
    /// component is below `2^-52` in absolute value.
    pub fn is_near_zero(self) -> (r: bool)
        ensures
            r == self.near_zero(),
    {
        let eps = Scalar::epsilon();
        self.x.abs().lt(eps) && self.y.abs().lt(eps) && self.z.abs().lt(eps)
    }

    /// Whether the vector can be a reflectance: every component in `[0, 1]`.
    pub fn is_in_unit_cube(self) -> (r: bool)
        ensures
            r == self.in_unit_cube(),
    {
        let zero = Scalar::zero();
        let one = Scalar::one();
        zero.le(self.x) && self.x.le(one) && zero.le(self.y) && self.y.le(one) && zero.le(self.z)
            && self.z.le(one)
    }
}

/// Whether a random point is kept by the rejection sampling of the unit ball
/// or disk: its squared length `length_squared` must be less than one.
pub fn inside_unit_ball(length_squared: Scalar) -> (r: bool)
    ensures
        r == length_squared.lt_spec(Scalar { bits: ONE_BITS }),
{
    length_squared.lt(Scalar::one())
}

impl Default for Vec3 {
    /// The zero vector, which is also the colour black.
    fn default() -> (v: Vec3)
        ensures
            v == (Vec3 { x: Scalar { bits: 0 }, y: Scalar { bits: 0 }, z: Scalar { bits: 0 } }),
    {
        Vec3 { x: Scalar::zero(), y: Scalar::zero(), z: Scalar::zero() }
    }
}

} // verus!
