//! Spheres.
use vstd::prelude::*;
use crate::hittable::faces_front;
use crate::hittable::oriented;
use crate::hittable::HitRecord;
use crate::material::MaterialValue;
use crate::scalar::Scalar;
use crate::vec3::Vec3;

verus! {

/// A sphere. A negative radius is allowed and turns the outward normal
/// inwards, which makes the inner wall of a hollow shell.
#[derive(Clone, Copy, Debug)]
pub struct Sphere {
    pub center: Vec3,
    pub radius: Scalar,
    pub mat: MaterialValue,
}

/// Whether `t` lies strictly between `t_min` and `t_max`.
pub open spec fn inside(t: Scalar, t_min: Scalar, t_max: Scalar) -> bool {
    t_min.lt_spec(t) && t.lt_spec(t_max)
}

/// The ray parameter at which a ray enters the range `(t_min, t_max)` on a
/// sphere. The ray meets the sphere where `a t^2 + 2 half_b t + c = 0`, with
/// `discriminant = half_b^2 - a c`, `near = (-half_b - sqrt(discriminant)) / a`
/// and `far = (-half_b + sqrt(discriminant)) / a`. A negative discriminant
/// means the ray passes by. Otherwise the near root counts if it lies
/// strictly inside the range, else the far root if that one does.
pub open spec fn select_root_spec(
    discriminant: Scalar,
    near: Scalar,
    far: Scalar,
    t_min: Scalar,
    t_max: Scalar,
) -> Option<Scalar> {
    if discriminant.lt_spec(Scalar { bits: 0 }) {
        None
    } else if inside(near, t_min, t_max) {
        Some(near)
    } else if inside(far, t_min, t_max) {
        Some(far)
    } else {
        None
    }
}

impl Sphere {
    pub fn new(center: Vec3, radius: Scalar, mat: MaterialValue) -> (s: Sphere)
        ensures
            s == (Sphere { center, radius, mat }),
    {
        Sphere { center, radius, mat }
    }

    pub fn center(&self) -> (c: Vec3)
        ensures
            c == self.center,
    {
        self.center
    }

    pub fn radius(&self) -> (r: Scalar)
        ensures
            r == self.radius,
    {
        self.radius
    }

    pub fn material(&self) -> (m: MaterialValue)
        ensures
            m == self.mat,
    {
        self.mat
    }

    /// Picks the root of the intersection equation that counts as the hit;
    /// see [`select_root_spec`].
    pub fn select_root(
        discriminant: Scalar,
        near: Scalar,
        far: Scalar,
        t_min: Scalar,
        t_max: Scalar,
    ) -> (root: Option<Scalar>)
        ensures
            root == select_root_spec(discriminant, near, far, t_min, t_max),
            root matches Some(t) ==> inside(t, t_min, t_max) && (t == near || t == far),
            root is Some <==> !discriminant.lt_spec(Scalar { bits: 0 }) && (inside(
                near,
                t_min,
                t_max,
            ) || inside(far, t_min, t_max)),
    {
        if discriminant.lt(Scalar::zero()) {
            return None;
        }
        if t_min.lt(near) && near.lt(t_max) {
            return Some(near);
        }
        if t_min.lt(far) && far.lt(t_max) {
            return Some(far);
        }
        None
    }

    /// The record of a hit at parameter `t`. `p` is the point of the ray at
    /// `t`, `outward_normal` is `(p - center) / radius`, and `facing` is the
    /// projection of the ray direction on `outward_normal`.
    pub fn record_hit(&self, t: Scalar, p: Vec3, outward_normal: Vec3, facing: Scalar) -> (rec:
        HitRecord)
        ensures
            rec == (HitRecord {
                p,
                normal: oriented(facing, outward_normal),
                mat: self.mat,
                t,
                front_face: faces_front(facing),
            }),
    {
        let mut rec = HitRecord {
            p,
            normal: Vec3::default(),
            mat: self.mat,
            t,
            front_face: false,
        };
        rec.set_face_normal(facing, outward_normal);
        rec
    }
}

/// Shortening the range never changes which root is chosen, it can only lose
/// it: for roots in their natural order, the choice over `(t_min, limit)` is
/// the choice over `(t_min, t_max)` if that lies before `limit`, and none
/// otherwise.
pub proof fn lemma_select_root_narrows(
    discriminant: Scalar,
    near: Scalar,
    far: Scalar,
    t_min: Scalar,
    t_max: Scalar,
    limit: Scalar,
)
    requires
        near.le_spec(far) || near.nan() || far.nan(),
        limit.le_spec(t_max),
    ensures
        select_root_spec(discriminant, near, far, t_min, limit) == (match select_root_spec(
            discriminant,
            near,
            far,
            t_min,
            t_max,
        ) {
            Some(t) => if t.lt_spec(limit) {
                Some(t)
            } else {
                None
            },
            None => None,
        }),
{
}

} // verus!
