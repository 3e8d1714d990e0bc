//! What a ray can hit.
pub mod list;
pub mod sphere;

use vstd::prelude::*;
use crate::material::MaterialValue;
use crate::ray::Ray;
use crate::scalar::Scalar;
use crate::vec3::Vec3;

verus! {

/// Where and how a ray met a surface.
///
/// `normal` is the surface normal turned against the incoming ray;
/// `front_face` tells whether the outward normal already pointed that way.
#[derive(Clone, Copy, Debug)]
pub struct HitRecord {
    pub p: Vec3,
    pub normal: Vec3,
    pub mat: MaterialValue,
    pub t: Scalar,
    pub front_face: bool,
}

/// Whether the ray meets the outside of the surface: its direction has a
/// negative projection `facing` on the outward normal.
pub open spec fn faces_front(facing: Scalar) -> bool {
    facing.lt_spec(Scalar { bits: 0 })
}

/// The normal turned against the ray.
pub open spec fn oriented(facing: Scalar, outward_normal: Vec3) -> Vec3 {
    if faces_front(facing) {
        outward_normal
    } else {
        outward_normal.neg_spec()
    }
}

impl HitRecord {
    /// Orients the normal. `facing` is the projection of the ray direction on
    /// `outward_normal` (their dot product).
    pub fn set_face_normal(&mut self, facing: Scalar, outward_normal: Vec3)
        ensures
            final(self).front_face == faces_front(facing),
            final(self).normal == oriented(facing, outward_normal),
            final(self).p == old(self).p,
            final(self).mat == old(self).mat,
            final(self).t == old(self).t,
    {
        self.front_face = facing.lt(Scalar::zero());
        self.normal = if self.front_face {
            outward_normal
        } else {
            outward_normal.neg()
        };
    }
}

/// The projection of the ray direction on the oriented normal, where
/// `facing` is its projection on the outward normal: turning a vector round
/// turns the sign of its projection, and nothing else.
pub open spec fn opposing(facing: Scalar) -> Scalar {
    if faces_front(facing) {
        facing
    } else {
        facing.neg_spec()
    }
}

/// The oriented normal never points along the ray: whatever the projection
/// on the outward normal was, the projection on the oriented normal is at
/// most zero.
pub proof fn lemma_oriented_normal_opposes_ray(facing: Scalar)
    requires
        !facing.nan(),
    ensures
        opposing(facing).le_spec(Scalar { bits: 0 }),
{
}

/// Turning the outward normal round, as a negative radius does, turns the
/// side that counts as the front and leaves the oriented normal where it
/// was, unless the ray only grazes the surface.
pub proof fn lemma_reversed_normal_flips_face(facing: Scalar, outward_normal: Vec3)
    requires
        !facing.nan(),
        facing.magnitude() != 0,
    ensures
        faces_front(facing.neg_spec()) == !faces_front(facing),
        oriented(facing.neg_spec(), outward_normal.neg_spec()) == oriented(facing, outward_normal),
{
    assert(outward_normal.neg_spec().neg_spec() == outward_normal) by {
        assert(outward_normal.x.neg_spec().neg_spec() == outward_normal.x);
        assert(outward_normal.y.neg_spec().neg_spec() == outward_normal.y);
        assert(outward_normal.z.neg_spec().neg_spec() == outward_normal.z);
    }
}

/// A hit, kept only if it lies before `limit`.
pub open spec fn before(hit: Option<HitRecord>, limit: Scalar) -> Option<HitRecord> {
    match hit {
        Some(h) => if h.t.lt_spec(limit) {
            hit
        } else {
            None
        },
        None => None,
    }
}

/// Anything a ray can hit: a single surface or a collection of them.
pub trait Hittable {
    /// What `hit` returns: the nearest place where `r` meets `self` at a
    /// ray parameter strictly between `t_min` and `t_max`, if there is one.
    /// It depends on the shape, the ray and the range, and on nothing else.
    spec fn hit_spec(&self, r: Ray, t_min: Scalar, t_max: Scalar) -> Option<HitRecord>;

    /// Intersects `r` with `self`. A hit counts only if its parameter lies
    /// strictly between `t_min` and `t_max`.
    fn hit(&self, r: Ray, t_min: Scalar, t_max: Scalar) -> (rec: Option<HitRecord>)
        ensures
            rec == self.hit_spec(r, t_min, t_max),
            rec matches Some(h) ==> t_min.lt_spec(h.t) && h.t.lt_spec(t_max),
    ;
}

/// What the intersection of a well-behaved shape looks like from outside, for
/// rays `r` and lower bounds `t_min`: every hit lies strictly inside the
/// range asked for, and asking for a shorter range gives the same hit or,
/// where that hit lies beyond the shorter range, none.
pub open spec fn lawful<H: Hittable>(shape: H, r: Ray, t_min: Scalar) -> bool {
    &&& forall|t_max: Scalar| #[trigger]
        shape.hit_spec(r, t_min, t_max) matches Some(h) ==> t_min.lt_spec(h.t) && h.t.lt_spec(
            t_max,
        )
    &&& forall|t_max: Scalar, limit: Scalar|
        limit.le_spec(t_max) ==> #[trigger] shape.hit_spec(r, t_min, limit) == before(
            #[trigger] shape.hit_spec(r, t_min, t_max),
            limit,
        )
}

} // verus!
