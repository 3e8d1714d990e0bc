//! Materials: what a surface does with a ray that reaches it.
//!
//! A material answers a hit with a [`ScatterRecord`] (a reflectance and an
//! outgoing ray) or with nothing, which means the ray is absorbed. The
//! directions and projections that a material needs are rounded arithmetic
//! and random draws; the caller computes them, and the functions here decide
//! what becomes of them.
use vstd::prelude::*;
use vstd::std_specs::convert::FromSpecImpl;
use crate::hittable::HitRecord;
use crate::ray::Ray;
use crate::scalar::Scalar;
use crate::scalar::ONE_BITS;
use crate::vec3::Vec3;

verus! {

/// The answer of a material: the fraction of light it passes on, per colour
/// channel, and the ray along which the path goes on.
#[derive(Clone, Copy, Debug)]
pub struct ScatterRecord {
    pub attenuation: Vec3,
    pub scattered: Ray,
}

/// What scatters light: a material, or the materials of a scene together.
pub trait Material {
    /// The answer of the surface at `rec` to the incoming ray `r_in`, or
    /// nothing if the surface absorbs the ray. The answer may depend on
    /// chance.
    fn scatter(&self, r_in: Ray, rec: &HitRecord) -> (s: Option<ScatterRecord>);
}

/// The colour white, `(1, 1, 1)`.
pub open spec fn white() -> Vec3 {
    Vec3 { x: Scalar { bits: ONE_BITS }, y: Scalar { bits: ONE_BITS }, z: Scalar { bits: ONE_BITS } }
}

/// A diffuse surface.
#[derive(Clone, Copy, Debug)]
pub struct Lambertian {
    pub albedo: Vec3,
}

impl Lambertian {
    pub fn new(albedo: Vec3) -> (m: Lambertian)
        ensures
            m.albedo == albedo,
    {
        Lambertian { albedo }
    }

    pub fn albedo(&self) -> (a: Vec3)
        ensures
            a == self.albedo,
    {
        self.albedo
    }

    /// The direction a diffuse bounce takes: `bounce`, the sum of the normal
    /// and a random unit vector, unless the two nearly cancel; then the
    /// normal itself.
    pub open spec fn direction_spec(normal: Vec3, bounce: Vec3) -> Vec3 {
        if bounce.near_zero() {
            normal
        } else {
            bounce
        }
    }

    /// Scatters at `rec`. `bounce` is the normal of `rec` plus a random unit
    /// vector. A diffuse surface never absorbs: the reflectance is the
    /// albedo, whatever the direction.
    pub fn scatter(&self, rec: &HitRecord, bounce: Vec3) -> (s: Option<ScatterRecord>)
        ensures
            s == Some(
                ScatterRecord {
                    attenuation: self.albedo,
                    scattered: Ray {
                        origin: rec.p,
                        direction: Self::direction_spec(rec.normal, bounce),
                    },
                },
            ),
            self.albedo.in_unit_cube() ==> s.unwrap().attenuation.in_unit_cube(),
    {
        let direction = if bounce.is_near_zero() {
            rec.normal
        } else {
            bounce
        };
        Some(ScatterRecord { attenuation: self.albedo, scattered: Ray::new(rec.p, direction) })
    }
}

/// A mirror-like surface; `fuzz` blurs the reflection.
#[derive(Clone, Copy, Debug)]
pub struct Metal {
    pub albedo: Vec3,
    pub fuzz: Scalar,
}

impl Metal {
    /// `fuzz` is meant to lie in `[0, 1]`; larger values are taken as they are.
    pub fn new(albedo: Vec3, fuzz: Scalar) -> (m: Metal)
        ensures
            m.albedo == albedo,
            m.fuzz == fuzz,
    {
        Metal { albedo, fuzz }
    }

    pub fn albedo(&self) -> (a: Vec3)
        ensures
            a == self.albedo,
    {
        self.albedo
    }

    pub fn fuzz(&self) -> (f: Scalar)
        ensures
            f == self.fuzz,
    {
        self.fuzz
    }

    /// Scatters at `rec`. `direction` is the mirrored incoming direction plus
    /// `fuzz` times a random point of the unit ball, and `facing` is its
    /// projection on the normal of `rec`. The ray is absorbed unless it
    /// leaves the surface, that is unless `facing > 0`.
    pub fn scatter(&self, rec: &HitRecord, direction: Vec3, facing: Scalar) -> (s: Option<
        ScatterRecord,
    >)
        ensures
            s == (if (Scalar { bits: 0 }).lt_spec(facing) {
                Some(
                    ScatterRecord {
                        attenuation: self.albedo,
                        scattered: Ray { origin: rec.p, direction },
                    },
                )
            } else {
                None
            }),
            self.albedo.in_unit_cube() ==> (s matches Some(out) ==> out.attenuation.in_unit_cube()),
    {
        if facing.gt(Scalar::zero()) {
            Some(ScatterRecord { attenuation: self.albedo, scattered: Ray::new(rec.p, direction) })
        } else {
            None
        }
    }
}

/// A transparent surface such as glass, with its index of refraction.
#[derive(Clone, Copy, Debug)]
pub struct Dielectric {
    pub ir: Scalar,
}

impl Dielectric {
    pub fn new(ir: Scalar) -> (m: Dielectric)
        ensures
            m.ir == ir,
    {
        Dielectric { ir }
    }

    pub fn refractive_index(&self) -> (ir: Scalar)
        ensures
            ir == self.ir,
    {
        self.ir
    }

    /// Whether light reflects rather than refracts. `grazing` is the ratio of
    /// the indices times the sine of the angle of incidence: above one there
    /// is no refracted ray at all. Otherwise the surface reflects with
    /// probability `reflectance`, decided by the uniform `sample`.
    pub open spec fn reflects_spec(grazing: Scalar, reflectance: Scalar, sample: Scalar) -> bool {
        (Scalar { bits: ONE_BITS }).lt_spec(grazing) || sample.lt_spec(reflectance)
    }

    /// The ratio of the indices of refraction across the surface, seen from
    /// the side the ray comes from: `reciprocal`, which is `1 / ir`, when the
    /// ray enters through the front face, and `ir` itself when it leaves.
    pub fn refraction_ratio(&self, front_face: bool, reciprocal: Scalar) -> (ratio: Scalar)
        ensures
            ratio == (if front_face {
                reciprocal
            } else {
                self.ir
            }),
    {
        if front_face {
            reciprocal
        } else {
            self.ir
        }
    }

    /// Whether refraction is impossible: `grazing > 1`.
    pub fn must_reflect(grazing: Scalar) -> (r: bool)
        ensures
            r == (Scalar { bits: ONE_BITS }).lt_spec(grazing),
            r ==> forall|reflectance: Scalar, sample: Scalar|
                Self::reflects_spec(grazing, reflectance, sample),
    {
        grazing.gt(Scalar::one())
    }

    /// Whether the ray is reflected: always where it cannot refract, else
    /// when `reflectance > sample`.
    pub fn reflects(grazing: Scalar, reflectance: Scalar, sample: Scalar) -> (r: bool)
        ensures
            r == Self::reflects_spec(grazing, reflectance, sample),
    {
        grazing.gt(Scalar::one()) || reflectance.gt(sample)
    }

    /// Scatters at `rec` along `direction`, the reflected or the refracted
    /// direction as `reflects` decided. Glass absorbs nothing: the
    /// reflectance is white.
    pub fn scatter(&self, rec: &HitRecord, direction: Vec3) -> (s: Option<ScatterRecord>)
        ensures
            s == Some(
                ScatterRecord { attenuation: white(), scattered: Ray { origin: rec.p, direction } },
            ),
            s.unwrap().attenuation.in_unit_cube(),
    {
        Some(
            ScatterRecord {
                attenuation: Vec3::splat(Scalar::one()),
                scattered: Ray::new(rec.p, direction),
            },
        )
    }
}

/// Any of the materials.
#[derive(Clone, Copy, Debug)]
pub enum MaterialValue {
    Metal(Metal),
    Lambertian(Lambertian),
    Dielectric(Dielectric),
}

impl From<Metal> for MaterialValue {
    fn from(value: Metal) -> (m: MaterialValue) {
        MaterialValue::Metal(value)
    }
}

impl FromSpecImpl<Metal> for MaterialValue {
    open spec fn obeys_from_spec() -> bool {
        true
    }

    open spec fn from_spec(value: Metal) -> MaterialValue {
        MaterialValue::Metal(value)
    }
}

impl From<Lambertian> for MaterialValue {
    fn from(value: Lambertian) -> (m: MaterialValue) {
        MaterialValue::Lambertian(value)
    }
}

impl FromSpecImpl<Lambertian> for MaterialValue {
    open spec fn obeys_from_spec() -> bool {
        true
    }

    open spec fn from_spec(value: Lambertian) -> MaterialValue {
        MaterialValue::Lambertian(value)
    }
}

impl From<Dielectric> for MaterialValue {
    fn from(value: Dielectric) -> (m: MaterialValue) {
        MaterialValue::Dielectric(value)
    }
}

impl FromSpecImpl<Dielectric> for MaterialValue {
    open spec fn obeys_from_spec() -> bool {
        true
    }

    open spec fn from_spec(value: Dielectric) -> MaterialValue {
        MaterialValue::Dielectric(value)
    }
}

} // verus!
