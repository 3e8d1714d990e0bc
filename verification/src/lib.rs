//! The decision core of a Monte Carlo path tracer.
//!
//! Numbers are IEEE 754 binary64 values carried as bit patterns ([`scalar::Scalar`]).
//! The crate holds everything the renderer decides without rounding: the order
//! of numbers, which root of a sphere intersection counts, how a normal is
//! oriented, the nearest hit of an aggregate, what a material does with a
//! bounce, how deep a path may go, and how a finished colour becomes bytes of
//! an image. Arithmetic that rounds is done by the caller.
pub mod scalar;
pub mod vec3;
pub mod ray;
pub mod material;
pub mod hittable;
pub mod color;
pub mod integrator;
pub mod raster;

pub use crate::hittable::list::HittableList;
pub use crate::hittable::sphere::Sphere;
pub use crate::hittable::HitRecord;
pub use crate::hittable::Hittable;
pub use crate::material::Dielectric;
pub use crate::material::Lambertian;
pub use crate::material::Material;
pub use crate::material::MaterialValue;
pub use crate::material::Metal;
pub use crate::material::ScatterRecord;
pub use crate::ray::Ray;
pub use crate::scalar::Scalar;
pub use crate::vec3::Vec3;
