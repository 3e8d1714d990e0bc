//! The light path: how far a ray is followed.
//!
//! The light that arrives along a ray is what the last ray of its path
//! brings in, passed through the reflectance of every surface the path
//! bounced off. A [`Path`] keeps the reflectances and decides when the path
//! ends; [`trace_path`] follows a ray through a scene to the end of its path.
//! Multiplying the colours out is left to the caller.
use vstd::prelude::*;
use vstd::arithmetic::power2::pow2;
use vstd::arithmetic::power2::lemma_pow2_adds;
use vstd::arithmetic::power2::lemma2_to64_rest;
use crate::hittable::Hittable;
use crate::material::Material;
use crate::material::ScatterRecord;
use crate::ray::Ray;
use crate::scalar::Scalar;
use crate::scalar::INFINITY_BITS;
use crate::vec3::Vec3;

verus! {

/// The encoding of `0.001`: hits nearer than this are ignored, so that a
/// scattered ray does not hit the surface it starts from.
pub const NEAREST_HIT_BITS: u64 = 0x3f50_624d_d2f1_a9fc;

/// The lower bound on the ray parameter of a hit: `0.001`.
pub open spec fn nearest_hit() -> Scalar {
    Scalar { bits: NEAREST_HIT_BITS }
}

/// The upper bound on the ray parameter of a hit: none, that is infinity.
pub open spec fn farthest_hit() -> Scalar {
    Scalar { bits: INFINITY_BITS }
}

/// What the scene did with a ray.
#[derive(Clone, Copy, Debug)]
pub enum Event {
    /// The ray hit nothing.
    Miss,
    /// The ray hit a surface that absorbed it.
    Absorbed,
    /// The ray hit a surface that scattered it.
    Scattered(ScatterRecord),
}

/// How a path ended.
#[derive(Clone, Copy, Debug)]
pub enum Ending {
    /// The path left the scene along this ray and brings in the light of the
    /// sky.
    Sky(Ray),
    /// The path was absorbed or cut off: it brings in no light.
    Dark,
}

/// A ray to intersect with the scene, and the range of ray parameters in
/// which a hit counts.
#[derive(Clone, Copy, Debug)]
pub struct Query {
    pub ray: Ray,
    pub t_min: Scalar,
    pub t_max: Scalar,
}

/// A light path under construction.
pub struct Path {
    /// The ray to follow next.
    pub ray: Ray,
    /// How many more rays may be followed.
    pub depth: i32,
    /// The reflectances of the surfaces met so far, the first bounce first.
    pub attenuations: Vec<Vec3>,
    /// How the path ended, once it has.
    pub ending: Option<Ending>,
}

impl Path {
    /// A path is cut off as soon as no depth is left.
    pub open spec fn ending_at(depth: int) -> Option<Ending> {
        if depth <= 0 {
            Some(Ending::Dark)
        } else {
            None
        }
    }

    /// Every path that has not ended has depth left, and no path has
    /// bounced more often than its depth allowed.
    pub open spec fn wf(&self) -> bool {
        &&& self.ending is None ==> self.depth > 0
        &&& self.attenuations@.len() > 0 ==> self.depth >= 0
    }

    /// The depth the path started with: what is left of it, and one unit for
    /// every bounce so far.
    pub open spec fn budget(&self) -> int {
        self.attenuations@.len() + self.depth
    }

    /// Whether the path brings in no light at all: it ended dark before any
    /// bounce.
    pub open spec fn black(&self) -> bool {
        self.ending == Some(Ending::Dark) && self.attenuations@.len() == 0
    }

    /// What `advance` makes of the path when the scene answers `event`.
    pub open spec fn step(&self, event: Event) -> (Ray, int, Seq<Vec3>, Option<Ending>) {
        if self.ending is Some {
            (self.ray, self.depth as int, self.attenuations@, self.ending)
        } else {
            match event {
                Event::Miss => (
                    self.ray,
                    self.depth as int,
                    self.attenuations@,
                    Some(Ending::Sky(self.ray)),
                ),
                Event::Absorbed => (
                    self.ray,
                    self.depth as int,
                    self.attenuations@,
                    Some(Ending::Dark),
                ),
                Event::Scattered(s) => (
                    s.scattered,
                    self.depth - 1,
                    self.attenuations@.push(s.attenuation),
                    Self::ending_at(self.depth - 1),
                ),
            }
        }
    }

    /// Starts a path along `r` that may follow `depth` rays. With no depth
    /// the path is over before it begins, and black.
    pub fn new(r: Ray, depth: i32) -> (path: Path)
        ensures
            path.ray == r,
            path.depth == depth,
            path.attenuations@.len() == 0,
            path.ending == Self::ending_at(depth as int),
            path.wf(),
            path.budget() == depth,
            depth <= 0 ==> path.black(),
    {
        let ending = if depth <= 0 {
            Some(Ending::Dark)
        } else {
            None
        };
        Path { ray: r, depth, attenuations: Vec::new(), ending }
    }

    /// The next ray to intersect with the scene, or nothing when the path
    /// has ended. Hits count from `0.001` on, with no upper limit.
    pub fn query(&self) -> (q: Option<Query>)
        ensures
            q == (if self.ending is None {
                Some(Query { ray: self.ray, t_min: nearest_hit(), t_max: farthest_hit() })
            } else {
                None
            }),
    {
        if self.ending.is_none() {
            Some(
                Query {
                    ray: self.ray,
                    t_min: Scalar::from_bits(NEAREST_HIT_BITS),
                    t_max: Scalar::infinity(),
                },
            )
        } else {
            None
        }
    }

    /// Takes in what the scene did with the ray of the last query. A miss
    /// ends the path in the sky and an absorption ends it dark. A scattering
    /// adds the reflectance, uses up one unit of depth and goes on along the
    /// scattered ray, unless no depth is left: then the path ends dark. A
    /// path that has ended stays as it is.
    pub fn advance(&mut self, event: Event)
        requires
            old(self).wf(),
        ensures
            final(self).wf(),
            (final(self).ray, final(self).depth as int, final(self).attenuations@, final(self).ending)
                == old(self).step(event),
            final(self).budget() == old(self).budget(),
            old(self).ending is None ==> final(self).ending is Some || final(self).depth < old(
                self,
            ).depth,
    {
        if self.ending.is_some() {
            return ;
        }
        match event {
            Event::Miss => {
                self.ending = Some(Ending::Sky(self.ray));
            },
            Event::Absorbed => {
                self.ending = Some(Ending::Dark);
            },
            Event::Scattered(s) => {
                self.attenuations.push(s.attenuation);
                self.ray = s.scattered;
                self.depth = self.depth - 1;
                if self.depth <= 0 {
                    self.ending = Some(Ending::Dark);
                }
            },
        }
    }
}

/// The bound on near hits is the binary64 number nearest to `1 / 1000`:
/// numbers of its size are `2^1012` units apart (a unit being `2^-1074`), and
/// it misses `1 / 1000` by less than a tenth of that.
pub proof fn lemma_nearest_hit_is_a_thousandth()
    ensures
        nearest_hit().shift() == 1012,
        1000 * nearest_hit().quanta() - pow2(1074) == 96 * pow2(1012),
{
    let c = nearest_hit();
    let gap = pow2(1012) as int;
    assert(c.exponent() == 1013 && c.significand() == 0x10_624d_d2f1_a9fc);
    lemma_pow2_adds(62, 1012);
    lemma2_to64_rest();
    assert(pow2(1074) == 0x4000_0000_0000_0000 * gap);
    assert(1000 * (0x10_624d_d2f1_a9fc * gap) - 0x4000_0000_0000_0000 * gap == 96 * gap)
        by (nonlinear_arith);
}

/// Follows `r` through `world` until its path ends: in the sky, in a surface
/// that absorbs it, or after `depth` rays. At each hit `materials` says how
/// the surface scatters.
///
/// What the surfaces do is up to `materials`, so the contract says what
/// holds of every path: it has ended, it is no longer than `depth`, with no
/// depth it is black, a first ray that hits nothing ends it in the sky at
/// once, and a path ends in the sky only along a ray that hits nothing.
pub fn trace_path<H: Hittable, M: Material>(r: Ray, world: &H, materials: &M, depth: i32) -> (path:
    Path)
    ensures
        path.wf(),
        path.ending is Some,
        path.budget() == depth,
        path.attenuations@.len() <= (if depth > 0 {
            depth as int
        } else {
            0
        }),
        depth <= 0 ==> path.black(),
        depth > 0 && world.hit_spec(r, nearest_hit(), farthest_hit()) is None ==> path.ending
            == Some(Ending::Sky(r)) && path.attenuations@.len() == 0,
        depth > 0 && world.hit_spec(r, nearest_hit(), farthest_hit()) is Some
            ==> path.attenuations@.len() > 0 || path.ending == Some(Ending::Dark),
        path.ending matches Some(Ending::Sky(last)) ==> world.hit_spec(
            last,
            nearest_hit(),
            farthest_hit(),
        ) is None,
{
    let mut path = Path::new(r, depth);
    let ghost first = world.hit_spec(r, nearest_hit(), farthest_hit());
    let mut next = path.query();
    while next.is_some()
        invariant
            next == (if path.ending is None {
                Some(Query { ray: path.ray, t_min: nearest_hit(), t_max: farthest_hit() })
            } else {
                None
            }),
            path.wf(),
            path.budget() == depth,
            first == world.hit_spec(r, nearest_hit(), farthest_hit()),
            path.attenuations@.len() == 0 && path.ending is None ==> path.ray == r,
            depth <= 0 ==> path.black(),
            depth > 0 && path.attenuations@.len() == 0 && path.ending is Some ==> {
                ||| first is None && path.ending == Some(Ending::Sky(r))
                ||| first is Some && path.ending == Some(Ending::Dark)
            },
            path.attenuations@.len() > 0 ==> first is Some && depth > 0,
            path.ending matches Some(Ending::Sky(last)) ==> world.hit_spec(
                last,
                nearest_hit(),
                farthest_hit(),
            ) is None,
        decreases
                (if path.ending is None {
                    path.depth + 1
                } else {
                    0
                }),
    {
        let q = next.unwrap();
        let event = match world.hit(q.ray, q.t_min, q.t_max) {
            None => Event::Miss,
            Some(rec) => match materials.scatter(q.ray, &rec) {
                Some(s) => Event::Scattered(s),
                None => Event::Absorbed,
            },
        };
        path.advance(event);
        next = path.query();
    }
    proof {
        lemma_path_length_is_bounded(path);
    }
    path
}

/// No path is longer than its depth: a path that started with depth `d`
/// never holds more than `d` bounces, so following it takes at most `d`
/// intersections with the scene.
pub proof fn lemma_path_length_is_bounded(path: Path)
    requires
        path.wf(),
    ensures
        path.attenuations@.len() <= (if path.budget() > 0 {
            path.budget()
        } else {
            0
        }),
        path.ending is None ==> path.attenuations@.len() < path.budget(),
{
}

} // verus!
