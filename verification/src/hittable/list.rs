//! Collections of shapes.
use vstd::prelude::*;
use crate::hittable::before;
use crate::hittable::lawful;
use crate::hittable::HitRecord;
use crate::hittable::Hittable;
use crate::ray::Ray;
use crate::scalar::Scalar;

verus! {

/// Shapes, in the order in which they were added.
pub struct HittableList<H: Hittable> {
    pub objects: Vec<H>,
}

/// How far the search still reaches once `found` is the nearest hit so far.
pub open spec fn reach(found: Option<HitRecord>, t_max: Scalar) -> Scalar {
    match found {
        Some(h) => h.t,
        None => t_max,
    }
}

/// The nearest hit among `objects`, searched in order: each shape is asked
/// only for a hit nearer than the nearest one found before it.
pub open spec fn nearest<H: Hittable>(
    objects: Seq<H>,
    r: Ray,
    t_min: Scalar,
    t_max: Scalar,
) -> Option<HitRecord>
    decreases objects.len(),
{
    if objects.len() == 0 {
        None
    } else {
        let found = nearest(objects.drop_last(), r, t_min, t_max);
        match objects.last().hit_spec(r, t_min, reach(found, t_max)) {
            Some(h) => Some(h),
            None => found,
        }
    }
}

impl<H: Hittable> HittableList<H> {
    /// The empty collection.
    pub fn new() -> (list: Self)
        ensures
            list.objects@ == Seq::<H>::empty(),
    {
        HittableList { objects: Vec::new() }
    }

    /// Adds `object` behind the others.
    pub fn add(&mut self, object: H)
        ensures
            final(self).objects@ == old(self).objects@.push(object),
    {
        self.objects.push(object);
    }
}

impl<H: Hittable> Default for HittableList<H> {
    /// The empty collection.
    fn default() -> (list: Self)
        ensures
            list.objects@ == Seq::<H>::empty(),
    {
        HittableList { objects: Vec::new() }
    }
}

impl<H: Hittable> Hittable for HittableList<H> {
    open spec fn hit_spec(&self, r: Ray, t_min: Scalar, t_max: Scalar) -> Option<HitRecord> {
        nearest(self.objects@, r, t_min, t_max)
    }

    fn hit(&self, r: Ray, t_min: Scalar, t_max: Scalar) -> (rec: Option<HitRecord>) {
        let mut found: Option<HitRecord> = None;
        let mut closest_so_far = t_max;
        let mut i: usize = 0;
        while i < self.objects.len()
            invariant
                i <= self.objects.len(),
                found == nearest(self.objects@.take(i as int), r, t_min, t_max),
                closest_so_far == reach(found, t_max),
                found matches Some(h) ==> t_min.lt_spec(h.t) && h.t.lt_spec(t_max),
            decreases self.objects.len() - i,
        {
            proof {
                let next = self.objects@.take(i + 1);
                assert(next.drop_last() == self.objects@.take(i as int));
                assert(next.last() == self.objects@[i as int]);
            }
            match self.objects[i].hit(r, t_min, closest_so_far) {
                Some(h) => {
                    found = Some(h);
                    closest_so_far = h.t;
                },
                None => {},
            }
            i += 1;
        }
        proof {
            assert(self.objects@.take(i as int) == self.objects@);
        }
        found
    }
}

/// Whether every shape of `objects` is lawful for `r` and `t_min`.
pub open spec fn all_lawful<H: Hittable>(objects: Seq<H>, r: Ray, t_min: Scalar) -> bool {
    forall|i: int| 0 <= i < objects.len() ==> lawful(#[trigger] objects[i], r, t_min)
}

/// The nearer of two hits; the first one where they are equally far.
pub open spec fn nearer(first: Option<HitRecord>, second: Option<HitRecord>) -> Option<HitRecord> {
    match (first, second) {
        (Some(a), Some(b)) => if b.t.lt_spec(a.t) {
            second
        } else {
            first
        },
        (Some(_), None) => first,
        (None, _) => second,
    }
}

/// Lawful shapes stay lawful when the last one is set apart.
proof fn lemma_split_last<H: Hittable>(objects: Seq<H>, r: Ray, t_min: Scalar)
    requires
        all_lawful(objects, r, t_min),
        objects.len() > 0,
    ensures
        all_lawful(objects.drop_last(), r, t_min),
        lawful(objects.last(), r, t_min),
{
    let init = objects.drop_last();
    assert forall|i: int| 0 <= i < init.len() implies lawful(#[trigger] init[i], r, t_min) by {
        assert(init[i] == objects[i]);
    }
    assert(objects.last() == objects[objects.len() - 1]);
}

/// The nearest hit among lawful shapes lies strictly inside the range.
pub proof fn lemma_nearest_in_range<H: Hittable>(
    objects: Seq<H>,
    r: Ray,
    t_min: Scalar,
    t_max: Scalar,
)
    requires
        all_lawful(objects, r, t_min),
    ensures
        nearest(objects, r, t_min, t_max) matches Some(h) ==> t_min.lt_spec(h.t) && h.t.lt_spec(
            t_max,
        ),
    decreases objects.len(),
{
    if objects.len() > 0 {
        lemma_split_last(objects, r, t_min);
        lemma_nearest_in_range(objects.drop_last(), r, t_min, t_max);
    }
}

/// Searching lawful shapes over a shorter range finds the same hit, or none
/// where that hit lies beyond the shorter range.
pub proof fn lemma_nearest_narrows<H: Hittable>(
    objects: Seq<H>,
    r: Ray,
    t_min: Scalar,
    t_max: Scalar,
    limit: Scalar,
)
    requires
        all_lawful(objects, r, t_min),
        limit.le_spec(t_max),
    ensures
        nearest(objects, r, t_min, limit) == before(nearest(objects, r, t_min, t_max), limit),
    decreases objects.len(),
{
    if objects.len() > 0 {
        let init = objects.drop_last();
        let last = objects.last();
        lemma_split_last(objects, r, t_min);
        lemma_nearest_narrows(init, r, t_min, t_max, limit);
        lemma_nearest_in_range(init, r, t_min, t_max);
        lemma_nearest_in_range(objects, r, t_min, t_max);
        match nearest(init, r, t_min, t_max) {
            None => {
                // The last shape is asked over `limit` in place of `t_max`.
                assert(last.hit_spec(r, t_min, limit) == before(
                    last.hit_spec(r, t_min, t_max),
                    limit,
                ));
            },
            Some(b) => {
                if !b.t.lt_spec(limit) {
                    // The hit found before lies beyond `limit`, so the last
                    // shape is asked over `limit` in place of `b.t`.
                    assert(last.hit_spec(r, t_min, limit) == before(
                        last.hit_spec(r, t_min, b.t),
                        limit,
                    ));
                }
            },
        }
    }
}

/// A collection of lawful shapes is itself lawful, so collections may hold
/// collections.
pub proof fn lemma_list_is_lawful<H: Hittable>(list: HittableList<H>, r: Ray, t_min: Scalar)
    requires
        all_lawful(list.objects@, r, t_min),
    ensures
        lawful(list, r, t_min),
{
    assert forall|t_max: Scalar| #[trigger]
        list.hit_spec(r, t_min, t_max) matches Some(h) ==> t_min.lt_spec(h.t) && h.t.lt_spec(
            t_max,
        ) by {
        lemma_nearest_in_range(list.objects@, r, t_min, t_max);
    }
    assert forall|t_max: Scalar, limit: Scalar| limit.le_spec(t_max) implies #[trigger] list.hit_spec(
        r,
        t_min,
        limit,
    ) == before(#[trigger] list.hit_spec(r, t_min, t_max), limit) by {
        lemma_nearest_narrows(list.objects@, r, t_min, t_max, limit);
    }
}

/// What the search finds among lawful shapes: nothing exactly when no shape
/// is hit inside the range; otherwise the hit of one of the shapes over the
/// whole range, and no shape is hit nearer than that.
pub proof fn lemma_nearest_is_minimum<H: Hittable>(
    objects: Seq<H>,
    r: Ray,
    t_min: Scalar,
    t_max: Scalar,
)
    requires
        all_lawful(objects, r, t_min),
    ensures
        match nearest(objects, r, t_min, t_max) {
            None => forall|i: int|
                0 <= i < objects.len() ==> (#[trigger] objects[i]).hit_spec(r, t_min, t_max)
                    is None,
            Some(h) => {
                &&& exists|i: int|
                    0 <= i < objects.len() && (#[trigger] objects[i]).hit_spec(r, t_min, t_max)
                        == Some(h)
                &&& forall|j: int|
                    0 <= j < objects.len() ==> ((#[trigger] objects[j]).hit_spec(r, t_min, t_max)
                        matches Some(g) ==> h.t.le_spec(g.t))
            },
        },
    decreases objects.len(),
{
    if objects.len() > 0 {
        let init = objects.drop_last();
        let last_index = objects.len() - 1;
        let last = objects[last_index];
        lemma_split_last(objects, r, t_min);
        lemma_nearest_is_minimum(init, r, t_min, t_max);
        lemma_nearest_in_range(init, r, t_min, t_max);
        lemma_nearest_in_range(objects, r, t_min, t_max);
        let whole = last.hit_spec(r, t_min, t_max);
        assert forall|i: int| 0 <= i < init.len() implies (#[trigger] objects[i]).hit_spec(
            r,
            t_min,
            t_max,
        ) == init[i].hit_spec(r, t_min, t_max) by {
            assert(init[i] == objects[i]);
        }
        match nearest(init, r, t_min, t_max) {
            None => {
                if whole is Some {
                    assert(objects[last_index].hit_spec(r, t_min, t_max) == whole);
                }
            },
            Some(b) => {
                // The last shape is asked over `b.t` in place of `t_max`.
                assert(last.hit_spec(r, t_min, b.t) == before(whole, b.t));
                let earlier = choose|i: int|
                    0 <= i < init.len() && (#[trigger] init[i]).hit_spec(r, t_min, t_max) == Some(
                        b,
                    );
                assert(objects[earlier].hit_spec(r, t_min, t_max) == Some(b));
                if before(whole, b.t) is Some {
                    assert(objects[last_index].hit_spec(r, t_min, t_max) == whole);
                }
            },
        }
    }
}

/// Of two shapes the collection reports the hit that is nearer: its ray
/// parameter is the smaller of the two that the shapes report over the same
/// range, and where only one shape is hit, that hit. This holds whenever the
/// second shape, asked only for hits nearer than the hit of the first, gives
/// the hit that it gives over the whole range or, where that lies no nearer,
/// none.
pub proof fn lemma_pair_reports_nearer<H: Hittable>(
    list: HittableList<H>,
    r: Ray,
    t_min: Scalar,
    t_max: Scalar,
)
    requires
        list.objects@.len() == 2,
        list.objects@[0].hit_spec(r, t_min, t_max) matches Some(first) ==> list.objects@[1].hit_spec(
            r,
            t_min,
            first.t,
        ) == before(list.objects@[1].hit_spec(r, t_min, t_max), first.t),
    ensures
        list.hit_spec(r, t_min, t_max) == nearer(
            list.objects@[0].hit_spec(r, t_min, t_max),
            list.objects@[1].hit_spec(r, t_min, t_max),
        ),
{
    let objects = list.objects@;
    let one = objects.drop_last();
    assert(one.len() == 1 && one.last() == objects[0]);
    assert(one.drop_last().len() == 0);
    assert(nearest(one.drop_last(), r, t_min, t_max) is None);
    assert(nearest(one, r, t_min, t_max) == objects[0].hit_spec(r, t_min, t_max));
    assert(objects.last() == objects[1]);
}

} // verus!
