//! The scene: a list of primitives that is itself something a ray can hit.
//! The list tests every primitive in turn and hands each one the parameter
//! of the closest hit so far as its upper limit, so that a later primitive
//! answers only where it is closer.

use vstd::prelude::*;
use crate::hittable::{HitRecord, Hittable};
use crate::ray::Ray;

verus! {

/// The primitives of a scene, in the order in which they are tested.
pub struct HittableList<T> {
    pub objects: Vec<T>,
}

impl<T> Default for HittableList<T> {
    /// A scene without primitives.
    fn default() -> (list: HittableList<T>)
        ensures
            list.objects@.len() == 0,
    {
        HittableList { objects: Vec::new() }
    }
}

impl<T> HittableList<T> {
    /// Puts one more primitive at the end of the list.
    pub fn add(&mut self, object: T)
        ensures
            final(self).objects@ == old(self).objects@.push(object),
    {
        self.objects.push(object);
    }

    /// A scene of the given primitives.
    pub fn new(objects: Vec<T>) -> (list: HittableList<T>)
        ensures
            list.objects == objects,
    {
        HittableList { objects }
    }

    /// Takes every primitive out of the scene.
    pub fn clear(&mut self)
        ensures
            final(self).objects@.len() == 0,
    {
        self.objects.clear();
    }
}

/// `found` is an answer that `object` can give to a test of `ray` between
/// `t_min` and `t_max`.
pub open spec fn answers<V, S, M, T: Hittable<V, S, M>>(
    object: T,
    ray: Ray<V>,
    t_min: S,
    t_max: S,
    found: Option<HitRecord<V, S, M>>,
) -> bool {
    call_ensures(T::hit, (&object, &ray, t_min, t_max), found)
}

/// The upper limit for the next primitive's test: the parameter of the
/// closest hit so far, or `t_max` while nothing was hit.
pub open spec fn limit_after<V, S, M>(closest: Option<HitRecord<V, S, M>>, t_max: S) -> S {
    match closest {
        Some(rec) => rec.t,
        None => t_max,
    }
}

/// The closest hit after one more primitive was tested: what that primitive
/// found, or else the closest hit there was.
pub open spec fn nearer_of<V, S, M>(
    closest: Option<HitRecord<V, S, M>>,
    found: Option<HitRecord<V, S, M>>,
) -> Option<HitRecord<V, S, M>> {
    if found.is_some() {
        found
    } else {
        closest
    }
}

/// The closest hit that a run of answers leaves: the last hit among them.
pub open spec fn closest_in<V, S, M>(found: Seq<Option<HitRecord<V, S, M>>>) -> Option<
    HitRecord<V, S, M>,
>
    decreases found.len(),
{
    if found.len() == 0 {
        None
    } else {
        nearer_of(closest_in(found.drop_last()), found.last())
    }
}

/// `found` holds an answer of each primitive in turn, each one tested up to
/// the limit that the answers before it left.
pub open spec fn scanned_by<V, S, M, T: Hittable<V, S, M>>(
    objects: Seq<T>,
    ray: Ray<V>,
    t_min: S,
    t_max: S,
    found: Seq<Option<HitRecord<V, S, M>>>,
) -> bool {
    &&& found.len() == objects.len()
    &&& forall|k: int|
        0 <= k < objects.len() ==> answers(
            objects[k],
            ray,
            t_min,
            limit_after(closest_in(found.take(k)), t_max),
            #[trigger] found[k],
        )
}

/// `closest` is what a scan of `objects` can leave: the closest hit in a run
/// of answers of the primitives.
pub open spec fn scanned<V, S, M, T: Hittable<V, S, M>>(
    objects: Seq<T>,
    ray: Ray<V>,
    t_min: S,
    t_max: S,
    closest: Option<HitRecord<V, S, M>>,
) -> bool {
    exists|found: Seq<Option<HitRecord<V, S, M>>>|
        #[trigger] scanned_by(objects, ray, t_min, t_max, found) && closest == closest_in(found)
}

/// `a` comes no later than `b` in the order `le`.
pub open spec fn precedes<S>(le: spec_fn(S, S) -> bool, a: S, b: S) -> bool {
    le(a, b)
}

/// Every primitive answers inside the interval it was asked for.
pub open spec fn answers_within<V, S, M, T: Hittable<V, S, M>>(
    objects: Seq<T>,
    ray: Ray<V>,
    le: spec_fn(S, S) -> bool,
) -> bool {
    forall|k: int, lo: S, hi: S, rec: HitRecord<V, S, M>|
        0 <= k < objects.len() && #[trigger] answers(objects[k], ray, lo, hi, Some(rec))
            ==> precedes(le, lo, rec.t) && precedes(le, rec.t, hi)
}

/// `le` is reflexive and transitive.
#[verifier::opaque]
pub open spec fn is_preorder<S>(le: spec_fn(S, S) -> bool) -> bool {
    &&& forall|a: S| #[trigger] precedes(le, a, a)
    &&& forall|a: S, b: S, c: S|
        #[trigger] precedes(le, a, b) && #[trigger] precedes(le, b, c) ==> precedes(le, a, c)
}

/// The upper limit for the next primitive's test.
pub fn search_limit<V, S: Copy, M>(closest: &Option<HitRecord<V, S, M>>, t_max: S) -> (limit: S)
    ensures
        limit == limit_after(*closest, t_max),
{
    match closest {
        Some(rec) => rec.t,
        None => t_max,
    }
}

/// The closest hit after one more primitive was tested up to the limit that
/// `search_limit` gives.
pub fn nearer<V, S, M>(
    closest: Option<HitRecord<V, S, M>>,
    found: Option<HitRecord<V, S, M>>,
) -> (kept: Option<HitRecord<V, S, M>>)
    ensures
        kept == nearer_of(closest, found),
{
    match found {
        Some(rec) => Some(rec),
        None => closest,
    }
}

impl<V, S: Copy, M, T: Hittable<V, S, M>> Hittable<V, S, M> for HittableList<T> {
    /// The hit that is left after every primitive was tested in turn, each up
    /// to the closest hit before it. An empty scene is never hit.
    fn hit(&self, ray: &Ray<V>, t_min: S, t_max: S) -> (rec: Option<HitRecord<V, S, M>>)
        ensures
            scanned(self.objects@, *ray, t_min, t_max, rec),
            self.objects@.len() == 0 ==> rec.is_none(),
    {
        let mut closest: Option<HitRecord<V, S, M>> = None;
        let ghost mut found: Seq<Option<HitRecord<V, S, M>>> = Seq::empty();
        let mut i: usize = 0;
        while i < self.objects.len()
            invariant
                i <= self.objects@.len(),
                found.len() == i,
                closest == closest_in(found),
                forall|k: int|
                    0 <= k < i ==> answers(
                        self.objects@[k],
                        *ray,
                        t_min,
                        limit_after(closest_in(found.take(k)), t_max),
                        #[trigger] found[k],
                    ),
            decreases self.objects@.len() - i,
        {
            let limit = search_limit(&closest, t_max);
            let answer = self.objects[i].hit(ray, t_min, limit);
            proof {
                let before = found;
                found = before.push(answer);
                assert(found.drop_last() =~= before);
                assert(found.take(i as int) =~= before);
                assert forall|k: int| 0 <= k < i implies found.take(k) =~= before.take(k) by {}
                assert forall|k: int| 0 <= k < i + 1 implies answers(
                    self.objects@[k],
                    *ray,
                    t_min,
                    limit_after(closest_in(found.take(k)), t_max),
                    #[trigger] found[k],
                ) by {
                    if k < i {
                        assert(found.take(k) == before.take(k));
                        assert(found[k] == before[k]);
                    }
                }
            }
            closest = nearer(closest, answer);
            i += 1;
        }
        assert(scanned_by(self.objects@, *ray, t_min, t_max, found));
        closest
    }
}

/// A scan of no primitives leaves no hit.
pub proof fn lemma_empty_scene_is_never_hit<V, S, M, T: Hittable<V, S, M>>(
    objects: Seq<T>,
    ray: Ray<V>,
    t_min: S,
    t_max: S,
    closest: Option<HitRecord<V, S, M>>,
)
    requires
        objects.len() == 0,
        scanned(objects, ray, t_min, t_max, closest),
    ensures
        closest.is_none(),
{
}

/// Where a run of answers leaves no hit, no primitive was hit; where it
/// leaves one, that hit is one of the answers.
pub proof fn lemma_closest_is_an_answer<V, S, M>(found: Seq<Option<HitRecord<V, S, M>>>)
    ensures
        closest_in(found).is_none() ==> forall|k: int|
            0 <= k < found.len() ==> (#[trigger] found[k]).is_none(),
        closest_in(found).is_some() ==> exists|k: int|
            0 <= k < found.len() && #[trigger] found[k] == closest_in(found),
    decreases found.len(),
{
    if found.len() > 0 {
        let init = found.drop_last();
        lemma_closest_is_an_answer(init);
        assert forall|k: int| 0 <= k < init.len() implies #[trigger] init[k] == found[k] by {}
        if found.last().is_some() {
            assert(found[found.len() - 1] == closest_in(found));
        } else if closest_in(init).is_some() {
            let k = choose|k: int| 0 <= k < init.len() && #[trigger] init[k] == closest_in(init);
            assert(found[k] == closest_in(found));
        } else {
            assert forall|k: int| 0 <= k < found.len() implies (#[trigger] found[k]).is_none() by {
                if k < init.len() {
                    assert(init[k].is_none());
                }
            }
        }
    }
}

/// A scan of a list is, up to its last primitive, a scan of the list without
/// it.
pub proof fn lemma_scan_of_fewer<V, S, M, T: Hittable<V, S, M>>(
    objects: Seq<T>,
    ray: Ray<V>,
    t_min: S,
    t_max: S,
    found: Seq<Option<HitRecord<V, S, M>>>,
    le: spec_fn(S, S) -> bool,
)
    requires
        objects.len() > 0,
        scanned_by(objects, ray, t_min, t_max, found),
        answers_within(objects, ray, le),
    ensures
        scanned_by(objects.drop_last(), ray, t_min, t_max, found.drop_last()),
        answers_within(objects.drop_last(), ray, le),
        answers(
            objects.last(),
            ray,
            t_min,
            limit_after(closest_in(found.drop_last()), t_max),
            found.last(),
        ),
{
    let n = found.len() - 1;
    let init = found.drop_last();
    let fewer = objects.drop_last();
    assert forall|k: int| 0 <= k < fewer.len() implies answers(
        fewer[k],
        ray,
        t_min,
        limit_after(closest_in(init.take(k)), t_max),
        #[trigger] init[k],
    ) by {
        assert(init.take(k) =~= found.take(k));
        assert(init[k] == found[k]);
        assert(fewer[k] == objects[k]);
    }
    assert forall|k: int, lo: S, hi: S, rec: HitRecord<V, S, M>|
        0 <= k < fewer.len() && #[trigger] answers(
            fewer[k],
            ray,
            lo,
            hi,
            Some(rec),
        ) implies precedes(le, lo, rec.t) && precedes(le, rec.t, hi) by {
        assert(fewer[k] == objects[k]);
    }
    assert(found.take(n) =~= init);
    assert(found[n] == found.last());
}

/// In a preorder, what precedes something that precedes a third precedes the
/// third, and everything precedes itself.
pub proof fn lemma_preorder<S>(le: spec_fn(S, S) -> bool, a: S, b: S, c: S)
    requires
        is_preorder(le),
    ensures
        precedes(le, a, a),
        precedes(le, a, b) && precedes(le, b, c) ==> precedes(le, a, c),
{
    reveal(is_preorder);
}

/// The nearest surface wins. Where the primitives answer inside the interval
/// they are asked for, in some order of the parameters, the hit that a scan
/// leaves lies inside the scene's interval and no further along the ray than
/// any hit that a primitive answered with.
pub proof fn lemma_nearest_hit_wins<V, S, M, T: Hittable<V, S, M>>(
    objects: Seq<T>,
    ray: Ray<V>,
    t_min: S,
    t_max: S,
    found: Seq<Option<HitRecord<V, S, M>>>,
    le: spec_fn(S, S) -> bool,
)
    requires
        scanned_by(objects, ray, t_min, t_max, found),
        is_preorder(le),
        answers_within(objects, ray, le),
    ensures
        closest_in(found) matches Some(rec) ==> {
            &&& precedes(le, t_min, rec.t)
            &&& precedes(le, rec.t, t_max)
            &&& forall|k: int|
                0 <= k < found.len() && (#[trigger] found[k]).is_some() ==> precedes(
                    le,
                    rec.t,
                    found[k].unwrap().t,
                )
        },
    decreases found.len(),
{
    if found.len() > 0 {
        let n = found.len() - 1;
        let init = found.drop_last();
        lemma_scan_of_fewer(objects, ray, t_min, t_max, found, le);
        lemma_nearest_hit_wins(objects.drop_last(), ray, t_min, t_max, init, le);
        lemma_closest_is_an_answer(init);
        match found.last() {
            Some(rec) => {
                let limit = limit_after(closest_in(init), t_max);
                assert(precedes(le, t_min, rec.t) && precedes(le, rec.t, limit));
                lemma_preorder(le, rec.t, rec.t, rec.t);
                if closest_in(init).is_some() {
                    let before = closest_in(init).unwrap();
                    lemma_preorder(le, rec.t, before.t, t_max);
                }
                assert forall|k: int|
                    0 <= k < found.len() && (#[trigger] found[k]).is_some() implies precedes(
                    le,
                    rec.t,
                    found[k].unwrap().t,
                ) by {
                    if k < n {
                        assert(init[k] == found[k]);
                        let before = closest_in(init).unwrap();
                        lemma_preorder(le, rec.t, before.t, init[k].unwrap().t);
                    }
                }
            },
            None => {
                assert forall|k: int|
                    0 <= k < found.len() && (#[trigger] found[k]).is_some() implies precedes(
                    le,
                    closest_in(found).unwrap().t,
                    found[k].unwrap().t,
                ) by {
                    assert(k < n);
                    assert(init[k] == found[k]);
                }
            },
        }
    }
}

/// A scene keeps the contract of its primitives: where they answer inside the
/// interval they are asked for, so does a scan of them all.
pub proof fn lemma_scene_answers_within<V, S, M, T: Hittable<V, S, M>>(
    objects: Seq<T>,
    ray: Ray<V>,
    t_min: S,
    t_max: S,
    closest: Option<HitRecord<V, S, M>>,
    le: spec_fn(S, S) -> bool,
)
    requires
        scanned(objects, ray, t_min, t_max, closest),
        is_preorder(le),
        answers_within(objects, ray, le),
    ensures
        closest matches Some(rec) ==> precedes(le, t_min, rec.t) && precedes(le, rec.t, t_max),
{
    let found = choose|found: Seq<Option<HitRecord<V, S, M>>>|
        #[trigger] scanned_by(objects, ray, t_min, t_max, found) && closest == closest_in(found);
    lemma_nearest_hit_wins(objects, ray, t_min, t_max, found, le);
}

} // verus!
