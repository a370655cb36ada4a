//! A scene: a list of spheres searched for the nearest hit.
use vstd::prelude::*;
use crate::hittable::{HitRecord, Hittable};
use crate::ray::Ray;
use crate::scalar::Scalar;
use crate::sphere::{lemma_cut_finds_nothing_new, lemma_hit_survives_cut, Sphere};

verus! {

/// An ordered collection of spheres.
pub struct HittableList {
    objects: Vec<Sphere>,
}

/// The bound under which the next member is searched: the parameter of the
/// best hit so far, or `t_max` while there is none.
pub open spec fn spec_closest(best: Option<HitRecord>, t_max: Scalar) -> Scalar {
    match best {
        Some(rec) => rec.t,
        None => t_max,
    }
}

/// The result of searching `objects` in order: each member is searched
/// below the best hit so far, and a member that reports a hit replaces it.
pub open spec fn spec_scan(objects: Seq<Sphere>, r: Ray, t_min: Scalar, t_max: Scalar) -> Option<
    HitRecord,
>
    decreases objects.len(),
{
    if objects.len() == 0 {
        None
    } else {
        let before = spec_scan(objects.drop_last(), r, t_min, t_max);
        match objects.last().spec_hit(r, t_min, spec_closest(before, t_max)) {
            Some(rec) => Some(rec),
            None => before,
        }
    }
}

impl HittableList {
    /// The members, in the order in which they were added.
    pub closed spec fn view(&self) -> Seq<Sphere> {
        self.objects@
    }

    /// The empty list.
    pub fn new() -> (list: HittableList)
        ensures
            list@ == Seq::<Sphere>::empty(),
    {
        HittableList { objects: Vec::new() }
    }

    /// Appends a sphere.
    pub fn add(&mut self, object: Sphere)
        ensures
            final(self)@ == old(self)@.push(object),
    {
        self.objects.push(object);
    }

    /// The number of members.
    pub fn len(&self) -> (n: usize)
        ensures
            n == self@.len(),
    {
        self.objects.len()
    }

    /// The member at `index`, if there is one.
    pub fn get(&self, index: usize) -> (s: Option<Sphere>)
        ensures
            s == (if index < self@.len() {
                Some(self@[index as int])
            } else {
                None
            }),
    {
        if index < self.objects.len() {
            Some(self.objects[index])
        } else {
            None
        }
    }
}

impl Hittable for HittableList {
    /// The result of searching the members in order.
    open spec fn spec_hit(&self, r: Ray, t_min: Scalar, t_max: Scalar) -> Option<HitRecord> {
        spec_scan(self@, r, t_min, t_max)
    }

    fn hit(&self, r: &Ray, t_min: Scalar, t_max: Scalar) -> (res: Option<HitRecord>) {
        let mut result: Option<HitRecord> = None;
        let mut closest_so_far = t_max;
        let mut i: usize = 0;
        while i < self.objects.len()
            invariant
                i <= self.objects.len(),
                self@ == self.objects@,
                result == spec_scan(self@.take(i as int), *r, t_min, t_max),
                closest_so_far == spec_closest(result, t_max),
            decreases self.objects.len() - i,
        {
            proof {
                assert(self@.take(i + 1).drop_last() =~= self@.take(i as int));
            }
            match self.objects[i].hit(r, t_min, closest_so_far) {
                Some(rec) => {
                    closest_so_far = rec.t;
                    result = Some(rec);
                },
                None => {},
            }
            i = i + 1;
        }
        proof {
            assert(self@.take(i as int) =~= self@);
        }
        result
    }

    proof fn lemma_hit_within(&self, r: Ray, t_min: Scalar, t_max: Scalar) {
        lemma_scan_within(self@, r, t_min, t_max);
    }
}

/// The hit that a search reports lies strictly inside the range.
pub proof fn lemma_scan_within(objects: Seq<Sphere>, r: Ray, t_min: Scalar, t_max: Scalar)
    ensures
        spec_scan(objects, r, t_min, t_max) matches Some(rec) ==> t_min.spec_lt(rec.t)
            && rec.t.spec_lt(t_max),
    decreases objects.len(),
{
    if objects.len() > 0 {
        lemma_scan_within(objects.drop_last(), r, t_min, t_max);
    }
}

/// A search reports no hit exactly when every member, searched alone over
/// the whole range, reports none.
pub proof fn lemma_scan_misses(objects: Seq<Sphere>, r: Ray, t_min: Scalar, t_max: Scalar)
    ensures
        spec_scan(objects, r, t_min, t_max) is None <==> (forall|i: int|
            0 <= i < objects.len() ==> (#[trigger] objects[i]).spec_hit(r, t_min, t_max) is None),
    decreases objects.len(),
{
    if objects.len() > 0 {
        let front = objects.drop_last();
        let before = spec_scan(front, r, t_min, t_max);
        lemma_scan_misses(front, r, t_min, t_max);
        lemma_scan_within(front, r, t_min, t_max);
        assert(forall|i: int| 0 <= i < front.len() ==> front[i] == objects[i]);
        match before {
            Some(b) => {
                let i = choose|i: int|
                    0 <= i < front.len() && !((#[trigger] front[i]).spec_hit(r, t_min, t_max) is None);
                assert(objects[i] == front[i]);
            },
            None => {
                if objects.last().spec_hit(r, t_min, t_max) is None {
                    assert forall|i: int| 0 <= i < objects.len() implies (#[trigger] objects[i]).spec_hit(
                        r,
                        t_min,
                        t_max,
                    ) is None by {
                        if i < front.len() {
                            assert(objects[i] == front[i]);
                        }
                    }
                } else {
                    assert(objects[objects.len() - 1] == objects.last());
                }
            },
        }
    }
}

/// The hit that a search reports is at least as near as the hit of any
/// member searched alone over the whole range.
pub proof fn lemma_scan_nearest(
    objects: Seq<Sphere>,
    r: Ray,
    t_min: Scalar,
    t_max: Scalar,
    j: int,
)
    requires
        0 <= j < objects.len(),
        objects[j].spec_hit(r, t_min, t_max) is Some,
    ensures
        spec_scan(objects, r, t_min, t_max) matches Some(rec) && rec.t.spec_le(
            objects[j].spec_hit(r, t_min, t_max)->0.t,
        ),
    decreases objects.len(),
{
    let front = objects.drop_last();
    let before = spec_scan(front, r, t_min, t_max);
    let last = objects.last();
    let alone = objects[j].spec_hit(r, t_min, t_max)->0;
    objects[j].lemma_hit_within(r, t_min, t_max);
    lemma_scan_within(front, r, t_min, t_max);
    last.lemma_hit_within(r, t_min, spec_closest(before, t_max));
    if j < objects.len() - 1 {
        assert(front[j] == objects[j]);
        lemma_scan_nearest(front, r, t_min, t_max, j);
    } else {
        let bound = spec_closest(before, t_max);
        if alone.t.spec_lt(bound) {
            lemma_hit_survives_cut(last, r, t_min, t_max, bound);
        }
    }
}

/// Where every member has its roots in order, the hit that a search
/// reports is the hit of one of the members searched alone over the whole
/// range.
pub proof fn lemma_scan_is_a_member_hit(objects: Seq<Sphere>, r: Ray, t_min: Scalar, t_max: Scalar)
    requires
        forall|i: int| 0 <= i < objects.len() ==> (#[trigger] objects[i]).roots_ordered(r),
        spec_scan(objects, r, t_min, t_max) is Some,
    ensures
        exists|i: int|
            0 <= i < objects.len() && (#[trigger] objects[i]).spec_hit(r, t_min, t_max) == spec_scan(
                objects,
                r,
                t_min,
                t_max,
            ),
    decreases objects.len(),
{
    let front = objects.drop_last();
    let before = spec_scan(front, r, t_min, t_max);
    let last = objects.last();
    let bound = spec_closest(before, t_max);
    lemma_scan_within(front, r, t_min, t_max);
    assert(forall|i: int| 0 <= i < front.len() ==> front[i] == objects[i]);
    if last.spec_hit(r, t_min, bound) is Some {
        last.lemma_hit_within(r, t_min, bound);
        assert(last.roots_ordered(r)) by {
            assert(objects[objects.len() - 1] == last);
        }
        lemma_cut_finds_nothing_new(last, r, t_min, t_max, bound);
        assert(objects[objects.len() - 1].spec_hit(r, t_min, t_max) == spec_scan(
            objects,
            r,
            t_min,
            t_max,
        ));
    } else {
        lemma_scan_is_a_member_hit(front, r, t_min, t_max);
        let i = choose|i: int|
            0 <= i < front.len() && (#[trigger] front[i]).spec_hit(r, t_min, t_max) == before;
        assert(objects[i] == front[i]);
    }
}

/// Whether two hits are at the same distance: both absent, or both present
/// with numerically equal parameters.
pub open spec fn same_distance(a: Option<HitRecord>, b: Option<HitRecord>) -> bool {
    match (a, b) {
        (None, None) => true,
        (Some(x), Some(y)) => x.t.spec_le(y.t) && y.t.spec_le(x.t),
        _ => false,
    }
}

/// The order of the members does not change how far the nearest hit is:
/// two lists with the same members, all with their roots in order on the
/// ray, report hits at the same distance, or both none.
pub proof fn lemma_scan_order_independent(
    first: Seq<Sphere>,
    second: Seq<Sphere>,
    r: Ray,
    t_min: Scalar,
    t_max: Scalar,
)
    requires
        forall|i: int| 0 <= i < first.len() ==> second.contains(#[trigger] first[i]),
        forall|i: int| 0 <= i < second.len() ==> first.contains(#[trigger] second[i]),
        forall|i: int| 0 <= i < first.len() ==> (#[trigger] first[i]).roots_ordered(r),
    ensures
        same_distance(spec_scan(first, r, t_min, t_max), spec_scan(second, r, t_min, t_max)),
{
    let a = spec_scan(first, r, t_min, t_max);
    let b = spec_scan(second, r, t_min, t_max);
    lemma_scan_misses(first, r, t_min, t_max);
    lemma_scan_misses(second, r, t_min, t_max);
    assert forall|i: int| 0 <= i < second.len() implies (#[trigger] second[i]).roots_ordered(r) by {
        let k = choose|k: int| 0 <= k < first.len() && first[k] == second[i];
        assert(first[k].roots_ordered(r));
    }
    if a is Some {
        lemma_scan_is_a_member_hit(first, r, t_min, t_max);
        let i = choose|i: int|
            0 <= i < first.len() && (#[trigger] first[i]).spec_hit(r, t_min, t_max) == a;
        let k = choose|k: int| 0 <= k < second.len() && second[k] == first[i];
        lemma_scan_nearest(second, r, t_min, t_max, k);
    }
    if b is Some {
        lemma_scan_is_a_member_hit(second, r, t_min, t_max);
        let i = choose|i: int|
            0 <= i < second.len() && (#[trigger] second[i]).spec_hit(r, t_min, t_max) == b;
        let k = choose|k: int| 0 <= k < first.len() && first[k] == second[i];
        lemma_scan_nearest(first, r, t_min, t_max, k);
    }
}

} // verus!
