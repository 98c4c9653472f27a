use vstd::prelude::*;

use crate::bounds::{lemma_inside_passes, lemma_union_contains, BoundingBox};
use crate::hittable::{beats, nearer, nearest_of, outcomes, pick_nearer, HitData, Hittable};
use crate::scalar::{strict_order, weak_order, Arithmetic};
use crate::vector::Vector;

verus! {

/// A flat collection of things a ray can meet.
pub struct List<H: Hittable> {
    pub objects: Vec<H>,
}

/// What the ray meets first among `objects`, taken in their order: of two
/// hits that are equally near the earlier one stays.
pub open spec fn first_struck<H: Hittable>(
    objects: Seq<H>,
    source: Vector<H::Scalar>,
    towards: Vector<H::Scalar>,
) -> HitData<H::Scalar>
    decreases objects.len(),
{
    if objects.len() == 0 {
        HitData::Miss
    } else {
        nearer(
            first_struck(objects.drop_last(), source, towards),
            objects.last().struck(source, towards),
        )
    }
}

/// The box around all of `objects`, which are not none.
pub open spec fn extent_of<H: Hittable>(objects: Seq<H>) -> BoundingBox<H::Scalar>
    decreases objects.len(),
{
    if objects.len() <= 1 {
        objects[0].extent()
    } else {
        extent_of(objects.drop_last()).union(objects.last().extent())
    }
}

/// The box of every object is a box of numbers.
pub open spec fn measured<H: Hittable>(objects: Seq<H>) -> bool {
    forall|i: int| 0 <= i < objects.len() ==> (#[trigger] objects[i]).extent().numeric()
}

impl<H: Hittable> List<H> {
    pub fn new() -> (r: Self)
        ensures
            r.objects@.len() == 0,
    {
        List { objects: Vec::new() }
    }

    pub fn register(&mut self, obj: H)
        ensures
            final(self).objects@ == old(self).objects@.push(obj),
    {
        self.objects.push(obj);
    }
}

impl<H: Hittable> Hittable for List<H> {
    type Scalar = H::Scalar;

    open spec fn ready(&self) -> bool {
        forall|i: int| 0 <= i < self.objects@.len() ==> (#[trigger] self.objects@[i]).ready()
    }

    open spec fn bounded(&self) -> bool {
        &&& self.objects@.len() > 0
        &&& forall|i: int| 0 <= i < self.objects@.len() ==> (#[trigger] self.objects@[i]).bounded()
    }

    open spec fn struck(&self, source: Vector<H::Scalar>, towards: Vector<H::Scalar>) -> HitData<
        H::Scalar,
    > {
        first_struck(self.objects@, source, towards)
    }

    open spec fn extent(&self) -> BoundingBox<H::Scalar> {
        extent_of(self.objects@)
    }

    fn hit(&self, source: Vector<H::Scalar>, towards: Vector<H::Scalar>) -> (r: HitData<
        H::Scalar,
    >)
        ensures
            strict_order::<H::Scalar>() ==> nearest_of(
                r,
                outcomes(self.objects@, source, towards),
            ),
    {
        proof {
            if strict_order::<H::Scalar>() {
                lemma_list_nearest(self.objects@, source, towards);
            }
        }
        let mut best = HitData::Miss;
        let mut i: usize = 0;
        while i < self.objects.len()
            invariant
                i <= self.objects@.len(),
                self.ready(),
                best == first_struck(self.objects@.take(i as int), source, towards),
            decreases self.objects@.len() - i,
        {
            let data = self.objects[i].hit(source, towards);
            proof {
                let next = self.objects@.take(i + 1);
                assert(next.drop_last() == self.objects@.take(i as int));
            }
            best = pick_nearer(best, data);
            i += 1;
        }
        proof {
            assert(self.objects@.take(i as int) == self.objects@);
        }
        best
    }

    fn bounds(&self) -> (r: BoundingBox<H::Scalar>) {
        let mut all = self.objects[0].bounds();
        let mut i: usize = 1;
        proof {
            assert(self.objects@.take(1).len() == 1);
        }
        while i < self.objects.len()
            invariant
                1 <= i <= self.objects@.len(),
                self.bounded(),
                all == extent_of(self.objects@.take(i as int)),
            decreases self.objects@.len() - i,
        {
            let next = self.objects[i].bounds();
            proof {
                let upto = self.objects@.take(i + 1);
                assert(upto.drop_last() == self.objects@.take(i as int));
            }
            all = BoundingBox::wraps(all, next);
            i += 1;
        }
        proof {
            assert(self.objects@.take(i as int) == self.objects@);
        }
        all
    }
}

/// What a list says of a ray is the nearest of what its objects say: a
/// miss only where all of them miss, else the hit of one of them, and
/// none of them is strictly nearer.
pub proof fn lemma_list_nearest<H: Hittable>(
    objects: Seq<H>,
    source: Vector<H::Scalar>,
    towards: Vector<H::Scalar>,
)
    requires
        strict_order::<H::Scalar>(),
    ensures
        nearest_of(first_struck(objects, source, towards), outcomes(objects, source, towards)),
    decreases objects.len(),
{
    let all = outcomes(objects, source, towards);
    let best = first_struck(objects, source, towards);
    if objects.len() > 0 {
        let front = objects.drop_last();
        let before = outcomes(front, source, towards);
        let prior = first_struck(front, source, towards);
        let next = objects.last().struck(source, towards);
        let last = objects.len() - 1;
        lemma_list_nearest(front, source, towards);
        assert(forall|i: int| 0 <= i < last ==> all[i] == before[i]);
        assert(all[last] == next);
        if best is Hit {
            if best == next && next is Hit && (prior is Miss || beats(next, prior)) {
                assert(all[last] == best);
            } else {
                let i = choose|i: int| 0 <= i < before.len() && before[i] == prior;
                assert(all[i] == best);
            }
        }
        assert forall|i: int| 0 <= i < all.len() implies !beats(#[trigger] all[i], best) by {
            if i < last {
                assert(!beats(before[i], prior));
            }
        }
        if best is Miss {
            assert forall|i: int| 0 <= i < all.len() implies all[i] is Miss by {
                if i < last {
                    assert(before[i] is Miss);
                }
            }
        }
    }
}

/// The box of a collection holds the box of every object in it.
pub proof fn lemma_list_contains<H: Hittable>(objects: Seq<H>)
    requires
        weak_order::<H::Scalar>(),
        objects.len() > 0,
        measured(objects),
    ensures
        extent_of(objects).numeric(),
        forall|i: int|
            0 <= i < objects.len() ==> (#[trigger] objects[i]).extent().inside(extent_of(objects)),
    decreases objects.len(),
{
    if objects.len() > 1 {
        let front = objects.drop_last();
        let all = extent_of(objects);
        assert forall|i: int| 0 <= i < front.len() implies (
        #[trigger] front[i]).extent().numeric() by {
            assert(front[i] == objects[i]);
        }
        lemma_list_contains(front);
        lemma_union_contains(extent_of(front), objects.last().extent());
        assert forall|i: int| 0 <= i < objects.len() implies (
        #[trigger] objects[i]).extent().inside(all) by {
            if i < front.len() {
                assert(objects[i] == front[i]);
                lemma_inside_passes(front[i].extent(), extent_of(front), all);
            }
        }
    }
}

} // verus!
