use vstd::prelude::*;

use crate::bounds::BoundingBox;
use crate::material::Material;
use crate::scalar::Arithmetic;
use crate::vector::Vector;

verus! {

/// What a ray meets: nothing, or a surface at the parameter `t` of the ray,
/// at `point`, with the outward `normal` there (of any length) and the
/// surface's material.
#[derive(Copy, Debug)]
pub enum HitData<T: Arithmetic> {
    Miss,
    Hit { t: T, point: Vector<T>, normal: Vector<T>, matter: Material<T> },
}

impl<T: Arithmetic> Clone for HitData<T> {
    fn clone(&self) -> (r: Self)
        ensures
            r == *self,
    {
        *self
    }
}

/// What a ray can meet: a shape, or a collection of shapes.
pub trait Hittable {
    /// The numbers its geometry is given in.
    type Scalar: Arithmetic;

    /// It can be asked what a ray meets: a scene looks at something.
    spec fn ready(&self) -> bool;

    /// It has a box: a collection holds at least one object.
    spec fn bounded(&self) -> bool;

    /// What the ray from `source` along `towards` meets first.
    spec fn struck(&self, source: Vector<Self::Scalar>, towards: Vector<Self::Scalar>) -> HitData<
        Self::Scalar,
    >;

    /// The box around the thing.
    spec fn extent(&self) -> BoundingBox<Self::Scalar>;

    fn hit(&self, source: Vector<Self::Scalar>, towards: Vector<Self::Scalar>) -> (r: HitData<
        Self::Scalar,
    >)
        requires
            self.ready(),
        ensures
            r == self.struck(source, towards),
    ;

    fn bounds(&self) -> (r: BoundingBox<Self::Scalar>)
        requires
            self.bounded(),
        ensures
            r == self.extent(),
    ;
}

/// Of two results that are both hits, `next` is strictly nearer.
pub open spec fn beats<T: Arithmetic>(next: HitData<T>, best: HitData<T>) -> bool {
    next is Hit && best is Hit && next->t.less(best->t)
}

/// The nearer of the best result so far and the next one: the next one
/// replaces a miss, or a hit that is strictly farther.
pub open spec fn nearer<T: Arithmetic>(best: HitData<T>, next: HitData<T>) -> HitData<T> {
    if next is Hit && (best is Miss || beats(next, best)) {
        next
    } else {
        best
    }
}

/// The nearer of the results of two branches: the left one where it is
/// strictly nearer or the right one is a miss, else the right one.
pub open spec fn closer<T: Arithmetic>(left: HitData<T>, right: HitData<T>) -> HitData<T> {
    if left is Hit && (right is Miss || beats(left, right)) {
        left
    } else {
        right
    }
}

/// No hit among `all` is strictly nearer than `best`, which is one of them
/// where any is a hit.
pub open spec fn nearest_of<T: Arithmetic>(best: HitData<T>, all: Seq<HitData<T>>) -> bool {
    &&& best is Miss <==> forall|i: int| 0 <= i < all.len() ==> all[i] is Miss
    &&& best is Hit ==> exists|i: int| 0 <= i < all.len() && all[i] == best
    &&& forall|i: int| 0 <= i < all.len() ==> !beats(#[trigger] all[i], best)
}

/// Both are misses, or both are hits and neither is strictly nearer.
pub open spec fn alike<T: Arithmetic>(a: HitData<T>, b: HitData<T>) -> bool {
    ||| a is Miss && b is Miss
    ||| a is Hit && b is Hit && !beats(a, b) && !beats(b, a)
}

/// What each of `objects` says of the ray, in their order.
pub open spec fn outcomes<H: Hittable>(
    objects: Seq<H>,
    source: Vector<H::Scalar>,
    towards: Vector<H::Scalar>,
) -> Seq<HitData<H::Scalar>> {
    Seq::new(objects.len(), |i: int| objects[i].struck(source, towards))
}

pub fn pick_nearer<T: Arithmetic>(best: HitData<T>, next: HitData<T>) -> (r: HitData<T>)
    ensures
        r == nearer(best, next),
{
    match next {
        HitData::Miss => best,
        HitData::Hit { t, .. } => match best {
            HitData::Miss => next,
            HitData::Hit { t: least, .. } => if t.lt(least) {
                next
            } else {
                best
            },
        },
    }
}

pub fn pick_closer<T: Arithmetic>(left: HitData<T>, right: HitData<T>) -> (r: HitData<T>)
    ensures
        r == closer(left, right),
{
    match left {
        HitData::Miss => right,
        HitData::Hit { t, .. } => match right {
            HitData::Miss => left,
            HitData::Hit { t: other, .. } => if t.lt(other) {
                left
            } else {
                right
            },
        },
    }
}

} // verus!
