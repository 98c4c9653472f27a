use vstd::prelude::*;

use crate::scalar::{lemma_asymmetric, strict_order, total_order, weak_order, Arithmetic};
use crate::vector::Vector;

verus! {

/// An axis-aligned box: on each axis the pair of its lower and upper bound.
#[derive(Copy, Debug)]
pub struct BoundingBox<T: Arithmetic> {
    pub x: (T, T),
    pub y: (T, T),
    pub z: (T, T),
}

impl<T: Arithmetic> Clone for BoundingBox<T> {
    fn clone(&self) -> (r: Self)
        ensures
            r == *self,
    {
        *self
    }
}

/// The pair with the smaller number first; a pair that `less` does not
/// order is swapped.
pub open spec fn sorted_pair<T: Arithmetic>(pair: (T, T)) -> (T, T) {
    if pair.0.less(pair.1) {
        pair
    } else {
        (pair.1, pair.0)
    }
}

/// The smaller of the lower bounds and the larger of the upper bounds.
pub open spec fn hull<T: Arithmetic>(this: (T, T), other: (T, T)) -> (T, T) {
    (
        if this.0.less(other.0) {
            this.0
        } else {
            other.0
        },
        if other.1.less(this.1) {
            this.1
        } else {
            other.1
        },
    )
}

/// The interval `inner` lies within `outer`: neither bound of `inner` is
/// beyond the bound of `outer` on its side.
pub open spec fn within<T: Arithmetic>(inner: (T, T), outer: (T, T)) -> bool {
    !inner.0.less(outer.0) && !outer.1.less(inner.1)
}

/// Both bounds are numbers.
pub open spec fn numbers<T: Arithmetic>(pair: (T, T)) -> bool {
    !pair.0.nan() && !pair.1.nan()
}

/// The interval in which a ray is between the two planes of one axis: the
/// parameters at which it meets them, the smaller first. `lo` and `hi`
/// are the planes, `from` the ray's origin on that axis and `along` its
/// direction there.
pub open spec fn slab<T: Arithmetic>(lo: T, hi: T, from: T, along: T) -> (T, T) {
    let inverse = T::of_count(1).quotient(along);
    let small = lo.difference(from).product(inverse);
    let large = hi.difference(from).product(inverse);
    if inverse.negative() {
        (large, small)
    } else {
        (small, large)
    }
}

/// The part of `range` that lies in `slab`, as far as `less` tells.
pub open spec fn narrowed<T: Arithmetic>(range: (T, T), slab: (T, T)) -> (T, T) {
    (
        if range.0.less(slab.0) {
            slab.0
        } else {
            range.0
        },
        if slab.1.less(range.1) {
            slab.1
        } else {
            range.1
        },
    )
}

fn ordered<T: Arithmetic>(pair: (T, T)) -> (r: (T, T))
    ensures
        r == sorted_pair(pair),
{
    let (a, b) = pair;
    if a.lt(b) {
        (a, b)
    } else {
        (b, a)
    }
}

fn larger_bound<T: Arithmetic>(this: (T, T), other: (T, T)) -> (r: (T, T))
    ensures
        r == hull(this, other),
{
    (
        if this.0.lt(other.0) {
            this.0
        } else {
            other.0
        },
        if other.1.lt(this.1) {
            this.1
        } else {
            other.1
        },
    )
}

fn slab_of<T: Arithmetic>(lo: T, hi: T, from: T, along: T) -> (r: (T, T))
    ensures
        r == slab(lo, hi, from, along),
{
    let inverse = T::from_usize(1).div(along);
    let small = lo.sub(from).mul(inverse);
    let large = hi.sub(from).mul(inverse);
    if inverse.is_sign_negative() {
        (large, small)
    } else {
        (small, large)
    }
}

fn narrow<T: Arithmetic>(range: (T, T), slab: (T, T)) -> (r: (T, T))
    ensures
        r == narrowed(range, slab),
{
    (
        if range.0.lt(slab.0) {
            slab.0
        } else {
            range.0
        },
        if slab.1.lt(range.1) {
            slab.1
        } else {
            range.1
        },
    )
}

impl<T: Arithmetic> BoundingBox<T> {
    /// On every axis the upper bound is not below the lower one.
    pub open spec fn ordered(self) -> bool {
        !self.x.1.less(self.x.0) && !self.y.1.less(self.y.0) && !self.z.1.less(self.z.0)
    }

    /// All bounds are numbers.
    pub open spec fn numeric(self) -> bool {
        numbers(self.x) && numbers(self.y) && numbers(self.z)
    }

    /// On every axis the lower bound is at most the upper one.
    pub open spec fn upright(self) -> bool {
        self.x.0.at_most(self.x.1) && self.y.0.at_most(self.y.1) && self.z.0.at_most(self.z.1)
    }

    /// On every axis the lower bound of `outer` is at most that of `self`,
    /// and the upper bound of `self` at most that of `outer`.
    pub open spec fn enclosed(self, outer: Self) -> bool {
        &&& outer.x.0.at_most(self.x.0) && self.x.1.at_most(outer.x.1)
        &&& outer.y.0.at_most(self.y.0) && self.y.1.at_most(outer.y.1)
        &&& outer.z.0.at_most(self.z.0) && self.z.1.at_most(outer.z.1)
    }

    /// The box made of three pairs, each put in order.
    pub open spec fn made(x: (T, T), y: (T, T), z: (T, T)) -> Self {
        BoundingBox { x: sorted_pair(x), y: sorted_pair(y), z: sorted_pair(z) }
    }

    /// The smallest box around both.
    pub open spec fn union(self, other: Self) -> Self {
        BoundingBox {
            x: hull(self.x, other.x),
            y: hull(self.y, other.y),
            z: hull(self.z, other.z),
        }
    }

    /// `self` lies within `outer` on every axis.
    pub open spec fn inside(self, outer: Self) -> bool {
        within(self.x, outer.x) && within(self.y, outer.y) && within(self.z, outer.z)
    }

    /// The corner of the lower bounds.
    pub open spec fn low(self) -> Vector<T> {
        Vector { x: self.x.0, y: self.y.0, z: self.z.0 }
    }

    /// The corner of the upper bounds.
    pub open spec fn high(self) -> Vector<T> {
        Vector { x: self.x.1, y: self.y.1, z: self.z.1 }
    }

    /// The point halfway between the two corners.
    pub open spec fn middle(self) -> Vector<T> {
        self.low().sum(self.high()).shrunk(T::of_count(2))
    }

    /// The parameters at which the ray is inside the box on all three axes:
    /// the whole line, narrowed by the slab of each axis in turn.
    pub open spec fn span(self, source: Vector<T>, towards: Vector<T>) -> (T, T) {
        let whole = (T::unbounded().negation(), T::unbounded());
        let first = narrowed(whole, slab(self.x.0, self.x.1, source.x, towards.x));
        let second = narrowed(first, slab(self.y.0, self.y.1, source.y, towards.y));
        narrowed(second, slab(self.z.0, self.z.1, source.z, towards.z))
    }

    /// The ray from `source` along `towards` goes through the box: the span
    /// in which it is inside on every axis is not empty.
    pub open spec fn crossed(self, source: Vector<T>, towards: Vector<T>) -> bool {
        let span = self.span(source, towards);
        span.0.less(span.1)
    }

    /// The box with the given bounds; each pair may come in either order.
    pub fn new(x: (T, T), y: (T, T), z: (T, T)) -> (r: Self)
        ensures
            r == Self::made(x, y, z),
            strict_order::<T>() ==> r.ordered(),
    {
        proof {
            if strict_order::<T>() {
                lemma_new_ordered(x, y, z);
            }
        }
        BoundingBox { x: ordered(x), y: ordered(y), z: ordered(z) }
    }

    /// The smallest box around `this` and `other`.
    pub fn wraps(this: Self, other: Self) -> (r: Self)
        ensures
            r == this.union(other),
            strict_order::<T>() ==> this.inside(r) && other.inside(r),
    {
        proof {
            if strict_order::<T>() {
                lemma_union_contains(this, other);
            }
        }
        BoundingBox {
            x: larger_bound(this.x, other.x),
            y: larger_bound(this.y, other.y),
            z: larger_bound(this.z, other.z),
        }
    }

    pub fn min(&self) -> (r: Vector<T>)
        ensures
            r == self.low(),
    {
        Vector::new(self.x.0, self.y.0, self.z.0)
    }

    pub fn max(&self) -> (r: Vector<T>)
        ensures
            r == self.high(),
    {
        Vector::new(self.x.1, self.y.1, self.z.1)
    }

    pub fn center(&self) -> (r: Vector<T>)
        ensures
            r == self.middle(),
    {
        let two = T::from_usize(2);
        Vector::new(
            self.x.0.add(self.x.1).div(two),
            self.y.0.add(self.y.1).div(two),
            self.z.0.add(self.z.1).div(two),
        )
    }

    /// The slab test: whether the ray from `source` along `towards` goes
    /// through the box. A direction of zero on an axis needs no care here:
    /// the division then gives what the scalar type gives.
    pub fn through(&self, source: Vector<T>, towards: Vector<T>) -> (r: bool)
        ensures
            r == self.crossed(source, towards),
    {
        let top = T::infinity();
        let whole = (top.neg(), top);
        let first = narrow(whole, slab_of(self.x.0, self.x.1, source.x, towards.x));
        let second = narrow(first, slab_of(self.y.0, self.y.1, source.y, towards.y));
        let span = narrow(second, slab_of(self.z.0, self.z.1, source.z, towards.z));
        span.0.lt(span.1)
    }
}

/// A box that was constructed has its bounds in order on every axis,
/// whichever way round they were given.
pub proof fn lemma_new_ordered<T: Arithmetic>(x: (T, T), y: (T, T), z: (T, T))
    requires
        strict_order::<T>(),
    ensures
        BoundingBox::made(x, y, z).ordered(),
{
    lemma_sorted_pair(x);
    lemma_sorted_pair(y);
    lemma_sorted_pair(z);
}

/// The union of two boxes contains both.
pub proof fn lemma_union_contains<T: Arithmetic>(a: BoundingBox<T>, b: BoundingBox<T>)
    requires
        strict_order::<T>(),
    ensures
        a.inside(a.union(b)),
        b.inside(a.union(b)),
{
    lemma_hull(a.x, b.x);
    lemma_hull(a.y, b.y);
    lemma_hull(a.z, b.z);
}

/// The union of two boxes whose bounds are in order has its bounds in order.
pub proof fn lemma_union_ordered<T: Arithmetic>(a: BoundingBox<T>, b: BoundingBox<T>)
    requires
        strict_order::<T>(),
        a.ordered(),
        b.ordered(),
    ensures
        a.union(b).ordered(),
{
    lemma_hull_ordered(a.x, b.x);
    lemma_hull_ordered(a.y, b.y);
    lemma_hull_ordered(a.z, b.z);
}

/// A box constructed from numbers has, on every axis, a lower bound that is
/// at most the upper one, whichever way round they were given.
pub proof fn lemma_new_upright<T: Arithmetic>(x: (T, T), y: (T, T), z: (T, T))
    requires
        total_order::<T>(),
        numbers(x),
        numbers(y),
        numbers(z),
    ensures
        BoundingBox::made(x, y, z).upright(),
        BoundingBox::made(x, y, z).numeric(),
{
    lemma_new_ordered(x, y, z);
}

/// The union of two boxes of numbers encloses both, and is a box of
/// numbers.
pub proof fn lemma_union_encloses<T: Arithmetic>(a: BoundingBox<T>, b: BoundingBox<T>)
    requires
        total_order::<T>(),
        a.numeric(),
        b.numeric(),
    ensures
        a.enclosed(a.union(b)),
        b.enclosed(a.union(b)),
        a.union(b).numeric(),
        a.upright() && b.upright() ==> a.union(b).upright(),
{
    lemma_union_contains(a, b);
    if a.upright() && b.upright() {
        lemma_union_ordered(a, b);
    }
}

/// A box within a box of numbers that is within a third is within the
/// third.
pub proof fn lemma_inside_passes<T: Arithmetic>(
    a: BoundingBox<T>,
    b: BoundingBox<T>,
    c: BoundingBox<T>,
)
    requires
        weak_order::<T>(),
        b.numeric(),
        a.inside(b),
        b.inside(c),
    ensures
        a.inside(c),
{
}

proof fn lemma_sorted_pair<T: Arithmetic>(pair: (T, T))
    requires
        strict_order::<T>(),
    ensures
        !sorted_pair(pair).1.less(sorted_pair(pair).0),
{
    if pair.0.less(pair.1) {
        lemma_asymmetric(pair.0, pair.1);
    }
}

proof fn lemma_hull<T: Arithmetic>(a: (T, T), b: (T, T))
    requires
        strict_order::<T>(),
    ensures
        within(a, hull(a, b)),
        within(b, hull(a, b)),
{
    if a.0.less(b.0) {
        lemma_asymmetric(a.0, b.0);
    }
    if b.1.less(a.1) {
        lemma_asymmetric(b.1, a.1);
    }
}

proof fn lemma_hull_ordered<T: Arithmetic>(a: (T, T), b: (T, T))
    requires
        strict_order::<T>(),
        !a.1.less(a.0),
        !b.1.less(b.0),
    ensures
        !hull(a, b).1.less(hull(a, b).0),
{
    let h = hull(a, b);
    if h.1.less(h.0) {
        if a.0.less(b.0) {
            // h.0 == a.0
            if b.1.less(a.1) {
                // h.1 == a.1
            } else {
                // h.1 == b.1 < a.0 < b.0
                assert(b.1.less(b.0));
            }
        } else {
            // h.0 == b.0
            if b.1.less(a.1) {
                // h.1 == a.1 < b.0, and b.1 < a.1
                assert(b.1.less(b.0));
            } else {
            }
        }
    }
}

} // verus!
