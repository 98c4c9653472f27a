use vstd::prelude::*;

use crate::hittable::Hittable;
use crate::scalar::Arithmetic;
use crate::vector::Vector;

verus! {

/// One of the three axes.
#[derive(Clone, Copy, Debug, PartialEq, Eq, Structural)]
pub enum Axis {
    X,
    Y,
    Z,
}

/// The centre of the box around `object`.
pub open spec fn center_of<H: Hittable>(object: H) -> Vector<H::Scalar> {
    object.extent().middle()
}

/// The sum of the centres, from the zero vector on and in order.
pub open spec fn center_sum<H: Hittable>(objects: Seq<H>) -> Vector<H::Scalar>
    decreases objects.len(),
{
    if objects.len() == 0 {
        Vector::of_counts(0, 0, 0)
    } else {
        center_sum(objects.drop_last()).sum(center_of(objects.last()))
    }
}

/// The mean of the centres.
pub open spec fn center_mean<H: Hittable>(objects: Seq<H>) -> Vector<H::Scalar> {
    center_sum(objects).shrunk(H::Scalar::of_count(objects.len() as usize))
}

/// On each axis the sum of the distances of the centres from `mean`, from
/// the zero vector on and in order.
pub open spec fn deviation<H: Hittable>(objects: Seq<H>, mean: Vector<H::Scalar>) -> Vector<
    H::Scalar,
>
    decreases objects.len(),
{
    if objects.len() == 0 {
        Vector::of_counts(0, 0, 0)
    } else {
        deviation(objects.drop_last(), mean).sum(
            center_of(objects.last()).difference(mean).magnitude(),
        )
    }
}

impl Axis {
    /// The number of the axis: 0, 1 or 2.
    pub open spec fn number(self) -> int {
        match self {
            Axis::X => 0,
            Axis::Y => 1,
            Axis::Z => 2,
        }
    }

    /// The axis on which `spread` is largest. Where two are equally
    /// large, the first axis wins against the other two and the second
    /// against the third.
    pub open spec fn largest<T: Arithmetic>(spread: Vector<T>) -> Axis {
        if spread.y.less(spread.x) && spread.z.less(spread.x) {
            Axis::X
        } else if spread.z.less(spread.y) {
            Axis::Y
        } else {
            Axis::Z
        }
    }

    /// The axis along which the centres of `objects` are spread most.
    pub open spec fn widest<H: Hittable>(objects: Seq<H>) -> Axis {
        Self::largest(deviation(objects, center_mean(objects)))
    }

    /// The axis on which `spread` is largest.
    pub fn pick<T: Arithmetic>(spread: Vector<T>) -> (r: Axis)
        ensures
            r == Self::largest(spread),
    {
        if spread.y().lt(spread.x()) && spread.z().lt(spread.x()) {
            Axis::X
        } else if spread.z().lt(spread.y()) {
            Axis::Y
        } else {
            Axis::Z
        }
    }

    /// The axis along which the centres of the boxes of `list` are spread
    /// most: the one with the largest sum of distances from the mean
    /// centre.
    pub fn maximum_variance<H: Hittable>(list: &Vec<H>) -> (r: Axis)
        requires
            forall|i: int| 0 <= i < list@.len() ==> (#[trigger] list@[i]).bounded(),
        ensures
            r == Self::widest(list@),
    {
        let len = H::Scalar::from_usize(list.len());

        let mut total = Vector::new(
            H::Scalar::from_usize(0),
            H::Scalar::from_usize(0),
            H::Scalar::from_usize(0),
        );
        let mut i: usize = 0;
        while i < list.len()
            invariant
                i <= list@.len(),
                forall|i: int| 0 <= i < list@.len() ==> (#[trigger] list@[i]).bounded(),
                total == center_sum(list@.take(i as int)),
            decreases list@.len() - i,
        {
            proof {
                assert(list@.take(i + 1).drop_last() == list@.take(i as int));
            }
            total = total.add(list[i].bounds().center());
            i += 1;
        }
        proof {
            assert(list@.take(i as int) == list@);
        }
        let center = total.shrink(len);

        let mut spread = Vector::new(
            H::Scalar::from_usize(0),
            H::Scalar::from_usize(0),
            H::Scalar::from_usize(0),
        );
        let mut i: usize = 0;
        while i < list.len()
            invariant
                i <= list@.len(),
                forall|i: int| 0 <= i < list@.len() ==> (#[trigger] list@[i]).bounded(),
                spread == deviation(list@.take(i as int), center),
            decreases list@.len() - i,
        {
            proof {
                assert(list@.take(i + 1).drop_last() == list@.take(i as int));
            }
            spread = spread.add(list[i].bounds().center().sub(center).abs());
            i += 1;
        }
        proof {
            assert(list@.take(i as int) == list@);
        }
        Self::pick(spread)
    }
}

} // verus!
