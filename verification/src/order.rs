use vstd::prelude::*;

use crate::axis::{center_of, Axis};
use crate::hittable::Hittable;
use crate::scalar::{weak_order, Arithmetic};

verus! {

/// Every one of `objects` has a box.
pub open spec fn all_bounded<H: Hittable>(objects: Seq<H>) -> bool {
    forall|i: int| 0 <= i < objects.len() ==> (#[trigger] objects[i]).bounded()
}

/// Every one of `objects` can be asked what a ray meets.
pub open spec fn all_ready<H: Hittable>(objects: Seq<H>) -> bool {
    forall|i: int| 0 <= i < objects.len() ==> (#[trigger] objects[i]).ready()
}

/// What `object` is ordered by along `axis`: the centre of its box there.
pub open spec fn key_of<H: Hittable>(object: H, axis: Axis) -> H::Scalar {
    center_of(object).component(axis.number())
}

/// The two sequences merged: the next one comes from `a`, unless the head
/// of `b` is strictly below the head of `a`.
pub open spec fn merged<H: Hittable>(a: Seq<H>, b: Seq<H>, axis: Axis) -> Seq<H>
    decreases a.len() + b.len(),
{
    if a.len() == 0 {
        b
    } else if b.len() == 0 {
        a
    } else if key_of(b[0], axis).less(key_of(a[0], axis)) {
        seq![b[0]] + merged(a, b.subrange(1, b.len() as int), axis)
    } else {
        seq![a[0]] + merged(a.subrange(1, a.len() as int), b, axis)
    }
}

/// `objects` in the order of their keys along `axis`, those with equal
/// keys in the order they came in: the two halves, each put in order, and
/// merged.
pub open spec fn arranged<H: Hittable>(objects: Seq<H>, axis: Axis) -> Seq<H>
    decreases objects.len(),
{
    if objects.len() <= 1 {
        objects
    } else {
        let mid = objects.len() as int / 2;
        merged(
            arranged(objects.subrange(0, mid), axis),
            arranged(objects.subrange(mid, objects.len() as int), axis),
            axis,
        )
    }
}

/// Merging keeps what the two sequences hold.
pub proof fn lemma_merged_holds<H: Hittable>(a: Seq<H>, b: Seq<H>, axis: Axis)
    ensures
        merged(a, b, axis).to_multiset() == a.to_multiset().add(b.to_multiset()),
        merged(a, b, axis).len() == a.len() + b.len(),
    decreases a.len() + b.len(),
{
    broadcast use vstd::seq_lib::group_to_multiset_ensures;

    if a.len() == 0 {
        assert(a.to_multiset() =~= vstd::multiset::Multiset::empty());
        assert(b.to_multiset().add(a.to_multiset()) =~= b.to_multiset());
        assert(a.to_multiset().add(b.to_multiset()) =~= b.to_multiset());
    } else if b.len() == 0 {
        assert(b.to_multiset() =~= vstd::multiset::Multiset::empty());
        assert(a.to_multiset().add(b.to_multiset()) =~= a.to_multiset());
    } else if key_of(b[0], axis).less(key_of(a[0], axis)) {
        let rest = b.subrange(1, b.len() as int);
        lemma_merged_holds(a, rest, axis);
        assert(b =~= seq![b[0]] + rest);
        vstd::seq_lib::lemma_multiset_commutative(seq![b[0]], rest);
        vstd::seq_lib::lemma_multiset_commutative(seq![b[0]], merged(a, rest, axis));
        assert(seq![b[0]].to_multiset().add(a.to_multiset().add(rest.to_multiset()))
            =~= a.to_multiset().add(seq![b[0]].to_multiset().add(rest.to_multiset())));
    } else {
        let rest = a.subrange(1, a.len() as int);
        lemma_merged_holds(rest, b, axis);
        assert(a =~= seq![a[0]] + rest);
        vstd::seq_lib::lemma_multiset_commutative(seq![a[0]], rest);
        vstd::seq_lib::lemma_multiset_commutative(seq![a[0]], merged(rest, b, axis));
        assert(seq![a[0]].to_multiset().add(rest.to_multiset().add(b.to_multiset()))
            =~= seq![a[0]].to_multiset().add(rest.to_multiset()).add(b.to_multiset()));
    }
}

/// Putting in order keeps what the sequence holds.
pub proof fn lemma_arranged_holds<H: Hittable>(objects: Seq<H>, axis: Axis)
    ensures
        arranged(objects, axis).to_multiset() == objects.to_multiset(),
        arranged(objects, axis).len() == objects.len(),
    decreases objects.len(),
{
    if objects.len() > 1 {
        let mid = objects.len() as int / 2;
        let left = objects.subrange(0, mid);
        let right = objects.subrange(mid, objects.len() as int);
        lemma_arranged_holds(left, axis);
        lemma_arranged_holds(right, axis);
        lemma_merged_holds(arranged(left, axis), arranged(right, axis), axis);
        assert(objects =~= left + right);
        vstd::seq_lib::lemma_multiset_commutative(left, right);
    }
}

/// No object comes before one with a smaller key.
pub open spec fn in_order<H: Hittable>(objects: Seq<H>, axis: Axis) -> bool {
    forall|i: int, j: int|
        0 <= i < j < objects.len() ==> !key_of(#[trigger] objects[j], axis).less(
            key_of(#[trigger] objects[i], axis),
        )
}

/// The key of every object is a number.
pub open spec fn keyed<H: Hittable>(objects: Seq<H>, axis: Axis) -> bool {
    forall|i: int| 0 <= i < objects.len() ==> !key_of(#[trigger] objects[i], axis).nan()
}

/// Two sequences in order are in order when merged.
pub proof fn lemma_merged_in_order<H: Hittable>(a: Seq<H>, b: Seq<H>, axis: Axis)
    requires
        weak_order::<H::Scalar>(),
        keyed(a, axis),
        keyed(b, axis),
        in_order(a, axis),
        in_order(b, axis),
    ensures
        in_order(merged(a, b, axis), axis),
    decreases a.len() + b.len(),
{
    broadcast use vstd::seq_lib::group_to_multiset_ensures;

    let m = merged(a, b, axis);
    if a.len() > 0 && b.len() > 0 {
        let first_b = key_of(b[0], axis).less(key_of(a[0], axis));
        let ra = if first_b {
            a
        } else {
            a.subrange(1, a.len() as int)
        };
        let rb = if first_b {
            b.subrange(1, b.len() as int)
        } else {
            b
        };
        let head = if first_b {
            b[0]
        } else {
            a[0]
        };
        let rest = merged(ra, rb, axis);
        assert(m == seq![head] + rest);
        lemma_merged_in_order(ra, rb, axis);
        lemma_merged_holds(ra, rb, axis);
        assert forall|i: int, j: int| 0 <= i < j < m.len() implies !key_of(
            #[trigger] m[j],
            axis,
        ).less(key_of(#[trigger] m[i], axis)) by {
            if i >= 1 {
                assert(m[i] == rest[i - 1]);
                assert(m[j] == rest[j - 1]);
            } else {
                let e = rest[j - 1];
                assert(m[j] == e);
                assert(rest.to_multiset().count(e) > 0);
                assert(ra.to_multiset().count(e) > 0 || rb.to_multiset().count(e) > 0);
                if ra.to_multiset().count(e) > 0 {
                    assert(ra.contains(e));
                    let k = choose|k: int| 0 <= k < ra.len() && ra[k] == e;
                    if first_b {
                        // head = b[0] is below a[0], which nothing in a is below
                        assert(a[k] == e);
                        if k > 0 {
                            assert(!key_of(a[k], axis).less(key_of(a[0], axis)));
                        }
                    } else {
                        assert(a[k + 1] == e);
                        assert(!key_of(a[k + 1], axis).less(key_of(a[0], axis)));
                    }
                } else {
                    assert(rb.contains(e));
                    let k = choose|k: int| 0 <= k < rb.len() && rb[k] == e;
                    if first_b {
                        assert(b[k + 1] == e);
                        assert(!key_of(b[k + 1], axis).less(key_of(b[0], axis)));
                    } else {
                        // head = a[0], which b[0] is not below, and nothing in b is below b[0]
                        assert(b[k] == e);
                        assert(!key_of(b[0], axis).nan());
                        if k > 0 {
                            assert(!key_of(b[k], axis).less(key_of(b[0], axis)));
                        }
                    }
                }
            }
        }
    }
}

/// Objects whose keys are numbers come out in order.
pub proof fn lemma_arranged_in_order<H: Hittable>(objects: Seq<H>, axis: Axis)
    requires
        weak_order::<H::Scalar>(),
        keyed(objects, axis),
    ensures
        in_order(arranged(objects, axis), axis),
        keyed(arranged(objects, axis), axis),
    decreases objects.len(),
{
    lemma_arranged_holds(objects, axis);
    lemma_same_members(objects, arranged(objects, axis));
    assert forall|i: int| 0 <= i < arranged(objects, axis).len() implies !key_of(
        #[trigger] arranged(objects, axis)[i],
        axis,
    ).nan() by {
        let e = arranged(objects, axis)[i];
        let k = choose|k: int| 0 <= k < objects.len() && objects[k] == e;
        assert(objects[k] == e);
    }
    if objects.len() > 1 {
        let mid = objects.len() as int / 2;
        let left = objects.subrange(0, mid);
        let right = objects.subrange(mid, objects.len() as int);
        assert forall|i: int| 0 <= i < left.len() implies !key_of(
            #[trigger] left[i],
            axis,
        ).nan() by {
            assert(left[i] == objects[i]);
        }
        assert forall|i: int| 0 <= i < right.len() implies !key_of(
            #[trigger] right[i],
            axis,
        ).nan() by {
            assert(right[i] == objects[mid + i]);
        }
        lemma_arranged_in_order(left, axis);
        lemma_arranged_in_order(right, axis);
        lemma_merged_in_order(arranged(left, axis), arranged(right, axis), axis);
    }
}

fn key<H: Hittable>(object: &H, axis: Axis) -> (r: H::Scalar)
    requires
        object.bounded(),
    ensures
        r == key_of(*object, axis),
{
    let center = object.bounds().center();
    match axis {
        Axis::X => center.x(),
        Axis::Y => center.y(),
        Axis::Z => center.z(),
    }
}

pub(crate) fn part<H: Hittable + Copy>(list: &Vec<H>, from: usize, to: usize) -> (r: Vec<H>)
    requires
        from <= to <= list@.len(),
    ensures
        r@ == list@.subrange(from as int, to as int),
{
    let mut out: Vec<H> = Vec::new();
    let mut i: usize = from;
    while i < to
        invariant
            from <= i <= to <= list@.len(),
            out@ == list@.subrange(from as int, i as int),
        decreases to - i,
    {
        out.push(list[i]);
        proof {
            assert(out@ =~= list@.subrange(from as int, i + 1));
        }
        i += 1;
    }
    out
}

fn merge<H: Hittable + Copy>(a: &Vec<H>, b: &Vec<H>, axis: Axis) -> (r: Vec<H>)
    requires
        all_bounded(a@),
        all_bounded(b@),
    ensures
        r@ == merged(a@, b@, axis),
{
    let mut out: Vec<H> = Vec::new();
    let mut i: usize = 0;
    let mut j: usize = 0;
    proof {
        assert(a@.subrange(0, a@.len() as int) =~= a@);
        assert(b@.subrange(0, b@.len() as int) =~= b@);
        assert(out@ + merged(a@, b@, axis) =~= merged(a@, b@, axis));
    }
    while i < a.len() || j < b.len()
        invariant
            i <= a@.len(),
            j <= b@.len(),
            all_bounded(a@),
            all_bounded(b@),
            out@ + merged(
                a@.subrange(i as int, a@.len() as int),
                b@.subrange(j as int, b@.len() as int),
                axis,
            ) == merged(a@, b@, axis),
        decreases a@.len() - i + b@.len() - j,
    {
        let ghost ra = a@.subrange(i as int, a@.len() as int);
        let ghost rb = b@.subrange(j as int, b@.len() as int);
        let ghost before = out@;
        if i >= a.len() {
            out.push(b[j]);
            proof {
                let rest = b@.subrange(j + 1, b@.len() as int);
                assert(merged(ra, rb, axis) == rb);
                assert(merged(ra, rest, axis) == rest);
                assert(rb =~= seq![b@[j as int]] + rest);
                assert(out@ + rest =~= before + rb);
            }
            j += 1;
        } else if j >= b.len() {
            out.push(a[i]);
            proof {
                let rest = a@.subrange(i + 1, a@.len() as int);
                assert(merged(ra, rb, axis) == ra);
                assert(merged(rest, rb, axis) == rest) by {
                    if rest.len() == 0 {
                        assert(rb =~= rest);
                    }
                }
                assert(ra =~= seq![a@[i as int]] + rest);
                assert(out@ + rest =~= before + ra);
            }
            i += 1;
        } else if key(&b[j], axis).lt(key(&a[i], axis)) {
            out.push(b[j]);
            proof {
                let rest = b@.subrange(j + 1, b@.len() as int);
                assert(rb.subrange(1, rb.len() as int) =~= rest);
                assert(out@ + merged(ra, rest, axis) =~= before + merged(ra, rb, axis));
            }
            j += 1;
        } else {
            out.push(a[i]);
            proof {
                let rest = a@.subrange(i + 1, a@.len() as int);
                assert(ra.subrange(1, ra.len() as int) =~= rest);
                assert(out@ + merged(rest, rb, axis) =~= before + merged(ra, rb, axis));
            }
            i += 1;
        }
    }
    proof {
        assert(a@.subrange(i as int, a@.len() as int).len() == 0);
        assert(out@ + b@.subrange(j as int, b@.len() as int) =~= out@);
    }
    out
}

/// The objects of `list` in the order of their centres along `axis`; those
/// with equal centres stay in the order they came in.
pub fn sort_by_center<H: Hittable + Copy>(list: &Vec<H>, axis: Axis) -> (r: Vec<H>)
    requires
        all_bounded(list@),
    ensures
        r@ == arranged(list@, axis),
        all_bounded(r@),
        all_ready(list@) ==> all_ready(r@),
    decreases list@.len(),
{
    let n = list.len();
    proof {
        lemma_arranged_holds(list@, axis);
        lemma_same_ready(list@, arranged(list@, axis));
    }
    if n <= 1 {
        return part(list, 0, n);
    }
    let mid = n / 2;
    let left = sort_by_center(&part(list, 0, mid), axis);
    let right = sort_by_center(&part(list, mid, n), axis);
    merge(&left, &right, axis)
}

/// Of two sequences that hold the same, every member of one is a member
/// of the other.
pub proof fn lemma_same_members<H>(a: Seq<H>, b: Seq<H>)
    requires
        a.to_multiset() == b.to_multiset(),
    ensures
        forall|i: int| 0 <= i < b.len() ==> a.contains(#[trigger] b[i]),
{
    broadcast use vstd::seq_lib::group_to_multiset_ensures;

    assert forall|i: int| 0 <= i < b.len() implies a.contains(#[trigger] b[i]) by {
        assert(b.to_multiset().count(b[i]) > 0);
    }
}

/// Two sequences that hold the same objects have boxes together, and can be
/// asked together.
pub proof fn lemma_same_ready<H: Hittable>(a: Seq<H>, b: Seq<H>)
    requires
        a.to_multiset() == b.to_multiset(),
    ensures
        all_bounded(a) ==> all_bounded(b),
        all_ready(a) ==> all_ready(b),
{
    lemma_same_members(a, b);
    assert forall|i: int| 0 <= i < b.len() implies (all_bounded(a) ==> (#[trigger] b[i]).bounded())
        && (all_ready(a) ==> b[i].ready()) by {
        let k = choose|k: int| 0 <= k < a.len() && a[k] == b[i];
        assert(a[k] == b[i]);
    }
}

} // verus!
