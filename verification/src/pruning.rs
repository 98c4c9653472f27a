use vstd::prelude::*;

use crate::axis::Axis;
use crate::bounds::{lemma_inside_passes, lemma_union_contains};
use crate::container::{first_struck, lemma_list_nearest, measured};
use crate::object::{counts, Sphere};
use crate::hittable::{alike, beats, closer, nearest_of, outcomes, HitData, Hittable};
use crate::order::{arranged, lemma_arranged_holds};
use crate::scalar::{monotone, weak_order, Arithmetic};
use crate::slab::lemma_inside_widens;
use crate::tree::{fork, grown, TreeNode};
use crate::vector::Vector;

verus! {

/// No object is hit at a parameter that is not a number.
pub open spec fn numbered<H: Hittable>(
    objects: Seq<H>,
    source: Vector<H::Scalar>,
    towards: Vector<H::Scalar>,
) -> bool {
    forall|i: int|
        0 <= i < objects.len() && (#[trigger] objects[i]).struck(source, towards) is Hit
            ==> !objects[i].struck(source, towards)->t.nan()
}

/// The ray goes through the box of every object that it hits.
pub open spec fn covered<H: Hittable>(
    objects: Seq<H>,
    source: Vector<H::Scalar>,
    towards: Vector<H::Scalar>,
) -> bool {
    forall|i: int|
        0 <= i < objects.len() && (#[trigger] objects[i]).struck(source, towards) is Hit
            ==> objects[i].extent().crossed(source, towards)
}

impl<H: Hittable> TreeNode<H> {
    /// The ray meets the planes of the box of this node, and of every node
    /// and object under it, at numbers.
    pub open spec fn clear(self, source: Vector<H::Scalar>, towards: Vector<H::Scalar>) -> bool
        decreases self,
    {
        &&& self.fit().lit(source, towards)
        &&& match self {
            TreeNode::Leaf(_) => true,
            TreeNode::Fork { left, right, .. } => {
                left.clear(source, towards) && right.clear(source, towards)
            },
        }
    }

    /// At every node under this one, a ray that goes through the box of a
    /// branch goes through the box of the node.
    pub open spec fn widening(self, source: Vector<H::Scalar>, towards: Vector<H::Scalar>) -> bool
        decreases self,
    {
        match self {
            TreeNode::Leaf(_) => true,
            TreeNode::Fork { bounds, left, right } => {
                &&& left.fit().crossed(source, towards) || right.fit().crossed(source, towards)
                    ==> bounds.crossed(source, towards)
                &&& left.widening(source, towards)
                &&& right.widening(source, towards)
            },
        }
    }
}

/// The hierarchy over a collection holds the objects of the collection, each
/// as often as the collection does, and every node of it holds the box
/// around its two branches.
pub proof fn lemma_grown_holds<H: Hittable>(objects: Seq<H>)
    requires
        objects.len() > 0,
    ensures
        grown(objects).leaves().to_multiset() == objects.to_multiset(),
        grown(objects).tidy(),
    decreases objects.len(),
{
    if objects.len() == 1 {
        assert(grown(objects).leaves() =~= objects);
    } else if objects.len() == 2 {
        let a = TreeNode::Leaf(objects[0]);
        let b = TreeNode::Leaf(objects[1]);
        lemma_fork(a, b);
        assert(a.leaves() + b.leaves() =~= objects);
    } else {
        let axis = Axis::widest(objects);
        let sorted = arranged(objects, axis);
        lemma_arranged_holds(objects, axis);
        let mid = objects.len() as int / 2;
        let first = sorted.subrange(0, mid);
        let second = sorted.subrange(mid, sorted.len() as int);
        lemma_grown_holds(first);
        lemma_grown_holds(second);
        assert(sorted =~= first + second);
        vstd::seq_lib::lemma_multiset_commutative(first, second);
        vstd::seq_lib::lemma_multiset_commutative(grown(first).leaves(), grown(second).leaves());
        lemma_fork(grown(first), grown(second));
    }
}

proof fn lemma_fork<H: Hittable>(left: TreeNode<H>, right: TreeNode<H>)
    ensures
        fork(left, right).leaves() == left.leaves() + right.leaves(),
        fork(left, right).tidy() == (left.tidy() && right.tidy()),
{
}

/// The box of a node whose nodes all hold the box around their branches
/// holds the box of every object under it.
pub proof fn lemma_node_contains<H: Hittable>(node: TreeNode<H>)
    requires
        weak_order::<H::Scalar>(),
        node.tidy(),
        measured(node.leaves()),
    ensures
        node.fit().numeric(),
        forall|i: int|
            0 <= i < node.leaves().len() ==> (#[trigger] node.leaves()[i]).extent().inside(
                node.fit(),
            ),
    decreases node,
{
    match node {
        TreeNode::Leaf(object) => {
            assert(node.leaves()[0] == object);
        },
        TreeNode::Fork { bounds, left, right } => {
            let l = left.leaves();
            let r = right.leaves();
            assert(node.leaves() == l + r);
            assert forall|i: int| 0 <= i < l.len() implies (#[trigger] l[i]).extent().numeric() by {
                assert(l[i] == node.leaves()[i]);
            }
            assert forall|i: int| 0 <= i < r.len() implies (#[trigger] r[i]).extent().numeric() by {
                assert(r[i] == node.leaves()[l.len() + i]);
            }
            lemma_node_contains(*left);
            lemma_node_contains(*right);
            lemma_union_contains(left.fit(), right.fit());
            assert forall|i: int| 0 <= i < node.leaves().len() implies (
            #[trigger] node.leaves()[i]).extent().inside(bounds) by {
                if i < l.len() {
                    assert(node.leaves()[i] == l[i]);
                    lemma_inside_passes(l[i].extent(), left.fit(), bounds);
                } else {
                    assert(node.leaves()[i] == r[i - l.len()]);
                    lemma_inside_passes(r[i - l.len()].extent(), right.fit(), bounds);
                }
            }
        },
    }
}

/// Two to the power of `n`.
pub open spec fn doubled(n: nat) -> nat
    decreases n,
{
    if n == 0 {
        1
    } else {
        2 * doubled((n - 1) as nat)
    }
}

/// The hierarchy is balanced: over one object it has no node, and over more
/// its height is the logarithm of their count, rounded up.
pub proof fn lemma_grown_balanced<H: Hittable>(objects: Seq<H>)
    requires
        objects.len() > 0,
    ensures
        objects.len() == 1 ==> grown(objects).height() == 0,
        objects.len() >= 2 ==> doubled(grown(objects).height()) <= 2 * objects.len() - 2,
    decreases objects.len(),
{
    if objects.len() == 2 {
        let a = TreeNode::Leaf(objects[0]);
        let b = TreeNode::Leaf(objects[1]);
        assert(grown(objects) == fork(a, b));
        assert(a.height() == 0 && b.height() == 0);
        assert(fork(a, b).height() == 1);
        assert(doubled(1) == 2 * doubled(0));
    } else if objects.len() > 2 {
        let axis = Axis::widest(objects);
        let sorted = arranged(objects, axis);
        lemma_arranged_holds(objects, axis);
        let mid = objects.len() as int / 2;
        let first = sorted.subrange(0, mid);
        let second = sorted.subrange(mid, sorted.len() as int);
        lemma_grown_balanced(first);
        lemma_grown_balanced(second);
        let (l, r) = (grown(first), grown(second));
        assert(grown(objects) == fork(l, r));
        assert(fork(l, r).height() == if l.height() >= r.height() {
            l.height() + 1
        } else {
            r.height() + 1
        });
        assert(doubled(0) == 1);
        assert(doubled(l.height() + 1) == 2 * doubled(l.height()));
        assert(doubled(r.height() + 1) == 2 * doubled(r.height()));
    }
}

/// What a node says of a ray is the nearest of what the objects under it
/// say, and where one of them is hit the ray goes through the box of the
/// node: cutting off the branches whose box the ray misses loses nothing.
pub proof fn lemma_node_nearest<H: Hittable>(
    node: TreeNode<H>,
    source: Vector<H::Scalar>,
    towards: Vector<H::Scalar>,
)
    requires
        weak_order::<H::Scalar>(),
        numbered(node.leaves(), source, towards),
        covered(node.leaves(), source, towards),
        node.widening(source, towards),
    ensures
        nearest_of(node.met(source, towards), outcomes(node.leaves(), source, towards)),
        node.met(source, towards) is Hit ==> node.fit().crossed(source, towards),
    decreases node,
{
    let all = outcomes(node.leaves(), source, towards);
    let best = node.met(source, towards);
    match node {
        TreeNode::Leaf(object) => {
            assert(node.leaves()[0] == object);
            assert(all[0] == best);
        },
        TreeNode::Fork { bounds, left, right } => {
            let l = left.leaves();
            let r = right.leaves();
            let ol = outcomes(l, source, towards);
            let or = outcomes(r, source, towards);
            let lm = left.met(source, towards);
            let rm = right.met(source, towards);
            assert(node.leaves() == l + r);
            assert forall|i: int| 0 <= i < l.len() implies l[i] == #[trigger] node.leaves()[i] by {}
            assert forall|i: int| 0 <= i < r.len() implies r[i] == #[trigger] node.leaves()[
                l.len() + i
            ] by {}
            assert(numbered(l, source, towards)) by {
                assert forall|i: int|
                    0 <= i < l.len() && (#[trigger] l[i]).struck(source, towards) is Hit
                    implies !l[i].struck(source, towards)->t.nan() by {
                    assert(l[i] == node.leaves()[i]);
                }
            }
            assert(covered(l, source, towards)) by {
                assert forall|i: int|
                    0 <= i < l.len() && (#[trigger] l[i]).struck(source, towards) is Hit
                    implies l[i].extent().crossed(source, towards) by {
                    assert(l[i] == node.leaves()[i]);
                }
            }
            assert(numbered(r, source, towards)) by {
                assert forall|i: int|
                    0 <= i < r.len() && (#[trigger] r[i]).struck(source, towards) is Hit
                    implies !r[i].struck(source, towards)->t.nan() by {
                    assert(r[i] == node.leaves()[l.len() + i]);
                }
            }
            assert(covered(r, source, towards)) by {
                assert forall|i: int|
                    0 <= i < r.len() && (#[trigger] r[i]).struck(source, towards) is Hit
                    implies r[i].extent().crossed(source, towards) by {
                    assert(r[i] == node.leaves()[l.len() + i]);
                }
            }
            lemma_node_nearest(*left, source, towards);
            lemma_node_nearest(*right, source, towards);
            assert forall|i: int| 0 <= i < all.len() implies #[trigger] all[i] == (if i < l.len() {
                ol[i]
            } else {
                or[i - l.len()]
            }) by {}
            if lm is Hit {
                let i = choose|i: int| 0 <= i < ol.len() && ol[i] == lm;
                assert(all[i] == lm);
                assert(l[i].struck(source, towards) == lm);
                assert(!lm->t.nan());
            }
            if rm is Hit {
                let i = choose|i: int| 0 <= i < or.len() && or[i] == rm;
                assert(all[l.len() + i] == rm);
            }
            if !bounds.crossed(source, towards) {
                assert(lm is Miss && rm is Miss);
                assert forall|i: int| 0 <= i < all.len() implies all[i] is Miss by {
                    if i < l.len() {
                        assert(ol[i] is Miss);
                    } else {
                        assert(or[i - l.len()] is Miss);
                    }
                }
            } else {
                assert(best == closer(lm, rm));
                assert forall|i: int| 0 <= i < all.len() implies !beats(
                    #[trigger] all[i],
                    best,
                ) by {
                    if i < l.len() {
                        assert(!beats(ol[i], lm));
                        if lm is Miss {
                            assert(ol[i] is Miss);
                        }
                    } else {
                        assert(!beats(or[i - l.len()], rm));
                        if rm is Miss {
                            assert(or[i - l.len()] is Miss);
                        }
                    }
                }
                if best is Miss {
                    assert forall|i: int| 0 <= i < all.len() implies all[i] is Miss by {
                        if i < l.len() {
                            assert(ol[i] is Miss);
                        } else {
                            assert(or[i - l.len()] is Miss);
                        }
                    }
                }
            }
        },
    }
}

/// Where every node holds the box around its branches, a ray that goes
/// through the box of a branch goes through the box of the node: the box
/// test is no stricter on the larger box.
pub proof fn lemma_tidy_widens<H: Hittable>(
    node: TreeNode<H>,
    source: Vector<H::Scalar>,
    towards: Vector<H::Scalar>,
)
    requires
        weak_order::<H::Scalar>(),
        monotone::<H::Scalar>(),
        node.tidy(),
        node.clear(source, towards),
    ensures
        node.widening(source, towards),
    decreases node,
{
    match node {
        TreeNode::Leaf(_) => {},
        TreeNode::Fork { bounds, left, right } => {
            lemma_tidy_widens(*left, source, towards);
            lemma_tidy_widens(*right, source, towards);
            lemma_union_contains(left.fit(), right.fit());
            assert(left.clear(source, towards) && right.clear(source, towards));
            assert(left.fit().lit(source, towards) && right.fit().lit(source, towards));
            if left.fit().crossed(source, towards) {
                lemma_inside_widens(left.fit(), bounds, source, towards);
            }
            if right.fit().crossed(source, towards) {
                lemma_inside_widens(right.fit(), bounds, source, towards);
            }
        },
    }
}

/// Spheres are hit at numbers only, where every normal value is a number.
pub proof fn lemma_spheres_numbered<T: Arithmetic>(
    objects: Seq<Sphere<T>>,
    source: Vector<T>,
    towards: Vector<T>,
)
    requires
        forall|x: T| #[trigger] x.normal() ==> !x.nan(),
    ensures
        numbered(objects, source, towards),
{
    assert forall|i: int|
        0 <= i < objects.len() && (#[trigger] objects[i]).struck(source, towards) is Hit
        implies !objects[i].struck(source, towards)->t.nan() by {
        assert(counts(objects[i].met(source, towards)->t));
    }
}

/// With or without the hierarchy a ray meets the same: both say that it
/// meets nothing, or both name a hit and neither hit is strictly nearer than
/// the other. This holds of a ray that goes through the box of every object
/// it hits and, at every node, through the box of the node where it goes
/// through that of a branch.
pub proof fn lemma_tree_matches_list<H: Hittable>(
    objects: Seq<H>,
    source: Vector<H::Scalar>,
    towards: Vector<H::Scalar>,
)
    requires
        objects.len() > 0,
        weak_order::<H::Scalar>(),
        numbered(objects, source, towards),
        covered(objects, source, towards),
        grown(objects).widening(source, towards),
    ensures
        alike(grown(objects).met(source, towards), first_struck(objects, source, towards)),
{
    broadcast use vstd::seq_lib::group_to_multiset_ensures;

    let tree = grown(objects);
    let leaves = tree.leaves();
    let found = tree.met(source, towards);
    let listed = first_struck(objects, source, towards);
    let ot = outcomes(leaves, source, towards);
    let oo = outcomes(objects, source, towards);
    lemma_grown_holds(objects);
    assert forall|i: int| 0 <= i < leaves.len() implies exists|k: int|
        0 <= k < objects.len() && objects[k] == #[trigger] leaves[i] by {
        assert(leaves.to_multiset().count(leaves[i]) > 0);
        assert(objects.contains(leaves[i]));
    }
    assert forall|k: int| 0 <= k < objects.len() implies exists|i: int|
        0 <= i < leaves.len() && leaves[i] == #[trigger] objects[k] by {
        assert(objects.to_multiset().count(objects[k]) > 0);
        assert(leaves.contains(objects[k]));
    }
    assert(numbered(leaves, source, towards)) by {
        assert forall|i: int|
            0 <= i < leaves.len() && (#[trigger] leaves[i]).struck(source, towards) is Hit
            implies !leaves[i].struck(source, towards)->t.nan() by {
            let k = choose|k: int| 0 <= k < objects.len() && objects[k] == leaves[i];
            assert(objects[k].struck(source, towards) is Hit);
        }
    }
    assert(covered(leaves, source, towards)) by {
        assert forall|i: int|
            0 <= i < leaves.len() && (#[trigger] leaves[i]).struck(source, towards) is Hit
            implies leaves[i].extent().crossed(source, towards) by {
            let k = choose|k: int| 0 <= k < objects.len() && objects[k] == leaves[i];
            assert(objects[k].struck(source, towards) is Hit);
        }
    }
    lemma_node_nearest(tree, source, towards);
    lemma_list_nearest(objects, source, towards);
    if found is Hit {
        let i = choose|i: int| 0 <= i < ot.len() && ot[i] == found;
        let k = choose|k: int| 0 <= k < objects.len() && objects[k] == leaves[i];
        assert(oo[k] == found);
        assert(!beats(oo[k], listed));
        assert(listed is Hit);
    }
    if listed is Hit {
        let k = choose|k: int| 0 <= k < oo.len() && oo[k] == listed;
        let i = choose|i: int| 0 <= i < leaves.len() && leaves[i] == objects[k];
        assert(ot[i] == listed);
        assert(!beats(ot[i], found));
        assert(found is Hit);
    }
}

/// Two hierarchies over the same objects in the same order are the same:
/// they have the same box and say the same of every ray.
pub proof fn lemma_build_repeats<H: Hittable>(
    first: TreeNode<H>,
    second: TreeNode<H>,
    objects: Seq<H>,
)
    requires
        first == grown(objects),
        second == grown(objects),
    ensures
        first == second,
        first.fit() == second.fit(),
        forall|source: Vector<H::Scalar>, towards: Vector<H::Scalar>|
            first.met(source, towards) == second.met(source, towards),
{
}

} // verus!
