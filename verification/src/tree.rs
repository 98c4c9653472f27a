use vstd::prelude::*;

use crate::axis::Axis;
use crate::bounds::BoundingBox;
use crate::container::List;
use crate::hittable::{closer, pick_closer, HitData, Hittable};
use crate::order::{
    all_bounded, all_ready, arranged, lemma_arranged_holds, part, sort_by_center,
};
use crate::pruning::lemma_grown_holds;
use crate::vector::Vector;

verus! {

/// A node of the hierarchy: one object, or two nodes with the box around
/// both.
pub enum TreeNode<H: Hittable> {
    Leaf(H),
    Fork { bounds: BoundingBox<H::Scalar>, left: Box<TreeNode<H>>, right: Box<TreeNode<H>> },
}

/// A hierarchy of boxes over a collection of objects.
pub struct Tree<H: Hittable> {
    pub root: TreeNode<H>,
}

/// What a scene looks at: a flat collection, or the hierarchy over one.
pub enum Root<H: Hittable> {
    Flat(List<H>),
    Grown(Tree<H>),
}

/// The node over `left` and `right`, with the box around both.
pub open spec fn fork<H: Hittable>(left: TreeNode<H>, right: TreeNode<H>) -> TreeNode<H> {
    TreeNode::Fork {
        bounds: left.fit().union(right.fit()),
        left: Box::new(left),
        right: Box::new(right),
    }
}

/// The hierarchy over `objects`, which are not none. One object is a leaf
/// and two are a node over two leaves. More are put in order along the
/// axis on which their centres are spread most and cut in two, the first
/// half holding the smaller half of the count; the node is over the
/// hierarchies of the two halves.
pub open spec fn grown<H: Hittable>(objects: Seq<H>) -> TreeNode<H>
    decreases objects.len(),
    via grown_decreases::<H>
{
    if objects.len() <= 1 {
        TreeNode::Leaf(objects[0])
    } else if objects.len() == 2 {
        fork(TreeNode::Leaf(objects[0]), TreeNode::Leaf(objects[1]))
    } else {
        let sorted = arranged(objects, Axis::widest(objects));
        let mid = objects.len() as int / 2;
        fork(grown(sorted.subrange(0, mid)), grown(sorted.subrange(mid, sorted.len() as int)))
    }
}

#[via_fn]
proof fn grown_decreases<H: Hittable>(objects: Seq<H>) {
    if objects.len() > 2 {
        lemma_arranged_holds(objects, Axis::widest(objects));
    }
}

impl<H: Hittable> TreeNode<H> {
    /// The objects under the node, from left to right.
    pub open spec fn leaves(self) -> Seq<H>
        decreases self,
    {
        match self {
            TreeNode::Leaf(object) => seq![object],
            TreeNode::Fork { left, right, .. } => left.leaves() + right.leaves(),
        }
    }

    /// The number of nodes on the longest way down to an object.
    pub open spec fn height(self) -> nat
        decreases self,
    {
        match self {
            TreeNode::Leaf(_) => 0,
            TreeNode::Fork { left, right, .. } => {
                if left.height() >= right.height() {
                    left.height() + 1
                } else {
                    right.height() + 1
                }
            },
        }
    }

    /// Every object under the node can be asked.
    pub open spec fn sound(self) -> bool
        decreases self,
    {
        match self {
            TreeNode::Leaf(object) => object.ready(),
            TreeNode::Fork { left, right, .. } => left.sound() && right.sound(),
        }
    }

    /// Every object under the node has a box.
    pub open spec fn boxed(self) -> bool
        decreases self,
    {
        match self {
            TreeNode::Leaf(object) => object.bounded(),
            TreeNode::Fork { left, right, .. } => left.boxed() && right.boxed(),
        }
    }

    /// The box of the node: that of the object, or the one the node holds.
    pub open spec fn fit(self) -> BoundingBox<H::Scalar> {
        match self {
            TreeNode::Leaf(object) => object.extent(),
            TreeNode::Fork { bounds, .. } => bounds,
        }
    }

    /// Every node holds the box around its two branches.
    pub open spec fn tidy(self) -> bool
        decreases self,
    {
        match self {
            TreeNode::Leaf(_) => true,
            TreeNode::Fork { bounds, left, right } => {
                &&& bounds == left.fit().union(right.fit())
                &&& left.tidy()
                &&& right.tidy()
            },
        }
    }

    /// What the ray meets: at a leaf what the object says; at a node
    /// nothing where the ray misses the box, else the nearer of what the
    /// two branches say.
    pub open spec fn met(self, source: Vector<H::Scalar>, towards: Vector<H::Scalar>) -> HitData<
        H::Scalar,
    >
        decreases self,
    {
        match self {
            TreeNode::Leaf(object) => object.struck(source, towards),
            TreeNode::Fork { bounds, left, right } => if !bounds.crossed(source, towards) {
                HitData::Miss
            } else {
                closer(left.met(source, towards), right.met(source, towards))
            },
        }
    }

    /// The node over `left` and `right`.
    pub fn new(left: TreeNode<H>, right: TreeNode<H>) -> (r: Self)
        requires
            left.boxed(),
            right.boxed(),
        ensures
            r == fork(left, right),
            r.boxed(),
            r.sound() == (left.sound() && right.sound()),
    {
        let bounds = BoundingBox::wraps(left.bounds(), right.bounds());
        TreeNode::Fork { bounds, left: Box::new(left), right: Box::new(right) }
    }

    fn trace(&self, source: Vector<H::Scalar>, towards: Vector<H::Scalar>) -> (r: HitData<
        H::Scalar,
    >)
        requires
            self.sound(),
        ensures
            r == self.met(source, towards),
        decreases self,
    {
        match self {
            TreeNode::Leaf(object) => object.hit(source, towards),
            TreeNode::Fork { bounds, left, right } => {
                if !bounds.through(source, towards) {
                    return HitData::Miss;
                }
                pick_closer(left.trace(source, towards), right.trace(source, towards))
            },
        }
    }
}

impl<H: Hittable> Hittable for TreeNode<H> {
    type Scalar = H::Scalar;

    open spec fn ready(&self) -> bool {
        self.sound()
    }

    open spec fn bounded(&self) -> bool {
        self.boxed()
    }

    open spec fn struck(&self, source: Vector<H::Scalar>, towards: Vector<H::Scalar>) -> HitData<
        H::Scalar,
    > {
        self.met(source, towards)
    }

    open spec fn extent(&self) -> BoundingBox<H::Scalar> {
        self.fit()
    }

    fn hit(&self, source: Vector<H::Scalar>, towards: Vector<H::Scalar>) -> (r: HitData<
        H::Scalar,
    >) {
        self.trace(source, towards)
    }

    fn bounds(&self) -> (r: BoundingBox<H::Scalar>) {
        match self {
            TreeNode::Leaf(object) => object.bounds(),
            TreeNode::Fork { bounds, .. } => *bounds,
        }
    }
}

impl<H: Hittable + Copy> Tree<H> {
    fn recursive_partition(list: Vec<H>) -> (r: TreeNode<H>)
        requires
            list@.len() > 0,
            all_bounded(list@),
        ensures
            r == grown(list@),
            r.boxed(),
            all_ready(list@) ==> r.sound(),
        decreases list@.len(),
    {
        let n = list.len();
        if n == 1 {
            TreeNode::Leaf(list[0])
        } else if n == 2 {
            TreeNode::new(TreeNode::Leaf(list[0]), TreeNode::Leaf(list[1]))
        } else {
            let axis = Axis::maximum_variance(&list);
            let sorted = sort_by_center(&list, axis);
            proof {
                lemma_arranged_holds(list@, axis);
            }
            let left = Self::recursive_partition(part(&sorted, 0, n / 2));
            let right = Self::recursive_partition(part(&sorted, n / 2, n));
            TreeNode::new(left, right)
        }
    }

    /// The hierarchy over the objects of `list`, which holds at least one.
    pub fn build(list: List<H>) -> (r: Self)
        requires
            list.bounded(),
        ensures
            r.root == grown(list.objects@),
            r.root.leaves().to_multiset() == list.objects@.to_multiset(),
            r.root.tidy(),
            r.bounded(),
            list.ready() ==> r.ready(),
    {
        proof {
            lemma_grown_holds(list.objects@);
        }
        Tree { root: Self::recursive_partition(list.objects) }
    }
}

impl<H: Hittable> Hittable for Tree<H> {
    type Scalar = H::Scalar;

    open spec fn ready(&self) -> bool {
        self.root.sound()
    }

    open spec fn bounded(&self) -> bool {
        self.root.boxed()
    }

    open spec fn struck(&self, source: Vector<H::Scalar>, towards: Vector<H::Scalar>) -> HitData<
        H::Scalar,
    > {
        self.root.met(source, towards)
    }

    open spec fn extent(&self) -> BoundingBox<H::Scalar> {
        self.root.fit()
    }

    fn hit(&self, source: Vector<H::Scalar>, towards: Vector<H::Scalar>) -> (r: HitData<
        H::Scalar,
    >) {
        self.root.hit(source, towards)
    }

    fn bounds(&self) -> (r: BoundingBox<H::Scalar>) {
        self.root.bounds()
    }
}

impl<H: Hittable> Hittable for Root<H> {
    type Scalar = H::Scalar;

    open spec fn ready(&self) -> bool {
        match self {
            Root::Flat(list) => list.ready(),
            Root::Grown(tree) => tree.ready(),
        }
    }

    open spec fn bounded(&self) -> bool {
        match self {
            Root::Flat(list) => list.bounded(),
            Root::Grown(tree) => tree.bounded(),
        }
    }

    open spec fn struck(&self, source: Vector<H::Scalar>, towards: Vector<H::Scalar>) -> HitData<
        H::Scalar,
    > {
        match self {
            Root::Flat(list) => list.struck(source, towards),
            Root::Grown(tree) => tree.struck(source, towards),
        }
    }

    open spec fn extent(&self) -> BoundingBox<H::Scalar> {
        match self {
            Root::Flat(list) => list.extent(),
            Root::Grown(tree) => tree.extent(),
        }
    }

    fn hit(&self, source: Vector<H::Scalar>, towards: Vector<H::Scalar>) -> (r: HitData<
        H::Scalar,
    >) {
        match self {
            Root::Flat(list) => list.hit(source, towards),
            Root::Grown(tree) => tree.hit(source, towards),
        }
    }

    fn bounds(&self) -> (r: BoundingBox<H::Scalar>) {
        match self {
            Root::Flat(list) => list.bounds(),
            Root::Grown(tree) => tree.bounds(),
        }
    }
}

} // verus!
