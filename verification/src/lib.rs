use vstd::prelude::*;

pub mod axis;
pub mod bounds;
pub mod container;
pub mod hittable;
pub mod material;
pub mod object;
pub mod order;
pub mod pruning;
pub mod scalar;
pub mod scene;
pub mod slab;
pub mod tree;
pub mod vector;
pub mod whole;

pub use axis::Axis;
pub use bounds::BoundingBox;
pub use container::List;
pub use hittable::{HitData, Hittable};
pub use material::{Glass, Material, Matte, Metal, Sample};
pub use object::Sphere;
pub use scalar::Arithmetic;
pub use scene::{build_scene, Path, Scene};
pub use tree::{Root, Tree, TreeNode};
pub use vector::Vector;

verus! {

} // verus!
