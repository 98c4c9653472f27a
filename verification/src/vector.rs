use vstd::prelude::*;

use crate::scalar::Arithmetic;

verus! {

/// A vector of three components. It is a plain value: every operation gives
/// a new vector.
#[derive(Copy, Debug)]
pub struct Vector<T: Arithmetic> {
    pub x: T,
    pub y: T,
    pub z: T,
}

impl<T: Arithmetic> Clone for Vector<T> {
    fn clone(&self) -> (r: Self)
        ensures
            r == *self,
    {
        *self
    }
}

impl<T: Arithmetic> Vector<T> {
    /// The inner product, summed from the left.
    pub open spec fn inner(self, other: Self) -> T {
        self.x.product(other.x).sum(self.y.product(other.y)).sum(self.z.product(other.z))
    }

    /// The squared length.
    pub open spec fn squared(self) -> T {
        self.inner(self)
    }

    /// The vector product.
    pub open spec fn outer(self, other: Self) -> Self {
        Vector {
            x: self.y.product(other.z).difference(self.z.product(other.y)),
            y: self.z.product(other.x).difference(self.x.product(other.z)),
            z: self.x.product(other.y).difference(self.y.product(other.x)),
        }
    }

    /// The vector with all three components `n`.
    pub open spec fn all(n: T) -> Self {
        Vector { x: n, y: n, z: n }
    }

    /// The absolute value of each component.
    pub open spec fn magnitude(self) -> Self {
        Vector { x: self.x.magnitude(), y: self.y.magnitude(), z: self.z.magnitude() }
    }

    /// The sum, component by component.
    pub open spec fn sum(self, other: Self) -> Self {
        Vector { x: self.x.sum(other.x), y: self.y.sum(other.y), z: self.z.sum(other.z) }
    }

    /// The difference, component by component.
    pub open spec fn difference(self, other: Self) -> Self {
        Vector {
            x: self.x.difference(other.x),
            y: self.y.difference(other.y),
            z: self.z.difference(other.z),
        }
    }

    /// The product, component by component.
    pub open spec fn product(self, other: Self) -> Self {
        Vector {
            x: self.x.product(other.x),
            y: self.y.product(other.y),
            z: self.z.product(other.z),
        }
    }

    /// The quotient, component by component.
    pub open spec fn quotient(self, other: Self) -> Self {
        Vector {
            x: self.x.quotient(other.x),
            y: self.y.quotient(other.y),
            z: self.z.quotient(other.z),
        }
    }

    /// Each component plus `t`.
    pub open spec fn raised(self, t: T) -> Self {
        self.sum(Self::all(t))
    }

    /// Each component minus `t`.
    pub open spec fn lowered(self, t: T) -> Self {
        self.difference(Self::all(t))
    }

    /// Each component times `t`.
    pub open spec fn scaled(self, t: T) -> Self {
        self.product(Self::all(t))
    }

    /// Each component divided by `t`.
    pub open spec fn shrunk(self, t: T) -> Self {
        self.quotient(Self::all(t))
    }

    /// The opposite vector.
    pub open spec fn negation(self) -> Self {
        Vector { x: self.x.negation(), y: self.y.negation(), z: self.z.negation() }
    }

    /// The component on axis `index`: 0, 1 or 2.
    pub open spec fn component(self, index: int) -> T {
        if index == 0 {
            self.x
        } else if index == 1 {
            self.y
        } else {
            self.z
        }
    }

    /// The length: the root of the squared length.
    pub open spec fn norm(self) -> T {
        self.squared().root()
    }

    /// The vector divided by its length.
    pub open spec fn direction(self) -> Self {
        self.shrunk(self.norm())
    }

    /// The square root of each component.
    pub open spec fn root(self) -> Self {
        Vector { x: self.x.root(), y: self.y.root(), z: self.z.root() }
    }

    /// Whether a component is not a number.
    pub open spec fn nan(self) -> bool {
        self.x.nan() || self.y.nan() || self.z.nan()
    }

    /// The vector of the three counts.
    pub open spec fn of_counts(x: usize, y: usize, z: usize) -> Self {
        Vector { x: T::of_count(x), y: T::of_count(y), z: T::of_count(z) }
    }

    pub fn new(x: T, y: T, z: T) -> (r: Self)
        ensures
            r == (Vector { x, y, z }),
    {
        Vector { x, y, z }
    }

    pub fn x(&self) -> (r: T)
        ensures
            r == self.x,
    {
        self.x
    }

    pub fn y(&self) -> (r: T)
        ensures
            r == self.y,
    {
        self.y
    }

    pub fn z(&self) -> (r: T)
        ensures
            r == self.z,
    {
        self.z
    }

    pub fn x_mut(&mut self) -> (r: &mut T)
        ensures
            *r == old(self).x,
            *final(self) == (Vector { x: *final(r), ..*old(self) }),
    {
        &mut self.x
    }

    pub fn y_mut(&mut self) -> (r: &mut T)
        ensures
            *r == old(self).y,
            *final(self) == (Vector { y: *final(r), ..*old(self) }),
    {
        &mut self.y
    }

    pub fn z_mut(&mut self) -> (r: &mut T)
        ensures
            *r == old(self).z,
            *final(self) == (Vector { z: *final(r), ..*old(self) }),
    {
        &mut self.z
    }

    pub fn array(&self) -> (r: [T; 3])
        ensures
            r@ == seq![self.x, self.y, self.z],
    {
        [self.x, self.y, self.z]
    }

    pub fn dot(&self, other: &Self) -> (r: T)
        ensures
            r == self.inner(*other),
    {
        self.x.mul(other.x).add(self.y.mul(other.y)).add(self.z.mul(other.z))
    }

    pub fn l2(&self) -> (r: T)
        ensures
            r == self.squared(),
    {
        self.dot(self)
    }

    pub fn cross(&self, other: &Self) -> (r: Self)
        ensures
            r == self.outer(*other),
    {
        Vector {
            x: self.y.mul(other.z).sub(self.z.mul(other.y)),
            y: self.z.mul(other.x).sub(self.x.mul(other.z)),
            z: self.x.mul(other.y).sub(self.y.mul(other.x)),
        }
    }

    pub fn uniform(n: T) -> (r: Self)
        ensures
            r == Self::all(n),
    {
        Vector { x: n, y: n, z: n }
    }

    pub fn abs(&self) -> (r: Self)
        ensures
            r == self.magnitude(),
    {
        Vector { x: self.x.abs(), y: self.y.abs(), z: self.z.abs() }
    }

    pub fn add(self, other: Self) -> (r: Self)
        ensures
            r == self.sum(other),
    {
        Vector { x: self.x.add(other.x), y: self.y.add(other.y), z: self.z.add(other.z) }
    }

    pub fn sub(self, other: Self) -> (r: Self)
        ensures
            r == self.difference(other),
    {
        Vector { x: self.x.sub(other.x), y: self.y.sub(other.y), z: self.z.sub(other.z) }
    }

    pub fn mul(self, other: Self) -> (r: Self)
        ensures
            r == self.product(other),
    {
        Vector { x: self.x.mul(other.x), y: self.y.mul(other.y), z: self.z.mul(other.z) }
    }

    pub fn div(self, other: Self) -> (r: Self)
        ensures
            r == self.quotient(other),
    {
        Vector { x: self.x.div(other.x), y: self.y.div(other.y), z: self.z.div(other.z) }
    }

    pub fn raise(self, t: T) -> (r: Self)
        ensures
            r == self.raised(t),
    {
        Vector { x: self.x.add(t), y: self.y.add(t), z: self.z.add(t) }
    }

    pub fn lower(self, t: T) -> (r: Self)
        ensures
            r == self.lowered(t),
    {
        Vector { x: self.x.sub(t), y: self.y.sub(t), z: self.z.sub(t) }
    }

    pub fn scale(self, t: T) -> (r: Self)
        ensures
            r == self.scaled(t),
    {
        Vector { x: self.x.mul(t), y: self.y.mul(t), z: self.z.mul(t) }
    }

    pub fn shrink(self, t: T) -> (r: Self)
        ensures
            r == self.shrunk(t),
    {
        Vector { x: self.x.div(t), y: self.y.div(t), z: self.z.div(t) }
    }

    pub fn neg(self) -> (r: Self)
        ensures
            r == self.negation(),
    {
        Vector { x: self.x.neg(), y: self.y.neg(), z: self.z.neg() }
    }

    pub fn index(&self, index: usize) -> (r: T)
        requires
            index < 3,
        ensures
            r == self.component(index as int),
    {
        if index == 0 {
            self.x
        } else if index == 1 {
            self.y
        } else {
            self.z
        }
    }

    pub fn length(&self) -> (r: T)
        ensures
            r == self.norm(),
    {
        self.l2().sqrt()
    }

    pub fn unit(&self) -> (r: Self)
        ensures
            r == self.direction(),
    {
        self.shrink(self.length())
    }

    pub fn sqrt(&self) -> (r: Self)
        ensures
            r == self.root(),
    {
        Vector { x: self.x.sqrt(), y: self.y.sqrt(), z: self.z.sqrt() }
    }

    pub fn is_nan(&self) -> (r: bool)
        ensures
            r == self.nan(),
    {
        self.x.is_nan() || self.y.is_nan() || self.z.is_nan()
    }

    /// The vector of three numbers that were drawn.
    pub fn random(numbers: (T, T, T)) -> (r: Self)
        ensures
            r == (Vector { x: numbers.0, y: numbers.1, z: numbers.2 }),
    {
        Vector { x: numbers.0, y: numbers.1, z: numbers.2 }
    }

    /// The point scaled to `radius`, or nothing where `point` lies outside
    /// the unit ball and another one has to be drawn.
    pub fn random_ball(radius: T, point: Self) -> (r: Option<Self>)
        ensures
            r == if point.squared().at_most(T::of_count(1)) {
                Some(point.scaled(radius))
            } else {
                None
            },
    {
        if point.l2().le(T::from_usize(1)) {
            Some(point.scale(radius))
        } else {
            None
        }
    }

    /// The origin.
    pub fn o() -> (r: Self)
        ensures
            r == Self::of_counts(0, 0, 0),
    {
        Self::uniform(T::from_usize(0))
    }

    /// The unit vector of the first axis.
    pub fn i() -> (r: Self)
        ensures
            r == Self::of_counts(1, 0, 0),
    {
        Vector { x: T::from_usize(1), y: T::from_usize(0), z: T::from_usize(0) }
    }

    /// The unit vector of the second axis.
    pub fn j() -> (r: Self)
        ensures
            r == Self::of_counts(0, 1, 0),
    {
        Vector { x: T::from_usize(0), y: T::from_usize(1), z: T::from_usize(0) }
    }

    /// The unit vector of the third axis.
    pub fn k() -> (r: Self)
        ensures
            r == Self::of_counts(0, 0, 1),
    {
        Vector { x: T::from_usize(0), y: T::from_usize(0), z: T::from_usize(1) }
    }
}

} // verus!
