use vstd::prelude::*;

use crate::bounds::BoundingBox;
use crate::hittable::{HitData, Hittable};
use crate::material::Material;
use crate::scalar::Arithmetic;
use crate::vector::Vector;

verus! {

/// A sphere. Its radius is above zero.
#[derive(Copy, Debug)]
pub struct Sphere<T: Arithmetic> {
    pub center: Vector<T>,
    pub radius: T,
    pub matter: Material<T>,
}

impl<T: Arithmetic> Clone for Sphere<T> {
    fn clone(&self) -> (r: Self)
        ensures
            r == *self,
    {
        *self
    }
}

/// A parameter at which a hit counts: a normal number above zero. Zero and
/// the numbers next to it are left out, so that a ray does not meet the
/// surface it starts from.
pub open spec fn counts<T: Arithmetic>(t: T) -> bool {
    t.normal() && !t.negative()
}

impl<T: Arithmetic> Sphere<T> {
    /// The vector from the centre to `point`.
    pub open spec fn outward(self, point: Vector<T>) -> Vector<T> {
        point.difference(self.center)
    }

    /// The discriminant `b^2 - a c` of `a t^2 + 2 b t + c`, whose roots are
    /// the parameters at which the line from `source` along `towards` meets
    /// the sphere: `a = d . d`, `b = (o - c) . d` and `c = |o - c|^2 - r^2`.
    pub open spec fn discriminant(self, source: Vector<T>, towards: Vector<T>) -> T {
        let oc = self.outward(source);
        let a = towards.squared();
        let b = oc.inner(towards);
        let c = oc.squared().difference(self.radius.product(self.radius));
        b.product(b).difference(a.product(c))
    }

    /// The two roots `(-b - sqrt(D)) / a` and `(-b + sqrt(D)) / a`, the one
    /// with the minus sign first.
    pub open spec fn roots(self, source: Vector<T>, towards: Vector<T>) -> (T, T) {
        let a = towards.squared();
        let b = self.outward(source).inner(towards);
        let base = self.discriminant(source, towards).root();
        (b.negation().difference(base).quotient(a), b.negation().sum(base).quotient(a))
    }

    /// The hit at the parameter `t`.
    pub open spec fn hit_at(self, source: Vector<T>, towards: Vector<T>, t: T) -> HitData<T> {
        let point = source.sum(towards.scaled(t));
        HitData::Hit { t, point, normal: self.outward(point), matter: self.matter }
    }

    /// What the ray meets: nothing where the discriminant is below zero,
    /// else the hit at the first of the two roots that counts, or nothing
    /// where neither does.
    pub open spec fn met(self, source: Vector<T>, towards: Vector<T>) -> HitData<T> {
        let (neg, pos) = self.roots(source, towards);
        if self.discriminant(source, towards).less(T::of_count(0)) {
            HitData::Miss
        } else if counts(neg) {
            self.hit_at(source, towards, neg)
        } else if counts(pos) {
            self.hit_at(source, towards, pos)
        } else {
            HitData::Miss
        }
    }

    /// The box from `center - radius` to `center + radius`.
    pub open spec fn around(self) -> BoundingBox<T> {
        let min = self.center.lowered(self.radius);
        let max = self.center.raised(self.radius);
        BoundingBox::made((min.x, max.x), (min.y, max.y), (min.z, max.z))
    }

    pub fn new(center: Vector<T>, radius: T, matter: Material<T>) -> (r: Self)
        requires
            T::of_count(0).less(radius),
        ensures
            r == (Sphere { center, radius, matter }),
    {
        Sphere { center, radius, matter }
    }

    pub fn center(&self) -> (r: Vector<T>)
        ensures
            r == self.center,
    {
        self.center
    }

    pub fn radius(&self) -> (r: T)
        ensures
            r == self.radius,
    {
        self.radius
    }

    pub fn matter(&self) -> (r: Material<T>)
        ensures
            r == self.matter,
    {
        self.matter
    }

    pub fn normal(&self, point: &Vector<T>) -> (r: Vector<T>)
        ensures
            r == self.outward(*point),
    {
        point.sub(self.center)
    }

    fn found(&self, source: Vector<T>, towards: Vector<T>, t: T) -> (r: HitData<T>)
        ensures
            r == self.hit_at(source, towards, t),
    {
        let point = source.add(towards.scale(t));
        HitData::Hit { t, point, normal: self.normal(&point), matter: self.matter }
    }
}

impl<T: Arithmetic> Hittable for Sphere<T> {
    type Scalar = T;

    open spec fn ready(&self) -> bool {
        true
    }

    open spec fn bounded(&self) -> bool {
        true
    }

    open spec fn struck(&self, source: Vector<T>, towards: Vector<T>) -> HitData<T> {
        self.met(source, towards)
    }

    open spec fn extent(&self) -> BoundingBox<T> {
        self.around()
    }

    fn hit(&self, source: Vector<T>, towards: Vector<T>) -> (r: HitData<T>) {
        let oc = self.normal(&source);
        let a = towards.l2();
        let b = oc.dot(&towards);
        let c = oc.l2().sub(self.radius.mul(self.radius));

        let discriminant = b.mul(b).sub(a.mul(c));
        if discriminant.lt(T::from_usize(0)) {
            return HitData::Miss;
        }
        let base = discriminant.sqrt();
        let neg = b.neg().sub(base).div(a);
        let pos = b.neg().add(base).div(a);

        if neg.is_normal() && !neg.is_sign_negative() {
            self.found(source, towards, neg)
        } else if pos.is_normal() && !pos.is_sign_negative() {
            self.found(source, towards, pos)
        } else {
            HitData::Miss
        }
    }

    fn bounds(&self) -> (r: BoundingBox<T>) {
        let min = self.center.lower(self.radius);
        let max = self.center.raise(self.radius);
        BoundingBox::new((min.x(), max.x()), (min.y(), max.y()), (min.z(), max.z()))
    }
}

/// A sphere is hit only at a parameter that counts, and the hit is the
/// point of the ray at that parameter, with the vector from the centre to
/// it as the normal and the sphere's own material.
pub proof fn lemma_hit_counts<T: Arithmetic>(
    sphere: Sphere<T>,
    source: Vector<T>,
    towards: Vector<T>,
)
    ensures
        match sphere.met(source, towards) {
            HitData::Miss => {
                ||| sphere.discriminant(source, towards).less(T::of_count(0))
                ||| !counts(sphere.roots(source, towards).0) && !counts(
                    sphere.roots(source, towards).1,
                )
            },
            HitData::Hit { t, point, normal, matter } => {
                &&& !sphere.discriminant(source, towards).less(T::of_count(0))
                &&& counts(t)
                &&& t == sphere.roots(source, towards).0 || t == sphere.roots(source, towards).1
                &&& point == source.sum(towards.scaled(t))
                &&& normal == point.difference(sphere.center)
                &&& matter == sphere.matter
            },
        },
{
}

} // verus!
