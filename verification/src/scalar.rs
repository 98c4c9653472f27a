use vstd::prelude::*;

verus! {

/// The numbers the tracer computes with.
///
/// Every operation comes as a pair: the executable method and the
/// specification function that names its value. The library is verified for
/// every implementation. Of an implementation that is not itself verified
/// it takes on trust only that each method returns the value of its twin,
/// that is, that the operation is a function of its arguments. Nothing
/// else is assumed: the familiar laws of an order and of arithmetic are
/// hypotheses wherever a proof needs them (see [`strict_order`],
/// [`weak_order`], [`total_order`] and [`monotone`]). The whole numbers
/// implement the trait, and all these laws hold of them.
pub trait Arithmetic: Copy {
    /// The value of `self + rhs`.
    spec fn sum(self, rhs: Self) -> Self;

    /// The value of `self - rhs`.
    spec fn difference(self, rhs: Self) -> Self;

    /// The value of `self * rhs`.
    spec fn product(self, rhs: Self) -> Self;

    /// The value of `self / rhs`.
    spec fn quotient(self, rhs: Self) -> Self;

    /// The value of `-self`.
    spec fn negation(self) -> Self;

    /// The absolute value.
    spec fn magnitude(self) -> Self;

    /// The square root.
    spec fn root(self) -> Self;

    /// Whether `self < rhs`.
    spec fn less(self, rhs: Self) -> bool;

    /// Whether `self <= rhs`.
    spec fn at_most(self, rhs: Self) -> bool;

    /// Whether the value is not a number.
    spec fn nan(self) -> bool;

    /// Whether the value is neither zero, subnormal, infinite nor not a number.
    spec fn normal(self) -> bool;

    /// Whether the sign is negative.
    spec fn negative(self) -> bool;

    /// The number that stands for the count `n`.
    spec fn of_count(n: usize) -> Self;

    /// The byte the value is cut down to.
    spec fn byte(self) -> u8;

    /// The value above every number.
    spec fn unbounded() -> Self;

    fn add(self, rhs: Self) -> (r: Self)
        ensures
            r == self.sum(rhs),
    ;

    fn sub(self, rhs: Self) -> (r: Self)
        ensures
            r == self.difference(rhs),
    ;

    fn mul(self, rhs: Self) -> (r: Self)
        ensures
            r == self.product(rhs),
    ;

    fn div(self, rhs: Self) -> (r: Self)
        ensures
            r == self.quotient(rhs),
    ;

    fn neg(self) -> (r: Self)
        ensures
            r == self.negation(),
    ;

    fn abs(self) -> (r: Self)
        ensures
            r == self.magnitude(),
    ;

    fn sqrt(self) -> (r: Self)
        ensures
            r == self.root(),
    ;

    fn lt(self, rhs: Self) -> (r: bool)
        ensures
            r == self.less(rhs),
    ;

    fn le(self, rhs: Self) -> (r: bool)
        ensures
            r == self.at_most(rhs),
    ;

    fn is_nan(self) -> (r: bool)
        ensures
            r == self.nan(),
    ;

    fn is_normal(self) -> (r: bool)
        ensures
            r == self.normal(),
    ;

    fn is_sign_negative(self) -> (r: bool)
        ensures
            r == self.negative(),
    ;

    fn from_usize(n: usize) -> (r: Self)
        ensures
            r == Self::of_count(n),
    ;

    fn to_u8(self) -> (r: u8)
        ensures
            r == self.byte(),
    ;

    fn infinity() -> (r: Self)
        ensures
            r == Self::unbounded(),
    ;
}

/// `less` is a strict partial order: nothing is below itself, and it is
/// transitive.
pub open spec fn strict_order<T: Arithmetic>() -> bool {
    &&& forall|a: T| !(#[trigger] a.less(a))
    &&& forall|a: T, b: T, c: T| #[trigger] a.less(b) && #[trigger] b.less(c) ==> a.less(c)
}

/// `less` is a strict order in which the numbers that are not below each
/// other are alike: what is not below a number is not below anything that
/// the number is not below. Values that are not numbers are left out, for
/// they are below nothing and nothing is below them.
pub open spec fn weak_order<T: Arithmetic>() -> bool {
    &&& strict_order::<T>()
    &&& forall|a: T, b: T, c: T|
        !b.nan() && !(#[trigger] a.less(b)) && !(#[trigger] b.less(c)) ==> !a.less(c)
}

/// `less` is a weak order and, among numbers, `at_most` says that the
/// first is not above the second.
pub open spec fn total_order<T: Arithmetic>() -> bool {
    &&& weak_order::<T>()
    &&& forall|a: T, b: T| !a.nan() && !b.nan() ==> (#[trigger] a.at_most(b) <==> !b.less(a))
}

/// The operations keep the order, as far as the slab test needs it. Taking
/// the same number away from two keeps them in order; so does multiplying
/// them by the same number of positive sign, and multiplying them by one
/// of negative sign turns them round. Only numbers are below one another,
/// and the two ends of the line are numbers. "In order" means here that
/// the second is not below the first, which is true of everything that is
/// compared with a value that is not a number.
pub open spec fn monotone<T: Arithmetic>() -> bool {
    &&& forall|a: T, b: T, f: T|
        !b.less(a) ==> !(#[trigger] b.difference(f)).less(#[trigger] a.difference(f))
    &&& forall|a: T, b: T, k: T|
        !b.less(a) && !k.negative() ==> !(#[trigger] b.product(k)).less(#[trigger] a.product(k))
    &&& forall|a: T, b: T, k: T|
        !b.less(a) && k.negative() ==> !(#[trigger] a.product(k)).less(#[trigger] b.product(k))
    &&& forall|a: T, b: T| #[trigger] a.less(b) ==> !a.nan() && !b.nan()
    &&& !T::unbounded().nan()
    &&& !T::unbounded().negation().nan()
}

/// In a strict order no two values are below each other.
pub proof fn lemma_asymmetric<T: Arithmetic>(a: T, b: T)
    requires
        strict_order::<T>(),
        a.less(b),
    ensures
        !b.less(a),
{
    if b.less(a) {
        assert(a.less(a));
    }
}

/// The number `num / den`.
pub open spec fn ratio<T: Arithmetic>(num: usize, den: usize) -> T {
    T::of_count(num).quotient(T::of_count(den))
}

/// The number `num / den`, for the constants of the formulas.
pub fn constant<T: Arithmetic>(num: usize, den: usize) -> (r: T)
    ensures
        r == ratio::<T>(num, den),
{
    T::from_usize(num).div(T::from_usize(den))
}

/// The fifth power, multiplied out as `x * ((x * x) * (x * x))`.
pub open spec fn fifth<T: Arithmetic>(x: T) -> T {
    x.product(x.product(x).product(x.product(x)))
}

/// The fifth power of `x`.
pub fn pow5<T: Arithmetic>(x: T) -> (r: T)
    ensures
        r == fifth(x),
{
    let square = x.mul(x);
    x.mul(square.mul(square))
}

} // verus!
