use vstd::prelude::*;

use crate::scalar::{monotone, total_order, Arithmetic};

verus! {

/// The whole number nearest to `x` that fits.
pub open spec fn fitted(x: int) -> i64 {
    if x > i64::MAX {
        i64::MAX
    } else if x < i64::MIN {
        i64::MIN
    } else {
        x as i64
    }
}

/// The distance of `x` from zero.
pub open spec fn size(x: int) -> int {
    if x < 0 {
        -x
    } else {
        x
    }
}

/// The quotient of whole numbers, rounded towards zero.
pub open spec fn divided(x: int, y: int) -> int
    recommends
        y != 0,
{
    if x >= 0 {
        x / y
    } else {
        -((-x) / y)
    }
}

/// `r` is the whole part of the square root of `x`.
pub open spec fn is_root(x: int, r: int) -> bool {
    0 <= r && r * r <= x < (r + 1) * (r + 1)
}

/// The whole part of the square root of `x`, which is not negative.
pub open spec fn whole_root(x: int) -> int {
    choose|r: int| is_root(x, r)
}

proof fn lemma_square_grows(a: int, b: int)
    requires
        0 <= a <= b,
    ensures
        a * a <= b * b,
{
    assert(a * a <= b * b) by (nonlinear_arith)
        requires
            0 <= a <= b,
    ;
}

/// A number has one whole root at most.
pub proof fn lemma_root_unique(x: int, r: int, s: int)
    requires
        is_root(x, r),
        is_root(x, s),
    ensures
        r == s,
{
    if r < s {
        lemma_square_grows(r + 1, s);
    }
    if s < r {
        lemma_square_grows(s + 1, r);
    }
}

proof fn lemma_quotient_small(x: int, y: int)
    requires
        x >= 0,
        y != 0,
    ensures
        -x <= x / y <= x,
        x > 0 && y != -1 ==> -x < x / y,
{
    assert(-x <= x / y <= x) by (nonlinear_arith)
        requires
            x >= 0,
            y != 0,
    ;
    if x > 0 && y != -1 {
        if y > 0 {
            assert(0 <= x / y) by (nonlinear_arith)
                requires
                    x >= 0,
                    y > 0,
            ;
        } else {
            assert(-x < x / y) by (nonlinear_arith)
                requires
                    x > 0,
                    y <= -2,
            ;
        }
    }
}

fn root_of(x: i64) -> (r: i64)
    requires
        x >= 0,
    ensures
        r == whole_root(x as int),
        is_root(x as int, r as int),
{
    let mut lo: i64 = 0;
    let mut hi: i64 = 3037000500;
    proof {
        assert(3037000500int * 3037000500int > i64::MAX) by (nonlinear_arith);
    }
    while hi - lo > 1
        invariant
            0 <= lo < hi <= 3037000500,
            lo * lo <= x < hi * hi,
        decreases hi - lo,
    {
        let mid: i64 = lo + (hi - lo) / 2;
        proof {
            lemma_square_grows(mid as int, 3037000499);
            assert(3037000499int * 3037000499int <= i64::MAX) by (nonlinear_arith);
        }
        if mid * mid <= x {
            lo = mid;
        } else {
            hi = mid;
        }
    }
    proof {
        assert(hi == lo + 1);
        assert(is_root(x as int, lo as int));
        lemma_root_unique(x as int, lo as int, whole_root(x as int));
    }
    lo
}

/// The whole numbers, as far as they fit. A result that does not fit is the
/// nearest number that does, so the largest and the smallest number stand
/// for what lies beyond them. Every value is a number, and every number
/// but zero is normal. Division rounds towards zero; a number divided by
/// zero is the largest or the smallest number, by its sign, and zero where
/// it is zero itself. The root of a negative number is zero.
impl Arithmetic for i64 {
    open spec fn sum(self, rhs: Self) -> Self {
        fitted(self + rhs)
    }

    open spec fn difference(self, rhs: Self) -> Self {
        fitted(self - rhs)
    }

    open spec fn product(self, rhs: Self) -> Self {
        fitted(self * rhs)
    }

    open spec fn quotient(self, rhs: Self) -> Self {
        if rhs != 0 {
            fitted(divided(self as int, rhs as int))
        } else if self > 0 {
            i64::MAX
        } else if self < 0 {
            i64::MIN
        } else {
            0
        }
    }

    open spec fn negation(self) -> Self {
        fitted(-self)
    }

    open spec fn magnitude(self) -> Self {
        fitted(size(self as int))
    }

    open spec fn root(self) -> Self {
        if self < 0 {
            0
        } else {
            whole_root(self as int) as i64
        }
    }

    open spec fn less(self, rhs: Self) -> bool {
        self < rhs
    }

    open spec fn at_most(self, rhs: Self) -> bool {
        self <= rhs
    }

    open spec fn nan(self) -> bool {
        false
    }

    open spec fn normal(self) -> bool {
        self != 0
    }

    open spec fn negative(self) -> bool {
        self < 0
    }

    open spec fn of_count(n: usize) -> Self {
        fitted(n as int)
    }

    open spec fn byte(self) -> u8 {
        if self < 0 {
            0
        } else if self > 255 {
            255
        } else {
            self as u8
        }
    }

    open spec fn unbounded() -> Self {
        i64::MAX
    }

    fn add(self, rhs: Self) -> (r: Self) {
        match self.checked_add(rhs) {
            Some(r) => r,
            None => if rhs > 0 {
                i64::MAX
            } else {
                i64::MIN
            },
        }
    }

    fn sub(self, rhs: Self) -> (r: Self) {
        match self.checked_sub(rhs) {
            Some(r) => r,
            None => if rhs < 0 {
                i64::MAX
            } else {
                i64::MIN
            },
        }
    }

    fn mul(self, rhs: Self) -> (r: Self) {
        match self.checked_mul(rhs) {
            Some(r) => r,
            None => {
                proof {
                    assert((self > 0) == (rhs > 0) ==> self * rhs >= 0) by (nonlinear_arith);
                    assert((self > 0) != (rhs > 0) ==> self * rhs <= 0) by (nonlinear_arith);
                }
                if (self > 0) == (rhs > 0) {
                    i64::MAX
                } else {
                    i64::MIN
                }
            },
        }
    }

    fn div(self, rhs: Self) -> (r: Self) {
        if rhs == 0 {
            if self > 0 {
                i64::MAX
            } else if self < 0 {
                i64::MIN
            } else {
                0
            }
        } else if self == i64::MIN && rhs == -1 {
            proof {
                assert(0x8000_0000_0000_0000int / -1int == -0x8000_0000_0000_0000int)
                    by (nonlinear_arith);
            }
            i64::MAX
        } else {
            proof {
                lemma_quotient_small(size(self as int), rhs as int);
            }
            self / rhs
        }
    }

    fn neg(self) -> (r: Self) {
        if self == i64::MIN {
            i64::MAX
        } else {
            -self
        }
    }

    fn abs(self) -> (r: Self) {
        if self == i64::MIN {
            i64::MAX
        } else if self < 0 {
            -self
        } else {
            self
        }
    }

    fn sqrt(self) -> (r: Self) {
        if self < 0 {
            0
        } else {
            root_of(self)
        }
    }

    fn lt(self, rhs: Self) -> (r: bool) {
        self < rhs
    }

    fn le(self, rhs: Self) -> (r: bool) {
        self <= rhs
    }

    fn is_nan(self) -> (r: bool) {
        false
    }

    fn is_normal(self) -> (r: bool) {
        self != 0
    }

    fn is_sign_negative(self) -> (r: bool) {
        self < 0
    }

    fn from_usize(n: usize) -> (r: Self) {
        let wide: u64 = n as u64;
        if wide > 0x7fff_ffff_ffff_ffff {
            i64::MAX
        } else {
            wide as i64
        }
    }

    fn to_u8(self) -> (r: u8) {
        if self < 0 {
            0
        } else if self > 255 {
            255
        } else {
            self as u8
        }
    }

    fn infinity() -> (r: Self) {
        i64::MAX
    }
}

/// The whole numbers are in order as the laws ask.
pub proof fn lemma_whole_order()
    ensures
        total_order::<i64>(),
{
}

proof fn lemma_product_grows(a: int, b: int, k: int)
    requires
        a <= b,
    ensures
        k >= 0 ==> a * k <= b * k,
        k < 0 ==> b * k <= a * k,
{
    assert(k >= 0 ==> a * k <= b * k) by (nonlinear_arith)
        requires
            a <= b,
    ;
    assert(k < 0 ==> b * k <= a * k) by (nonlinear_arith)
        requires
            a <= b,
    ;
}

/// The operations on whole numbers keep the order as the slab test needs
/// it.
pub proof fn lemma_whole_monotone()
    ensures
        monotone::<i64>(),
{
    assert forall|a: i64, b: i64, k: i64| !b.less(a) && !k.negative() implies !(
    #[trigger] b.product(k)).less(#[trigger] a.product(k)) by {
        lemma_product_grows(a as int, b as int, k as int);
    }
    assert forall|a: i64, b: i64, k: i64| !b.less(a) && k.negative() implies !(
    #[trigger] a.product(k)).less(#[trigger] b.product(k)) by {
        lemma_product_grows(a as int, b as int, k as int);
    }
}

} // verus!
