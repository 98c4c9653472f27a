use vstd::prelude::*;

use crate::bounds::{narrowed, numbers, slab, within, BoundingBox};
use crate::scalar::{monotone, weak_order, Arithmetic};
use crate::vector::Vector;

verus! {

/// The first interval lies in the second: it starts no earlier and ends no
/// later.
pub open spec fn tighter<T: Arithmetic>(inner: (T, T), outer: (T, T)) -> bool {
    !inner.0.less(outer.0) && !outer.1.less(inner.1)
}

impl<T: Arithmetic> BoundingBox<T> {
    /// On every axis the ray meets the two planes of the box at parameters
    /// that are numbers.
    pub open spec fn lit(self, source: Vector<T>, towards: Vector<T>) -> bool {
        &&& numbers(slab(self.x.0, self.x.1, source.x, towards.x))
        &&& numbers(slab(self.y.0, self.y.1, source.y, towards.y))
        &&& numbers(slab(self.z.0, self.z.1, source.z, towards.z))
    }
}

/// Between planes that lie further apart a ray stays longer.
pub proof fn lemma_slab_widens<T: Arithmetic>(inner: (T, T), outer: (T, T), from: T, along: T)
    requires
        monotone::<T>(),
        within(inner, outer),
    ensures
        tighter(slab(inner.0, inner.1, from, along), slab(outer.0, outer.1, from, along)),
{
    let inverse = T::of_count(1).quotient(along);
    let lo = inner.0.difference(from);
    let hi = inner.1.difference(from);
    let wide_lo = outer.0.difference(from);
    let wide_hi = outer.1.difference(from);
    assert(!lo.less(wide_lo));
    assert(!wide_hi.less(hi));
    if inverse.negative() {
        assert(!wide_lo.product(inverse).less(lo.product(inverse)));
        assert(!hi.product(inverse).less(wide_hi.product(inverse)));
    } else {
        assert(!lo.product(inverse).less(wide_lo.product(inverse)));
        assert(!wide_hi.product(inverse).less(hi.product(inverse)));
    }
}

/// Narrowing a wider range of numbers by a wider slab leaves a wider range
/// of numbers.
pub proof fn lemma_narrowed_widens<T: Arithmetic>(
    range: (T, T),
    wide_range: (T, T),
    part: (T, T),
    wide_part: (T, T),
)
    requires
        weak_order::<T>(),
        monotone::<T>(),
        numbers(range),
        numbers(wide_range),
        numbers(part),
        tighter(range, wide_range),
        tighter(part, wide_part),
    ensures
        numbers(narrowed(range, part)),
        numbers(narrowed(wide_range, wide_part)),
        tighter(narrowed(range, part), narrowed(wide_range, wide_part)),
{
    let (m, top) = range;
    let (wm, wtop) = wide_range;
    let (s, l) = part;
    let (ws, wl) = wide_part;
    let got = narrowed(range, part);
    let wide = narrowed(wide_range, wide_part);
    // the lower ends
    if wm.less(ws) {
        if m.less(s) {
        } else {
            // wide.0 == ws, got.0 == m: m is not below s, which is not below ws
            assert(!got.0.less(wide.0));
        }
    } else {
        if m.less(s) {
            // wide.0 == wm, got.0 == s: wm is not above m, which is below s
            if s.less(wm) {
                assert(m.less(wm));
            }
        }
    }
    // the upper ends
    if wl.less(wtop) {
        if l.less(top) {
        } else {
            // wide.1 == wl, got.1 == top: l is not below top, and wl not below l
            assert(!wide.1.less(got.1));
        }
    } else {
        if l.less(top) {
            // wide.1 == wtop, got.1 == l: l is below top, which is not above wtop
            if wtop.less(l) {
                assert(wtop.less(top));
            }
        }
    }
}

/// A ray that goes through a box goes through every box that the box lies
/// within, where it meets the planes of the inner box at numbers.
pub proof fn lemma_inside_widens<T: Arithmetic>(
    inner: BoundingBox<T>,
    outer: BoundingBox<T>,
    source: Vector<T>,
    towards: Vector<T>,
)
    requires
        weak_order::<T>(),
        monotone::<T>(),
        inner.inside(outer),
        inner.lit(source, towards),
        inner.crossed(source, towards),
    ensures
        outer.crossed(source, towards),
{
    let whole = (T::unbounded().negation(), T::unbounded());
    let ix = slab(inner.x.0, inner.x.1, source.x, towards.x);
    let iy = slab(inner.y.0, inner.y.1, source.y, towards.y);
    let iz = slab(inner.z.0, inner.z.1, source.z, towards.z);
    let ox = slab(outer.x.0, outer.x.1, source.x, towards.x);
    let oy = slab(outer.y.0, outer.y.1, source.y, towards.y);
    let oz = slab(outer.z.0, outer.z.1, source.z, towards.z);
    lemma_slab_widens(inner.x, outer.x, source.x, towards.x);
    lemma_slab_widens(inner.y, outer.y, source.y, towards.y);
    lemma_slab_widens(inner.z, outer.z, source.z, towards.z);
    assert(!whole.0.less(whole.0) && !whole.1.less(whole.1));
    lemma_narrowed_widens(whole, whole, ix, ox);
    lemma_narrowed_widens(narrowed(whole, ix), narrowed(whole, ox), iy, oy);
    lemma_narrowed_widens(
        narrowed(narrowed(whole, ix), iy),
        narrowed(narrowed(whole, ox), oy),
        iz,
        oz,
    );
    let got = inner.span(source, towards);
    let wide = outer.span(source, towards);
    assert(tighter(got, wide));
    assert(got.0.less(got.1));
    if !wide.0.less(wide.1) {
        assert(!got.0.less(wide.1));
        assert(!got.0.less(got.1));
    }
}

} // verus!
