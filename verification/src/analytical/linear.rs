use vstd::prelude::*;

use crate::analytical::roots::Roots;
use crate::analytical::roots::is_root_set;
use crate::float::FloatType;

verus! {

/// The roots that [`find_roots_linear`] returns.
pub open spec fn spec_find_roots_linear<F: FloatType>(a1: F, a0: F) -> Seq<F> {
    if a1.spec_eq(F::spec_zero()) {
        Seq::<F>::empty()
    } else {
        seq![a0.spec_neg().spec_div(a1)]
    }
}

/// Solves the linear equation `a1*x + a0 = 0`. A vanishing leading
/// coefficient is degenerate and yields an empty root set.
pub fn find_roots_linear<F: FloatType>(a1: F, a0: F) -> (r: Roots<F>)
    ensures
        is_root_set(r, spec_find_roots_linear(a1, a0)),
{
    if a1.eq_value(F::zero()) {
        Roots::zero()
    } else {
        Roots::one(a0.neg().div(a1))
    }
}

} // verus!
