use vstd::prelude::*;

use crate::analytical::cubic_normalized::spec_find_roots_cubic_normalized;
use crate::analytical::cubic_normalized::find_roots_cubic_normalized;
use crate::analytical::quadratic::spec_find_roots_quadratic;
use crate::analytical::quadratic::find_roots_quadratic;
use crate::analytical::roots::Roots;
use crate::analytical::roots::is_root_set;
use crate::float::FloatType;

verus! {

/// The roots that [`find_roots_cubic`] returns.
pub open spec fn spec_find_roots_cubic<F: FloatType>(a3: F, a2: F, a1: F, a0: F) -> Seq<F> {
    if a3.spec_eq(F::spec_zero()) {
        spec_find_roots_quadratic(a2, a1, a0)
    } else {
        spec_find_roots_cubic_normalized(a2.spec_div(a3), a1.spec_div(a3), a0.spec_div(a3))
    }
}

/// Solves the cubic equation `a3*x^3 + a2*x^2 + a1*x + a0 = 0`. A vanishing
/// leading coefficient degenerates to the quadratic solver; otherwise the
/// equation is normalized and handed to the normalized solver.
pub fn find_roots_cubic<F: FloatType>(a3: F, a2: F, a1: F, a0: F) -> (r: Roots<F>)
    ensures
        is_root_set(r, spec_find_roots_cubic(a3, a2, a1, a0)),
{
    if a3.eq_value(F::zero()) {
        find_roots_quadratic(a2, a1, a0)
    } else {
        find_roots_cubic_normalized(a2.div(a3), a1.div(a3), a0.div(a3))
    }
}

} // verus!
