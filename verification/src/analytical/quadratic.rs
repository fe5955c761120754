use vstd::prelude::*;

use crate::analytical::linear::spec_find_roots_linear;
use crate::analytical::linear::find_roots_linear;
use crate::analytical::roots::Roots;
use crate::analytical::roots::is_root_set;
use crate::float::FloatType;

verus! {

/// The roots that [`find_roots_quadratic`] returns, in ascending order.
pub open spec fn spec_find_roots_quadratic<F: FloatType>(a2: F, a1: F, a0: F) -> Seq<F> {
    if a2.spec_eq(F::spec_zero()) {
        spec_find_roots_linear(a1, a0)
    } else {
        let discriminant = a1.spec_mul(a1).spec_sub(F::spec_four().spec_mul(a2).spec_mul(a0));
        if discriminant.spec_lt(F::spec_zero()) {
            Seq::<F>::empty()
        } else {
            let denominator = F::spec_two().spec_mul(a2);
            if discriminant.spec_eq(F::spec_zero()) {
                seq![a1.spec_neg().spec_div(denominator)]
            } else {
                let sq = discriminant.spec_sqrt();
                let x1 = a1.spec_neg().spec_sub(sq).spec_div(denominator);
                let x2 = a1.spec_neg().spec_add(sq).spec_div(denominator);
                if x1.spec_lt(x2) {
                    seq![x1, x2]
                } else {
                    seq![x2, x1]
                }
            }
        }
    }
}

/// Solves the quadratic equation `a2*x^2 + a1*x + a0 = 0`. A vanishing
/// leading coefficient degenerates to the linear solver; a negative
/// discriminant yields an empty root set.
pub fn find_roots_quadratic<F: FloatType>(a2: F, a1: F, a0: F) -> (r: Roots<F>)
    ensures
        is_root_set(r, spec_find_roots_quadratic(a2, a1, a0)),
{
    if a2.eq_value(F::zero()) {
        find_roots_linear(a1, a0)
    } else {
        let discriminant = a1.mul(a1).sub(F::four().mul(a2).mul(a0));
        if discriminant.lt(F::zero()) {
            Roots::zero()
        } else {
            let denominator = F::two().mul(a2);
            if discriminant.eq_value(F::zero()) {
                Roots::one(a1.neg().div(denominator))
            } else {
                let sq = discriminant.sqrt();
                let x1 = a1.neg().sub(sq).div(denominator);
                let x2 = a1.neg().add(sq).div(denominator);
                if x1.lt(x2) {
                    Roots::two(x1, x2)
                } else {
                    Roots::two(x2, x1)
                }
            }
        }
    }
}

} // verus!
