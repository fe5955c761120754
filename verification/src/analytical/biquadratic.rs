use vstd::prelude::*;

use crate::analytical::quadratic::spec_find_roots_quadratic;
use crate::analytical::quadratic::find_roots_quadratic;
use crate::analytical::roots::Roots;
use crate::analytical::roots::is_root_set;
use crate::analytical::roots::roots_from_vec;
use crate::float::FloatType;

verus! {

/// The real solutions `x` of `x^2 = z` for one value `z`, ascending.
pub open spec fn spec_even_roots<F: FloatType>(z: F) -> Seq<F> {
    if F::spec_zero().spec_lt(z) {
        seq![z.spec_sqrt().spec_neg(), z.spec_sqrt()]
    } else if z.spec_eq(F::spec_zero()) {
        seq![F::spec_zero()]
    } else {
        Seq::<F>::empty()
    }
}

/// The roots that [`find_roots_biquadratic`] returns.
pub open spec fn spec_find_roots_biquadratic<F: FloatType>(a4: F, a2: F, a0: F) -> Seq<F> {
    if a4.spec_eq(F::spec_zero()) {
        spec_find_roots_quadratic(a2, F::spec_zero(), a0)
    } else {
        let zs = spec_find_roots_quadratic(a4, a2, a0);
        if zs.len() == 0 {
            Seq::<F>::empty()
        } else if zs.len() == 1 {
            spec_even_roots(zs[0])
        } else {
            spec_even_roots(zs[0]) + spec_even_roots(zs[1])
        }
    }
}

/// Appends to `xs` the real solutions of `x^2 = z`, ascending.
fn push_even_roots<F: FloatType>(xs: &mut Vec<F>, z: F)
    ensures
        final(xs)@ == old(xs)@ + spec_even_roots(z),
{
    if F::zero().lt(z) {
        let s = z.sqrt();
        xs.push(s.neg());
        xs.push(s);
        proof {
            assert(xs@ =~= old(xs)@ + spec_even_roots(z));
        }
    } else if z.eq_value(F::zero()) {
        xs.push(F::zero());
        proof {
            assert(xs@ =~= old(xs)@ + spec_even_roots(z));
        }
    } else {
        proof {
            assert(xs@ =~= old(xs)@ + spec_even_roots(z));
        }
    }
}

/// Solves the biquadratic equation `a4*x^4 + a2*x^2 + a0 = 0` by solving the
/// quadratic in `x^2` and taking the square roots of its non-negative
/// solutions. A vanishing leading coefficient degenerates to the quadratic
/// `a2*x^2 + a0 = 0`.
pub fn find_roots_biquadratic<F: FloatType>(a4: F, a2: F, a0: F) -> (r: Roots<F>)
    ensures
        is_root_set(r, spec_find_roots_biquadratic(a4, a2, a0)),
{
    if a4.eq_value(F::zero()) {
        find_roots_quadratic(a2, F::zero(), a0)
    } else {
        let rz = find_roots_quadratic(a4, a2, a0);
        let mut xs: Vec<F> = Vec::new();
        if rz.num_roots >= 1 {
            push_even_roots(&mut xs, rz.roots[0]);
        }
        if rz.num_roots >= 2 {
            push_even_roots(&mut xs, rz.roots[1]);
        }
        proof {
            assert(xs@ =~= spec_find_roots_biquadratic(a4, a2, a0));
        }
        roots_from_vec(&xs)
    }
}

} // verus!
