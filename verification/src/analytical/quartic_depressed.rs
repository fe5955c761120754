use vstd::prelude::*;

use crate::analytical::biquadratic::spec_find_roots_biquadratic;
use crate::analytical::biquadratic::find_roots_biquadratic;
use crate::analytical::cubic::spec_find_roots_cubic;
use crate::analytical::cubic::find_roots_cubic;
use crate::analytical::quadratic::spec_find_roots_quadratic;
use crate::analytical::quadratic::find_roots_quadratic;
use crate::analytical::roots::Roots;
use crate::analytical::roots::is_root_set;
use crate::analytical::roots::roots_from_vec;
use crate::float::FloatType;

verus! {

/// The first strictly positive entry among the up-to-three values of `s`.
pub open spec fn spec_first_positive<F: FloatType>(s: Seq<F>) -> Option<F> {
    if s.len() >= 1 && F::spec_zero().spec_lt(s[0]) {
        Some(s[0])
    } else if s.len() >= 2 && F::spec_zero().spec_lt(s[1]) {
        Some(s[1])
    } else if s.len() >= 3 && F::spec_zero().spec_lt(s[2]) {
        Some(s[2])
    } else {
        None
    }
}

/// The roots that [`find_roots_quartic_depressed`] returns.
pub open spec fn spec_find_roots_quartic_depressed<F: FloatType>(p: F, q: F, r: F) -> Seq<F> {
    if q.spec_eq(F::spec_zero()) {
        spec_find_roots_biquadratic(F::spec_one(), p, r)
    } else {
        let eight = F::spec_four().spec_mul(F::spec_two());
        let resolvent = spec_find_roots_cubic(
            eight,
            eight.spec_mul(p),
            F::spec_two().spec_mul(p).spec_mul(p).spec_sub(eight.spec_mul(r)),
            q.spec_neg().spec_mul(q),
        );
        match spec_first_positive(resolvent) {
            None => Seq::<F>::empty(),
            Some(m) => {
                let s = F::spec_two().spec_mul(m).spec_sqrt();
                let base = p.spec_div(F::spec_two()).spec_add(m);
                let offset = q.spec_div(F::spec_two().spec_mul(s));
                spec_find_roots_quadratic(F::spec_one(), s.spec_neg(), base.spec_add(offset))
                    + spec_find_roots_quadratic(F::spec_one(), s, base.spec_sub(offset))
            },
        }
    }
}

/// Solves the depressed quartic equation `y^4 + p*y^2 + q*y + r = 0`. When
/// `q` vanishes the equation is biquadratic; otherwise Ferrari's method
/// rewrites it, through a positive root `m` of the resolvent cubic
/// `8*m^3 + 8*p*m^2 + (2*p^2 - 8*r)*m - q^2 = 0`, as a pair of quadratic
/// equations whose roots are collected.
pub fn find_roots_quartic_depressed<F: FloatType>(p: F, q: F, r: F) -> (roots: Roots<F>)
    ensures
        is_root_set(roots, spec_find_roots_quartic_depressed(p, q, r)),
{
    if q.eq_value(F::zero()) {
        find_roots_biquadratic(F::one(), p, r)
    } else {
        let eight = F::four().mul(F::two());
        let resolvent = find_roots_cubic(
            eight,
            eight.mul(p),
            F::two().mul(p).mul(p).sub(eight.mul(r)),
            q.neg().mul(q),
        );
        let mut m: Option<F> = None;
        if resolvent.num_roots >= 1 && F::zero().lt(resolvent.roots[0]) {
            m = Some(resolvent.roots[0]);
        } else if resolvent.num_roots >= 2 && F::zero().lt(resolvent.roots[1]) {
            m = Some(resolvent.roots[1]);
        } else if resolvent.num_roots >= 3 && F::zero().lt(resolvent.roots[2]) {
            m = Some(resolvent.roots[2]);
        }
        match m {
            None => Roots::zero(),
            Some(m) => {
                let s = F::two().mul(m).sqrt();
                let base = p.div(F::two()).add(m);
                let offset = q.div(F::two().mul(s));
                let r1 = find_roots_quadratic(F::one(), s.neg(), base.add(offset));
                let r2 = find_roots_quadratic(F::one(), s, base.sub(offset));
                let mut xs: Vec<F> = Vec::new();
                if r1.num_roots >= 1 {
                    xs.push(r1.roots[0]);
                }
                if r1.num_roots >= 2 {
                    xs.push(r1.roots[1]);
                }
                if r2.num_roots >= 1 {
                    xs.push(r2.roots[0]);
                }
                if r2.num_roots >= 2 {
                    xs.push(r2.roots[1]);
                }
                proof {
                    assert(xs@ =~= spec_find_roots_quartic_depressed(p, q, r));
                }
                roots_from_vec(&xs)
            },
        }
    }
}

} // verus!
