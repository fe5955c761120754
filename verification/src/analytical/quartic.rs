use vstd::prelude::*;

use crate::analytical::biquadratic::spec_find_roots_biquadratic;
use crate::analytical::biquadratic::find_roots_biquadratic;
use crate::analytical::cubic::spec_find_roots_cubic;
use crate::analytical::cubic::find_roots_cubic;
use crate::analytical::quartic_depressed::spec_find_roots_quartic_depressed;
use crate::analytical::quartic_depressed::find_roots_quartic_depressed;
use crate::analytical::roots::Roots;
use crate::analytical::roots::is_root_set;
use crate::analytical::roots::roots_from_vec;
use crate::float::FloatType;

verus! {

/// The roots that [`find_roots_quartic`] returns.
pub open spec fn spec_find_roots_quartic<F: FloatType>(a4: F, a3: F, a2: F, a1: F, a0: F) -> Seq<
    F,
> {
    if a4.spec_eq(F::spec_zero()) {
        spec_find_roots_cubic(a3, a2, a1, a0)
    } else if a3.spec_eq(F::spec_zero()) && a1.spec_eq(F::spec_zero()) {
        spec_find_roots_biquadratic(a4, a2, a0)
    } else {
        let eight = F::spec_four().spec_mul(F::spec_two());
        let sixteen = F::spec_four().spec_mul(F::spec_four());
        let two_five_six = sixteen.spec_mul(sixteen);
        let b = a3.spec_div(a4);
        let c = a2.spec_div(a4);
        let d = a1.spec_div(a4);
        let e = a0.spec_div(a4);
        let p = c.spec_sub(F::spec_three().spec_mul(b).spec_mul(b).spec_div(eight));
        let q = d.spec_sub(b.spec_mul(c).spec_div(F::spec_two())).spec_add(
            b.spec_mul(b).spec_mul(b).spec_div(eight),
        );
        let r = e.spec_sub(b.spec_mul(d).spec_div(F::spec_four())).spec_add(
            b.spec_mul(b).spec_mul(c).spec_div(sixteen),
        ).spec_sub(
            F::spec_three().spec_mul(b.spec_mul(b).spec_mul(b).spec_mul(b)).spec_div(two_five_six),
        );
        let shift = b.spec_div(F::spec_four());
        spec_find_roots_quartic_depressed(p, q, r).map_values(|y: F| y.spec_sub(shift))
    }
}

/// Solves the quartic equation `a4*x^4 + a3*x^3 + a2*x^2 + a1*x + a0 = 0`. A
/// vanishing leading coefficient degenerates to the cubic solver, an equation
/// with no odd-degree terms to the biquadratic solver; otherwise the equation
/// is normalized, depressed by the substitution `x = y - a3/(4*a4)`, solved,
/// and the roots are shifted back.
pub fn find_roots_quartic<F: FloatType>(a4: F, a3: F, a2: F, a1: F, a0: F) -> (roots: Roots<F>)
    ensures
        is_root_set(roots, spec_find_roots_quartic(a4, a3, a2, a1, a0)),
{
    if a4.eq_value(F::zero()) {
        find_roots_cubic(a3, a2, a1, a0)
    } else if a3.eq_value(F::zero()) && a1.eq_value(F::zero()) {
        find_roots_biquadratic(a4, a2, a0)
    } else {
        let eight = F::four().mul(F::two());
        let sixteen = F::four().mul(F::four());
        let two_five_six = sixteen.mul(sixteen);
        let b = a3.div(a4);
        let c = a2.div(a4);
        let d = a1.div(a4);
        let e = a0.div(a4);
        let p = c.sub(F::three().mul(b).mul(b).div(eight));
        let q = d.sub(b.mul(c).div(F::two())).add(b.mul(b).mul(b).div(eight));
        let r = e.sub(b.mul(d).div(F::four())).add(b.mul(b).mul(c).div(sixteen)).sub(
            F::three().mul(b.mul(b).mul(b).mul(b)).div(two_five_six),
        );
        let shift = b.div(F::four());
        let rd = find_roots_quartic_depressed(p, q, r);
        let mut xs: Vec<F> = Vec::new();
        if rd.num_roots >= 1 {
            xs.push(rd.roots[0].sub(shift));
        }
        if rd.num_roots >= 2 {
            xs.push(rd.roots[1].sub(shift));
        }
        if rd.num_roots >= 3 {
            xs.push(rd.roots[2].sub(shift));
        }
        if rd.num_roots >= 4 {
            xs.push(rd.roots[3].sub(shift));
        }
        proof {
            assert(xs@ =~= spec_find_roots_quartic(a4, a3, a2, a1, a0));
        }
        roots_from_vec(&xs)
    }
}

} // verus!
