use vstd::prelude::*;

use crate::analytical::cubic_depressed::spec_find_roots_cubic_depressed;
use crate::analytical::cubic_depressed::find_roots_cubic_depressed;
use crate::analytical::roots::Roots;
use crate::analytical::roots::is_root_set;
use crate::analytical::roots::roots_from_vec;
use crate::float::FloatType;
use crate::float::spec_twenty_seven;

verus! {

/// The roots that [`find_roots_cubic_normalized`] returns.
pub open spec fn spec_find_roots_cubic_normalized<F: FloatType>(a2: F, a1: F, a0: F) -> Seq<F> {
    let p = a1.spec_sub(a2.spec_mul(a2).spec_div(F::spec_three()));
    let q = F::spec_two().spec_mul(a2.spec_mul(a2).spec_mul(a2)).spec_div(
        spec_twenty_seven::<F>(),
    ).spec_sub(a2.spec_mul(a1).spec_div(F::spec_three())).spec_add(a0);
    let shift = a2.spec_div(F::spec_three());
    spec_find_roots_cubic_depressed(p, q).map_values(|t: F| t.spec_sub(shift))
}

/// Solves the normalized cubic equation `x^3 + a2*x^2 + a1*x + a0 = 0` by
/// substituting `x = t - a2/3` and solving the resulting depressed cubic.
pub fn find_roots_cubic_normalized<F: FloatType>(a2: F, a1: F, a0: F) -> (r: Roots<F>)
    ensures
        is_root_set(r, spec_find_roots_cubic_normalized(a2, a1, a0)),
{
    let p = a1.sub(a2.mul(a2).div(F::three()));
    let q = F::two().mul(a2.mul(a2).mul(a2)).div(F::twenty_seven()).sub(
        a2.mul(a1).div(F::three()),
    ).add(a0);
    let shift = a2.div(F::three());
    let rd = find_roots_cubic_depressed(p, q);
    let mut xs: Vec<F> = Vec::new();
    if rd.num_roots >= 1 {
        xs.push(rd.roots[0].sub(shift));
    }
    if rd.num_roots >= 2 {
        xs.push(rd.roots[1].sub(shift));
    }
    if rd.num_roots >= 3 {
        xs.push(rd.roots[2].sub(shift));
    }
    proof {
        assert(xs@ =~= spec_find_roots_cubic_normalized(a2, a1, a0));
    }
    roots_from_vec(&xs)
}

} // verus!
