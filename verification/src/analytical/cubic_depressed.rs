use vstd::prelude::*;

use crate::analytical::roots::Roots;
use crate::analytical::roots::is_root_set;
use crate::float::FloatType;
use crate::float::spec_twenty_seven;

verus! {

/// The roots that [`find_roots_cubic_depressed`] returns.
pub open spec fn spec_find_roots_cubic_depressed<F: FloatType>(p: F, q: F) -> Seq<F> {
    if p.spec_eq(F::spec_zero()) {
        seq![q.spec_neg().spec_cbrt()]
    } else {
        let d = q.spec_mul(q).spec_div(F::spec_four()).spec_add(
            p.spec_mul(p).spec_mul(p).spec_div(spec_twenty_seven::<F>()),
        );
        if d.spec_lt(F::spec_zero()) {
            let amplitude = F::spec_two().spec_mul(p.spec_neg().spec_div(F::spec_three()).spec_sqrt());
            let phase = F::spec_three().spec_mul(q).spec_div(F::spec_two().spec_mul(p)).spec_mul(
                F::spec_three().spec_neg().spec_div(p).spec_sqrt(),
            ).spec_acos().spec_mul(F::spec_one_third());
            seq![
                amplitude.spec_mul(phase.spec_cos()),
                amplitude.spec_mul(phase.spec_sub(F::spec_two_third_pi()).spec_cos()),
                amplitude.spec_mul(phase.spec_add(F::spec_two_third_pi()).spec_cos()),
            ]
        } else if d.spec_eq(F::spec_zero()) {
            let single = F::spec_three().spec_mul(q).spec_div(p);
            let double = single.spec_neg().spec_div(F::spec_two());
            if single.spec_lt(double) {
                seq![single, double]
            } else if double.spec_lt(single) {
                seq![double, single]
            } else {
                seq![single]
            }
        } else {
            let sd = d.spec_sqrt();
            let minus_half_q = q.spec_neg().spec_div(F::spec_two());
            seq![
                minus_half_q.spec_add(sd).spec_cbrt().spec_add(
                    minus_half_q.spec_sub(sd).spec_cbrt(),
                ),
            ]
        }
    }
}

/// Solves the depressed cubic equation `t^3 + p*t + q = 0` by Cardano's
/// method: a single cubic root when `p` vanishes, three cosine-spaced roots
/// when the discriminant is negative, a simple and a double root when it
/// vanishes, and one real root otherwise.
pub fn find_roots_cubic_depressed<F: FloatType>(p: F, q: F) -> (r: Roots<F>)
    ensures
        is_root_set(r, spec_find_roots_cubic_depressed(p, q)),
{
    if p.eq_value(F::zero()) {
        Roots::one(q.neg().cbrt())
    } else {
        let d = q.mul(q).div(F::four()).add(p.mul(p).mul(p).div(F::twenty_seven()));
        if d.lt(F::zero()) {
            let amplitude = F::two().mul(p.neg().div(F::three()).sqrt());
            let phase = F::three().mul(q).div(F::two().mul(p)).mul(
                F::three().neg().div(p).sqrt(),
            ).acos().mul(F::one_third());
            Roots::three(
                amplitude.mul(phase.cos()),
                amplitude.mul(phase.sub(F::two_third_pi()).cos()),
                amplitude.mul(phase.add(F::two_third_pi()).cos()),
            )
        } else if d.eq_value(F::zero()) {
            let single = F::three().mul(q).div(p);
            let double = single.neg().div(F::two());
            if single.lt(double) {
                Roots::two(single, double)
            } else if double.lt(single) {
                Roots::two(double, single)
            } else {
                Roots::one(single)
            }
        } else {
            let sd = d.sqrt();
            let minus_half_q = q.neg().div(F::two());
            Roots::one(minus_half_q.add(sd).cbrt().add(minus_half_q.sub(sd).cbrt()))
        }
    }
}

} // verus!
