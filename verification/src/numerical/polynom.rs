use vstd::prelude::*;

use crate::analytical::cubic::spec_find_roots_cubic;
use crate::analytical::cubic::find_roots_cubic;
use crate::analytical::linear::spec_find_roots_linear;
use crate::analytical::linear::find_roots_linear;
use crate::analytical::quadratic::spec_find_roots_quadratic;
use crate::analytical::quadratic::find_roots_quadratic;
use crate::analytical::quartic::spec_find_roots_quartic;
use crate::analytical::quartic::find_roots_quartic;
use crate::analytical::roots::Roots;
use crate::analytical::roots::is_root_set;
use crate::float::FloatType;
use crate::numerical::Convergency;
use crate::numerical::Interval;
use crate::numerical::Sample;
use crate::numerical::SearchError;
use crate::numerical::decisions_eq;
use crate::numerical::lemma_decisions_eq_trans;

verus! {

/// A sample of the polynomial together with its derivative at the same point;
/// produced transiently by each search iteration.
#[derive(Clone, Copy, Debug, PartialEq)]
pub struct ValueAndDerivative<F: FloatType> {
    pub value: Sample<F>,
    pub derivative: F,
}

/// The accumulator of the single-pass Horner evaluation of the normalized
/// polynomial `p`, walking the coefficients from the constant term upward:
/// the running sum and the running power of `x`.
pub open spec fn horner_state<F: FloatType>(p: Seq<F>, x: F) -> (F, F)
    decreases p.len(),
{
    if p.len() == 0 {
        (F::spec_zero(), F::spec_one())
    } else {
        let rest = horner_state(p.skip(1), x);
        (rest.0.spec_add(p[0].spec_mul(rest.1)), rest.1.spec_mul(x))
    }
}

/// The value of the normalized polynomial
/// `x^n + p[0]*x^(n-1) + ... + p[n-1]` at `x`, as [`value`] computes it.
pub open spec fn spec_value<F: FloatType>(p: Seq<F>, x: F) -> F {
    horner_state(p, x).0.spec_add(horner_state(p, x).1)
}

/// The accumulator of the combined value-and-derivative pass: the running
/// value sum, the running derivative sum, the running power `x^k`, its
/// one-step-lagged power, and the running term count.
pub open spec fn horner_both_state<F: FloatType>(p: Seq<F>, x: F) -> (F, F, F, F, F)
    decreases p.len(),
{
    if p.len() == 0 {
        (F::spec_zero(), F::spec_zero(), F::spec_one(), F::spec_zero(), F::spec_zero())
    } else {
        let rest = horner_both_state(p.skip(1), x);
        (
            rest.0.spec_add(p[0].spec_mul(rest.2)),
            rest.1.spec_add(p[0].spec_mul(rest.4).spec_mul(rest.3)),
            rest.2.spec_mul(x),
            rest.2,
            rest.4.spec_add(F::spec_one()),
        )
    }
}

/// The sample and derivative of the normalized polynomial `p` at `x`, as
/// [`value_and_derivative`] computes them.
pub open spec fn spec_value_and_derivative<F: FloatType>(p: Seq<F>, x: F) -> ValueAndDerivative<
    F,
> {
    let s = horner_both_state(p, x);
    ValueAndDerivative {
        value: (Sample { x: x, y: s.0.spec_add(s.2) }),
        derivative: s.1.spec_add(s.4.spec_mul(s.3)),
    }
}

/// The combined pass accumulates the same value sum and the same power of `x`
/// as the single pass.
proof fn lemma_both_passes_agree<F: FloatType>(p: Seq<F>, x: F)
    ensures
        horner_both_state(p, x).0 == horner_state(p, x).0,
        horner_both_state(p, x).2 == horner_state(p, x).1,
    decreases p.len(),
{
    if p.len() > 0 {
        lemma_both_passes_agree(p.skip(1), x);
    }
}

/// Law: for every coefficient sequence and every point, the combined
/// evaluation returns in its value component exactly what the plain
/// evaluation returns.
pub proof fn lemma_value_and_derivative_matches_value<F: FloatType>(p: Seq<F>, x: F)
    ensures
        spec_value_and_derivative(p, x).value.y == spec_value(p, x),
        spec_value_and_derivative(p, x).value.x == x,
{
    lemma_both_passes_agree(p, x);
}

/// Evaluates the normalized polynomial
/// `x^n + p[0]*x^(n-1) + ... + p[n-1]` at `x` by Horner's method; an empty
/// coefficient sequence evaluates to the constant one.
pub fn value<F: FloatType>(p: &[F], x: &F) -> (r: F)
    ensures
        r == spec_value(p@, *x),
        p@.len() == 0 ==> r == F::spec_one(),
{
    let mut result = F::zero();
    let mut xn = F::one();
    let n: usize = p.len();
    let mut i: usize = n;
    proof {
        assert(p@.skip(n as int) =~= Seq::<F>::empty());
    }
    while i > 0
        invariant
            i <= n,
            n == p@.len(),
            result == horner_state(p@.skip(i as int), *x).0,
            xn == horner_state(p@.skip(i as int), *x).1,
        decreases i,
    {
        i = i - 1;
        proof {
            assert(p@.skip(i as int).skip(1) =~= p@.skip(i as int + 1));
        }
        result = result.add(p[i].mul(xn));
        xn = xn.mul(*x);
    }
    proof {
        assert(p@.skip(0) =~= p@);
        F::zero_add_one();
    }
    result.add(xn)
}

/// Evaluates the normalized polynomial and its derivative at `x` in one pass,
/// accumulating the lagged power of `x` alongside the value sum.
pub fn value_and_derivative<F: FloatType>(p: &[F], x: &F) -> (r: ValueAndDerivative<F>)
    ensures
        r == spec_value_and_derivative(p@, *x),
        r.value.x == *x,
        r.value.y == spec_value(p@, *x),
        p@.len() == 0 ==> r.value.y == F::spec_one(),
{
    let mut xn = F::one();
    let mut val = F::zero();
    let mut xn1 = F::zero();
    let mut derivative = F::zero();
    let mut n = F::zero();
    let count: usize = p.len();
    let mut i: usize = count;
    proof {
        assert(p@.skip(count as int) =~= Seq::<F>::empty());
    }
    while i > 0
        invariant
            i <= count,
            count == p@.len(),
            val == horner_both_state(p@.skip(i as int), *x).0,
            derivative == horner_both_state(p@.skip(i as int), *x).1,
            xn == horner_both_state(p@.skip(i as int), *x).2,
            xn1 == horner_both_state(p@.skip(i as int), *x).3,
            n == horner_both_state(p@.skip(i as int), *x).4,
        decreases i,
    {
        i = i - 1;
        proof {
            assert(p@.skip(i as int).skip(1) =~= p@.skip(i as int + 1));
        }
        val = val.add(p[i].mul(xn));
        derivative = derivative.add(p[i].mul(n).mul(xn1));
        xn1 = xn;
        xn = xn.mul(*x);
        n = n.add(F::one());
    }
    proof {
        assert(p@.skip(0) =~= p@);
        lemma_value_and_derivative_matches_value(p@, *x);
        F::zero_add_one();
    }
    ValueAndDerivative { value: Sample { x: *x, y: val.add(xn) }, derivative: derivative.add(n.mul(xn1)) }
}

/// The term count of a polynomial expressed in the numeric type itself, one
/// increment per coefficient.
pub open spec fn spec_count_value<F: FloatType>(n: nat) -> F
    decreases n,
{
    if n == 0 {
        F::spec_zero()
    } else {
        spec_count_value::<F>((n - 1) as nat).spec_add(F::spec_one())
    }
}

/// The degree of term `i` of a polynomial of `n` coefficients, expressed in
/// the numeric type: the term count less one, lowered one step per index.
pub open spec fn spec_degree_factor<F: FloatType>(n: nat, i: nat) -> F
    decreases i,
{
    if i == 0 {
        spec_count_value::<F>(n).spec_sub(F::spec_one())
    } else {
        spec_degree_factor::<F>(n, (i - 1) as nat).spec_sub(F::spec_one())
    }
}

/// The coefficients that [`derivative_polynom`] returns.
pub open spec fn spec_derivative_polynom<F: FloatType>(p: Seq<F>) -> Seq<F> {
    if p.len() == 0 {
        Seq::<F>::empty()
    } else {
        Seq::new(
            (p.len() - 1) as nat,
            |i: int|
                p[i].spec_mul(spec_degree_factor::<F>(p.len(), i as nat)).spec_div(
                    spec_count_value::<F>(p.len()),
                ),
        )
    }
}

/// Differentiates the normalized polynomial
/// `x^n + p[0]*x^(n-1) + ... + p[n-1]` and normalizes the result again: the
/// returned coefficients `b` describe `x^(n-1) + b[0]*x^(n-2) + ... + b[n-2]`
/// with `b[i] = p[i]*(n-1-i)/n`, the counts formed by the numeric type's own
/// arithmetic.
pub fn derivative_polynom<F: FloatType>(p: &[F]) -> (r: Vec<F>)
    ensures
        r@ == spec_derivative_polynom(p@),
{
    let n: usize = p.len();
    let mut nf = F::zero();
    let mut j: usize = 0;
    while j < n
        invariant
            j <= n,
            nf == spec_count_value::<F>(j as nat),
        decreases n - j,
    {
        nf = nf.add(F::one());
        j = j + 1;
    }
    let mut result: Vec<F> = Vec::new();
    if n == 0 {
        proof {
            assert(result@ =~= spec_derivative_polynom(p@));
        }
        return result;
    }
    let mut k = nf.sub(F::one());
    let mut i: usize = 0;
    while i < n - 1
        invariant
            n == p@.len(),
            1 <= n,
            i <= n - 1,
            nf == spec_count_value::<F>(n as nat),
            k == spec_degree_factor::<F>(n as nat, i as nat),
            result@ == spec_derivative_polynom(p@).take(i as int),
        decreases n - i,
    {
        result.push(p[i].mul(k).div(nf));
        k = k.sub(F::one());
        i = i + 1;
        proof {
            assert(result@ =~= spec_derivative_polynom(p@).take(i as int));
        }
    }
    proof {
        assert(spec_derivative_polynom(p@).take(n - 1) =~= spec_derivative_polynom(p@));
    }
    result
}

/// How a successful search result relates to the interval it was drawn from:
/// the returned root is an endpoint the policy accepts as a root, begin
/// before end, or the midpoint of an interval the policy accepts as
/// converged.
pub open spec fn spec_search_verdict<F: FloatType, C: Convergency<F>>(
    policy: C,
    interval: Interval<F>,
    root: F,
) -> bool {
    ||| (policy.spec_root_found(interval.begin.y) && root == interval.begin.x)
    ||| (!policy.spec_root_found(interval.begin.y) && policy.spec_root_found(interval.end.y)
        && root == interval.end.x)
    ||| (!policy.spec_root_found(interval.begin.y) && !policy.spec_root_found(interval.end.y)
        && policy.spec_converged(interval) && root == interval.spec_middle())
}

/// One iteration of the hybrid search on a not-yet-terminal interval: sample
/// the polynomial and its derivative at the midpoint; where the derivative is
/// not zero, take the Newton-Raphson point instead, provided it stays inside
/// the interval and improves on the midpoint's residual; then replace
/// whichever endpoint keeps the bracket valid.
pub open spec fn spec_search_step<F: FloatType>(p: Seq<F>, interval: Interval<F>) -> Interval<F> {
    let middle = spec_value_and_derivative(p, interval.spec_middle());
    let trial = if !middle.derivative.spec_eq(F::spec_zero()) {
        let newton_raphson = middle.value.x.spec_sub(middle.value.y.spec_div(middle.derivative));
        if interval.begin.x.spec_le(newton_raphson) && newton_raphson.spec_le(interval.end.x) {
            let newton_raphson_value = spec_value(p, newton_raphson);
            if newton_raphson_value.spec_abs().spec_lt(middle.value.y.spec_abs()) {
                Sample { x: newton_raphson, y: newton_raphson_value }
            } else {
                middle.value
            }
        } else {
            middle.value
        }
    } else {
        middle.value
    };
    if interval.begin.spec_bracketed_with(trial) {
        Interval { begin: interval.begin, end: trial }
    } else {
        Interval { begin: trial, end: interval.end }
    }
}

/// The interval after `k` iterations of [`spec_search_step`] from `interval`.
pub open spec fn spec_search_steps<F: FloatType>(
    p: Seq<F>,
    interval: Interval<F>,
    k: nat,
) -> Interval<F>
    decreases k,
{
    if k == 0 {
        interval
    } else {
        spec_search_step(p, spec_search_steps(p, interval, (k - 1) as nat))
    }
}

/// Searches the bracketed interval for a root of the normalized polynomial
/// `p` by the hybrid Newton-Raphson/bisection method, delegating every
/// termination decision to the convergence policy.
///
/// The search fails immediately with `NoBracketing` when, and only when, the
/// interval is not bracketed on entry; in that case the interval is left
/// untouched. On a bracketed interval the bracketing invariant is maintained
/// to the end. An endpoint that the policy already accepts as a root is
/// returned at once, begin before end; an interval that the policy already
/// accepts as converged returns its midpoint at once, with no evaluation.
/// Every successful result is an accepted endpoint or the midpoint of a
/// converged interval, in that order of precedence, for the final interval,
/// and every endpoint the loop has replaced is a genuine sample of `p`: its
/// `y` is the polynomial's value at its `x`. Exhausting the iteration budget
/// fails with `NoConvergency`. Whatever is returned, the final interval is
/// the entry interval advanced by some number of [`spec_search_step`]
/// iterations. Containment of the narrowed bracket in the
/// caller's original interval is not stated: it would rest on an arithmetic
/// law (a midpoint lying between its endpoints) that the numeric abstraction
/// does not impose and that machine floats do not satisfy at the extremes.
pub fn find_root<F: FloatType, C: Convergency<F>>(
    p: &[F],
    bracketed_start: &mut Interval<F>,
    convergency: &mut C,
) -> (r: Result<F, SearchError>)
    ensures
        decisions_eq(*final(convergency), *old(convergency)),
        (r == Err::<F, SearchError>(SearchError::NoBracketing)) <==> !old(
            bracketed_start,
        ).spec_bracketed(),
        !old(bracketed_start).spec_bracketed() ==> *final(bracketed_start) == *old(
            bracketed_start,
        ),
        old(bracketed_start).spec_bracketed() ==> final(bracketed_start).spec_bracketed(),
        (old(bracketed_start).spec_bracketed() && old(convergency).spec_root_found(
            old(bracketed_start).begin.y,
        )) ==> r == Ok::<F, SearchError>(old(bracketed_start).begin.x) && *final(bracketed_start)
            == *old(bracketed_start),
        (old(bracketed_start).spec_bracketed() && !old(convergency).spec_root_found(
            old(bracketed_start).begin.y,
        ) && old(convergency).spec_root_found(old(bracketed_start).end.y)) ==> r == Ok::<
            F,
            SearchError,
        >(old(bracketed_start).end.x) && *final(bracketed_start) == *old(bracketed_start),
        (old(bracketed_start).spec_bracketed() && !old(convergency).spec_root_found(
            old(bracketed_start).begin.y,
        ) && !old(convergency).spec_root_found(old(bracketed_start).end.y) && old(
            convergency,
        ).spec_converged(*old(bracketed_start))) ==> r == Ok::<F, SearchError>(
            old(bracketed_start).spec_middle(),
        ) && *final(bracketed_start) == *old(bracketed_start),
        r matches Ok(root) ==> spec_search_verdict(
            *old(convergency),
            *final(bracketed_start),
            root,
        ),
        r == Err::<F, SearchError>(SearchError::NoConvergency) ==> old(
            bracketed_start,
        ).spec_bracketed() && !old(convergency).spec_root_found(old(bracketed_start).begin.y)
            && !old(convergency).spec_root_found(old(bracketed_start).end.y) && !old(
            convergency,
        ).spec_converged(*old(bracketed_start)),
        final(bracketed_start).begin == old(bracketed_start).begin || final(bracketed_start).begin.y
            == spec_value(p@, final(bracketed_start).begin.x),
        final(bracketed_start).end == old(bracketed_start).end || final(bracketed_start).end.y
            == spec_value(p@, final(bracketed_start).end.x),
        exists|k: nat|
            *final(bracketed_start) == spec_search_steps(p@, *old(bracketed_start), k),
{
    if !bracketed_start.is_bracketed() {
        proof {
            assert(*bracketed_start == spec_search_steps(p@, *old(bracketed_start), 0));
        }
        return Err(SearchError::NoBracketing);
    }
    let mut iter: usize = 0;
    let ghost mut steps: nat = 0;
    loop
        invariant
            old(bracketed_start).spec_bracketed(),
            bracketed_start.spec_bracketed(),
            decisions_eq(*convergency, *old(convergency)),
            (*bracketed_start == *old(bracketed_start)) || (!old(convergency).spec_root_found(
                old(bracketed_start).begin.y,
            ) && !old(convergency).spec_root_found(old(bracketed_start).end.y) && !old(
                convergency,
            ).spec_converged(*old(bracketed_start))),
            bracketed_start.begin == old(bracketed_start).begin || bracketed_start.begin.y
                == spec_value(p@, bracketed_start.begin.x),
            bracketed_start.end == old(bracketed_start).end || bracketed_start.end.y == spec_value(
                p@,
                bracketed_start.end.x,
            ),
            *bracketed_start == spec_search_steps(p@, *old(bracketed_start), steps),
        decreases usize::MAX - iter,
    {
        let ghost pre = *convergency;
        let root_at_begin = convergency.is_root_found(bracketed_start.begin.y);
        proof {
            lemma_decisions_eq_trans(*convergency, pre, *old(convergency));
        }
        if root_at_begin {
            return Ok(bracketed_start.begin.x);
        }
        let ghost pre = *convergency;
        let root_at_end = convergency.is_root_found(bracketed_start.end.y);
        proof {
            lemma_decisions_eq_trans(*convergency, pre, *old(convergency));
        }
        if root_at_end {
            return Ok(bracketed_start.end.x);
        }
        let ghost pre = *convergency;
        let converged = bracketed_start.is_converged(convergency);
        proof {
            lemma_decisions_eq_trans(*convergency, pre, *old(convergency));
        }
        if converged {
            return Ok(bracketed_start.middle());
        }
        let middle = value_and_derivative(p, &bracketed_start.middle());
        let next_sample = if !middle.derivative.eq_value(F::zero()) {
            let newton_raphson = middle.value.x.sub(middle.value.y.div(middle.derivative));
            if bracketed_start.begin.x.le(newton_raphson) && newton_raphson.le(
                bracketed_start.end.x,
            ) {
                let newton_raphson_value = value(p, &newton_raphson);
                if newton_raphson_value.abs().lt(middle.value.y.abs()) {
                    Sample { x: newton_raphson, y: newton_raphson_value }
                } else {
                    middle.value
                }
            } else {
                middle.value
            }
        } else {
            middle.value
        };
        let ghost before_step = *bracketed_start;
        if bracketed_start.begin.is_bracketed_with(&next_sample) {
            bracketed_start.end = next_sample;
        } else {
            proof {
                F::le_total(F::spec_zero(), next_sample.y);
            }
            bracketed_start.begin = next_sample;
        }
        proof {
            assert(*bracketed_start == spec_search_step(p@, before_step));
            steps = steps + 1;
        }
        // the iteration counter itself is bounded by the machine word
        if iter == usize::MAX {
            proof {
                assert(*bracketed_start == spec_search_steps(p@, *old(bracketed_start), steps));
            }
            return Err(SearchError::NoConvergency);
        }
        iter = iter + 1;
        let ghost pre = *convergency;
        let limit_reached = convergency.is_iteration_limit_reached(iter);
        proof {
            lemma_decisions_eq_trans(*convergency, pre, *old(convergency));
        }
        if limit_reached {
            proof {
                assert(*bracketed_start == spec_search_steps(p@, *old(bracketed_start), steps));
            }
            return Err(SearchError::NoConvergency);
        }
    }
}

/// Finds all roots of the normalized polynomial
/// `x^n + a[0]*x^(n-1) + ... + a[n-1] = 0` of degree at most four by
/// dispatching, on the length of the coefficient sequence alone, to the
/// matching closed-form solver; the leading coefficient handed to the solver
/// is always one. A sequence of five or more coefficients is not supported
/// and yields `None` rather than a root set.
pub fn find_roots_sturm<F: FloatType>(a: &[F]) -> (r: Option<Roots<F>>)
    ensures
        a@.len() == 0 ==> (r matches Some(rs) && is_root_set(rs, Seq::<F>::empty())),
        a@.len() == 1 ==> (r matches Some(rs) && is_root_set(
            rs,
            spec_find_roots_linear(F::spec_one(), a@[0]),
        )),
        a@.len() == 2 ==> (r matches Some(rs) && is_root_set(
            rs,
            spec_find_roots_quadratic(F::spec_one(), a@[0], a@[1]),
        )),
        a@.len() == 3 ==> (r matches Some(rs) && is_root_set(
            rs,
            spec_find_roots_cubic(F::spec_one(), a@[0], a@[1], a@[2]),
        )),
        a@.len() == 4 ==> (r matches Some(rs) && is_root_set(
            rs,
            spec_find_roots_quartic(F::spec_one(), a@[0], a@[1], a@[2], a@[3]),
        )),
        a@.len() >= 5 ==> r is None,
{
    match a.len() {
        0 => Some(Roots::zero()),
        1 => Some(find_roots_linear(F::one(), a[0])),
        2 => Some(find_roots_quadratic(F::one(), a[0], a[1])),
        3 => Some(find_roots_cubic(F::one(), a[0], a[1], a[2])),
        4 => Some(find_roots_quartic(F::one(), a[0], a[1], a[2], a[3])),
        _ => None,
    }
}

} // verus!
