pub mod polynom;

use vstd::prelude::*;

use crate::float::FloatType;

verus! {

/// A point `x` together with the function value `y = f(x)` observed there.
#[derive(Clone, Copy, Debug, PartialEq)]
pub struct Sample<F: FloatType> {
    pub x: F,
    pub y: F,
}

impl<F: FloatType> Sample<F> {
    /// Whether the function values at `self` and `other` straddle a sign
    /// change; an endpoint whose value is exactly zero counts as straddling.
    pub open spec fn spec_bracketed_with(self, other: Sample<F>) -> bool {
        ||| (self.y.spec_le(F::spec_zero()) && F::spec_zero().spec_le(other.y))
        ||| (F::spec_zero().spec_le(self.y) && other.y.spec_le(F::spec_zero()))
    }

    /// Whether a root is guaranteed to lie between `self` and `other`.
    pub fn is_bracketed_with(&self, other: &Sample<F>) -> (r: bool)
        ensures
            r == self.spec_bracketed_with(*other),
    {
        (self.y.le(F::zero()) && F::zero().le(other.y)) || (F::zero().le(self.y) && other.y.le(
            F::zero(),
        ))
    }
}

/// A bracket of two samples; the search only ever moves one endpoint at a
/// time, onto a freshly computed sample that keeps the bracketing invariant.
#[derive(Clone, Copy, Debug, PartialEq)]
pub struct Interval<F: FloatType> {
    pub begin: Sample<F>,
    pub end: Sample<F>,
}

impl<F: FloatType> Interval<F> {
    /// The bracketing invariant: the endpoint values have opposite signs, or
    /// one endpoint is itself a root.
    pub open spec fn spec_bracketed(self) -> bool {
        self.begin.spec_bracketed_with(self.end)
    }

    /// Whether the bracketing invariant holds of this interval.
    pub fn is_bracketed(&self) -> (r: bool)
        ensures
            r == self.spec_bracketed(),
    {
        self.begin.is_bracketed_with(&self.end)
    }

    /// The arithmetic mean of the endpoint abscissas.
    pub open spec fn spec_middle(self) -> F {
        self.begin.x.spec_add(self.end.x).spec_div(F::spec_two())
    }

    /// The midpoint of the interval; computed, not stored.
    pub fn middle(&self) -> (r: F)
        ensures
            r == self.spec_middle(),
    {
        self.begin.x.add(self.end.x).div(F::two())
    }

    /// Asks the policy whether this interval counts as converged.
    pub fn is_converged<C: Convergency<F>>(&self, convergency: &mut C) -> (r: bool)
        ensures
            r == old(convergency).spec_converged(*self),
            decisions_eq(*final(convergency), *old(convergency)),
    {
        convergency.is_converged(self)
    }
}

/// The two ways the iterative search can fail.
#[derive(Clone, Copy, Debug, PartialEq, Eq, Structural)]
pub enum SearchError {
    /// The initial interval does not straddle a sign change and neither
    /// endpoint is a root; no iteration was attempted.
    NoBracketing,
    /// The iteration budget of the convergence policy was exhausted before a
    /// root was found.
    NoConvergency,
}

/// The pluggable termination policy of the iterative search. Callers
/// implement its three decisions; the `spec_` twins give each decision a
/// meaning that the contracts of the search can speak about. Every method
/// promises that a call may update internal bookkeeping but never the
/// decisions themselves: the three `spec_` functions answer the same on the
/// state after the call as on the state before it. An adaptive policy, whose
/// criteria drift as it is queried, does not meet this contract, and the
/// search's guarantees are stated only for policies that do.
pub trait Convergency<F: FloatType>: Sized {
    /// Whether the value `y` counts as a root.
    spec fn spec_root_found(self, y: F) -> bool;

    /// Whether `interval` is narrow enough to stop.
    spec fn spec_converged(self, interval: Interval<F>) -> bool;

    /// Whether `iter` iterations exhaust the budget.
    spec fn spec_limit_reached(self, iter: usize) -> bool;

    fn is_root_found(&mut self, y: F) -> (r: bool)
        ensures
            r == old(self).spec_root_found(y),
            forall|z: F| #[trigger] final(self).spec_root_found(z) == old(self).spec_root_found(
                z,
            ),
            forall|iv: Interval<F>| #[trigger] final(self).spec_converged(iv) == old(
                self,
            ).spec_converged(iv),
            forall|n: usize| #[trigger] final(self).spec_limit_reached(n) == old(
                self,
            ).spec_limit_reached(n),
    ;

    fn is_converged(&mut self, interval: &Interval<F>) -> (r: bool)
        ensures
            r == old(self).spec_converged(*interval),
            forall|z: F| #[trigger] final(self).spec_root_found(z) == old(self).spec_root_found(
                z,
            ),
            forall|iv: Interval<F>| #[trigger] final(self).spec_converged(iv) == old(
                self,
            ).spec_converged(iv),
            forall|n: usize| #[trigger] final(self).spec_limit_reached(n) == old(
                self,
            ).spec_limit_reached(n),
    ;

    fn is_iteration_limit_reached(&mut self, iter: usize) -> (r: bool)
        ensures
            r == old(self).spec_limit_reached(iter),
            forall|z: F| #[trigger] final(self).spec_root_found(z) == old(self).spec_root_found(
                z,
            ),
            forall|iv: Interval<F>| #[trigger] final(self).spec_converged(iv) == old(
                self,
            ).spec_converged(iv),
            forall|n: usize| #[trigger] final(self).spec_limit_reached(n) == old(
                self,
            ).spec_limit_reached(n),
    ;
}

/// Two policy states that decide alike on every query. Bookkeeping inside a
/// policy may change between calls; its decisions may not.
pub open spec fn decisions_eq<F: FloatType, C: Convergency<F>>(a: C, b: C) -> bool {
    &&& forall|y: F| #[trigger] a.spec_root_found(y) == b.spec_root_found(y)
    &&& forall|i: Interval<F>| #[trigger] a.spec_converged(i) == b.spec_converged(i)
    &&& forall|n: usize| #[trigger] a.spec_limit_reached(n) == b.spec_limit_reached(n)
}

/// `decisions_eq` is transitive.
pub proof fn lemma_decisions_eq_trans<F: FloatType, C: Convergency<F>>(a: C, b: C, c: C)
    requires
        decisions_eq(a, b),
        decisions_eq(b, c),
    ensures
        decisions_eq(a, c),
{
    assert forall|y: F| #[trigger] a.spec_root_found(y) == c.spec_root_found(y) by {
        assert(a.spec_root_found(y) == b.spec_root_found(y));
        assert(b.spec_root_found(y) == c.spec_root_found(y));
    }
    assert forall|i: Interval<F>| #[trigger] a.spec_converged(i) == c.spec_converged(i) by {
        assert(a.spec_converged(i) == b.spec_converged(i));
        assert(b.spec_converged(i) == c.spec_converged(i));
    }
    assert forall|n: usize| #[trigger] a.spec_limit_reached(n) == c.spec_limit_reached(n) by {
        assert(a.spec_limit_reached(n) == b.spec_limit_reached(n));
        assert(b.spec_limit_reached(n) == c.spec_limit_reached(n));
    }
}

/// A convenience policy: a fixed tolerance `eps` and a fixed iteration budget
/// `max_iter`.
#[derive(Clone, Copy, Debug, PartialEq)]
pub struct SimpleConvergency<F: FloatType> {
    pub eps: F,
    pub max_iter: usize,
}

impl<F: FloatType> Convergency<F> for SimpleConvergency<F> {
    /// A value within `eps` of zero counts as a root.
    open spec fn spec_root_found(self, y: F) -> bool {
        y.spec_abs().spec_lt(self.eps)
    }

    /// An interval narrower than `eps` counts as converged.
    open spec fn spec_converged(self, interval: Interval<F>) -> bool {
        interval.begin.x.spec_sub(interval.end.x).spec_abs().spec_lt(self.eps)
    }

    /// The budget is exhausted at `max_iter` iterations.
    open spec fn spec_limit_reached(self, iter: usize) -> bool {
        iter >= self.max_iter
    }

    fn is_root_found(&mut self, y: F) -> (r: bool) {
        y.abs().lt(self.eps)
    }

    fn is_converged(&mut self, interval: &Interval<F>) -> (r: bool) {
        interval.begin.x.sub(interval.end.x).abs().lt(self.eps)
    }

    fn is_iteration_limit_reached(&mut self, iter: usize) -> (r: bool) {
        iter >= self.max_iter
    }
}

} // verus!
