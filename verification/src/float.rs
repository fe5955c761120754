use vstd::prelude::*;

verus! {

/// Mathematical twin of [`FloatType::nine`]: nine is three times three.
pub open spec fn spec_nine<F: FloatType>() -> F {
    F::spec_three().spec_mul(F::spec_three())
}

/// Mathematical twin of [`FloatType::twenty_seven`]: twenty-seven is nine
/// times three.
pub open spec fn spec_twenty_seven<F: FloatType>() -> F {
    spec_nine::<F>().spec_mul(F::spec_three())
}

/// The numeric abstraction that every algorithm of this crate is written
/// against: arithmetic, comparison and transcendental primitives, together
/// with the named constants the solvers need.
///
/// An implementation supplies the concrete number representation (typically a
/// wrapper around a hardware floating-point type) and chooses the meaning of
/// each `spec_` function; every executable primitive must then return exactly
/// the value that its `spec_` twin denotes, and `spec_le` must be a total
/// relation (`le_total`). All contracts of this crate are stated relative to
/// those twins, so they hold for any implementation that honours them.
pub trait FloatType: Sized + Copy {
    /// The value of `zero`.
    spec fn spec_zero() -> Self;

    /// The value of `one`.
    spec fn spec_one() -> Self;

    /// The value of `two`.
    spec fn spec_two() -> Self;

    /// The value of `three`.
    spec fn spec_three() -> Self;

    /// The value of `four`.
    spec fn spec_four() -> Self;

    /// The value of `pi`.
    spec fn spec_pi() -> Self;

    /// The value of `one_third`.
    spec fn spec_one_third() -> Self;

    /// The value of `two_third_pi`.
    spec fn spec_two_third_pi() -> Self;

    /// The sum of `self` and `other`.
    spec fn spec_add(self, other: Self) -> Self;

    /// The difference of `self` and `other`.
    spec fn spec_sub(self, other: Self) -> Self;

    /// The product of `self` and `other`.
    spec fn spec_mul(self, other: Self) -> Self;

    /// The quotient of `self` and `other`.
    spec fn spec_div(self, other: Self) -> Self;

    /// The negation of `self`.
    spec fn spec_neg(self) -> Self;

    /// The absolute value of `self`.
    spec fn spec_abs(self) -> Self;

    /// The square root of `self`.
    spec fn spec_sqrt(self) -> Self;

    /// The cubic root of `self`.
    spec fn spec_cbrt(self) -> Self;

    /// The arc cosine of `self`.
    spec fn spec_acos(self) -> Self;

    /// The cosine of `self`.
    spec fn spec_cos(self) -> Self;

    /// `self` raised to the power `n`.
    spec fn spec_powf(self, n: Self) -> Self;

    /// Whether `self` is at most `other`.
    spec fn spec_le(self, other: Self) -> bool;

    /// Whether `self` is strictly below `other`.
    spec fn spec_lt(self, other: Self) -> bool;

    /// Whether `self` and `other` are the same number.
    spec fn spec_eq(self, other: Self) -> bool;

    /// Any two numbers are comparable: the ordering has no gaps. The
    /// bracketing argument of the root search rests on this.
    proof fn le_total(a: Self, b: Self)
        ensures
            a.spec_le(b) || b.spec_le(a),
    ;

    /// Adding one to zero yields one. This single identity collapses the
    /// Horner sum of an empty coefficient sequence to the constant one; no
    /// broader additive-identity law is demanded of implementations, since
    /// already `0 + a == a` fails for machine floats at a negative zero.
    proof fn zero_add_one()
        ensures
            Self::spec_zero().spec_add(Self::spec_one()) == Self::spec_one(),
    ;

    fn zero() -> (r: Self)
        ensures
            r == Self::spec_zero(),
    ;

    fn one() -> (r: Self)
        ensures
            r == Self::spec_one(),
    ;

    fn two() -> (r: Self)
        ensures
            r == Self::spec_two(),
    ;

    fn three() -> (r: Self)
        ensures
            r == Self::spec_three(),
    ;

    fn four() -> (r: Self)
        ensures
            r == Self::spec_four(),
    ;

    fn pi() -> (r: Self)
        ensures
            r == Self::spec_pi(),
    ;

    fn one_third() -> (r: Self)
        ensures
            r == Self::spec_one_third(),
    ;

    fn two_third_pi() -> (r: Self)
        ensures
            r == Self::spec_two_third_pi(),
    ;

    fn five() -> (r: Self)
        ensures
            r == Self::spec_two().spec_add(Self::spec_three()),
    {
        Self::two().add(Self::three())
    }

    fn nine() -> (r: Self)
        ensures
            r == Self::spec_three().spec_mul(Self::spec_three()),
    {
        Self::three().mul(Self::three())
    }

    fn twenty_seven() -> (r: Self)
        ensures
            r == Self::spec_three().spec_mul(Self::spec_three()).spec_mul(Self::spec_three()),
    {
        Self::nine().mul(Self::three())
    }

    fn add(self, other: Self) -> (r: Self)
        ensures
            r == self.spec_add(other),
    ;

    fn sub(self, other: Self) -> (r: Self)
        ensures
            r == self.spec_sub(other),
    ;

    fn mul(self, other: Self) -> (r: Self)
        ensures
            r == self.spec_mul(other),
    ;

    fn div(self, other: Self) -> (r: Self)
        ensures
            r == self.spec_div(other),
    ;

    fn neg(self) -> (r: Self)
        ensures
            r == self.spec_neg(),
    ;

    fn abs(self) -> (r: Self)
        ensures
            r == self.spec_abs(),
    ;

    fn sqrt(self) -> (r: Self)
        ensures
            r == self.spec_sqrt(),
    ;

    fn cbrt(self) -> (r: Self)
        ensures
            r == self.spec_cbrt(),
    ;

    fn acos(self) -> (r: Self)
        ensures
            r == self.spec_acos(),
    ;

    fn cos(self) -> (r: Self)
        ensures
            r == self.spec_cos(),
    ;

    fn powf(self, n: Self) -> (r: Self)
        ensures
            r == self.spec_powf(n),
    ;

    fn le(self, other: Self) -> (r: bool)
        ensures
            r == self.spec_le(other),
    ;

    fn lt(self, other: Self) -> (r: bool)
        ensures
            r == self.spec_lt(other),
    ;

    fn eq_value(self, other: Self) -> (r: bool)
        ensures
            r == self.spec_eq(other),
    ;
}

} // verus!
