use roots::FloatType;
use roots::Interval;
use roots::Roots;
use roots::Sample;
use roots::SearchError;
use roots::SimpleConvergency;
use roots::ValueAndDerivative;
use roots::derivative_polynom;
use roots::find_root;
use roots::find_roots_biquadratic;
use roots::find_roots_cubic;
use roots::find_roots_linear;
use roots::find_roots_quadratic;
use roots::find_roots_quartic;
use roots::find_roots_sturm;
use roots::value;
use roots::value_and_derivative;

/// Double precision instantiated as the crate's numeric abstraction.
#[derive(Clone, Copy, Debug, PartialEq)]
struct Fl(f64);

impl FloatType for Fl {
    // The `spec_` twins and the ordering law are proof-time items of the
    // trait; outside verification they are inert, and here they are given
    // their natural double-precision readings.

    fn spec_zero() -> Self {
        Fl(0f64)
    }
    fn spec_one() -> Self {
        Fl(1f64)
    }
    fn spec_two() -> Self {
        Fl(2f64)
    }
    fn spec_three() -> Self {
        Fl(3f64)
    }
    fn spec_four() -> Self {
        Fl(4f64)
    }
    fn spec_pi() -> Self {
        Fl(std::f64::consts::PI)
    }
    fn spec_one_third() -> Self {
        Fl(1f64 / 3f64)
    }
    fn spec_two_third_pi() -> Self {
        Fl(2f64 * std::f64::consts::FRAC_PI_3)
    }
    fn spec_add(self, other: Self) -> Self {
        Fl(self.0 + other.0)
    }
    fn spec_sub(self, other: Self) -> Self {
        Fl(self.0 - other.0)
    }
    fn spec_mul(self, other: Self) -> Self {
        Fl(self.0 * other.0)
    }
    fn spec_div(self, other: Self) -> Self {
        Fl(self.0 / other.0)
    }
    fn spec_neg(self) -> Self {
        Fl(-self.0)
    }
    fn spec_abs(self) -> Self {
        Fl(self.0.abs())
    }
    fn spec_sqrt(self) -> Self {
        Fl(self.0.sqrt())
    }
    fn spec_cbrt(self) -> Self {
        Fl(self.0.cbrt())
    }
    fn spec_acos(self) -> Self {
        Fl(self.0.acos())
    }
    fn spec_cos(self) -> Self {
        Fl(self.0.cos())
    }
    fn spec_powf(self, n: Self) -> Self {
        Fl(self.0.powf(n.0))
    }
    fn spec_le(self, other: Self) -> bool {
        self.0 <= other.0
    }
    fn spec_lt(self, other: Self) -> bool {
        self.0 < other.0
    }
    fn spec_eq(self, other: Self) -> bool {
        self.0 == other.0
    }
    fn le_total(_a: Self, _b: Self) {
    }
    fn zero_add_one() {
    }

    fn zero() -> Self {
        Fl(0f64)
    }
    fn one() -> Self {
        Fl(1f64)
    }
    fn two() -> Self {
        Fl(2f64)
    }
    fn three() -> Self {
        Fl(3f64)
    }
    fn four() -> Self {
        Fl(4f64)
    }
    fn pi() -> Self {
        Fl(std::f64::consts::PI)
    }
    fn one_third() -> Self {
        Fl(1f64 / 3f64)
    }
    fn two_third_pi() -> Self {
        Fl(2f64 * std::f64::consts::FRAC_PI_3)
    }
    fn add(self, other: Self) -> Self {
        Fl(self.0 + other.0)
    }
    fn sub(self, other: Self) -> Self {
        Fl(self.0 - other.0)
    }
    fn mul(self, other: Self) -> Self {
        Fl(self.0 * other.0)
    }
    fn div(self, other: Self) -> Self {
        Fl(self.0 / other.0)
    }
    fn neg(self) -> Self {
        Fl(-self.0)
    }
    fn abs(self) -> Self {
        Fl(self.0.abs())
    }
    fn sqrt(self) -> Self {
        Fl(self.0.sqrt())
    }
    fn cbrt(self) -> Self {
        Fl(self.0.cbrt())
    }
    fn acos(self) -> Self {
        Fl(self.0.acos())
    }
    fn cos(self) -> Self {
        Fl(self.0.cos())
    }
    fn powf(self, n: Self) -> Self {
        Fl(self.0.powf(n.0))
    }
    fn le(self, other: Self) -> bool {
        self.0 <= other.0
    }
    fn lt(self, other: Self) -> bool {
        self.0 < other.0
    }
    fn eq_value(self, other: Self) -> bool {
        self.0 == other.0
    }
}

fn drain(mut roots: Roots<Fl>) -> Vec<f64> {
    let mut out = Vec::new();
    while let Some(root) = roots.next() {
        out.push(root.0);
    }
    out
}

fn sorted(mut xs: Vec<f64>) -> Vec<f64> {
    xs.sort_by(|a, b| a.partial_cmp(b).unwrap());
    xs
}

#[test]
fn test_float_cbrt() {
    assert_eq!(-8f64.cbrt(), -2f64);
    assert_eq!(8f64.cbrt(), 2f64);
    assert_eq!(0f32.cbrt(), 0f32);
}

#[test]
fn test_find_roots_sturm() {
    let polynom = [Fl(-2f64), Fl(1f64)];
    let roots = find_roots_sturm(&polynom).expect("degree two is supported");
    assert_eq!(drain(roots), vec![1f64]);
}

#[test]
fn test_polynom_value() {
    let polynom = [Fl(1f64), Fl(-2f64), Fl(1f64)];
    assert_eq!(Fl(1f64), value(&polynom, &Fl(0f64)));
    assert_eq!(Fl(1f64), value(&polynom, &Fl(1f64)));
    assert_eq!(Fl(3f64), value(&polynom, &Fl(-1f64)));
}

#[test]
fn test_polynom_value_and_derivative() {
    let polynom = [Fl(1f64), Fl(-2f64), Fl(1f64)];
    assert_eq!(
        ValueAndDerivative {
            value: Sample { x: Fl(0f64), y: Fl(1f64) },
            derivative: Fl(-2f64)
        },
        value_and_derivative(&polynom, &Fl(0f64))
    );
    assert_eq!(
        ValueAndDerivative {
            value: Sample { x: Fl(1f64), y: Fl(1f64) },
            derivative: Fl(3f64)
        },
        value_and_derivative(&polynom, &Fl(1f64))
    );
    assert_eq!(
        ValueAndDerivative {
            value: Sample { x: Fl(-1f64), y: Fl(3f64) },
            derivative: Fl(-1f64)
        },
        value_and_derivative(&polynom, &Fl(-1f64))
    );
}

#[test]
fn test_derivative_polynom_3() {
    // x^3 + 1*x^2 - 2*x^1 + 1*x^0 => 3*x^2 + 2*x^1 - 2*x^0 => x^2 + (2/3)*x^1 - (2/3)*x^0
    let polynom = [Fl(1f64), Fl(-2f64), Fl(1f64)];
    let derivative = derivative_polynom(&polynom);
    let expected = [2f64 / 3f64, -2f64 / 3f64];
    assert_eq!(derivative.len(), expected.len());
    for (given, want) in derivative.iter().zip(expected.iter()) {
        assert!((given.0 - want).abs() <= 1e-15);
    }
}

#[test]
fn test_derivative_polynom_5() {
    // x^5 - 2*x^4 - 3*x^3 + 4*x^2 + 0*x^1 + 0*x^0 => 5*x^4 - 8*x^3 - 9*x^2 + 8*x^1 + 0*x^0 => x^4 - (8/5)*x^3 - (9/5)*x^2 + (8/5)*x^1 + 0*x^0
    let polynom = [Fl(-2f64), Fl(-3f64), Fl(4f64), Fl(0f64), Fl(0f64)];
    let derivative = derivative_polynom(&polynom);
    let expected = [-8f64 / 5f64, -9f64 / 5f64, 8f64 / 5f64, 0f64];
    assert_eq!(derivative.len(), expected.len());
    for (given, want) in derivative.iter().zip(expected.iter()) {
        assert!((given.0 - want).abs() <= 1e-15);
    }
}

#[test]
fn value_of_empty_polynom_is_one() {
    let polynom: [Fl; 0] = [];
    assert_eq!(Fl(1f64), value(&polynom, &Fl(17.5f64)));
    let both = value_and_derivative(&polynom, &Fl(17.5f64));
    assert_eq!(both.value.y, Fl(1f64));
    assert_eq!(both.derivative, Fl(0f64));
}

#[test]
fn value_and_derivative_value_matches_value() {
    let polynom = [Fl(2.5f64), Fl(-1.25f64), Fl(0.5f64), Fl(3f64)];
    for x in [-2.5f64, -1f64, 0f64, 0.75f64, 3f64] {
        assert_eq!(value_and_derivative(&polynom, &Fl(x)).value.y, value(&polynom, &Fl(x)));
    }
}

#[test]
fn sturm_delegates_to_the_closed_form_solvers() {
    assert_eq!(
        find_roots_sturm(&[Fl(5f64)]),
        Some(find_roots_linear(Fl(1f64), Fl(5f64)))
    );
    assert_eq!(
        find_roots_sturm(&[Fl(-2f64), Fl(1f64)]),
        Some(find_roots_quadratic(Fl(1f64), Fl(-2f64), Fl(1f64)))
    );
    assert_eq!(
        find_roots_sturm(&[Fl(0f64), Fl(-7f64), Fl(6f64)]),
        Some(find_roots_cubic(Fl(1f64), Fl(0f64), Fl(-7f64), Fl(6f64)))
    );
    assert_eq!(
        find_roots_sturm(&[Fl(0f64), Fl(-5f64), Fl(0f64), Fl(4f64)]),
        Some(find_roots_quartic(Fl(1f64), Fl(0f64), Fl(-5f64), Fl(0f64), Fl(4f64)))
    );
}

#[test]
fn sturm_dispatch_boundaries() {
    let empty: [Fl; 0] = [];
    let roots = find_roots_sturm(&empty).expect("degree zero is supported");
    assert_eq!(drain(roots), Vec::<f64>::new());
    let five = [Fl(1f64), Fl(1f64), Fl(1f64), Fl(1f64), Fl(1f64)];
    assert_eq!(find_roots_sturm(&five), None);
}

#[test]
fn linear_solver_and_degenerate_linear() {
    assert_eq!(drain(find_roots_linear(Fl(2f64), Fl(-4f64))), vec![2f64]);
    assert_eq!(drain(find_roots_linear(Fl(0f64), Fl(3f64))), Vec::<f64>::new());
}

#[test]
fn quadratic_solver_orders_roots_ascending() {
    assert_eq!(
        drain(find_roots_quadratic(Fl(1f64), Fl(-5f64), Fl(6f64))),
        vec![2f64, 3f64]
    );
    assert_eq!(
        drain(find_roots_quadratic(Fl(-1f64), Fl(5f64), Fl(-6f64))),
        vec![2f64, 3f64]
    );
    assert_eq!(
        drain(find_roots_quadratic(Fl(1f64), Fl(0f64), Fl(1f64))),
        Vec::<f64>::new()
    );
}

#[test]
fn cubic_solver_finds_three_real_roots() {
    let roots = sorted(drain(find_roots_cubic(Fl(1f64), Fl(0f64), Fl(-7f64), Fl(6f64))));
    let expected = [-3f64, 1f64, 2f64];
    assert_eq!(roots.len(), expected.len());
    for (given, want) in roots.iter().zip(expected.iter()) {
        assert!((given - want).abs() <= 1e-9);
    }
}

#[test]
fn quartic_solver_finds_four_real_roots() {
    // (x-1)(x-2)(x-3)(x-5) = x^4 - 11*x^3 + 41*x^2 - 61*x + 30
    let roots = sorted(drain(find_roots_quartic(
        Fl(1f64),
        Fl(-11f64),
        Fl(41f64),
        Fl(-61f64),
        Fl(30f64),
    )));
    let expected = [1f64, 2f64, 3f64, 5f64];
    assert_eq!(roots.len(), expected.len());
    for (given, want) in roots.iter().zip(expected.iter()) {
        assert!((given - want).abs() <= 1e-6);
    }
}

#[test]
fn biquadratic_solver_finds_symmetric_roots() {
    let roots = sorted(drain(find_roots_biquadratic(Fl(1f64), Fl(-5f64), Fl(4f64))));
    assert_eq!(roots, vec![-2f64, -1f64, 1f64, 2f64]);
}

#[test]
fn hybrid_search_converges_on_a_sign_change() {
    // f(x) = x - 1 bracketed by [0, 2].
    let polynom = [Fl(-1f64)];
    let mut interval = Interval {
        begin: Sample { x: Fl(0f64), y: value(&polynom, &Fl(0f64)) },
        end: Sample { x: Fl(2f64), y: value(&polynom, &Fl(2f64)) },
    };
    let mut convergency = SimpleConvergency { eps: Fl(1e-9f64), max_iter: 50 };
    let root = find_root(&polynom, &mut interval, &mut convergency).expect("bracketed");
    assert!((root.0 - 1f64).abs() <= 1e-9);
}

#[test]
fn hybrid_search_converges_on_an_irrational_root() {
    // f(x) = x^2 - 2 bracketed by [1, 2].
    let polynom = [Fl(0f64), Fl(-2f64)];
    let mut interval = Interval {
        begin: Sample { x: Fl(1f64), y: value(&polynom, &Fl(1f64)) },
        end: Sample { x: Fl(2f64), y: value(&polynom, &Fl(2f64)) },
    };
    let mut convergency = SimpleConvergency { eps: Fl(1e-9f64), max_iter: 500 };
    let root = find_root(&polynom, &mut interval, &mut convergency).expect("bracketed");
    assert!((root.0 - 2f64.sqrt()).abs() <= 1e-7);
}

#[test]
fn no_bracketing_when_both_endpoints_share_a_sign() {
    // f(x) = x - 5 is negative on all of [0, 2].
    let polynom = [Fl(-5f64)];
    let begin = Sample { x: Fl(0f64), y: value(&polynom, &Fl(0f64)) };
    let end = Sample { x: Fl(2f64), y: value(&polynom, &Fl(2f64)) };
    let mut interval = Interval { begin, end };
    let mut convergency = SimpleConvergency { eps: Fl(1e-9f64), max_iter: 50 };
    let result = find_root(&polynom, &mut interval, &mut convergency);
    assert_eq!(result, Err(SearchError::NoBracketing));
    // The failed search left the interval untouched.
    assert_eq!(interval, Interval { begin, end });
}

#[test]
fn converged_interval_returns_its_midpoint_immediately() {
    let polynom = [Fl(0f64)];
    let begin = Sample { x: Fl(1f64), y: Fl(-0.5f64) };
    let end = Sample { x: Fl(1f64 + 1e-12f64), y: Fl(0.5f64) };
    let mut interval = Interval { begin, end };
    let mut convergency = SimpleConvergency { eps: Fl(1e-6f64), max_iter: 50 };
    let expected_midpoint = (begin.x.0 + end.x.0) / 2f64;
    let first = find_root(&polynom, &mut interval, &mut convergency).expect("bracketed");
    assert_eq!(first.0, expected_midpoint);
    assert_eq!(interval, Interval { begin, end });
    // Re-running the search on the already converged interval is idempotent.
    let second = find_root(&polynom, &mut interval, &mut convergency).expect("bracketed");
    assert_eq!(second, first);
    assert_eq!(interval, Interval { begin, end });
}

#[test]
fn endpoint_roots_are_returned_begin_before_end() {
    let polynom = [Fl(0f64)];
    let mut interval = Interval {
        begin: Sample { x: Fl(3f64), y: Fl(0f64) },
        end: Sample { x: Fl(4f64), y: Fl(0f64) },
    };
    let mut convergency = SimpleConvergency { eps: Fl(1e-9f64), max_iter: 50 };
    let root = find_root(&polynom, &mut interval, &mut convergency).expect("bracketed");
    assert_eq!(root, Fl(3f64));
}

#[test]
fn no_convergency_when_the_budget_is_exhausted() {
    let polynom = [Fl(0f64), Fl(-2f64)];
    let mut interval = Interval {
        begin: Sample { x: Fl(0f64), y: value(&polynom, &Fl(0f64)) },
        end: Sample { x: Fl(2f64), y: value(&polynom, &Fl(2f64)) },
    };
    let mut convergency = SimpleConvergency { eps: Fl(1e-15f64), max_iter: 2 };
    let result = find_root(&polynom, &mut interval, &mut convergency);
    assert_eq!(result, Err(SearchError::NoConvergency));
}

#[test]
fn roots_constructors_hand_roots_out_in_order() {
    let mut empty = Roots::<Fl>::zero();
    assert_eq!(empty.next(), None);
    let mut two = Roots::two(Fl(1f64), Fl(2f64));
    assert_eq!(two.next(), Some(Fl(1f64)));
    assert_eq!(two.next(), Some(Fl(2f64)));
    assert_eq!(two.next(), None);
    assert_eq!(two.next(), None);
    let four = Roots::four(Fl(1f64), Fl(2f64), Fl(3f64), Fl(4f64));
    assert_eq!(drain(four), vec![1f64, 2f64, 3f64, 4f64]);
    let three = Roots::three(Fl(-1f64), Fl(0f64), Fl(1f64));
    assert_eq!(drain(three), vec![-1f64, 0f64, 1f64]);
    let one = Roots::one(Fl(9f64));
    assert_eq!(drain(one), vec![9f64]);
}

#[test]
fn add_new_root_leaves_the_container_unchanged() {
    let mut roots = Roots::one(Fl(3f64));
    let before = roots;
    roots.add_new_root(Fl(7f64));
    assert_eq!(roots, before);
}

#[test]
fn quadratic_with_zero_leading_coefficient_degenerates_to_linear() {
    assert_eq!(
        find_roots_quadratic(Fl(0f64), Fl(2f64), Fl(-4f64)),
        find_roots_linear(Fl(2f64), Fl(-4f64))
    );
}

#[test]
fn cubic_with_zero_leading_coefficient_degenerates_to_quadratic() {
    assert_eq!(
        find_roots_cubic(Fl(0f64), Fl(1f64), Fl(-5f64), Fl(6f64)),
        find_roots_quadratic(Fl(1f64), Fl(-5f64), Fl(6f64))
    );
}

#[test]
fn quartic_with_zero_leading_coefficient_degenerates_to_cubic() {
    assert_eq!(
        find_roots_quartic(Fl(0f64), Fl(1f64), Fl(0f64), Fl(-7f64), Fl(6f64)),
        find_roots_cubic(Fl(1f64), Fl(0f64), Fl(-7f64), Fl(6f64))
    );
}

#[test]
fn cubic_without_linear_and_quadratic_terms_takes_a_cubic_root() {
    // x^3 + 8 = 0 has the single real root -2.
    let roots = drain(find_roots_cubic(Fl(1f64), Fl(0f64), Fl(0f64), Fl(8f64)));
    assert_eq!(roots, vec![-2f64]);
}

#[test]
fn cubic_with_a_double_root() {
    // x^3 - 3*x + 2 = (x - 1)^2 * (x + 2): roots -2 and 1.
    let roots = sorted(drain(find_roots_cubic(Fl(1f64), Fl(0f64), Fl(-3f64), Fl(2f64))));
    let expected = [-2f64, 1f64];
    assert_eq!(roots.len(), expected.len());
    for (given, want) in roots.iter().zip(expected.iter()) {
        assert!((given - want).abs() <= 1e-9);
    }
}

#[test]
fn cubic_with_one_real_root() {
    // x^3 + x - 2 = (x - 1) * (x^2 + x + 2): the only real root is 1.
    let roots = drain(find_roots_cubic(Fl(1f64), Fl(0f64), Fl(1f64), Fl(-2f64)));
    assert_eq!(roots.len(), 1);
    assert!((roots[0] - 1f64).abs() <= 1e-9);
}

#[test]
fn biquadratic_with_a_zero_root() {
    // x^4 - x^2 = 0: roots 0, -1 and 1.
    let roots = sorted(drain(find_roots_biquadratic(Fl(1f64), Fl(-1f64), Fl(0f64))));
    assert_eq!(roots, vec![-1f64, 0f64, 1f64]);
}

#[test]
fn derivative_of_short_polynoms_is_empty() {
    let empty: [Fl; 0] = [];
    assert_eq!(derivative_polynom(&empty), Vec::<Fl>::new());
    // x + 5 differentiates to the constant polynomial 1: no coefficients left.
    assert_eq!(derivative_polynom(&[Fl(5f64)]), Vec::<Fl>::new());
}

#[test]
fn derived_constants_match_their_definitions() {
    assert_eq!(Fl::five(), Fl(5f64));
    assert_eq!(Fl::nine(), Fl(9f64));
    assert_eq!(Fl::twenty_seven(), Fl(27f64));
}

#[test]
fn sturm_yields_no_result_for_degree_seven() {
    let seven = [
        Fl(4f64),
        Fl(0f64),
        Fl(-4f64),
        Fl(2f64),
        Fl(1f64),
        Fl(6f64),
        Fl(-3f64),
    ];
    assert_eq!(find_roots_sturm(&seven), None);
}
