//! Real roots of single-variable scalar equations `f(x) = 0`.
//!
//! The crate offers closed-form solvers for polynomials up to degree four, a
//! degree dispatcher that routes a normalized coefficient sequence to the
//! right solver, and a bracketed hybrid Newton-Raphson/bisection search whose
//! termination decisions are delegated to a caller-supplied convergence
//! policy. Everything is generic over [`FloatType`], the numeric abstraction
//! that callers instantiate with their number representation.

pub mod analytical;
pub mod float;
pub mod numerical;

pub use crate::float::FloatType;

pub use crate::analytical::biquadratic::find_roots_biquadratic;
pub use crate::analytical::cubic::find_roots_cubic;
pub use crate::analytical::cubic_depressed::find_roots_cubic_depressed;
pub use crate::analytical::cubic_normalized::find_roots_cubic_normalized;
pub use crate::analytical::linear::find_roots_linear;
pub use crate::analytical::quadratic::find_roots_quadratic;
pub use crate::analytical::quartic::find_roots_quartic;
pub use crate::analytical::quartic_depressed::find_roots_quartic_depressed;
pub use crate::analytical::roots::Roots;

pub use crate::numerical::Convergency;
pub use crate::numerical::Interval;
pub use crate::numerical::Sample;
pub use crate::numerical::SearchError;
pub use crate::numerical::SimpleConvergency;
pub use crate::numerical::polynom::ValueAndDerivative;
pub use crate::numerical::polynom::find_root;
pub use crate::numerical::polynom::find_roots_sturm;
pub use crate::numerical::polynom::value;
pub use crate::numerical::polynom::derivative_polynom;
pub use crate::numerical::polynom::value_and_derivative;
