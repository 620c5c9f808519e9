//! Numerical integration of a scalar function over a finite interval.
//!
//! Three independent strategies are offered: adaptive composite-trapezoid
//! refinement, Romberg extrapolation built on the same refinement, and
//! fixed-order Gauss-Legendre quadrature driven by a precomputed table of
//! nodes and weights.
//!
//! All coordinates and function values are fixed-point numbers: an `i64`
//! counts units of `1 / SCALE`. Every division in the algorithms rounds
//! toward zero, and each public function states the value it returns as an
//! exact function of the integrand's model, so results are reproducible
//! bit for bit.

use vstd::prelude::*;

pub mod gauss;
pub mod grid;
pub mod integrand;
pub mod num;
pub mod romberg;
pub mod table;
pub mod trapezoid;

verus! {

/// Fixed-point scale: a coordinate or value `v: i64` stands for the real
/// number `v / SCALE`.
pub const SCALE: i64 = 1048576;

/// Largest coordinate magnitude the integrators accept (2^31 scaled units,
/// about 2048 in real terms). Together with `VALUE_LIMIT` and
/// `CEILING_LIMIT` this keeps every intermediate sum inside `i128` and
/// every stored estimate inside `i64`.
pub const COORD_LIMIT: i64 = 0x8000_0000;

/// Largest integrand-value magnitude the integrators accept over the
/// interval being integrated.
pub const VALUE_LIMIT: i64 = 0x8000_0000;

/// Default ceiling on the subdivision count of the iterative integrators.
/// Refinement that has not met its tolerance by the time the subdivision
/// count reaches this bound stops there and reports `converged == false`.
pub const MAX_SUBDIVISIONS: u64 = 65536;

/// Largest ceiling a caller may request.
pub const CEILING_LIMIT: u64 = 131072;

/// Every estimate an integrator stores fits well under this bound
/// (interval length times value bound, divided by the scale); the Romberg
/// extrapolation rows then stay within `EST_LIMIT * 2^column`, inside
/// `i64`.
pub const EST_LIMIT: i64 = 0x800_0000_0000;

/// Requested Gauss-Legendre order has no precomputed rule.
#[derive(Clone, Copy, Debug, PartialEq, Eq, Structural)]
pub enum QuadError {
    UnsupportedOrder,
}

/// What an iterative integrator returns: a cost metric together with the
/// estimate it settled on. Non-convergence is not an error: when the
/// subdivision ceiling is hit first, the best estimate so far is returned
/// with `converged == false`.
#[derive(Clone, Copy)]
pub struct IntegrationResult {
    /// Final subdivision count; always a power of two.
    pub subs: u64,
    /// The integral estimate at that subdivision count.
    pub value: i64,
    /// Whether the error estimate fell below the tolerance, rather than
    /// the ceiling forcing termination.
    pub converged: bool,
    /// Refinement level: `subs == 2^level`.
    pub level: Ghost<nat>,
}

} // verus!
