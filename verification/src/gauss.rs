//! Fixed-order Gauss-Legendre quadrature: the interval is mapped affinely
//! onto the canonical domain [-1, 1], the integrand is evaluated at the
//! precomputed nodes, and the weighted sum is scaled by the half-length
//! (the exact Jacobian of the affine map). No iteration and no error
//! estimate: the caller picks the order and with it the cost.

use vstd::prelude::*;

use vstd::math::max;
use vstd::math::min;

use crate::integrand::bounded_on;
use crate::integrand::Integrand;
use crate::num::lemma_tdiv_mag;
use crate::num::mag;
use crate::num::tdiv;
use crate::num::tdiv64;
use crate::num::tdiv128;
use crate::table::node_seq;
use crate::table::rule;
use crate::table::weight_seq;
use crate::table::MAX_ORDER;
use crate::table::MIN_ORDER;
use crate::COORD_LIMIT;
use crate::QuadError;
use crate::SCALE;
use crate::VALUE_LIMIT;

verus! {

/// The coordinate a canonical node maps to: `mid + half * node`, with the
/// scaling division rounded toward zero.
pub open spec fn gauss_point(mid: int, half: int, node: int) -> int {
    mid + tdiv(half * node, SCALE as int)
}

/// The weighted sum of the integrand over the first `k` mapped nodes.
pub open spec fn weighted_sum<F: Integrand>(
    f: &F,
    nodes: Seq<i64>,
    weights: Seq<i64>,
    mid: int,
    half: int,
    k: int,
) -> int
    decreases k,
{
    if k <= 0 {
        0
    } else {
        weighted_sum(f, nodes, weights, mid, half, k - 1) + weights[k - 1] * f.model(
            gauss_point(mid, half, nodes[k - 1] as int),
        )
    }
}

/// What Gauss-Legendre integration returns for a given rule: the full
/// weighted sum times the half-length, scaled back to fixed point.
pub open spec fn gauss_value<F: Integrand>(
    f: &F,
    nodes: Seq<i64>,
    weights: Seq<i64>,
    x0: int,
    x1: int,
) -> int {
    let half = tdiv(x1 - x0, 2);
    let mid = tdiv(x1 + x0, 2);
    tdiv(
        half * weighted_sum(f, nodes, weights, mid, half, nodes.len() as int),
        (SCALE as int) * (SCALE as int),
    )
}

/// Everything `integrate` promises of its result: orders with a table
/// entry give exactly the scaled weighted sum over that order's rule;
/// orders without one are refused.
pub open spec fn gauss_post<F: Integrand>(
    f: &F,
    n: usize,
    x0: i64,
    x1: i64,
    r: Result<i64, QuadError>,
) -> bool {
    &&& r is Ok <==> MIN_ORDER <= n <= MAX_ORDER
    &&& (r matches Ok(v) ==> v == gauss_value(
        f,
        node_seq(n as int),
        weight_seq(n as int),
        x0 as int,
        x1 as int,
    ))
}

/// Running a Gauss-Legendre integration twice with identical inputs
/// yields identical outputs: the contract `gauss_post` determines the
/// result in full, so no hidden state can influence it.
pub proof fn lemma_gauss_deterministic<F: Integrand>(
    f: &F,
    n: usize,
    x0: i64,
    x1: i64,
    r1: Result<i64, QuadError>,
    r2: Result<i64, QuadError>,
)
    requires
        gauss_post(f, n, x0, x1, r1),
        gauss_post(f, n, x0, x1, r2),
    ensures
        r1 == r2,
{
    if !(MIN_ORDER <= n <= MAX_ORDER) {
        assert(r1 matches Err(e) && e == QuadError::UnsupportedOrder);
        assert(r2 matches Err(e) && e == QuadError::UnsupportedOrder);
    }
}

/// The rounded midpoint, shifted by up to the rounded half-length either
/// way, stays inside the interval.
proof fn lemma_affine_range(x0: int, x1: int)
    ensures
        min(x0, x1) <= tdiv(x1 + x0, 2) - mag(tdiv(x1 - x0, 2)),
        tdiv(x1 + x0, 2) + mag(tdiv(x1 - x0, 2)) <= max(x0, x1),
{
}

/// Gauss-Legendre integration of `f` over `[x0, x1]` with the
/// precomputed rule of order `n`; `UnsupportedOrder` if there is none.
pub fn integrate<F: Integrand>(n: usize, f: &F, x0: i64, x1: i64) -> (r: Result<i64, QuadError>)
    requires
        x0 != x1,
        -COORD_LIMIT <= x0 <= COORD_LIMIT,
        -COORD_LIMIT <= x1 <= COORD_LIMIT,
        bounded_on(f, min(x0 as int, x1 as int), max(x0 as int, x1 as int), VALUE_LIMIT as int),
    ensures
        gauss_post(f, n, x0, x1, r),
{
    let ghost xi0: int = x0 as int;
    let ghost xi1: int = x1 as int;
    let q = match rule(n) {
        Ok(q) => q,
        Err(e) => {
            return Err(e);
        },
    };
    let half: i64 = tdiv64(x1 - x0, 2);
    let mid: i64 = tdiv64(x1 + x0, 2);
    proof {
        lemma_affine_range(xi0, xi1);
        lemma_tdiv_mag(xi1 - xi0, 2);
        lemma_tdiv_mag(xi1 + xi0, 2);
    }
    let mut acc: i128 = 0;
    let mut i: usize = 0;
    let kmax: usize = q.nodes.len();
    while i < kmax
        invariant
            0 <= i <= kmax,
            kmax == q.nodes@.len(),
            kmax <= 12,
            q.wf(),
            q.nodes@ == node_seq(n as int),
            q.weights@ == weight_seq(n as int),
            half == tdiv(xi1 - xi0, 2),
            mid == tdiv(xi1 + xi0, 2),
            mag(half as int) <= 0x1_0000_0000,
            min(xi0, xi1) <= mid - mag(half as int),
            mid + mag(half as int) <= max(xi0, xi1),
            acc == weighted_sum(f, q.nodes@, q.weights@, mid as int, half as int, i as int),
            -((i as int) * 0x10_0000_0000_0000) <= acc <= (i as int) * 0x10_0000_0000_0000,
            -COORD_LIMIT <= x0 <= COORD_LIMIT,
            -COORD_LIMIT <= x1 <= COORD_LIMIT,
            bounded_on(
                f,
                min(x0 as int, x1 as int),
                max(x0 as int, x1 as int),
                VALUE_LIMIT as int,
            ),
            xi0 == x0 as int,
            xi1 == x1 as int,
        decreases kmax - i,
    {
        let node: i64 = q.nodes[i];
        let w: i64 = q.weights[i];
        proof {
            assert(-(0x1_0000_0000 * (SCALE as int)) <= (half as int) * (node as int)
                <= 0x1_0000_0000 * (SCALE as int)) by (nonlinear_arith)
                requires
                    -0x1_0000_0000 <= half as int <= 0x1_0000_0000,
                    -SCALE <= node as int <= SCALE,
                    SCALE == 0x10_0000,
            ;
        }
        let hn: i64 = half * node;
        let off: i64 = tdiv64(hn, SCALE);
        proof {
            lemma_tdiv_mag(hn as int, SCALE as int);
            assert((half as int) * (node as int) <= mag(half as int) * (SCALE as int)
                && -(mag(half as int) * (SCALE as int)) <= (half as int) * (node as int))
                by (nonlinear_arith)
                requires
                    -SCALE <= node as int <= SCALE,
                    mag(half as int) == if half >= 0 { half as int } else { -(half as int) },
                    SCALE > 0,
            ;
            assert(mag(off as int) <= mag(half as int)) by (nonlinear_arith)
                requires
                    (SCALE as int) * mag(off as int) <= mag((half as int) * (node as int)),
                    mag((half as int) * (node as int)) <= mag(half as int) * (SCALE as int),
                    SCALE > 0,
                    0 <= mag(off as int),
            ;
        }
        let p: i64 = mid + off;
        let v: i64 = f.eval(p);
        proof {
            assert(-VALUE_LIMIT <= f.model(p as int) <= VALUE_LIMIT);
            assert(-0x10_0000_0000_0000 <= (w as int) * (v as int) <= 0x10_0000_0000_0000)
                by (nonlinear_arith)
                requires
                    0 < w as int <= 2 * 0x10_0000,
                    -0x8000_0000 <= v as int <= 0x8000_0000,
            ;
            assert(weighted_sum(f, q.nodes@, q.weights@, mid as int, half as int, i + 1)
                == weighted_sum(f, q.nodes@, q.weights@, mid as int, half as int, i as int)
                + q.weights@[i as int] * f.model(gauss_point(mid as int, half as int, q.nodes@[i as int] as int)));
        }
        acc = acc + (w as i128) * (v as i128);
        i = i + 1;
    }
    proof {
        assert(-(0x1_0000_0000 * 0xC0_0000_0000_0000) <= (half as int) * (acc as int)
            <= 0x1_0000_0000 * 0xC0_0000_0000_0000) by (nonlinear_arith)
            requires
                -0x1_0000_0000 <= half as int <= 0x1_0000_0000,
                -0xC0_0000_0000_0000 <= acc as int <= 0xC0_0000_0000_0000,
        ;
    }
    let prod: i128 = (half as i128) * acc;
    let s2: i128 = 0x100_0000_0000;
    let v128: i128 = tdiv128(prod, s2);
    proof {
        lemma_tdiv_mag(prod as int, s2 as int);
    }
    Ok(v128 as i64)
}

} // verus!
