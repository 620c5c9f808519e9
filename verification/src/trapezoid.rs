//! Composite trapezoid integration with iterative halving of the step
//! size. Each refinement doubles the subdivision count, reusing every
//! previous sample, and stops once the Richardson error estimate
//! `(new - old) / 3` falls below the requested tolerance or the
//! subdivision ceiling is reached.

use vstd::prelude::*;

use vstd::arithmetic::power2::pow2;
use vstd::math::max;
use vstd::math::min;

use crate::grid::base_level;
use crate::grid::refine;
use crate::grid::trap_estimate;
use crate::integrand::bounded_on;
use crate::integrand::Integrand;
use crate::num::lemma_pow2_double;
use crate::num::lemma_pow2_mono;
use crate::num::mag;
use crate::num::tdiv;
use crate::num::tdiv64;
use crate::CEILING_LIMIT;
use crate::COORD_LIMIT;
use crate::EST_LIMIT;
use crate::IntegrationResult;
use crate::MAX_SUBDIVISIONS;
use crate::VALUE_LIMIT;

verus! {

/// The Richardson error estimate that ends refinement level `l` (for
/// `l >= 1`): a third of the change between the estimates with `2^(l-1)`
/// and `2^l` subdivisions, rounded toward zero.
pub open spec fn level_err<F: Integrand>(f: &F, x0: int, x1: int, l: nat) -> int {
    tdiv(
        trap_estimate(f, x0, x1, pow2(l) as int) - trap_estimate(
            f,
            x0,
            x1,
            pow2((l - 1) as nat) as int,
        ),
        3,
    )
}

/// Everything `trapezoid_integrate_ceiling` promises of its result: the
/// value is exactly the composite trapezoid estimate at the final level,
/// the final level is the first whose error estimate fell below `eps`
/// (unless the ceiling cut refinement short), and the convergence flag
/// reports which of the two happened.
pub open spec fn trap_post<F: Integrand>(
    f: &F,
    ceiling: u64,
    eps: i64,
    x0: i64,
    x1: i64,
    r: IntegrationResult,
) -> bool {
    let l = r.level@;
    &&& 1 <= l
    &&& r.subs == pow2(l)
    &&& r.value == trap_estimate(f, x0 as int, x1 as int, pow2(l) as int)
    &&& forall|k: nat|
        1 <= k < l ==> mag(#[trigger] level_err(f, x0 as int, x1 as int, k)) >= eps
    &&& forall|k: nat| 1 <= k < l ==> #[trigger] pow2(k) < ceiling
    &&& r.converged == (mag(level_err(f, x0 as int, x1 as int, l)) < eps)
    &&& (r.converged || r.subs >= ceiling)
}

/// Composite trapezoid integration of `f` over `[x0, x1]` to tolerance
/// `eps`, refining by halving until the error estimate drops below `eps`
/// or the subdivision count reaches `ceiling`. Returns the final
/// subdivision count (a power of two) and the plain (uncorrected)
/// composite estimate at that count.
///
/// The error estimate assumes a second-order method, which holds only of
/// integrands smooth on the interval; on others it may stop early or
/// late, and the ceiling is the sole safeguard against non-convergence.
pub fn trapezoid_integrate_ceiling<F: Integrand>(
    ceiling: u64,
    eps: i64,
    f: &F,
    x0: i64,
    x1: i64,
) -> (r: IntegrationResult)
    requires
        1 <= ceiling <= CEILING_LIMIT,
        1 <= eps,
        x0 != x1,
        -COORD_LIMIT <= x0 <= COORD_LIMIT,
        -COORD_LIMIT <= x1 <= COORD_LIMIT,
        bounded_on(f, min(x0 as int, x1 as int), max(x0 as int, x1 as int), VALUE_LIMIT as int),
    ensures
        trap_post(f, ceiling, eps, x0, x1, r),
{
    let ghost xi0: int = x0 as int;
    let ghost xi1: int = x1 as int;
    let (total0, t0) = base_level(f, x0, x1);
    let mut total: i128 = total0;
    let mut t: i64 = t0;
    let mut subs: u64 = 1;
    let ghost mut lvl: nat = 0;
    proof {
        vstd::arithmetic::power2::lemma2_to64();
    }
    loop
        invariant
            1 <= subs <= ceiling,
            subs == pow2(lvl),
            1 <= ceiling <= CEILING_LIMIT,
            1 <= eps,
            -COORD_LIMIT <= x0 <= COORD_LIMIT,
            -COORD_LIMIT <= x1 <= COORD_LIMIT,
            bounded_on(
                f,
                min(x0 as int, x1 as int),
                max(x0 as int, x1 as int),
                VALUE_LIMIT as int,
            ),
            total == crate::grid::trap_total(f, xi0, xi1, subs as int),
            t == trap_estimate(f, xi0, xi1, subs as int),
            mag(t as int) <= EST_LIMIT,
            forall|k: nat| 1 <= k <= lvl ==> mag(#[trigger] level_err(f, xi0, xi1, k)) >= eps,
            forall|k: nat| 1 <= k <= lvl ==> #[trigger] pow2(k) < ceiling,
            xi0 == x0 as int,
            xi1 == x1 as int,
        decreases ceiling - subs,
    {
        let (total2, t2) = refine(f, x0, x1, subs, total);
        let e: i64 = tdiv64(t2 - t, 3);
        proof {
            lemma_pow2_double(lvl);
        }
        subs = 2 * subs;
        total = total2;
        t = t2;
        proof {
            lvl = lvl + 1;
            assert(e == level_err(f, xi0, xi1, lvl));
        }
        if -eps < e && e < eps {
            return IntegrationResult { subs, value: t, converged: true, level: Ghost(lvl) };
        }
        if subs >= ceiling {
            return IntegrationResult { subs, value: t, converged: false, level: Ghost(lvl) };
        }
    }
}

/// `trapezoid_integrate_ceiling` with the default subdivision ceiling.
pub fn trapezoid_integrate<F: Integrand>(eps: i64, f: &F, x0: i64, x1: i64) -> (r:
    IntegrationResult)
    requires
        1 <= eps,
        x0 != x1,
        -COORD_LIMIT <= x0 <= COORD_LIMIT,
        -COORD_LIMIT <= x1 <= COORD_LIMIT,
        bounded_on(f, min(x0 as int, x1 as int), max(x0 as int, x1 as int), VALUE_LIMIT as int),
    ensures
        trap_post(f, MAX_SUBDIVISIONS, eps, x0, x1, r),
{
    trapezoid_integrate_ceiling(MAX_SUBDIVISIONS, eps, f, x0, x1)
}

/// Running an integration twice with identical inputs yields identical
/// outputs: the contract `trap_post` determines the result in full, so no
/// hidden state can influence it.
pub proof fn lemma_trapezoid_deterministic<F: Integrand>(
    f: &F,
    ceiling: u64,
    eps: i64,
    x0: i64,
    x1: i64,
    r1: IntegrationResult,
    r2: IntegrationResult,
)
    requires
        trap_post(f, ceiling, eps, x0, x1, r1),
        trap_post(f, ceiling, eps, x0, x1, r2),
    ensures
        r1.subs == r2.subs,
        r1.value == r2.value,
        r1.converged == r2.converged,
        r1.level@ == r2.level@,
{
    let l1 = r1.level@;
    let l2 = r2.level@;
    if l1 < l2 {
        assert(mag(level_err(f, x0 as int, x1 as int, l1)) >= eps);
        assert(pow2(l1) < ceiling);
        assert(false);
    }
    if l2 < l1 {
        assert(mag(level_err(f, x0 as int, x1 as int, l2)) >= eps);
        assert(pow2(l2) < ceiling);
        assert(false);
    }
}

/// With a power-of-two ceiling -- the default `MAX_SUBDIVISIONS` is
/// `2^16` -- refinement never oversteps it: at most `c` doublings are
/// performed and the returned subdivision count stays at or under the
/// ceiling, whether or not the tolerance was met.
pub proof fn lemma_trapezoid_subs_bounded<F: Integrand>(
    f: &F,
    ceiling: u64,
    eps: i64,
    x0: i64,
    x1: i64,
    r: IntegrationResult,
    c: nat,
)
    requires
        trap_post(f, ceiling, eps, x0, x1, r),
        ceiling == pow2(c),
        1 <= c,
    ensures
        r.subs <= ceiling,
        r.level@ <= c,
{
    let l = r.level@;
    if l == 1 {
        lemma_pow2_mono(1, c);
    } else {
        assert(pow2((l - 1) as nat) < ceiling);
        if l > c {
            lemma_pow2_mono(c, (l - 1) as nat);
            assert(false);
        }
        lemma_pow2_mono(l, c);
    }
}

} // verus!
