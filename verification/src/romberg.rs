//! Romberg integration: repeated Richardson extrapolation over the same
//! halving refinement as the trapezoid integrator. Row `i` of the
//! triangular table starts from the composite trapezoid estimate with
//! `2^(i-1)` subdivisions; each further column cancels one more order of
//! the error expansion. Only the previous row is kept, so working storage
//! stays linear in the depth.

use vstd::prelude::*;

use vstd::arithmetic::power2::pow2;
use vstd::math::max;
use vstd::math::min;

use crate::grid::base_level;
use crate::grid::refine;
use crate::grid::trap_estimate;
use crate::grid::trap_total;
use crate::integrand::bounded_on;
use crate::integrand::Integrand;
use crate::num::lemma_pow2_double;
use crate::num::lemma_pow2_mono;
use crate::num::lemma_tdiv_mag;
use crate::num::mag;
use crate::num::tdiv;
use crate::num::tdiv64;
use crate::CEILING_LIMIT;
use crate::COORD_LIMIT;
use crate::EST_LIMIT;
use crate::IntegrationResult;
use crate::MAX_SUBDIVISIONS;
use crate::VALUE_LIMIT;

verus! {

/// Entry `(i, m)` of the Romberg table, `1 <= m <= i`. Column 1 is the
/// composite trapezoid estimate with `2^(i-1)` subdivisions; column `m+1`
/// adds a third scaled difference of column `m`:
/// `R(i, m+1) = R(i, m) + (R(i, m) - R(i-1, m)) / (4^m - 1)`,
/// the division rounding toward zero.
pub open spec fn romberg_entry<F: Integrand>(f: &F, x0: int, x1: int, i: int, m: int) -> int
    decreases m,
{
    if m <= 1 {
        trap_estimate(f, x0, x1, pow2((i - 1) as nat) as int)
    } else {
        let cur = romberg_entry(f, x0, x1, i, m - 1);
        let up = romberg_entry(f, x0, x1, i - 1, m - 1);
        cur + tdiv(cur - up, pow2((2 * (m - 1)) as nat) as int - 1)
    }
}

/// The increment that extrapolation of column `m` in row `i` adds:
/// `(R(i, m) - R(i-1, m)) / (4^m - 1)`, rounded toward zero.
pub open spec fn col_err<F: Integrand>(f: &F, x0: int, x1: int, i: int, m: int) -> int {
    tdiv(
        romberg_entry(f, x0, x1, i, m) - romberg_entry(f, x0, x1, i - 1, m),
        pow2((2 * m) as nat) as int - 1,
    )
}

/// The stopping estimate of row `i` (for `i >= 2`): the increment of the
/// row's last extrapolation.
pub open spec fn romberg_err<F: Integrand>(f: &F, x0: int, x1: int, i: int) -> int {
    col_err(f, x0, x1, i, i - 1)
}

/// Everything `romberg_integrate_ceiling` promises of its result: the
/// value is exactly the last (highest-order) entry of the final row, the
/// final row is the first whose stopping estimate fell below `eps` (unless
/// the ceiling cut refinement short), and the convergence flag reports
/// which of the two happened. `r.level@ + 1` is the number of rows.
pub open spec fn romberg_post<F: Integrand>(
    f: &F,
    ceiling: u64,
    eps: i64,
    x0: i64,
    x1: i64,
    r: IntegrationResult,
) -> bool {
    let l = r.level@;
    &&& 1 <= l
    &&& r.subs == pow2(l)
    &&& r.value == romberg_entry(f, x0 as int, x1 as int, l + 1 as int, l + 1 as int)
    &&& forall|i: int|
        2 <= i <= l ==> mag(#[trigger] romberg_err(f, x0 as int, x1 as int, i)) >= eps
    &&& forall|i: int| 2 <= i <= l ==> #[trigger] pow2((i - 1) as nat) < ceiling
    &&& r.converged == (mag(romberg_err(f, x0 as int, x1 as int, l + 1 as int)) < eps)
    &&& (r.converged || r.subs >= ceiling)
}

/// Romberg integration of `f` over `[x0, x1]` to tolerance `eps`,
/// deepening the table until the last extrapolation increment drops below
/// `eps` or the subdivision count reaches `ceiling`. Returns the final
/// subdivision count (a power of two) and the last entry of the final
/// row.
///
/// The stopping estimate assumes the error expansion in even powers of
/// the step, which holds only of integrands smooth on the interval; on
/// others it may stop early or late, and the ceiling is the sole
/// safeguard against non-convergence.
pub fn romberg_integrate_ceiling<F: Integrand>(
    ceiling: u64,
    eps: i64,
    f: &F,
    x0: i64,
    x1: i64,
) -> (r: IntegrationResult)
    requires
        1 <= ceiling <= CEILING_LIMIT,
        1 <= eps,
        x0 != x1,
        -COORD_LIMIT <= x0 <= COORD_LIMIT,
        -COORD_LIMIT <= x1 <= COORD_LIMIT,
        bounded_on(f, min(x0 as int, x1 as int), max(x0 as int, x1 as int), VALUE_LIMIT as int),
    ensures
        romberg_post(f, ceiling, eps, x0, x1, r),
{
    let ghost xi0: int = x0 as int;
    let ghost xi1: int = x1 as int;
    let (total0, t0) = base_level(f, x0, x1);
    let mut total: i128 = total0;
    let mut prev: Vec<i64> = Vec::new();
    prev.push(t0);
    let mut subs: u64 = 1;
    let ghost mut depth: nat = 1;
    proof {
        vstd::arithmetic::power2::lemma2_to64();
        assert(romberg_entry(f, xi0, xi1, 1, 1) == trap_estimate(f, xi0, xi1, 1));
    }
    loop
        invariant
            1 <= subs <= ceiling,
            1 <= depth <= 18,
            subs == pow2((depth - 1) as nat),
            prev.len() == depth,
            1 <= ceiling <= CEILING_LIMIT,
            1 <= eps,
            -COORD_LIMIT <= x0 <= COORD_LIMIT,
            -COORD_LIMIT <= x1 <= COORD_LIMIT,
            bounded_on(
                f,
                min(x0 as int, x1 as int),
                max(x0 as int, x1 as int),
                VALUE_LIMIT as int,
            ),
            total == trap_total(f, xi0, xi1, subs as int),
            forall|jj: int|
                0 <= jj < prev.len() ==> #[trigger] prev[jj] == romberg_entry(
                    f,
                    xi0,
                    xi1,
                    depth as int,
                    jj + 1,
                ) && mag(prev[jj] as int) <= (EST_LIMIT as int) * pow2(jj as nat),
            forall|i: int| 2 <= i <= depth ==> mag(#[trigger] romberg_err(f, xi0, xi1, i)) >= eps,
            forall|i: int| 2 <= i <= depth ==> #[trigger] pow2((i - 1) as nat) < ceiling,
            xi0 == x0 as int,
            xi1 == x1 as int,
        decreases ceiling - subs,
    {
        let ghost dd1: int = depth as int + 1;
        let (total2, t2) = refine(f, x0, x1, subs, total);
        let mut cur: Vec<i64> = Vec::new();
        cur.push(t2);
        proof {
            lemma_pow2_double((depth - 1) as nat);
            assert(romberg_entry(f, xi0, xi1, dd1, 1) == trap_estimate(
                f,
                xi0,
                xi1,
                pow2((dd1 - 1) as nat) as int,
            ));
            vstd::arithmetic::power2::lemma2_to64();
        }
        let mut q: i64 = 1;
        let mut err: i64 = 0;
        let mut mm: usize = 0;
        while mm < prev.len()
            invariant
                0 <= mm <= prev.len(),
                prev.len() == depth,
                1 <= depth <= 18,
                dd1 == depth as int + 1,
                cur.len() == mm + 1,
                q == pow2((2 * mm) as nat),
                forall|jj: int|
                    0 <= jj < prev.len() ==> #[trigger] prev[jj] == romberg_entry(
                        f,
                        xi0,
                        xi1,
                        depth as int,
                        jj + 1,
                    ) && mag(prev[jj] as int) <= (EST_LIMIT as int) * pow2(jj as nat),
                forall|jj: int|
                    0 <= jj < cur.len() ==> #[trigger] cur[jj] == romberg_entry(
                        f,
                        xi0,
                        xi1,
                        dd1,
                        jj + 1,
                    ) && mag(cur[jj] as int) <= (EST_LIMIT as int) * pow2(jj as nat),
                mm >= 1 ==> err == col_err(f, xi0, xi1, dd1, mm as int),
            decreases prev.len() - mm,
        {
            let pre: i64 = cur[mm];
            let up: i64 = prev[mm];
            proof {
                lemma_pow2_mono((2 * mm) as nat, 34);
                vstd::arithmetic::power2::lemma2_to64();
                vstd::arithmetic::power2::lemma2_to64_rest();
                vstd::arithmetic::power2::lemma_pow2_pos((2 * mm) as nat);
                vstd::arithmetic::power2::lemma_pow2_adds((2 * mm) as nat, 2);
                lemma_pow2_mono(mm as nat, 17);
                assert((EST_LIMIT as int) * pow2(mm as nat) <= (EST_LIMIT as int) * pow2(17))
                    by (nonlinear_arith)
                    requires
                        pow2(mm as nat) <= pow2(17),
                        0 < EST_LIMIT,
                ;
            }
            q = 4 * q;
            let e: i64 = tdiv64(pre - up, q - 1);
            proof {
                let ghost b: int = (EST_LIMIT as int) * pow2(mm as nat);
                lemma_tdiv_mag((pre - up) as int, (q - 1) as int);
                vstd::arithmetic::mul::lemma_mul_inequality(
                    3,
                    q - 1,
                    mag(tdiv((pre - up) as int, (q - 1) as int)),
                );
                assert(3 * mag(e as int) <= 2 * b);
                lemma_pow2_double(mm as nat);
                assert(romberg_entry(f, xi0, xi1, dd1, mm + 2) == romberg_entry(
                    f,
                    xi0,
                    xi1,
                    dd1,
                    mm + 1,
                ) + tdiv(
                    romberg_entry(f, xi0, xi1, dd1, mm + 1) - romberg_entry(
                        f,
                        xi0,
                        xi1,
                        dd1 - 1,
                        mm + 1,
                    ),
                    pow2((2 * (mm + 1)) as nat) as int - 1,
                ));
            }
            let nv: i64 = pre + e;
            cur.push(nv);
            err = e;
            mm = mm + 1;
        }
        let last: i64 = cur[cur.len() - 1];
        subs = 2 * subs;
        total = total2;
        prev = cur;
        proof {
            lemma_pow2_double((depth - 1) as nat);
            depth = depth + 1;
            assert(err == romberg_err(f, xi0, xi1, depth as int));
            if depth > 18 {
                vstd::arithmetic::power2::lemma_pow2_strictly_increases(
                    17,
                    (depth - 1) as nat,
                );
                vstd::arithmetic::power2::lemma2_to64();
            }
        }
        if -eps < err && err < eps {
            return IntegrationResult {
                subs,
                value: last,
                converged: true,
                level: Ghost((depth - 1) as nat),
            };
        }
        if subs >= ceiling {
            return IntegrationResult {
                subs,
                value: last,
                converged: false,
                level: Ghost((depth - 1) as nat),
            };
        }
    }
}

/// `romberg_integrate_ceiling` with the default subdivision ceiling.
pub fn romberg_integrate<F: Integrand>(eps: i64, f: &F, x0: i64, x1: i64) -> (r:
    IntegrationResult)
    requires
        1 <= eps,
        x0 != x1,
        -COORD_LIMIT <= x0 <= COORD_LIMIT,
        -COORD_LIMIT <= x1 <= COORD_LIMIT,
        bounded_on(f, min(x0 as int, x1 as int), max(x0 as int, x1 as int), VALUE_LIMIT as int),
    ensures
        romberg_post(f, MAX_SUBDIVISIONS, eps, x0, x1, r),
{
    romberg_integrate_ceiling(MAX_SUBDIVISIONS, eps, f, x0, x1)
}

/// Running a Romberg integration twice with identical inputs yields
/// identical outputs: the contract `romberg_post` determines the result in
/// full, so no hidden state can influence it.
pub proof fn lemma_romberg_deterministic<F: Integrand>(
    f: &F,
    ceiling: u64,
    eps: i64,
    x0: i64,
    x1: i64,
    r1: IntegrationResult,
    r2: IntegrationResult,
)
    requires
        romberg_post(f, ceiling, eps, x0, x1, r1),
        romberg_post(f, ceiling, eps, x0, x1, r2),
    ensures
        r1.subs == r2.subs,
        r1.value == r2.value,
        r1.converged == r2.converged,
        r1.level@ == r2.level@,
{
    let l1 = r1.level@;
    let l2 = r2.level@;
    if l1 < l2 {
        assert(mag(romberg_err(f, x0 as int, x1 as int, l1 + 1 as int)) >= eps);
        assert(pow2(((l1 + 1) - 1) as nat) < ceiling);
        assert(false);
    }
    if l2 < l1 {
        assert(mag(romberg_err(f, x0 as int, x1 as int, l2 + 1 as int)) >= eps);
        assert(pow2(((l2 + 1) - 1) as nat) < ceiling);
        assert(false);
    }
}

/// With a power-of-two ceiling -- the default `MAX_SUBDIVISIONS` is
/// `2^16` -- refinement never oversteps it: the table is at most `c + 1`
/// rows deep and the returned subdivision count stays at or under the
/// ceiling, whether or not the tolerance was met.
pub proof fn lemma_romberg_subs_bounded<F: Integrand>(
    f: &F,
    ceiling: u64,
    eps: i64,
    x0: i64,
    x1: i64,
    r: IntegrationResult,
    c: nat,
)
    requires
        romberg_post(f, ceiling, eps, x0, x1, r),
        ceiling == pow2(c),
        1 <= c,
    ensures
        r.subs <= ceiling,
        r.level@ <= c,
{
    let l = r.level@;
    if l == 1 {
        lemma_pow2_mono(1, c);
    } else {
        assert(pow2((l - 1) as nat) < ceiling);
        if l > c {
            lemma_pow2_mono(c, (l - 1) as nat);
            assert(false);
        }
        lemma_pow2_mono(l, c);
    }
}

} // verus!
