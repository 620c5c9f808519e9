//! The uniform refinement grid shared by the trapezoid and Romberg
//! integrators: sample coordinates, the composite-trapezoid sums over them,
//! and the doubling step that reuses every previously sampled point.

use vstd::prelude::*;

use vstd::math::max;
use vstd::math::min;

use crate::integrand::bounded_on;
use crate::integrand::Integrand;
use crate::num::lemma_tdiv_mag;
use crate::num::lemma_tdiv_cancel;
use crate::num::lemma_tdiv_exact;
use crate::num::lemma_tdiv_mono;
use crate::num::mag;
use crate::num::tdiv;
use crate::num::tdiv64;
use crate::num::tdiv128;
use crate::COORD_LIMIT;
use crate::EST_LIMIT;
use crate::SCALE;
use crate::VALUE_LIMIT;

verus! {

/// Coordinate of grid point `k` of the partition of `[x0, x0 + d]` into
/// `n` equal parts. Written over `k * d` so that point `2k` of the doubled
/// partition is exactly point `k` of the original one.
pub open spec fn sample(x0: int, d: int, k: int, n: int) -> int {
    x0 + tdiv(k * d, n)
}

/// Sum of the integrand over the first `k` interior points of an
/// `n`-part partition.
pub open spec fn interior_sum<F: Integrand>(f: &F, x0: int, d: int, n: int, k: int) -> int
    decreases k,
{
    if k <= 0 {
        0
    } else {
        interior_sum(f, x0, d, n, k - 1) + f.model(sample(x0, d, k, n))
    }
}

/// Sum of the integrand over the first `k` odd-numbered points of the
/// doubled (`2n`-part) partition: exactly the points that refinement from
/// `n` to `2n` parts samples anew.
pub open spec fn odd_sum<F: Integrand>(f: &F, x0: int, d: int, n: int, k: int) -> int
    decreases k,
{
    if k <= 0 {
        0
    } else {
        odd_sum(f, x0, d, n, k - 1) + f.model(sample(x0, d, 2 * k - 1, 2 * n))
    }
}

/// Twice the composite-trapezoid sum over an `n`-part partition, before
/// scaling: endpoints counted once, interior points twice.
pub open spec fn trap_total<F: Integrand>(f: &F, x0: int, x1: int, n: int) -> int {
    f.model(x0) + f.model(x1) + 2 * interior_sum(f, x0, x1 - x0, n, n - 1)
}

/// The composite trapezoid estimate with `n` subdivisions, as the
/// integrators report it: `(x1 - x0) * trap_total / (2 n SCALE)`, rounded
/// toward zero.
pub open spec fn trap_estimate<F: Integrand>(f: &F, x0: int, x1: int, n: int) -> int {
    tdiv((x1 - x0) * trap_total(f, x0, x1, n), 2 * n * (SCALE as int))
}

/// Every grid point lies inside the interval.
pub proof fn lemma_sample_range(x0: int, x1: int, k: int, n: int)
    requires
        1 <= n,
        0 <= k <= n,
    ensures
        min(x0, x1) <= sample(x0, x1 - x0, k, n) <= max(x0, x1),
{
    let d = x1 - x0;
    if d >= 0 {
        assert(0 <= k * d) by (nonlinear_arith)
            requires
                0 <= k,
                0 <= d,
        ;
        vstd::arithmetic::mul::lemma_mul_inequality(k, n, d);
        lemma_tdiv_mono(0, k * d, n);
        vstd::arithmetic::div_mod::lemma_div_pos_is_pos(0, n);
        vstd::arithmetic::div_mod::lemma_div_nonincreasing(0, n);
        lemma_tdiv_mono(k * d, n * d, n);
        lemma_tdiv_exact(d, n);
        vstd::arithmetic::mul::lemma_mul_is_commutative(n, d);
    } else {
        assert(k * d <= 0) by (nonlinear_arith)
            requires
                0 <= k,
                d < 0,
        ;
        vstd::arithmetic::mul::lemma_mul_inequality(k, n, -d);
        assert(k * (-d) == -(k * d)) by (nonlinear_arith);
        assert(n * (-d) == -(n * d)) by (nonlinear_arith);
        lemma_tdiv_mono(n * d, k * d, n);
        lemma_tdiv_mono(k * d, 0, n);
        vstd::arithmetic::div_mod::lemma_div_pos_is_pos(0, n);
        vstd::arithmetic::div_mod::lemma_div_nonincreasing(0, n);
        lemma_tdiv_exact(d, n);
        vstd::arithmetic::mul::lemma_mul_is_commutative(n, d);
    }
}

/// Halving the step keeps every old grid point: point `2k` of the doubled
/// partition is point `k` of the original. This is the doubling-reuse
/// property: refinement evaluates the integrand only at the odd-numbered
/// new points.
pub proof fn lemma_sample_refinement(x0: int, d: int, k: int, n: int)
    requires
        1 <= n,
    ensures
        sample(x0, d, 2 * k, 2 * n) == sample(x0, d, k, n),
{
    assert((2 * k) * d == 2 * (k * d)) by (nonlinear_arith);
    lemma_tdiv_cancel(2, k * d, n);
}

/// The set of grid coordinates of an `n`-part partition.
pub open spec fn sample_points(x0: int, d: int, n: int) -> Set<int> {
    Set::new(|p: int| exists|k: int| 0 <= k <= n && p == #[trigger] sample(x0, d, k, n))
}

/// Each refinement level's evaluation points are a superset of the
/// previous level's.
pub proof fn lemma_refinement_superset(x0: int, d: int, n: int)
    requires
        1 <= n,
    ensures
        sample_points(x0, d, n).subset_of(sample_points(x0, d, 2 * n)),
{
    assert forall|p: int| sample_points(x0, d, n).contains(p) implies sample_points(
        x0,
        d,
        2 * n,
    ).contains(p) by {
        let k = choose|k: int| 0 <= k <= n && p == #[trigger] sample(x0, d, k, n);
        lemma_sample_refinement(x0, d, k, n);
        assert(0 <= 2 * k <= 2 * n && p == sample(x0, d, 2 * k, 2 * n));
    }
}

/// A bounded integrand gives a bounded interior sum.
pub proof fn lemma_interior_bound<F: Integrand>(f: &F, x0: int, x1: int, n: int, k: int, b: int)
    requires
        1 <= n,
        0 <= k <= n,
        0 <= b,
        bounded_on(f, min(x0, x1), max(x0, x1), b),
    ensures
        -(k * b) <= interior_sum(f, x0, x1 - x0, n, k) <= k * b,
    decreases k,
{
    if k > 0 {
        lemma_interior_bound(f, x0, x1, n, k - 1, b);
        lemma_sample_range(x0, x1, k, n);
        assert((k - 1) * b + b == k * b) by (nonlinear_arith);
    }
}

/// A bounded integrand gives a bounded trapezoid sum.
pub proof fn lemma_trap_total_bound<F: Integrand>(f: &F, x0: int, x1: int, n: int, b: int)
    requires
        1 <= n,
        0 <= b,
        bounded_on(f, min(x0, x1), max(x0, x1), b),
    ensures
        -(2 * n * b) <= trap_total(f, x0, x1, n) <= 2 * n * b,
{
    lemma_interior_bound(f, x0, x1, n, n - 1, b);
    assert(min(x0, x1) <= x0 <= max(x0, x1));
    assert(min(x0, x1) <= x1 <= max(x0, x1));
    assert(-b <= f.model(x0) <= b);
    assert(-b <= f.model(x1) <= b);
    assert(2 * b + 2 * ((n - 1) * b) == 2 * n * b) by (nonlinear_arith);
}

/// The even-numbered half of a doubled partition's interior sum is the
/// original partition's interior sum; the rest is the odd sum.
proof fn lemma_interior_split<F: Integrand>(f: &F, x0: int, d: int, n: int, j: int)
    requires
        1 <= n,
        0 <= j <= n,
    ensures
        interior_sum(f, x0, d, 2 * n, 2 * j) == interior_sum(f, x0, d, n, j) + odd_sum(
            f,
            x0,
            d,
            n,
            j,
        ),
    decreases j,
{
    if j > 0 {
        lemma_interior_split(f, x0, d, n, j - 1);
        lemma_sample_refinement(x0, d, j, n);
        assert(interior_sum(f, x0, d, 2 * n, 2 * j) == interior_sum(f, x0, d, 2 * n, 2 * j - 1)
            + f.model(sample(x0, d, 2 * j, 2 * n)));
        assert(interior_sum(f, x0, d, 2 * n, 2 * j - 1) == interior_sum(
            f,
            x0,
            d,
            2 * n,
            2 * (j - 1),
        ) + f.model(sample(x0, d, 2 * j - 1, 2 * n)));
    }
}

/// Doubling the subdivision count adds exactly the odd-numbered new
/// points, twice each, to the trapezoid sum: nothing already sampled is
/// recomputed.
pub proof fn lemma_trap_total_double<F: Integrand>(f: &F, x0: int, x1: int, n: int)
    requires
        1 <= n,
    ensures
        trap_total(f, x0, x1, 2 * n) == trap_total(f, x0, x1, n) + 2 * odd_sum(
            f,
            x0,
            x1 - x0,
            n,
            n,
        ),
{
    let d = x1 - x0;
    lemma_interior_split(f, x0, d, n, n - 1);
    assert(interior_sum(f, x0, d, 2 * n, 2 * n - 1) == interior_sum(f, x0, d, 2 * n, 2 * (n - 1))
        + f.model(sample(x0, d, 2 * n - 1, 2 * n)));
    assert(odd_sum(f, x0, d, n, n) == odd_sum(f, x0, d, n, n - 1) + f.model(
        sample(x0, d, 2 * n - 1, 2 * n),
    ));
}

/// Executable form of `sample`: the `k`-th of `n` grid points over
/// `[x0, x1]`.
pub fn sample_point(x0: i64, x1: i64, k: u64, n: u64) -> (p: i64)
    requires
        1 <= n <= 0x40000,
        k <= n,
        -COORD_LIMIT <= x0 <= COORD_LIMIT,
        -COORD_LIMIT <= x1 <= COORD_LIMIT,
    ensures
        p == sample(x0 as int, x1 - x0, k as int, n as int),
        min(x0 as int, x1 as int) <= p <= max(x0 as int, x1 as int),
{
    let d: i64 = x1 - x0;
    proof {
        assert(-0x4_0000_0000_0000 <= (k as int) * (d as int) <= 0x4_0000_0000_0000)
            by (nonlinear_arith)
            requires
                0 <= k as int <= 0x40000,
                -0x1_0000_0000 <= d as int <= 0x1_0000_0000,
        ;
    }
    let kd: i64 = (k as i64) * d;
    let q: i64 = tdiv64(kd, n as i64);
    proof {
        lemma_sample_range(x0 as int, x1 as int, k as int, n as int);
    }
    x0 + q
}

/// Scale a trapezoid sum into the reported estimate:
/// `(x1 - x0) * total / (2 n SCALE)`, rounded toward zero.
fn estimate_from_total(x0: i64, x1: i64, n: u64, total: i128) -> (t: i64)
    requires
        1 <= n <= 0x40000,
        -COORD_LIMIT <= x0 <= COORD_LIMIT,
        -COORD_LIMIT <= x1 <= COORD_LIMIT,
        -2 * (n as int) * (VALUE_LIMIT as int) <= total <= 2 * (n as int) * (VALUE_LIMIT as int),
    ensures
        t == tdiv((x1 - x0) * total, 2 * (n as int) * (SCALE as int)),
        mag(t as int) <= EST_LIMIT,
{
    let d: i128 = (x1 as i128) - (x0 as i128);
    let am: Ghost<int> = Ghost(2 * (n as int) * (VALUE_LIMIT as int));
    proof {
        assert(-(0x1_0000_0000 * am@) <= (d as int) * (total as int) <= 0x1_0000_0000 * am@)
            by (nonlinear_arith)
            requires
                -0x1_0000_0000 <= d as int <= 0x1_0000_0000,
                -am@ <= total as int <= am@,
                0 <= am@,
        ;
        assert(0x1_0000_0000 * am@ <= 0x100_0000_0000_0000_0000_0000) by (nonlinear_arith)
            requires
                am@ == 2 * (n as int) * (VALUE_LIMIT as int),
                1 <= n as int <= 0x40000,
                VALUE_LIMIT == 0x8000_0000,
        ;
    }
    let p: i128 = d * total;
    let q: i128 = 2 * (n as i128) * (SCALE as i128);
    proof {
        assert(2 <= q as int <= 0x80_0000_0000) by (nonlinear_arith)
            requires
                q as int == 2 * (n as int) * (SCALE as int),
                1 <= n as int <= 0x40000,
                SCALE == 0x10_0000,
        ;
    }
    let r: i128 = tdiv128(p, q);
    proof {
        lemma_tdiv_mag(p as int, q as int);
        assert(0x1_0000_0000 * am@ == (q as int) * (EST_LIMIT as int)) by (nonlinear_arith)
            requires
                am@ == 2 * (n as int) * (VALUE_LIMIT as int),
                q as int == 2 * (n as int) * (SCALE as int),
                VALUE_LIMIT == 0x8000_0000,
                SCALE == 0x10_0000,
                EST_LIMIT == 0x800_0000_0000,
        ;
        assert(mag(r as int) <= EST_LIMIT) by (nonlinear_arith)
            requires
                (q as int) * mag(r as int) <= (q as int) * (EST_LIMIT as int),
                1 <= q as int,
                0 <= mag(r as int),
        ;
    }
    r as i64
}

/// The two-point (one-subdivision) trapezoid start: the scaled sum and the
/// first estimate.
pub fn base_level<F: Integrand>(f: &F, x0: i64, x1: i64) -> (r: (i128, i64))
    requires
        -COORD_LIMIT <= x0 <= COORD_LIMIT,
        -COORD_LIMIT <= x1 <= COORD_LIMIT,
        bounded_on(f, min(x0 as int, x1 as int), max(x0 as int, x1 as int), VALUE_LIMIT as int),
    ensures
        r.0 == trap_total(f, x0 as int, x1 as int, 1),
        r.1 == trap_estimate(f, x0 as int, x1 as int, 1),
        mag(r.1 as int) <= EST_LIMIT,
{
    let f0: i64 = f.eval(x0);
    let f1: i64 = f.eval(x1);
    proof {
        assert(min(x0 as int, x1 as int) <= x0 as int <= max(x0 as int, x1 as int));
        assert(min(x0 as int, x1 as int) <= x1 as int <= max(x0 as int, x1 as int));
        assert(-VALUE_LIMIT <= f.model(x0 as int) <= VALUE_LIMIT);
        assert(-VALUE_LIMIT <= f.model(x1 as int) <= VALUE_LIMIT);
        assert(interior_sum(f, x0 as int, x1 - x0, 1, 0) == 0);
    }
    let total: i128 = (f0 as i128) + (f1 as i128);
    let t: i64 = estimate_from_total(x0, x1, 1, total);
    (total, t)
}

/// One refinement step: from the scaled trapezoid sum at `subs`
/// subdivisions to the sum and estimate at `2 * subs`, evaluating the
/// integrand only at the odd-numbered new points.
pub fn refine<F: Integrand>(f: &F, x0: i64, x1: i64, subs: u64, total: i128) -> (r: (i128, i64))
    requires
        1 <= subs <= crate::CEILING_LIMIT,
        -COORD_LIMIT <= x0 <= COORD_LIMIT,
        -COORD_LIMIT <= x1 <= COORD_LIMIT,
        bounded_on(f, min(x0 as int, x1 as int), max(x0 as int, x1 as int), VALUE_LIMIT as int),
        total == trap_total(f, x0 as int, x1 as int, subs as int),
    ensures
        r.0 == trap_total(f, x0 as int, x1 as int, 2 * (subs as int)),
        r.1 == trap_estimate(f, x0 as int, x1 as int, 2 * (subs as int)),
        mag(r.1 as int) <= EST_LIMIT,
{
    let ghost xi0: int = x0 as int;
    let ghost xi1: int = x1 as int;
    let ghost dd: int = xi1 - xi0;
    let n2: u64 = 2 * subs;
    let mut o: i128 = 0;
    let mut j: u64 = 0;
    while j < subs
        invariant
            0 <= j <= subs,
            1 <= subs <= crate::CEILING_LIMIT,
            n2 == 2 * subs,
            -COORD_LIMIT <= x0 <= COORD_LIMIT,
            -COORD_LIMIT <= x1 <= COORD_LIMIT,
            bounded_on(
                f,
                min(x0 as int, x1 as int),
                max(x0 as int, x1 as int),
                VALUE_LIMIT as int,
            ),
            o == odd_sum(f, xi0, dd, subs as int, j as int),
            -(j as int) * (VALUE_LIMIT as int) <= o <= (j as int) * (VALUE_LIMIT as int),
            xi0 == x0 as int,
            xi1 == x1 as int,
            dd == xi1 - xi0,
        decreases subs - j,
    {
        let k: u64 = 2 * j + 1;
        let p: i64 = sample_point(x0, x1, k, n2);
        let v: i64 = f.eval(p);
        proof {
            assert(-VALUE_LIMIT <= f.model(p as int) <= VALUE_LIMIT);
            assert(odd_sum(f, xi0, dd, subs as int, j + 1) == odd_sum(f, xi0, dd, subs as int, j as int)
                + f.model(sample(xi0, dd, 2 * (j + 1) - 1, 2 * (subs as int))));
            assert((j + 1) * (VALUE_LIMIT as int) == (j as int) * (VALUE_LIMIT as int)
                + VALUE_LIMIT) by (nonlinear_arith);
        }
        o = o + (v as i128);
        j = j + 1;
    }
    proof {
        lemma_trap_total_double(f, xi0, xi1, subs as int);
        lemma_trap_total_bound(f, xi0, xi1, subs as int, VALUE_LIMIT as int);
        assert(2 * (subs as int) * (VALUE_LIMIT as int) + 2 * ((subs as int) * (
        VALUE_LIMIT as int)) == 2 * (2 * (subs as int)) * (VALUE_LIMIT as int))
            by (nonlinear_arith);
    }
    let total2: i128 = total + 2 * o;
    let t2: i64 = estimate_from_total(x0, x1, n2, total2);
    (total2, t2)
}

} // verus!
