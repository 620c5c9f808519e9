//! Truncating (round-toward-zero) division, the one rounding rule used by
//! every algorithm in this crate, together with the facts the integrators
//! need about it.

use vstd::prelude::*;

verus! {

/// Magnitude of an integer.
pub open spec fn mag(x: int) -> int {
    if x >= 0 {
        x
    } else {
        -x
    }
}

/// Division rounding toward zero. In specifications `/` is Euclidean
/// division; the executable code below rounds toward zero instead, and
/// `tdiv` is the exact statement of that rounding.
pub open spec fn tdiv(a: int, b: int) -> int {
    if a >= 0 {
        a / b
    } else {
        -((-a) / b)
    }
}

/// Round-toward-zero division on `i64`.
pub fn tdiv64(a: i64, b: i64) -> (r: i64)
    requires
        1 <= b,
        a != i64::MIN,
    ensures
        r == tdiv(a as int, b as int),
{
    if a >= 0 {
        let q: u64 = (a as u64) / (b as u64);
        q as i64
    } else {
        let m: i64 = -a;
        let q: u64 = (m as u64) / (b as u64);
        proof {
            vstd::arithmetic::div_mod::lemma_div_nonincreasing(m as int, b as int);
            vstd::arithmetic::div_mod::lemma_div_pos_is_pos(m as int, b as int);
        }
        -(q as i64)
    }
}

/// Round-toward-zero division on `i128`.
pub fn tdiv128(a: i128, b: i128) -> (r: i128)
    requires
        1 <= b,
        a != i128::MIN,
    ensures
        r == tdiv(a as int, b as int),
{
    if a >= 0 {
        let q: u128 = (a as u128) / (b as u128);
        q as i128
    } else {
        let m: i128 = -a;
        let q: u128 = (m as u128) / (b as u128);
        proof {
            vstd::arithmetic::div_mod::lemma_div_nonincreasing(m as int, b as int);
            vstd::arithmetic::div_mod::lemma_div_pos_is_pos(m as int, b as int);
        }
        -(q as i128)
    }
}

/// Doubling steps one power of two higher.
pub proof fn lemma_pow2_double(l: nat)
    ensures
        vstd::arithmetic::power2::pow2(l + 1) == 2 * vstd::arithmetic::power2::pow2(l),
{
    vstd::arithmetic::power2::lemma_pow2_adds(1, l);
    vstd::arithmetic::power2::lemma2_to64();
}

/// Powers of two grow with the exponent.
pub proof fn lemma_pow2_mono(a: nat, b: nat)
    requires
        a <= b,
    ensures
        vstd::arithmetic::power2::pow2(a) <= vstd::arithmetic::power2::pow2(b),
{
    if a < b {
        vstd::arithmetic::power2::lemma_pow2_strictly_increases(a, b);
    }
}

/// The quotient's magnitude, scaled back up by the divisor, never exceeds
/// the dividend's magnitude.
pub proof fn lemma_tdiv_mag(a: int, b: int)
    requires
        1 <= b,
    ensures
        b * mag(tdiv(a, b)) <= mag(a),
        mag(tdiv(a, b)) <= mag(a),
{
    let m = mag(a);
    vstd::arithmetic::div_mod::lemma_div_pos_is_pos(m, b);
    vstd::arithmetic::div_mod::lemma_fundamental_div_mod(m, b);
    vstd::arithmetic::div_mod::lemma_remainder_lower(m, b);
    assert(b * (m / b) <= m);
    vstd::arithmetic::div_mod::lemma_div_nonincreasing(m, b);
}

/// Truncating division is monotone in the dividend.
pub proof fn lemma_tdiv_mono(a1: int, a2: int, b: int)
    requires
        1 <= b,
        a1 <= a2,
    ensures
        tdiv(a1, b) <= tdiv(a2, b),
{
    if a1 >= 0 {
        vstd::arithmetic::div_mod::lemma_div_is_ordered(a1, a2, b);
    } else if a2 < 0 {
        vstd::arithmetic::div_mod::lemma_div_is_ordered(-a2, -a1, b);
    } else {
        vstd::arithmetic::div_mod::lemma_div_pos_is_pos(-a1, b);
        vstd::arithmetic::div_mod::lemma_div_pos_is_pos(a2, b);
    }
}

/// Dividing an exact multiple recovers the factor.
pub proof fn lemma_tdiv_exact(k: int, b: int)
    requires
        1 <= b,
    ensures
        tdiv(k * b, b) == k,
{
    if k >= 0 {
        vstd::arithmetic::div_mod::lemma_div_by_multiple(k, b);
    } else {
        vstd::arithmetic::div_mod::lemma_div_by_multiple(-k, b);
        assert(-(k * b) == (-k) * b) by (nonlinear_arith);
        assert(k * b < 0) by (nonlinear_arith)
            requires
                k < 0,
                b >= 1,
        ;
    }
}

/// A common factor of dividend and divisor cancels.
pub proof fn lemma_tdiv_cancel(c: int, a: int, b: int)
    requires
        1 <= b,
        1 <= c,
    ensures
        tdiv(c * a, c * b) == tdiv(a, b),
{
    if a >= 0 {
        lemma_div_cancel_nonneg(c, a, b);
    } else {
        assert(-(c * a) == c * (-a)) by (nonlinear_arith);
        assert(c * a < 0) by (nonlinear_arith)
            requires
                a < 0,
                c >= 1,
        ;
        lemma_div_cancel_nonneg(c, -a, b);
    }
}

proof fn lemma_div_cancel_nonneg(c: int, a: int, b: int)
    requires
        1 <= b,
        1 <= c,
        0 <= a,
    ensures
        (c * a) / (c * b) == a / b,
{
    assert(0 <= c * a) by (nonlinear_arith)
        requires
            0 <= a,
            1 <= c,
    ;
    vstd::arithmetic::div_mod::lemma_div_denominator(c * a, c, b);
    vstd::arithmetic::div_mod::lemma_div_by_multiple(a, c);
    assert((c * a) / c == (a * c) / c) by (nonlinear_arith);
}

} // verus!
