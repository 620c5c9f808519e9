//! The abstract callable that the integrators consume: a pure scalar
//! function from a fixed-point coordinate to a fixed-point value, together
//! with a handful of concrete functions for callers and tests.

use vstd::prelude::*;

use crate::num::tdiv;
use crate::num::tdiv64;
use crate::num::tdiv128;
use crate::num::lemma_tdiv_mag;
use crate::COORD_LIMIT;
use crate::SCALE;

verus! {

/// A pure mapping from a fixed-point number to a fixed-point number. The
/// spec-level `model` is the function being integrated; `eval` computes it.
/// Evaluation has no side effects, so it may be repeated any number of
/// times with identical results.
pub trait Integrand {
    /// The mathematical function, on scaled integers.
    spec fn model(&self, x: int) -> int;

    /// Evaluate the function at the scaled coordinate `x`.
    fn eval(&self, x: i64) -> (r: i64)
        requires
            -COORD_LIMIT <= x <= COORD_LIMIT,
        ensures
            r == self.model(x as int),
    ;
}

/// The integrand's model stays within `bound` everywhere on `[lo, hi]`.
pub open spec fn bounded_on<F: Integrand + ?Sized>(f: &F, lo: int, hi: int, bound: int) -> bool {
    forall|x: int| lo <= x <= hi ==> -bound <= #[trigger] f.model(x) <= bound
}

/// f(x) = x.
pub struct Identity {
}

impl Integrand for Identity {
    open spec fn model(&self, x: int) -> int {
        x
    }

    fn eval(&self, x: i64) -> (r: i64) {
        x
    }
}

/// f(x) = c.
pub struct Constant {
    pub c: i64,
}

impl Integrand for Constant {
    open spec fn model(&self, x: int) -> int {
        self.c as int
    }

    fn eval(&self, x: i64) -> (r: i64) {
        self.c
    }
}

/// f(x) = x^2, rounded toward zero at the one scaling division.
pub struct Square {
}

impl Integrand for Square {
    open spec fn model(&self, x: int) -> int {
        tdiv(x * x, SCALE as int)
    }

    fn eval(&self, x: i64) -> (r: i64) {
        proof {
            assert(0 <= x * x <= 0x4000_0000_0000_0000) by (nonlinear_arith)
                requires
                    -0x8000_0000 <= x <= 0x8000_0000,
            ;
        }
        tdiv64(x * x, SCALE)
    }
}

/// f(x) = x^3, rounded toward zero at each of the two scaling divisions.
/// An odd function: its model satisfies `model(-x) == -model(x)`.
pub struct Cube {
}

impl Integrand for Cube {
    open spec fn model(&self, x: int) -> int {
        tdiv(tdiv(x * x, SCALE as int) * x, SCALE as int)
    }

    fn eval(&self, x: i64) -> (r: i64) {
        proof {
            assert(0 <= x * x <= 0x4000_0000_0000_0000) by (nonlinear_arith)
                requires
                    -0x8000_0000 <= x <= 0x8000_0000,
            ;
        }
        let sq: i64 = tdiv64(x * x, SCALE);
        proof {
            lemma_tdiv_mag(x * x, SCALE as int);
            assert(SCALE * crate::num::mag(tdiv(x * x, SCALE as int)) <= 0x4000_0000_0000_0000);
            assert(crate::num::mag(sq as int) <= 0x400_0000_0000) by (nonlinear_arith)
                requires
                    SCALE * crate::num::mag(sq as int) <= 0x4000_0000_0000_0000,
                    SCALE == 0x10_0000,
            ;
            assert(-0x400_0000_0000_0000_0000 <= (sq as int) * (x as int)
                <= 0x400_0000_0000_0000_0000) by (nonlinear_arith)
                requires
                    -0x400_0000_0000 <= sq as int <= 0x400_0000_0000,
                    -0x8000_0000 <= x as int <= 0x8000_0000,
            ;
        }
        let p: i128 = (sq as i128) * (x as i128);
        let q: i128 = tdiv128(p, SCALE as i128);
        proof {
            lemma_tdiv_mag(p as int, SCALE as int);
            assert(crate::num::mag(tdiv(p as int, SCALE as int)) <= 0x400_0000_0000_0000_0000);
        }
        q as i64
    }
}

/// f(x) = 0 below the threshold and 1 (that is, `SCALE`) from it on: a
/// discontinuous integrand, on which the refining integrators' error
/// estimate does not settle.
pub struct Step {
    pub threshold: i64,
}

impl Integrand for Step {
    open spec fn model(&self, x: int) -> int {
        if x < self.threshold {
            0
        } else {
            SCALE as int
        }
    }

    fn eval(&self, x: i64) -> (r: i64) {
        if x < self.threshold {
            0
        } else {
            SCALE
        }
    }
}

/// f(x) = 1 / (1 + x^2), each division rounded toward zero: a smooth,
/// non-polynomial integrand (its integral over [0, 1] is pi / 4).
pub struct Lorentzian {
}

impl Integrand for Lorentzian {
    open spec fn model(&self, x: int) -> int {
        tdiv(SCALE * SCALE, SCALE + tdiv(x * x, SCALE as int))
    }

    fn eval(&self, x: i64) -> (r: i64) {
        proof {
            assert(0 <= x * x <= 0x4000_0000_0000_0000) by (nonlinear_arith)
                requires
                    -0x8000_0000 <= x <= 0x8000_0000,
            ;
        }
        let sq: i64 = tdiv64(x * x, SCALE);
        proof {
            lemma_tdiv_mag(x * x, SCALE as int);
        }
        tdiv64(SCALE * SCALE, SCALE + sq)
    }
}

} // verus!
