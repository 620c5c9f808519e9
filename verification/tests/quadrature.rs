use quadrature::gauss;
use quadrature::grid::sample_point;
use quadrature::integrand::Constant;
use quadrature::integrand::Cube;
use quadrature::integrand::Identity;
use quadrature::integrand::Lorentzian;
use quadrature::integrand::Square;
use quadrature::integrand::Step;
use quadrature::romberg::romberg_integrate;
use quadrature::romberg::romberg_integrate_ceiling;
use quadrature::table::rule;
use quadrature::trapezoid::trapezoid_integrate;
use quadrature::trapezoid::trapezoid_integrate_ceiling;
use quadrature::QuadError;
use quadrature::MAX_SUBDIVISIONS;
use quadrature::SCALE;

const S: i64 = SCALE; // 1.0 in fixed point

#[test]
fn rule_weights_sum_to_two() {
    for n in 2..=12usize {
        let q = rule(n).unwrap();
        assert_eq!(q.nodes.len(), n);
        assert_eq!(q.weights.len(), n);
        let sum: i64 = q.weights.iter().sum();
        assert_eq!(sum, 2 * S);
    }
}

#[test]
fn rule_nodes_and_weights_palindromic() {
    for n in 2..=12usize {
        let q = rule(n).unwrap();
        for i in 0..n {
            assert_eq!(q.nodes[i], -q.nodes[n - 1 - i]);
            assert_eq!(q.weights[i], q.weights[n - 1 - i]);
            assert!(q.weights[i] > 0);
            assert!(q.nodes[i].abs() <= S);
        }
        for i in 1..n {
            assert!(q.nodes[i - 1] < q.nodes[i]);
        }
    }
}

#[test]
fn rule_unsupported_orders() {
    for n in [0usize, 1, 13, 100] {
        assert_eq!(rule(n).unwrap_err(), QuadError::UnsupportedOrder);
    }
}

#[test]
fn gauss_order_two_exact_for_cubic() {
    // An odd integrand over a symmetric interval cancels exactly.
    assert_eq!(gauss::integrate(2, &Cube {}, -S, S), Ok(0));
    // Order 2 integrates degree-3 polynomials: x^3 over [0, 1] is 1/4.
    let v = gauss::integrate(2, &Cube {}, 0, S).unwrap();
    assert!((v - S / 4).abs() < 16, "v = {v}");
    assert_eq!(v, 262143);
}

#[test]
fn gauss_higher_orders_cubic() {
    let v5 = gauss::integrate(5, &Cube {}, 0, S).unwrap();
    let v12 = gauss::integrate(12, &Cube {}, 0, S).unwrap();
    assert!((v5 - S / 4).abs() < 16, "v5 = {v5}");
    assert!((v12 - S / 4).abs() < 16, "v12 = {v12}");
    assert_eq!(v5, 262143);
    assert_eq!(v12, 262142);
}

#[test]
fn gauss_linear_exact() {
    // x over [0, 1] is exactly 1/2.
    assert_eq!(gauss::integrate(2, &Identity {}, 0, S), Ok(S / 2));
}

#[test]
fn gauss_square_symmetric() {
    // x^2 over [-1, 1] is 2/3.
    let v = gauss::integrate(3, &Square {}, -S, S).unwrap();
    assert!((v - 2 * S / 3).abs() < 8, "v = {v}");
    assert_eq!(v, 699048);
}

#[test]
fn gauss_smooth_function() {
    // 1/(1+x^2) over [0, 1] is pi/4 (823549.66 in fixed point).
    let v = gauss::integrate(7, &Lorentzian {}, 0, S).unwrap();
    assert!((v - 823550).abs() < 8, "v = {v}");
    assert_eq!(v, 823549);
}

#[test]
fn gauss_unsupported_orders() {
    assert_eq!(gauss::integrate(1, &Identity {}, 0, S), Err(QuadError::UnsupportedOrder));
    assert_eq!(gauss::integrate(13, &Identity {}, 0, S), Err(QuadError::UnsupportedOrder));
}

#[test]
fn trapezoid_converges_on_linear() {
    // f(x) = x over [0, 1] to eps about 1e-6: exactly 1/2, and the
    // subdivision count is a power of two.
    let r = trapezoid_integrate(1, &Identity {}, 0, S);
    assert!(r.converged);
    assert_eq!(r.value, S / 2);
    assert_eq!(r.subs, 2);
    assert!(r.subs.is_power_of_two());
}

#[test]
fn trapezoid_constant() {
    let r = trapezoid_integrate(1, &Constant { c: 3 * S }, 0, 2 * S);
    assert!(r.converged);
    assert_eq!(r.value, 6 * S);
    assert_eq!(r.subs, 2);
}

#[test]
fn trapezoid_reversed_interval() {
    // The sign of x1 - x0 decides the sign of the result.
    let r = trapezoid_integrate(1, &Identity {}, S, 0);
    assert!(r.converged);
    assert_eq!(r.value, -(S / 2));
    assert_eq!(r.subs, 2);
}

#[test]
fn trapezoid_cube() {
    let r = trapezoid_integrate(50, &Cube {}, 0, S);
    assert!(r.converged);
    assert_eq!(r.subs, 128);
    assert_eq!(r.value, 262159);
    assert!(r.subs.is_power_of_two());
}

#[test]
fn romberg_linear() {
    let r = romberg_integrate(1, &Identity {}, 0, S);
    assert!(r.converged);
    assert_eq!(r.value, S / 2);
    assert_eq!(r.subs, 2);
}

#[test]
fn romberg_cube_exact() {
    // Romberg cancels the error expansion fast enough that x^3 over
    // [0, 1] lands on exactly 1/4 at depth three.
    let r = romberg_integrate(50, &Cube {}, 0, S);
    assert!(r.converged);
    assert_eq!(r.subs, 4);
    assert_eq!(r.value, S / 4);
}

#[test]
fn romberg_beats_trapezoid_on_smooth_function() {
    // 1/(1+x^2) over [0, 1] to eps about 1e-4: both converge near pi/4,
    // and Romberg needs strictly fewer subdivisions.
    let t = trapezoid_integrate(100, &Lorentzian {}, 0, S);
    let r = romberg_integrate(100, &Lorentzian {}, 0, S);
    assert!(t.converged);
    assert!(r.converged);
    assert!(r.subs < t.subs, "romberg {} vs trapezoid {}", r.subs, t.subs);
    assert!((t.value - 823550).abs() < 100, "t = {}", t.value);
    assert!((r.value - 823550).abs() < 100, "r = {}", r.value);
    assert_eq!(t.subs, 32);
    assert_eq!(t.value, 823506);
    assert_eq!(r.subs, 8);
    assert_eq!(r.value, 823546);
}

#[test]
fn trapezoid_ceiling_on_discontinuous_integrand() {
    // A step inside the interval keeps the error estimate from settling
    // below about 1e-6: the integrator stops at the ceiling, still
    // returning a finite estimate, and says so.
    let r = trapezoid_integrate(1, &Step { threshold: 401847 }, 0, S);
    assert!(!r.converged);
    assert_eq!(r.subs, MAX_SUBDIVISIONS);
    assert_eq!(r.value, 646728);
    assert!(r.subs.is_power_of_two());
}

#[test]
fn small_ceilings_cut_refinement_short() {
    // The count never passes the ceiling: refinement stops as soon as the
    // doubled count reaches it.
    let r = romberg_integrate_ceiling(2, 1, &Step { threshold: 401847 }, 0, S);
    assert!(!r.converged);
    assert_eq!(r.subs, 2);
    assert_eq!(r.value, 873813);
    let t = trapezoid_integrate_ceiling(4, 1, &Step { threshold: 401847 }, 0, S);
    assert!(!t.converged);
    assert_eq!(t.subs, 4);
    assert_eq!(t.value, 655360);
}

#[test]
fn integrators_are_idempotent() {
    let t1 = trapezoid_integrate(100, &Lorentzian {}, 0, S);
    let t2 = trapezoid_integrate(100, &Lorentzian {}, 0, S);
    assert_eq!(t1.subs, t2.subs);
    assert_eq!(t1.value, t2.value);
    assert_eq!(t1.converged, t2.converged);
    let r1 = romberg_integrate(100, &Lorentzian {}, 0, S);
    let r2 = romberg_integrate(100, &Lorentzian {}, 0, S);
    assert_eq!(r1.subs, r2.subs);
    assert_eq!(r1.value, r2.value);
    assert_eq!(r1.converged, r2.converged);
    let g1 = gauss::integrate(6, &Lorentzian {}, 0, S);
    let g2 = gauss::integrate(6, &Lorentzian {}, 0, S);
    assert_eq!(g1, g2);
}

#[test]
fn gauss_reversed_interval() {
    // The sign of x1 - x0 decides the sign of the result here too.
    assert_eq!(gauss::integrate(2, &Identity {}, S, 0), Ok(-(S / 2)));
    let forward = gauss::integrate(4, &Lorentzian {}, 0, S).unwrap();
    let backward = gauss::integrate(4, &Lorentzian {}, S, 0).unwrap();
    assert_eq!(forward, 823554);
    assert_eq!(backward, -823554);
}

#[test]
fn loose_tolerance_stops_after_one_refinement() {
    // The very first error estimate is already below a huge eps, so both
    // refining integrators stop at two subdivisions.
    let t = trapezoid_integrate(1_000_000_000, &Lorentzian {}, 0, S);
    assert!(t.converged);
    assert_eq!(t.subs, 2);
    assert_eq!(t.value, 812646);
    let r = romberg_integrate(1_000_000_000, &Lorentzian {}, 0, S);
    assert!(r.converged);
    assert_eq!(r.subs, 2);
    assert_eq!(r.value, 821384);
}

#[test]
fn refinement_reuses_sample_points() {
    // Every grid point of an n-part partition recurs, at the same
    // coordinate, in the 2n-part partition: doubling only adds points.
    let x0: i64 = -12345;
    let x1: i64 = 987654;
    for n in [1u64, 2, 3, 5, 8, 64, 1000] {
        for k in 0..=n {
            let a = sample_point(x0, x1, k, n);
            let b = sample_point(x0, x1, 2 * k, 2 * n);
            assert_eq!(a, b);
        }
    }
}
