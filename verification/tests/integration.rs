//! Scenario tests: a small floating-point harness assembles the full
//! adaptive integrator around the library's verified pieces (tableau,
//! validation, driver bookkeeping), exactly as a production caller would.

use finfoot::ode::dopri5::{coupling_coef, node_coef, validate_input, weight_coef, Driver};
use finfoot::ode::{Error, InputError};

fn tableau_a() -> [[f64; 6]; 6] {
    let mut a = [[0.0f64; 6]; 6];
    for i in 0..6 {
        for j in 0..6 {
            let (n, d) = coupling_coef(i, j);
            a[i][j] = n as f64 / d as f64;
        }
    }
    a
}

fn tableau_c() -> [f64; 7] {
    let mut c = [0.0f64; 7];
    for i in 0..7 {
        let (n, d) = node_coef(i);
        c[i] = n as f64 / d as f64;
    }
    c
}

fn tableau_b() -> [[f64; 7]; 2] {
    let mut b = [[0.0f64; 7]; 2];
    for row in 0..2 {
        for j in 0..7 {
            let (n, d) = weight_coef(row, j);
            b[row][j] = n as f64 / d as f64;
        }
    }
    b
}

/// One Dormand-Prince 5(4) step: returns the fifth-order candidate, the
/// embedded error estimate, and the last stage derivative.
fn dopri5_step(
    t: f64,
    y: &[f64],
    f: &dyn Fn(f64, &[f64]) -> Vec<f64>,
    h: f64,
    k1: &Option<Vec<f64>>,
) -> (Vec<f64>, Vec<f64>, Vec<f64>) {
    let a = tableau_a();
    let c = tableau_c();
    let b = tableau_b();

    let k1v = match k1 {
        Some(k) => k.clone(),
        None => f(t, y),
    };
    let mut ks: Vec<Vec<f64>> = vec![k1v];
    for s in 1..6 {
        let mut point = y.to_vec();
        for j in 0..s {
            let coef = h * a[s - 1][j];
            for idx in 0..point.len() {
                point[idx] += coef * ks[j][idx];
            }
        }
        ks.push(f(t + c[s] * h, &point));
    }

    // fifth-order candidate; the second-stage weight is exactly zero and the
    // corresponding term is omitted
    let mut fifth = y.to_vec();
    for j in [0usize, 2, 3, 4, 5] {
        let coef = h * a[5][j];
        for idx in 0..fifth.len() {
            fifth[idx] += coef * ks[j][idx];
        }
    }
    let k7 = f(t + c[6] * h, &fifth);
    ks.push(k7);

    let mut fourth = y.to_vec();
    for j in [0usize, 2, 3, 4, 5, 6] {
        let coef = h * b[1][j];
        for idx in 0..fourth.len() {
            fourth[idx] += coef * ks[j][idx];
        }
    }
    let error: Vec<f64> = fifth.iter().zip(fourth.iter()).map(|(p, q)| p - q).collect();
    let k_last = ks.pop().unwrap();
    (fifth, error, k_last)
}

struct Sim {
    y: Vec<f64>,
    h: f64,
    num_calls: usize,
    accepted_ts: Vec<f64>,
    attempts: usize,
    first_attempt_accepted: bool,
    error_bound_held: bool,
}

fn integrate(
    t_span: [f64; 2],
    y0: &[f64],
    h0: f64,
    f: &dyn Fn(f64, &[f64]) -> Vec<f64>,
    rel_tol: f64,
    abs_tol: f64,
) -> Result<Sim, Error> {
    if let Err(e) = validate_input(t_span[0] > t_span[1], h0 <= 0.0) {
        return Err(Error::from(e));
    }

    let mut t = t_span[0];
    let mut y = y0.to_vec();
    let mut h = h0;
    let mut k1: Option<Vec<f64>> = None;
    let mut drv = Driver::new();
    let mut accepted_ts: Vec<f64> = Vec::new();
    let mut attempts: usize = 0;
    let mut first_attempt_accepted = false;
    let mut error_bound_held = true;

    while t < t_span[1] {
        h = h.min(t_span[1] - t);
        let t_next = t + h;

        assert_eq!(k1.is_some(), drv.fsal_cached());
        let (y5, err, k7) = dopri5_step(t, &y, f, h, &k1);

        let mut min_ratio = f64::INFINITY;
        for idx in 0..y5.len() {
            let allowed = (rel_tol * y5[idx]).abs().max(abs_tol);
            let ratio = (allowed / err[idx].abs()).clamp(1e-5, 1e5);
            if ratio < min_ratio {
                min_ratio = ratio;
            }
        }
        let accepted = !(min_ratio < 1.0);
        h = 0.9 * h * min_ratio.powf(1.0 / 5.0);

        attempts += 1;
        if attempts == 1 && accepted {
            first_attempt_accepted = true;
        }
        assert!(drv.num_calls() <= usize::MAX - 7);
        drv.record_attempt(accepted)?;

        if accepted {
            for idx in 0..y5.len() {
                if err[idx].abs() > (rel_tol * y5[idx]).abs().max(abs_tol) {
                    error_bound_held = false;
                }
            }
            t = t_next;
            y = y5;
            k1 = Some(k7);
            accepted_ts.push(t);
        }
    }

    Ok(Sim {
        y,
        h,
        num_calls: drv.num_calls(),
        accepted_ts,
        attempts,
        first_attempt_accepted,
        error_bound_held,
    })
}

fn exponential_rhs(_t: f64, y: &[f64]) -> Vec<f64> {
    y.iter().map(|v| -v).collect()
}

#[test]
fn exponential_decay_reaches_reference_solution() {
    let sim = integrate([0.0, 1.0], &[1.0], 0.01, &exponential_rhs, 1e-4, 1e-6).unwrap();
    let reference = f64::exp(-1.0);
    let tolerance = (1e-4 * reference).abs().max(1e-6);
    assert!((sim.y[0] - reference).abs() <= tolerance);
    assert!(sim.num_calls > 0);
}

#[test]
fn harmonic_oscillator_reaches_reference_solution() {
    let omega = 2.0 * std::f64::consts::PI;
    let f = move |_t: f64, y: &[f64]| vec![y[1], -omega * omega * y[0]];
    let sim = integrate([0.0, 1.0], &[1.0, 0.0], 0.01, &f, 1e-4, 1e-6).unwrap();
    let reference = [f64::cos(omega), -f64::sin(omega)];
    let tolerances = [
        (1e-4 * reference[0]).abs().max(2e-4),
        (1e-4 * reference[1]).abs().max(2e-4),
    ];
    assert!((sim.y[0] - reference[0]).abs() <= tolerances[0]);
    assert!((sim.y[1] - reference[1]).abs() <= tolerances[1]);
}

#[test]
fn repeated_runs_are_bit_identical() {
    let first = integrate([0.0, 1.0], &[1.0], 0.01, &exponential_rhs, 1e-4, 1e-6).unwrap();
    let second = integrate([0.0, 1.0], &[1.0], 0.01, &exponential_rhs, 1e-4, 1e-6).unwrap();
    assert_eq!(first.y.len(), second.y.len());
    for idx in 0..first.y.len() {
        assert_eq!(first.y[idx].to_bits(), second.y[idx].to_bits());
    }
    assert_eq!(first.h.to_bits(), second.h.to_bits());
    assert_eq!(first.num_calls, second.num_calls);
}

#[test]
fn accepted_times_increase_strictly_to_the_exact_end() {
    let sim = integrate([0.0, 1.0], &[1.0], 0.01, &exponential_rhs, 1e-4, 1e-6).unwrap();
    let mut prev = 0.0f64;
    for &t in &sim.accepted_ts {
        assert!(t > prev);
        assert!(t <= 1.0);
        prev = t;
    }
    assert_eq!(*sim.accepted_ts.last().unwrap(), 1.0);
}

#[test]
fn accepted_steps_stay_within_allowed_error() {
    let sim = integrate([0.0, 1.0], &[1.0], 0.01, &exponential_rhs, 1e-4, 1e-6).unwrap();
    assert!(sim.error_bound_held);
    let omega = 2.0 * std::f64::consts::PI;
    let f = move |_t: f64, y: &[f64]| vec![y[1], -omega * omega * y[0]];
    let sim2 = integrate([0.0, 1.0], &[1.0, 0.0], 0.01, &f, 1e-4, 1e-6).unwrap();
    assert!(sim2.error_bound_held);
}

#[test]
fn evaluation_count_matches_attempt_count() {
    let sim = integrate([0.0, 1.0], &[1.0], 0.01, &exponential_rhs, 1e-4, 1e-6).unwrap();
    assert!(sim.first_attempt_accepted);
    assert_eq!(sim.num_calls, 7 + 6 * (sim.attempts - 1));
    assert!(sim.attempts >= sim.accepted_ts.len());
}

#[test]
fn degenerate_interval_returns_initial_state_without_evaluations() {
    let sim = integrate([0.0, 0.0], &[1.0, 2.0], 0.01, &exponential_rhs, 1e-4, 1e-6).unwrap();
    assert_eq!(sim.y, vec![1.0, 2.0]);
    assert_eq!(sim.num_calls, 0);
    assert_eq!(sim.attempts, 0);
    assert_eq!(sim.h.to_bits(), 0.01f64.to_bits());
}

#[test]
fn chained_intervals_reuse_step_size_hint() {
    // Successive sub-intervals, feeding the returned step size back in as the
    // next initial guess, land close to a single full-interval run.
    let first = integrate([0.0, 0.5], &[1.0], 0.01, &exponential_rhs, 1e-4, 1e-6).unwrap();
    let second = integrate([0.5, 1.0], &first.y, first.h, &exponential_rhs, 1e-4, 1e-6).unwrap();
    let reference = f64::exp(-1.0);
    assert!((second.y[0] - reference).abs() <= 1e-3);
}

#[test]
fn zero_tolerances_fail_with_convergence_error() {
    let r = integrate([0.0, 1.0], &[1.0], 0.01, &exponential_rhs, 0.0, 0.0);
    assert_eq!(r.err(), Some(Error::Convergence));
}

#[test]
fn invalid_inputs_fail_before_any_evaluation() {
    let r = integrate([1.0, 0.0], &[1.0], 0.01, &exponential_rhs, 1e-4, 1e-6);
    assert_eq!(r.err(), Some(Error::Input(InputError::TimeSpan)));
    let r2 = integrate([0.0, 1.0], &[1.0], 0.0, &exponential_rhs, 1e-4, 1e-6);
    assert_eq!(r2.err(), Some(Error::Input(InputError::StepSize)));
    let r3 = integrate([0.0, 1.0], &[1.0], -0.01, &exponential_rhs, 1e-4, 1e-6);
    assert_eq!(r3.err(), Some(Error::Input(InputError::StepSize)));
}
