//! Adaptive step-size integration of ordinary differential equations with an
//! explicit embedded Runge-Kutta pair.
//!
//! The floating-point stage arithmetic itself cannot be verified, so this
//! crate verifies everything around it: the Dormand-Prince coefficients as
//! exact rationals together with their consistency properties, the input
//! validation rules, and the driver bookkeeping (derivative-evaluation
//! counting, the first-same-as-last reuse decision, and the consecutive
//! rejection budget).

pub mod ode;
