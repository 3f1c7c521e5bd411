use finfoot::ode::dopri5::validate_input;
use finfoot::ode::{Error, InputError};

#[test]
fn reversed_time_span_is_rejected() {
    let t_span = [1.0f64, 0.0f64];
    let h0 = 0.01f64;
    let r = validate_input(t_span[0] > t_span[1], h0 <= 0.0);
    assert_eq!(r, Err(InputError::TimeSpan));
}

#[test]
fn zero_step_size_is_rejected() {
    let t_span = [0.0f64, 1.0f64];
    let h0 = 0.0f64;
    let r = validate_input(t_span[0] > t_span[1], h0 <= 0.0);
    assert_eq!(r, Err(InputError::StepSize));
}

#[test]
fn negative_step_size_is_rejected() {
    let t_span = [0.0f64, 1.0f64];
    let h0 = -0.5f64;
    let r = validate_input(t_span[0] > t_span[1], h0 <= 0.0);
    assert_eq!(r, Err(InputError::StepSize));
}

#[test]
fn time_span_check_precedes_step_size_check() {
    let t_span = [1.0f64, 0.0f64];
    let h0 = -1.0f64;
    let r = validate_input(t_span[0] > t_span[1], h0 <= 0.0);
    assert_eq!(r, Err(InputError::TimeSpan));
}

#[test]
fn valid_input_is_accepted() {
    let t_span = [0.0f64, 1.0f64];
    let h0 = 0.01f64;
    let r = validate_input(t_span[0] > t_span[1], h0 <= 0.0);
    assert_eq!(r, Ok(()));
}

#[test]
fn degenerate_time_span_is_accepted() {
    let t_span = [0.5f64, 0.5f64];
    let h0 = 0.01f64;
    let r = validate_input(t_span[0] > t_span[1], h0 <= 0.0);
    assert_eq!(r, Ok(()));
}

#[test]
fn input_error_wraps_into_error() {
    assert_eq!(Error::from(InputError::TimeSpan), Error::Input(InputError::TimeSpan));
    assert_eq!(Error::from(InputError::StepSize), Error::Input(InputError::StepSize));
}
