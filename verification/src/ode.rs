//! Error taxonomy shared by the integration entry points.

use vstd::prelude::*;

pub mod dopri5;

verus! {

/// Why an integration request was rejected before any step was attempted.
#[derive(Debug, Clone, Copy, PartialEq, Eq, Structural)]
pub enum InputError {
    /// The end of the requested interval precedes its start.
    TimeSpan,
    /// The initial step-size guess is not positive.
    StepSize,
}

/// Any way an integration can fail.
#[derive(Debug, Clone, Copy, PartialEq, Eq, Structural)]
pub enum Error {
    /// The input failed validation; no derivative evaluation was performed.
    Input(InputError),
    /// The step-size controller rejected more than the budgeted number of
    /// consecutive attempts at a single point.
    Convergence,
}

impl From<InputError> for Error {
    fn from(err: InputError) -> (r: Error)
        ensures
            r == Error::Input(err),
    {
        Error::Input(err)
    }
}

impl vstd::std_specs::convert::FromSpecImpl<InputError> for Error {
    open spec fn obeys_from_spec() -> bool {
        true
    }

    open spec fn from_spec(err: InputError) -> Self {
        Error::Input(err)
    }
}

} // verus!
