//! Structured error types for the simulation engine.

use vstd::prelude::*;

verus! {

#[verifier::external_type_specification]
#[verifier::external_body]
pub struct ExJsonError(serde_json::Error);

#[verifier::external_type_specification]
#[verifier::external_body]
pub struct ExIoError(std::io::Error);

/// Convenience alias for simulation results.
pub type SimResult<T> = Result<T, SimError>;

/// Top-level simulation error type.
#[derive(Debug)]
pub enum SimError {
    InputError { object_type: String, object_name: String, message: String },
    ConvergenceError { solver: String, message: String, iterations: u32 },
    NumericalError(String),
    WeatherError(String),
    ScheduleError(String),
    IoError(std::io::Error),
    JsonError(serde_json::Error),
    FmiError(String),
    Other(String),
}

impl From<std::io::Error> for SimError {
    fn from(e: std::io::Error) -> (r: Self) {
        SimError::IoError(e)
    }
}

impl vstd::std_specs::convert::FromSpecImpl<std::io::Error> for SimError {
    open spec fn obeys_from_spec() -> bool {
        true
    }

    open spec fn from_spec(e: std::io::Error) -> Self {
        SimError::IoError(e)
    }
}

impl From<serde_json::Error> for SimError {
    fn from(e: serde_json::Error) -> (r: Self) {
        SimError::JsonError(e)
    }
}

impl vstd::std_specs::convert::FromSpecImpl<serde_json::Error> for SimError {
    open spec fn obeys_from_spec() -> bool {
        true
    }

    open spec fn from_spec(e: serde_json::Error) -> Self {
        SimError::JsonError(e)
    }
}

impl SimError {
    /// Create an input error with context.
    pub fn input(object_type: &str, object_name: &str, message: &str) -> (r: Self)
        ensures
            r matches SimError::InputError { object_type: t, object_name: n, message: m } && t@
                == object_type@ && n@ == object_name@ && m@ == message@,
    {
        SimError::InputError {
            object_type: object_type.to_owned(),
            object_name: object_name.to_owned(),
            message: message.to_owned(),
        }
    }

    /// Create a convergence error.
    pub fn convergence(solver: &str, message: &str, iterations: u32) -> (r: Self)
        ensures
            r matches SimError::ConvergenceError { solver: s, message: m, iterations: i } && s@
                == solver@ && m@ == message@ && i == iterations,
    {
        SimError::ConvergenceError {
            solver: solver.to_owned(),
            message: message.to_owned(),
            iterations,
        }
    }
}

} // verus!
