//! Energy Management System (EMS) runtime.
//!
//! Provides sensors, actuators, Erl programs, trend variables and the
//! variable table they share. The numeric payload of Erl values is a type
//! parameter: the library moves values between sensors, variables,
//! actuators and trends, and decides the control flow of programs, while
//! the arithmetic of Erl expressions is left to the embedding.

pub mod variable;
pub mod actuator;
pub mod trend;
pub mod sensor;
pub mod program;
pub mod manager;
