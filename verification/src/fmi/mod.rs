//! Functional Mock-up Interface (FMI) co-simulation support.
//!
//! Provides FMI 2.0 variable exchange, model description metadata, and
//! co-simulation step management. `N` is the numeric type of exchanged
//! values.

pub mod exchange;
pub mod model;
