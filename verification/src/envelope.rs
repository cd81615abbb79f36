//! Time-stepping schemes of envelope conduction.

use vstd::prelude::*;

verus! {

/// Finite difference time-stepping scheme.
#[derive(Debug, Clone, Copy, PartialEq, Eq, Structural)]
pub enum CondFdScheme {
    /// Crank-Nicolson (theta = 0.5): second-order accurate, conditionally stable.
    /// Averages explicit and implicit contributions.
    CrankNicolson,
    /// Fully implicit (theta = 1.0): first-order accurate, unconditionally stable.
    FullyImplicit,
}

} // verus!
