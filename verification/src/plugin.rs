//! Calling points at which scripts and plugins can intervene.

use vstd::prelude::*;

verus! {

/// Calling points where scripts/plugins can intervene.
#[derive(Debug, Clone, Copy, PartialEq, Eq, Structural)]
pub enum CallingPoint {
    BeginNewEnvironment,
    AfterWarmup,
    BeginTimestep,
    BeforeHvac,
    AfterHvac,
    EndTimestep,
    EndEnvironment,
    EndSimulation,
}

} // verus!
