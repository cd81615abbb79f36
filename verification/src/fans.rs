//! Fan types and operating modes.

use vstd::prelude::*;

verus! {

/// Fan type.
#[derive(Debug, Clone, Copy, PartialEq, Eq, Structural)]
pub enum FanType {
    /// Constant volume: runs at design flow whenever on.
    ConstantVolume,
    /// Variable volume: modulates flow between min and max.
    VariableVolume,
    /// On-off: cycles between full flow and zero flow.
    OnOff,
}

/// Fan operating mode.
#[derive(Debug, Clone, Copy, PartialEq, Eq, Structural)]
pub enum FanOperatingMode {
    /// Fan runs continuously when system is on.
    Continuous,
    /// Fan cycles on/off based on part-load ratio.
    Cycling,
}

impl Default for FanOperatingMode {
    fn default() -> (r: Self)
        ensures
            r == FanOperatingMode::Continuous,
    {
        FanOperatingMode::Continuous
    }
}

} // verus!
