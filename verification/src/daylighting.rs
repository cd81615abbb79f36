//! Sky types, glare categories and lighting control types of the
//! daylighting model.

use vstd::prelude::*;

verus! {

/// Lighting control type.
#[derive(Debug, Clone, Copy, PartialEq, Eq, Structural)]
pub enum LightingControlType {
    /// Continuous dimming from full to minimum power.
    Continuous,
    /// Discrete steps between full and off.
    Stepped,
    /// Continuous dimming with full off capability.
    ContinuousOff,
}

impl Default for LightingControlType {
    fn default() -> (r: Self)
        ensures
            r == LightingControlType::Continuous,
    {
        LightingControlType::Continuous
    }
}

/// Glare comfort categories based on DGI value.
#[derive(Debug, Clone, Copy, PartialEq, Eq, Structural)]
pub enum GlareCategory {
    /// DGI < 18: Imperceptible.
    Imperceptible,
    /// 18 <= DGI < 22: Perceptible.
    Perceptible,
    /// 22 <= DGI < 28: Disturbing.
    Disturbing,
    /// DGI >= 28: Intolerable.
    Intolerable,
}

/// CIE sky type.
#[derive(Debug, Clone, Copy, PartialEq, Eq, Structural)]
pub enum SkyType {
    Clear,
    ClearTurbid,
    Intermediate,
    Overcast,
}

} // verus!
