//! Simulation control flags and environment metadata.

use vstd::prelude::*;

verus! {

/// Control flags of the simulation run.
#[derive(Debug)]
pub struct SimulationFlags {
    pub warmup: bool,
    pub sizing: bool,
    pub begin_environment: bool,
    pub begin_day: bool,
    pub begin_hour: bool,
    pub begin_timestep: bool,
    pub first_hvac_iteration: bool,
    pub hvac_converged: bool,
}

impl Default for SimulationFlags {
    /// Every flag cleared.
    fn default() -> (r: Self)
        ensures
            !r.warmup,
            !r.sizing,
            !r.begin_environment,
            !r.begin_day,
            !r.begin_hour,
            !r.begin_timestep,
            !r.first_hvac_iteration,
            !r.hvac_converged,
    {
        SimulationFlags {
            warmup: false,
            sizing: false,
            begin_environment: false,
            begin_day: false,
            begin_hour: false,
            begin_timestep: false,
            first_hvac_iteration: false,
            hvac_converged: false,
        }
    }
}

/// Environment type being simulated.
#[derive(Debug, Clone, Copy, PartialEq, Eq, Structural)]
pub enum EnvironmentType {
    DesignDay,
    WeatherRunPeriod,
    SizingPeriodDesignDay,
    SizingPeriodWeatherRunPeriod,
}

/// Current environment state.
#[derive(Debug)]
pub struct EnvironmentState {
    pub current_type: Option<EnvironmentType>,
    pub name: String,
    pub total_days: u32,
    pub current_day: u32,
}

impl Default for EnvironmentState {
    fn default() -> (r: Self)
        ensures
            r.current_type is None,
            r.name@ == Seq::<char>::empty(),
            r.total_days == 0,
            r.current_day == 0,
    {
        EnvironmentState { current_type: None, name: String::new(), total_days: 0, current_day: 0 }
    }
}

} // verus!
