//! Kinds and control strategies of heating and cooling coils and heat
//! exchangers.

use vstd::prelude::*;

verus! {

/// Defrost control strategy.
#[derive(Debug, Clone, Copy, PartialEq, Eq, Structural)]
pub enum DefrostControl {
    /// No defrost.
    NoDefrost,
    /// Reverse-cycle defrost (heat pump reverses to melt frost).
    ReverseCycle,
    /// Resistive defrost heater.
    Resistive,
    /// Timed defrost (fractional reduction in capacity).
    Timed,
}

impl Default for DefrostControl {
    fn default() -> (r: Self)
        ensures
            r == DefrostControl::NoDefrost,
    {
        DefrostControl::NoDefrost
    }
}

/// Heating coil fuel type.
#[derive(Debug, Clone, Copy, PartialEq, Eq, Structural)]
pub enum HeatingFuelType {
    Electric,
    NaturalGas,
    Propane,
    Steam,
}

/// Heat exchanger arrangement.
#[derive(Debug, Clone, Copy, PartialEq, Eq, Structural)]
pub enum HXType {
    /// Plate (fixed-plate, no latent by default).
    Plate,
    /// Rotary wheel (enthalpy wheel, typically has latent recovery).
    Rotary,
}

impl Default for HXType {
    fn default() -> (r: Self)
        ensures
            r == HXType::Plate,
    {
        HXType::Plate
    }
}

/// Frost control strategy for air-to-air heat exchangers.
#[derive(Debug, Clone, Copy, PartialEq, Eq, Structural)]
pub enum FrostControlType {
    /// No frost control.
    NoFrostControl,
    /// Limit minimum exhaust air temperature to prevent frost.
    MinimumExhaustTemp,
    /// Recirculate exhaust air to preheat supply.
    ExhaustAirRecirculation,
    /// Use exhaust air only (bypass supply).
    ExhaustOnly,
}

impl Default for FrostControlType {
    fn default() -> (r: Self)
        ensures
            r == FrostControlType::NoFrostControl,
    {
        FrostControlType::NoFrostControl
    }
}

/// Heat exchanger flow configuration.
#[derive(Debug, Clone, Copy, PartialEq, Eq, Structural)]
pub enum HeatExchangerType {
    /// Counterflow: hot and cold streams flow in opposite directions.
    CounterFlow,
    /// Crossflow: both streams unmixed.
    CrossFlow,
}

impl Default for HeatExchangerType {
    fn default() -> (r: Self)
        ensures
            r == HeatExchangerType::CounterFlow,
    {
        HeatExchangerType::CounterFlow
    }
}

} // verus!
