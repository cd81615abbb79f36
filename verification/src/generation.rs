//! Kinds of on-site generation equipment, storage modes and dispatch
//! schemes.

use vstd::prelude::*;

verus! {

/// Battery model type.
#[derive(Debug, Clone, Copy, PartialEq, Eq, Structural)]
pub enum BatteryModelType {
    /// Simple efficiency-based storage.
    SimpleBucket,
    /// Kinetic battery model (two-tank).
    Kinetic,
}

/// Battery storage mode.
#[derive(Debug, Clone, Copy, PartialEq, Eq, Structural)]
pub enum StorageMode {
    Idle,
    Charging,
    Discharging,
}

/// Generator fuel type.
#[derive(Debug, Clone, Copy, PartialEq, Eq, Structural)]
pub enum FuelType {
    NaturalGas,
    Diesel,
    Gasoline,
    Propane,
    Hydrogen,
}

/// Generator type.
#[derive(Debug, Clone, Copy, PartialEq, Eq, Structural)]
pub enum GeneratorType {
    /// Internal combustion engine.
    ICEngine,
    /// Combustion turbine.
    CombustionTurbine,
    /// Micro combined heat and power.
    MicroCHP,
}

/// Generator dispatch scheme.
#[derive(Debug, Clone, Copy, PartialEq, Eq, Structural)]
pub enum DispatchScheme {
    /// Generators run at constant rated output.
    BaseLoad,
    /// Generators modulate to limit demand below a threshold.
    DemandLimit,
    /// Generators follow facility electrical demand.
    TrackElectrical,
    /// Generators follow a scheduled power profile.
    TrackSchedule,
    /// Generators follow thermal demand (CHP).
    ThermalFollow,
}

/// Electric bus type.
#[derive(Debug, Clone, Copy, PartialEq, Eq, Structural)]
pub enum BusType {
    /// AC bus (generators produce AC directly).
    AcBus,
    /// DC bus with inverter.
    DcBusInverter,
    /// AC bus with storage.
    AcBusStorage,
}

/// PV model type.
#[derive(Debug, Clone, Copy, PartialEq, Eq, Structural)]
pub enum PvModelType {
    /// Fixed efficiency model.
    Simple,
    /// Equivalent one-diode circuit model (TRNSYS-based).
    OneDiode,
}

/// Cell temperature integration mode.
#[derive(Debug, Clone, Copy, PartialEq, Eq, Structural)]
pub enum CellIntegration {
    /// Decoupled energy balance.
    Decoupled,
    /// NOCT-based simple model.
    Noct,
}

/// Wind turbine rotor type.
#[derive(Debug, Clone, Copy, PartialEq, Eq, Structural)]
pub enum RotorType {
    HorizontalAxis,
    VerticalAxis,
}

} // verus!
