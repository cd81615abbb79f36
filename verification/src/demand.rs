//! Kinds of demand managers and the conventions of life cycle cost
//! analysis.

use vstd::prelude::*;

verus! {

/// Demand manager type.
#[derive(Debug, Clone, Copy, PartialEq, Eq, Structural)]
pub enum DemandManagerType {
    Lights,
    ElectricEquipment,
    Thermostats,
    Ventilation,
    ExteriorLights,
}

/// Manager activation priority.
#[derive(Debug, Clone, Copy, PartialEq, Eq, Structural)]
pub enum ManagerPriority {
    /// Activate first capable manager.
    Sequential,
    /// Activate all managers simultaneously.
    All,
}

/// Load selection control.
#[derive(Debug, Clone, Copy, PartialEq, Eq, Structural)]
pub enum SelectionControl {
    /// Apply to all loads of this type.
    All,
    /// Rotate through subsets of loads.
    RotateMany,
    /// Rotate one load at a time.
    RotateOne,
}

/// Discounting convention (when within year PV is computed).
#[derive(Debug, Clone, Copy, PartialEq, Eq, Structural)]
pub enum DiscountConvention {
    /// PV factor at year start: 1/(1+r)^(year-1).
    BeginningOfYear,
    /// PV factor at mid-year: 1/(1+r)^(year-0.5).
    MidYear,
    /// PV factor at year end: 1/(1+r)^year.
    EndOfYear,
}

/// Inflation approach.
#[derive(Debug, Clone, Copy, PartialEq, Eq, Structural)]
pub enum InflationApproach {
    /// Real discount rate (excludes inflation).
    ConstantDollar,
    /// Nominal discount rate (includes inflation).
    CurrentDollar,
}

/// Cost category.
#[derive(Debug, Clone, Copy, PartialEq, Eq, Structural)]
pub enum CostCategory {
    Construction,
    Energy,
    Maintenance,
    Repair,
    Replacement,
    Operation,
    Salvage,
    OtherCapital,
    OtherOperational,
}

} // verus!
