//! Identification of HVAC and plant components: what kind of equipment a
//! component is and where it sits in a plant loop.

use vstd::prelude::*;

verus! {

/// Which half of a plant loop a component is on.
#[derive(Debug, Clone, Copy, PartialEq, Eq, Hash, Structural)]
pub enum LoopSide {
    Supply,
    Demand,
}

/// Identifies a component's location in the plant topology.
#[derive(Debug, Clone, Copy, PartialEq, Eq, Hash, Structural)]
pub struct PlantLocation {
    pub loop_index: usize,
    pub side: LoopSide,
    pub branch_index: usize,
    pub component_index: usize,
}

/// Component type identifiers.
#[derive(Debug, Clone, Copy, PartialEq, Eq, Hash, Structural)]
pub enum ComponentType {
    Boiler,
    Chiller,
    CoolingTower,
    Pump,
    Fan,
    CoilCooling,
    CoilHeating,
    HeatExchanger,
    WaterHeater,
    Generator,
    Other,
}

} // verus!
