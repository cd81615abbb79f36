//! Verified core of a building energy simulation engine: calendar and
//! simulation clock, diagnostics, curve metadata, utility tariff periods,
//! the Erl runtime of the energy management system, FMI co-simulation
//! bookkeeping, the node and equation bookkeeping of the airflow network,
//! comfort and ventilation classification, component identification, and
//! the variable table of the external data-exchange interface.
pub mod time;
pub mod diagnostics;
pub mod curves;
pub mod plugin;
pub mod state;
pub mod tariff;
pub mod ems;
pub mod fmi;
pub mod error;
pub mod airflow;
pub mod comfort;
pub mod api;
pub mod component;
pub mod coils;
pub mod daylighting;
pub mod demand;
pub mod envelope;
pub mod fans;
pub mod fluids;
pub mod generation;
