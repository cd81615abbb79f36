//! EMS sensor model.
//!
//! Sensors read simulation output variables and make them available to
//! ERL programs through the variable manager.

use vstd::prelude::*;

verus! {

/// An EMS sensor that reads an output variable.
#[derive(Debug, Clone)]
pub struct Sensor<N> {
    pub name: String,
    /// Output variable name to read (e.g., "Zone Mean Air Temperature").
    pub output_var_name: String,
    /// Key name for the output variable (e.g., zone name).
    pub key_name: String,
    /// Index into the variable manager.
    pub variable_index: Option<usize>,
    /// Current value read from the simulation.
    pub current_value: N,
}

impl<N: Default> Sensor<N> {
    /// A sensor not yet bound to a variable, reading the numeric type's
    /// default (zero).
    pub fn new(name: &str, output_var: &str, key: &str) -> (r: Self)
        ensures
            r.name@ == name@,
            r.output_var_name@ == output_var@,
            r.key_name@ == key@,
            r.variable_index is None,
            call_ensures(N::default, (), r.current_value),
    {
        Sensor {
            name: name.to_owned(),
            output_var_name: output_var.to_owned(),
            key_name: key.to_owned(),
            variable_index: None,
            current_value: N::default(),
        }
    }

    /// Update the sensor value from the simulation.
    pub fn update(&mut self, value: N)
        ensures
            *final(self) == (Sensor { current_value: value, ..*old(self) }),
    {
        self.current_value = value;
    }
}

} // verus!
