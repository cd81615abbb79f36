//! EMS actuator model.
//!
//! Actuators write control values to simulation components, overriding
//! their normal behavior when active.

use vstd::prelude::*;

verus! {

/// Actuator override state.
#[derive(Debug, Clone, Copy)]
pub enum ActuatorState<N> {
    /// Normal simulation control.
    Normal,
    /// EMS-overridden with specific value.
    Overridden(N),
}

impl<N> Default for ActuatorState<N> {
    fn default() -> (r: Self)
        ensures
            r is Normal,
    {
        ActuatorState::Normal
    }
}

/// An EMS actuator that writes to a simulation variable.
#[derive(Debug, Clone)]
pub struct Actuator<N> {
    pub name: String,
    /// Component type (e.g., "Schedule:Compact", "Lights").
    pub component_type: String,
    /// Control type (e.g., "Schedule Value", "Electricity Rate").
    pub control_type: String,
    /// Index into the variable manager for the control variable.
    pub variable_index: Option<usize>,
    /// Whether the actuator is currently active.
    pub is_active: bool,
    /// Current override state.
    pub state: ActuatorState<N>,
}

impl<N> Actuator<N> {
    /// The actuator overriding its component with `value`.
    pub open spec fn activated(self, value: N) -> Self {
        Actuator { is_active: true, state: ActuatorState::Overridden(value), ..self }
    }

    /// The actuator back under normal simulation control.
    pub open spec fn deactivated(self) -> Self {
        Actuator { is_active: false, state: ActuatorState::Normal, ..self }
    }

    /// The value the actuator imposes, if it overrides its component.
    pub open spec fn override_value(self) -> Option<N> {
        match self.state {
            ActuatorState::Overridden(v) => Some(v),
            ActuatorState::Normal => None,
        }
    }
}

impl<N: Copy> Actuator<N> {
    pub fn new(name: &str, component_type: &str, control_type: &str) -> (r: Self)
        ensures
            r.name@ == name@,
            r.component_type@ == component_type@,
            r.control_type@ == control_type@,
            r.variable_index is None,
            !r.is_active,
            r.state is Normal,
    {
        Actuator {
            name: name.to_owned(),
            component_type: component_type.to_owned(),
            control_type: control_type.to_owned(),
            variable_index: None,
            is_active: false,
            state: ActuatorState::Normal,
        }
    }

    /// Activate the actuator with a specific value.
    pub fn activate(&mut self, value: N)
        ensures
            *final(self) == old(self).activated(value),
    {
        self.is_active = true;
        self.state = ActuatorState::Overridden(value);
    }

    /// Deactivate, returning to normal simulation control.
    pub fn deactivate(&mut self)
        ensures
            *final(self) == old(self).deactivated(),
    {
        self.is_active = false;
        self.state = ActuatorState::Normal;
    }

    /// Get the current actuated value, if overridden.
    pub fn overridden_value(&self) -> (r: Option<N>)
        ensures
            r == self.override_value(),
    {
        match self.state {
            ActuatorState::Overridden(v) => Some(v),
            ActuatorState::Normal => None,
        }
    }
}

/// An activated actuator imposes the value it was activated with, the
/// last activation winning; deactivation ends the override and undoes the
/// activation entirely.
pub proof fn lemma_activation_cycle<N>(a: Actuator<N>, first: N, value: N)
    ensures
        a.activated(value).is_active,
        a.activated(value).override_value() == Some(value),
        a.activated(first).activated(value) == a.activated(value),
        !a.deactivated().is_active,
        a.deactivated().override_value() is None,
        a.activated(value).deactivated() == a.deactivated(),
{
}

} // verus!
