//! The EMS manager: the sensors, actuators, trends, programs and variable
//! table of one building, and how values move between them at a calling
//! point.

use vstd::prelude::*;
use crate::plugin::CallingPoint;
use super::actuator::{Actuator, ActuatorState};
use super::program::{ErlProgram, ProgramManager, programs_to_run, scheduled_programs};
use super::sensor::Sensor;
use super::trend::{TrendVariable, pushed_history};
use super::variable::{ErlValue, ErlVariable, VariableManager, assigned};

verus! {

/// `x` is what `as_number` gives for `v`: the number it holds, or the
/// numeric type's default for null and error values.
pub open spec fn reads_as<N: Default>(v: ErlValue<N>, x: N) -> bool {
    match v {
        ErlValue::Number(n) => x == n,
        _ => call_ensures(N::default, (), x),
    }
}

/// The variable table after each sensor bound to a variable, in order,
/// has written its current value into it.
pub open spec fn sensors_loaded<N>(vars: Seq<ErlVariable<N>>, sensors: Seq<Sensor<N>>) -> Seq<
    ErlVariable<N>,
>
    decreases sensors.len(),
{
    if sensors.len() == 0 {
        vars
    } else {
        let before = sensors_loaded(vars, sensors.drop_last());
        match sensors.last().variable_index {
            Some(i) => assigned(before, i as int, ErlValue::Number(sensors.last().current_value)),
            None => before,
        }
    }
}

/// Loading sensors writes each writable variable that a sensor is bound to:
/// it holds the current value of the last sensor bound to it and is
/// initialized, whatever it held before. Read-only variables and variables
/// that no sensor is bound to keep their entry, and no variable changes its
/// name or writability.
pub proof fn lemma_sensors_loaded<N>(vars: Seq<ErlVariable<N>>, sensors: Seq<Sensor<N>>)
    requires
        vars.len() <= usize::MAX,
    ensures
        sensors_loaded(vars, sensors).len() == vars.len(),
        forall|i: int|
            0 <= i < vars.len() ==> (#[trigger] sensors_loaded(vars, sensors)[i]).name == vars[i].name
                && sensors_loaded(vars, sensors)[i].read_only == vars[i].read_only,
        forall|k: int, i: int|
            #![trigger sensors[k], vars[i]]
            0 <= k < sensors.len() && 0 <= i < vars.len() && !vars[i].read_only
                && sensors[k].variable_index == Some(i as usize) && (forall|j: int|
                k < j < sensors.len() ==> sensors[j].variable_index != Some(i as usize)) ==> {
                &&& sensors_loaded(vars, sensors)[i].value == ErlValue::Number(sensors[k].current_value)
                &&& sensors_loaded(vars, sensors)[i].initialized
            },
        forall|i: int|
            0 <= i < vars.len() && (vars[i].read_only || forall|k: int|
                0 <= k < sensors.len() ==> sensors[k].variable_index != Some(i as usize)) ==> #[trigger] sensors_loaded(
                vars,
                sensors,
            )[i] == vars[i],
{
    lemma_loaded_len(vars, sensors);
    assert forall|i: int| 0 <= i < vars.len() implies (#[trigger] sensors_loaded(vars, sensors)[i]).name
        == vars[i].name && sensors_loaded(vars, sensors)[i].read_only == vars[i].read_only by {
        lemma_loaded_at(vars, sensors, i);
    }
    assert forall|k: int, i: int|
        #![trigger sensors[k], vars[i]]
        0 <= k < sensors.len() && 0 <= i < vars.len() && !vars[i].read_only
            && sensors[k].variable_index == Some(i as usize) && (forall|j: int|
            k < j < sensors.len() ==> sensors[j].variable_index != Some(i as usize)) implies {
        &&& sensors_loaded(vars, sensors)[i].value == ErlValue::Number(sensors[k].current_value)
        &&& sensors_loaded(vars, sensors)[i].initialized
    } by {
        lemma_loaded_at(vars, sensors, i);
    }
    assert forall|i: int|
        0 <= i < vars.len() && (vars[i].read_only || forall|k: int|
            0 <= k < sensors.len() ==> sensors[k].variable_index != Some(i as usize)) implies #[trigger] sensors_loaded(
        vars,
        sensors,
    )[i] == vars[i] by {
        lemma_loaded_at(vars, sensors, i);
    }
}

proof fn lemma_loaded_len<N>(vars: Seq<ErlVariable<N>>, sensors: Seq<Sensor<N>>)
    ensures
        sensors_loaded(vars, sensors).len() == vars.len(),
    decreases sensors.len(),
{
    if sensors.len() > 0 {
        lemma_loaded_len(vars, sensors.drop_last());
    }
}

proof fn lemma_loaded_at<N>(vars: Seq<ErlVariable<N>>, sensors: Seq<Sensor<N>>, i: int)
    requires
        0 <= i < vars.len() <= usize::MAX,
    ensures
        sensors_loaded(vars, sensors)[i].name == vars[i].name,
        sensors_loaded(vars, sensors)[i].read_only == vars[i].read_only,
        forall|k: int|
            0 <= k < sensors.len() && !vars[i].read_only && (#[trigger] sensors[k]).variable_index
                == Some(i as usize) && (forall|j: int|
                k < j < sensors.len() ==> (#[trigger] sensors[j]).variable_index != Some(i as usize))
                ==> sensors_loaded(vars, sensors)[i].value == ErlValue::Number(sensors[k].current_value)
                && sensors_loaded(vars, sensors)[i].initialized,
        vars[i].read_only || (forall|k: int|
            0 <= k < sensors.len() ==> (#[trigger] sensors[k]).variable_index != Some(i as usize))
            ==> sensors_loaded(vars, sensors)[i] == vars[i],
    decreases sensors.len(),
{
    if sensors.len() > 0 {
        let init = sensors.drop_last();
        let last = sensors.len() - 1;
        lemma_loaded_at(vars, init, i);
        lemma_loaded_len(vars, init);
        let before = sensors_loaded(vars, init);
        assert(sensors[last] == sensors.last());
        assert forall|k: int|
            0 <= k < sensors.len() && !vars[i].read_only && (#[trigger] sensors[k]).variable_index
                == Some(i as usize) && (forall|j: int|
                k < j < sensors.len() ==> (#[trigger] sensors[j]).variable_index != Some(i as usize))
                implies sensors_loaded(vars, sensors)[i].value == ErlValue::Number(
            sensors[k].current_value,
        ) && sensors_loaded(vars, sensors)[i].initialized by {
            if k == last {
                assert(sensors_loaded(vars, sensors) == assigned(
                    before,
                    i,
                    ErlValue::Number(sensors[k].current_value),
                ));
            } else {
                assert(sensors[last].variable_index != Some(i as usize));
                assert(init[k] == sensors[k]);
                assert forall|j: int| k < j < init.len() implies (#[trigger] init[j]).variable_index
                    != Some(i as usize) by {
                    assert(init[j] == sensors[j]);
                    assert(sensors[j].variable_index != Some(i as usize));
                }
            }
        }
        if !vars[i].read_only && (forall|k: int|
            0 <= k < sensors.len() ==> (#[trigger] sensors[k]).variable_index != Some(i as usize)) {
            assert(sensors[last].variable_index != Some(i as usize));
            assert forall|k: int| 0 <= k < init.len() implies (#[trigger] init[k]).variable_index != Some(
                i as usize,
            ) by {
                assert(init[k] == sensors[k]);
                assert(sensors[k].variable_index != Some(i as usize));
            }
        }
    }
}

/// The actuator reads a variable: it is active and bound to a variable
/// of the table.
pub open spec fn actuator_reads<N>(a: Actuator<N>, vars: Seq<ErlVariable<N>>) -> bool {
    a.is_active && a.variable_index is Some && a.variable_index->Some_0 < vars.len()
}

/// The trend logs a variable of the table.
pub open spec fn trend_reads<N>(t: TrendVariable<N>, vars: Seq<ErlVariable<N>>) -> bool {
    t.source() is Some && t.source()->Some_0 < vars.len()
}

/// EMS manager that holds all programs, variables, sensors, and actuators;
/// `N` is the numeric type of Erl values.
#[derive(Debug)]
pub struct EmsManager<N> {
    pub variables: VariableManager<N>,
    pub sensors: Vec<Sensor<N>>,
    pub actuators: Vec<Actuator<N>>,
    pub trends: Vec<TrendVariable<N>>,
    pub program_managers: Vec<ProgramManager>,
    pub programs: Vec<ErlProgram<N>>,
}

impl<N> Default for EmsManager<N> {
    fn default() -> (r: Self)
        ensures
            r.variables.vars().len() == 0,
            r.sensors@.len() == 0,
            r.actuators@.len() == 0,
            r.trends@.len() == 0,
            r.program_managers@.len() == 0,
            r.programs@.len() == 0,
    {
        EmsManager {
            variables: VariableManager::default(),
            sensors: Vec::new(),
            actuators: Vec::new(),
            trends: Vec::new(),
            program_managers: Vec::new(),
            programs: Vec::new(),
        }
    }
}

impl<N: Copy + Default> EmsManager<N> {
    /// Update sensor values into variables.
    pub fn load_sensors(&mut self)
        ensures
            final(self).variables.vars() == sensors_loaded(
                old(self).variables.vars(),
                old(self).sensors@,
            ),
            final(self).sensors == old(self).sensors,
            final(self).actuators == old(self).actuators,
            final(self).trends == old(self).trends,
            final(self).program_managers == old(self).program_managers,
            final(self).programs == old(self).programs,
    {
        let ghost start = self.variables.vars();
        let mut k: usize = 0;
        while k < self.sensors.len()
            invariant
                k <= self.sensors.len(),
                self.sensors == old(self).sensors,
                self.actuators == old(self).actuators,
                self.trends == old(self).trends,
                self.program_managers == old(self).program_managers,
                self.programs == old(self).programs,
                start == old(self).variables.vars(),
                self.variables.vars() == sensors_loaded(
                    start,
                    self.sensors@.subrange(0, k as int),
                ),
            decreases self.sensors.len() - k,
        {
            proof {
                let s = self.sensors@.subrange(0, k as int + 1);
                assert(s.drop_last() == self.sensors@.subrange(0, k as int));
                assert(s.last() == self.sensors@[k as int]);
            }
            if let Some(var_idx) = self.sensors[k].variable_index {
                let value = self.sensors[k].current_value;
                self.variables.set(var_idx, ErlValue::Number(value));
            }
            k += 1;
        }
        proof {
            assert(self.sensors@.subrange(0, k as int) == self.sensors@);
        }
    }

    /// The indices of the programs that the managers for `point` run, in
    /// order, skipping indices that name no program.
    pub fn programs_at(&self, point: CallingPoint) -> (r: Vec<usize>)
        ensures
            r@ == scheduled_programs(self.program_managers@, point, self.programs@.len()),
    {
        programs_to_run(&self.program_managers, point, self.programs.len())
    }

    /// Push actuator values from variables: every active actuator bound to
    /// a variable of the table is overridden with that variable's number.
    pub fn apply_actuators(&mut self)
        ensures
            final(self).actuators@.len() == old(self).actuators@.len(),
            forall|k: int|
                0 <= k < old(self).actuators@.len() ==> {
                    let a = #[trigger] old(self).actuators@[k];
                    let b = final(self).actuators@[k];
                    if actuator_reads(a, old(self).variables.vars()) {
                        &&& b.state is Overridden
                        &&& b == (Actuator { state: b.state, ..a })
                        &&& reads_as(
                            old(self).variables.vars()[a.variable_index->Some_0 as int].value,
                            b.state->Overridden_0,
                        )
                    } else {
                        b == a
                    }
                },
            final(self).variables == old(self).variables,
            final(self).sensors == old(self).sensors,
            final(self).trends == old(self).trends,
            final(self).program_managers == old(self).program_managers,
            final(self).programs == old(self).programs,
    {
        let mut k: usize = 0;
        while k < self.actuators.len()
            invariant
                k <= self.actuators.len(),
                self.actuators@.len() == old(self).actuators@.len(),
                self.variables == old(self).variables,
                self.sensors == old(self).sensors,
                self.trends == old(self).trends,
                self.program_managers == old(self).program_managers,
                self.programs == old(self).programs,
                forall|j: int| k <= j < self.actuators@.len() ==> #[trigger] self.actuators@[j] == old(self).actuators@[j],
                forall|j: int|
                    0 <= j < k ==> {
                        let a = #[trigger] old(self).actuators@[j];
                        let b = self.actuators@[j];
                        if actuator_reads(a, old(self).variables.vars()) {
                            &&& b.state is Overridden
                            &&& b == (Actuator { state: b.state, ..a })
                            &&& reads_as(
                                old(self).variables.vars()[a.variable_index->Some_0 as int].value,
                                b.state->Overridden_0,
                            )
                        } else {
                            b == a
                        }
                    },
            decreases self.actuators.len() - k,
        {
            if self.actuators[k].is_active {
                if let Some(var_idx) = self.actuators[k].variable_index {
                    if let Some(val) = self.variables.get(var_idx) {
                        let x = val.as_number();
                        self.actuators[k].state = ActuatorState::Overridden(x);
                    }
                }
            }
            k += 1;
        }
    }

    /// Log each trend's variable: every trend bound to a variable of the
    /// table records that variable's number.
    pub fn update_trends(&mut self)
        requires
            forall|k: int| 0 <= k < old(self).trends@.len() ==> (#[trigger] old(self).trends@[k]).wf(),
        ensures
            final(self).trends@.len() == old(self).trends@.len(),
            forall|k: int|
                0 <= k < old(self).trends@.len() ==> {
                    let a = #[trigger] old(self).trends@[k];
                    let b = final(self).trends@[k];
                    &&& b.wf()
                    &&& b.label() == a.label()
                    &&& b.source() == a.source()
                    &&& b.depth() == a.depth()
                    &&& if trend_reads(a, old(self).variables.vars()) {
                        exists|x: N|
                            reads_as(old(self).variables.vars()[a.source()->Some_0 as int].value, x)
                                && b.history() == pushed_history(a.history(), x, a.depth())
                    } else {
                        b.history() == a.history()
                    }
                },
            final(self).variables == old(self).variables,
            final(self).sensors == old(self).sensors,
            final(self).actuators == old(self).actuators,
            final(self).program_managers == old(self).program_managers,
            final(self).programs == old(self).programs,
    {
        let mut k: usize = 0;
        while k < self.trends.len()
            invariant
                k <= self.trends.len(),
                self.trends@.len() == old(self).trends@.len(),
                self.variables == old(self).variables,
                self.sensors == old(self).sensors,
                self.actuators == old(self).actuators,
                self.program_managers == old(self).program_managers,
                self.programs == old(self).programs,
                forall|j: int| k <= j < self.trends@.len() ==> #[trigger] self.trends@[j] == old(self).trends@[j],
                forall|j: int| 0 <= j < old(self).trends@.len() ==> (#[trigger] old(self).trends@[j]).wf(),
                forall|j: int|
                    0 <= j < k ==> {
                        let a = #[trigger] old(self).trends@[j];
                        let b = self.trends@[j];
                        &&& b.wf()
                        &&& b.label() == a.label()
                        &&& b.source() == a.source()
                        &&& b.depth() == a.depth()
                        &&& if trend_reads(a, old(self).variables.vars()) {
                            exists|x: N|
                                reads_as(old(self).variables.vars()[a.source()->Some_0 as int].value, x)
                                    && b.history() == pushed_history(a.history(), x, a.depth())
                        } else {
                            b.history() == a.history()
                        }
                    },
            decreases self.trends.len() - k,
        {
            if let Some(var_idx) = self.trends[k].source_variable() {
                if let Some(val) = self.variables.get(var_idx) {
                    let x = val.as_number();
                    self.trends[k].push(x);
                }
            }
            k += 1;
        }
    }
}

} // verus!
