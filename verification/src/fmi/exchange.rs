//! FMI variable exchange and co-simulation step management.
//!
//! Manages the exchange of variables between the simulation engine and
//! external FMUs (or exposing the engine as an FMU).

use vstd::prelude::*;
use std::collections::HashMap;

verus! {

broadcast use vstd::std_specs::hash::group_hash_axioms;

/// Direction of variable exchange.
#[derive(Debug, Clone, Copy, PartialEq, Eq, Structural)]
pub enum VariableDirection {
    /// Simulation → FMU (FMU input).
    ToFmu,
    /// FMU → Simulation (FMU output).
    FromFmu,
}

/// A variable being exchanged via FMI.
#[derive(Debug, Clone)]
pub struct ExchangeVariable<N> {
    pub name: String,
    pub value_reference: u32,
    pub direction: VariableDirection,
    pub current_value: N,
    /// Internal variable key (e.g., schedule name, actuator name).
    pub internal_key: String,
}

impl<N: Default> ExchangeVariable<N> {
    /// A variable holding the numeric type's default (zero).
    pub fn new(name: &str, vr: u32, direction: VariableDirection, internal_key: &str) -> (r: Self)
        ensures
            r.name@ == name@,
            r.value_reference == vr,
            r.direction == direction,
            r.internal_key@ == internal_key@,
            call_ensures(N::default, (), r.current_value),
    {
        ExchangeVariable {
            name: name.to_owned(),
            value_reference: vr,
            direction,
            current_value: N::default(),
            internal_key: internal_key.to_owned(),
        }
    }
}

/// Co-simulation state.
#[derive(Debug, Clone, Copy, PartialEq, Eq, Structural)]
pub enum CoSimState {
    /// Not initialized.
    Uninitialized,
    /// Initialized and ready.
    Initialized,
    /// Running (stepping).
    Running,
    /// Terminated.
    Terminated,
    /// Error state.
    Error,
}

/// The message of a step refused in `state`: "Cannot step in state "
/// followed by the state's name.
pub open spec fn step_refusal_text(state: CoSimState) -> Seq<char> {
    match state {
        CoSimState::Uninitialized => "Cannot step in state Uninitialized"@,
        CoSimState::Initialized => "Cannot step in state Initialized"@,
        CoSimState::Running => "Cannot step in state Running"@,
        CoSimState::Terminated => "Cannot step in state Terminated"@,
        CoSimState::Error => "Cannot step in state Error"@,
    }
}

/// The message of a step refused in `state`.
fn step_refusal(state: CoSimState) -> (r: String)
    ensures
        r@ == step_refusal_text(state),
{
    let text = match state {
        CoSimState::Uninitialized => "Cannot step in state Uninitialized",
        CoSimState::Initialized => "Cannot step in state Initialized",
        CoSimState::Running => "Cannot step in state Running",
        CoSimState::Terminated => "Cannot step in state Terminated",
        CoSimState::Error => "Cannot step in state Error",
    };
    text.to_owned()
}

/// A co-simulation in `state` accepts a step.
pub open spec fn can_step(state: CoSimState) -> bool {
    state == CoSimState::Initialized || state == CoSimState::Running
}

/// The values map after each variable, in order, has stored its current
/// value under its value reference.
pub open spec fn stored_values<N>(m: Map<u32, N>, vars: Seq<ExchangeVariable<N>>) -> Map<u32, N>
    decreases vars.len(),
{
    if vars.len() == 0 {
        m
    } else {
        stored_values(m, vars.drop_last()).insert(vars.last().value_reference, vars.last().current_value)
    }
}

/// The output values by value reference: each output variable, in order,
/// stores its current value under its value reference.
pub open spec fn output_values<N>(vars: Seq<ExchangeVariable<N>>) -> Map<u32, N>
    decreases vars.len(),
{
    if vars.len() == 0 {
        Map::empty()
    } else if vars.last().direction == VariableDirection::FromFmu {
        output_values(vars.drop_last()).insert(vars.last().value_reference, vars.last().current_value)
    } else {
        output_values(vars.drop_last())
    }
}

/// Positions of the variables exchanged in direction `d`, in order.
pub open spec fn positions_towards<N>(vars: Seq<ExchangeVariable<N>>, d: VariableDirection) -> Seq<int>
    decreases vars.len(),
{
    if vars.len() == 0 {
        Seq::empty()
    } else {
        positions_towards(vars.drop_last(), d) + if vars.last().direction == d {
            seq![vars.len() - 1]
        } else {
            Seq::<int>::empty()
        }
    }
}

/// The variable after `set_real(vr, value)`: a variable with reference `vr`
/// takes the value, any other is unchanged.
pub open spec fn written<N>(v: ExchangeVariable<N>, vr: u32, value: N) -> ExchangeVariable<N> {
    if v.value_reference == vr {
        ExchangeVariable { current_value: value, ..v }
    } else {
        v
    }
}

/// Writing a value reference sets the value of every variable with that
/// reference and of no other; names, references, directions and keys stay.
pub proof fn lemma_written<N>(v: ExchangeVariable<N>, vr: u32, value: N)
    ensures
        v.value_reference == vr ==> written(v, vr, value).current_value == value,
        v.value_reference != vr ==> written(v, vr, value) == v,
        written(v, vr, value).name == v.name,
        written(v, vr, value).value_reference == v.value_reference,
        written(v, vr, value).direction == v.direction,
        written(v, vr, value).internal_key == v.internal_key,
{
}

/// The positions exchanged in direction `d` are, in ascending order,
/// exactly those of the variables exchanged in that direction.
pub proof fn lemma_positions_towards<N>(vars: Seq<ExchangeVariable<N>>, d: VariableDirection)
    ensures
        forall|k: int|
            0 <= k < positions_towards(vars, d).len() ==> 0 <= #[trigger] positions_towards(vars, d)[k]
                < vars.len() && vars[positions_towards(vars, d)[k]].direction == d,
        forall|k1: int, k2: int|
            0 <= k1 < k2 < positions_towards(vars, d).len() ==> #[trigger] positions_towards(vars, d)[k1]
                < #[trigger] positions_towards(vars, d)[k2],
        forall|i: int|
            0 <= i < vars.len() && (#[trigger] vars[i]).direction == d ==> exists|k: int|
                0 <= k < positions_towards(vars, d).len() && positions_towards(vars, d)[k] == i,
    decreases vars.len(),
{
    if vars.len() > 0 {
        let init = vars.drop_last();
        lemma_positions_towards(init, d);
        let p = positions_towards(init, d);
        let q = positions_towards(vars, d);
        assert forall|k: int| 0 <= k < p.len() implies q[k] == p[k] by {}
        assert forall|k: int| 0 <= k < p.len() implies vars[p[k]] == init[p[k]] by {}
        assert forall|i: int|
            0 <= i < vars.len() && (#[trigger] vars[i]).direction == d implies exists|k: int|
            0 <= k < q.len() && q[k] == i by {
            if i == vars.len() - 1 {
                assert(q[p.len() as int] == i);
            } else {
                assert(init[i] == vars[i]);
                let k = choose|k: int| 0 <= k < p.len() && p[k] == i;
                assert(q[k] == i);
            }
        }
    }
}

/// The collected outputs hold a value under `vr` exactly when some output
/// variable (exchanged from the FMU) has that reference, and the value is
/// the current value of the last such variable.
pub proof fn lemma_output_values<N>(vars: Seq<ExchangeVariable<N>>, vr: u32)
    ensures
        output_values(vars).contains_key(vr) <==> exists|i: int|
            0 <= i < vars.len() && (#[trigger] vars[i]).direction == VariableDirection::FromFmu
                && vars[i].value_reference == vr,
        forall|i: int|
            0 <= i < vars.len() && (#[trigger] vars[i]).direction == VariableDirection::FromFmu
                && vars[i].value_reference == vr && (forall|j: int|
                i < j < vars.len() ==> !((#[trigger] vars[j]).direction == VariableDirection::FromFmu
                    && vars[j].value_reference == vr)) ==> output_values(vars)[vr]
                == vars[i].current_value,
    decreases vars.len(),
{
    if vars.len() > 0 {
        let init = vars.drop_last();
        let last = vars.len() - 1;
        lemma_output_values(init, vr);
        assert(vars[last] == vars.last());
        assert forall|i: int| 0 <= i < init.len() implies init[i] == vars[i] by {}
        if output_values(vars).contains_key(vr) {
            if !(vars.last().direction == VariableDirection::FromFmu && vars.last().value_reference == vr) {
                let i = choose|i: int|
                    0 <= i < init.len() && (#[trigger] init[i]).direction == VariableDirection::FromFmu
                        && init[i].value_reference == vr;
                assert(vars[i] == init[i]);
            }
        }
        assert forall|i: int|
            0 <= i < vars.len() && (#[trigger] vars[i]).direction == VariableDirection::FromFmu
                && vars[i].value_reference == vr && (forall|j: int|
                i < j < vars.len() ==> !((#[trigger] vars[j]).direction == VariableDirection::FromFmu
                    && vars[j].value_reference == vr)) implies output_values(vars)[vr]
            == vars[i].current_value by {
            if i < last {
                assert(!(vars[last].direction == VariableDirection::FromFmu && vars[last].value_reference
                    == vr));
                assert forall|j: int| i < j < init.len() implies !((#[trigger] init[j]).direction
                    == VariableDirection::FromFmu && init[j].value_reference == vr) by {
                    assert(init[j] == vars[j]);
                }
            }
        }
    }
}

/// Storing the variables into a buffer puts under each value reference of
/// a variable the current value of the last variable with that reference,
/// and leaves the buffer's other entries as they were.
pub proof fn lemma_stored_values<N>(m: Map<u32, N>, vars: Seq<ExchangeVariable<N>>, vr: u32)
    ensures
        stored_values(m, vars).contains_key(vr) <==> m.contains_key(vr) || exists|i: int|
            0 <= i < vars.len() && (#[trigger] vars[i]).value_reference == vr,
        forall|i: int|
            0 <= i < vars.len() && (#[trigger] vars[i]).value_reference == vr && (forall|j: int|
                i < j < vars.len() ==> (#[trigger] vars[j]).value_reference != vr) ==> stored_values(
                m,
                vars,
            )[vr] == vars[i].current_value,
        (forall|i: int| 0 <= i < vars.len() ==> (#[trigger] vars[i]).value_reference != vr)
            ==> stored_values(m, vars).contains_key(vr) == m.contains_key(vr) && (m.contains_key(vr)
            ==> stored_values(m, vars)[vr] == m[vr]),
{
    lemma_stored_keys(m, vars, vr);
    assert forall|i: int|
        0 <= i < vars.len() && (#[trigger] vars[i]).value_reference == vr && (forall|j: int|
            i < j < vars.len() ==> (#[trigger] vars[j]).value_reference != vr) implies stored_values(
        m,
        vars,
    )[vr] == vars[i].current_value by {
        lemma_stored_last(m, vars, vr, i);
    }
    if forall|i: int| 0 <= i < vars.len() ==> (#[trigger] vars[i]).value_reference != vr {
        lemma_stored_untouched(m, vars, vr);
    }
}

proof fn lemma_stored_keys<N>(m: Map<u32, N>, vars: Seq<ExchangeVariable<N>>, vr: u32)
    ensures
        stored_values(m, vars).contains_key(vr) <==> m.contains_key(vr) || exists|i: int|
            0 <= i < vars.len() && (#[trigger] vars[i]).value_reference == vr,
    decreases vars.len(),
{
    if vars.len() > 0 {
        let init = vars.drop_last();
        lemma_stored_keys(m, init, vr);
        assert(vars[vars.len() - 1] == vars.last());
        if exists|i: int| 0 <= i < init.len() && (#[trigger] init[i]).value_reference == vr {
            let i = choose|i: int| 0 <= i < init.len() && (#[trigger] init[i]).value_reference == vr;
            assert(vars[i] == init[i]);
        }
        if exists|i: int| 0 <= i < vars.len() && (#[trigger] vars[i]).value_reference == vr {
            let i = choose|i: int| 0 <= i < vars.len() && (#[trigger] vars[i]).value_reference == vr;
            if i < vars.len() - 1 {
                assert(init[i] == vars[i]);
            }
        }
    }
}

proof fn lemma_stored_last<N>(m: Map<u32, N>, vars: Seq<ExchangeVariable<N>>, vr: u32, i: int)
    requires
        0 <= i < vars.len(),
        vars[i].value_reference == vr,
        forall|j: int| i < j < vars.len() ==> (#[trigger] vars[j]).value_reference != vr,
    ensures
        stored_values(m, vars)[vr] == vars[i].current_value,
    decreases vars.len(),
{
    let init = vars.drop_last();
    let last = vars.len() - 1;
    assert(vars[last] == vars.last());
    if i < last {
        assert(vars[last].value_reference != vr);
        assert(init[i] == vars[i]);
        assert forall|j: int| i < j < init.len() implies (#[trigger] init[j]).value_reference != vr by {
            assert(init[j] == vars[j]);
        }
        lemma_stored_last(m, init, vr, i);
    }
}

proof fn lemma_stored_untouched<N>(m: Map<u32, N>, vars: Seq<ExchangeVariable<N>>, vr: u32)
    requires
        forall|i: int| 0 <= i < vars.len() ==> (#[trigger] vars[i]).value_reference != vr,
    ensures
        stored_values(m, vars).contains_key(vr) == m.contains_key(vr),
        m.contains_key(vr) ==> stored_values(m, vars)[vr] == m[vr],
    decreases vars.len(),
{
    if vars.len() > 0 {
        let init = vars.drop_last();
        assert(vars[vars.len() - 1] == vars.last());
        assert forall|i: int| 0 <= i < init.len() implies (#[trigger] init[i]).value_reference != vr by {
            assert(init[i] == vars[i]);
        }
        lemma_stored_untouched(m, init, vr);
    }
}

/// Manager for FMI variable exchange: the variables, the value buffer and
/// the co-simulation state. The simulation clock of a co-simulation is
/// kept by the embedding, which advances it by the communication step
/// after each accepted step.
#[derive(Debug)]
pub struct ExchangeManager<N> {
    pub variables: Vec<ExchangeVariable<N>>,
    pub state: CoSimState,
    /// Value buffer indexed by value_reference.
    values: HashMap<u32, N>,
}

impl<N> ExchangeManager<N> {
    /// The exchanged variables, in order.
    pub closed spec fn vars(self) -> Seq<ExchangeVariable<N>> {
        self.variables@
    }

    /// The co-simulation state.
    pub closed spec fn status(self) -> CoSimState {
        self.state
    }

    /// The value buffer, by value reference.
    pub closed spec fn buffer(self) -> Map<u32, N> {
        self.values@
    }
}

impl<N: Copy> ExchangeManager<N> {
    pub fn new() -> (r: Self)
        ensures
            r.vars().len() == 0,
            r.status() == CoSimState::Uninitialized,
            r.buffer() == Map::<u32, N>::empty(),
    {
        ExchangeManager {
            variables: Vec::new(),
            state: CoSimState::Uninitialized,
            values: HashMap::new(),
        }
    }

    /// Add an exchange variable.
    pub fn add_variable(&mut self, var: ExchangeVariable<N>)
        ensures
            final(self).buffer() == old(self).buffer().insert(var.value_reference, var.current_value),
            final(self).vars() == old(self).vars().push(var),
            final(self).status() == old(self).status(),
    {
        self.values.insert(var.value_reference, var.current_value);
        self.variables.push(var);
    }

    /// Initialize the exchange: every variable's current value goes into
    /// the buffer, the clock restarts and the co-simulation is ready.
    pub fn initialize(&mut self)
        ensures
            final(self).buffer() == stored_values(old(self).buffer(), old(self).vars()),
            final(self).vars() == old(self).vars(),
            final(self).status() == CoSimState::Initialized,
    {
        let mut i: usize = 0;
        while i < self.variables.len()
            invariant
                i <= self.variables.len(),
                self.vars() == old(self).vars(),
                self.status() == old(self).status(),
                self.values@ == stored_values(old(self).values@, self.vars().subrange(0, i as int)),
            decreases self.variables.len() - i,
        {
            proof {
                let s = self.vars().subrange(0, i as int + 1);
                assert(s.drop_last() == self.vars().subrange(0, i as int));
            }
            let vr = self.variables[i].value_reference;
            let v = self.variables[i].current_value;
            self.values.insert(vr, v);
            i += 1;
        }
        proof {
            assert(self.vars().subrange(0, i as int) == self.vars());
        }
        self.state = CoSimState::Initialized;
    }

    /// Get value by value reference.
    pub fn get_real(&self, vr: u32) -> (r: Option<N>)
        ensures
            r == if self.buffer().contains_key(vr) {
                Some(self.buffer()[vr])
            } else {
                None::<N>
            },
    {
        match self.values.get(&vr) {
            Some(v) => Some(*v),
            None => None,
        }
    }

    /// Set value by value reference, in the buffer and in every variable
    /// with that reference.
    pub fn set_real(&mut self, vr: u32, value: N)
        ensures
            final(self).buffer() == old(self).buffer().insert(vr, value),
            final(self).vars().len() == old(self).vars().len(),
            forall|k: int|
                0 <= k < old(self).vars().len() ==> #[trigger] final(self).vars()[k] == written(
                    old(self).vars()[k],
                    vr,
                    value,
                ),
            final(self).status() == old(self).status(),
    {
        self.values.insert(vr, value);
        let mut i: usize = 0;
        while i < self.variables.len()
            invariant
                i <= self.variables.len(),
                self.vars().len() == old(self).vars().len(),
                self.values@ == old(self).values@.insert(vr, value),
                self.status() == old(self).status(),
                forall|k: int| i <= k < self.vars().len() ==> #[trigger] self.vars()[k] == old(self).vars()[k],
                forall|k: int|
                    0 <= k < i ==> #[trigger] self.vars()[k] == if old(self).vars()[k].value_reference
                        == vr {
                        ExchangeVariable { current_value: value, ..old(self).vars()[k] }
                    } else {
                        old(self).vars()[k]
                    },
            decreases self.variables.len() - i,
        {
            if self.variables[i].value_reference == vr {
                self.variables[i].current_value = value;
            }
            i += 1;
        }
    }

    /// Perform a co-simulation step. Returns Ok(()) if the step completed:
    /// only an initialized or running co-simulation steps, and it is
    /// running afterwards; a refused step changes nothing.
    pub fn do_step(&mut self) -> (r: Result<(), String>)
        ensures
            r is Ok <==> can_step(old(self).status()),
            r is Ok ==> final(self).status() == CoSimState::Running,
            r matches Err(e) ==> e@ == step_refusal_text(old(self).status()) && final(self).status()
                == old(self).status(),
            final(self).vars() == old(self).vars(),
            final(self).buffer() == old(self).buffer(),
    {
        if self.state != CoSimState::Initialized && self.state != CoSimState::Running {
            return Err(step_refusal(self.state));
        }
        self.state = CoSimState::Running;
        Ok(())
    }

    /// Terminate the co-simulation.
    pub fn terminate(&mut self)
        ensures
            final(self).status() == CoSimState::Terminated,
            final(self).vars() == old(self).vars(),
            final(self).buffer() == old(self).buffer(),
    {
        self.state = CoSimState::Terminated;
    }

    /// The variables exchanged in direction `d`, in order.
    fn towards(&self, d: VariableDirection) -> (r: Vec<&ExchangeVariable<N>>)
        ensures
            r@.len() == positions_towards(self.vars(), d).len(),
            forall|k: int|
                0 <= k < r@.len() ==> *#[trigger] r@[k] == self.vars()[positions_towards(
                    self.vars(),
                    d,
                )[k]],
    {
        let mut out: Vec<&ExchangeVariable<N>> = Vec::new();
        let mut i: usize = 0;
        while i < self.variables.len()
            invariant
                i <= self.variables.len(),
                out@.len() == positions_towards(self.vars().subrange(0, i as int), d).len(),
                forall|k: int|
                    0 <= k < out@.len() ==> {
                        &&& 0 <= #[trigger] positions_towards(self.vars().subrange(0, i as int), d)[k] < i
                        &&& *out@[k] == self.vars()[positions_towards(
                            self.vars().subrange(0, i as int),
                            d,
                        )[k]]
                    },
            decreases self.variables.len() - i,
        {
            proof {
                let s = self.vars().subrange(0, i as int + 1);
                assert(s.drop_last() == self.vars().subrange(0, i as int));
            }
            if self.variables[i].direction == d {
                out.push(&self.variables[i]);
            }
            i += 1;
        }
        proof {
            assert(self.vars().subrange(0, i as int) == self.vars());
        }
        out
    }

    /// Get all input variables (ToFmu direction).
    pub fn inputs(&self) -> (r: Vec<&ExchangeVariable<N>>)
        ensures
            r@.len() == positions_towards(self.vars(), VariableDirection::ToFmu).len(),
            forall|k: int|
                0 <= k < r@.len() ==> *#[trigger] r@[k] == self.vars()[positions_towards(
                    self.vars(),
                    VariableDirection::ToFmu,
                )[k]],
    {
        self.towards(VariableDirection::ToFmu)
    }

    /// Get all output variables (FromFmu direction).
    pub fn outputs(&self) -> (r: Vec<&ExchangeVariable<N>>)
        ensures
            r@.len() == positions_towards(self.vars(), VariableDirection::FromFmu).len(),
            forall|k: int|
                0 <= k < r@.len() ==> *#[trigger] r@[k] == self.vars()[positions_towards(
                    self.vars(),
                    VariableDirection::FromFmu,
                )[k]],
    {
        self.towards(VariableDirection::FromFmu)
    }

    /// Collect all output values into a map.
    pub fn collect_outputs(&self) -> (r: HashMap<u32, N>)
        ensures
            r@ == output_values(self.vars()),
    {
        let mut out: HashMap<u32, N> = HashMap::new();
        let mut i: usize = 0;
        while i < self.variables.len()
            invariant
                i <= self.variables.len(),
                out@ == output_values(self.vars().subrange(0, i as int)),
            decreases self.variables.len() - i,
        {
            proof {
                let s = self.vars().subrange(0, i as int + 1);
                assert(s.drop_last() == self.vars().subrange(0, i as int));
            }
            if self.variables[i].direction == VariableDirection::FromFmu {
                out.insert(self.variables[i].value_reference, self.variables[i].current_value);
            }
            i += 1;
        }
        proof {
            assert(self.vars().subrange(0, i as int) == self.vars());
        }
        out
    }
}

/// What a read gives back of a write: after `set_real(vr, value)` the
/// buffer holds `value` under `vr` and every other reference keeps its
/// value.
pub proof fn lemma_set_then_get<N>(buffer: Map<u32, N>, vr: u32, value: N, other: u32)
    ensures
        buffer.insert(vr, value).contains_key(vr),
        buffer.insert(vr, value)[vr] == value,
        other != vr ==> (buffer.insert(vr, value).contains_key(other) == buffer.contains_key(other)),
        other != vr && buffer.contains_key(other) ==> buffer.insert(vr, value)[other]
            == buffer[other],
{
}

} // verus!
