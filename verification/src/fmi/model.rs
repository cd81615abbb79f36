//! FMI model description and variable metadata.
//!
//! Represents the modelDescription.xml structure from FMI 2.0, defining
//! variables, their causality, variability, and data types.

use vstd::prelude::*;

verus! {

/// FMI variable causality.
#[derive(Debug, Clone, Copy, PartialEq, Eq, Structural)]
pub enum FmiCausality {
    /// Variable set by the environment (input to FMU).
    Input,
    /// Variable computed by the FMU (output from FMU).
    Output,
    /// Internal variable, not exchanged.
    Local,
    /// Fixed parameter.
    Parameter,
}

/// FMI variable variability.
#[derive(Debug, Clone, Copy, PartialEq, Eq, Structural)]
pub enum FmiVariability {
    /// Value never changes.
    Constant,
    /// Value changes only at events.
    Discrete,
    /// Value can change at any time.
    Continuous,
    /// Value is fixed after initialization.
    Fixed,
}

/// An FMI scalar variable.
#[derive(Debug, Clone)]
pub struct FmiVariable<N> {
    pub name: String,
    pub value_reference: u32,
    pub causality: FmiCausality,
    pub variability: FmiVariability,
    pub description: String,
    pub unit: String,
    pub initial_value: N,
}

impl<N: Default> FmiVariable<N> {
    /// A continuous input variable with no description or unit, starting at
    /// the numeric type's default (zero).
    pub fn input(name: &str, vr: u32) -> (r: Self)
        ensures
            r.name@ == name@,
            r.value_reference == vr,
            r.causality == FmiCausality::Input,
            r.variability == FmiVariability::Continuous,
            r.description@ == Seq::<char>::empty(),
            r.unit@ == Seq::<char>::empty(),
            call_ensures(N::default, (), r.initial_value),
    {
        FmiVariable {
            name: name.to_owned(),
            value_reference: vr,
            causality: FmiCausality::Input,
            variability: FmiVariability::Continuous,
            description: String::new(),
            unit: String::new(),
            initial_value: N::default(),
        }
    }

    /// A continuous output variable with no description or unit, starting
    /// at the numeric type's default (zero).
    pub fn output(name: &str, vr: u32) -> (r: Self)
        ensures
            r.name@ == name@,
            r.value_reference == vr,
            r.causality == FmiCausality::Output,
            r.variability == FmiVariability::Continuous,
            r.description@ == Seq::<char>::empty(),
            r.unit@ == Seq::<char>::empty(),
            call_ensures(N::default, (), r.initial_value),
    {
        FmiVariable {
            name: name.to_owned(),
            value_reference: vr,
            causality: FmiCausality::Output,
            variability: FmiVariability::Continuous,
            description: String::new(),
            unit: String::new(),
            initial_value: N::default(),
        }
    }

    pub fn with_initial(self, value: N) -> (r: Self)
        ensures
            r == (FmiVariable { initial_value: value, ..self }),
    {
        let mut v = self;
        v.initial_value = value;
        v
    }

    pub fn with_unit(self, unit: &str) -> (r: Self)
        ensures
            r.unit@ == unit@,
            r.name == self.name,
            r.value_reference == self.value_reference,
            r.causality == self.causality,
            r.variability == self.variability,
            r.description == self.description,
            r.initial_value == self.initial_value,
    {
        let mut v = self;
        v.unit = unit.to_owned();
        v
    }
}

/// FMI model description — metadata about an FMU.
#[derive(Debug, Clone)]
pub struct FmiModelDescription<N> {
    pub model_name: String,
    pub guid: String,
    pub fmi_version: String,
    pub variables: Vec<FmiVariable<N>>,
    /// Step size for co-simulation (seconds).
    pub default_step_size: N,
}

/// Positions of the variables with the given causality, in order.
pub open spec fn positions_with<N>(vars: Seq<FmiVariable<N>>, c: FmiCausality) -> Seq<int>
    decreases vars.len(),
{
    if vars.len() == 0 {
        Seq::empty()
    } else {
        positions_with(vars.drop_last(), c) + if vars.last().causality == c {
            seq![vars.len() - 1]
        } else {
            Seq::<int>::empty()
        }
    }
}

/// The positions with causality `c` are, in ascending order, exactly those
/// of the variables whose causality is `c`: every position listed holds a
/// variable of causality `c`, and every such variable is listed.
pub proof fn lemma_positions_with<N>(vars: Seq<FmiVariable<N>>, c: FmiCausality)
    ensures
        forall|k: int|
            0 <= k < positions_with(vars, c).len() ==> 0 <= #[trigger] positions_with(vars, c)[k]
                < vars.len() && vars[positions_with(vars, c)[k]].causality == c,
        forall|k1: int, k2: int|
            0 <= k1 < k2 < positions_with(vars, c).len() ==> #[trigger] positions_with(vars, c)[k1]
                < #[trigger] positions_with(vars, c)[k2],
        forall|i: int|
            0 <= i < vars.len() && (#[trigger] vars[i]).causality == c ==> exists|k: int|
                0 <= k < positions_with(vars, c).len() && positions_with(vars, c)[k] == i,
    decreases vars.len(),
{
    if vars.len() > 0 {
        let init = vars.drop_last();
        lemma_positions_with(init, c);
        let p = positions_with(init, c);
        let q = positions_with(vars, c);
        assert forall|k: int| 0 <= k < p.len() implies q[k] == p[k] by {}
        assert forall|k: int| 0 <= k < p.len() implies vars[p[k]] == init[p[k]] by {}
        assert forall|i: int|
            0 <= i < vars.len() && (#[trigger] vars[i]).causality == c implies exists|k: int|
            0 <= k < q.len() && q[k] == i by {
            if i == vars.len() - 1 {
                assert(q[p.len() as int] == i);
            } else {
                assert(init[i] == vars[i]);
                let k = choose|k: int| 0 <= k < p.len() && p[k] == i;
                assert(q[k] == i);
            }
        }
    }
}

impl<N: From<u16>> FmiModelDescription<N> {
    /// An FMI 2.0 description with no variables and a default step of 900
    /// seconds (15 minutes).
    pub fn new(model_name: &str, guid: &str) -> (r: Self)
        ensures
            r.model_name@ == model_name@,
            r.guid@ == guid@,
            r.fmi_version@ == "2.0"@,
            r.variables@.len() == 0,
            call_ensures(N::from, (900u16,), r.default_step_size),
    {
        FmiModelDescription {
            model_name: model_name.to_owned(),
            guid: guid.to_owned(),
            fmi_version: "2.0".to_owned(),
            variables: Vec::new(),
            default_step_size: N::from(900u16),
        }
    }
}

impl<N> FmiModelDescription<N> {
    pub fn add_variable(&mut self, var: FmiVariable<N>)
        ensures
            final(self).variables@ == old(self).variables@.push(var),
            final(self).model_name == old(self).model_name,
            final(self).guid == old(self).guid,
            final(self).fmi_version == old(self).fmi_version,
            final(self).default_step_size == old(self).default_step_size,
    {
        self.variables.push(var);
    }

    /// The variables with causality `c`, in order.
    fn with_causality(&self, c: FmiCausality) -> (r: Vec<&FmiVariable<N>>)
        ensures
            r@.len() == positions_with(self.variables@, c).len(),
            forall|k: int|
                0 <= k < r@.len() ==> *#[trigger] r@[k] == self.variables@[positions_with(
                    self.variables@,
                    c,
                )[k]],
    {
        let mut out: Vec<&FmiVariable<N>> = Vec::new();
        let mut i: usize = 0;
        while i < self.variables.len()
            invariant
                i <= self.variables.len(),
                out@.len() == positions_with(self.variables@.subrange(0, i as int), c).len(),
                forall|k: int|
                    0 <= k < out@.len() ==> {
                        &&& 0 <= #[trigger] positions_with(self.variables@.subrange(0, i as int), c)[k] < i
                        &&& *out@[k] == self.variables@[positions_with(
                            self.variables@.subrange(0, i as int),
                            c,
                        )[k]]
                    },
            decreases self.variables.len() - i,
        {
            proof {
                let s = self.variables@.subrange(0, i as int + 1);
                assert(s.drop_last() == self.variables@.subrange(0, i as int));
            }
            if self.variables[i].causality == c {
                out.push(&self.variables[i]);
            }
            i += 1;
        }
        proof {
            assert(self.variables@.subrange(0, i as int) == self.variables@);
        }
        out
    }

    /// The input variables, in order.
    pub fn inputs(&self) -> (r: Vec<&FmiVariable<N>>)
        ensures
            r@.len() == positions_with(self.variables@, FmiCausality::Input).len(),
            forall|k: int|
                0 <= k < r@.len() ==> *#[trigger] r@[k] == self.variables@[positions_with(
                    self.variables@,
                    FmiCausality::Input,
                )[k]],
            forall|k: int| 0 <= k < r@.len() ==> (#[trigger] r@[k]).causality == FmiCausality::Input,
            forall|i: int|
                0 <= i < self.variables@.len() && (#[trigger] self.variables@[i]).causality
                    == FmiCausality::Input ==> exists|k: int| 0 <= k < r@.len() && *r@[k] == self.variables@[i],
    {
        proof {
            lemma_positions_with(self.variables@, FmiCausality::Input);
        }
        let r = self.with_causality(FmiCausality::Input);
        proof {
            let p = positions_with(self.variables@, FmiCausality::Input);
            assert forall|i: int|
                0 <= i < self.variables@.len() && (#[trigger] self.variables@[i]).causality
                    == FmiCausality::Input implies exists|k: int| 0 <= k < r@.len() && *r@[k]
                == self.variables@[i] by {
                let k = choose|k: int| 0 <= k < p.len() && p[k] == i;
                assert(*r@[k] == self.variables@[i]);
            }
        }
        r
    }

    /// The output variables, in order.
    pub fn outputs(&self) -> (r: Vec<&FmiVariable<N>>)
        ensures
            r@.len() == positions_with(self.variables@, FmiCausality::Output).len(),
            forall|k: int|
                0 <= k < r@.len() ==> *#[trigger] r@[k] == self.variables@[positions_with(
                    self.variables@,
                    FmiCausality::Output,
                )[k]],
            forall|k: int| 0 <= k < r@.len() ==> (#[trigger] r@[k]).causality == FmiCausality::Output,
            forall|i: int|
                0 <= i < self.variables@.len() && (#[trigger] self.variables@[i]).causality
                    == FmiCausality::Output ==> exists|k: int| 0 <= k < r@.len() && *r@[k] == self.variables@[i],
    {
        proof {
            lemma_positions_with(self.variables@, FmiCausality::Output);
        }
        let r = self.with_causality(FmiCausality::Output);
        proof {
            let p = positions_with(self.variables@, FmiCausality::Output);
            assert forall|i: int|
                0 <= i < self.variables@.len() && (#[trigger] self.variables@[i]).causality
                    == FmiCausality::Output implies exists|k: int| 0 <= k < r@.len() && *r@[k]
                == self.variables@[i] by {
                let k = choose|k: int| 0 <= k < p.len() && p[k] == i;
                assert(*r@[k] == self.variables@[i]);
            }
        }
        r
    }

    /// The first variable named `name`.
    pub fn find_by_name(&self, name: &str) -> (r: Option<&FmiVariable<N>>)
        ensures
            match r {
                Some(v) => exists|i: int|
                    0 <= i < self.variables@.len() && self.variables@[i] == *v && v.name@ == name@
                        && forall|j: int|
                        0 <= j < i ==> (#[trigger] self.variables@[j]).name@ != name@,
                None => forall|j: int|
                    0 <= j < self.variables@.len() ==> (#[trigger] self.variables@[j]).name@
                        != name@,
            },
    {
        let key = name.to_owned();
        let mut i: usize = 0;
        while i < self.variables.len()
            invariant
                i <= self.variables.len(),
                key@ == name@,
                forall|j: int| 0 <= j < i ==> (#[trigger] self.variables@[j]).name@ != name@,
            decreases self.variables.len() - i,
        {
            if self.variables[i].name == key {
                return Some(&self.variables[i]);
            }
            i += 1;
        }
        None
    }

    /// The first variable with value reference `vr`.
    pub fn find_by_reference(&self, vr: u32) -> (r: Option<&FmiVariable<N>>)
        ensures
            match r {
                Some(v) => exists|i: int|
                    0 <= i < self.variables@.len() && self.variables@[i] == *v && v.value_reference
                        == vr && forall|j: int|
                        0 <= j < i ==> (#[trigger] self.variables@[j]).value_reference != vr,
                None => forall|j: int|
                    0 <= j < self.variables@.len() ==> (#[trigger] self.variables@[j]).value_reference
                        != vr,
            },
    {
        let mut i: usize = 0;
        while i < self.variables.len()
            invariant
                i <= self.variables.len(),
                forall|j: int| 0 <= j < i ==> (#[trigger] self.variables@[j]).value_reference != vr,
            decreases self.variables.len() - i,
        {
            if self.variables[i].value_reference == vr {
                return Some(&self.variables[i]);
            }
            i += 1;
        }
        None
    }
}

} // verus!
