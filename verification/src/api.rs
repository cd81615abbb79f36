//! The data side of the engine's C interface: how configuration requests
//! are clamped, and the table of named variables that external programs
//! register, read and write through integer handles.

use vstd::prelude::*;

verus! {

/// Timesteps per hour taken from a request: clamped to `1..=60`.
pub fn timesteps_per_hour_setting(requested: i32) -> (r: u8)
    ensures
        r == if requested < 1 {
            1
        } else if requested > 60 {
            60
        } else {
            requested
        },
{
    if requested < 1 {
        1
    } else if requested > 60 {
        60
    } else {
        requested as u8
    }
}

/// Maximum warmup days taken from a request: at least one.
pub fn warmup_days_setting(requested: i32) -> (r: u32)
    ensures
        r == if requested < 1 {
            1
        } else {
            requested
        },
{
    if requested < 1 {
        1
    } else {
        requested as u32
    }
}

/// A named variable for data exchange with external programs.
#[derive(Debug, Clone)]
pub struct Variable<N> {
    pub name: String,
    pub key: String,
    pub value: N,
    pub writable: bool,
}

/// The handle `handle` names a registered variable.
pub open spec fn valid_handle<N>(vars: Seq<Variable<N>>, handle: i32) -> bool {
    0 <= handle < vars.len()
}

/// A write through `handle` is accepted: it names a writable variable.
pub open spec fn accepts_write<N>(vars: Seq<Variable<N>>, handle: i32) -> bool {
    valid_handle(vars, handle) && vars[handle as int].writable
}

/// The variables after writing `value` through `handle`: the variable
/// takes the value when the write is accepted; otherwise nothing changes.
pub open spec fn written<N>(vars: Seq<Variable<N>>, handle: i32, value: N) -> Seq<Variable<N>> {
    if accepts_write(vars, handle) {
        vars.update(handle as int, Variable { value, ..vars[handle as int] })
    } else {
        vars
    }
}

/// Registered variables, addressed by the handle that registration gave
/// out: the position in the table.
#[derive(Debug)]
pub struct VariableTable<N> {
    variables: Vec<Variable<N>>,
}

impl<N: Copy> VariableTable<N> {
    /// The variables in order of registration.
    pub closed spec fn vars(self) -> Seq<Variable<N>> {
        self.variables@
    }

    pub fn new() -> (t: Self)
        ensures
            t.vars() == Seq::<Variable<N>>::empty(),
    {
        VariableTable { variables: Vec::new() }
    }

    pub fn len(&self) -> (n: usize)
        ensures
            n == self.vars().len(),
    {
        self.variables.len()
    }

    /// Register a variable with the starting value `initial`; it is
    /// writable when `writable` is non-zero. Returns its handle, the next
    /// position of the table.
    pub fn register(&mut self, name: String, key: String, writable: i32, initial: N) -> (handle: i32)
        requires
            old(self).vars().len() < i32::MAX,
        ensures
            handle == old(self).vars().len(),
            final(self).vars() == old(self).vars().push(
                Variable { name, key, value: initial, writable: writable != 0 },
            ),
    {
        let handle = self.variables.len() as i32;
        self.variables.push(Variable { name, key, value: initial, writable: writable != 0 });
        handle
    }

    /// The value of the variable `handle`, or `None` when no variable has
    /// that handle.
    pub fn value_of(&self, handle: i32) -> (r: Option<N>)
        ensures
            valid_handle(self.vars(), handle) ==> r == Some(self.vars()[handle as int].value),
            !valid_handle(self.vars(), handle) ==> r is None,
    {
        if handle < 0 {
            return None;
        }
        let i = handle as usize;
        if i < self.variables.len() {
            Some(self.variables[i].value)
        } else {
            None
        }
    }

    /// Set the value of a writable variable. Returns 0 on success; -1,
    /// leaving the table unchanged, when the handle names no variable or a
    /// read-only one.
    pub fn set_value(&mut self, handle: i32, value: N) -> (r: i32)
        ensures
            r == if accepts_write(old(self).vars(), handle) {
                0i32
            } else {
                -1i32
            },
            final(self).vars() == written(old(self).vars(), handle, value),
    {
        if handle < 0 {
            return -1;
        }
        let i = handle as usize;
        if i < self.variables.len() && self.variables[i].writable {
            self.variables[i].value = value;
            0
        } else {
            -1
        }
    }
}

/// What a read gives back of a write: after writing `value` through a
/// handle that accepts writes, reading it gives `value`; a refused write
/// changes nothing; and no write touches another variable, nor a name,
/// key or writability.
pub proof fn lemma_write_then_read<N>(vars: Seq<Variable<N>>, handle: i32, value: N)
    ensures
        written(vars, handle, value).len() == vars.len(),
        accepts_write(vars, handle) ==> written(vars, handle, value)[handle as int].value == value,
        !accepts_write(vars, handle) ==> written(vars, handle, value) == vars,
        forall|i: int|
            0 <= i < vars.len() ==> {
                &&& #[trigger] written(vars, handle, value)[i].name == vars[i].name
                &&& written(vars, handle, value)[i].key == vars[i].key
                &&& written(vars, handle, value)[i].writable == vars[i].writable
            },
        forall|i: int|
            0 <= i < vars.len() && i != handle ==> #[trigger] written(vars, handle, value)[i]
                == vars[i],
{
}

} // verus!
