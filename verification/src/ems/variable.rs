//! ERL variable management.
//!
//! Variables hold runtime values (numbers, null, error). The variable
//! manager provides named lookup, read-only protection and initialization
//! tracking.

use vstd::prelude::*;

verus! {

/// Value that an ERL variable can hold.
#[derive(Debug, Clone)]
pub enum ErlValue<N> {
    Null,
    Number(N),
    Error(String),
}

impl<N> Default for ErlValue<N> {
    fn default() -> (r: Self)
        ensures
            r is Null,
    {
        ErlValue::Null
    }
}

impl<N> ErlValue<N> {
    pub fn is_null(&self) -> (r: bool)
        ensures
            r == (*self is Null),
    {
        matches!(self, ErlValue::Null)
    }

    pub fn is_error(&self) -> (r: bool)
        ensures
            r == (*self is Error),
    {
        matches!(self, ErlValue::Error(_))
    }
}

impl<N: Copy + Default> ErlValue<N> {
    /// The number held, or the numeric type's default (zero) for null and
    /// error values.
    pub fn as_number(&self) -> (r: N)
        ensures
            *self is Number ==> r == self->Number_0,
            !(*self is Number) ==> call_ensures(N::default, (), r),
    {
        match self {
            ErlValue::Number(n) => *n,
            _ => N::default(),
        }
    }
}

/// A named ERL variable.
#[derive(Debug, Clone)]
pub struct ErlVariable<N> {
    pub name: String,
    pub value: ErlValue<N>,
    pub read_only: bool,
    pub initialized: bool,
}

/// ASCII lower-casing of one byte.
pub open spec fn ascii_lower(b: u8) -> u8 {
    if 65 <= b <= 90 {
        (b + 32) as u8
    } else {
        b
    }
}

/// Two byte strings are equal once ASCII letters are lower-cased.
pub open spec fn ascii_case_insensitive_eq(a: Seq<u8>, b: Seq<u8>) -> bool {
    &&& a.len() == b.len()
    &&& forall|i: int| 0 <= i < a.len() ==> #[trigger] ascii_lower(a[i]) == ascii_lower(b[i])
}

/// The variable's name matches `key` regardless of ASCII case.
pub open spec fn name_matches<N>(v: ErlVariable<N>, key: Seq<char>) -> bool {
    ascii_case_insensitive_eq(
        vstd::utf8::encode_utf8(v.name@),
        vstd::utf8::encode_utf8(key),
    )
}

fn lower_byte(b: u8) -> (r: u8)
    ensures
        r == ascii_lower(b),
{
    if b >= 65 && b <= 90 {
        b + 32
    } else {
        b
    }
}

/// `str::eq_ignore_ascii_case`, byte by byte.
fn eq_ignore_ascii_case(a: &str, b: &str) -> (r: bool)
    ensures
        r == ascii_case_insensitive_eq(
            vstd::utf8::encode_utf8(a@),
            vstd::utf8::encode_utf8(b@),
        ),
{
    let x = a.as_bytes();
    let y = b.as_bytes();
    if x.len() != y.len() {
        return false;
    }
    let mut i: usize = 0;
    while i < x.len()
        invariant
            x@ == vstd::utf8::encode_utf8(a@),
            y@ == vstd::utf8::encode_utf8(b@),
            x.len() == y.len(),
            i <= x.len(),
            forall|j: int| 0 <= j < i ==> #[trigger] ascii_lower(x@[j]) == ascii_lower(y@[j]),
        decreases x.len() - i,
    {
        if lower_byte(x[i]) != lower_byte(y[i]) {
            return false;
        }
        i += 1;
    }
    true
}

/// The variable table after assigning `value` to variable `index`: a
/// writable variable takes the value and becomes initialized; read-only
/// variables and indices outside the table leave it unchanged.
pub open spec fn assigned<N>(vars: Seq<ErlVariable<N>>, index: int, value: ErlValue<N>) -> Seq<
    ErlVariable<N>,
> {
    if 0 <= index < vars.len() && !vars[index].read_only {
        vars.update(index, ErlVariable { value, initialized: true, ..vars[index] })
    } else {
        vars
    }
}

/// Manages the collection of ERL variables.
#[derive(Debug)]
pub struct VariableManager<N> {
    variables: Vec<ErlVariable<N>>,
}

impl<N> Default for VariableManager<N> {
    fn default() -> (r: Self)
        ensures
            r.vars() == Seq::<ErlVariable<N>>::empty(),
    {
        VariableManager { variables: Vec::new() }
    }
}

impl<N> VariableManager<N> {
    /// The variables in order of registration.
    pub closed spec fn vars(self) -> Seq<ErlVariable<N>> {
        self.variables@
    }

    /// Add a new user variable, returning its index.
    pub fn add(&mut self, name: &str, read_only: bool) -> (idx: usize)
        ensures
            idx == old(self).vars().len(),
            final(self).vars().len() == old(self).vars().len() + 1,
            final(self).vars().drop_last() == old(self).vars(),
            final(self).vars().last().name@ == name@,
            final(self).vars().last().value is Null,
            final(self).vars().last().read_only == read_only,
            !final(self).vars().last().initialized,
    {
        let idx = self.variables.len();
        self.variables.push(
            ErlVariable { name: name.to_owned(), value: ErlValue::Null, read_only, initialized: false },
        );
        proof {
            assert(self.variables@.drop_last() == old(self).variables@);
        }
        idx
    }

    /// Add a read-only, initialized variable holding `value`, as the
    /// built-in constants are.
    pub fn add_readonly(&mut self, name: &str, value: ErlValue<N>)
        ensures
            final(self).vars().len() == old(self).vars().len() + 1,
            final(self).vars().drop_last() == old(self).vars(),
            final(self).vars().last().name@ == name@,
            final(self).vars().last().value == value,
            final(self).vars().last().read_only,
            final(self).vars().last().initialized,
    {
        self.variables.push(
            ErlVariable { name: name.to_owned(), value, read_only: true, initialized: true },
        );
        proof {
            assert(self.variables@.drop_last() == old(self).variables@);
        }
    }

    /// Find a variable by name, ignoring ASCII case, returning the index of
    /// the first match.
    pub fn find(&self, name: &str) -> (r: Option<usize>)
        ensures
            match r {
                Some(i) => i < self.vars().len() && name_matches(self.vars()[i as int], name@)
                    && forall|j: int| 0 <= j < i ==> !name_matches(#[trigger] self.vars()[j], name@),
                None => forall|j: int|
                    0 <= j < self.vars().len() ==> !name_matches(#[trigger] self.vars()[j], name@),
            },
    {
        let mut i: usize = 0;
        while i < self.variables.len()
            invariant
                i <= self.variables.len(),
                forall|j: int| 0 <= j < i ==> !name_matches(#[trigger] self.variables@[j], name@),
            decreases self.variables.len() - i,
        {
            if eq_ignore_ascii_case(self.variables[i].name.as_str(), name) {
                return Some(i);
            }
            i += 1;
        }
        None
    }

    /// Get a variable's value by index.
    pub fn get(&self, index: usize) -> (r: Option<&ErlValue<N>>)
        ensures
            index < self.vars().len() ==> r == Some(&self.vars()[index as int].value),
            index >= self.vars().len() ==> r is None,
    {
        if index < self.variables.len() {
            Some(&self.variables[index].value)
        } else {
            None
        }
    }

    /// Set a variable's value by index; read-only variables and indices
    /// past the end are left alone.
    pub fn set(&mut self, index: usize, value: ErlValue<N>)
        ensures
            final(self).vars() == assigned(old(self).vars(), index as int, value),
    {
        if index < self.variables.len() {
            if !self.variables[index].read_only {
                self.variables[index].value = value;
                self.variables[index].initialized = true;
            }
        }
    }

    /// Number of variables.
    pub fn count(&self) -> (r: usize)
        ensures
            r == self.vars().len(),
    {
        self.variables.len()
    }

    /// Check if a variable is initialized.
    pub fn is_initialized(&self, index: usize) -> (r: bool)
        ensures
            r == (index < self.vars().len() && self.vars()[index as int].initialized),
    {
        index < self.variables.len() && self.variables[index].initialized
    }
}

/// What a read gives back of a write: after assigning to a writable
/// variable, that variable holds the value and is initialized; read-only
/// variables and out-of-range indices are left untouched, and no other
/// variable ever changes.
pub proof fn lemma_assignment<N>(vars: Seq<ErlVariable<N>>, index: int, value: ErlValue<N>)
    ensures
        assigned(vars, index, value).len() == vars.len(),
        0 <= index < vars.len() && !vars[index].read_only ==> {
            &&& assigned(vars, index, value)[index].value == value
            &&& assigned(vars, index, value)[index].initialized
            &&& assigned(vars, index, value)[index].name == vars[index].name
        },
        !(0 <= index < vars.len()) || vars[index].read_only ==> assigned(vars, index, value)
            == vars,
        forall|j: int|
            0 <= j < vars.len() && j != index ==> #[trigger] assigned(vars, index, value)[j]
                == vars[j],
{
}

} // verus!
