//! EMS trend variable: time-series logging of ERL variable values.
//!
//! Trend variables keep a window of historical values, most recent first,
//! for lookback analysis.

use vstd::prelude::*;

verus! {

/// History after logging `value` into a window of `depth` slots holding
/// `history` (most recent first): the value goes in front and the first
/// `depth` slots move one step back, the oldest of them dropping out once
/// the window is full; a window of no slots keeps nothing new.
pub open spec fn pushed_history<N>(history: Seq<N>, value: N, depth: nat) -> Seq<N> {
    if depth == 0 {
        history
    } else if history.len() < depth {
        seq![value] + history
    } else {
        seq![value] + history.take(depth - 1) + history.skip(depth as int)
    }
}

/// A trend variable that logs values over time.
#[derive(Debug, Clone)]
pub struct TrendVariable<N> {
    pub name: String,
    /// Index into the variable manager.
    pub variable_index: Option<usize>,
    /// Buffer of logged values (index 0 = most recent).
    values: Vec<N>,
    /// Maximum depth (number of timesteps retained).
    pub log_depth: usize,
    /// Number of values actually recorded.
    count: usize,
}

impl<N> TrendVariable<N> {
    /// The logged values still retained, most recent first.
    pub closed spec fn history(self) -> Seq<N> {
        self.values@.take(self.count as int)
    }

    /// The name of the trend.
    pub closed spec fn label(self) -> Seq<char> {
        self.name@
    }

    /// The variable the trend logs.
    pub closed spec fn source(self) -> Option<usize> {
        self.variable_index
    }

    /// The number of timesteps retained.
    pub closed spec fn depth(self) -> nat {
        self.log_depth as nat
    }

    /// The buffer holds the window and the recorded values.
    pub closed spec fn wf(self) -> bool {
        &&& self.log_depth <= self.values.len()
        &&& self.count <= self.values.len()
    }
}

impl<N: Copy + Default> TrendVariable<N> {

    pub fn new(name: &str, log_depth: usize) -> (r: Self)
        ensures
            r.wf(),
            r.label() == name@,
            r.source() is None,
            r.depth() == log_depth,
            r.history() == Seq::<N>::empty(),
    {
        let mut values: Vec<N> = Vec::new();
        let mut i: usize = 0;
        while i < log_depth
            invariant
                values.len() == i,
                i <= log_depth,
            decreases log_depth - i,
        {
            values.push(N::default());
            i += 1;
        }
        TrendVariable { name: name.to_owned(), variable_index: None, values, log_depth, count: 0 }
    }

    /// Push a new value, shifting older values back; the oldest value
    /// drops out once the window is full.
    pub fn push(&mut self, value: N)
        requires
            old(self).wf(),
        ensures
            final(self).wf(),
            final(self).label() == old(self).label(),
            final(self).source() == old(self).source(),
            final(self).depth() == old(self).depth(),
            final(self).history() == pushed_history(old(self).history(), value, old(self).depth()),
    {
        let ghost old_values = self.values@;
        let depth = self.log_depth;
        let mut i = depth;
        while i > 1
            invariant
                self.values.len() == old_values.len(),
                depth <= old_values.len(),
                self.log_depth == depth,
                self.count == old(self).count,
                self.count <= old_values.len(),
                self.name == old(self).name,
                self.variable_index == old(self).variable_index,
                1 <= i <= depth || (i == 0 && depth == 0),
                forall|j: int| 0 <= j < i ==> #[trigger] self.values@[j] == old_values[j],
                forall|j: int| i <= j < depth ==> #[trigger] self.values@[j] == old_values[j - 1],
                forall|j: int| depth <= j < old_values.len() ==> #[trigger] self.values@[j] == old_values[j],
            decreases i,
        {
            let prev = self.values[i - 2];
            self.values.set(i - 1, prev);
            i -= 1;
        }
        if self.log_depth > 0 {
            self.values.set(0, value);
        }
        if self.count < self.log_depth {
            self.count += 1;
        }
        proof {
            let h = old_values.take(old(self).count as int);
            if depth > 0 {
                assert(self.history() =~= pushed_history(h, value, depth as nat));
            } else {
                assert(self.values@ =~= old_values);
            }
        }
    }

    /// The variable the trend logs, if it is bound to one.
    pub fn source_variable(&self) -> (r: Option<usize>)
        ensures
            r == self.source(),
    {
        self.variable_index
    }

    /// Get value at a past timestep (0 = most recent, 1 = one step back, etc.).
    pub fn value_at(&self, steps_back: usize) -> (r: Option<N>)
        requires
            self.wf(),
        ensures
            steps_back < self.history().len() ==> r == Some(self.history()[steps_back as int]),
            steps_back >= self.history().len() ==> r is None,
    {
        if steps_back < self.count {
            Some(self.values[steps_back])
        } else {
            None
        }
    }
}

/// Logging a value makes it the most recent one, moves every retained value
/// one step further back, and keeps at most `depth` values.
pub proof fn lemma_trend_push<N>(history: Seq<N>, value: N, depth: nat)
    requires
        history.len() <= depth,
    ensures
        pushed_history(history, value, depth).len() <= depth,
        depth > 0 ==> pushed_history(history, value, depth)[0] == value,
        forall|k: int|
            0 <= k < history.len() && k + 1 < depth ==> #[trigger] pushed_history(
                history,
                value,
                depth,
            )[k + 1] == history[k],
        depth > 0 && history.len() < depth ==> pushed_history(history, value, depth).len()
            == history.len() + 1,
{
}

} // verus!
