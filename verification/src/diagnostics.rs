//! Non-fatal diagnostic message accumulator with rate-limiting.

use vstd::prelude::*;

verus! {

/// Severity level for diagnostic messages.
#[derive(Debug, Clone, Copy, PartialEq, Eq, Structural, PartialOrd, Ord)]
pub enum DiagnosticLevel {
    Info,
    Warning,
    Severe,
}

/// A single diagnostic message.
#[derive(Debug, Clone)]
pub struct Diagnostic {
    pub level: DiagnosticLevel,
    pub category: &'static str,
    pub message: String,
    pub location: Option<SourceLocation>,
    pub count: u32,
}

/// Source location for traceability.
#[derive(Debug, Clone)]
pub struct SourceLocation {
    pub file: &'static str,
    pub line: u32,
    pub module: &'static str,
}

/// Number of info- and warning-level diagnostics in `diags` that carry the
/// message `msg`.
pub open spec fn recorded_count(diags: Seq<Diagnostic>, msg: Seq<char>) -> nat
    decreases diags.len(),
{
    if diags.len() == 0 {
        0
    } else {
        recorded_count(diags.drop_last(), msg) + if diags.last().level != DiagnosticLevel::Severe
            && diags.last().message@ == msg {
            1nat
        } else {
            0nat
        }
    }
}

/// Number of diagnostics in `diags` at the given level.
pub open spec fn level_count(diags: Seq<Diagnostic>, level: DiagnosticLevel) -> nat
    decreases diags.len(),
{
    if diags.len() == 0 {
        0
    } else {
        level_count(diags.drop_last(), level) + if diags.last().level == level {
            1nat
        } else {
            0nat
        }
    }
}

/// Each info- or warning-level diagnostic carries, as its count, how many
/// diagnostics with its message have been recorded at those levels up to and
/// including it: the entries of one message count 1, 2, 3, ... in order.
pub open spec fn counts_in_order(diags: Seq<Diagnostic>) -> bool {
    forall|i: int|
        0 <= i < diags.len() && (#[trigger] diags[i]).level != DiagnosticLevel::Severe
            ==> diags[i].count == recorded_count(diags.take(i + 1), diags[i].message@)
}

/// Appending a diagnostic leaves the earlier ones' counts in order.
proof fn lemma_counts_push(diags: Seq<Diagnostic>, d: Diagnostic)
    requires
        counts_in_order(diags),
        d.level != DiagnosticLevel::Severe ==> d.count == recorded_count(diags, d.message@) + 1,
    ensures
        counts_in_order(diags.push(d)),
{
    let s = diags.push(d);
    assert forall|i: int|
        0 <= i < s.len() && (#[trigger] s[i]).level != DiagnosticLevel::Severe implies s[i].count
        == recorded_count(s.take(i + 1), s[i].message@) by {
        if i < diags.len() {
            assert(s.take(i + 1) =~= diags.take(i + 1));
        } else {
            assert(s.take(i + 1) =~= s);
            assert(s.drop_last() =~= diags);
        }
    }
}

/// A prefix holds no more diagnostics of a message than the whole.
proof fn lemma_recorded_prefix(diags: Seq<Diagnostic>, j: int, msg: Seq<char>)
    requires
        0 <= j <= diags.len(),
    ensures
        recorded_count(diags.take(j), msg) <= recorded_count(diags, msg),
    decreases diags.len(),
{
    if j < diags.len() {
        assert(diags.drop_last().take(j) =~= diags.take(j));
        lemma_recorded_prefix(diags.drop_last(), j, msg);
    } else {
        assert(diags.take(j) =~= diags);
    }
}

/// The number of diagnostics at a level is at most the number of
/// diagnostics, and it is positive exactly when one of them has that level.
pub proof fn lemma_level_count(diags: Seq<Diagnostic>, level: DiagnosticLevel)
    ensures
        level_count(diags, level) <= diags.len(),
        level_count(diags, level) > 0 <==> exists|i: int|
            0 <= i < diags.len() && (#[trigger] diags[i]).level == level,
    decreases diags.len(),
{
    if diags.len() > 0 {
        let init = diags.drop_last();
        lemma_level_count(init, level);
        assert(diags[diags.len() - 1] == diags.last());
        if exists|i: int| 0 <= i < init.len() && (#[trigger] init[i]).level == level {
            let i = choose|i: int| 0 <= i < init.len() && (#[trigger] init[i]).level == level;
            assert(diags[i] == init[i]);
        }
        if exists|i: int| 0 <= i < diags.len() && (#[trigger] diags[i]).level == level {
            let i = choose|i: int| 0 <= i < diags.len() && (#[trigger] diags[i]).level == level;
            if i < diags.len() - 1 {
                assert(init[i] == diags[i]);
            }
        }
    }
}

/// The smaller of two counts.
pub open spec fn min_count(a: nat, b: nat) -> nat {
    if a <= b {
        a
    } else {
        b
    }
}

spec fn table_has(msgs: Seq<String>, msg: Seq<char>) -> bool {
    exists|i: int| 0 <= i < msgs.len() && #[trigger] msgs[i]@ == msg
}

spec fn table_slot(msgs: Seq<String>, msg: Seq<char>) -> int {
    choose|i: int| 0 <= i < msgs.len() && #[trigger] msgs[i]@ == msg
}

spec fn table_count(msgs: Seq<String>, counts: Seq<u32>, msg: Seq<char>) -> nat {
    if table_has(msgs, msg) {
        counts[table_slot(msgs, msg)] as nat
    } else {
        0
    }
}

/// Accumulates diagnostic messages and rate-limits repeated warnings.
pub struct DiagnosticCollector {
    diagnostics: Vec<Diagnostic>,
    /// Messages seen at info or warning level, each once.
    recurring_messages: Vec<String>,
    /// How often the message at the same position was reported.
    recurring_counts: Vec<u32>,
    max_recurring: u32,
}

impl DiagnosticCollector {
    /// The diagnostics recorded so far, in order.
    pub closed spec fn entries(self) -> Seq<Diagnostic> {
        self.diagnostics@
    }

    /// How many copies of one message are recorded at most.
    pub closed spec fn limit(self) -> nat {
        self.max_recurring as nat
    }

    /// Whether `msg` has a slot in the recurrence table.
    closed spec fn has_slot(self, msg: Seq<char>) -> bool {
        table_has(self.recurring_messages@, msg)
    }

    /// Position of `msg` in the recurrence table.
    closed spec fn slot(self, msg: Seq<char>) -> int {
        table_slot(self.recurring_messages@, msg)
    }

    /// How many times `msg` has been reported at info or warning level since
    /// creation or the last `clear`.
    pub closed spec fn occurrences(self, msg: Seq<char>) -> nat {
        table_count(self.recurring_messages@, self.recurring_counts@, msg)
    }

    /// Internal consistency: the recurrence table holds each message once,
    /// and each message is recorded as often as it was reported, up to the
    /// limit.
    pub closed spec fn wf(self) -> bool {
        &&& self.recurring_messages.len() == self.recurring_counts.len()
        &&& forall|i: int, j: int|
            0 <= i < j < self.recurring_messages.len() ==> #[trigger] self.recurring_messages@[i]@
                != #[trigger] self.recurring_messages@[j]@
        &&& forall|msg: Seq<char>|
            #[trigger] recorded_count(self.diagnostics@, msg) == min_count(
                self.occurrences(msg),
                self.max_recurring as nat,
            )
        &&& counts_in_order(self.diagnostics@)
    }

    pub fn new(max_recurring: u32) -> (r: Self)
        ensures
            r.wf(),
            r.entries() == Seq::<Diagnostic>::empty(),
            r.limit() == max_recurring,
            forall|msg: Seq<char>| #[trigger] r.occurrences(msg) == 0,
    {
        let r = DiagnosticCollector {
            diagnostics: Vec::new(),
            recurring_messages: Vec::new(),
            recurring_counts: Vec::new(),
            max_recurring,
        };
        assert forall|msg: Seq<char>| #[trigger] recorded_count(r.diagnostics@, msg) == min_count(
            r.occurrences(msg),
            r.max_recurring as nat,
        ) by {
            assert(!r.has_slot(msg));
        }
        r
    }

    pub fn info(&mut self, category: &'static str, message: &str)
        requires
            old(self).wf(),
            old(self).occurrences(message@) < u32::MAX,
        ensures
            final(self).wf(),
            final(self).reported(*old(self), DiagnosticLevel::Info, category, message@),
    {
        self.add(DiagnosticLevel::Info, category, message.to_owned());
    }

    pub fn warn(&mut self, category: &'static str, message: &str)
        requires
            old(self).wf(),
            old(self).occurrences(message@) < u32::MAX,
        ensures
            final(self).wf(),
            final(self).reported(*old(self), DiagnosticLevel::Warning, category, message@),
    {
        self.add(DiagnosticLevel::Warning, category, message.to_owned());
    }

    /// `self` is `before` after one more report of `msg` at `level` (info
    /// or warning): the occurrence count of `msg` went up by one, and a
    /// diagnostic was appended exactly when that count is within the limit.
    pub open spec fn reported(
        self,
        before: Self,
        level: DiagnosticLevel,
        category: &'static str,
        msg: Seq<char>,
    ) -> bool {
        let n = before.occurrences(msg) + 1;
        &&& self.limit() == before.limit()
        &&& self.occurrences(msg) == n
        &&& forall|other: Seq<char>| other != msg ==> #[trigger] self.occurrences(other) == before.occurrences(other)
        &&& if n <= before.limit() {
            &&& self.entries().len() == before.entries().len() + 1
            &&& self.entries().drop_last() == before.entries()
            &&& self.entries().last().level == level
            &&& self.entries().last().category == category
            &&& self.entries().last().message@ == msg
            &&& self.entries().last().location is None
            &&& self.entries().last().count == n
        } else {
            self.entries() == before.entries()
        }
    }

    pub fn severe(&mut self, category: &'static str, message: &str)
        requires
            old(self).wf(),
        ensures
            final(self).wf(),
            final(self).limit() == old(self).limit(),
            forall|msg: Seq<char>| #[trigger] final(self).occurrences(msg) == old(self).occurrences(msg),
            final(self).entries().len() == old(self).entries().len() + 1,
            final(self).entries().drop_last() == old(self).entries(),
            final(self).entries().last().level == DiagnosticLevel::Severe,
            final(self).entries().last().category == category,
            final(self).entries().last().message@ == message@,
            final(self).entries().last().location is None,
            final(self).entries().last().count == 1,
            level_count(final(self).entries(), DiagnosticLevel::Severe) == level_count(
                old(self).entries(),
                DiagnosticLevel::Severe,
            ) + 1,
    {
        let msg = message.to_owned();
        let ghost old_self = *self;
        let ghost old_diags = self.diagnostics@;
        self.diagnostics.push(
            Diagnostic {
                level: DiagnosticLevel::Severe,
                category,
                message: msg,
                location: None,
                count: 1,
            },
        );
        proof {
            assert(self.diagnostics@.drop_last() == old_diags);
            assert(self.diagnostics@ =~= old_diags.push(self.diagnostics@.last()));
            lemma_counts_push(old_diags, self.diagnostics@.last());
            assert forall|m: Seq<char>| #[trigger] recorded_count(self.diagnostics@, m) == min_count(
                self.occurrences(m),
                self.max_recurring as nat,
            ) by {
                assert(recorded_count(self.diagnostics@, m) == recorded_count(old_diags, m));
                assert(recorded_count(old_self.diagnostics@, m) == min_count(
                    old_self.occurrences(m),
                    old_self.max_recurring as nat,
                ));
                assert(self.occurrences(m) == old_self.occurrences(m));
            }
        }
    }

    /// Finds the slot of `message` in the recurrence table.
    fn find_slot(&self, message: &String) -> (r: Option<usize>)
        requires
            self.wf(),
        ensures
            match r {
                Some(i) => i < self.recurring_messages.len() && self.recurring_messages@[i as int]@
                    == message@ && self.has_slot(message@) && self.slot(message@) == i,
                None => !self.has_slot(message@),
            },
    {
        let mut i: usize = 0;
        while i < self.recurring_messages.len()
            invariant
                self.wf(),
                i <= self.recurring_messages.len(),
                forall|j: int| 0 <= j < i ==> #[trigger] self.recurring_messages@[j]@ != message@,
            decreases self.recurring_messages.len() - i,
        {
            if self.recurring_messages[i] == *message {
                proof {
                    assert(self.has_slot(message@));
                    let k = self.slot(message@);
                    if k != i as int {
                        if k < i {
                            assert(self.recurring_messages@[k]@ != self.recurring_messages@[i as int]@);
                        } else {
                            assert(self.recurring_messages@[i as int]@ != self.recurring_messages@[k]@);
                        }
                    }
                }
                return Some(i);
            }
            i += 1;
        }
        None
    }

    fn add(&mut self, level: DiagnosticLevel, category: &'static str, message: String)
        requires
            old(self).wf(),
            old(self).occurrences(message@) < u32::MAX,
            level != DiagnosticLevel::Severe,
        ensures
            final(self).wf(),
            final(self).reported(*old(self), level, category, message@),
    {
        let ghost old_self = *self;
        let ghost m = message@;
        let slot = self.find_slot(&message);
        let count: u32;
        match slot {
            Some(i) => {
                count = self.recurring_counts[i] + 1;
                self.recurring_counts.set(i, count);
            },
            None => {
                count = 1;
                self.recurring_messages.push(message.clone());
                self.recurring_counts.push(1);
            },
        }
        proof {
            assert(self.has_slot(m)) by {
                match slot {
                    Some(i) => {
                        assert(self.recurring_messages@[i as int]@ == m);
                    },
                    None => {
                        let k = self.recurring_messages.len() - 1;
                        assert(self.recurring_messages@[k]@ == m);
                    },
                }
            }
            assert forall|i: int, j: int|
                0 <= i < j < self.recurring_messages.len() implies #[trigger] self.recurring_messages@[i]@
                != #[trigger] self.recurring_messages@[j]@ by {
                if slot is None && j == self.recurring_messages.len() - 1 {
                    assert(old_self.recurring_messages@[i]@ != m);
                } else {
                    assert(old_self.recurring_messages@[i]@ != old_self.recurring_messages@[j]@);
                }
            }
            let k = self.slot(m);
            assert(self.recurring_messages@[k]@ == m);
            match slot {
                Some(i) => {
                    if k != i as int {
                        if k < i {
                            assert(self.recurring_messages@[k]@ != self.recurring_messages@[i as int]@);
                        } else {
                            assert(self.recurring_messages@[i as int]@ != self.recurring_messages@[k]@);
                        }
                    }
                },
                None => {
                    if k != self.recurring_messages.len() - 1 {
                        assert(old_self.recurring_messages@[k]@ == m);
                    }
                },
            }
            assert(self.occurrences(m) == count);
            assert forall|other: Seq<char>| other != m implies #[trigger] self.occurrences(other)
                == old_self.occurrences(other) by {
                if old_self.has_slot(other) {
                    let j = old_self.slot(other);
                    assert(self.recurring_messages@[j]@ == other);
                    assert(self.has_slot(other));
                    let j2 = self.slot(other);
                    if j2 != j {
                        if j2 < j {
                            assert(self.recurring_messages@[j2]@ != self.recurring_messages@[j]@);
                        } else {
                            assert(self.recurring_messages@[j]@ != self.recurring_messages@[j2]@);
                        }
                    }
                } else {
                    if self.has_slot(other) {
                        let j2 = self.slot(other);
                        if slot is None && j2 == self.recurring_messages.len() - 1 {
                        } else {
                            assert(old_self.recurring_messages@[j2]@ == other);
                        }
                    }
                }
            }
        }
        let ghost mid = *self;
        if count <= self.max_recurring {
            self.diagnostics.push(
                Diagnostic { level, category, message, location: None, count },
            );
        }
        proof {
            if count <= self.max_recurring {
                assert(self.diagnostics@.drop_last() == old_self.diagnostics@);
                assert(self.diagnostics@ =~= old_self.diagnostics@.push(self.diagnostics@.last()));
                assert(recorded_count(old_self.diagnostics@, m) == min_count(
                    old_self.occurrences(m),
                    old_self.max_recurring as nat,
                ));
                lemma_counts_push(old_self.diagnostics@, self.diagnostics@.last());
            }
            assert forall|msg: Seq<char>| #[trigger] recorded_count(self.diagnostics@, msg) == min_count(
                self.occurrences(msg),
                self.max_recurring as nat,
            ) by {
                assert(recorded_count(old_self.diagnostics@, msg) == min_count(
                    old_self.occurrences(msg),
                    old_self.max_recurring as nat,
                ));
                assert(self.occurrences(msg) == mid.occurrences(msg));
                if msg != m {
                    assert(mid.occurrences(msg) == old_self.occurrences(msg));
                }
            }
            assert(count == old_self.occurrences(m) + 1);
            assert(self.occurrences(m) == mid.occurrences(m));
            assert forall|other: Seq<char>| other != m implies #[trigger] self.occurrences(other)
                == old_self.occurrences(other) by {
                assert(self.occurrences(other) == mid.occurrences(other));
                assert(mid.occurrences(other) == old_self.occurrences(other));
            }
        }
    }

    /// Get all collected diagnostics.
    pub fn diagnostics(&self) -> (r: &[Diagnostic])
        ensures
            r@ == self.entries(),
    {
        self.diagnostics.as_slice()
    }

    /// Count of severe-level messages.
    pub fn severe_count(&self) -> (r: usize)
        ensures
            r == level_count(self.entries(), DiagnosticLevel::Severe),
    {
        count_level(&self.diagnostics, DiagnosticLevel::Severe)
    }

    /// Count of warning-level messages.
    pub fn warning_count(&self) -> (r: usize)
        ensures
            r == level_count(self.entries(), DiagnosticLevel::Warning),
    {
        count_level(&self.diagnostics, DiagnosticLevel::Warning)
    }

    /// Check if any severe errors have been recorded.
    pub fn has_severe_errors(&self) -> (r: bool)
        ensures
            r <==> level_count(self.entries(), DiagnosticLevel::Severe) > 0,
    {
        self.severe_count() > 0
    }

    /// Clear all diagnostics.
    pub fn clear(&mut self)
        ensures
            final(self).wf(),
            final(self).entries() == Seq::<Diagnostic>::empty(),
            final(self).limit() == old(self).limit(),
            forall|msg: Seq<char>| #[trigger] final(self).occurrences(msg) == 0,
    {
        self.diagnostics.clear();
        self.recurring_messages.clear();
        self.recurring_counts.clear();
        proof {
            assert forall|msg: Seq<char>| #[trigger] recorded_count(self.diagnostics@, msg) == min_count(
                self.occurrences(msg),
                self.max_recurring as nat,
            ) by {
                assert(!self.has_slot(msg));
            }
        }
    }
}

impl Default for DiagnosticCollector {
    fn default() -> (r: Self)
        ensures
            r.wf(),
            r.entries() == Seq::<Diagnostic>::empty(),
            r.limit() == 100,
            forall|msg: Seq<char>| #[trigger] r.occurrences(msg) == 0,
    {
        Self::new(100)
    }
}

/// Counts the diagnostics at `level`.
fn count_level(diags: &Vec<Diagnostic>, level: DiagnosticLevel) -> (r: usize)
    ensures
        r == level_count(diags@, level),
{
    let mut n: usize = 0;
    let mut i: usize = 0;
    while i < diags.len()
        invariant
            i <= diags.len(),
            n == level_count(diags@.subrange(0, i as int), level),
            n <= i,
        decreases diags.len() - i,
    {
        proof {
            assert(diags@.subrange(0, i as int + 1).drop_last() == diags@.subrange(0, i as int));
        }
        if diags[i].level == level {
            n += 1;
        }
        i += 1;
    }
    proof {
        assert(diags@.subrange(0, i as int) == diags@);
    }
    n
}

/// Rate limiting: however often a message is reported at info or warning
/// level, it is recorded at those levels at most `limit` times, and its
/// recorded entries carry the counts 1, 2, 3, ... in the order they were
/// recorded.
pub proof fn lemma_rate_limit(c: DiagnosticCollector, msg: Seq<char>)
    requires
        c.wf(),
    ensures
        recorded_count(c.entries(), msg) <= c.limit(),
        recorded_count(c.entries(), msg) == min_count(c.occurrences(msg), c.limit()),
        forall|i: int|
            0 <= i < c.entries().len() && (#[trigger] c.entries()[i]).level != DiagnosticLevel::Severe
                && c.entries()[i].message@ == msg ==> {
                &&& c.entries()[i].count == recorded_count(c.entries().take(i + 1), msg)
                &&& 1 <= c.entries()[i].count <= c.limit()
            },
{
    let d = c.diagnostics@;
    assert(recorded_count(d, msg) == min_count(c.occurrences(msg), c.max_recurring as nat));
    assert forall|i: int|
        0 <= i < d.len() && (#[trigger] d[i]).level != DiagnosticLevel::Severe && d[i].message@ == msg
        implies {
        &&& d[i].count == recorded_count(d.take(i + 1), msg)
        &&& 1 <= d[i].count <= c.max_recurring
    } by {
        assert(d.take(i + 1).drop_last() =~= d.take(i));
        lemma_recorded_prefix(d, i + 1, msg);
    }
}

/// Once a severe message is recorded, severe errors are reported until the
/// collector is cleared: info and warning reports leave the number of
/// severe entries unchanged (and `severe` adds one, by its contract).
pub proof fn lemma_severe_errors_persist(
    before: DiagnosticCollector,
    after: DiagnosticCollector,
    level: DiagnosticLevel,
    category: &'static str,
    msg: Seq<char>,
)
    requires
        level != DiagnosticLevel::Severe,
        after.reported(before, level, category, msg),
    ensures
        level_count(after.entries(), DiagnosticLevel::Severe) == level_count(
            before.entries(),
            DiagnosticLevel::Severe,
        ),
{
    if after.entries() != before.entries() {
        assert(after.entries().drop_last() == before.entries());
    }
}

} // verus!
