//! ERL programs and their control flow.
//!
//! Programs consist of instructions (SET, IF/ELSEIF/ELSE/ENDIF,
//! WHILE/ENDWHILE, RETURN, RUN, GOTO) that operate on ERL variables through
//! expressions. Running a program alternates two things: the library
//! decides which instruction comes next and what it needs evaluated, and
//! the embedding evaluates the expression it was asked for.

use vstd::prelude::*;
use crate::plugin::CallingPoint;

verus! {

/// ERL statement keyword.
#[derive(Debug, Clone, Copy, PartialEq, Eq, Structural)]
pub enum ErlKeyword {
    SetValue,
    If,
    ElseIf,
    Else,
    EndIf,
    While,
    EndWhile,
    Return,
    Run,
    Goto,
}

/// A single ERL instruction.
#[derive(Debug, Clone, Copy, PartialEq, Eq, Structural)]
pub struct ErlInstruction {
    pub keyword: ErlKeyword,
    /// Variable index for SET (LHS) or subroutine index for RUN; jump
    /// target for IF, ELSEIF, WHILE, ENDWHILE and GOTO.
    pub arg1: usize,
    /// Expression index or goto target.
    pub arg2: usize,
}

/// ERL expression operator / built-in function.
#[derive(Debug, Clone, Copy, PartialEq, Eq, Structural)]
pub enum ErlOp {
    // Arithmetic
    Add,
    Subtract,
    Multiply,
    Divide,
    Negate,
    Power,
    // Comparison
    Equal,
    NotEqual,
    LessThan,
    GreaterThan,
    LessOrEqual,
    GreaterOrEqual,
    // Logical
    And,
    Or,
    // Math functions
    Round,
    Mod,
    Abs,
    Exp,
    Ln,
    Sqrt,
    Sin,
    Cos,
    ArcSin,
    ArcCos,
    DegToRad,
    RadToDeg,
    Min,
    Max,
    // Psychrometric
    CpAir,
    Enthalpy,
    TdbFromEnthalpyW,
    RhoAir,
    // Variable/literal reference
    Literal(usize),  // index into literals array
    Variable(usize),  // index into variable manager
    // Trend access
    TrendValue,
    TrendAverage,
    TrendMax,
    TrendMin,
    TrendSum,
    TrendDirection,
    // Curve evaluation
    CurveValue,
}

/// An expression node in the expression tree.
#[derive(Debug, Clone)]
pub struct ErlExpression {
    pub op: ErlOp,
    pub operands: Vec<usize>,  // indices into expression array (for sub-expressions)
}

/// A complete ERL program (or subroutine); `L` is the type of its numeric
/// literals.
#[derive(Debug, Clone)]
pub struct ErlProgram<L> {
    pub name: String,
    pub instructions: Vec<ErlInstruction>,
    pub expressions: Vec<ErlExpression>,
    pub literals: Vec<L>,
}

/// The number of WHILE condition checks after which a run stops, so that a
/// loop whose condition never fails still ends.
pub const MAX_WHILE_ITERATIONS: u32 = 1_000_000;

/// Where a run of a program stands.
#[derive(Debug, Clone, Copy, PartialEq, Eq, Structural)]
pub struct ErlExecution {
    /// Index of the next instruction.
    pub pc: usize,
    /// WHILE conditions checked so far.
    pub while_checks: u32,
    /// The run was stopped by RETURN or by the loop limit.
    pub halted: bool,
}

/// What the run needs next from the embedding.
#[derive(Debug, Clone, Copy, PartialEq, Eq, Structural)]
pub enum ErlAction {
    /// Evaluate `expression` and store the value in `variable`, then step.
    Assign { variable: usize, expression: usize },
    /// Evaluate `expression` and step with whether it is true.
    Test { expression: usize },
    /// Step without evaluating anything.
    Proceed,
    /// The run is over.
    Finished,
}

impl ErlExecution {
    /// A run about to execute the first instruction.
    pub fn start() -> (r: Self)
        ensures
            r == (ErlExecution { pc: 0, while_checks: 0, halted: false }),
    {
        ErlExecution { pc: 0, while_checks: 0, halted: false }
    }

    /// The loop counter has not yet run past its limit, unless the run has
    /// stopped.
    pub open spec fn wf(self) -> bool {
        self.while_checks <= MAX_WHILE_ITERATIONS || (self.halted && self.while_checks
            == MAX_WHILE_ITERATIONS + 1)
    }
}

/// What the instruction at the current position asks for.
pub open spec fn erl_action(code: Seq<ErlInstruction>, st: ErlExecution) -> ErlAction {
    if st.halted || st.pc >= code.len() {
        ErlAction::Finished
    } else {
        let inst = code[st.pc as int];
        match inst.keyword {
            ErlKeyword::SetValue => ErlAction::Assign { variable: inst.arg1, expression: inst.arg2 },
            ErlKeyword::If | ErlKeyword::ElseIf | ErlKeyword::While => ErlAction::Test {
                expression: inst.arg2,
            },
            _ => ErlAction::Proceed,
        }
    }
}

/// The run after the instruction at the current position, where `outcome`
/// is the truth of the tested condition (ignored by other instructions).
pub open spec fn erl_step(code: Seq<ErlInstruction>, st: ErlExecution, outcome: bool) -> ErlExecution {
    if erl_action(code, st) == ErlAction::Finished {
        st
    } else {
        let inst = code[st.pc as int];
        match inst.keyword {
            ErlKeyword::If | ErlKeyword::ElseIf => ErlExecution {
                pc: if outcome {
                    (st.pc + 1) as usize
                } else {
                    inst.arg1
                },
                ..st
            },
            ErlKeyword::While => {
                let checks = (st.while_checks + 1) as u32;
                ErlExecution {
                    pc: if outcome {
                        (st.pc + 1) as usize
                    } else {
                        inst.arg1
                    },
                    while_checks: checks,
                    halted: checks > MAX_WHILE_ITERATIONS,
                }
            },
            ErlKeyword::EndWhile | ErlKeyword::Goto => ErlExecution { pc: inst.arg1, ..st },
            ErlKeyword::Return => ErlExecution { halted: true, ..st },
            _ => ErlExecution { pc: (st.pc + 1) as usize, ..st },
        }
    }
}

impl<L> ErlProgram<L> {
    pub fn new(name: &str) -> (r: Self)
        ensures
            r.name@ == name@,
            r.instructions@ == Seq::<ErlInstruction>::empty(),
            r.expressions@.len() == 0,
            r.literals@ == Seq::<L>::empty(),
    {
        ErlProgram {
            name: name.to_owned(),
            instructions: Vec::new(),
            expressions: Vec::new(),
            literals: Vec::new(),
        }
    }

    /// Add a literal value, returning its index.
    pub fn add_literal(&mut self, value: L) -> (idx: usize)
        ensures
            idx == old(self).literals@.len(),
            final(self).literals@ == old(self).literals@.push(value),
            final(self).name == old(self).name,
            final(self).instructions == old(self).instructions,
            final(self).expressions == old(self).expressions,
    {
        let idx = self.literals.len();
        self.literals.push(value);
        idx
    }

    /// Add an expression, returning its index.
    pub fn add_expression(&mut self, expr: ErlExpression) -> (idx: usize)
        ensures
            idx == old(self).expressions@.len(),
            final(self).expressions@ == old(self).expressions@.push(expr),
            final(self).name == old(self).name,
            final(self).instructions == old(self).instructions,
            final(self).literals == old(self).literals,
    {
        let idx = self.expressions.len();
        self.expressions.push(expr);
        idx
    }

    /// What the run `st` needs next.
    pub fn action(&self, st: &ErlExecution) -> (r: ErlAction)
        ensures
            r == erl_action(self.instructions@, *st),
            !st.halted && st.pc < self.instructions.len() && (self.instructions@[st.pc as int].keyword
                == ErlKeyword::If || self.instructions@[st.pc as int].keyword == ErlKeyword::ElseIf
                || self.instructions@[st.pc as int].keyword == ErlKeyword::While) ==> r
                == (ErlAction::Test { expression: self.instructions@[st.pc as int].arg2 }),
    {
        if st.halted || st.pc >= self.instructions.len() {
            return ErlAction::Finished;
        }
        let inst = self.instructions[st.pc];
        match inst.keyword {
            ErlKeyword::SetValue => ErlAction::Assign { variable: inst.arg1, expression: inst.arg2 },
            ErlKeyword::If | ErlKeyword::ElseIf | ErlKeyword::While => ErlAction::Test {
                expression: inst.arg2,
            },
            _ => ErlAction::Proceed,
        }
    }

    /// Execute the instruction at the current position of `st`, given the
    /// truth of the condition it tested (if any).
    pub fn step(&self, st: ErlExecution, outcome: bool) -> (r: ErlExecution)
        requires
            st.wf(),
        ensures
            r == erl_step(self.instructions@, st, outcome),
            r.wf(),
    {
        if st.halted || st.pc >= self.instructions.len() {
            return st;
        }
        let inst = self.instructions[st.pc];
        match inst.keyword {
            ErlKeyword::If | ErlKeyword::ElseIf => {
                if outcome {
                    ErlExecution { pc: st.pc + 1, ..st }
                } else {
                    ErlExecution { pc: inst.arg1, ..st }
                }
            },
            ErlKeyword::While => {
                let checks = st.while_checks + 1;
                let pc = if outcome {
                    st.pc + 1
                } else {
                    inst.arg1
                };
                ErlExecution { pc, while_checks: checks, halted: checks > MAX_WHILE_ITERATIONS }
            },
            ErlKeyword::EndWhile | ErlKeyword::Goto => ErlExecution { pc: inst.arg1, ..st },
            ErlKeyword::Return => ErlExecution { halted: true, ..st },
            _ => ErlExecution { pc: st.pc + 1, ..st },
        }
    }
}

/// The action of a live run reads the instruction at its position: a SET
/// asks to evaluate its expression field `arg2` into the variable `arg1`; an
/// IF, ELSEIF or WHILE asks to test its expression field `arg2` (never its
/// jump target `arg1`), and when the test fails the run continues at the
/// jump target `arg1`, when it holds at the next instruction; every other
/// instruction asks for nothing. GOTO and ENDWHILE jump to `arg1`, RETURN
/// stops the run, the other instructions move to the next one, and only a
/// WHILE counts a condition check.
pub proof fn lemma_action_reads_instruction(code: Seq<ErlInstruction>, st: ErlExecution, outcome: bool)
    requires
        !st.halted,
        st.pc < code.len() <= usize::MAX,
        st.while_checks < MAX_WHILE_ITERATIONS,
    ensures
        code[st.pc as int].keyword == ErlKeyword::SetValue ==> erl_action(code, st) == (ErlAction::Assign {
            variable: code[st.pc as int].arg1,
            expression: code[st.pc as int].arg2,
        }),
        code[st.pc as int].keyword == ErlKeyword::If || code[st.pc as int].keyword == ErlKeyword::ElseIf
            || code[st.pc as int].keyword == ErlKeyword::While ==> {
            &&& erl_action(code, st) == (ErlAction::Test { expression: code[st.pc as int].arg2 })
            &&& erl_step(code, st, outcome).pc == if outcome {
                st.pc + 1
            } else {
                code[st.pc as int].arg1 as int
            }
            &&& !erl_step(code, st, outcome).halted
        },
        code[st.pc as int].keyword != ErlKeyword::SetValue && code[st.pc as int].keyword
            != ErlKeyword::If && code[st.pc as int].keyword != ErlKeyword::ElseIf
            && code[st.pc as int].keyword != ErlKeyword::While ==> erl_action(code, st)
            == ErlAction::Proceed,
        code[st.pc as int].keyword == ErlKeyword::Goto || code[st.pc as int].keyword
            == ErlKeyword::EndWhile ==> erl_step(code, st, outcome) == (ErlExecution {
            pc: code[st.pc as int].arg1,
            ..st
        }),
        code[st.pc as int].keyword == ErlKeyword::Return ==> erl_step(code, st, outcome) == (
        ErlExecution { halted: true, ..st }),
        code[st.pc as int].keyword == ErlKeyword::SetValue || code[st.pc as int].keyword
            == ErlKeyword::Else || code[st.pc as int].keyword == ErlKeyword::EndIf
            || code[st.pc as int].keyword == ErlKeyword::Run ==> erl_step(code, st, outcome) == (
        ErlExecution { pc: (st.pc + 1) as usize, ..st }),
        code[st.pc as int].keyword == ErlKeyword::While ==> erl_step(code, st, outcome).while_checks
            == st.while_checks + 1,
        code[st.pc as int].keyword != ErlKeyword::While ==> erl_step(code, st, outcome).while_checks
            == st.while_checks,
{
}

/// A finished run stays finished, and every step keeps the loop counter
/// within its limit: a run checks WHILE conditions at most
/// `MAX_WHILE_ITERATIONS + 1` times, and stops as soon as it goes past the
/// limit.
pub proof fn lemma_run_bounds(code: Seq<ErlInstruction>, st: ErlExecution, outcome: bool)
    requires
        st.wf(),
    ensures
        erl_action(code, st) == ErlAction::Finished ==> erl_step(code, st, outcome) == st,
        erl_step(code, st, outcome).wf(),
        erl_step(code, st, outcome).while_checks <= MAX_WHILE_ITERATIONS + 1,
        erl_step(code, st, outcome).while_checks > MAX_WHILE_ITERATIONS ==> erl_action(
            code,
            erl_step(code, st, outcome),
        ) == ErlAction::Finished,
        st.while_checks <= erl_step(code, st, outcome).while_checks <= st.while_checks + 1,
{
}

/// A program manager that associates programs with a calling point.
#[derive(Debug, Clone)]
pub struct ProgramManager {
    pub name: String,
    pub calling_point: CallingPoint,
    pub program_indices: Vec<usize>,
}

/// The programs run at `point`, in order: the program indices of each
/// manager for that calling point, in manager order, skipping indices that
/// name no program.
pub open spec fn scheduled_programs(
    managers: Seq<ProgramManager>,
    point: CallingPoint,
    num_programs: nat,
) -> Seq<usize>
    decreases managers.len(),
{
    if managers.len() == 0 {
        Seq::empty()
    } else {
        let m = managers.last();
        scheduled_programs(managers.drop_last(), point, num_programs) + if m.calling_point
            == point {
            m.program_indices@.filter(|i: usize| i < num_programs)
        } else {
            Seq::<usize>::empty()
        }
    }
}

proof fn lemma_concat_contains(a: Seq<usize>, b: Seq<usize>, x: usize)
    ensures
        (a + b).contains(x) <==> a.contains(x) || b.contains(x),
{
    if (a + b).contains(x) {
        let i = choose|i: int| 0 <= i < (a + b).len() && (a + b)[i] == x;
        if i < a.len() {
            assert(a[i] == x);
        } else {
            assert(b[i - a.len()] == x);
        }
    }
    if a.contains(x) {
        let i = choose|i: int| 0 <= i < a.len() && a[i] == x;
        assert((a + b)[i] == x);
    }
    if b.contains(x) {
        let i = choose|i: int| 0 <= i < b.len() && b[i] == x;
        assert((a + b)[a.len() + i] == x);
    }
}

/// The programs run at a calling point are exactly the existing programs
/// that a manager for that calling point lists: every program run is one
/// of the `num_programs` programs and is listed by some manager of that
/// calling point, and every program such a manager lists is run.
pub proof fn lemma_scheduled_programs(
    managers: Seq<ProgramManager>,
    point: CallingPoint,
    num_programs: nat,
    x: usize,
)
    ensures
        scheduled_programs(managers, point, num_programs).contains(x) ==> x < num_programs
            && exists|j: int|
            0 <= j < managers.len() && (#[trigger] managers[j]).calling_point == point
                && managers[j].program_indices@.contains(x),
        (exists|j: int|
            0 <= j < managers.len() && (#[trigger] managers[j]).calling_point == point
                && managers[j].program_indices@.contains(x)) && x < num_programs ==> scheduled_programs(
            managers,
            point,
            num_programs,
        ).contains(x),
    decreases managers.len(),
{
    if managers.len() > 0 {
        let init = managers.drop_last();
        let m = managers.last();
        let last = managers.len() - 1;
        lemma_scheduled_programs(init, point, num_programs, x);
        let pred = |i: usize| i < num_programs;
        let f = if m.calling_point == point {
            m.program_indices@.filter(pred)
        } else {
            Seq::<usize>::empty()
        };
        lemma_concat_contains(scheduled_programs(init, point, num_programs), f, x);
        assert(managers[last] == m);
        if f.contains(x) {
            let i = choose|i: int| 0 <= i < f.len() && f[i] == x;
            m.program_indices@.lemma_filter_pred(pred, i);
            m.program_indices@.lemma_filter_contains_rev(pred, x);
        }
        if scheduled_programs(init, point, num_programs).contains(x) {
            let j = choose|j: int|
                0 <= j < init.len() && (#[trigger] init[j]).calling_point == point
                    && init[j].program_indices@.contains(x);
            assert(managers[j] == init[j]);
        }
        if (exists|j: int|
            0 <= j < managers.len() && (#[trigger] managers[j]).calling_point == point
                && managers[j].program_indices@.contains(x)) && x < num_programs {
            let j = choose|j: int|
                0 <= j < managers.len() && (#[trigger] managers[j]).calling_point == point
                    && managers[j].program_indices@.contains(x);
            if j == last {
                let i = choose|i: int|
                    0 <= i < m.program_indices@.len() && m.program_indices@[i] == x;
                m.program_indices@.lemma_filter_contains(pred, i);
            } else {
                assert(init[j] == managers[j]);
            }
        }
    }
}

/// Appends to `out` the indices in `indices` that name one of
/// `num_programs` programs.
fn append_existing(out: &mut Vec<usize>, indices: &Vec<usize>, num_programs: usize)
    ensures
        final(out)@ == old(out)@ + indices@.filter(|i: usize| i < num_programs),
{
    let mut k: usize = 0;
    while k < indices.len()
        invariant
            k <= indices.len(),
            out@ == old(out)@ + indices@.subrange(0, k as int).filter(|i: usize| i < num_programs),
        decreases indices.len() - k,
    {
        proof {
            reveal_with_fuel(Seq::<_>::filter, 1);
            assert(indices@.subrange(0, k as int + 1).drop_last() == indices@.subrange(0, k as int));
        }
        let idx = indices[k];
        if idx < num_programs {
            out.push(idx);
        }
        k += 1;
    }
    proof {
        assert(indices@.subrange(0, k as int) == indices@);
    }
}

/// The indices of the programs to run at `point`, in order, for a program
/// list of length `num_programs`.
pub fn programs_to_run(
    managers: &Vec<ProgramManager>,
    point: CallingPoint,
    num_programs: usize,
) -> (r: Vec<usize>)
    ensures
        r@ == scheduled_programs(managers@, point, num_programs as nat),
{
    let mut out: Vec<usize> = Vec::new();
    let mut j: usize = 0;
    while j < managers.len()
        invariant
            j <= managers.len(),
            out@ == scheduled_programs(managers@.subrange(0, j as int), point, num_programs as nat),
        decreases managers.len() - j,
    {
        proof {
            assert(managers@.subrange(0, j as int + 1).drop_last() == managers@.subrange(0, j as int));
        }
        if managers[j].calling_point == point {
            append_existing(&mut out, &managers[j].program_indices, num_programs);
        }
        proof {
            let s = managers@.subrange(0, j as int + 1);
            assert(s.last() == managers@[j as int]);
        }
        j += 1;
    }
    proof {
        assert(managers@.subrange(0, j as int) == managers@);
    }
    out
}

} // verus!
