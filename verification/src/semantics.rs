//! The mathematical small-step semantics of the machine.
//!
//! A configuration holds the three stacks, the buffered output, the pending
//! input and the program counter.  [`step_spec`] gives the effect of one
//! fetch-execute step, and [`run_n`] iterates it; the engine's `run` loop is
//! proved against these.

use crate::error::ErrorModel;
use crate::instruction::InstrModel;
use crate::operand::{resolve_spec, OperandModel};
use crate::target::{commit_spec, TargetModel};
use crate::value::{
    val_add, val_and, val_div, val_eq, val_ge, val_gt, val_le, val_lt, val_mod, val_mul, val_ne,
    val_neg, val_not, val_or, val_sub, val_to_text, val_truthy, ValueModel,
};
use vstd::prelude::*;

verus! {

/// The label that marks the program's entry point.
pub open spec fn main_label_model() -> Seq<char> {
    "$$Function__main_$$"@
}

/// The complete mutable state of one run.
#[verifier::ext_equal]
pub struct Config {
    /// The value stack, top last.
    pub vals: Seq<ValueModel>,
    /// The call stack of return indices, top last.
    pub calls: Seq<usize>,
    /// The scope stack, innermost last; only the last scope is visible.
    pub scopes: Seq<Map<Seq<char>, ValueModel>>,
    /// The lines written by `Print`, oldest first.
    pub out: Seq<Seq<char>>,
    /// The input value handed in for the next `Read`, if one is waiting.
    pub pending: Option<ValueModel>,
    /// The program counter.
    pub pc: usize,
}

/// The effect of one step.
#[verifier::ext_equal]
pub enum StepModel {
    /// Execution goes on from the configuration's program counter.
    Continue(Config),
    /// A `Read` found no pending input; the run waits, state untouched.
    Pause(Config),
    /// A top-level scope exit ended the run with this value.
    Done(Config, ValueModel),
    /// A fatal error, with the state as the failing step left it.
    Fail(Config, ErrorModel),
}

/// Whether `i` is the index of the first marker of a label.
pub open spec fn is_first_label(prog: Seq<InstrModel>, name: Seq<char>, i: int) -> bool {
    &&& 0 <= i < prog.len()
    &&& prog[i] == InstrModel::Label(name)
    &&& forall|j: int| 0 <= j < i ==> prog[j] != InstrModel::Label(name)
}

/// The index a label resolves to: the first marker that carries it, found by
/// a forward scan; `None` where no marker matches.
pub open spec fn find_label_spec(prog: Seq<InstrModel>, name: Seq<char>) -> Option<int> {
    if exists|i: int| is_first_label(prog, name, i) {
        Some(choose|i: int| is_first_label(prog, name, i))
    } else {
        None
    }
}

/// A binary instruction: resolve both operands in order against the current
/// scope, apply the operation — with the operands swapped where `swap` holds —
/// and commit the result.
pub open spec fn binary_step(
    c: Config,
    o1: OperandModel,
    o2: OperandModel,
    t: TargetModel,
    swap: bool,
    op: spec_fn(ValueModel, ValueModel) -> Result<ValueModel, ErrorModel>,
) -> StepModel {
    let scope = c.scopes.last();
    match resolve_spec(o1, scope, c.vals) {
        Err(e) => StepModel::Fail(c, e),
        Ok((v1, vals1)) => match resolve_spec(o2, scope, vals1) {
            Err(e) => StepModel::Fail(Config { vals: vals1, ..c }, e),
            Ok((v2, vals2)) => match if swap {
                op(v2, v1)
            } else {
                op(v1, v2)
            } {
                Err(e) => StepModel::Fail(Config { vals: vals2, ..c }, e),
                Ok(v) => {
                    let committed = commit_spec(t, v, scope, vals2);
                    StepModel::Continue(
                        Config {
                            vals: committed.1,
                            scopes: c.scopes.update(c.scopes.len() - 1, committed.0),
                            pc: (c.pc + 1) as usize,
                            ..c
                        },
                    )
                },
            },
        },
    }
}

/// A unary instruction: resolve the operand, apply the operation, commit.
pub open spec fn unary_step(
    c: Config,
    o: OperandModel,
    t: TargetModel,
    op: spec_fn(ValueModel) -> Result<ValueModel, ErrorModel>,
) -> StepModel {
    let scope = c.scopes.last();
    match resolve_spec(o, scope, c.vals) {
        Err(e) => StepModel::Fail(c, e),
        Ok((v1, vals1)) => match op(v1) {
            Err(e) => StepModel::Fail(Config { vals: vals1, ..c }, e),
            Ok(v) => {
                let committed = commit_spec(t, v, scope, vals1);
                StepModel::Continue(
                    Config {
                        vals: committed.1,
                        scopes: c.scopes.update(c.scopes.len() - 1, committed.0),
                        pc: (c.pc + 1) as usize,
                        ..c
                    },
                )
            },
        },
    }
}

/// One fetch-execute step.
///
/// While the call stack is empty the machine is discovering its entry point:
/// it scans forward, doing nothing except watching for the reserved main
/// label, whose successor index it pushes as the one call-stack entry no
/// `Call` created.  Once the call stack is non-empty, every instruction
/// executes against the innermost scope.
pub open spec fn step_spec(prog: Seq<InstrModel>, c: Config) -> StepModel {
    if c.pc >= prog.len() {
        StepModel::Fail(c, ErrorModel::MissingInstruction(c.pc))
    } else {
        let instr = prog[c.pc as int];
        if c.calls.len() == 0 {
            let seeded = if instr == InstrModel::Label(main_label_model()) {
                Config { calls: c.calls.push((c.pc + 1) as usize), ..c }
            } else {
                c
            };
            StepModel::Continue(Config { pc: (c.pc + 1) as usize, ..seeded })
        } else if c.scopes.len() == 0 {
            StepModel::Fail(c, ErrorModel::MissingScope)
        } else {
            let scope = c.scopes.last();
            match instr {
                InstrModel::Mov(t, o) => match resolve_spec(o, scope, c.vals) {
                    Err(e) => StepModel::Fail(c, e),
                    Ok((v, vals1)) => {
                        let committed = commit_spec(t, v, scope, vals1);
                        StepModel::Continue(
                            Config {
                                vals: committed.1,
                                scopes: c.scopes.update(c.scopes.len() - 1, committed.0),
                                pc: (c.pc + 1) as usize,
                                ..c
                            },
                        )
                    },
                },
                InstrModel::Add(o1, o2, t) => binary_step(
                    c,
                    o1,
                    o2,
                    t,
                    true,
                    |a: ValueModel, b: ValueModel| val_add(a, b),
                ),
                InstrModel::Sub(o1, o2, t) => binary_step(
                    c,
                    o1,
                    o2,
                    t,
                    true,
                    |a: ValueModel, b: ValueModel| val_sub(a, b),
                ),
                InstrModel::Mul(o1, o2, t) => binary_step(
                    c,
                    o1,
                    o2,
                    t,
                    false,
                    |a: ValueModel, b: ValueModel| val_mul(a, b),
                ),
                InstrModel::Div(o1, o2, t) => binary_step(
                    c,
                    o1,
                    o2,
                    t,
                    true,
                    |a: ValueModel, b: ValueModel| val_div(a, b),
                ),
                InstrModel::Mod(o1, o2, t) => binary_step(
                    c,
                    o1,
                    o2,
                    t,
                    true,
                    |a: ValueModel, b: ValueModel| val_mod(a, b),
                ),
                InstrModel::And(o1, o2, t) => binary_step(
                    c,
                    o1,
                    o2,
                    t,
                    false,
                    |a: ValueModel, b: ValueModel| val_and(a, b),
                ),
                InstrModel::Or(o1, o2, t) => binary_step(
                    c,
                    o1,
                    o2,
                    t,
                    false,
                    |a: ValueModel, b: ValueModel| val_or(a, b),
                ),
                InstrModel::Not(o, t) => unary_step(c, o, t, |a: ValueModel| val_not(a)),
                InstrModel::Neg(o, t) => unary_step(c, o, t, |a: ValueModel| val_neg(a)),
                InstrModel::Eq(o1, o2, t) => binary_step(
                    c,
                    o1,
                    o2,
                    t,
                    false,
                    |a: ValueModel, b: ValueModel| val_eq(a, b),
                ),
                InstrModel::Neq(o1, o2, t) => binary_step(
                    c,
                    o1,
                    o2,
                    t,
                    false,
                    |a: ValueModel, b: ValueModel| val_ne(a, b),
                ),
                InstrModel::Less(o1, o2, t) => binary_step(
                    c,
                    o1,
                    o2,
                    t,
                    true,
                    |a: ValueModel, b: ValueModel| val_lt(a, b),
                ),
                InstrModel::LessEq(o1, o2, t) => binary_step(
                    c,
                    o1,
                    o2,
                    t,
                    true,
                    |a: ValueModel, b: ValueModel| val_le(a, b),
                ),
                InstrModel::Greater(o1, o2, t) => binary_step(
                    c,
                    o1,
                    o2,
                    t,
                    true,
                    |a: ValueModel, b: ValueModel| val_gt(a, b),
                ),
                InstrModel::GreaterEq(o1, o2, t) => binary_step(
                    c,
                    o1,
                    o2,
                    t,
                    true,
                    |a: ValueModel, b: ValueModel| val_ge(a, b),
                ),
                InstrModel::Jmp(name) => match find_label_spec(prog, name) {
                    Some(j) => StepModel::Continue(Config { pc: j as usize, ..c }),
                    None => StepModel::Fail(c, ErrorModel::MissingLabel(name)),
                },
                InstrModel::JmpFalse(name, o) => match resolve_spec(o, scope, c.vals) {
                    Err(e) => StepModel::Fail(c, e),
                    Ok((v, vals1)) => if !val_truthy(v) {
                        match find_label_spec(prog, name) {
                            Some(j) => StepModel::Continue(
                                Config { vals: vals1, pc: j as usize, ..c },
                            ),
                            None => StepModel::Fail(
                                Config { vals: vals1, ..c },
                                ErrorModel::MissingLabel(name),
                            ),
                        }
                    } else {
                        StepModel::Continue(Config { vals: vals1, pc: (c.pc + 1) as usize, ..c })
                    },
                },
                InstrModel::Print(o) => match resolve_spec(o, scope, c.vals) {
                    Err(e) => StepModel::Fail(c, e),
                    Ok((v, vals1)) => StepModel::Continue(
                        Config {
                            vals: vals1,
                            out: c.out.push(val_to_text(v)),
                            pc: (c.pc + 1) as usize,
                            ..c
                        },
                    ),
                },
                InstrModel::Read => match c.pending {
                    Some(v) => StepModel::Continue(
                        Config {
                            vals: c.vals.push(v),
                            pending: None,
                            pc: (c.pc + 1) as usize,
                            ..c
                        },
                    ),
                    None => StepModel::Pause(c),
                },
                InstrModel::Call(name) => {
                    let entered = Config {
                        calls: c.calls.push((c.pc + 1) as usize),
                        scopes: c.scopes.push(Map::empty()),
                        ..c
                    };
                    match find_label_spec(prog, name) {
                        Some(j) => StepModel::Continue(Config { pc: j as usize, ..entered }),
                        None => StepModel::Fail(entered, ErrorModel::MissingLabel(name)),
                    }
                },
                InstrModel::ScopeOut => {
                    if c.scopes.len() == 1 {
                        let closed = Config { scopes: c.scopes.drop_last(), ..c };
                        if c.vals.len() == 0 {
                            StepModel::Fail(closed, ErrorModel::StackUnderflow)
                        } else {
                            StepModel::Done(
                                Config { vals: c.vals.drop_last(), ..closed },
                                c.vals.last(),
                            )
                        }
                    } else {
                        let closed = Config { scopes: c.scopes.drop_last(), ..c };
                        if c.calls.len() == 0 {
                            StepModel::Fail(closed, ErrorModel::MissingCallFrame)
                        } else {
                            StepModel::Continue(
                                Config {
                                    calls: c.calls.drop_last(),
                                    pc: c.calls.last(),
                                    ..closed
                                },
                            )
                        }
                    }
                },
                InstrModel::Label(_) => StepModel::Continue(
                    Config { pc: (c.pc + 1) as usize, ..c },
                ),
            }
        }
    }
}

/// The state of a run seen as a whole.
#[verifier::ext_equal]
pub enum RunModel {
    /// Still stepping.
    Running(Config),
    /// Waiting for one line of input.
    Paused(Config),
    /// Ended with a final value.
    Finished(Config, ValueModel),
    /// Ended with a fatal error.
    Failed(Config, ErrorModel),
}

/// Lifts one step's effect to the state of the whole run.
pub open spec fn lift_step(s: StepModel) -> RunModel {
    match s {
        StepModel::Continue(c) => RunModel::Running(c),
        StepModel::Pause(c) => RunModel::Paused(c),
        StepModel::Done(c, v) => RunModel::Finished(c, v),
        StepModel::Fail(c, e) => RunModel::Failed(c, e),
    }
}

/// The state of a run after at most `n` steps from a configuration: steps
/// apply while the run is still running, and a pause, a final value or an
/// error absorbs every later step.
pub open spec fn run_n(prog: Seq<InstrModel>, c: Config, n: nat) -> RunModel
    decreases n,
{
    if n == 0 {
        RunModel::Running(c)
    } else {
        match run_n(prog, c, (n - 1) as nat) {
            RunModel::Running(c1) => lift_step(step_spec(prog, c1)),
            ended => ended,
        }
    }
}

/// Once a run has paused, finished or failed, taking more steps changes
/// nothing.
pub proof fn lemma_outcome_stable(prog: Seq<InstrModel>, c: Config, n: nat, m: nat)
    requires
        n <= m,
        !(run_n(prog, c, n) is Running),
    ensures
        run_n(prog, c, m) == run_n(prog, c, n),
    decreases m,
{
    if m > n {
        lemma_outcome_stable(prog, c, n, (m - 1) as nat);
    }
}

/// Execution is deterministic: any two step counts under which the run has
/// ended see one and the same outcome — one final value, or one error.
pub proof fn lemma_outcome_unique(prog: Seq<InstrModel>, c: Config, n: nat, m: nat)
    requires
        !(run_n(prog, c, n) is Running),
        !(run_n(prog, c, m) is Running),
    ensures
        run_n(prog, c, n) == run_n(prog, c, m),
{
    if n <= m {
        lemma_outcome_stable(prog, c, n, m);
    } else {
        lemma_outcome_stable(prog, c, m, n);
    }
}

/// The call/scope balance the engine maintains: before the entry point is
/// found there is exactly the base scope, and afterwards the call stack and
/// the scope stack are equally deep.
pub open spec fn balanced(c: Config) -> bool {
    if c.calls.len() == 0 {
        c.scopes.len() == 1
    } else {
        c.calls.len() == c.scopes.len()
    }
}

/// One step preserves the call/scope balance, and under it a scope exit
/// never finds the call stack empty: the missing-call-frame failure is a
/// violation of an invariant the engine itself maintains.
#[verifier::spinoff_prover]
#[verifier::rlimit(100)]
pub proof fn lemma_balance_preserved(prog: Seq<InstrModel>, c: Config)
    requires
        balanced(c),
    ensures
        step_spec(prog, c) matches StepModel::Continue(c1) ==> balanced(c1),
        step_spec(prog, c) matches StepModel::Pause(c1) ==> balanced(c1),
        step_spec(prog, c) matches StepModel::Fail(c1, e) ==> e != ErrorModel::MissingCallFrame,
{
    if c.pc < prog.len() && c.calls.len() > 0 && c.scopes.len() > 0 {
        match prog[c.pc as int] {
            InstrModel::Mov(t, o) => {},
            InstrModel::Add(o1, o2, t) => {},
            InstrModel::Sub(o1, o2, t) => {},
            InstrModel::Mul(o1, o2, t) => {},
            InstrModel::Div(o1, o2, t) => {},
            InstrModel::Mod(o1, o2, t) => {},
            InstrModel::And(o1, o2, t) => {},
            InstrModel::Or(o1, o2, t) => {},
            InstrModel::Not(o, t) => {},
            InstrModel::Neg(o, t) => {},
            InstrModel::Eq(o1, o2, t) => {},
            InstrModel::Neq(o1, o2, t) => {},
            InstrModel::Less(o1, o2, t) => {},
            InstrModel::LessEq(o1, o2, t) => {},
            InstrModel::Greater(o1, o2, t) => {},
            InstrModel::GreaterEq(o1, o2, t) => {},
            InstrModel::Jmp(name) => {},
            InstrModel::JmpFalse(name, o) => {},
            InstrModel::Print(o) => {},
            InstrModel::Read => {},
            InstrModel::Call(name) => {},
            InstrModel::ScopeOut => {},
            InstrModel::Label(name) => {},
        }
    }
}

/// From any balanced configuration — a fresh engine's included — no number
/// of steps ever fails for want of a call frame.
pub proof fn lemma_no_missing_call_frame(prog: Seq<InstrModel>, c: Config, n: nat)
    requires
        balanced(c),
    ensures
        run_n(prog, c, n) matches RunModel::Running(c1) ==> balanced(c1),
        run_n(prog, c, n) matches RunModel::Paused(c1) ==> balanced(c1),
        run_n(prog, c, n) matches RunModel::Failed(c1, e) ==> e != ErrorModel::MissingCallFrame,
    decreases n,
{
    if n > 0 {
        lemma_no_missing_call_frame(prog, c, (n - 1) as nat);
        match run_n(prog, c, (n - 1) as nat) {
            RunModel::Running(c1) => {
                lemma_balance_preserved(prog, c1);
            },
            _ => {},
        }
    }
}

/// Popping from an empty value stack always fails with a stack underflow,
/// whatever the scope holds — never any other error kind.
pub proof fn lemma_pop_empty_underflow(scope: Map<Seq<char>, ValueModel>)
    ensures
        resolve_spec(OperandModel::Pop, scope, Seq::<ValueModel>::empty()) == Err::<
            (ValueModel, Seq<ValueModel>),
            ErrorModel,
        >(ErrorModel::StackUnderflow),
{
}

/// A `Call` pushes the index of the instruction after it onto the call
/// stack, opens one fresh empty scope above the caller's, and jumps to the
/// label's index; the value stack is untouched.
pub proof fn lemma_call_step(prog: Seq<InstrModel>, c: Config, name: Seq<char>, j: int)
    requires
        c.pc < prog.len(),
        prog[c.pc as int] == InstrModel::Call(name),
        c.calls.len() > 0,
        c.scopes.len() > 0,
        find_label_spec(prog, name) == Some(j),
    ensures
        step_spec(prog, c) == StepModel::Continue(
            Config {
                calls: c.calls.push((c.pc + 1) as usize),
                scopes: c.scopes.push(Map::empty()),
                pc: j as usize,
                ..c
            },
        ),
{
}

/// A scope exit above the base scope pops exactly the innermost scope and
/// the top return index, and control moves to that index: with the call at
/// nesting depth one, that is the instruction right after the `Call`, and
/// every binding of the called scope is gone.
pub proof fn lemma_return_step(prog: Seq<InstrModel>, c: Config)
    requires
        c.pc < prog.len(),
        prog[c.pc as int] == InstrModel::ScopeOut,
        c.calls.len() > 0,
        c.scopes.len() >= 2,
    ensures
        step_spec(prog, c) == StepModel::Continue(
            Config {
                calls: c.calls.drop_last(),
                scopes: c.scopes.drop_last(),
                pc: c.calls.last(),
                ..c
            },
        ),
{
}

/// The configuration a `Call` enters: the return index pushed, one fresh
/// scope opened, control at the label's index.
pub open spec fn call_entered(c: Config, j: int) -> Config {
    Config {
        calls: c.calls.push((c.pc + 1) as usize),
        scopes: c.scopes.push(Map::empty()),
        pc: j as usize,
        ..c
    }
}

/// One step never touches the stacks below the current frame: as long as the
/// scope depth stays above `d`, the first `d` scopes and the first `d + 1`
/// return indices stand untouched.
#[verifier::spinoff_prover]
#[verifier::rlimit(100)]
proof fn lemma_step_preserves_frame(prog: Seq<InstrModel>, c: Config, c1: Config, d: int)
    requires
        0 <= d,
        balanced(c),
        c.calls.len() > 0,
        step_spec(prog, c) == StepModel::Continue(c1),
        c.scopes.len() > d,
        c1.scopes.len() > d,
        balanced(c1),
    ensures
        c1.scopes.subrange(0, d) == c.scopes.subrange(0, d),
        c1.calls.subrange(0, d + 1) == c.calls.subrange(0, d + 1),
{
    assert(c.calls.len() == c.scopes.len());
    assert(c1.calls.len() == c1.scopes.len());
    if c.pc < prog.len() && c.scopes.len() > 0 {
        match prog[c.pc as int] {
            InstrModel::Mov(t, o) => {
                assert(c1.scopes.subrange(0, d) =~= c.scopes.subrange(0, d));
            },
            InstrModel::Add(o1, o2, t) => {
                assert(c1.scopes.subrange(0, d) =~= c.scopes.subrange(0, d));
            },
            InstrModel::Sub(o1, o2, t) => {
                assert(c1.scopes.subrange(0, d) =~= c.scopes.subrange(0, d));
            },
            InstrModel::Mul(o1, o2, t) => {
                assert(c1.scopes.subrange(0, d) =~= c.scopes.subrange(0, d));
            },
            InstrModel::Div(o1, o2, t) => {
                assert(c1.scopes.subrange(0, d) =~= c.scopes.subrange(0, d));
            },
            InstrModel::Mod(o1, o2, t) => {
                assert(c1.scopes.subrange(0, d) =~= c.scopes.subrange(0, d));
            },
            InstrModel::And(o1, o2, t) => {
                assert(c1.scopes.subrange(0, d) =~= c.scopes.subrange(0, d));
            },
            InstrModel::Or(o1, o2, t) => {
                assert(c1.scopes.subrange(0, d) =~= c.scopes.subrange(0, d));
            },
            InstrModel::Not(o, t) => {
                assert(c1.scopes.subrange(0, d) =~= c.scopes.subrange(0, d));
            },
            InstrModel::Neg(o, t) => {
                assert(c1.scopes.subrange(0, d) =~= c.scopes.subrange(0, d));
            },
            InstrModel::Eq(o1, o2, t) => {
                assert(c1.scopes.subrange(0, d) =~= c.scopes.subrange(0, d));
            },
            InstrModel::Neq(o1, o2, t) => {
                assert(c1.scopes.subrange(0, d) =~= c.scopes.subrange(0, d));
            },
            InstrModel::Less(o1, o2, t) => {
                assert(c1.scopes.subrange(0, d) =~= c.scopes.subrange(0, d));
            },
            InstrModel::LessEq(o1, o2, t) => {
                assert(c1.scopes.subrange(0, d) =~= c.scopes.subrange(0, d));
            },
            InstrModel::Greater(o1, o2, t) => {
                assert(c1.scopes.subrange(0, d) =~= c.scopes.subrange(0, d));
            },
            InstrModel::GreaterEq(o1, o2, t) => {
                assert(c1.scopes.subrange(0, d) =~= c.scopes.subrange(0, d));
            },
            InstrModel::Call(name) => {
                assert(c1.scopes.subrange(0, d) =~= c.scopes.subrange(0, d));
            },
            InstrModel::ScopeOut => {
                assert(c1.scopes.subrange(0, d) =~= c.scopes.subrange(0, d));
            },
            _ => {
                assert(c1.scopes.subrange(0, d) =~= c.scopes.subrange(0, d));
            },
        }
    }
    assert(c1.calls.subrange(0, d + 1) =~= c.calls.subrange(0, d + 1));
}

/// While a callee's scope depth stays strictly above the caller's, the
/// caller's scopes and the whole call stack up to and including the pushed
/// return index stand untouched, and the balance holds.
proof fn lemma_callee_keeps_frame(prog: Seq<InstrModel>, entered: Config, d: int, k: nat)
    requires
        1 <= d,
        balanced(entered),
        entered.scopes.len() == d + 1,
        entered.calls.len() == d + 1,
        forall|i: nat|
            i <= k ==> ((#[trigger] run_n(prog, entered, i)) matches RunModel::Running(ci)
                && ci.scopes.len() > d),
    ensures
        run_n(prog, entered, k) matches RunModel::Running(ck) && balanced(ck)
            && ck.scopes.subrange(0, d) == entered.scopes.subrange(0, d) && ck.calls.subrange(
            0,
            d + 1,
        ) == entered.calls.subrange(0, d + 1),
    decreases k,
{
    if k == 0 {
        assert(run_n(prog, entered, 0) == RunModel::Running(entered));
        assert(entered.calls.subrange(0, d + 1) =~= entered.calls.subrange(0, d + 1));
    } else {
        assert(forall|i: nat|
            i <= (k - 1) as nat ==> ((#[trigger] run_n(prog, entered, i))
                matches RunModel::Running(ci) && ci.scopes.len() > d));
        lemma_callee_keeps_frame(prog, entered, d, (k - 1) as nat);
        let prev = run_n(prog, entered, (k - 1) as nat)->Running_0;
        assert(run_n(prog, entered, (k - 1) as nat) matches RunModel::Running(ci)
            && ci.scopes.len() > d);
        assert(run_n(prog, entered, k) == lift_step(step_spec(prog, prev)));
        let cur = run_n(prog, entered, k)->Running_0;
        assert(run_n(prog, entered, k) matches RunModel::Running(ci) && ci.scopes.len() > d);
        assert(step_spec(prog, prev) == StepModel::Continue(cur));
        lemma_balance_preserved(prog, prev);
        assert(prev.scopes.len() > d >= 1);
        assert(prev.calls.len() > 0);
        assert(prev.calls.len() == prev.scopes.len());
        lemma_step_preserves_frame(prog, prev, cur, d);
        assert(cur.scopes.subrange(0, d) == entered.scopes.subrange(0, d));
        assert(cur.calls.subrange(0, d + 1) == entered.calls.subrange(0, d + 1));
    }
}

/// A `Call` whose callee reaches a `ScopeOut` at nesting depth one — the
/// first configuration whose scope depth is back down to one above the
/// caller's — returns control to the instruction immediately after the
/// `Call`, with the caller's scope stack exactly as it stood: the called
/// scope's bindings are invisible afterward.
pub proof fn lemma_call_matching_scope_out(
    prog: Seq<InstrModel>,
    c: Config,
    name: Seq<char>,
    j: int,
    k: nat,
)
    requires
        c.pc < prog.len(),
        prog[c.pc as int] == InstrModel::Call(name),
        balanced(c),
        c.calls.len() > 0,
        c.scopes.len() > 0,
        find_label_spec(prog, name) == Some(j),
        forall|i: nat|
            i <= k ==> ((#[trigger] run_n(prog, call_entered(c, j), i))
                matches RunModel::Running(ci) && ci.scopes.len() > c.scopes.len()),
        run_n(prog, call_entered(c, j), k) matches RunModel::Running(ck) && ck.scopes.len()
            == c.scopes.len() + 1 && ck.pc < prog.len() && prog[ck.pc as int]
            == InstrModel::ScopeOut,
    ensures
        step_spec(prog, c) == StepModel::Continue(call_entered(c, j)),
        run_n(prog, call_entered(c, j), k) matches RunModel::Running(ck) && step_spec(prog, ck)
            matches StepModel::Continue(returned) && returned.pc == (c.pc + 1) as usize
            && returned.scopes == c.scopes && returned.calls == c.calls,
{
    let d = c.scopes.len() as int;
    let entered = call_entered(c, j);
    lemma_call_step(prog, c, name, j);
    assert(c.calls.len() == c.scopes.len());
    lemma_callee_keeps_frame(prog, entered, d, k);
    let ck = run_n(prog, entered, k)->Running_0;
    assert(entered.scopes.subrange(0, d) =~= c.scopes);
    assert(entered.calls.subrange(0, d + 1) =~= c.calls.push((c.pc + 1) as usize));
    assert(balanced(ck));
    assert(ck.calls.len() == ck.scopes.len());
    assert(ck.calls =~= c.calls.push((c.pc + 1) as usize));
    assert(ck.scopes.drop_last() =~= c.scopes);
    lemma_return_step(prog, ck);
    assert(ck.calls.last() == (c.pc + 1) as usize);
    assert(ck.calls.drop_last() =~= c.calls);
}

/// The engine's operand-order asymmetry, pinned down: an `Add` instruction
/// hands its positional second operand to the operation as the left-hand
/// side — two literals pushed add as `second + first` — while `Mul` keeps
/// positional order.  With text operands, `Add` therefore concatenates the
/// second operand's text before the first's.
pub proof fn lemma_binary_operand_order(
    prog: Seq<InstrModel>,
    c: Config,
    v1: ValueModel,
    v2: ValueModel,
)
    requires
        c.pc < prog.len(),
        c.calls.len() > 0,
        c.scopes.len() > 0,
    ensures
        prog[c.pc as int] == InstrModel::Add(
            OperandModel::Value(v1),
            OperandModel::Value(v2),
            TargetModel::Push,
        ) ==> (step_spec(prog, c) matches StepModel::Continue(c1) && c1.vals == c.vals.push(
            val_add(v2, v1)->Ok_0,
        )),
        (prog[c.pc as int] == InstrModel::Mul(
            OperandModel::Value(v1),
            OperandModel::Value(v2),
            TargetModel::Push,
        ) && val_mul(v1, v2) is Ok) ==> (step_spec(prog, c) matches StepModel::Continue(c1)
            && c1.vals == c.vals.push(val_mul(v1, v2)->Ok_0)),
{
}

/// A top-level scope exit — the scope stack at depth exactly one when it
/// executes — always ends the run, yielding the top of the value stack at
/// that moment; with nothing on the value stack it fails with a stack
/// underflow.
pub proof fn lemma_top_level_scope_out(prog: Seq<InstrModel>, c: Config)
    requires
        c.pc < prog.len(),
        prog[c.pc as int] == InstrModel::ScopeOut,
        c.calls.len() > 0,
        c.scopes.len() == 1,
    ensures
        c.vals.len() > 0 ==> step_spec(prog, c) == StepModel::Done(
            Config { scopes: c.scopes.drop_last(), vals: c.vals.drop_last(), ..c },
            c.vals.last(),
        ),
        c.vals.len() == 0 ==> step_spec(prog, c) == StepModel::Fail(
            Config { scopes: c.scopes.drop_last(), ..c },
            ErrorModel::StackUnderflow,
        ),
{
}

} // verus!
