//! The execution engine: three stacks and a fetch-execute loop.
//!
//! The engine owns the value stack, the call stack and the scope stack, and
//! advances a program counter under its own control until a top-level scope
//! exit yields the final value or an error stops the run.  Each step is
//! proved equal to [`step_spec`], and a whole run to an iterate of it.

use crate::error::{ErrorModel, VmError};
use crate::instruction::{InstrModel, Instruction};
use crate::label::{label, Label};
use crate::operand::{resolve_spec, Operand};
use crate::program::Program;
use crate::scope::Scope;
use crate::semantics::{
    find_label_spec, is_first_label, main_label_model, run_n, step_spec, Config, RunModel,
    StepModel,
};
use crate::target::{commit_spec, Target};
use crate::value::{parse_value, stack_model, Value, ValueModel};
use vstd::prelude::*;

verus! {

/// A scope stack, viewed scope by scope.
pub open spec fn scopes_model(s: Seq<Scope>) -> Seq<Map<Seq<char>, ValueModel>> {
    s.map_values(|sc: Scope| sc@)
}

/// An output buffer, viewed line by line.
pub open spec fn out_model(s: Seq<String>) -> Seq<Seq<char>> {
    s.map_values(|line: String| line@)
}

/// The configuration a fresh engine starts from: empty value and call
/// stacks, a single empty base scope, nothing printed, nothing pending, the
/// program counter at zero.
pub open spec fn init_config() -> Config {
    Config {
        vals: Seq::empty(),
        calls: Seq::empty(),
        scopes: seq![Map::empty()],
        out: Seq::empty(),
        pending: None,
        pc: 0,
    }
}

/// What one call of `run` ends with when no error stops it.
#[derive(Debug, PartialEq)]
pub enum RunOutcome {
    /// The program ended; this is its final value.
    Done(Value),
    /// A `Read` wants one line of input: hand it to `provide_input` and call
    /// `run` again.
    NeedInput,
    /// The fuel ran out first: the program is still going; call `run` again
    /// to continue it.
    Working,
}

/// What one step of the loop asks of it.
enum Step {
    Continue,
    Pause,
    Done(Value),
}

/// The execution engine.
pub struct Vm {
    value_stack: Vec<Value>,
    call_stack: Vec<usize>,
    scope_stack: Vec<Scope>,
    output: Vec<String>,
    pending: Option<Value>,
    pc: usize,
}

impl View for Vm {
    type V = Config;

    closed spec fn view(&self) -> Config {
        Config {
            vals: stack_model(self.value_stack@),
            calls: self.call_stack@,
            scopes: scopes_model(self.scope_stack@),
            out: out_model(self.output@),
            pending: match self.pending {
                Some(v) => Some(v@),
                None => None,
            },
            pc: self.pc,
        }
    }
}

impl Default for Vm {
    /// A fresh engine, ready to run one program.
    fn default() -> (r: Self)
        ensures
            r@ == init_config(),
    {
        let mut scopes: Vec<Scope> = Vec::new();
        scopes.push(Scope::new());
        let r = Vm {
            value_stack: Vec::new(),
            call_stack: Vec::new(),
            scope_stack: scopes,
            output: Vec::new(),
            pending: None,
            pc: 0,
        };
        proof {
            assert(r@.scopes =~= init_config().scopes);
            assert(r@ =~~= init_config());
        }
        r
    }
}

impl Vm {
    /// The label that marks the entry point.
    fn main_label() -> (r: Label)
        ensures
            r@ == main_label_model(),
    {
        let r = label("Function", "_main_");
        proof {
            reveal_strlit("$$");
            reveal_strlit("Function");
            reveal_strlit("_");
            reveal_strlit("_main_");
            reveal_strlit("$$Function__main_$$");
            assert(r@ =~= "$$Function__main_$$"@);
        }
        r
    }

    /// Resolves an operand against the innermost scope and the value stack.
    fn resolve(&mut self, op: &Operand) -> (r: Result<Value, VmError>)
        requires
            old(self)@.scopes.len() > 0,
        ensures
            match r {
                Ok(v) => resolve_spec(op@, old(self)@.scopes.last(), old(self)@.vals) == Ok::<
                    _,
                    ErrorModel,
                >((v@, final(self)@.vals)),
                Err(e) => resolve_spec(op@, old(self)@.scopes.last(), old(self)@.vals) == Err::<
                    (ValueModel, Seq<ValueModel>),
                    _,
                >(e@) && final(self)@.vals == old(self)@.vals,
            },
            final(self)@ == (Config { vals: final(self)@.vals, ..old(self)@ }),
    {
        let idx = self.scope_stack.len() - 1;
        let r = op.get_value(&self.scope_stack[idx], &mut self.value_stack);
        proof {
            assert(self@.scopes.last() == self.scope_stack@[idx as int]@);
        }
        r
    }

    /// Commits a value into a target, against the innermost scope and the
    /// value stack.
    fn commit(&mut self, t: &Target, value: Value)
        requires
            old(self)@.scopes.len() > 0,
        ensures
            final(self)@ == (Config {
                scopes: old(self)@.scopes.update(
                    old(self)@.scopes.len() - 1,
                    commit_spec(
                        t@,
                        value@,
                        old(self)@.scopes.last(),
                        old(self)@.vals,
                    ).0,
                ),
                vals: commit_spec(t@, value@, old(self)@.scopes.last(), old(self)@.vals).1,
                ..old(self)@
            }),
    {
        let idx = self.scope_stack.len() - 1;
        let mut scope = self.scope_stack.remove(idx);
        t.set_value(value, &mut scope, &mut self.value_stack);
        self.scope_stack.push(scope);
        proof {
            assert(old(self).scope_stack@.remove(idx as int) =~= old(
                self,
            ).scope_stack@.drop_last());
            assert(self@.scopes =~= old(self)@.scopes.update(
                old(self)@.scopes.len() - 1,
                commit_spec(t@, value@, old(self)@.scopes.last(), old(self)@.vals).0,
            ));
        }
    }

    /// Resolves a label to a program index by a forward scan for the first
    /// matching marker; executed afresh on every jump and call.
    fn find_label(&self, program: &Program, target: &Label) -> (r: Result<usize, VmError>)
        ensures
            match r {
                Ok(i) => find_label_spec(program@, target@) == Some(i as int),
                Err(e) => find_label_spec(program@, target@) is None && e@
                    == ErrorModel::MissingLabel(target@),
            },
    {
        let n = program.0.len();
        let mut i: usize = 0;
        while i < n
            invariant
                0 <= i <= n,
                n == program.0.len(),
                forall|j: int| 0 <= j < i ==> program@[j] != InstrModel::Label(target@),
            decreases n - i,
        {
            match &program.0[i] {
                Instruction::Label(l) => {
                    if l.same_as(target) {
                        proof {
                            assert(program@[i as int] == InstrModel::Label(target@));
                            assert(is_first_label(program@, target@, i as int));
                            let w = choose|k: int| is_first_label(program@, target@, k);
                            assert(is_first_label(program@, target@, w));
                            assert(w == i as int);
                        }
                        return Ok(i);
                    }
                },
                _ => {},
            }
            proof {
                assert(program@[i as int] != InstrModel::Label(target@));
            }
            i = i + 1;
        }
        proof {
            assert(forall|k: int| !is_first_label(program@, target@, k));
        }
        Err(VmError::MissingLabel(target.as_text().to_owned()))
    }

    /// Executes the one instruction at the current program counter; the
    /// result and the state afterwards are exactly what [`step_spec`] gives.
    #[verifier::spinoff_prover]
    #[verifier::rlimit(100)]
    fn run_instruction(&mut self, program: &Program) -> (r: Result<Step, VmError>)
        ensures
            match r {
                Ok(Step::Continue) => step_spec(program@, old(self)@) == StepModel::Continue(
                    final(self)@,
                ),
                Ok(Step::Pause) => step_spec(program@, old(self)@) == StepModel::Pause(
                    final(self)@,
                ) && final(self)@ == old(self)@,
                Ok(Step::Done(v)) => step_spec(program@, old(self)@) == StepModel::Done(
                    final(self)@,
                    v@,
                ),
                Err(e) => step_spec(program@, old(self)@) == StepModel::Fail(final(self)@, e@),
            },
    {
        if self.pc >= program.0.len() {
            return Err(VmError::MissingInstruction(self.pc));
        }
        if self.call_stack.len() == 0 {
            // Entry-point discovery: nothing executes until the reserved main
            // label is seen; the index after it seeds the call stack.
            let main = Self::main_label();
            match &program.0[self.pc] {
                Instruction::Label(l) => {
                    if l.same_as(&main) {
                        let next = self.pc + 1;
                        self.call_stack.push(next);
                    }
                },
                _ => {},
            }
            self.pc = self.pc + 1;
            return Ok(Step::Continue);
        }
        if self.scope_stack.len() == 0 {
            return Err(VmError::MissingScope);
        }
        match &program.0[self.pc] {
            Instruction::Mov(t, o) => {
                let v = match self.resolve(o) {
                    Ok(v) => v,
                    Err(e) => return Err(e),
                };
                self.commit(t, v);
                self.pc = self.pc + 1;
                Ok(Step::Continue)
            },
            Instruction::Add(o1, o2, t) => {
                let v1 = match self.resolve(o1) {
                    Ok(v) => v,
                    Err(e) => return Err(e),
                };
                let v2 = match self.resolve(o2) {
                    Ok(v) => v,
                    Err(e) => return Err(e),
                };
                let v = match v2.add(&v1) {
                    Ok(v) => v,
                    Err(e) => return Err(e),
                };
                self.commit(t, v);
                self.pc = self.pc + 1;
                Ok(Step::Continue)
            },
            Instruction::Sub(o1, o2, t) => {
                let v1 = match self.resolve(o1) {
                    Ok(v) => v,
                    Err(e) => return Err(e),
                };
                let v2 = match self.resolve(o2) {
                    Ok(v) => v,
                    Err(e) => return Err(e),
                };
                let v = match v2.sub(&v1) {
                    Ok(v) => v,
                    Err(e) => return Err(e),
                };
                self.commit(t, v);
                self.pc = self.pc + 1;
                Ok(Step::Continue)
            },
            Instruction::Mul(o1, o2, t) => {
                let v1 = match self.resolve(o1) {
                    Ok(v) => v,
                    Err(e) => return Err(e),
                };
                let v2 = match self.resolve(o2) {
                    Ok(v) => v,
                    Err(e) => return Err(e),
                };
                let v = match v1.mul(&v2) {
                    Ok(v) => v,
                    Err(e) => return Err(e),
                };
                self.commit(t, v);
                self.pc = self.pc + 1;
                Ok(Step::Continue)
            },
            Instruction::Div(o1, o2, t) => {
                let v1 = match self.resolve(o1) {
                    Ok(v) => v,
                    Err(e) => return Err(e),
                };
                let v2 = match self.resolve(o2) {
                    Ok(v) => v,
                    Err(e) => return Err(e),
                };
                let v = match v2.div(&v1) {
                    Ok(v) => v,
                    Err(e) => return Err(e),
                };
                self.commit(t, v);
                self.pc = self.pc + 1;
                Ok(Step::Continue)
            },
            Instruction::Mod(o1, o2, t) => {
                let v1 = match self.resolve(o1) {
                    Ok(v) => v,
                    Err(e) => return Err(e),
                };
                let v2 = match self.resolve(o2) {
                    Ok(v) => v,
                    Err(e) => return Err(e),
                };
                let v = match v2.modulo(&v1) {
                    Ok(v) => v,
                    Err(e) => return Err(e),
                };
                self.commit(t, v);
                self.pc = self.pc + 1;
                Ok(Step::Continue)
            },
            Instruction::And(o1, o2, t) => {
                let v1 = match self.resolve(o1) {
                    Ok(v) => v,
                    Err(e) => return Err(e),
                };
                let v2 = match self.resolve(o2) {
                    Ok(v) => v,
                    Err(e) => return Err(e),
                };
                let v = match v1.and(&v2) {
                    Ok(v) => v,
                    Err(e) => return Err(e),
                };
                self.commit(t, v);
                self.pc = self.pc + 1;
                Ok(Step::Continue)
            },
            Instruction::Or(o1, o2, t) => {
                let v1 = match self.resolve(o1) {
                    Ok(v) => v,
                    Err(e) => return Err(e),
                };
                let v2 = match self.resolve(o2) {
                    Ok(v) => v,
                    Err(e) => return Err(e),
                };
                let v = match v1.or(&v2) {
                    Ok(v) => v,
                    Err(e) => return Err(e),
                };
                self.commit(t, v);
                self.pc = self.pc + 1;
                Ok(Step::Continue)
            },
            Instruction::Not(o, t) => {
                let v1 = match self.resolve(o) {
                    Ok(v) => v,
                    Err(e) => return Err(e),
                };
                let v = match v1.not() {
                    Ok(v) => v,
                    Err(e) => return Err(e),
                };
                self.commit(t, v);
                self.pc = self.pc + 1;
                Ok(Step::Continue)
            },
            Instruction::Neg(o, t) => {
                let v1 = match self.resolve(o) {
                    Ok(v) => v,
                    Err(e) => return Err(e),
                };
                let v = match v1.neg() {
                    Ok(v) => v,
                    Err(e) => return Err(e),
                };
                self.commit(t, v);
                self.pc = self.pc + 1;
                Ok(Step::Continue)
            },
            Instruction::Eq(o1, o2, t) => {
                let v1 = match self.resolve(o1) {
                    Ok(v) => v,
                    Err(e) => return Err(e),
                };
                let v2 = match self.resolve(o2) {
                    Ok(v) => v,
                    Err(e) => return Err(e),
                };
                let v = match v1.eq(&v2) {
                    Ok(v) => v,
                    Err(e) => return Err(e),
                };
                self.commit(t, v);
                self.pc = self.pc + 1;
                Ok(Step::Continue)
            },
            Instruction::Neq(o1, o2, t) => {
                let v1 = match self.resolve(o1) {
                    Ok(v) => v,
                    Err(e) => return Err(e),
                };
                let v2 = match self.resolve(o2) {
                    Ok(v) => v,
                    Err(e) => return Err(e),
                };
                let v = match v1.ne(&v2) {
                    Ok(v) => v,
                    Err(e) => return Err(e),
                };
                self.commit(t, v);
                self.pc = self.pc + 1;
                Ok(Step::Continue)
            },
            Instruction::Less(o1, o2, t) => {
                let v1 = match self.resolve(o1) {
                    Ok(v) => v,
                    Err(e) => return Err(e),
                };
                let v2 = match self.resolve(o2) {
                    Ok(v) => v,
                    Err(e) => return Err(e),
                };
                let v = match v2.lt(&v1) {
                    Ok(v) => v,
                    Err(e) => return Err(e),
                };
                self.commit(t, v);
                self.pc = self.pc + 1;
                Ok(Step::Continue)
            },
            Instruction::LessEq(o1, o2, t) => {
                let v1 = match self.resolve(o1) {
                    Ok(v) => v,
                    Err(e) => return Err(e),
                };
                let v2 = match self.resolve(o2) {
                    Ok(v) => v,
                    Err(e) => return Err(e),
                };
                let v = match v2.le(&v1) {
                    Ok(v) => v,
                    Err(e) => return Err(e),
                };
                self.commit(t, v);
                self.pc = self.pc + 1;
                Ok(Step::Continue)
            },
            Instruction::Greater(o1, o2, t) => {
                let v1 = match self.resolve(o1) {
                    Ok(v) => v,
                    Err(e) => return Err(e),
                };
                let v2 = match self.resolve(o2) {
                    Ok(v) => v,
                    Err(e) => return Err(e),
                };
                let v = match v2.gt(&v1) {
                    Ok(v) => v,
                    Err(e) => return Err(e),
                };
                self.commit(t, v);
                self.pc = self.pc + 1;
                Ok(Step::Continue)
            },
            Instruction::GreaterEq(o1, o2, t) => {
                let v1 = match self.resolve(o1) {
                    Ok(v) => v,
                    Err(e) => return Err(e),
                };
                let v2 = match self.resolve(o2) {
                    Ok(v) => v,
                    Err(e) => return Err(e),
                };
                let v = match v2.ge(&v1) {
                    Ok(v) => v,
                    Err(e) => return Err(e),
                };
                self.commit(t, v);
                self.pc = self.pc + 1;
                Ok(Step::Continue)
            },
            Instruction::Jmp(l) => {
                match self.find_label(program, l) {
                    Ok(j) => {
                        self.pc = j;
                        Ok(Step::Continue)
                    },
                    Err(e) => Err(e),
                }
            },
            Instruction::JmpFalse(l, o) => {
                let v = match self.resolve(o) {
                    Ok(v) => v,
                    Err(e) => return Err(e),
                };
                if !v.is_truthy() {
                    match self.find_label(program, l) {
                        Ok(j) => {
                            self.pc = j;
                            Ok(Step::Continue)
                        },
                        Err(e) => Err(e),
                    }
                } else {
                    self.pc = self.pc + 1;
                    Ok(Step::Continue)
                }
            },
            Instruction::Print(o) => {
                let v = match self.resolve(o) {
                    Ok(v) => v,
                    Err(e) => return Err(e),
                };
                self.output.push(v.to_text());
                proof {
                    assert(self@.out =~= old(self)@.out.push(
                        crate::value::val_to_text(
                            resolve_spec(
                                o@,
                                old(self)@.scopes.last(),
                                old(self)@.vals,
                            )->Ok_0.0,
                        ),
                    ));
                }
                self.pc = self.pc + 1;
                Ok(Step::Continue)
            },
            Instruction::Read => {
                let mut handed: Option<Value> = None;
                core::mem::swap(&mut handed, &mut self.pending);
                match handed {
                    Some(v) => {
                        self.value_stack.push(v);
                        proof {
                            assert(self@.vals =~= old(self)@.vals.push(
                                old(self)@.pending->Some_0,
                            ));
                        }
                        self.pc = self.pc + 1;
                        Ok(Step::Continue)
                    },
                    None => Ok(Step::Pause),
                }
            },
            Instruction::Call(l) => {
                let next = self.pc + 1;
                self.call_stack.push(next);
                self.scope_stack.push(Scope::new());
                proof {
                    assert(self@.scopes =~= old(self)@.scopes.push(
                        Map::<Seq<char>, ValueModel>::empty(),
                    ));
                }
                match self.find_label(program, l) {
                    Ok(j) => {
                        self.pc = j;
                        Ok(Step::Continue)
                    },
                    Err(e) => Err(e),
                }
            },
            Instruction::ScopeOut => {
                let idx = self.scope_stack.len() - 1;
                let depth_one = self.scope_stack.len() == 1;
                let _closed = self.scope_stack.remove(idx);
                proof {
                    assert(self@.scopes =~= old(self)@.scopes.drop_last());
                }
                if depth_one {
                    match self.value_stack.pop() {
                        Some(v) => {
                            proof {
                                assert(self@.vals =~= old(self)@.vals.drop_last());
                                assert(old(self)@.vals.last() == v@);
                            }
                            Ok(Step::Done(v))
                        },
                        None => Err(VmError::StackUnderflow),
                    }
                } else {
                    match self.call_stack.pop() {
                        Some(ret) => {
                            self.pc = ret;
                            Ok(Step::Continue)
                        },
                        None => Err(VmError::MissingCallFrame),
                    }
                }
            },
            Instruction::Label(_) => {
                self.pc = self.pc + 1;
                Ok(Step::Continue)
            },
        }
    }

    /// Runs the program from the engine's current state, for at most `fuel`
    /// steps, until a top-level scope exit yields the final value, an error
    /// stops the run, or a `Read` finds no pending input and the run pauses.
    /// A program may loop forever; the fuel bounds one call, and a run cut
    /// short reports that it is still working, to be continued by calling
    /// again.
    ///
    /// Whatever comes back is the outcome that stepping the mathematical
    /// semantics reaches from the starting configuration, and the engine is
    /// left in exactly the configuration those steps leave.
    pub fn run(&mut self, program: &Program, fuel: usize) -> (r: Result<RunOutcome, VmError>)
        ensures
            match r {
                Ok(RunOutcome::Done(v)) => exists|n: nat|
                    n <= fuel && run_n(program@, old(self)@, n) == RunModel::Finished(
                        final(self)@,
                        v@,
                    ),
                Ok(RunOutcome::NeedInput) => exists|n: nat|
                    n <= fuel && run_n(program@, old(self)@, n) == RunModel::Paused(final(self)@),
                Ok(RunOutcome::Working) => run_n(program@, old(self)@, fuel as nat)
                    == RunModel::Running(final(self)@),
                Err(e) => exists|n: nat|
                    n <= fuel && run_n(program@, old(self)@, n) == RunModel::Failed(
                        final(self)@,
                        e@,
                    ),
            },
    {
        let ghost start = self@;
        let mut used: usize = 0;
        loop
            invariant
                used <= fuel,
                run_n(program@, start, used as nat) == RunModel::Running(self@),
                start == old(self)@,
            decreases fuel - used,
        {
            if used == fuel {
                return Ok(RunOutcome::Working);
            }
            let outcome = self.run_instruction(program);
            used = used + 1;
            match outcome {
                Ok(Step::Continue) => {
                    proof {
                        assert(run_n(program@, start, used as nat) == RunModel::Running(self@));
                    }
                },
                Ok(Step::Pause) => {
                    proof {
                        assert(run_n(program@, start, used as nat) == RunModel::Paused(self@));
                    }
                    return Ok(RunOutcome::NeedInput);
                },
                Ok(Step::Done(v)) => {
                    proof {
                        assert(run_n(program@, start, used as nat) == RunModel::Finished(
                            self@,
                            v@,
                        ));
                    }
                    return Ok(RunOutcome::Done(v));
                },
                Err(e) => {
                    proof {
                        assert(run_n(program@, start, used as nat) == RunModel::Failed(self@, e@));
                    }
                    return Err(e);
                },
            }
        }
    }

    /// Hands the engine one line of input for its next `Read`: the line is
    /// trimmed and parsed as a value, and a parse failure leaves the engine
    /// untouched and reports the invalid literal.
    pub fn provide_input(&mut self, line: &str) -> (r: Result<(), VmError>)
        requires
            line@.len() < 0x8000_0000,
        ensures
            match r {
                Ok(_) => parse_value(line@) is Ok && final(self)@ == (Config {
                    pending: Some(parse_value(line@)->Ok_0),
                    ..old(self)@
                }),
                Err(e) => parse_value(line@) == Err::<ValueModel, _>(e@) && final(self)@ == old(
                    self,
                )@,
            },
    {
        match Value::from_str(line) {
            Ok(v) => {
                self.pending = Some(v);
                Ok(())
            },
            Err(e) => Err(e),
        }
    }

    /// Takes everything printed so far, oldest line first, leaving the
    /// output buffer empty.
    pub fn take_output(&mut self) -> (r: Vec<String>)
        ensures
            out_model(r@) == old(self)@.out,
            final(self)@ == (Config { out: Seq::empty(), ..old(self)@ }),
    {
        let mut drained: Vec<String> = Vec::new();
        core::mem::swap(&mut drained, &mut self.output);
        proof {
            assert(self@.out =~= Seq::<Seq<char>>::empty());
        }
        drained
    }
}

} // verus!
