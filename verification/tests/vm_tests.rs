//! End-to-end tests of the engine: whole programs run to their final value.

use vm::error::{OpKind, VmError};
use vm::instruction::Instruction;
use vm::label::{label, Label};
use vm::operand::Operand;
use vm::program::Program;
use vm::scope::Scope;
use vm::target::Target;
use vm::value::Value;
use vm::vm::{RunOutcome, Vm};

const FUEL: usize = 1_000_000;

fn num(x: f64) -> Value {
    Value::Num(x.to_bits())
}

fn text(s: &str) -> Value {
    Value::Text(s.to_string())
}

fn lit(x: f64) -> Operand {
    Operand::Value(num(x))
}

fn tlit(s: &str) -> Operand {
    Operand::Value(text(s))
}

fn rd(s: &str) -> Operand {
    Operand::Id(s.to_string())
}

fn wr(s: &str) -> Target {
    Target::Id(s.to_string())
}

fn main_marker() -> Instruction {
    Instruction::Label(label("Function", "_main_"))
}

fn fn_label(name: &str) -> Label {
    label("Function", name)
}

fn run_to_end(program: &Program) -> Result<Value, VmError> {
    let mut vm = Vm::default();
    match vm.run(program, FUEL)? {
        RunOutcome::Done(v) => Ok(v),
        other => panic!("the run did not finish: {:?}", other),
    }
}

#[test]
fn test_push_and_return() {
    // A top-level scope exit ends the run with the top of the value stack.
    let program = Program(vec![
        main_marker(),
        Instruction::Mov(Target::Push, lit(7.0)),
        Instruction::ScopeOut,
    ]);
    assert_eq!(run_to_end(&program).unwrap(), num(7.0));
}

#[test]
fn test_top_level_scope_out_takes_stack_top() {
    // Two values pushed: the later one is the result.
    let program = Program(vec![
        main_marker(),
        Instruction::Mov(Target::Push, lit(1.0)),
        Instruction::Mov(Target::Push, lit(2.0)),
        Instruction::ScopeOut,
    ]);
    assert_eq!(run_to_end(&program).unwrap(), num(2.0));
}

#[test]
fn test_operand_order_asymmetry() {
    // Sub applies `second - first`: with operand slots (2, 5) the result is
    // 5 - 2, and Add on text concatenates the second operand's text first.
    let program = Program(vec![
        main_marker(),
        Instruction::Sub(lit(2.0), lit(5.0), Target::Push),
        Instruction::ScopeOut,
    ]);
    assert_eq!(run_to_end(&program).unwrap(), num(3.0));

    let program2 = Program(vec![
        main_marker(),
        Instruction::Add(tlit("A"), tlit("B"), Target::Push),
        Instruction::ScopeOut,
    ]);
    assert_eq!(run_to_end(&program2).unwrap(), text("BA"));
}

#[test]
fn test_mul_keeps_positional_order() {
    let program = Program(vec![
        main_marker(),
        Instruction::Div(lit(2.0), lit(5.0), Target::Push),
        Instruction::ScopeOut,
    ]);
    // Div applies `second / first`.
    assert_eq!(run_to_end(&program).unwrap(), num(2.5));
    let program2 = Program(vec![
        main_marker(),
        Instruction::Mul(lit(6.0), lit(7.0), Target::Push),
        Instruction::ScopeOut,
    ]);
    assert_eq!(run_to_end(&program2).unwrap(), num(42.0));
}

#[test]
fn test_bootstrap_skips_instructions_before_main() {
    // Before the main label nothing executes: this Sub over text would fail
    // with a type mismatch if it ran.
    let program = Program(vec![
        Instruction::Sub(tlit("a"), tlit("b"), Target::Push),
        main_marker(),
        Instruction::Mov(Target::Push, lit(1.0)),
        Instruction::ScopeOut,
    ]);
    assert_eq!(run_to_end(&program).unwrap(), num(1.0));
}

#[test]
fn test_call_returns_after_call_site() {
    // The callee doubles the value it pops and pushes the result; control
    // comes back to the instruction right after the call.
    let program = Program(vec![
        main_marker(),
        Instruction::Mov(Target::Push, lit(21.0)),
        Instruction::Call(fn_label("double")),
        Instruction::Add(lit(1.0), Operand::Pop, Target::Push),
        Instruction::ScopeOut,
        Instruction::Label(fn_label("double")),
        Instruction::Mul(Operand::Pop, lit(2.0), Target::Push),
        Instruction::ScopeOut,
    ]);
    assert_eq!(run_to_end(&program).unwrap(), num(43.0));
}

#[test]
fn test_scope_isolation() {
    // The callee binds its own _x_; after the return the caller still sees
    // its own binding.
    let program = Program(vec![
        main_marker(),
        Instruction::Mov(wr("_x_"), lit(1.0)),
        Instruction::Call(fn_label("f")),
        Instruction::Mov(Target::Push, rd("_x_")),
        Instruction::ScopeOut,
        Instruction::Label(fn_label("f")),
        Instruction::Mov(wr("_x_"), lit(42.0)),
        Instruction::ScopeOut,
    ]);
    assert_eq!(run_to_end(&program).unwrap(), num(1.0));
}

#[test]
fn test_callee_bindings_invisible_after_return() {
    let program = Program(vec![
        main_marker(),
        Instruction::Call(fn_label("f")),
        Instruction::Mov(Target::Push, rd("_y_")),
        Instruction::ScopeOut,
        Instruction::Label(fn_label("f")),
        Instruction::Mov(wr("_y_"), lit(5.0)),
        Instruction::ScopeOut,
    ]);
    match run_to_end(&program) {
        Err(VmError::UndefinedVariable(name)) => assert_eq!(name, "_y_"),
        other => panic!("expected an undefined variable, got {:?}", other),
    }
}

#[test]
fn test_fibonacci() {
    // Iterative Fibonacci: after ten rounds _a_ holds 55.
    let program = Program(vec![
        main_marker(),
        Instruction::Mov(wr("_a_"), lit(0.0)),
        Instruction::Mov(wr("_b_"), lit(1.0)),
        Instruction::Mov(wr("_i_"), lit(0.0)),
        Instruction::Label(Label::new("$$loop$$")),
        // i < 10: Less applies `second < first`.
        Instruction::Less(lit(10.0), rd("_i_"), Target::Push),
        Instruction::JmpFalse(Label::new("$$end$$"), Operand::Pop),
        Instruction::Add(rd("_a_"), rd("_b_"), wr("_t_")),
        Instruction::Mov(wr("_a_"), rd("_b_")),
        Instruction::Mov(wr("_b_"), rd("_t_")),
        Instruction::Add(lit(1.0), rd("_i_"), wr("_i_")),
        Instruction::Jmp(Label::new("$$loop$$")),
        Instruction::Label(Label::new("$$end$$")),
        Instruction::Mov(Target::Push, rd("_a_")),
        Instruction::ScopeOut,
    ]);
    assert_eq!(run_to_end(&program).unwrap(), num(55.0));
}

#[test]
fn test_factorial() {
    // 10! by repeated Mul in a loop.
    let program = Program(vec![
        main_marker(),
        Instruction::Mov(wr("_acc_"), lit(1.0)),
        Instruction::Mov(wr("_i_"), lit(1.0)),
        Instruction::Label(Label::new("$$loop$$")),
        // i <= 10: LessEq applies `second <= first`.
        Instruction::LessEq(lit(10.0), rd("_i_"), Target::Push),
        Instruction::JmpFalse(Label::new("$$end$$"), Operand::Pop),
        Instruction::Mul(rd("_acc_"), rd("_i_"), wr("_acc_")),
        Instruction::Add(lit(1.0), rd("_i_"), wr("_i_")),
        Instruction::Jmp(Label::new("$$loop$$")),
        Instruction::Label(Label::new("$$end$$")),
        Instruction::Mov(Target::Push, rd("_acc_")),
        Instruction::ScopeOut,
    ]);
    assert_eq!(run_to_end(&program).unwrap(), num(3628800.0));
}

#[test]
fn test_fizzbuzz() {
    // Builds one text value by conditional concatenation up to fifteen and
    // returns it; the result must match the fixture exactly.
    let program = Program(vec![
        main_marker(),
        Instruction::Mov(wr("_s_"), tlit("")),
        Instruction::Mov(wr("_i_"), lit(1.0)),
        Instruction::Label(Label::new("$$loop$$")),
        Instruction::LessEq(lit(15.0), rd("_i_"), Target::Push),
        Instruction::JmpFalse(Label::new("$$end$$"), Operand::Pop),
        // m = i % 15: Mod applies `second % first`.
        Instruction::Mod(lit(15.0), rd("_i_"), wr("_m_")),
        Instruction::Eq(rd("_m_"), lit(0.0), Target::Push),
        Instruction::JmpFalse(Label::new("$$not15$$"), Operand::Pop),
        Instruction::Add(tlit("FizzBuzz"), rd("_s_"), wr("_s_")),
        Instruction::Jmp(Label::new("$$next$$")),
        Instruction::Label(Label::new("$$not15$$")),
        Instruction::Mod(lit(3.0), rd("_i_"), wr("_m_")),
        Instruction::Eq(rd("_m_"), lit(0.0), Target::Push),
        Instruction::JmpFalse(Label::new("$$not3$$"), Operand::Pop),
        Instruction::Add(tlit("Fizz"), rd("_s_"), wr("_s_")),
        Instruction::Jmp(Label::new("$$next$$")),
        Instruction::Label(Label::new("$$not3$$")),
        Instruction::Mod(lit(5.0), rd("_i_"), wr("_m_")),
        Instruction::Eq(rd("_m_"), lit(0.0), Target::Push),
        Instruction::JmpFalse(Label::new("$$not5$$"), Operand::Pop),
        Instruction::Add(tlit("Buzz"), rd("_s_"), wr("_s_")),
        Instruction::Jmp(Label::new("$$next$$")),
        Instruction::Label(Label::new("$$not5$$")),
        Instruction::Add(rd("_i_"), rd("_s_"), wr("_s_")),
        Instruction::Label(Label::new("$$next$$")),
        Instruction::Add(lit(1.0), rd("_i_"), wr("_i_")),
        Instruction::Jmp(Label::new("$$loop$$")),
        Instruction::Label(Label::new("$$end$$")),
        Instruction::Mov(Target::Push, rd("_s_")),
        Instruction::ScopeOut,
    ]);
    let fixture = "12Fizz4BuzzFizz78FizzBuzz11Fizz1314FizzBuzz";
    assert_eq!(run_to_end(&program).unwrap(), text(fixture));
}

#[test]
fn test_pop_on_empty_stack_is_underflow() {
    // Through a program...
    let program = Program(vec![
        main_marker(),
        Instruction::Mov(Target::Push, Operand::Pop),
        Instruction::ScopeOut,
    ]);
    match run_to_end(&program) {
        Err(VmError::StackUnderflow) => {}
        other => panic!("expected a stack underflow, got {:?}", other),
    }
    // ...and directly on the operand.
    let scope = Scope::new();
    let mut stack: Vec<Value> = Vec::new();
    match Operand::Pop.get_value(&scope, &mut stack) {
        Err(VmError::StackUnderflow) => {}
        other => panic!("expected a stack underflow, got {:?}", other),
    }
}

#[test]
fn test_top_level_scope_out_with_empty_stack() {
    let program = Program(vec![main_marker(), Instruction::ScopeOut]);
    match run_to_end(&program) {
        Err(VmError::StackUnderflow) => {}
        other => panic!("expected a stack underflow, got {:?}", other),
    }
}

#[test]
fn test_missing_label() {
    let program = Program(vec![
        main_marker(),
        Instruction::Jmp(Label::new("$$nowhere$$")),
        Instruction::ScopeOut,
    ]);
    match run_to_end(&program) {
        Err(VmError::MissingLabel(name)) => assert_eq!(name, "$$nowhere$$"),
        other => panic!("expected a missing label, got {:?}", other),
    }
}

#[test]
fn test_missing_instruction_without_main_label() {
    // With no main label the bootstrap scan runs off the end.
    let program = Program(vec![Instruction::Mov(Target::Push, lit(1.0))]);
    match run_to_end(&program) {
        Err(VmError::MissingInstruction(i)) => assert_eq!(i, 1),
        other => panic!("expected a missing instruction, got {:?}", other),
    }
    let empty = Program(vec![]);
    match run_to_end(&empty) {
        Err(VmError::MissingInstruction(i)) => assert_eq!(i, 0),
        other => panic!("expected a missing instruction, got {:?}", other),
    }
}

#[test]
fn test_type_mismatch_in_program() {
    let program = Program(vec![
        main_marker(),
        Instruction::Sub(tlit("a"), lit(1.0), Target::Push),
        Instruction::ScopeOut,
    ]);
    match run_to_end(&program) {
        Err(VmError::TypeMismatch(OpKind::Sub, _, _)) => {}
        other => panic!("expected a type mismatch, got {:?}", other),
    }
}

#[test]
fn test_read_pauses_and_resumes() {
    let program = Program(vec![
        main_marker(),
        Instruction::Read,
        Instruction::Add(lit(1.0), Operand::Pop, Target::Push),
        Instruction::ScopeOut,
    ]);
    let mut vm = Vm::default();
    match vm.run(&program, FUEL).unwrap() {
        RunOutcome::NeedInput => {}
        other => panic!("expected a pause for input, got {:?}", other),
    }
    vm.provide_input(" 41 ").unwrap();
    match vm.run(&program, FUEL).unwrap() {
        RunOutcome::Done(v) => assert_eq!(v, num(42.0)),
        other => panic!("expected the final value, got {:?}", other),
    }
}

#[test]
fn test_read_quoted_input() {
    let program = Program(vec![main_marker(), Instruction::Read, Instruction::ScopeOut]);
    let mut vm = Vm::default();
    assert_eq!(vm.run(&program, FUEL).unwrap(), RunOutcome::NeedInput);
    vm.provide_input("'quoted line'").unwrap();
    match vm.run(&program, FUEL).unwrap() {
        RunOutcome::Done(v) => assert_eq!(v, text("quoted line")),
        other => panic!("expected the final value, got {:?}", other),
    }
}

#[test]
fn test_invalid_input_line() {
    let mut vm = Vm::default();
    match vm.provide_input("neither") {
        Err(VmError::InvalidLiteral(s)) => assert_eq!(s, "neither"),
        other => panic!("expected an invalid literal, got {:?}", other),
    }
}

#[test]
fn test_print_buffers_output() {
    let program = Program(vec![
        main_marker(),
        Instruction::Print(tlit("hello")),
        Instruction::Print(lit(3.5)),
        Instruction::Mov(wr("_x_"), lit(9.0)),
        Instruction::Print(rd("_x_")),
        Instruction::Mov(Target::Push, lit(0.0)),
        Instruction::ScopeOut,
    ]);
    let mut vm = Vm::default();
    match vm.run(&program, FUEL).unwrap() {
        RunOutcome::Done(_) => {}
        other => panic!("expected the run to finish, got {:?}", other),
    }
    assert_eq!(vm.take_output(), vec!["hello".to_string(), "3.5".to_string(), "9".to_string()]);
    assert_eq!(vm.take_output(), Vec::<String>::new());
}

#[test]
fn test_fuel_runs_out_on_endless_loop() {
    let program = Program(vec![
        main_marker(),
        Instruction::Label(Label::new("$$spin$$")),
        Instruction::Jmp(Label::new("$$spin$$")),
    ]);
    let mut vm = Vm::default();
    assert_eq!(vm.run(&program, 1000).unwrap(), RunOutcome::Working);
    assert_eq!(vm.run(&program, 1000).unwrap(), RunOutcome::Working);
}

#[test]
fn test_run_after_completion_has_no_scope() {
    let program = Program(vec![
        main_marker(),
        Instruction::Mov(Target::Push, lit(7.0)),
        Instruction::ScopeOut,
    ]);
    let mut vm = Vm::default();
    match vm.run(&program, FUEL).unwrap() {
        RunOutcome::Done(v) => assert_eq!(v, num(7.0)),
        other => panic!("expected the final value, got {:?}", other),
    }
    // The base scope was popped on final termination; a further run finds no
    // scope to execute against.
    match vm.run(&program, FUEL) {
        Err(VmError::MissingScope) => {}
        other => panic!("expected a missing scope, got {:?}", other),
    }
}

#[test]
fn test_first_label_occurrence_wins() {
    // Duplicate labels: the forward scan takes the first marker.
    let program = Program(vec![
        main_marker(),
        Instruction::Jmp(Label::new("$$dup$$")),
        Instruction::Label(Label::new("$$dup$$")),
        Instruction::Mov(Target::Push, lit(1.0)),
        Instruction::ScopeOut,
        Instruction::Label(Label::new("$$dup$$")),
        Instruction::Mov(Target::Push, lit(2.0)),
        Instruction::ScopeOut,
    ]);
    assert_eq!(run_to_end(&program).unwrap(), num(1.0));
}

#[test]
fn test_io_failure_is_its_own_kind() {
    // The engine itself never raises this kind; the embedding reports it
    // when the input channel fails at the transport level.
    assert_ne!(VmError::IoFailure, VmError::StackUnderflow);
    assert_eq!(VmError::IoFailure, VmError::IoFailure);
}

#[test]
fn test_program() {
    // Straight-line arithmetic: (10 + 7) * 8.
    let program = Program(vec![
        main_marker(),
        Instruction::Mov(wr("_a_"), lit(10.0)),
        Instruction::Add(lit(7.0), rd("_a_"), wr("_a_")),
        Instruction::Mul(rd("_a_"), lit(8.0), Target::Push),
        Instruction::ScopeOut,
    ]);
    let result = run_to_end(&program).unwrap();
    assert_eq!(result, Value::from_str("136").unwrap());
}

#[test]
fn test_legend() {
    // A call whose callee doubles the pushed value: 83 * 2.
    let program = Program(vec![
        main_marker(),
        Instruction::Mov(Target::Push, lit(83.0)),
        Instruction::Call(fn_label("double")),
        Instruction::ScopeOut,
        Instruction::Label(fn_label("double")),
        Instruction::Mul(Operand::Pop, lit(2.0), Target::Push),
        Instruction::ScopeOut,
    ]);
    let result = run_to_end(&program).unwrap();
    assert_eq!(result, Value::from_str("166").unwrap());
}

#[test]
fn test_legend2() {
    // Thirteen squared by repeated addition in a loop.
    let program = Program(vec![
        main_marker(),
        Instruction::Mov(wr("_acc_"), lit(0.0)),
        Instruction::Mov(wr("_i_"), lit(0.0)),
        Instruction::Label(Label::new("$$loop$$")),
        Instruction::Less(lit(13.0), rd("_i_"), Target::Push),
        Instruction::JmpFalse(Label::new("$$end$$"), Operand::Pop),
        Instruction::Add(lit(13.0), rd("_acc_"), wr("_acc_")),
        Instruction::Add(lit(1.0), rd("_i_"), wr("_i_")),
        Instruction::Jmp(Label::new("$$loop$$")),
        Instruction::Label(Label::new("$$end$$")),
        Instruction::Mov(Target::Push, rd("_acc_")),
        Instruction::ScopeOut,
    ]);
    let result = run_to_end(&program).unwrap();
    assert_eq!(result, Value::from_str("169").unwrap());
}
