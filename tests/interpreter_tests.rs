use rasp::ast::{Bytecode, Expression, Function, IfElse};
use rasp::atom::{Atom, FloatOp, FloatRequest};
use rasp::builtin::VmError;
use rasp::bytecode_gen::BytecodeGen;
use rasp::interpreter::{get_labels, Interpreter, StepResult};

const FUEL: u64 = 10_000;

fn int_lit(i: i64) -> Expression {
    Expression::Atom(Atom::Int(i))
}

fn ident(s: &str) -> Expression {
    Expression::Atom(Atom::Identifier(s.to_string()))
}

fn compile_all(es: Vec<Expression>) -> Vec<Bytecode> {
    let mut g = BytecodeGen::new();
    g.visit_all(es);
    assert!(!g.was_err());
    g.bytecode
}

fn print_ints(out: &[Vec<Atom>]) -> Vec<Vec<i64>> {
    out.iter()
        .map(|l| l.iter().map(|a| if let Atom::Int(i) = a { *i } else { panic!("not an int") }).collect())
        .collect()
}

#[test]
fn product_end_to_end() {
    let code = vec![
        Bytecode::Push(Atom::Int(2)),
        Bytecode::Push(Atom::Int(3)),
        Bytecode::Call("*".to_string()),
    ];
    let mut vm = Interpreter::new();
    assert_eq!(vm.interpret(code, FUEL), Ok(StepResult::Halted));
    assert_eq!(vm.stack, vec![Atom::Int(6)]);
}

#[test]
fn equality_end_to_end() {
    let code = compile_all(vec![Expression::Children(vec![ident("=="), int_lit(1), int_lit(1)])]);
    let mut vm = Interpreter::new();
    assert_eq!(vm.interpret(code, FUEL), Ok(StepResult::Halted));
    assert_eq!(vm.stack, vec![Atom::Int(1)]);

    let code = compile_all(vec![Expression::Children(vec![ident("=="), int_lit(1), int_lit(2)])]);
    let mut vm = Interpreter::new();
    assert_eq!(vm.interpret(code, FUEL), Ok(StepResult::Halted));
    assert_eq!(vm.stack, vec![Atom::Int(0)]);
}

#[test]
fn empty_program_succeeds() {
    let mut vm = Interpreter::new();
    assert_eq!(vm.interpret(vec![], FUEL), Ok(StepResult::Halted));
    assert!(vm.stack.is_empty());
}

#[test]
fn jump_skips_to_after_its_label() {
    let code = vec![
        Bytecode::Push(Atom::Int(1)),
        Bytecode::Jump(5),
        Bytecode::Push(Atom::Int(2)),
        Bytecode::Push(Atom::Int(3)),
        Bytecode::Label(5),
        Bytecode::Push(Atom::Int(4)),
    ];
    let mut vm = Interpreter::new();
    assert_eq!(vm.interpret(code, FUEL), Ok(StepResult::Halted));
    assert_eq!(vm.stack, vec![Atom::Int(1), Atom::Int(4)]);
}

#[test]
fn jump_to_missing_label_is_reported() {
    let mut vm = Interpreter::new();
    assert_eq!(vm.interpret(vec![Bytecode::Jump(9)], FUEL), Err(VmError::UnknownLabel(9)));
}

#[test]
fn label_table() {
    let code = vec![Bytecode::Nop, Bytecode::Label(3), Bytecode::Label(7)];
    assert_eq!(get_labels(&code), vec![(3, 1), (7, 2)]);
}

fn if_else(cond: Expression, then: Expression, els: Option<Expression>) -> Expression {
    Expression::IfElse(Box::new(IfElse { condition: cond, if_true: then, if_false: els }))
}

fn print_call(i: i64) -> Expression {
    Expression::Children(vec![ident("print"), int_lit(i)])
}

#[test]
fn if_else_runs_only_the_taken_branch() {
    let mut vm = Interpreter::new();
    let code = compile_all(vec![if_else(int_lit(1), print_call(10), Some(print_call(20)))]);
    assert_eq!(vm.interpret(code, FUEL), Ok(StepResult::Halted));
    assert_eq!(print_ints(&vm.output), vec![vec![10]]);

    let mut vm = Interpreter::new();
    let code = compile_all(vec![if_else(int_lit(0), print_call(10), Some(print_call(20)))]);
    assert_eq!(vm.interpret(code, FUEL), Ok(StepResult::Halted));
    assert_eq!(print_ints(&vm.output), vec![vec![20]]);

    let mut vm = Interpreter::new();
    let code = compile_all(vec![if_else(int_lit(1), print_call(10), None)]);
    assert_eq!(vm.interpret(code, FUEL), Ok(StepResult::Halted));
    assert_eq!(print_ints(&vm.output), vec![vec![10]]);

    let mut vm = Interpreter::new();
    let code = compile_all(vec![if_else(int_lit(0), print_call(10), None)]);
    assert_eq!(vm.interpret(code, FUEL), Ok(StepResult::Halted));
    assert!(vm.output.is_empty());
}

#[test]
fn identifier_as_condition_fails() {
    let code = vec![Bytecode::Push(Atom::Identifier("x".to_string())), Bytecode::JumpTrue(0), Bytecode::Label(0)];
    let mut vm = Interpreter::new();
    assert_eq!(vm.interpret(code, FUEL), Err(VmError::IdentifierTruth));
}

#[test]
fn pop_from_empty_stack_fails() {
    let mut vm = Interpreter::new();
    assert_eq!(vm.pop(), Err(VmError::StackUnderflow));
    assert_eq!(vm.interpret(vec![Bytecode::Pop(None)], FUEL), Err(VmError::StackUnderflow));
    let mut vm = Interpreter::new();
    assert_eq!(vm.interpret(vec![Bytecode::Call("*".to_string())], FUEL), Err(VmError::StackUnderflow));
}

#[test]
fn unknown_function() {
    let mut vm = Interpreter::new();
    assert_eq!(
        vm.interpret(vec![Bytecode::Call("nope".to_string())], FUEL),
        Err(VmError::FunctionNotFound("nope".to_string()))
    );
}

#[test]
fn top_level_binding_lands_in_the_implicit_frame() {
    let code = vec![Bytecode::Push(Atom::Int(5)), Bytecode::Pop(Some("x".to_string()))];
    let mut vm = Interpreter::new();
    assert_eq!(vm.interpret(code, FUEL), Ok(StepResult::Halted));
    assert_eq!(vm.get_var(&"x".to_string()), Some(Atom::Int(5)));
    assert_eq!(vm.global_decls.get(&"x".to_string()), None);
    assert_eq!(vm.decl_stack[0].get(&"x".to_string()), Some(Atom::Int(5)));
}

fn mul_function() -> Function {
    // the body multiplies the two values that the caller left on the stack
    let body = vec![Expression::Children(vec![ident("*")])];
    Function::new("mul".to_string(), vec!["a".to_string(), "b".to_string()], body)
}

fn mul_program() -> Vec<Bytecode> {
    vec![
        Bytecode::FunDef(mul_function()),
        Bytecode::Push(Atom::Int(3)),
        Bytecode::Push(Atom::Int(3)),
        Bytecode::Call("mul".to_string()),
        Bytecode::Push(Atom::Int(2)),
        Bytecode::Push(Atom::Int(5)),
        Bytecode::Call("mul".to_string()),
    ]
}

#[test]
fn user_function_body_is_compiled_once() {
    let mut vm = Interpreter::new();
    assert_eq!(vm.interpret(mul_program(), FUEL), Ok(StepResult::Halted));
    assert_eq!(vm.stack, vec![Atom::Int(9), Atom::Int(10)]);
    // the program itself and one compiled body
    assert_eq!(vm.code.len(), 2);
    assert_eq!(vm.function_code.len(), 1);
    assert_eq!(vm.decl_stack.len(), 1);
}

#[test]
fn redefinition_keeps_cached_code() {
    let mut vm = Interpreter::new();
    assert_eq!(vm.interpret(mul_program(), FUEL), Ok(StepResult::Halted));
    let other = Function::new("mul".to_string(), vec![], vec![int_lit(100)]);
    let code = vec![Bytecode::FunDef(other), Bytecode::Call("mul".to_string())];
    assert_eq!(vm.interpret(code, FUEL), Ok(StepResult::Halted));
    assert_eq!(vm.stack, vec![Atom::Int(90)]);
    assert_eq!(vm.function_code.len(), 1);
}

#[test]
fn failing_call_leaves_its_scope_frame() {
    let f = Function::new("bad".to_string(), vec![], vec![Expression::Children(vec![ident("missing")])]);
    let code = vec![Bytecode::FunDef(f), Bytecode::Call("bad".to_string())];
    let mut vm = Interpreter::new();
    assert_eq!(vm.interpret(code, FUEL), Err(VmError::FunctionNotFound("missing".to_string())));
    assert_eq!(vm.decl_stack.len(), 2);
    assert!(vm.frames.is_empty());
}

#[test]
fn float_product_is_handed_to_the_host() {
    let code = vec![
        Bytecode::Push(Atom::Int(2)),
        Bytecode::Push(Atom::Double(1.5f64.to_bits())),
        Bytecode::Call("*".to_string()),
    ];
    let mut vm = Interpreter::new();
    let r = vm.interpret(code, FUEL);
    assert_eq!(
        r,
        Ok(StepResult::Float(FloatRequest {
            op: FloatOp::Mul,
            lhs: Atom::Int(2),
            rhs: Atom::Double(1.5f64.to_bits())
        }))
    );
    vm.resume(Atom::Double(3.0f64.to_bits()));
    assert_eq!(vm.run(FUEL), Ok(StepResult::Halted));
    assert_eq!(vm.stack, vec![Atom::Double(3.0f64.to_bits())]);
}

#[test]
fn print_through_the_machine_takes_one_value() {
    let code = compile_all(vec![Expression::Children(vec![ident("print"), int_lit(7)])]);
    let mut vm = Interpreter::new();
    assert_eq!(vm.interpret(code, FUEL), Ok(StepResult::Halted));
    assert_eq!(print_ints(&vm.output), vec![vec![7]]);
    assert_eq!(vm.stack, vec![Atom::Int(0)]);
}

#[test]
fn fuel_bounds_an_endless_loop() {
    let code = vec![Bytecode::Label(0), Bytecode::Jump(0)];
    let mut vm = Interpreter::new();
    assert_eq!(vm.interpret(code, 50), Ok(StepResult::Running));
}
