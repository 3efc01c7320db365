use rasp::ast::{Bytecode, Expression, Function, IfElse};
use rasp::atom::Atom;
use rasp::bytecode_gen::{BytecodeGen, CompileError};

fn int_lit(i: i64) -> Expression {
    Expression::Atom(Atom::Int(i))
}

fn ident(s: &str) -> Expression {
    Expression::Atom(Atom::Identifier(s.to_string()))
}

fn call(items: Vec<Expression>) -> Expression {
    Expression::Children(items)
}

fn compile(e: Expression) -> BytecodeGen {
    let mut g = BytecodeGen::new();
    g.visit_expression(e);
    g
}

fn dump(code: &[Bytecode]) -> Vec<String> {
    code.iter().map(|b| format!("{:?}", b)).collect()
}

#[test]
fn product_call_compiles_to_two_pushes_and_a_call() {
    let g = compile(call(vec![ident("*"), int_lit(2), int_lit(3)]));
    assert!(!g.was_err());
    assert_eq!(dump(&g.bytecode), vec!["Push(Int(2))", "Push(Int(3))", "Call(\"*\")"]);
}

#[test]
fn equality_call_compiles() {
    let g = compile(call(vec![ident("=="), int_lit(1), int_lit(1)]));
    assert_eq!(dump(&g.bytecode), vec!["Push(Int(1))", "Push(Int(1))", "Call(\"==\")"]);
}

#[test]
fn bare_identifier_in_list_is_a_call() {
    let g = compile(call(vec![ident("f")]));
    assert_eq!(dump(&g.bytecode), vec!["Call(\"f\")"]);
}

#[test]
fn string_head_names_a_function_only_with_arguments() {
    let s = Expression::Atom(Atom::Str("g".to_string()));
    let g = compile(call(vec![Expression::Atom(Atom::Str("g".to_string())), int_lit(1)]));
    assert_eq!(dump(&g.bytecode), vec!["Push(Int(1))", "Call(\"g\")"]);
    let g = compile(call(vec![s]));
    assert_eq!(dump(&g.bytecode), vec!["Push(Str(\"g\"))"]);
}

#[test]
fn literal_heads() {
    let g = compile(call(vec![int_lit(4)]));
    assert_eq!(dump(&g.bytecode), vec!["Push(Int(4))"]);
    let g = compile(call(vec![int_lit(4), int_lit(5)]));
    assert_eq!(g.errors, vec![CompileError::CallInt]);
    let g = compile(call(vec![Expression::Atom(Atom::Double(1.0f64.to_bits())), int_lit(5)]));
    assert_eq!(g.errors, vec![CompileError::CallDouble]);
}

#[test]
fn dynamic_dispatch_is_refused() {
    let g = compile(call(vec![call(vec![ident("f"), int_lit(1)]), int_lit(2)]));
    assert_eq!(g.errors, vec![CompileError::DynamicDispatch]);
    assert!(g.bytecode.is_empty());
}

#[test]
fn nested_list_head_with_one_element_is_lowered() {
    let g = compile(call(vec![call(vec![ident("f")]), int_lit(2)]));
    assert_eq!(dump(&g.bytecode), vec!["Call(\"f\")"]);
}

#[test]
fn nested_definition_is_refused() {
    let f = Function::new("f".to_string(), vec![], vec![]);
    let g = compile(call(vec![ident("h"), Expression::FunDef(f)]));
    assert_eq!(g.errors, vec![CompileError::NestedFunDef]);
    assert_eq!(dump(&g.bytecode), vec!["Call(\"h\")"]);
}

#[test]
fn empty_list_is_refused() {
    let g = compile(call(vec![]));
    assert_eq!(g.errors, vec![CompileError::EmptyCall]);
}

#[test]
fn top_level_definition_and_unit() {
    let f = Function::new("f".to_string(), vec!["a".to_string()], vec![int_lit(1)]);
    let mut g = BytecodeGen::new();
    g.visit_all(vec![Expression::FunDef(f), Expression::Unit]);
    assert_eq!(g.bytecode.len(), 2);
    assert!(matches!(&g.bytecode[0], Bytecode::FunDef(f) if f.name == "f"));
    assert!(matches!(g.bytecode[1], Bytecode::Nop));
}

#[test]
fn if_else_layout() {
    let ie = IfElse { condition: int_lit(1), if_true: int_lit(10), if_false: Some(int_lit(20)) };
    let g = compile(Expression::IfElse(Box::new(ie)));
    assert_eq!(
        dump(&g.bytecode),
        vec![
            "Push(Int(1))",
            "JumpTrue(0)",
            "Push(Int(20))",
            "Jump(1)",
            "Label(0)",
            "Push(Int(10))",
            "Label(1)"
        ]
    );
    assert_eq!(g.label_count, 2);
}

#[test]
fn labels_are_never_reused() {
    let mut g = BytecodeGen::new();
    assert_eq!(g.next_label(), 0);
    assert_eq!(g.next_label(), 1);
    g.reset();
    assert_eq!(g.next_label(), 2);
}
