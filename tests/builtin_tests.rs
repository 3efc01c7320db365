use rasp::atom::{Arith, Atom, FloatOp, FloatRequest};
use rasp::builtin::{
    equals_builtin, make_builtin_functions, minus_builtin, print_builtin, times_builtin, BuiltinContext,
    BuiltinKind, VmError,
};
use rasp::scope::VarDecls;

fn ctx<'a>(args: Vec<Atom>, globals: &'a VarDecls, locals: Option<&'a VarDecls>) -> BuiltinContext<'a> {
    BuiltinContext { args, global_decls: globals, var_decls: locals }
}

#[test]
fn print_without_arguments_writes_one_blank_line() {
    let g = VarDecls::new();
    let mut out: Vec<Vec<Atom>> = Vec::new();
    let r = print_builtin(ctx(vec![], &g, None), &mut out);
    assert_eq!(r, Ok(Arith::Value(Atom::Int(0))));
    assert_eq!(out.len(), 1);
    assert!(out[0].is_empty());
}

#[test]
fn print_three_values_returns_two() {
    let g = VarDecls::new();
    let mut out: Vec<Vec<Atom>> = Vec::new();
    let r = print_builtin(ctx(vec![Atom::Int(1), Atom::Int(2), Atom::Int(3)], &g, None), &mut out);
    assert_eq!(r, Ok(Arith::Value(Atom::Int(2))));
    assert_eq!(out, vec![vec![Atom::Int(1), Atom::Int(2), Atom::Int(3)]]);
}

#[test]
fn registry_holds_four_builtins() {
    let t = make_builtin_functions();
    let names: Vec<&str> = t.iter().map(|b| b.name.as_str()).collect();
    assert_eq!(names, vec!["print", "==", "-", "*"]);
    assert_eq!(t[0].args.len(), 1);
    assert_eq!(t[1].args.len(), 2);
    assert_eq!(t[3].kind, BuiltinKind::Times);
}

#[test]
fn equals_resolves_identifiers_local_first() {
    let mut g = VarDecls::new();
    g.insert("x".to_string(), Atom::Int(1));
    let mut l = VarDecls::new();
    l.insert("x".to_string(), Atom::Int(2));
    // args[0] is the right operand, args[1] the left one
    let args = vec![Atom::Int(2), Atom::Identifier("x".to_string())];
    assert_eq!(equals_builtin(ctx(args.clone(), &g, Some(&l))), Ok(Arith::Value(Atom::Int(1))));
    assert_eq!(equals_builtin(ctx(args, &g, None)), Ok(Arith::Value(Atom::Int(0))));
}

#[test]
fn undefined_variable_is_an_error() {
    let g = VarDecls::new();
    let args = vec![Atom::Int(2), Atom::Identifier("y".to_string())];
    assert_eq!(equals_builtin(ctx(args, &g, None)), Err(VmError::UndefinedVariable("y".to_string())));
}

#[test]
fn wrong_argument_count() {
    let g = VarDecls::new();
    assert_eq!(equals_builtin(ctx(vec![Atom::Int(1)], &g, None)), Err(VmError::ArgumentCount(1)));
    assert_eq!(times_builtin(ctx(vec![Atom::Int(1)], &g, None)), Err(VmError::ArgumentCount(1)));
    assert_eq!(minus_builtin(ctx(vec![], &g, None)), Err(VmError::ArgumentCount(0)));
}

#[test]
fn minus_with_one_operand() {
    let mut g = VarDecls::new();
    g.insert("x".to_string(), Atom::Int(4));
    assert_eq!(
        minus_builtin(ctx(vec![Atom::Identifier("x".to_string())], &g, None)),
        Ok(Arith::Value(Atom::Int(-4)))
    );
    assert_eq!(minus_builtin(ctx(vec![Atom::Int(9)], &g, None)), Ok(Arith::Value(Atom::Int(0))));
    g.insert("s".to_string(), Atom::Str("a".to_string()));
    assert_eq!(
        minus_builtin(ctx(vec![Atom::Identifier("s".to_string())], &g, None)),
        Err(VmError::InvalidOperands)
    );
}

#[test]
fn minus_and_times_with_two_operands() {
    let g = VarDecls::new();
    assert_eq!(
        minus_builtin(ctx(vec![Atom::Int(3), Atom::Int(10)], &g, None)),
        Ok(Arith::Value(Atom::Int(7)))
    );
    assert_eq!(
        times_builtin(ctx(vec![Atom::Int(3), Atom::Int(10)], &g, None)),
        Ok(Arith::Value(Atom::Int(30)))
    );
    assert_eq!(
        times_builtin(ctx(vec![Atom::Double(2.0f64.to_bits()), Atom::Int(10)], &g, None)),
        Ok(Arith::Float(FloatRequest {
            op: FloatOp::Mul,
            lhs: Atom::Int(10),
            rhs: Atom::Double(2.0f64.to_bits())
        }))
    );
    assert_eq!(
        minus_builtin(ctx(vec![Atom::Str("a".to_string()), Atom::Int(10)], &g, None)),
        Err(VmError::InvalidOperands)
    );
}

#[test]
fn scope_rebinding_replaces() {
    let mut d = VarDecls::new();
    d.insert("a".to_string(), Atom::Int(1));
    d.insert("b".to_string(), Atom::Int(2));
    d.insert("a".to_string(), Atom::Int(3));
    assert_eq!(d.get(&"a".to_string()), Some(Atom::Int(3)));
    assert_eq!(d.get(&"b".to_string()), Some(Atom::Int(2)));
    assert_eq!(d.get(&"c".to_string()), None);
    assert_eq!(d.entries.len(), 2);
}
