use vstd::prelude::*;
use crate::atom::{Atom, AtomError, Arith, FloatOp, equals_spec, neg_spec, arith_spec};
use crate::scope::VarDecls;

verus! {

/// Run-time errors.
#[derive(Clone, Debug, PartialEq)]
pub enum VmError {
    UndefinedVariable(String),
    /// A builtin got a number of arguments it does not take; the number it got.
    ArgumentCount(usize),
    InvalidOperands,
    /// An identifier reached a truth test.
    IdentifierTruth,
    FunctionNotFound(String),
    StackUnderflow,
    /// A jump to a label that the code does not hold: a defect of the compiler,
    /// never a fault of the program.
    UnknownLabel(u64),
}

/// The native operations.
#[derive(Clone, Copy, Debug, PartialEq, Eq, Structural)]
pub enum BuiltinKind {
    Print,
    Equals,
    Minus,
    Times,
}

/// A registered native function: its name, its declared parameters (their number
/// is how many values a call takes off the stack) and what it does.
#[derive(Debug)]
pub struct BuiltinFunction {
    pub name: String,
    pub args: Vec<String>,
    pub kind: BuiltinKind,
}

/// What a builtin sees: its arguments in the order they were popped (the last
/// operand first), the global scope and the current local scope.
pub struct BuiltinContext<'a> {
    pub args: Vec<Atom>,
    pub global_decls: &'a VarDecls,
    pub var_decls: Option<&'a VarDecls>,
}

/// Lookup through the scope chain: the local frame first, then the globals.
pub open spec fn resolve(locals: Option<VarDecls>, globals: VarDecls, k: Seq<char>) -> Option<Atom> {
    match locals {
        Some(d) => match d.get_spec(k) {
            Some(v) => Some(v),
            None => globals.get_spec(k),
        },
        None => globals.get_spec(k),
    }
}

/// The local scope that a context exposes.
pub open spec fn locals_of(ctx: BuiltinContext) -> Option<VarDecls> {
    match ctx.var_decls {
        Some(d) => Some(*d),
        None => None,
    }
}

/// An identifier stands for its value; any other atom for itself.
pub open spec fn resolve_arg(locals: Option<VarDecls>, globals: VarDecls, a: Atom) -> Result<Atom, VmError> {
    match a {
        Atom::Identifier(s) => match resolve(locals, globals, s@) {
            Some(v) => Ok(v),
            None => Err(VmError::UndefinedVariable(s)),
        },
        _ => Ok(a),
    }
}

pub open spec fn atom_err(e: AtomError) -> VmError {
    VmError::InvalidOperands
}

pub open spec fn lift(r: Result<Arith, AtomError>) -> Result<Arith, VmError> {
    match r {
        Ok(v) => Ok(v),
        Err(e) => Err(atom_err(e)),
    }
}

/// A binary builtin: the left operand is `args[1]`, the right one `args[0]`, each
/// resolved, the left one first.
pub open spec fn binary_spec(
    args: Seq<Atom>,
    locals: Option<VarDecls>,
    globals: VarDecls,
    f: spec_fn(Atom, Atom) -> Result<Arith, VmError>,
) -> Result<Arith, VmError> {
    match resolve_arg(locals, globals, args[1]) {
        Err(e) => Err(e),
        Ok(l) => match resolve_arg(locals, globals, args[0]) {
            Err(e) => Err(e),
            Ok(r) => f(l, r),
        },
    }
}

pub open spec fn equals_builtin_spec(args: Seq<Atom>, locals: Option<VarDecls>, globals: VarDecls) -> Result<
    Arith,
    VmError,
> {
    if args.len() != 2 {
        Err(VmError::ArgumentCount(args.len() as usize))
    } else {
        binary_spec(args, locals, globals, |l: Atom, r: Atom| Ok(equals_spec(l, r)))
    }
}

pub open spec fn minus_builtin_spec(args: Seq<Atom>, locals: Option<VarDecls>, globals: VarDecls) -> Result<
    Arith,
    VmError,
> {
    if args.len() == 1 {
        match args[0] {
            Atom::Identifier(s) => match resolve(locals, globals, s@) {
                Some(v) => match neg_spec(v) {
                    Ok(n) => Ok(Arith::Value(n)),
                    Err(e) => Err(atom_err(e)),
                },
                None => Err(VmError::UndefinedVariable(s)),
            },
            _ => Ok(Arith::Value(Atom::Int(0))),
        }
    } else if args.len() == 2 {
        binary_spec(args, locals, globals, |l: Atom, r: Atom| lift(arith_spec(FloatOp::Sub, l, r)))
    } else {
        Err(VmError::ArgumentCount(args.len() as usize))
    }
}

pub open spec fn times_builtin_spec(args: Seq<Atom>, locals: Option<VarDecls>, globals: VarDecls) -> Result<
    Arith,
    VmError,
> {
    if args.len() == 2 {
        binary_spec(args, locals, globals, |l: Atom, r: Atom| lift(arith_spec(FloatOp::Mul, l, r)))
    } else {
        Err(VmError::ArgumentCount(args.len() as usize))
    }
}


fn owned(s: &str) -> (r: String)
    ensures
        r@ == s@,
{
    s.to_owned()
}

/// The registry of native functions, with the number of values each call takes.
pub fn make_builtin_functions() -> (r: Vec<BuiltinFunction>)
    ensures
        registry(r@),
{
    proof {
        reveal_strlit("print");
        reveal_strlit("==");
        reveal_strlit("-");
        reveal_strlit("*");
    }
    let mut fmt: Vec<String> = Vec::new();
    fmt.push(owned("fmt"));
    let p = BuiltinFunction { name: owned("print"), args: fmt, kind: BuiltinKind::Print };
    let mut a: Vec<String> = Vec::new();
    a.push(owned("lhs"));
    a.push(owned("rhs"));
    let e = BuiltinFunction { name: owned("=="), args: a, kind: BuiltinKind::Equals };
    let mut b: Vec<String> = Vec::new();
    b.push(owned("lhs"));
    b.push(owned("rhs"));
    let m = BuiltinFunction { name: owned("-"), args: b, kind: BuiltinKind::Minus };
    let mut c: Vec<String> = Vec::new();
    c.push(owned("lhs"));
    c.push(owned("rhs"));
    let t = BuiltinFunction { name: owned("*"), args: c, kind: BuiltinKind::Times };
    assert(p.name@ == seq!['p', 'r', 'i', 'n', 't']);
    assert(e.name@ == seq!['=', '=']);
    assert(m.name@ == seq!['-']);
    assert(t.name@ == seq!['*']);
    let mut v: Vec<BuiltinFunction> = Vec::new();
    v.push(p);
    v.push(e);
    v.push(m);
    v.push(t);
    v
}

/// The fixed table: `print` takes one value off the stack, `==`, `-` and `*` two.
pub open spec fn registry(t: Seq<BuiltinFunction>) -> bool {
    &&& t.len() == 4
    &&& t[0].name@ == seq!['p', 'r', 'i', 'n', 't'] && t[0].args@.len() == 1 && t[0].kind
        == BuiltinKind::Print
    &&& t[1].name@ == seq!['=', '='] && t[1].args@.len() == 2 && t[1].kind == BuiltinKind::Equals
    &&& t[2].name@ == seq!['-'] && t[2].args@.len() == 2 && t[2].kind == BuiltinKind::Minus
    &&& t[3].name@ == seq!['*'] && t[3].args@.len() == 2 && t[3].kind == BuiltinKind::Times
}

/// The entry of the table registered under `k`, if any.
pub open spec fn find_spec(t: Seq<BuiltinFunction>, k: Seq<char>) -> Option<int> {
    if exists|i: int| 0 <= i < t.len() && t[i].name@ == k {
        Some(choose|i: int| 0 <= i < t.len() && t[i].name@ == k)
    } else {
        None
    }
}

/// Index of the builtin registered under `name`, if any.
pub fn find_builtin(t: &Vec<BuiltinFunction>, name: &String) -> (r: Option<usize>)
    ensures
        match r {
            Some(i) => i < t@.len() && t@[i as int].name@ == name@,
            None => forall|i: int| 0 <= i < t@.len() ==> t@[i].name@ != name@,
        },
{
    let mut i: usize = 0;
    while i < t.len()
        invariant
            i <= t@.len(),
            forall|j: int| 0 <= j < i ==> t@[j].name@ != name@,
        decreases t@.len() - i,
    {
        if t[i].name == *name {
            return Some(i);
        }
        i = i + 1;
    }
    None
}

impl<'a> BuiltinContext<'a> {
    /// Looks a name up in the local frame, then in the globals.
    pub fn get_var(&self, label: &String) -> (r: Option<Atom>)
        ensures
            r == resolve(locals_of(*self), *self.global_decls, label@),
    {
        match self.var_decls {
            Some(decls) => match decls.get(label) {
                Some(atom) => Some(atom),
                None => self.global_decls.get(label),
            },
            None => self.global_decls.get(label),
        }
    }
}

fn unwrap_arg(context: &BuiltinContext, n: usize) -> (r: Result<Atom, VmError>)
    requires
        n < context.args@.len(),
    ensures
        r == resolve_arg(locals_of(*context), *context.global_decls, context.args@[n as int]),
{
    match &context.args[n] {
        Atom::Identifier(s) => match context.get_var(s) {
            Some(atom) => Ok(atom),
            None => Err(VmError::UndefinedVariable(s.clone())),
        },
        other => Ok(other.duplicate()),
    }
}

fn lift_exec(r: Result<Arith, AtomError>) -> (o: Result<Arith, VmError>)
    ensures
        o == lift(r),
{
    match r {
        Ok(v) => Ok(v),
        Err(_) => Err(VmError::InvalidOperands),
    }
}

/// Writes its arguments, in the order given, as one line of output (an empty
/// line for none) and returns how many came after the first.
pub fn print_builtin(context: BuiltinContext, out: &mut Vec<Vec<Atom>>) -> (r: Result<Arith, VmError>)
    ensures
        final(out)@ == old(out)@.push(context.args),
        r == Ok::<Arith, VmError>(
            Arith::Value(
                Atom::Int(if context.args@.len() == 0 { 0 } else { (context.args@.len() - 1) as i64 }),
            ),
        ),
{
    let n = context.args.len();
    let count: i64 = if n == 0 { 0 } else { (n - 1) as i64 };
    out.push(context.args);
    Ok(Arith::Value(Atom::Int(count)))
}

pub fn equals_builtin(context: BuiltinContext) -> (r: Result<Arith, VmError>)
    ensures
        r == equals_builtin_spec(context.args@, locals_of(context), *context.global_decls),
{
    if context.args.len() != 2 {
        return Err(VmError::ArgumentCount(context.args.len()));
    }
    let lhs = unwrap_arg(&context, 1);
    let lhs = match lhs {
        Ok(a) => a,
        Err(e) => return Err(e),
    };
    let rhs = match unwrap_arg(&context, 0) {
        Ok(a) => a,
        Err(e) => return Err(e),
    };
    Ok(lhs.equals(&rhs))
}

pub fn minus_builtin(context: BuiltinContext) -> (r: Result<Arith, VmError>)
    ensures
        r == minus_builtin_spec(context.args@, locals_of(context), *context.global_decls),
{
    let n = context.args.len();
    if n == 1 {
        match &context.args[0] {
            Atom::Identifier(s) => match context.get_var(s) {
                Some(v) => match v.neg() {
                    Ok(a) => Ok(Arith::Value(a)),
                    Err(_) => Err(VmError::InvalidOperands),
                },
                None => Err(VmError::UndefinedVariable(s.clone())),
            },
            _ => Ok(Arith::Value(Atom::Int(0))),
        }
    } else if n == 2 {
        let lhs = match unwrap_arg(&context, 1) {
            Ok(a) => a,
            Err(e) => return Err(e),
        };
        let rhs = match unwrap_arg(&context, 0) {
            Ok(a) => a,
            Err(e) => return Err(e),
        };
        lift_exec(lhs.minus(&rhs))
    } else {
        Err(VmError::ArgumentCount(n))
    }
}

pub fn times_builtin(context: BuiltinContext) -> (r: Result<Arith, VmError>)
    ensures
        r == times_builtin_spec(context.args@, locals_of(context), *context.global_decls),
{
    let n = context.args.len();
    if n == 2 {
        let lhs = match unwrap_arg(&context, 1) {
            Ok(a) => a,
            Err(e) => return Err(e),
        };
        let rhs = match unwrap_arg(&context, 0) {
            Ok(a) => a,
            Err(e) => return Err(e),
        };
        lift_exec(lhs.times(&rhs))
    } else {
        Err(VmError::ArgumentCount(n))
    }
}

/// What the builtin of the given kind returns on the given arguments and scopes.
pub open spec fn builtin_spec(kind: BuiltinKind, args: Seq<Atom>, locals: Option<VarDecls>, globals: VarDecls) -> Result<
    Arith,
    VmError,
> {
    match kind {
        BuiltinKind::Print => Ok(
            Arith::Value(Atom::Int(if args.len() == 0 { 0 } else { (args.len() - 1) as i64 })),
        ),
        BuiltinKind::Equals => equals_builtin_spec(args, locals, globals),
        BuiltinKind::Minus => minus_builtin_spec(args, locals, globals),
        BuiltinKind::Times => times_builtin_spec(args, locals, globals),
    }
}

/// Runs the builtin of the given kind.
pub fn call_builtin(kind: BuiltinKind, context: BuiltinContext, out: &mut Vec<Vec<Atom>>) -> (r: Result<
    Arith,
    VmError,
>)
    ensures
        r == builtin_spec(kind, context.args@, locals_of(context), *context.global_decls),
        kind == BuiltinKind::Print ==> final(out)@ == old(out)@.push(context.args),
        kind != BuiltinKind::Print ==> final(out)@ == old(out)@,
{
    match kind {
        BuiltinKind::Print => print_builtin(context, out),
        BuiltinKind::Equals => equals_builtin(context),
        BuiltinKind::Minus => minus_builtin(context),
        BuiltinKind::Times => times_builtin(context),
    }
}

} // verus!
