use vstd::prelude::*;
use crate::atom::Atom;

verus! {

/// A node of the syntax tree.
#[derive(Debug)]
pub enum Expression {
    Atom(Atom),
    /// The calling form: the first child names the function, the rest are its arguments.
    Children(Vec<Expression>),
    Unit,
    FunDef(Function),
    IfElse(Box<IfElse>),
}

#[derive(Debug)]
pub struct IfElse {
    pub condition: Expression,
    pub if_true: Expression,
    pub if_false: Option<Expression>,
}

/// A user-defined function. The parameter names are informational: the body
/// takes its arguments off the operand stack itself.
#[derive(Debug)]
pub struct Function {
    pub name: String,
    pub args: Vec<String>,
    pub body: Vec<Expression>,
}

/// Two trees are the same: equal atoms, names and parameter lists, and child
/// lists of the same length whose elements are the same, node by node.
pub open spec fn expr_eq(a: Expression, b: Expression) -> bool
    decreases a, 0int,
{
    match a {
        Expression::Atom(x) => b == Expression::Atom(x),
        Expression::Children(x) => match b {
            Expression::Children(y) => exprs_eq(x@, y@),
            _ => false,
        },
        Expression::Unit => b is Unit,
        Expression::FunDef(f) => match b {
            Expression::FunDef(g) => fun_eq(f, g),
            _ => false,
        },
        Expression::IfElse(x) => match b {
            Expression::IfElse(y) => ifelse_eq(*x, *y),
            _ => false,
        },
    }
}

pub open spec fn exprs_eq(a: Seq<Expression>, b: Seq<Expression>) -> bool
    decreases a, 1int,
{
    if a.len() == 0 {
        b.len() == 0
    } else {
        &&& b.len() == a.len()
        &&& expr_eq(a[a.len() - 1], b[b.len() - 1])
        &&& exprs_eq(a.subrange(0, a.len() - 1), b.subrange(0, b.len() - 1))
    }
}

pub open spec fn ifelse_eq(a: IfElse, b: IfElse) -> bool
    decreases a, 0int,
{
    &&& expr_eq(a.condition, b.condition)
    &&& expr_eq(a.if_true, b.if_true)
    &&& match a.if_false {
        Some(x) => match b.if_false {
            Some(y) => expr_eq(x, y),
            None => false,
        },
        None => b.if_false is None,
    }
}

/// Two definitions are the same: same name, same parameters, same body.
pub open spec fn fun_eq(f: Function, g: Function) -> bool
    decreases f, 0int,
{
    f.name == g.name && f.args@ == g.args@ && exprs_eq(f.body@, g.body@)
}

impl Expression {
    /// A copy of the tree.
    pub fn deep_copy(&self) -> (r: Expression)
        ensures
            expr_eq(*self, r),
        decreases self, 0int,
    {
        match self {
            Expression::Atom(a) => Expression::Atom(a.duplicate()),
            Expression::Children(c) => Expression::Children(copy_expressions(c)),
            Expression::Unit => Expression::Unit,
            Expression::FunDef(f) => Expression::FunDef(f.deep_copy()),
            Expression::IfElse(b) => Expression::IfElse(Box::new(b.deep_copy())),
        }
    }
}

#[verifier::loop_isolation(false)]
fn copy_expressions(v: &Vec<Expression>) -> (r: Vec<Expression>)
    ensures
        exprs_eq(v@, r@),
    decreases v@, v@.len() + 1,
{
    let mut r: Vec<Expression> = Vec::new();
    let mut i: usize = 0;
    while i < v.len()
        invariant
            i <= v@.len(),
            r@.len() == i,
            exprs_eq(v@.subrange(0, i as int), r@),
        decreases v@.len() - i,
    {
        assert(decreases_to!(v@ => v@[i as int]));
        let e = v[i].deep_copy();
        let ghost before = r@;
        r.push(e);
        proof {
            let a = v@.subrange(0, i + 1);
            assert(a.subrange(0, a.len() - 1) == v@.subrange(0, i as int));
            assert(r@.subrange(0, r@.len() - 1) == before);
            assert(a[a.len() - 1] == v@[i as int]);
        }
        i = i + 1;
    }
    assert(v@.subrange(0, v@.len() as int) == v@);
    r
}

impl IfElse {
    pub fn deep_copy(&self) -> (r: IfElse)
        ensures
            ifelse_eq(*self, r),
        decreases self, 0int,
    {
        let if_false = match &self.if_false {
            Some(e) => Some(e.deep_copy()),
            None => None,
        };
        IfElse { condition: self.condition.deep_copy(), if_true: self.if_true.deep_copy(), if_false }
    }
}

impl Function {
    /// A copy of the definition, under the same name and parameters.
    pub fn deep_copy(&self) -> (r: Function)
        ensures
            r.name == self.name,
            r.args@ == self.args@,
            r.body@.len() == self.body@.len(),
            fun_eq(*self, r),
        decreases self, 0int,
    {
        let mut args: Vec<String> = Vec::new();
        let mut i: usize = 0;
        while i < self.args.len()
            invariant
                i <= self.args@.len(),
                args@ == self.args@.subrange(0, i as int),
            decreases self.args@.len() - i,
        {
            args.push(self.args[i].clone());
            i = i + 1;
            assert(args@ == self.args@.subrange(0, i as int));
        }
        assert(args@ == self.args@);
        Function { name: self.name.clone(), args, body: copy_expressions(&self.body) }
    }

    pub fn new(name: String, args: Vec<String>, body: Vec<Expression>) -> (r: Function)
        ensures
            r.name == name,
            r.args == args,
            r.body == body,
    {
        Function { name, args, body }
    }
}

/// One instruction of the flat program.
#[derive(Debug)]
pub enum Bytecode {
    Nop,
    /// Calls a function by name; its arguments are on the operand stack.
    Call(String),
    /// Pushes a literal or an unresolved identifier.
    Push(Atom),
    /// Pops a value, binding it to the name in the current scope if one is given.
    Pop(Option<String>),
    /// Registers a function under its name.
    FunDef(Function),
    /// A jump target.
    Label(u64),
    Jump(u64),
    /// Pops a value and jumps if it is true.
    JumpTrue(u64),
}

} // verus!
