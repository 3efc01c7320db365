use vstd::prelude::*;
use crate::atom::Atom;
use crate::ast::{Bytecode, Expression, IfElse};

verus! {

/// Fatal compile errors.
#[derive(Clone, Copy, Debug, PartialEq, Eq, Structural)]
pub enum CompileError {
    /// A calling form whose head is itself a call with arguments.
    DynamicDispatch,
    /// An int literal in the head of a call with arguments.
    CallInt,
    /// A double literal in the head of a call with arguments.
    CallDouble,
    /// A function definition below the top level.
    NestedFunDef,
    /// A calling form without any element.
    EmptyCall,
    /// Every label number of the 64-bit range has been handed out.
    LabelsExhausted,
}

/// What the compiler has produced so far: the code, the errors and the next label.
pub struct GenState {
    pub code: Seq<Bytecode>,
    pub errors: Seq<CompileError>,
    pub labels: int,
}

pub open spec fn emit(s: GenState, b: Bytecode) -> GenState {
    GenState { code: s.code.push(b), ..s }
}

pub open spec fn fail(s: GenState, e: CompileError) -> GenState {
    GenState { errors: s.errors.push(e), ..s }
}

/// Lowering of one expression, appended to `s`.
pub open spec fn gen_expr(e: Expression, s: GenState) -> GenState
    decreases e, 0int,
{
    match e {
        Expression::Atom(a) => emit(s, Bytecode::Push(a)),
        Expression::Children(c) => gen_children(c@, s),
        Expression::Unit => emit(s, Bytecode::Nop),
        Expression::FunDef(f) => emit(s, Bytecode::FunDef(f)),
        Expression::IfElse(b) => gen_ifelse(*b, s),
    }
}

/// `cond; JumpTrue(t); else; Jump(d); Label(t); then; Label(d)`, with `t` and `d`
/// the next two label numbers.
pub open spec fn gen_ifelse(ie: IfElse, s: GenState) -> GenState
    decreases ie, 0int,
{
    let s1 = gen_expr(ie.condition, s);
    if s1.labels >= u64::MAX {
        fail(s1, CompileError::LabelsExhausted)
    } else {
        let t = s1.labels;
        let s2 = emit(GenState { labels: t + 1, ..s1 }, Bytecode::JumpTrue(t as u64));
        let s3 = match ie.if_false {
            Some(f) => gen_expr(f, s2),
            None => s2,
        };
        if s3.labels >= u64::MAX {
            fail(s3, CompileError::LabelsExhausted)
        } else {
            let d = s3.labels;
            let s4 = emit(
                emit(GenState { labels: d + 1, ..s3 }, Bytecode::Jump(d as u64)),
                Bytecode::Label(t as u64),
            );
            emit(gen_expr(ie.if_true, s4), Bytecode::Label(d as u64))
        }
    }
}

/// Lowering of the arguments `c[i..]` of a call, in source order.
pub open spec fn gen_args(c: Seq<Expression>, i: int, s: GenState) -> GenState
    decreases c, c.len() - i,
{
    if i < 1 || i >= c.len() {
        s
    } else {
        let s1 = match c[i] {
            Expression::FunDef(_) => fail(s, CompileError::NestedFunDef),
            _ => gen_expr(c[i], s),
        };
        gen_args(c, i + 1, s1)
    }
}

/// Lowering of a calling form.
pub open spec fn gen_children(c: Seq<Expression>, s: GenState) -> GenState
    decreases c, c.len() + 1,
{
    if c.len() == 0 {
        fail(s, CompileError::EmptyCall)
    } else {
        let many = c.len() > 1;
        match c[0] {
            Expression::Children(cc) => if many && cc@.len() > 1 {
                fail(s, CompileError::DynamicDispatch)
            } else {
                gen_children(cc@, s)
            },
            Expression::Atom(a) => match a {
                Atom::Int(_) => if many {
                    fail(s, CompileError::CallInt)
                } else {
                    emit(s, Bytecode::Push(a))
                },
                Atom::Double(_) => if many {
                    fail(s, CompileError::CallDouble)
                } else {
                    emit(s, Bytecode::Push(a))
                },
                Atom::Str(name) => if many {
                    emit(gen_args(c, 1, s), Bytecode::Call(name))
                } else {
                    emit(s, Bytecode::Push(a))
                },
                Atom::Identifier(name) => emit(gen_args(c, 1, s), Bytecode::Call(name)),
            },
            Expression::Unit => emit(s, Bytecode::Nop),
            Expression::FunDef(_) => fail(s, CompileError::NestedFunDef),
            Expression::IfElse(b) => gen_ifelse(*b, s),
        }
    }
}

/// Lowering of a sequence of expressions, one after another.
pub open spec fn gen_all(es: Seq<Expression>, s: GenState) -> GenState
    decreases es.len(),
{
    if es.len() == 0 {
        s
    } else {
        gen_expr(es.last(), gen_all(es.drop_last(), s))
    }
}

/// The label number that an instruction defines or jumps to.
pub open spec fn label_of(b: Bytecode) -> Option<u64> {
    match b {
        Bytecode::Label(l) => Some(l),
        Bytecode::Jump(l) => Some(l),
        Bytecode::JumpTrue(l) => Some(l),
        _ => None,
    }
}

/// `r` extends the code of `s`, and every label number in the added code lies
/// in `[lo, r.labels)`.
pub open spec fn grows(s: GenState, r: GenState, lo: int) -> bool {
    &&& s.code.len() <= r.code.len()
    &&& r.code.subrange(0, s.code.len() as int) == s.code
    &&& s.labels <= r.labels
    &&& forall|i: int|
        s.code.len() <= i < r.code.len() ==> (#[trigger] label_of(r.code[i]) matches Some(l) ==> lo <= l
            < r.labels)
}

/// Every label number in the code is below the next one to be handed out.
pub open spec fn labels_fresh(s: GenState) -> bool {
    forall|i: int|
        0 <= i < s.code.len() ==> (#[trigger] label_of(s.code[i]) matches Some(l) ==> l < s.labels)
}

proof fn lemma_grows_trans(a: GenState, b: GenState, c: GenState, lo: int, lo2: int)
    requires
        grows(a, b, lo),
        grows(b, c, lo2),
        lo <= lo2,
    ensures
        grows(a, c, lo),
{
    assert(c.code.subrange(0, a.code.len() as int) =~= b.code.subrange(0, a.code.len() as int));
    assert forall|i: int| a.code.len() <= i < c.code.len() implies (#[trigger] label_of(c.code[i]) matches Some(
        l,
    ) ==> lo <= l < c.labels) by {
        if i < b.code.len() {
            assert(c.code[i] == c.code.subrange(0, b.code.len() as int)[i]);
        }
    }
}

proof fn lemma_grows_emit(s: GenState, b: Bytecode, lo: int)
    requires
        label_of(b) matches Some(l) ==> lo <= l < s.labels,
    ensures
        grows(s, emit(s, b), lo),
{
    assert(emit(s, b).code.subrange(0, s.code.len() as int) =~= s.code);
}

proof fn lemma_grows_same(s: GenState, r: GenState, lo: int)
    requires
        r.code == s.code,
        s.labels <= r.labels,
    ensures
        grows(s, r, lo),
{
    assert(r.code.subrange(0, s.code.len() as int) =~= s.code);
}

/// Lowering only appends code, and every label that it uses is new.
pub proof fn lemma_gen_expr_grows(e: Expression, s: GenState)
    requires
        0 <= s.labels <= u64::MAX,
    ensures
        grows(s, gen_expr(e, s), s.labels),
        gen_expr(e, s).labels <= u64::MAX,
    decreases e, 0int,
{
    match e {
        Expression::Atom(a) => lemma_grows_emit(s, Bytecode::Push(a), s.labels),
        Expression::Children(c) => lemma_gen_children_grows(c@, s),
        Expression::Unit => lemma_grows_emit(s, Bytecode::Nop, s.labels),
        Expression::FunDef(f) => lemma_grows_emit(s, Bytecode::FunDef(f), s.labels),
        Expression::IfElse(b) => lemma_gen_ifelse_grows(*b, s),
    }
}

pub proof fn lemma_gen_ifelse_grows(ie: IfElse, s: GenState)
    requires
        0 <= s.labels <= u64::MAX,
    ensures
        grows(s, gen_ifelse(ie, s), s.labels),
        gen_ifelse(ie, s).labels <= u64::MAX,
    decreases ie, 0int,
{
    let s1 = gen_expr(ie.condition, s);
    lemma_gen_expr_grows(ie.condition, s);
    if s1.labels >= u64::MAX {
        lemma_grows_same(s1, fail(s1, CompileError::LabelsExhausted), s.labels);
        lemma_grows_trans(s, s1, fail(s1, CompileError::LabelsExhausted), s.labels, s.labels);
    } else {
        let t = s1.labels;
        let b1 = GenState { labels: t + 1, ..s1 };
        lemma_grows_same(s1, b1, s.labels);
        lemma_grows_trans(s, s1, b1, s.labels, s.labels);
        let s2 = emit(b1, Bytecode::JumpTrue(t as u64));
        lemma_grows_emit(b1, Bytecode::JumpTrue(t as u64), s.labels);
        lemma_grows_trans(s, b1, s2, s.labels, s.labels);
        let s3 = match ie.if_false {
            Some(f) => gen_expr(f, s2),
            None => s2,
        };
        match ie.if_false {
            Some(f) => {
                lemma_gen_expr_grows(f, s2);
                lemma_grows_trans(s, s2, s3, s.labels, s2.labels);
            },
            None => {},
        }
        if s3.labels >= u64::MAX {
            lemma_grows_same(s3, fail(s3, CompileError::LabelsExhausted), s.labels);
            lemma_grows_trans(s, s3, fail(s3, CompileError::LabelsExhausted), s.labels, s.labels);
        } else {
            let d = s3.labels;
            let b3 = GenState { labels: d + 1, ..s3 };
            lemma_grows_same(s3, b3, s.labels);
            lemma_grows_trans(s, s3, b3, s.labels, s.labels);
            let j = emit(b3, Bytecode::Jump(d as u64));
            lemma_grows_emit(b3, Bytecode::Jump(d as u64), s.labels);
            lemma_grows_trans(s, b3, j, s.labels, s.labels);
            let s4 = emit(j, Bytecode::Label(t as u64));
            lemma_grows_emit(j, Bytecode::Label(t as u64), s.labels);
            lemma_grows_trans(s, j, s4, s.labels, s.labels);
            let s5 = gen_expr(ie.if_true, s4);
            lemma_gen_expr_grows(ie.if_true, s4);
            lemma_grows_trans(s, s4, s5, s.labels, s4.labels);
            lemma_grows_emit(s5, Bytecode::Label(d as u64), s.labels);
            lemma_grows_trans(s, s5, emit(s5, Bytecode::Label(d as u64)), s.labels, s.labels);
        }
    }
}

pub proof fn lemma_gen_args_grows(c: Seq<Expression>, i: int, s: GenState)
    requires
        0 <= s.labels <= u64::MAX,
    ensures
        grows(s, gen_args(c, i, s), s.labels),
        gen_args(c, i, s).labels <= u64::MAX,
    decreases c, c.len() - i,
{
    if i < 1 || i >= c.len() {
        lemma_grows_same(s, s, s.labels);
    } else {
        let s1 = match c[i] {
            Expression::FunDef(_) => fail(s, CompileError::NestedFunDef),
            _ => gen_expr(c[i], s),
        };
        match c[i] {
            Expression::FunDef(_) => lemma_grows_same(s, s1, s.labels),
            _ => lemma_gen_expr_grows(c[i], s),
        }
        lemma_gen_args_grows(c, i + 1, s1);
        lemma_grows_trans(s, s1, gen_args(c, i + 1, s1), s.labels, s1.labels);
    }
}

pub proof fn lemma_gen_children_grows(c: Seq<Expression>, s: GenState)
    requires
        0 <= s.labels <= u64::MAX,
    ensures
        grows(s, gen_children(c, s), s.labels),
        gen_children(c, s).labels <= u64::MAX,
    decreases c, c.len() + 1,
{
    if c.len() == 0 {
        lemma_grows_same(s, fail(s, CompileError::EmptyCall), s.labels);
    } else {
        let many = c.len() > 1;
        match c[0] {
            Expression::Children(cc) => if many && cc@.len() > 1 {
                lemma_grows_same(s, fail(s, CompileError::DynamicDispatch), s.labels);
            } else {
                lemma_gen_children_grows(cc@, s);
            },
            Expression::Atom(a) => match a {
                Atom::Int(_) => if many {
                    lemma_grows_same(s, fail(s, CompileError::CallInt), s.labels);
                } else {
                    lemma_grows_emit(s, Bytecode::Push(a), s.labels);
                },
                Atom::Double(_) => if many {
                    lemma_grows_same(s, fail(s, CompileError::CallDouble), s.labels);
                } else {
                    lemma_grows_emit(s, Bytecode::Push(a), s.labels);
                },
                Atom::Str(name) => if many {
                    lemma_gen_args_grows(c, 1, s);
                    let g = gen_args(c, 1, s);
                    lemma_grows_emit(g, Bytecode::Call(name), s.labels);
                    lemma_grows_trans(s, g, emit(g, Bytecode::Call(name)), s.labels, s.labels);
                } else {
                    lemma_grows_emit(s, Bytecode::Push(a), s.labels);
                },
                Atom::Identifier(name) => {
                    lemma_gen_args_grows(c, 1, s);
                    let g = gen_args(c, 1, s);
                    lemma_grows_emit(g, Bytecode::Call(name), s.labels);
                    lemma_grows_trans(s, g, emit(g, Bytecode::Call(name)), s.labels, s.labels);
                },
            },
            Expression::Unit => lemma_grows_emit(s, Bytecode::Nop, s.labels),
            Expression::FunDef(_) => lemma_grows_same(s, fail(s, CompileError::NestedFunDef), s.labels),
            Expression::IfElse(b) => lemma_gen_ifelse_grows(*b, s),
        }
    }
}

/// Lowering keeps every label of the code below the counter; a new compiler
/// starts with no code, so this holds of every state the compiler reaches.
pub proof fn lemma_gen_keeps_labels_fresh(e: Expression, s: GenState)
    requires
        0 <= s.labels <= u64::MAX,
        labels_fresh(s),
    ensures
        labels_fresh(gen_expr(e, s)),
{
    let r = gen_expr(e, s);
    lemma_gen_expr_grows(e, s);
    assert forall|i: int| 0 <= i < r.code.len() implies (#[trigger] label_of(r.code[i]) matches Some(
        l,
    ) ==> l < r.labels) by {
        if i < s.code.len() {
            assert(r.code[i] == r.code.subrange(0, s.code.len() as int)[i]);
        }
    }
}

/// The compiler from syntax trees to bytecode.
pub struct BytecodeGen {
    pub errors: Vec<CompileError>,
    pub warnings: Vec<String>,
    pub bytecode: Vec<Bytecode>,
    pub label_count: u64,
}

impl BytecodeGen {
    pub open spec fn state(&self) -> GenState {
        GenState { code: self.bytecode@, errors: self.errors@, labels: self.label_count as int }
    }

    pub fn new() -> (r: BytecodeGen)
        ensures
            r.state() == (GenState { code: Seq::empty(), errors: Seq::empty(), labels: 0 }),
            r.warnings@.len() == 0,
    {
        BytecodeGen { errors: Vec::new(), warnings: Vec::new(), bytecode: Vec::new(), label_count: 0 }
    }

    /// Hands out the next label number.
    pub fn next_label(&mut self) -> (r: u64)
        requires
            old(self).label_count < u64::MAX,
        ensures
            r == old(self).label_count,
            final(self).label_count == old(self).label_count + 1,
            final(self).bytecode == old(self).bytecode,
            final(self).errors == old(self).errors,
            final(self).warnings == old(self).warnings,
    {
        self.label_count = self.label_count + 1;
        self.label_count - 1
    }

    pub fn was_err(&self) -> (r: bool)
        ensures
            r == (self.errors@.len() > 0),
    {
        self.errors.len() > 0
    }

    /// Forgets errors, warnings and code; label numbers keep counting.
    pub fn reset(&mut self)
        ensures
            final(self).errors@.len() == 0,
            final(self).warnings@.len() == 0,
            final(self).bytecode@.len() == 0,
            final(self).label_count == old(self).label_count,
    {
        self.errors.clear();
        self.warnings.clear();
        self.bytecode.clear();
    }

    fn err(&mut self, e: CompileError)
        ensures
            final(self).state() == fail(old(self).state(), e),
            final(self).warnings == old(self).warnings,
    {
        self.errors.push(e);
    }

    fn emit(&mut self, b: Bytecode)
        ensures
            final(self).state() == emit(old(self).state(), b),
            final(self).warnings == old(self).warnings,
    {
        self.bytecode.push(b);
    }

    /// Lowers one expression and appends its code.
    pub fn visit_expression(&mut self, expr: Expression)
        ensures
            final(self).state() == gen_expr(expr, old(self).state()),
            final(self).warnings == old(self).warnings,
        decreases expr, 0int,
    {
        match expr {
            Expression::Atom(a) => self.visit_atom(a),
            Expression::Children(c) => self.handle_children(c),
            Expression::Unit => self.emit(Bytecode::Nop),
            Expression::FunDef(f) => self.emit(Bytecode::FunDef(f)),
            Expression::IfElse(b) => self.visit_ifelse(*b),
        }
    }

    /// Lowers a sequence of expressions in order.
    pub fn visit_all(&mut self, exprs: Vec<Expression>)
        ensures
            final(self).state() == gen_all(exprs@, old(self).state()),
            final(self).warnings == old(self).warnings,
    {
        let ghost all = exprs@;
        let mut exprs = exprs;
        let mut i: usize = 0;
        let n = exprs.len();
        while exprs.len() > 0
            invariant
                n == all.len(),
                i + exprs@.len() == n,
                exprs@ == all.subrange(i as int, n as int),
                self.state() == gen_all(all.subrange(0, i as int), old(self).state()),
                self.warnings == old(self).warnings,
            decreases exprs@.len(),
        {
            let e = exprs.remove(0);
            proof {
                assert(all.subrange(0, i as int + 1).drop_last() == all.subrange(0, i as int));
            }
            self.visit_expression(e);
            i = i + 1;
        }
        proof {
            assert(all.subrange(0, n as int) == all);
        }
    }

    pub fn visit_atom(&mut self, atom: Atom)
        ensures
            final(self).state() == emit(old(self).state(), Bytecode::Push(atom)),
            final(self).warnings == old(self).warnings,
    {
        self.emit(Bytecode::Push(atom));
    }

    pub fn visit_ifelse(&mut self, ifelse: IfElse)
        ensures
            final(self).state() == gen_ifelse(ifelse, old(self).state()),
            final(self).warnings == old(self).warnings,
        decreases ifelse, 0int,
    {
        let IfElse { condition, if_true, if_false } = ifelse;
        self.visit_expression(condition);
        if self.label_count >= u64::MAX {
            self.err(CompileError::LabelsExhausted);
            return;
        }
        let truelabel = self.next_label();
        self.emit(Bytecode::JumpTrue(truelabel));
        match if_false {
            Some(f) => self.visit_expression(f),
            None => {},
        }
        if self.label_count >= u64::MAX {
            self.err(CompileError::LabelsExhausted);
            return;
        }
        let donelabel = self.next_label();
        self.emit(Bytecode::Jump(donelabel));
        self.emit(Bytecode::Label(truelabel));
        self.visit_expression(if_true);
        self.emit(Bytecode::Label(donelabel));
    }

    /// Lowers a calling form (see `gen_children`).
    #[verifier::loop_isolation(false)]
    fn handle_children(&mut self, children: Vec<Expression>)
        ensures
            final(self).state() == gen_children(children@, old(self).state()),
            final(self).warnings == old(self).warnings,
        decreases children@, children@.len() + 1,
    {
        let ghost all = children@;
        let n = children.len();
        if n == 0 {
            self.err(CompileError::EmptyCall);
            return;
        }
        let mut rest = children;
        let first = rest.remove(0);
        assert(first == all[0]);
        let many = n > 1;
        let mut fun_name: Option<String> = None;
        match first {
            Expression::Children(c) => {
                if many && c.len() > 1 {
                    self.err(CompileError::DynamicDispatch);
                    return;
                } else {
                    self.handle_children(c);
                }
            },
            Expression::Atom(a) => match a {
                Atom::Int(_) => if many {
                    self.err(CompileError::CallInt);
                } else {
                    self.visit_atom(a);
                },
                Atom::Double(_) => if many {
                    self.err(CompileError::CallDouble);
                } else {
                    self.visit_atom(a);
                },
                Atom::Str(s) => if many {
                    fun_name = Some(s);
                } else {
                    self.visit_atom(Atom::Str(s));
                },
                Atom::Identifier(s) => {
                    fun_name = Some(s);
                },
            },
            Expression::Unit => self.emit(Bytecode::Nop),
            Expression::FunDef(_) => self.err(CompileError::NestedFunDef),
            Expression::IfElse(b) => self.visit_ifelse(*b),
        }
        match fun_name {
            Some(name) => {
                let ghost s0 = self.state();
                let mut i: usize = 1;
                while rest.len() > 0
                    invariant
                        1 <= i <= n,
                        n == all.len(),
                        i + rest@.len() == n,
                        rest@ == all.subrange(i as int, n as int),
                        gen_args(all, i as int, self.state()) == gen_args(all, 1, s0),
                        self.warnings == old(self).warnings,
                    decreases rest@.len(),
                {
                    let child = rest.remove(0);
                    assert(child == all[i as int]);
                    match child {
                        Expression::FunDef(_) => self.err(CompileError::NestedFunDef),
                        _ => self.visit_expression(child),
                    }
                    i = i + 1;
                }
                self.emit(Bytecode::Call(name));
            },
            None => {},
        }
    }
}

} // verus!
