use vstd::prelude::*;
use crate::atom::{Atom, Arith, FloatRequest, truth};
use crate::ast::{Bytecode, Function, fun_eq};
use crate::builtin::{
    BuiltinContext, BuiltinFunction, BuiltinKind, VmError, builtin_spec, call_builtin, find_builtin,
    make_builtin_functions, registry,
};
use crate::ast::IfElse;
use crate::bytecode_gen::{
    BytecodeGen, GenState, emit, gen_all, gen_expr, gen_ifelse, grows, label_of, labels_fresh,
    lemma_gen_expr_grows,
};
use crate::scope::VarDecls;

verus! {

/// The position of the last `Label(l)` among the first `n` instructions.
pub open spec fn last_label(c: Seq<Bytecode>, l: u64, n: int) -> Option<int>
    decreases n,
{
    if n <= 0 {
        None
    } else if c[n - 1] == Bytecode::Label(l) {
        Some(n - 1)
    } else {
        last_label(c, l, n - 1)
    }
}

/// Where `Label(l)` occurs exactly once, at `p`, a jump to `l` goes to `p`
/// (and the machine goes on just after it: see `Interpreter::step`).
pub proof fn lemma_single_label_target(c: Seq<Bytecode>, l: u64, p: int)
    requires
        0 <= p < c.len(),
        c[p] == Bytecode::Label(l),
        forall|q: int| 0 <= q < c.len() && q != p ==> c[q] != Bytecode::Label(l),
    ensures
        last_label(c, l, c.len() as int) == Some(p),
{
    lemma_last_label_from(c, l, p, c.len() as int);
}

proof fn lemma_last_label_from(c: Seq<Bytecode>, l: u64, p: int, n: int)
    requires
        0 <= p < n <= c.len(),
        c[p] == Bytecode::Label(l),
        forall|q: int| p < q < n ==> c[q] != Bytecode::Label(l),
    ensures
        last_label(c, l, n) == Some(p),
    decreases n,
{
    if n - 1 > p {
        lemma_last_label_from(c, l, p, n - 1);
    }
}

/// The label table of `c[..n]`: each label with its position, in order of position.
pub open spec fn label_entries(c: Seq<Bytecode>, n: int) -> Seq<(u64, usize)>
    decreases n,
{
    if n <= 0 {
        Seq::empty()
    } else {
        let prev = label_entries(c, n - 1);
        match c[n - 1] {
            Bytecode::Label(l) => prev.push((l, (n - 1) as usize)),
            _ => prev,
        }
    }
}

proof fn lemma_last_label_bound(c: Seq<Bytecode>, l: u64, n: int)
    ensures
        last_label(c, l, n) matches Some(p) ==> 0 <= p < n && c[p] == Bytecode::Label(l),
    decreases n,
{
    if n > 0 {
        lemma_last_label_bound(c, l, n - 1);
    }
}

/// The last entry of a label table under `l`.
pub open spec fn table_last(t: Seq<(u64, usize)>, l: u64) -> Option<int>
    decreases t.len(),
{
    if t.len() == 0 {
        None
    } else if t.last().0 == l {
        Some(t.last().1 as int)
    } else {
        table_last(t.drop_last(), l)
    }
}

proof fn lemma_table_last(c: Seq<Bytecode>, l: u64, n: int)
    requires
        0 <= n <= c.len(),
        n <= usize::MAX + 1,
    ensures
        table_last(label_entries(c, n), l) == last_label(c, l, n),
    decreases n,
{
    if n > 0 {
        lemma_table_last(c, l, n - 1);
        match c[n - 1] {
            Bytecode::Label(m) => {
                let t = label_entries(c, n);
                assert(t.drop_last() == label_entries(c, n - 1));
            },
            _ => {},
        }
    }
}

/// The label table of a code array (the last label of a number wins).
pub fn get_labels(bytecode: &Vec<Bytecode>) -> (r: Vec<(u64, usize)>)
    ensures
        r@ == label_entries(bytecode@, bytecode@.len() as int),
{
    let mut the_map: Vec<(u64, usize)> = Vec::new();
    let mut index: usize = 0;
    while index < bytecode.len()
        invariant
            index <= bytecode@.len(),
            the_map@ == label_entries(bytecode@, index as int),
        decreases bytecode@.len() - index,
    {
        match &bytecode[index] {
            Bytecode::Label(lnum) => {
                the_map.push((*lnum, index));
            },
            _ => {},
        }
        index = index + 1;
    }
    the_map
}

/// The position that a jump to `l` goes to, through a label table.
fn find_label(labels: &Vec<(u64, usize)>, l: u64) -> (r: Option<usize>)
    ensures
        r matches Some(p) ==> table_last(labels@, l) == Some(p as int),
        r is None ==> table_last(labels@, l) is None,
{
    let mut i = labels.len();
    assert(labels@.subrange(0, i as int) == labels@);
    while i > 0
        invariant
            i <= labels@.len(),
            table_last(labels@, l) == table_last(labels@.subrange(0, i as int), l),
        decreases i,
    {
        assert(labels@.subrange(0, i as int).drop_last() == labels@.subrange(0, i - 1));
        if labels[i - 1].0 == l {
            return Some(labels[i - 1].1);
        }
        i = i - 1;
    }
    None
}

/// One activation: which code array runs, its label table, and the next
/// instruction. A `scoped` frame runs a user-defined function and owns the
/// top scope frame.
#[derive(Debug)]
pub struct Frame {
    pub code: usize,
    pub labels: Vec<(u64, usize)>,
    pub pc: usize,
    pub scoped: bool,
}

/// What a step of the machine came to.
#[derive(Clone, Debug, PartialEq)]
pub enum StepResult {
    /// There is more to run.
    Running,
    /// No instruction is left.
    Halted,
    /// A floating-point operation has to be answered (see `Interpreter::resume`).
    Float(FloatRequest),
}

/// The last entry under a name in a list of function definitions.
pub open spec fn fn_index(fs: Seq<Function>, k: Seq<char>) -> Option<int>
    decreases fs.len(),
{
    if fs.len() == 0 {
        None
    } else if fs.last().name@ == k {
        Some(fs.len() - 1)
    } else {
        fn_index(fs.drop_last(), k)
    }
}

proof fn lemma_fn_index(fs: Seq<Function>, k: Seq<char>)
    ensures
        fn_index(fs, k) matches Some(i) ==> 0 <= i < fs.len() && fs[i].name@ == k && forall|j: int|
            i < j < fs.len() ==> fs[j].name@ != k,
    decreases fs.len(),
{
    if fs.len() > 0 && fs.last().name@ != k {
        let d = fs.drop_last();
        lemma_fn_index(d, k);
        if let Some(i) = fn_index(d, k) {
            assert forall|j: int| i < j < fs.len() implies fs[j].name@ != k by {
                if j < fs.len() - 1 {
                    assert(fs[j] == d[j]);
                }
            }
        }
    }
}

/// The code array compiled for a name, through the cache.
pub open spec fn cache_index(c: Seq<(String, usize)>, k: Seq<char>) -> Option<usize>
    decreases c.len(),
{
    if c.len() == 0 {
        None
    } else if c.last().0@ == k {
        Some(c.last().1)
    } else {
        cache_index(c.drop_last(), k)
    }
}

proof fn lemma_cache_index(c: Seq<(String, usize)>, k: Seq<char>)
    ensures
        cache_index(c, k) matches Some(i) ==> exists|j: int| 0 <= j < c.len() && c[j].1 == i,
    decreases c.len(),
{
    if c.len() > 0 && c.last().0@ != k {
        lemma_cache_index(c.drop_last(), k);
        if let Some(i) = cache_index(c.drop_last(), k) {
            let j = choose|j: int| 0 <= j < c.drop_last().len() && c.drop_last()[j].1 == i;
            assert(c[j] == c.drop_last()[j]);
        }
    }
}

pub open spec fn fresh_gen() -> GenState {
    GenState { code: Seq::empty(), errors: Seq::empty(), labels: 0 }
}

/// The arguments of a builtin call: the top `n` values, the topmost first.
pub open spec fn popped_args(s: Seq<Atom>, n: int) -> Seq<Atom> {
    Seq::new(n as nat, |j: int| s[s.len() - 1 - j])
}

/// The stack virtual machine.
pub struct Interpreter {
    pub stack: Vec<Atom>,
    pub functions: Vec<Function>,
    pub builtin_functions: Vec<BuiltinFunction>,
    /// Compiled bodies: a name and the index of its code array.
    pub function_code: Vec<(String, usize)>,
    /// Every code array that runs: loaded programs and compiled bodies.
    pub code: Vec<Vec<Bytecode>>,
    pub decl_stack: Vec<VarDecls>,
    pub global_decls: VarDecls,
    pub frames: Vec<Frame>,
    /// The lines written by `print`, each as the values printed.
    pub output: Vec<Vec<Atom>>,
    pub pending: Option<FloatRequest>,
}

impl Interpreter {
    pub open spec fn frame_wf(&self, f: Frame) -> bool {
        &&& f.code < self.code@.len()
        &&& f.pc <= self.code@[f.code as int]@.len()
        &&& f.labels@ == label_entries(
            self.code@[f.code as int]@,
            self.code@[f.code as int]@.len() as int,
        )
    }

    /// The machine's invariant.
    pub open spec fn wf(&self) -> bool {
        &&& registry(self.builtin_functions@)
        &&& self.decl_stack@.len() >= 1
        &&& forall|i: int| 0 <= i < self.frames@.len() ==> self.frame_wf(#[trigger] self.frames@[i])
        &&& forall|i: int|
            0 <= i < self.function_code@.len() ==> #[trigger] self.function_code@[i].1
                < self.code@.len()
    }


    /// What a builtin call of entry `bi` does to the operand stack, the output
    /// and the pending float request, from state `o`, with result `r`.
    pub open spec fn builtin_outcome(&self, o: Interpreter, bi: int, r: Result<StepResult, VmError>) -> bool
    {
        let n = o.builtin_functions@[bi].args@.len() as int;
        let kind = o.builtin_functions@[bi].kind;
        let s = o.stack@;
        let args = popped_args(s, n);
        let res = builtin_spec(
            kind,
            args,
            Some(o.decl_stack@.last()),
            o.global_decls,
        );
        &&& s.len() < n ==> r == Err::<StepResult, VmError>(VmError::StackUnderflow)
            && self.stack@.len() == 0 && self.output == o.output
            && self.pending is None
        &&& s.len() >= n ==> {
            &&& kind == BuiltinKind::Print ==> self.output@.len() == o.output@.len() + 1
                && self.output@.drop_last() == o.output@
                && self.output@.last()@ == args
            &&& kind != BuiltinKind::Print ==> self.output@ == o.output@
            &&& res matches Err(e) ==> r == Err::<StepResult, VmError>(e)
                && self.stack@ == s.subrange(0, s.len() - n) && self.pending is None
            &&& res matches Ok(Arith::Value(v)) ==> r == Ok::<StepResult, VmError>(
                StepResult::Running,
            ) && self.stack@ == s.subrange(0, s.len() - n).push(v)
                && self.pending is None
            &&& res matches Ok(Arith::Float(q)) ==> r == Ok::<StepResult, VmError>(
                StepResult::Float(q),
            ) && self.stack@ == s.subrange(0, s.len() - n) && self.pending
                == Some(q)
        }
    }

    /// There is a frame and its counter is past the end of its code.
    pub open spec fn finished(&self) -> bool {
        self.frames@.len() > 0 && self.top().pc >= self.current().len()
    }

    /// There is a frame with an instruction to run.
    pub open spec fn running(&self) -> bool {
        self.frames@.len() > 0 && self.top().pc < self.current().len()
    }

    /// The next instruction of the top frame.
    pub open spec fn instr(&self) -> Bytecode {
        self.current()[self.top().pc as int]
    }

    /// What one step does, from state `o` to state `n` with result `r`: one
    /// clause per kind of instruction, errors included (the state at the
    /// failure point is kept, nothing is unwound).
    pub open spec fn step_post(o: Interpreter, n: Interpreter, r: Result<StepResult, VmError>) -> bool {
        &&& n.wf()
        &&& r matches Ok(StepResult::Float(q)) ==> n.pending == Some(q)
        &&& !(r matches Ok(StepResult::Float(_))) ==> n.pending is None
        &&& o.frames@.len() == 0 ==> r == Ok::<StepResult, VmError>(StepResult::Halted)
            && n == o
        &&& o.finished() ==> {
            &&& n.frames@ == o.frames@.drop_last()
            &&& n.stack == o.stack
            &&& n.output == o.output
            &&& n.same_tables(o)
            &&& o.top().scoped && o.decl_stack@.len() > 1 ==> n.decl_stack@
                == o.decl_stack@.drop_last()
            &&& !(o.top().scoped && o.decl_stack@.len() > 1) ==> n.decl_stack == o.decl_stack
            &&& r == Ok::<StepResult, VmError>(
                if n.frames@.len() == 0 {
                    StepResult::Halted
                } else {
                    StepResult::Running
                },
            )
        }
        &&& o.running() ==> ({
            let pc = o.top().pc as int;
            let c = o.current();
            let plain = n.decl_stack == o.decl_stack && n.output == o.output && n.same_tables(o);
            match o.instr() {
                Bytecode::Nop => r == Ok::<StepResult, VmError>(StepResult::Running) && n.moved_to(
                    o,
                    pc + 1,
                ) && n.stack == o.stack && plain,
                Bytecode::Label(_) => r == Ok::<StepResult, VmError>(StepResult::Running)
                    && n.moved_to(o, pc + 1) && n.stack == o.stack && plain,
                Bytecode::Push(a) => r == Ok::<StepResult, VmError>(StepResult::Running)
                    && n.moved_to(o, pc + 1) && n.stack@ == o.stack@.push(a) && plain,
                Bytecode::Jump(l) => match last_label(c, l, c.len() as int) {
                    Some(p) => r == Ok::<StepResult, VmError>(StepResult::Running) && n.moved_to(
                        o,
                        p + 1,
                    ) && n.stack == o.stack && plain,
                    None => r == Err::<StepResult, VmError>(VmError::UnknownLabel(l)) && n.moved_to(
                        o,
                        pc,
                    ) && n.stack == o.stack && plain,
                },
                Bytecode::JumpTrue(l) => match last_label(c, l, c.len() as int) {
                    Some(p) => if o.stack@.len() == 0 {
                        r == Err::<StepResult, VmError>(VmError::StackUnderflow) && n.moved_to(o, pc)
                            && n.stack@ == o.stack@ && plain
                    } else if o.stack@.last() is Identifier {
                        r == Err::<StepResult, VmError>(VmError::IdentifierTruth) && n.moved_to(o, pc)
                            && n.stack@ == o.stack@.drop_last() && plain
                    } else {
                        r == Ok::<StepResult, VmError>(StepResult::Running) && n.moved_to(
                            o,
                            if truth(o.stack@.last()) {
                                p + 1
                            } else {
                                pc + 1
                            },
                        ) && n.stack@ == o.stack@.drop_last() && plain
                    },
                    None => r == Err::<StepResult, VmError>(VmError::UnknownLabel(l)) && n.moved_to(
                        o,
                        pc,
                    ) && n.stack == o.stack && plain,
                },
                Bytecode::Pop(into) => if o.stack@.len() == 0 {
                    r == Err::<StepResult, VmError>(VmError::StackUnderflow) && n.moved_to(o, pc)
                        && n.stack@ == o.stack@ && plain
                } else {
                    &&& r == Ok::<StepResult, VmError>(StepResult::Running)
                    &&& n.moved_to(o, pc + 1)
                    &&& n.stack@ == o.stack@.drop_last()
                    &&& n.output == o.output
                    &&& n.same_tables(o)
                    &&& into is None ==> n.decl_stack == o.decl_stack
                    &&& into matches Some(k) ==> {
                        &&& n.decl_stack@.len() == o.decl_stack@.len()
                        &&& forall|i: int|
                            0 <= i < o.decl_stack@.len() - 1 ==> n.decl_stack@[i]
                                == o.decl_stack@[i]
                        &&& forall|q: Seq<char>|
                            #[trigger] n.decl_stack@.last().get_spec(q) == if q == k@ {
                                Some(o.stack@.last())
                            } else {
                                o.decl_stack@.last().get_spec(q)
                            }
                    }
                },
                Bytecode::FunDef(f) => {
                    &&& r == Ok::<StepResult, VmError>(StepResult::Running)
                    &&& n.moved_to(o, pc + 1)
                    &&& n.stack == o.stack
                    &&& n.decl_stack == o.decl_stack
                    &&& n.output == o.output
                    &&& n.code == o.code
                    &&& n.function_code == o.function_code
                    &&& n.global_decls == o.global_decls
                    &&& n.builtin_functions == o.builtin_functions
                    &&& n.functions@.len() >= o.functions@.len()
                    &&& forall|j: int|
                        0 <= j < o.functions@.len() && o.functions@[j].name@ != f.name@
                            ==> n.functions@[j] == o.functions@[j]
                    &&& fn_index(n.functions@, f.name@) matches Some(i) && 0 <= i
                        < n.functions@.len() && n.functions@[i].name == f.name && fun_eq(
                        f,
                        n.functions@[i],
                    )
                    &&& forall|k: Seq<char>|
                        k != f.name@ ==> #[trigger] fn_index(n.functions@, k) == fn_index(
                            o.functions@,
                            k,
                        )
                },
                Bytecode::Call(name) => match fn_index(o.functions@, name@) {
                    Some(fi) => {
                        &&& r == Ok::<StepResult, VmError>(StepResult::Running)
                        &&& n.frames@.len() == o.frames@.len() + 1
                        &&& n.frames@[o.frames@.len() - 1].pc == pc + 1
                        &&& n.frames@[o.frames@.len() - 1].code == o.top().code
                        &&& n.frames@[o.frames@.len() - 1].labels == o.top().labels
                        &&& n.frames@[o.frames@.len() - 1].scoped == o.top().scoped
                        &&& forall|i: int| 0 <= i < o.frames@.len() - 1 ==> n.frames@[i] == o.frames@[i]
                        &&& n.top().pc == 0
                        &&& n.global_decls == o.global_decls
                        &&& n.builtin_functions == o.builtin_functions
                        &&& n.functions@.len() == o.functions@.len()
                        &&& forall|j: int|
                            0 <= j < o.functions@.len() && j != fi ==> n.functions@[j]
                                == o.functions@[j]
                        &&& n.functions@[fi].name == o.functions@[fi].name
                        &&& n.functions@[fi].args == o.functions@[fi].args
                        &&& n.top().scoped
                        &&& n.stack == o.stack
                        &&& n.output == o.output
                        &&& n.decl_stack@.drop_last() == o.decl_stack@
                        &&& forall|k: Seq<char>| #[trigger] n.decl_stack@.last().get_spec(k) is None
                        &&& cache_index(o.function_code@, name@) matches Some(ci) ==> n.code
                            == o.code && n.function_code == o.function_code
                            && n.top().code == ci && n.functions == o.functions
                        &&& cache_index(o.function_code@, name@) is None ==> n.code@.last()@
                            == gen_all(o.functions@[fi].body@, fresh_gen()).code
                            && n.code@.drop_last() == o.code@ && cache_index(
                            n.function_code@,
                            name@,
                        ) == Some(o.code@.len() as usize) && n.top().code == o.code@.len()
                            && n.code@.len() == o.code@.len() + 1 && n.function_code@.drop_last()
                            == o.function_code@ && n.function_code@.len() == o.function_code@.len()
                            + 1 && n.function_code@.last().1 == o.code@.len()
                            && n.functions@[fi].body@.len() == 0
                    },
                    None => {
                        &&& n.decl_stack == o.decl_stack
                        &&& n.functions == o.functions
                        &&& n.builtin_functions == o.builtin_functions
                        &&& n.function_code == o.function_code
                        &&& n.code == o.code
                        &&& n.global_decls == o.global_decls
                        &&& (forall|bi: int|
                            0 <= bi < o.builtin_functions@.len()
                                ==> o.builtin_functions@[bi].name@ != name@) ==> r == Err::<
                            StepResult,
                            VmError,
                        >(VmError::FunctionNotFound(name)) && n.moved_to(o, pc + 1) && n.stack == o.stack
                            && n.output == o.output
                        &&& (exists|bi: int|
                            0 <= bi < o.builtin_functions@.len()
                                && o.builtin_functions@[bi].name@ == name@) ==> exists|bi: int|
                            0 <= bi < o.builtin_functions@.len()
                                && o.builtin_functions@[bi].name@ == name@
                                && n.builtin_outcome(o, bi, r) && n.moved_to(o, pc + 1)
                    },
                },
            }
        })
    }

    /// `bytecode` has been loaded into `o`, giving `l` (see `load`).
    pub open spec fn load_post(o: Interpreter, l: Interpreter, bytecode: Seq<Bytecode>) -> bool {
        &&& l.wf()
        &&& l.code@.drop_last() == o.code@
        &&& l.code@.len() == o.code@.len() + 1
        &&& l.code@.last()@ == bytecode
        &&& l.frames@.drop_last() == o.frames@
        &&& l.frames@.len() == o.frames@.len() + 1
        &&& l.top().code == o.code@.len()
        &&& l.top().pc == 0
        &&& !l.top().scoped
        &&& l.stack == o.stack
        &&& l.decl_stack == o.decl_stack
        &&& l.output == o.output
        &&& l.functions == o.functions
        &&& l.builtin_functions == o.builtin_functions
        &&& l.function_code == o.function_code
        &&& l.global_decls == o.global_decls
        &&& l.pending == o.pending
    }

    /// Every frame of `o` has been abandoned, giving `n` (see `abort`).
    pub open spec fn abort_post(o: Interpreter, n: Interpreter) -> bool {
        &&& n.wf()
        &&& n.frames@.len() == 0
        &&& n.pending is None
        &&& n.stack == o.stack
        &&& n.decl_stack == o.decl_stack
        &&& n.output == o.output
        &&& n.functions == o.functions
        &&& n.builtin_functions == o.builtin_functions
        &&& n.function_code == o.function_code
        &&& n.code == o.code
        &&& n.global_decls == o.global_decls
    }

    /// At most `fuel` steps from `o` end in `n` with result `r`: steps are taken
    /// while they answer `Running`; the first other answer ends the run, and so
    /// does running out of fuel (with `Running`).
    pub open spec fn runs(o: Interpreter, n: Interpreter, r: Result<StepResult, VmError>, fuel: nat) -> bool
        decreases fuel,
    {
        if fuel == 0 {
            n == o && r == Ok::<StepResult, VmError>(StepResult::Running)
        } else {
            exists|m: Interpreter, r1: Result<StepResult, VmError>|
                #[trigger] Interpreter::step_post(o, m, r1) && if r1 == Ok::<StepResult, VmError>(
                    StepResult::Running,
                ) {
                    Interpreter::runs(m, n, r, (fuel - 1) as nat)
                } else {
                    n == m && r == r1
                }
        }
    }

    pub open spec fn top(&self) -> Frame {
        self.frames@.last()
    }

    /// The code array of the top frame.
    pub open spec fn current(&self) -> Seq<Bytecode> {
        self.code@[self.top().code as int]@
    }

    /// Everything but the operand stack, the top frame's counter and the output
    /// is as in `o`.
    pub open spec fn same_tables(&self, o: Interpreter) -> bool {
        &&& self.functions == o.functions
        &&& self.builtin_functions == o.builtin_functions
        &&& self.function_code == o.function_code
        &&& self.code == o.code
        &&& self.global_decls == o.global_decls
        &&& self.pending == o.pending
    }

    /// The top frame has moved its counter to `pc`; the other frames stay.
    pub open spec fn moved_to(&self, o: Interpreter, pc: int) -> bool {
        &&& self.frames@.len() == o.frames@.len()
        &&& forall|i: int| 0 <= i < o.frames@.len() - 1 ==> self.frames@[i] == o.frames@[i]
        &&& self.top().code == o.top().code
        &&& self.top().labels == o.top().labels
        &&& self.top().scoped == o.top().scoped
        &&& self.top().pc == pc
    }

    /// A machine with the builtins, one implicit scope frame and nothing to run.
    pub fn new() -> (r: Interpreter)
        ensures
            r.wf(),
            r.stack@.len() == 0,
            r.functions@.len() == 0,
            r.function_code@.len() == 0,
            r.decl_stack@.len() == 1,
            forall|k: Seq<char>| r.decl_stack@[0].get_spec(k) is None,
            forall|k: Seq<char>| r.global_decls.get_spec(k) is None,
            r.frames@.len() == 0,
            r.output@.len() == 0,
            r.pending is None,
    {
        let mut decl_stack: Vec<VarDecls> = Vec::new();
        decl_stack.push(VarDecls::new());
        Interpreter {
            stack: Vec::new(),
            functions: Vec::new(),
            builtin_functions: make_builtin_functions(),
            function_code: Vec::new(),
            code: Vec::new(),
            decl_stack,
            global_decls: VarDecls::new(),
            frames: Vec::new(),
            output: Vec::new(),
            pending: None,
        }
    }

    /// Takes the top value off the operand stack.
    pub fn pop(&mut self) -> (r: Result<Atom, VmError>)
        ensures
            old(self).stack@.len() == 0 ==> r == Err::<Atom, VmError>(VmError::StackUnderflow)
                && final(self).stack@ == old(self).stack@,
            old(self).stack@.len() > 0 ==> r == Ok::<Atom, VmError>(old(self).stack@.last())
                && final(self).stack@ == old(self).stack@.drop_last(),
            final(self).functions == old(self).functions,
            final(self).builtin_functions == old(self).builtin_functions,
            final(self).function_code == old(self).function_code,
            final(self).code == old(self).code,
            final(self).decl_stack == old(self).decl_stack,
            final(self).global_decls == old(self).global_decls,
            final(self).frames == old(self).frames,
            final(self).output == old(self).output,
            final(self).pending == old(self).pending,
    {
        match self.stack.pop() {
            Some(a) => Ok(a),
            None => Err(VmError::StackUnderflow),
        }
    }

    /// Binds a name in the current scope: the top scope frame, or the globals
    /// if there were none.
    fn set_var(&mut self, label: String, value: Atom)
        requires
            old(self).decl_stack@.len() >= 1,
        ensures
            final(self).decl_stack@.len() == old(self).decl_stack@.len(),
            forall|i: int|
                0 <= i < old(self).decl_stack@.len() - 1 ==> final(self).decl_stack@[i] == old(
                    self,
                ).decl_stack@[i],
            forall|k: Seq<char>|
                #[trigger] final(self).decl_stack@.last().get_spec(k) == (if k == label@ {
                    Some(value)
                } else {
                    old(self).decl_stack@.last().get_spec(k)
                }),
            final(self).global_decls == old(self).global_decls,
            final(self).stack == old(self).stack,
            final(self).frames == old(self).frames,
            final(self).output == old(self).output,
            final(self).same_tables(*old(self)),
    {
        if self.decl_stack.len() == 0 {
            self.global_decls.insert(label, value);
        } else {
            let mut top = self.decl_stack.pop().unwrap();
            top.insert(label, value);
            self.decl_stack.push(top);
        }
    }

    /// The value of a name: the top scope frame first, then the globals.
    pub fn get_var(&self, label: &String) -> (r: Option<Atom>)
        requires
            self.decl_stack@.len() >= 1,
        ensures
            r == (match self.decl_stack@.last().get_spec(label@) {
                Some(v) => Some(v),
                None => self.global_decls.get_spec(label@),
            }),
    {
        match self.decl_stack[self.decl_stack.len() - 1].get(label) {
            Some(atom) => Some(atom),
            None => self.global_decls.get(label),
        }
    }

    fn find_function(&self, name: &String) -> (r: Option<usize>)
        ensures
            r matches Some(i) ==> fn_index(self.functions@, name@) == Some(i as int) && i
                < self.functions@.len() && self.functions@[i as int].name@ == name@,
            r is None ==> fn_index(self.functions@, name@) is None,
    {
        let mut i = self.functions.len();
        assert(self.functions@.subrange(0, i as int) == self.functions@);
        while i > 0
            invariant
                i <= self.functions@.len(),
                fn_index(self.functions@, name@) == fn_index(self.functions@.subrange(0, i as int), name@),
            decreases i,
        {
            assert(self.functions@.subrange(0, i as int).drop_last() == self.functions@.subrange(0, i - 1));
            if self.functions[i - 1].name == *name {
                proof {
                    lemma_fn_index(self.functions@, name@);
                }
                return Some(i - 1);
            }
            i = i - 1;
        }
        None
    }

    fn find_code(&self, name: &String) -> (r: Option<usize>)
        ensures
            r == cache_index(self.function_code@, name@),
    {
        let mut i = self.function_code.len();
        assert(self.function_code@.subrange(0, i as int) == self.function_code@);
        while i > 0
            invariant
                i <= self.function_code@.len(),
                cache_index(self.function_code@, name@) == cache_index(
                    self.function_code@.subrange(0, i as int),
                    name@,
                ),
            decreases i,
        {
            assert(self.function_code@.subrange(0, i as int).drop_last()
                == self.function_code@.subrange(0, i - 1));
            if self.function_code[i - 1].0 == *name {
                return Some(self.function_code[i - 1].1);
            }
            i = i - 1;
        }
        None
    }
}

/// A copy of an instruction; a definition is copied under the same name.
fn copy_instr(b: &Bytecode) -> (r: Bytecode)
    ensures
        !(*b is FunDef) ==> r == *b,
        *b is FunDef ==> r is FunDef && r->FunDef_0.name == b->FunDef_0.name && fun_eq(
            b->FunDef_0,
            r->FunDef_0,
        ),
{
    match b {
        Bytecode::Nop => Bytecode::Nop,
        Bytecode::Call(n) => Bytecode::Call(n.clone()),
        Bytecode::Push(a) => Bytecode::Push(a.duplicate()),
        Bytecode::Pop(o) => Bytecode::Pop(
            match o {
                Some(n) => Some(n.clone()),
                None => None,
            },
        ),
        Bytecode::FunDef(f) => Bytecode::FunDef(f.deep_copy()),
        Bytecode::Label(l) => Bytecode::Label(*l),
        Bytecode::Jump(l) => Bytecode::Jump(*l),
        Bytecode::JumpTrue(l) => Bytecode::JumpTrue(*l),
    }
}

proof fn lemma_fn_index_update(fs: Seq<Function>, i: int, f: Function, k: Seq<char>)
    requires
        0 <= i < fs.len(),
        fs[i].name@ == f.name@,
        fn_index(fs, f.name@) == Some(i),
    ensures
        fn_index(fs.update(i, f), k) == fn_index(fs, k),
    decreases fs.len(),
{
    let u = fs.update(i, f);
    if i == fs.len() - 1 {
        assert(u.drop_last() == fs.drop_last());
    } else {
        assert(u.drop_last() == fs.drop_last().update(i, f));
        lemma_fn_index_update(fs.drop_last(), i, f, k);
    }
}

impl Interpreter {
    /// Registers a definition, replacing one of the same name.
    fn insert_function(&mut self, f: Function)
        ensures
            fn_index(final(self).functions@, f.name@) matches Some(i) && 0 <= i
                < final(self).functions@.len() && final(self).functions@[i] == f,
            final(self).functions@.len() >= old(self).functions@.len(),
            forall|k: Seq<char>|
                k != f.name@ ==> #[trigger] fn_index(final(self).functions@, k) == fn_index(old(self).functions@, k),
            forall|j: int|
                0 <= j < old(self).functions@.len() && old(self).functions@[j].name@ != f.name@
                    ==> final(self).functions@[j] == old(self).functions@[j],
            final(self).builtin_functions == old(self).builtin_functions,
            final(self).function_code == old(self).function_code,
            final(self).code == old(self).code,
            final(self).global_decls == old(self).global_decls,
            final(self).pending == old(self).pending,
            final(self).stack == old(self).stack,
            final(self).decl_stack == old(self).decl_stack,
            final(self).frames == old(self).frames,
            final(self).output == old(self).output,
    {
        match self.find_function(&f.name) {
            Some(i) => {
                let ghost fs = self.functions@;
                self.functions.set(i, f);
                proof {
                    assert forall|k: Seq<char>| #[trigger]
                        fn_index(self.functions@, k) == fn_index(fs, k) by {
                        lemma_fn_index_update(fs, i as int, f, k);
                    }
                    assert(fn_index(self.functions@, f.name@) == fn_index(fs, f.name@));
                }
            },
            None => {
                let ghost fs = self.functions@;
                self.functions.push(f);
                assert(self.functions@.drop_last() == fs);
            },
        }
    }
}

impl Interpreter {
    /// Enters a user-defined function: its body is compiled on the first call
    /// and taken from the cache on every later one.
    fn user_defined_function(&mut self, fi: usize, name: &String)
        requires
            old(self).wf(),
            fn_index(old(self).functions@, name@) == Some(fi as int),
        ensures
            final(self).wf(),
            final(self).frames@.drop_last() == old(self).frames@,
            final(self).frames@.len() == old(self).frames@.len() + 1,
            final(self).top().pc == 0,
            final(self).top().scoped,
            final(self).decl_stack@.drop_last() == old(self).decl_stack@,
            final(self).decl_stack@.len() == old(self).decl_stack@.len() + 1,
            forall|k: Seq<char>| #[trigger] final(self).decl_stack@.last().get_spec(k) is None,
            final(self).stack == old(self).stack,
            final(self).output == old(self).output,
            final(self).global_decls == old(self).global_decls,
            final(self).builtin_functions == old(self).builtin_functions,
            final(self).pending == old(self).pending,
            final(self).functions@.len() == old(self).functions@.len(),
            forall|k: Seq<char>|
                #[trigger] fn_index(final(self).functions@, k) == fn_index(old(self).functions@, k),
            forall|j: int|
                0 <= j < old(self).functions@.len() && j != fi ==> final(self).functions@[j] == old(
                    self,
                ).functions@[j],
            final(self).functions@[fi as int].name == old(self).functions@[fi as int].name,
            final(self).functions@[fi as int].args == old(self).functions@[fi as int].args,
            cache_index(old(self).function_code@, name@) is None ==> final(self).functions@[fi as int].body@.len() == 0,
            cache_index(old(self).function_code@, name@) matches Some(ci) ==> final(self).code
                == old(self).code && final(self).function_code == old(self).function_code
                && final(self).functions == old(self).functions && final(self).top().code == ci,
            cache_index(old(self).function_code@, name@) is None ==> final(self).code@.drop_last()
                == old(self).code@ && final(self).code@.last()@ == gen_all(
                old(self).functions@[fi as int].body@,
                fresh_gen(),
            ).code && final(self).function_code@ == old(self).function_code@.push(
                (final(self).function_code@.last().0, old(self).code@.len() as usize),
            ) && final(self).function_code@.last().0@ == name@ && final(self).top().code
                == old(self).code@.len(),
    {
        proof {
            lemma_fn_index(self.functions@, name@);
        }
        let ci = match self.find_code(name) {
            Some(ci) => {
                proof {
                    lemma_cache_index(self.function_code@, name@);
                }
                ci
            },
            None => {
                let ghost fs = self.functions@;
                let f = self.functions.remove(fi);
                let Function { name: fname, args, body } = f;
                let ghost old_body = body@;
                let stub = Function { name: fname, args, body: Vec::new() };
                self.functions.insert(fi, stub);
                proof {
                    assert(self.functions@ == fs.update(fi as int, stub));
                    assert forall|k: Seq<char>| #[trigger]
                        fn_index(self.functions@, k) == fn_index(fs, k) by {
                        lemma_fn_index_update(fs, fi as int, stub, k);
                    }
                }
                let mut generator = BytecodeGen::new();
                generator.visit_all(body);
                let idx = self.code.len();
                self.code.push(generator.bytecode);
                self.function_code.push((name.clone(), idx));
                idx
            },
        };
        let labels = get_labels(&self.code[ci]);
        self.frames.push(Frame { code: ci, labels, pc: 0, scoped: true });
        self.decl_stack.push(VarDecls::new());
    }

    /// Calls a builtin: takes its declared number of values off the stack (the
    /// topmost becomes the first argument), runs it with the current scope, and
    /// pushes the value that it returns.
    fn builtin_function(&mut self, bi: usize) -> (r: Result<StepResult, VmError>)
        requires
            old(self).wf(),
            bi < old(self).builtin_functions@.len(),
            old(self).pending is None,
        ensures
            final(self).wf(),
            final(self).frames == old(self).frames,
            final(self).decl_stack == old(self).decl_stack,
            final(self).functions == old(self).functions,
            final(self).builtin_functions == old(self).builtin_functions,
            final(self).function_code == old(self).function_code,
            final(self).code == old(self).code,
            final(self).global_decls == old(self).global_decls,
            final(self).builtin_outcome(*old(self), bi as int, r),
    {
        let argcount = self.builtin_functions[bi].args.len();
        let kind = self.builtin_functions[bi].kind;
        let ghost s = self.stack@;
        let mut args: Vec<Atom> = Vec::new();
        let mut k: usize = 0;
        while k < argcount
            invariant
                k <= argcount,
                argcount == old(self).builtin_functions@[bi as int].args@.len(),
                s == old(self).stack@,
                s.len() >= k,
                self.stack@ == s.subrange(0, s.len() - k),
                args@ == popped_args(s, k as int),
                self.wf(),
                self.frames == old(self).frames,
                self.decl_stack == old(self).decl_stack,
                self.functions == old(self).functions,
                self.builtin_functions == old(self).builtin_functions,
                self.function_code == old(self).function_code,
                self.code == old(self).code,
                self.global_decls == old(self).global_decls,
                self.output == old(self).output,
                self.pending is None,
            decreases argcount - k,
        {
            match self.pop() {
                Ok(atom) => {
                    args.push(atom);
                    assert(args@ == popped_args(s, k + 1));
                },
                Err(err) => {
                    return Err(err);
                },
            }
            k = k + 1;
        }
        let n = self.decl_stack.len();
        let ghost args_view = args@;
        let context = BuiltinContext {
            args,
            global_decls: &self.global_decls,
            var_decls: Some(&self.decl_stack[n - 1]),
        };
        let result = call_builtin(kind, context, &mut self.output);
        proof {
            if kind == BuiltinKind::Print {
                assert(self.output@.drop_last() =~= old(self).output@);
            }
        }
        match result {
            Ok(Arith::Value(atom)) => {
                self.stack.push(atom);
                Ok(StepResult::Running)
            },
            Ok(Arith::Float(q)) => {
                let copy = FloatRequest { op: q.op, lhs: q.lhs.duplicate(), rhs: q.rhs.duplicate() };
                self.pending = Some(copy);
                Ok(StepResult::Float(q))
            },
            Err(err) => Err(err),
        }
    }
}

impl Interpreter {
    /// Runs one instruction of the top frame, or leaves a frame whose code is done.
    pub fn step(&mut self) -> (r: Result<StepResult, VmError>)
        requires
            old(self).wf(),
            old(self).pending is None,
        ensures
            Interpreter::step_post(*old(self), *final(self), r),
    {
        if self.frames.len() == 0 {
            return Ok(StepResult::Halted);
        }
        let mut frame = self.frames.pop().unwrap();
        assert(self.frame_wf(frame));
        let ci = frame.code;
        let len = self.code[ci].len();
        if frame.pc >= len {
            if frame.scoped && self.decl_stack.len() > 1 {
                self.decl_stack.pop();
            }
            return Ok(if self.frames.len() == 0 { StepResult::Halted } else { StepResult::Running });
        }
        let pc = frame.pc;
        let ins = copy_instr(&self.code[ci][pc]);
        proof {
            lemma_table_last(self.code@[ci as int]@, 0, 0);
        }
        match ins {
            Bytecode::Nop | Bytecode::Label(_) => {
                frame.pc = pc + 1;
                self.frames.push(frame);
                Ok(StepResult::Running)
            },
            Bytecode::Push(a) => {
                self.stack.push(a);
                frame.pc = pc + 1;
                self.frames.push(frame);
                Ok(StepResult::Running)
            },
            Bytecode::FunDef(f) => {
                self.insert_function(f);
                frame.pc = pc + 1;
                self.frames.push(frame);
                Ok(StepResult::Running)
            },
            Bytecode::Jump(l) => {
                proof {
                    lemma_table_last(self.code@[ci as int]@, l, len as int);
                    lemma_last_label_bound(self.code@[ci as int]@, l, len as int);
                }
                match find_label(&frame.labels, l) {
                    Some(p) => {
                        frame.pc = p + 1;
                        self.frames.push(frame);
                        Ok(StepResult::Running)
                    },
                    None => {
                        self.frames.push(frame);
                        Err(VmError::UnknownLabel(l))
                    },
                }
            },
            Bytecode::JumpTrue(l) => {
                proof {
                    lemma_table_last(self.code@[ci as int]@, l, len as int);
                    lemma_last_label_bound(self.code@[ci as int]@, l, len as int);
                }
                match find_label(&frame.labels, l) {
                    Some(p) => match self.pop() {
                        Ok(v) => {
                            if v.is_identifier() {
                                self.frames.push(frame);
                                Err(VmError::IdentifierTruth)
                            } else {
                                frame.pc = if v.is_true() { p + 1 } else { pc + 1 };
                                self.frames.push(frame);
                                Ok(StepResult::Running)
                            }
                        },
                        Err(e) => {
                            self.frames.push(frame);
                            Err(e)
                        },
                    },
                    None => {
                        self.frames.push(frame);
                        Err(VmError::UnknownLabel(l))
                    },
                }
            },
            Bytecode::Pop(into) => match self.pop() {
                Ok(v) => {
                    match into {
                        Some(label) => self.set_var(label, v),
                        None => {},
                    }
                    frame.pc = pc + 1;
                    self.frames.push(frame);
                    Ok(StepResult::Running)
                },
                Err(e) => {
                    self.frames.push(frame);
                    Err(e)
                },
            },
            Bytecode::Call(name) => {
                frame.pc = pc + 1;
                self.frames.push(frame);
                let ghost mid = self.frames@;
                let ghost mid_s = *self;
                assert(mid.len() == old(self).frames@.len());
                assert(forall|i: int| 0 <= i < mid.len() - 1 ==> mid[i] == old(self).frames@[i]);
                let r = self.handle_call(&name);
                proof {
                    match fn_index(old(self).functions@, name@) {
                        Some(fi) => {
                            assert(self.frames@.drop_last() == mid);
                            assert(self.frames@.len() == mid.len() + 1);
                            assert(self.frames@[mid.len() - 1] == self.frames@.drop_last()[mid.len() - 1]);
                            assert forall|i: int| 0 <= i < mid.len() - 1 implies self.frames@[i]
                                == old(self).frames@[i] by {
                                assert(self.frames@[i] == self.frames@.drop_last()[i]);
                            }
                        },
                        None => {
                            assert(self.frames@ == mid);
                            assert(self.moved_to(*old(self), pc + 1));
                            if exists|bi: int|
                                0 <= bi < mid_s.builtin_functions@.len()
                                    && mid_s.builtin_functions@[bi].name@ == name@ {
                                let bi = choose|bi: int|
                                    0 <= bi < mid_s.builtin_functions@.len()
                                        && mid_s.builtin_functions@[bi].name@ == name@
                                        && self.builtin_outcome(mid_s, bi, r);
                                assert(self.builtin_outcome(*old(self), bi, r));
                            }
                        },
                    }
                }
                r
            },
        }
    }

    /// Dispatches a call: user-defined functions first, then builtins.
    fn handle_call(&mut self, name: &String) -> (r: Result<StepResult, VmError>)
        requires
            old(self).wf(),
            old(self).pending is None,
        ensures
            final(self).wf(),
            r matches Ok(StepResult::Float(q)) ==> final(self).pending == Some(q),
            !(r matches Ok(StepResult::Float(_))) ==> final(self).pending is None,
            ({
                let o = *old(self);
                let n = *final(self);
                match fn_index(o.functions@, name@) {
                    Some(fi) => {
                        &&& r == Ok::<StepResult, VmError>(StepResult::Running)
                        &&& n.frames@.drop_last() == o.frames@
                        &&& n.frames@.len() == o.frames@.len() + 1
                        &&& n.top().pc == 0
                        &&& n.top().scoped
                        &&& n.stack == o.stack
                        &&& n.output == o.output
                        &&& n.global_decls == o.global_decls
                        &&& n.builtin_functions == o.builtin_functions
                        &&& n.functions@.len() == o.functions@.len()
                        &&& forall|j: int|
                            0 <= j < o.functions@.len() && j != fi ==> n.functions@[j] == o.functions@[j]
                        &&& n.functions@[fi].name == o.functions@[fi].name
                        &&& n.functions@[fi].args == o.functions@[fi].args
                        &&& cache_index(o.function_code@, name@) is None ==> n.functions@[fi].body@.len() == 0
                                && n.code@.len() == o.code@.len() + 1
                                && n.function_code@.drop_last() == o.function_code@
                                && n.function_code@.len() == o.function_code@.len() + 1
                                && n.function_code@.last().1 == o.code@.len()
                        &&& cache_index(o.function_code@, name@) matches Some(ci) ==> n.functions == o.functions
                        &&& n.decl_stack@.drop_last() == o.decl_stack@
                        &&& forall|k: Seq<char>| #[trigger] n.decl_stack@.last().get_spec(k) is None
                        &&& cache_index(o.function_code@, name@) matches Some(ci) ==> n.code
                            == o.code && n.function_code == o.function_code && n.top().code == ci
                        &&& cache_index(o.function_code@, name@) is None ==> n.code@.last()@
                            == gen_all(o.functions@[fi].body@, fresh_gen()).code
                            && n.code@.drop_last() == o.code@ && cache_index(
                            n.function_code@,
                            name@,
                        ) == Some(o.code@.len() as usize) && n.top().code == o.code@.len()
                    },
                    None => {
                        &&& n.frames == o.frames
                        &&& n.decl_stack == o.decl_stack
                        &&& n.functions == o.functions
                        &&& n.builtin_functions == o.builtin_functions
                        &&& n.function_code == o.function_code
                        &&& n.code == o.code
                        &&& n.global_decls == o.global_decls
                        &&& (forall|bi: int|
                            0 <= bi < o.builtin_functions@.len()
                                ==> o.builtin_functions@[bi].name@ != name@) ==> r == Err::<
                            StepResult,
                            VmError,
                        >(VmError::FunctionNotFound(*name)) && n.stack == o.stack && n.output == o.output
                            && n.pending == o.pending
                        &&& (exists|bi: int|
                            0 <= bi < o.builtin_functions@.len()
                                && o.builtin_functions@[bi].name@ == name@) ==> exists|bi: int|
                            0 <= bi < o.builtin_functions@.len()
                                && o.builtin_functions@[bi].name@ == name@
                                && n.builtin_outcome(o, bi, r)
                    },
                }
            }),
    {
        match self.find_function(name) {
            Some(fi) => {
                self.user_defined_function(fi, name);
                Ok(StepResult::Running)
            },
            None => match find_builtin(&self.builtin_functions, name) {
                Some(bi) => self.builtin_function(bi),
                None => Err(VmError::FunctionNotFound(name.clone())),
            },
        }
    }
}

impl Interpreter {
    /// Makes `bytecode` the code that runs next, in a frame of its own on top
    /// of the current ones; an empty program is not loaded.
    pub fn load(&mut self, bytecode: Vec<Bytecode>)
        requires
            old(self).wf(),
        ensures
            final(self).wf(),
            bytecode@.len() == 0 ==> *final(self) == *old(self),
            bytecode@.len() > 0 ==> Interpreter::load_post(*old(self), *final(self), bytecode@),
            bytecode@.len() > 0 ==> {
                &&& final(self).code@ == old(self).code@.push(bytecode)
                &&& final(self).frames@.drop_last() == old(self).frames@
                &&& final(self).frames@.len() == old(self).frames@.len() + 1
                &&& final(self).top().code == old(self).code@.len()
                &&& final(self).top().pc == 0
                &&& !final(self).top().scoped
                &&& final(self).stack == old(self).stack
                &&& final(self).decl_stack == old(self).decl_stack
                &&& final(self).output == old(self).output
                &&& final(self).functions == old(self).functions
                &&& final(self).builtin_functions == old(self).builtin_functions
                &&& final(self).function_code == old(self).function_code
                &&& final(self).global_decls == old(self).global_decls
                &&& final(self).pending == old(self).pending
            },
    {
        if bytecode.len() == 0 {
            return;
        }
        let labels = get_labels(&bytecode);
        let idx = self.code.len();
        let ghost oc = self.code@;
        let ghost of = self.frames@;
        self.code.push(bytecode);
        self.frames.push(Frame { code: idx, labels, pc: 0, scoped: false });
        assert(self.code@.drop_last() =~= oc);
        assert(self.frames@.drop_last() =~= of);
    }

    /// Answers the pending float request with its value, which goes on the stack.
    pub fn resume(&mut self, value: Atom)
        requires
            old(self).wf(),
            old(self).pending is Some,
        ensures
            final(self).wf(),
            final(self).pending is None,
            final(self).stack@ == old(self).stack@.push(value),
            final(self).frames == old(self).frames,
            final(self).decl_stack == old(self).decl_stack,
            final(self).output == old(self).output,
            final(self).functions == old(self).functions,
            final(self).function_code == old(self).function_code,
            final(self).code == old(self).code,
            final(self).global_decls == old(self).global_decls,
    {
        self.pending = None;
        self.stack.push(value);
    }

    /// Abandons every frame after an error, as an error unwinds nothing: the
    /// operand stack and the scope frames stay as they were.
    pub fn abort(&mut self)
        requires
            old(self).wf(),
        ensures
            Interpreter::abort_post(*old(self), *final(self)),
            final(self).wf(),
            final(self).frames@.len() == 0,
            final(self).pending is None,
            final(self).stack == old(self).stack,
            final(self).decl_stack == old(self).decl_stack,
            final(self).output == old(self).output,
            final(self).functions == old(self).functions,
            final(self).function_code == old(self).function_code,
            final(self).code == old(self).code,
            final(self).global_decls == old(self).global_decls,
    {
        self.frames = Vec::new();
        self.pending = None;
    }

    /// Runs at most `fuel` steps; stops early on an error, a float request or
    /// when nothing is left to run. `Running` means the fuel ran out.
    pub fn run(&mut self, fuel: u64) -> (r: Result<StepResult, VmError>)
        requires
            old(self).wf(),
            old(self).pending is None,
        ensures
            final(self).wf(),
            r matches Ok(StepResult::Float(q)) ==> final(self).pending == Some(q),
            !(r matches Ok(StepResult::Float(_))) ==> final(self).pending is None,
            old(self).frames@.len() == 0 && fuel > 0 ==> r == Ok::<StepResult, VmError>(
                StepResult::Halted,
            ) && *final(self) == *old(self),
            Interpreter::runs(*old(self), *final(self), r, fuel as nat),
    {
        let mut left = fuel;
        while left > 0
            invariant
                self.wf(),
                self.pending is None,
                left <= fuel,
                left == fuel || old(self).frames@.len() > 0,
                left == fuel ==> *self == *old(self),
                forall|n2: Interpreter, r2: Result<StepResult, VmError>|
                    #[trigger] Interpreter::runs(*self, n2, r2, left as nat) ==> Interpreter::runs(
                        *old(self),
                        n2,
                        r2,
                        fuel as nat,
                    ),
            decreases left,
        {
            let ghost s = *self;
            let r = self.step();
            proof {
                assert(Interpreter::step_post(s, *self, r));
            }
            match r {
                Ok(StepResult::Running) => {},
                _ => {
                    assert(Interpreter::runs(s, *self, r, left as nat));
                    return r;
                },
            }
            let ghost before = left;
            left = left - 1;
            proof {
                assert forall|n2: Interpreter, r2: Result<StepResult, VmError>|
                    #[trigger] Interpreter::runs(*self, n2, r2, left as nat) implies Interpreter::runs(
                        *old(self),
                        n2,
                        r2,
                        fuel as nat,
                    ) by {
                    assert(Interpreter::step_post(s, *self, r));
                    assert((before as nat - 1) as nat == left as nat);
                    assert(Interpreter::runs(s, n2, r2, before as nat));
                }
            }
        }
        assert(Interpreter::runs(*self, *self, Ok::<StepResult, VmError>(StepResult::Running), 0));
        Ok(StepResult::Running)
    }

    /// Loads `bytecode` and runs it for at most `fuel` steps (see `run`); on an
    /// error every frame is abandoned. An empty program succeeds at once.
    pub fn interpret(&mut self, bytecode: Vec<Bytecode>, fuel: u64) -> (r: Result<StepResult, VmError>)
        requires
            old(self).wf(),
            old(self).pending is None,
        ensures
            final(self).wf(),
            r matches Ok(StepResult::Float(q)) ==> final(self).pending == Some(q),
            !(r matches Ok(StepResult::Float(_))) ==> final(self).pending is None,
            r is Err ==> final(self).frames@.len() == 0,
            bytecode@.len() == 0 ==> r == Ok::<StepResult, VmError>(StepResult::Halted)
                && *final(self) == *old(self),
            bytecode@.len() > 0 ==> exists|l: Interpreter, m: Interpreter|
                Interpreter::load_post(*old(self), l, bytecode@) && #[trigger] Interpreter::runs(
                    l,
                    m,
                    r,
                    fuel as nat,
                ) && (r is Ok ==> *final(self) == m) && (r is Err ==> Interpreter::abort_post(
                    m,
                    *final(self),
                )),
    {
        if bytecode.len() == 0 {
            return Ok(StepResult::Halted);
        }
        let ghost code = bytecode@;
        self.load(bytecode);
        let ghost l = *self;
        let r = self.run(fuel);
        let ghost m = *self;
        if r.is_err() {
            self.abort();
        }
        assert(Interpreter::load_post(*old(self), l, code));
        assert(Interpreter::runs(l, m, r, fuel as nat));
        r
    }
}

proof fn lemma_index_prefix(x: Seq<Bytecode>, y: Seq<Bytecode>, q: int)
    requires
        y.len() <= x.len(),
        x.subrange(0, y.len() as int) == y,
        0 <= q < y.len(),
    ensures
        x[q] == y[q],
{
    assert(x[q] == x.subrange(0, y.len() as int)[q]);
}

/// Control flow of a lowered if/else, from a compiler state whose labels are
/// all below its counter. The condition's code is followed by `JumpTrue(t)`;
/// when it jumps, the machine goes on at the first instruction of the then
/// branch, so the else branch is skipped; when it falls through, the else
/// branch runs and ends in `Jump(d)`, which goes on just past the whole
/// if/else, so the then branch is skipped. Each of the two labels occurs once.
pub proof fn lemma_if_else_control(ie: IfElse, s: GenState)
    requires
        0 <= s.labels <= u64::MAX,
        labels_fresh(s),
    ensures
        ({
            let s1 = gen_expr(ie.condition, s);
            let t = s1.labels;
            let s2 = emit(GenState { labels: t + 1, ..s1 }, Bytecode::JumpTrue(t as u64));
            let s3 = match ie.if_false {
                Some(f) => gen_expr(f, s2),
                None => s2,
            };
            let d = s3.labels;
            let s4 = emit(
                emit(GenState { labels: d + 1, ..s3 }, Bytecode::Jump(d as u64)),
                Bytecode::Label(t as u64),
            );
            let r = gen_ifelse(ie, s);
            s1.labels < u64::MAX && s3.labels < u64::MAX ==> {
                &&& r.code.len() == gen_expr(ie.if_true, s4).code.len() + 1
                &&& r.code[s1.code.len() as int] == Bytecode::JumpTrue(t as u64)
                &&& r.code[s3.code.len() as int] == Bytecode::Jump(d as u64)
                &&& last_label(r.code, t as u64, r.code.len() as int) == Some(s4.code.len() - 1)
                &&& last_label(r.code, d as u64, r.code.len() as int) == Some(r.code.len() - 1)
            }
        }),
{
    let s1 = gen_expr(ie.condition, s);
    let t = s1.labels;
    lemma_gen_expr_grows(ie.condition, s);
    if t < u64::MAX {
        let b1 = GenState { labels: t + 1, ..s1 };
        let s2 = emit(b1, Bytecode::JumpTrue(t as u64));
        let s3 = match ie.if_false {
            Some(f) => gen_expr(f, s2),
            None => s2,
        };
        match ie.if_false {
            Some(f) => lemma_gen_expr_grows(f, s2),
            None => {
                assert(s3.code.subrange(0, s2.code.len() as int) =~= s2.code);
            },
        }
        let d = s3.labels;
        if d < u64::MAX {
            let b3 = GenState { labels: d + 1, ..s3 };
            let j = emit(b3, Bytecode::Jump(d as u64));
            let s4 = emit(j, Bytecode::Label(t as u64));
            let s5 = gen_expr(ie.if_true, s4);
            lemma_gen_expr_grows(ie.if_true, s4);
            let r = emit(s5, Bytecode::Label(d as u64));
            assert(r == gen_ifelse(ie, s));
            assert(r.code.subrange(0, s5.code.len() as int) =~= s5.code);
            // where each instruction of `r` comes from
            assert forall|q: int| 0 <= q < r.code.len() implies (#[trigger] r.code[q] == Bytecode::Label(
                t as u64,
            ) ==> q == s4.code.len() - 1) && (r.code[q] == Bytecode::Label(d as u64) ==> q == r.code.len()
                - 1) by {
                if q < s5.code.len() {
                    lemma_index_prefix(r.code, s5.code, q);
                    if q < s4.code.len() {
                        lemma_index_prefix(s5.code, s4.code, q);
                        if q < s3.code.len() {
                            assert(s4.code[q] == s3.code[q]);
                            if q < s2.code.len() {
                                lemma_index_prefix(s3.code, s2.code, q);
                                if q < s1.code.len() {
                                    assert(s2.code[q] == s1.code[q]);
                                    if q < s.code.len() {
                                        lemma_index_prefix(s1.code, s.code, q);
                                        assert(label_of(s.code[q]) matches Some(l) ==> l < s.labels);
                                    } else {
                                        assert(label_of(s1.code[q]) matches Some(l) ==> l < t);
                                    }
                                }
                            } else {
                                assert(label_of(s3.code[q]) matches Some(l) ==> t + 1 <= l < d);
                            }
                        }
                    } else {
                        assert(label_of(s5.code[q]) matches Some(l) ==> d + 1 <= l);
                    }
                }
            }
            lemma_index_prefix(r.code, s5.code, s4.code.len() - 1);
            lemma_index_prefix(s5.code, s4.code, s4.code.len() - 1);
            lemma_single_label_target(r.code, t as u64, s4.code.len() - 1);
            lemma_single_label_target(r.code, d as u64, r.code.len() - 1);
            lemma_index_prefix(r.code, s5.code, s1.code.len() as int);
            lemma_index_prefix(s5.code, s4.code, s1.code.len() as int);
            lemma_index_prefix(s3.code, s2.code, s1.code.len() as int);
            lemma_index_prefix(r.code, s5.code, s3.code.len() as int);
            lemma_index_prefix(s5.code, s4.code, s3.code.len() as int);
        }
    }
}

} // verus!
