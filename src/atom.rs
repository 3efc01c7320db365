use vstd::prelude::*;

verus! {

/// Sign bit of an IEEE-754 binary64 bit pattern.
pub const SIGN_BIT: u64 = 0x8000_0000_0000_0000;

/// Everything but the sign bit.
pub const MAGNITUDE_MASK: u64 = 0x7fff_ffff_ffff_ffff;

/// Exponent field of a binary64 bit pattern.
pub const EXPONENT_MASK: u64 = 0x7ff0_0000_0000_0000;

/// Fraction field of a binary64 bit pattern.
pub const FRACTION_MASK: u64 = 0x000f_ffff_ffff_ffff;

/// The only runtime value of the language.
///
/// A double is held as its IEEE-754 binary64 bit pattern; the library never
/// performs floating-point arithmetic itself (see `FloatRequest`).
#[derive(Clone, Debug, PartialEq)]
pub enum Atom {
    Int(i64),
    Double(u64),
    Str(String),
    Identifier(String),
}

/// A floating-point operation that the host has to carry out.
#[derive(Clone, Copy, Debug, PartialEq, Eq, Structural)]
pub enum FloatOp {
    /// `lhs - rhs`, each operand promoted to a double; answered with a `Double`.
    Sub,
    /// `lhs * rhs`, each operand promoted to a double; answered with a `Double`.
    Mul,
    /// `lhs == rhs` with the int operand promoted; answered with `Int(1)` or `Int(0)`.
    Eq,
}

/// Two numeric operands, at least one a double, and the operation wanted on them.
#[derive(Clone, Debug, PartialEq)]
pub struct FloatRequest {
    pub op: FloatOp,
    pub lhs: Atom,
    pub rhs: Atom,
}

/// Outcome of an arithmetic or comparison operation on atoms: either the value,
/// or a floating-point operation that the host has to evaluate.
#[derive(Clone, Debug, PartialEq)]
pub enum Arith {
    Value(Atom),
    Float(FloatRequest),
}

/// Errors of the value model.
#[derive(Clone, Copy, Debug, PartialEq, Eq, Structural)]
pub enum AtomError {
    /// Arithmetic on a string or an identifier.
    InvalidOperands,
}

pub open spec fn double_is_nan(b: u64) -> bool {
    (b & EXPONENT_MASK) == EXPONENT_MASK && (b & FRACTION_MASK) != 0
}

/// Both `+0.0` and `-0.0`.
pub open spec fn double_is_zero(b: u64) -> bool {
    (b & MAGNITUDE_MASK) == 0
}

/// IEEE-754 equality on bit patterns: NaN equals nothing, the two zeros are equal.
pub open spec fn double_eq(a: u64, b: u64) -> bool {
    !double_is_nan(a) && !double_is_nan(b) && (a == b || (double_is_zero(a) && double_is_zero(b)))
}

/// IEEE-754 negation: the sign bit flips, everything else stays.
pub open spec fn double_neg(b: u64) -> u64 {
    b ^ SIGN_BIT
}

pub open spec fn bool_atom(b: bool) -> Atom {
    Atom::Int(if b { 1 } else { 0 })
}

pub open spec fn is_numeric(a: Atom) -> bool {
    a is Int || a is Double
}

/// Truthiness of a value: nonzero int, nonzero double (NaN included), nonempty string.
pub open spec fn truth(a: Atom) -> bool {
    match a {
        Atom::Int(i) => i != 0,
        Atom::Double(d) => !double_is_zero(d),
        Atom::Str(s) => s@.len() > 0,
        Atom::Identifier(_) => false,
    }
}

/// The equality table over pairs of kinds.
pub open spec fn equals_spec(a: Atom, b: Atom) -> Arith {
    match (a, b) {
        (Atom::Int(x), Atom::Int(y)) => Arith::Value(bool_atom(x == y)),
        (Atom::Int(_), Atom::Double(_)) => Arith::Float(FloatRequest { op: FloatOp::Eq, lhs: a, rhs: b }),
        (Atom::Double(_), Atom::Int(_)) => Arith::Float(FloatRequest { op: FloatOp::Eq, lhs: a, rhs: b }),
        (Atom::Double(x), Atom::Double(y)) => Arith::Value(bool_atom(double_eq(x, y))),
        (Atom::Str(x), Atom::Str(y)) => Arith::Value(bool_atom(x@ == y@)),
        _ => Arith::Value(Atom::Int(0)),
    }
}

/// Negation: ints wrap on overflow, doubles flip their sign.
pub open spec fn neg_spec(a: Atom) -> Result<Atom, AtomError> {
    match a {
        Atom::Int(i) => Ok(Atom::Int(0i64.wrapping_sub(i))),
        Atom::Double(d) => Ok(Atom::Double(double_neg(d))),
        _ => Err(AtomError::InvalidOperands),
    }
}

/// Subtraction (`op` is `Sub`) or multiplication (`op` is `Mul`) of two atoms:
/// exact wrapping arithmetic on two ints, a float request once a double takes part.
pub open spec fn arith_spec(op: FloatOp, a: Atom, b: Atom) -> Result<Arith, AtomError> {
    if !is_numeric(a) || !is_numeric(b) {
        Err(AtomError::InvalidOperands)
    } else {
        match (a, b) {
            (Atom::Int(x), Atom::Int(y)) => Ok(
                Arith::Value(
                    Atom::Int(if op == FloatOp::Sub { x.wrapping_sub(y) } else { x.wrapping_mul(y) }),
                ),
            ),
            _ => Ok(Arith::Float(FloatRequest { op, lhs: a, rhs: b })),
        }
    }
}

impl Atom {
    /// A copy of the atom, equal to it.
    pub fn duplicate(&self) -> (r: Atom)
        ensures
            r == *self,
    {
        match self {
            Atom::Int(i) => Atom::Int(*i),
            Atom::Double(d) => Atom::Double(*d),
            Atom::Str(s) => Atom::Str(s.clone()),
            Atom::Identifier(s) => Atom::Identifier(s.clone()),
        }
    }

    pub fn is_identifier(&self) -> (r: bool)
        ensures
            r == (*self is Identifier),
    {
        match self {
            Atom::Identifier(_) => true,
            _ => false,
        }
    }

    /// Truthiness; an identifier has none and must be resolved first.
    pub fn is_true(&self) -> (r: bool)
        requires
            !(*self is Identifier),
        ensures
            r == truth(*self),
    {
        match self {
            Atom::Int(i) => *i != 0,
            Atom::Double(d) => (*d & MAGNITUDE_MASK) != 0,
            Atom::Str(s) => !s.as_str().is_empty(),
            Atom::Identifier(_) => false,
        }
    }

    /// Equality by the table of kinds; an int and a double are compared by the host.
    pub fn equals(&self, other: &Atom) -> (r: Arith)
        ensures
            r == equals_spec(*self, *other),
    {
        match (self, other) {
            (Atom::Int(x), Atom::Int(y)) => Arith::Value(Atom::Int(if *x == *y { 1 } else { 0 })),
            (Atom::Int(_), Atom::Double(_)) | (Atom::Double(_), Atom::Int(_)) => Arith::Float(
                FloatRequest { op: FloatOp::Eq, lhs: self.duplicate(), rhs: other.duplicate() },
            ),
            (Atom::Double(x), Atom::Double(y)) => {
                let x = *x;
                let y = *y;
                let nan_x = (x & EXPONENT_MASK) == EXPONENT_MASK && (x & FRACTION_MASK) != 0;
                let nan_y = (y & EXPONENT_MASK) == EXPONENT_MASK && (y & FRACTION_MASK) != 0;
                let zeros = (x & MAGNITUDE_MASK) == 0 && (y & MAGNITUDE_MASK) == 0;
                let eq = !nan_x && !nan_y && (x == y || zeros);
                Arith::Value(Atom::Int(if eq { 1 } else { 0 }))
            },
            (Atom::Str(x), Atom::Str(y)) => Arith::Value(Atom::Int(if *x == *y { 1 } else { 0 })),
            _ => Arith::Value(Atom::Int(0)),
        }
    }

    pub fn neg(&self) -> (r: Result<Atom, AtomError>)
        ensures
            r == neg_spec(*self),
    {
        match self {
            Atom::Int(i) => Ok(Atom::Int(0i64.wrapping_sub(*i))),
            Atom::Double(d) => Ok(Atom::Double(*d ^ SIGN_BIT)),
            _ => Err(AtomError::InvalidOperands),
        }
    }

    fn arith(&self, op: FloatOp, other: &Atom) -> (r: Result<Arith, AtomError>)
        ensures
            r == arith_spec(op, *self, *other),
    {
        match (self, other) {
            (Atom::Int(x), Atom::Int(y)) => {
                let v = match op {
                    FloatOp::Sub => x.wrapping_sub(*y),
                    _ => x.wrapping_mul(*y),
                };
                Ok(Arith::Value(Atom::Int(v)))
            },
            (Atom::Int(_), Atom::Double(_)) | (Atom::Double(_), Atom::Int(_)) | (
                Atom::Double(_),
                Atom::Double(_),
            ) => Ok(Arith::Float(FloatRequest { op, lhs: self.duplicate(), rhs: other.duplicate() })),
            _ => Err(AtomError::InvalidOperands),
        }
    }

    pub fn minus(&self, other: &Atom) -> (r: Result<Arith, AtomError>)
        ensures
            r == arith_spec(FloatOp::Sub, *self, *other),
    {
        self.arith(FloatOp::Sub, other)
    }

    pub fn times(&self, other: &Atom) -> (r: Result<Arith, AtomError>)
        ensures
            r == arith_spec(FloatOp::Mul, *self, *other),
    {
        self.arith(FloatOp::Mul, other)
    }
}

/// Equality between numbers is symmetric: swapping the operands of an int and a
/// double swaps the operands of the comparison asked of the host, and every
/// other numeric pair gives the same answer both ways.
pub proof fn lemma_numeric_equality_symmetric(a: Atom, b: Atom)
    requires
        is_numeric(a),
        is_numeric(b),
    ensures
        (a is Int && b is Int) || (a is Double && b is Double) ==> equals_spec(a, b) == equals_spec(b, a),
        (a is Int && b is Double) || (a is Double && b is Int) ==> equals_spec(b, a) == Arith::Float(
            FloatRequest { op: FloatOp::Eq, lhs: b, rhs: a },
        ),
{
}

/// A string equals exactly the strings of the same content, and nothing else.
pub proof fn lemma_string_equality(a: Atom, b: Atom)
    requires
        a is Str,
    ensures
        !(b is Str) ==> equals_spec(a, b) == Arith::Value(Atom::Int(0)) && equals_spec(b, a)
            == Arith::Value(Atom::Int(0)),
        b is Str ==> (equals_spec(a, b) == Arith::Value(Atom::Int(1)) <==> a->Str_0@ == b->Str_0@),
        b is Str ==> (equals_spec(a, b) == Arith::Value(Atom::Int(0)) <==> a->Str_0@ != b->Str_0@),
{
}

} // verus!
