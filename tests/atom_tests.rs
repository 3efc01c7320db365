use rasp::atom::{Arith, Atom, AtomError, FloatOp, FloatRequest};

fn dbl(x: f64) -> Atom {
    Atom::Double(x.to_bits())
}

fn s(x: &str) -> Atom {
    Atom::Str(x.to_string())
}

#[test]
fn int_equality_gives_one_or_zero() {
    assert_eq!(Atom::Int(1).equals(&Atom::Int(1)), Arith::Value(Atom::Int(1)));
    assert_eq!(Atom::Int(1).equals(&Atom::Int(2)), Arith::Value(Atom::Int(0)));
}

#[test]
fn int_and_double_equality_is_asked_of_the_host() {
    let r = Atom::Int(2).equals(&dbl(2.0));
    assert_eq!(r, Arith::Float(FloatRequest { op: FloatOp::Eq, lhs: Atom::Int(2), rhs: dbl(2.0) }));
    let back = dbl(2.0).equals(&Atom::Int(2));
    assert_eq!(back, Arith::Float(FloatRequest { op: FloatOp::Eq, lhs: dbl(2.0), rhs: Atom::Int(2) }));
}

#[test]
fn double_equality_follows_ieee() {
    assert_eq!(dbl(1.5).equals(&dbl(1.5)), Arith::Value(Atom::Int(1)));
    assert_eq!(dbl(1.5).equals(&dbl(2.5)), Arith::Value(Atom::Int(0)));
    assert_eq!(dbl(0.0).equals(&dbl(-0.0)), Arith::Value(Atom::Int(1)));
    assert_eq!(dbl(f64::NAN).equals(&dbl(f64::NAN)), Arith::Value(Atom::Int(0)));
}

#[test]
fn double_equality_is_symmetric() {
    let pairs = [(1.0, 1.0), (0.0, -0.0), (f64::NAN, 1.0), (3.0, 4.0)];
    for (a, b) in pairs.iter() {
        assert_eq!(dbl(*a).equals(&dbl(*b)), dbl(*b).equals(&dbl(*a)));
    }
}

#[test]
fn string_equality() {
    assert_eq!(s("abc").equals(&s("abc")), Arith::Value(Atom::Int(1)));
    assert_eq!(s("abc").equals(&s("abd")), Arith::Value(Atom::Int(0)));
    assert_eq!(s("1").equals(&Atom::Int(1)), Arith::Value(Atom::Int(0)));
    assert_eq!(Atom::Int(1).equals(&s("1")), Arith::Value(Atom::Int(0)));
    assert_eq!(s("x").equals(&dbl(1.0)), Arith::Value(Atom::Int(0)));
    assert_eq!(s("x").equals(&Atom::Identifier("x".to_string())), Arith::Value(Atom::Int(0)));
}

#[test]
fn neg_of_numbers_and_failures() {
    assert_eq!(Atom::Int(5).neg(), Ok(Atom::Int(-5)));
    assert_eq!(dbl(2.5).neg(), Ok(dbl(-2.5)));
    assert_eq!(dbl(0.0).neg(), Ok(dbl(-0.0)));
    assert_eq!(s("a").neg(), Err(AtomError::InvalidOperands));
    assert_eq!(Atom::Identifier("a".to_string()).neg(), Err(AtomError::InvalidOperands));
}

#[test]
fn int_arithmetic() {
    assert_eq!(Atom::Int(7).minus(&Atom::Int(10)), Ok(Arith::Value(Atom::Int(-3))));
    assert_eq!(Atom::Int(7).times(&Atom::Int(6)), Ok(Arith::Value(Atom::Int(42))));
    assert_eq!(Atom::Int(i64::MIN).minus(&Atom::Int(1)), Ok(Arith::Value(Atom::Int(i64::MAX))));
}

#[test]
fn double_arithmetic_is_asked_of_the_host() {
    assert_eq!(
        Atom::Int(2).times(&dbl(1.5)),
        Ok(Arith::Float(FloatRequest { op: FloatOp::Mul, lhs: Atom::Int(2), rhs: dbl(1.5) }))
    );
    assert_eq!(
        dbl(1.5).minus(&dbl(0.5)),
        Ok(Arith::Float(FloatRequest { op: FloatOp::Sub, lhs: dbl(1.5), rhs: dbl(0.5) }))
    );
}

#[test]
fn arithmetic_on_non_numbers_fails() {
    assert_eq!(s("a").minus(&Atom::Int(1)), Err(AtomError::InvalidOperands));
    assert_eq!(Atom::Int(1).times(&s("a")), Err(AtomError::InvalidOperands));
    assert_eq!(dbl(1.0).minus(&Atom::Identifier("x".to_string())), Err(AtomError::InvalidOperands));
}

#[test]
fn truthiness() {
    assert!(Atom::Int(3).is_true());
    assert!(!Atom::Int(0).is_true());
    assert!(dbl(0.5).is_true());
    assert!(!dbl(-0.0).is_true());
    assert!(dbl(f64::NAN).is_true());
    assert!(s("a").is_true());
    assert!(!s("").is_true());
}
