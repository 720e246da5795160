use untitled_programming_language_project::ast::BinaryOp::{Add, Div, Mul, Sub};
use untitled_programming_language_project::ast::{BinaryOp, Literal, RawExpr};
use untitled_programming_language_project::error::{Error, EvaluationError};
use untitled_programming_language_project::interner::Interner;
use untitled_programming_language_project::num::Number;
use untitled_programming_language_project::typ;
use untitled_programming_language_project::typ::{Primitive, Type};
use untitled_programming_language_project::values::Val;
use untitled_programming_language_project::{check_types, evaluate, parse};

fn n(x: f64) -> RawExpr {
    RawExpr::Literal(Literal::Num(Number::from_bits(x.to_bits())))
}

/// make a binary op from two expressions.
fn mk_op(l: RawExpr, op: BinaryOp, r: RawExpr) -> RawExpr {
    RawExpr::Op(Box::new(l), op, Box::new(r))
}

fn parse_successfully(input: &str) -> RawExpr {
    *parse(input, &mut Interner::new()).unwrap_or_else(|e| {
        panic!("unexpected parse failure.\ninput: {}\nerror: {:?}", input, e)
    })
}

fn typecheck_successfully(input: &str) -> Type {
    check_types(input, &mut Interner::new()).unwrap_or_else(|e| {
        panic!("unexpected typecheck failure.\ninput: {}\nerror: {:?}", input, e)
    })
}

fn cases() -> Vec<(&'static str, &'static str, RawExpr)> {
    vec![
        ("+ then +", "1 + 2 + 3", mk_op(mk_op(n(1.0), Add, n(2.0)), Add, n(3.0))),
        ("+ then -", "3 + 5 - 4", mk_op(mk_op(n(3.0), Add, n(5.0)), Sub, n(4.0))),
        ("+ then *", "1 + 2 * 3", mk_op(n(1.0), Add, mk_op(n(2.0), Mul, n(3.0)))),
        ("+ then /", "2 + 2 / 2", mk_op(n(2.0), Add, mk_op(n(2.0), Div, n(2.0)))),
        ("- then +", "6 - 2 + 1", mk_op(mk_op(n(6.0), Sub, n(2.0)), Add, n(1.0))),
        ("- then -", "9 - 6 - 8", mk_op(mk_op(n(9.0), Sub, n(6.0)), Sub, n(8.0))),
        ("- then *", "3 - 2 * 1", mk_op(n(3.0), Sub, mk_op(n(2.0), Mul, n(1.0)))),
        ("- then /", "2 - 2 / 2", mk_op(n(2.0), Sub, mk_op(n(2.0), Div, n(2.0)))),
        ("* then +", "1 * 2 + 3", mk_op(mk_op(n(1.0), Mul, n(2.0)), Add, n(3.0))),
        ("* then -", "3 * 5 - 4", mk_op(mk_op(n(3.0), Mul, n(5.0)), Sub, n(4.0))),
        ("* then *", "1 * 2 * 3", mk_op(mk_op(n(1.0), Mul, n(2.0)), Mul, n(3.0))),
        ("* then /", "2 * 2 / 2", mk_op(mk_op(n(2.0), Mul, n(2.0)), Div, n(2.0))),
        ("/ then +", "6 / 2 + 1", mk_op(mk_op(n(6.0), Div, n(2.0)), Add, n(1.0))),
        ("/ then -", "9 / 6 - 8", mk_op(mk_op(n(9.0), Div, n(6.0)), Sub, n(8.0))),
        ("/ then *", "3 / 2 * 1", mk_op(mk_op(n(3.0), Div, n(2.0)), Mul, n(1.0))),
        ("/ then /", "2 / 2 / 2", mk_op(mk_op(n(2.0), Div, n(2.0)), Div, n(2.0))),
        (
            "* then + then *",
            "2 * 2 + 3 * 3",
            mk_op(mk_op(n(2.0), Mul, n(2.0)), Add, mk_op(n(3.0), Mul, n(3.0))),
        ),
        (
            "+ then * then +",
            "2 + 2 * 3 + 3",
            mk_op(mk_op(n(2.0), Add, mk_op(n(2.0), Mul, n(3.0))), Add, n(3.0)),
        ),
        (
            "/ then * then /",
            "2 / 4 * 1 / 3",
            mk_op(mk_op(mk_op(n(2.0), Div, n(4.0)), Mul, n(1.0)), Div, n(3.0)),
        ),
        (
            "parens can force precedence",
            "2 / 4 * (1 / 3)",
            mk_op(mk_op(n(2.0), Div, n(4.0)), Mul, mk_op(n(1.0), Div, n(3.0))),
        ),
    ]
}

fn simple_cases() -> Vec<(&'static str, &'static str, RawExpr)> {
    vec![
        ("addition", "1 + 1", mk_op(n(1.0), BinaryOp::Add, n(1.0))),
        ("subtraction", "99 - 4", mk_op(n(99.0), BinaryOp::Sub, n(4.0))),
        ("multiplication", "-3 * -914", mk_op(n(-3.0), BinaryOp::Mul, n(-914.0))),
        ("division", "4444 / 1111", mk_op(n(4444.0), BinaryOp::Div, n(1111.0))),
    ]
}

#[test]
fn binary_ops_parsing() {
    for (name, input, expected) in simple_cases() {
        let actual = parse_successfully(input);
        assert_eq!(expected, actual, "{}", name)
    }
}

#[test]
fn parser_binary_ops() {
    for (name, input, expected) in simple_cases() {
        let actual = parse_successfully(input);
        assert_eq!(expected, actual, "{}", name)
    }
}

#[test]
fn precedence() {
    for (name, input, expected) in cases() {
        let expr = parse_successfully(input);
        assert_eq!(expected, expr, "{}", name)
    }
}

#[test]
fn operator_precedence() {
    for (name, input, expected) in cases() {
        let expr = parse_successfully(input);
        assert_eq!(expected, expr, "{}", name)
    }
}

#[test]
fn operators_without_blanks() {
    assert_eq!(parse_successfully("1+2*3"), mk_op(n(1.0), Add, mk_op(n(2.0), Mul, n(3.0))));
    assert_eq!(parse_successfully("2-2-2"), mk_op(mk_op(n(2.0), Sub, n(2.0)), Sub, n(2.0)));
}

#[test]
fn binary_ops_typechecking() {
    for (name, input, expected) in [
        ("addition", "1 + 1", Type::num()),
        ("subtraction", "99 - 4", Type::num()),
        ("multiplication", "-3 * -914", Type::num()),
        ("division", "4444 / 1111", Type::num()),
    ] {
        let actual = typecheck_successfully(input);
        assert_eq!(expected, actual, "{}", name)
    }
}

#[test]
fn types_binary_ops() {
    for (name, input, expected) in [
        ("addition", "1 + 1", Type::num()),
        ("subtraction", "99 - 4", Type::num()),
        ("multiplication", "-3 * -914", Type::num()),
        ("division", "4444 / 1111", Type::num()),
    ] {
        let actual = typecheck_successfully(input);
        assert_eq!(expected, actual, "{}", name)
    }
}

#[test]
fn typechecking_fail() {
    let mismatch = || typ::Error::Mismatch {
        got: Type::Primitive(Primitive::Unit),
        expected: Type::Primitive(Primitive::Num),
    };
    for (name, input, expected) in
        [("non-Num rhs", "1 + ()", mismatch()), ("non-Num lhs", "() / 9", mismatch())]
    {
        let actual = check_types(input, &mut Interner::new());
        assert_eq!(Err(Error::TypeError(expected)), actual, "{}", name)
    }
}

fn v(x: f64) -> Val {
    Val::Num(Number::from_bits(x.to_bits()))
}

#[test]
fn binary_ops_evaluation() {
    for (name, input, expected) in [
        ("simple addition", "1 + 1", Ok(v(2.0))),
        ("neg addition", "-9 + -44", Ok(v(-53.0))),
        ("simple subtraction", "5 - 3", Ok(v(2.0))),
        ("neg subtraction", "-24 - -4", Ok(v(-20.0))),
        ("simple multiplication", "33 * 3", Ok(v(99.0))),
        ("neg multiplication", "-44 * -4", Ok(v(176.0))),
        ("simple divion", "4 / 2", Ok(v(2.0))),
        ("negative divion", "-99 / -3", Ok(v(33.0))),
        (
            "division by zero",
            "0 / 0",
            Err(Error::EvaluationError(EvaluationError::DivisionByZero)),
        ),
    ] {
        let actual = evaluate(input, &mut Interner::new());
        assert_eq!(expected, actual, "{}", name)
    }
}
