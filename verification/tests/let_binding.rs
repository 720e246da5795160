use untitled_programming_language_project::ast::{BinaryOp, Literal, RawExpr};
use untitled_programming_language_project::error::{Error, ParseError};
use untitled_programming_language_project::interner::{Id, Interner};
use untitled_programming_language_project::num::Number;
use untitled_programming_language_project::typ::Type;
use untitled_programming_language_project::values::Val;
use untitled_programming_language_project::{check_types, evaluate, parse};

fn number(x: f64) -> RawExpr {
    RawExpr::Literal(Literal::Num(Number::from_bits(x.to_bits())))
}

fn unit() -> RawExpr {
    RawExpr::Literal(Literal::Unit)
}

fn mk_let(ident: Id, binding: RawExpr, body: RawExpr) -> RawExpr {
    RawExpr::Let(false, ident, Box::new(binding), Box::new(body))
}

fn var(id: Id) -> RawExpr {
    RawExpr::Var(id)
}

#[test]
fn let_binding_parsing() {
    let mut names = Interner::new();
    let x = Id::new(&mut names, "x");
    let y = Id::new(&mut names, "y");
    let hello = Id::new(&mut names, "hello");
    let a = Id::new(&mut names, "_a");
    let n0 = Id::new(&mut names, "n0");
    for (name, input, expected) in [
        ("simple Num", "let x = 1 in x", mk_let(x, number(1.0), var(x))),
        ("unused binding", "let hello = () in ()", mk_let(hello, unit(), unit())),
        (
            "nested",
            "let x = 1 in let y = 2 in x + y",
            mk_let(
                x,
                number(1.0),
                mk_let(
                    y,
                    number(2.0),
                    RawExpr::Op(Box::new(var(x)), BinaryOp::Add, Box::new(var(y))),
                ),
            ),
        ),
        ("ident starting with underscore", "let _a = 1 in _a", mk_let(a, number(1.0), var(a))),
        ("ident with numbers", "let n0 = 100 in n0", mk_let(n0, number(100.0), var(n0))),
    ] {
        let actual = *parse(input, &mut names).unwrap_or_else(|e| {
            panic!("unexpected parse failure.\ninput: {}\nerror: {:?}", input, e)
        });
        assert_eq!(expected, actual, "{}", name)
    }
}

#[test]
fn invalid_identifiers() {
    for invalid_ident in ["!no", "99invalid", "___", "-buuuu", "?que", "$nah"] {
        let expr = format!("let {} = 1 in {}", invalid_ident, invalid_ident);
        let result = parse(&expr, &mut Interner::new());
        assert!(result.is_err())
    }
}

#[test]
fn typecheck() {
    for (name, input, expected) in [
        ("num binding", "let x = 0 in x", Type::num()),
        ("unit binding", "let no = () in no", Type::unit()),
        ("unused binding doesn't impact type", "let unused = 55 in ()", Type::unit()),
        ("shadowing with a different type", "let one = () in let one = 1 in one", Type::num()),
    ] {
        let actual = check_types(input, &mut Interner::new()).unwrap_or_else(|e| {
            panic!("unexpected typecheck failure.\ninput: {}\nerror: {:?}", input, e)
        });
        assert_eq!(expected, actual, "{}", name)
    }
}

fn val(x: f64) -> Val {
    Val::Num(Number::from_bits(x.to_bits()))
}

#[test]
fn let_binding_evaluation() {
    for (name, input, expected) in [
        ("num", "let x = -110 in x", val(-110.0)),
        ("unit", "let eep = () in eep", Val::Unit),
        ("unused binding doesn't impact value", "let unused = () in 45", val(45.0)),
        ("nested bindings", "let a = -100 in let b = 100 in a + b", val(0.0)),
        ("name shadowing", "let a = 10 in let a = 20 in a", val(20.0)),
    ] {
        let actual = evaluate(input, &mut Interner::new()).unwrap_or_else(|e| {
            panic!("unexpected evaluation failure.\ninput: {}\nerror: {:?}", input, e)
        });
        assert_eq!(expected, actual, "{}", name)
    }
}

#[test]
fn recursive_let_is_not_supported() {
    let mut names = Interner::new();
    let result = check_types("let x = x in x", &mut names);
    let expected = Error::ParseError(ParseError::UnboundIdentifier { ident: Id::new(&mut names, "x") });
    assert_eq!(Err(expected), result)
}
