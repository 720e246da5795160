use untitled_programming_language_project::ast::Literal;
use untitled_programming_language_project::check_types;
use untitled_programming_language_project::error::{Error, EvaluationError, ParseError};
use untitled_programming_language_project::evaluate;
use untitled_programming_language_project::interner::{Id, Interner};
use untitled_programming_language_project::num::Number;
use untitled_programming_language_project::typ;
use untitled_programming_language_project::typ::{Primitive, Type};
use untitled_programming_language_project::values::Val;

fn num(n: f64) -> Val {
    Val::Num(Number::from_bits(n.to_bits()))
}

fn value(input: &str) -> Result<Val, Error> {
    evaluate(input, &mut Interner::new())
}

fn type_of(input: &str) -> Result<Type, Error> {
    check_types(input, &mut Interner::new())
}

#[test]
fn arithmetic_follows_precedence() {
    assert_eq!(value("99 + 105 * 22 / 4"), Ok(num(676.5)));
    assert_eq!(type_of("99 + 105 * 22 / 4"), Ok(Type::num()));
}

#[test]
fn nested_lets_add_up() {
    assert_eq!(value("let x = 1 in let y = 2 in x + y"), Ok(num(3.0)));
    assert_eq!(type_of("let x = 1 in let y = 2 in x + y"), Ok(Type::num()));
}

#[test]
fn identity_function_applies() {
    assert_eq!(value("let id = |x| x in id 42"), Ok(num(42.0)));
    assert_eq!(type_of("let id = |x| x in id 42"), Ok(Type::num()));
}

#[test]
fn recursive_factorial() {
    let program = "let rec f = |n| if n == 0 then 1 else n * f (n - 1) in f 5";
    assert_eq!(value(program), Ok(num(120.0)));
}

#[test]
fn adding_unit_is_a_mismatch() {
    let expected = typ::Error::Mismatch {
        got: Type::Primitive(Primitive::Unit),
        expected: Type::Primitive(Primitive::Num),
    };
    assert_eq!(type_of("1 + ()"), Err(Error::TypeError(expected)));
}

#[test]
fn binding_is_not_in_scope_of_itself() {
    let mut names = Interner::new();
    let result = check_types("let x = x in x", &mut names);
    let x = Id::new(&mut names, "x");
    assert_eq!(result, Err(Error::ParseError(ParseError::UnboundIdentifier { ident: x })));
    assert_eq!(x.name(&names), "x");
}

#[test]
fn division_by_zero_is_refused() {
    assert_eq!(value("10 / 0"), Err(Error::EvaluationError(EvaluationError::DivisionByZero)));
}

#[test]
fn functions_are_not_compared() {
    assert_eq!(
        value("(|x| x) == (|x| x)"),
        Err(Error::EvaluationError(EvaluationError::IllegalEquality))
    );
}

#[test]
fn tail_calls_do_not_grow_the_stack() {
    let program = "let rec f = |n| if n == 0 then 0 else f (n - 1) in f 100000";
    assert_eq!(value(program), Ok(num(0.0)));
}

#[test]
fn literal_kinds() {
    assert_eq!(Val::from_literal(Literal::Unit), Val::Unit);
    assert_eq!(value("true && false"), Ok(Val::Bool(false)));
    assert_eq!(value("()"), Ok(Val::Unit));
}
