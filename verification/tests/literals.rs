use rand::Rng;
use untitled_programming_language_project::ast::{Literal, RawExpr};
use untitled_programming_language_project::interner::Interner;
use untitled_programming_language_project::num::Number;
use untitled_programming_language_project::typ::Type;
use untitled_programming_language_project::values::Val;
use untitled_programming_language_project::{check_types, evaluate, parse};

fn bits(x: f64) -> Number {
    Number::from_bits(x.to_bits())
}

fn parsed(input: &str) -> RawExpr {
    *parse(input, &mut Interner::new()).unwrap_or_else(|e| {
        panic!("unexpected parse failure.\ninput: {}\nerror: {:?}", input, e)
    })
}

fn typed(input: &str) -> Type {
    check_types(input, &mut Interner::new())
        .unwrap_or_else(|e| panic!("unexpected failure.\ninput: {}\nerror: {:?}", input, e))
}

fn evaluated(input: &str) -> Val {
    evaluate(input, &mut Interner::new()).unwrap_or_else(|e| {
        panic!("unexpected evaluation failure.\ninput: {}\nerror: {:?}", input, e)
    })
}

#[test]
fn number_literal() {
    let mut rng = rand::thread_rng();

    let mut ns = [0i32; 128];
    rng.fill(&mut ns);

    for n in ns {
        let input = format!("{}", n);
        let expr = parsed(input.as_str());
        assert_eq!(RawExpr::Literal(Literal::Num(bits(n as f64))), expr)
    }
}

#[test]
fn number_literals() {
    let mut rng = rand::thread_rng();

    let mut ns = [0i32; 128];
    rng.fill(&mut ns);

    for n in ns {
        let input = format!("{}", n);
        let ty = typed(input.as_str());
        assert_eq!(Type::num(), ty)
    }
}

#[test]
fn unit_parsing() {
    assert_eq!(RawExpr::Literal(Literal::Unit), parsed("()"))
}

#[test]
fn unit_typechecking() {
    assert_eq!(Type::unit(), typed("()"))
}

#[test]
fn evalutation() {
    assert_eq!(Val::Unit, evaluated("()"))
}

fn finite_samples() -> Vec<f64> {
    let mut samples = vec![
        0.0,
        1.0,
        -1.0,
        0.1,
        -0.1,
        676.5,
        1.0e-7,
        123456789.125,
        f64::MAX,
        f64::MIN,
        f64::MIN_POSITIVE,
        5e-324,
        9007199254740993.0,
        0.30000000000000004,
        1.7976931348623157e308,
    ];
    let mut rng = rand::thread_rng();
    for _ in 0..200 {
        let x = f64::from_bits(rng.gen::<u64>());
        if x.is_finite() {
            samples.push(x);
        }
    }
    samples
}

#[test]
fn every_finite_literal_parses_to_itself() {
    for x in finite_samples() {
        let input = format!("{}", x);
        assert_eq!(RawExpr::Literal(Literal::Num(bits(x))), parsed(input.as_str()), "{}", input);
    }
}

#[test]
fn every_finite_literal_has_type_num() {
    for x in finite_samples() {
        let input = format!("{}", x);
        assert_eq!(Type::num(), typed(input.as_str()), "{}", input);
    }
}

#[test]
fn every_finite_literal_evaluates_to_itself() {
    for x in finite_samples() {
        let input = format!("{}", x);
        let value = evaluated(input.as_str());
        assert_eq!(Val::Num(bits(x)), value, "{}", input);
        match value {
            Val::Num(n) => assert_eq!(f64::from_bits(n.to_bits()), x),
            other => panic!("not a number: {:?}", other),
        }
    }
}

#[test]
fn value_literals_round_trip() {
    assert_eq!(evaluated("true"), Val::Bool(true));
    assert_eq!(evaluated("false"), Val::Bool(false));
    assert_eq!(evaluated("()"), Val::Unit);
    assert_eq!(evaluated("12.5"), Val::Num(bits(12.5)));
    assert_eq!(evaluated("-3"), Val::Num(bits(-3.0)));
    assert!(matches!(evaluated("|x| x"), Val::Closure { .. }));
}
