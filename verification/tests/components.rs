use untitled_programming_language_project::ast::{BinaryOp, Expr, Literal, RawExpr, RawIdent};
use untitled_programming_language_project::env::{Env, Store};
use untitled_programming_language_project::error::{
    Error, EvaluationError, ParseError, Rejection, Tok,
};
use untitled_programming_language_project::interner::{Id, Interner};
use untitled_programming_language_project::lexer::{chars_of, lex, Source, Token, TokenKind};
use untitled_programming_language_project::parser::{parse_text, Parser};
use untitled_programming_language_project::num::Number;
use untitled_programming_language_project::scopes::ScopeChecker;
use untitled_programming_language_project::typ;
use untitled_programming_language_project::typ::check::{er, TypeChecker};
use untitled_programming_language_project::typ::checker::{
    check_type, contravariant_subtype, covariant_subtype, instantiate_l, instantiate_r, subtype,
    synthesize_type, State,
};
use untitled_programming_language_project::typ::ctx::{Ctx, Element};
use untitled_programming_language_project::typ::rules::{Variance, DEPTH_LIMIT};
use untitled_programming_language_project::typ::{Existential, Primitive, Type};
use untitled_programming_language_project::values::Val;
use untitled_programming_language_project::vm::compiler::Compiler;
use untitled_programming_language_project::vm::stack::Stack;
use untitled_programming_language_project::vm::{binary, Marker, Op, VirtualMachine};

fn d(x: f64) -> Number {
    Number::from_bits(x.to_bits())
}

fn lit(x: f64) -> Expr {
    Expr::Literal(Literal::Num(d(x)))
}

fn code(ops: Vec<Op>) -> Stack<Op> {
    Stack::from_stacked_vec(ops)
}

fn ex(n: usize) -> Type {
    Type::Existential(Existential(n))
}

// ---- numbers ----

#[test]
fn numbers_are_compared_as_doubles() {
    assert!(d(1.5) == d(1.5));
    assert!(d(0.0) == d(-0.0));
    assert!(d(1.0) != d(2.0));
    assert!(d(f64::NAN) != d(f64::NAN));
    assert!(d(f64::INFINITY) == d(f64::INFINITY));
    assert!(d(f64::INFINITY) != d(f64::NEG_INFINITY));
    assert!(d(0.0).is_zero() && d(-0.0).is_zero() && !d(5e-324).is_zero());
    assert!(d(f64::NAN).is_nan() && !d(f64::INFINITY).is_nan() && !d(1.0).is_nan());
    assert_eq!(d(1.0).to_bits(), 0x3ff0_0000_0000_0000);
}

#[test]
fn number_arithmetic_agrees_with_the_hardware() {
    let samples = [
        0.0, -0.0, 1.0, -1.0, 0.1, 0.2, 3.0, 1e308, -1e308, 5e-324, 2.2250738585072014e-308,
        123456789.123456789, f64::INFINITY, f64::NEG_INFINITY, 0.30000000000000004, 9007199254740993.0,
    ];
    for a in samples {
        for b in samples {
            let same = |got: Number, want: f64| {
                (want.is_nan() && got.is_nan()) || got.to_bits() == want.to_bits()
            };
            assert!(same(d(a).plus(d(b)), a + b), "{} + {}", a, b);
            assert!(same(d(a).minus(d(b)), a - b), "{} - {}", a, b);
            assert!(same(d(a).times(d(b)), a * b), "{} * {}", a, b);
            assert!(same(d(a).divided_by(d(b)), a / b), "{} / {}", a, b);
        }
    }
}

#[test]
fn numbers_are_read_from_decimal_text() {
    assert_eq!(Number::from_text("128").map(|n| n.to_bits()), Some(128.0f64.to_bits()));
    assert_eq!(Number::from_text("-0.5").map(|n| n.to_bits()), Some((-0.5f64).to_bits()));
    assert_eq!(Number::from_text("0.1").map(|n| n.to_bits()), Some(0.1f64.to_bits()));
    assert!(Number::from_text("").is_none());
    assert!(Number::from_text("abc").is_none());
    assert!(Number::from_text("1.2.3").is_none());
}

// ---- interner ----

#[test]
fn interning_is_idempotent_and_injective() {
    let mut names = Interner::new();
    let a = names.intern("alpha");
    let b = names.intern("beta");
    let a2 = names.intern("alpha");
    assert_eq!(a, a2);
    assert_ne!(a, b);
    assert_eq!(names.len(), 2);
    assert_eq!(names.lookup(a), "alpha");
    assert_eq!(names.lookup(b), "beta");
    assert_eq!(a.name(&names), "alpha");
    let empty = Id::new(&mut names, "");
    assert_eq!(empty.name(&names), "");
    assert_eq!(names.len(), 3);
    assert_eq!(Id::new(&mut names, "beta"), b);
}

// ---- environment ----

#[test]
fn lookup_counts_from_the_newest_binding() {
    let mut env: Env<u32> = Env::new();
    assert_eq!(env.lookup(0), None);
    for v in [10, 20, 30] {
        env.bind(v);
    }
    assert_eq!(env.lookup(0), Some(&30));
    assert_eq!(env.lookup(1), Some(&20));
    assert_eq!(env.lookup(2), Some(&10));
    assert_eq!(env.lookup(3), None);
    assert_eq!(env.current_len(), 3);
    env.unbind();
    assert_eq!(env.lookup(0), Some(&20));
    assert_eq!(env.lookup(2), None);
}

#[test]
fn a_snapshot_keeps_lookups_and_separates_the_branches() {
    let mut env: Env<u32> = Env::new();
    env.bind(1);
    env.bind(2);
    let mut copy = env.snapshot();
    assert_eq!(env.current_len(), 0);
    assert_eq!(copy.current_len(), 0);
    for (i, v) in [(0, Some(&2)), (1, Some(&1)), (2, None)] {
        assert_eq!(env.lookup(i), v);
        assert_eq!(copy.lookup(i), v);
    }
    env.bind(3);
    assert_eq!(env.lookup(0), Some(&3));
    assert_eq!(env.lookup(1), Some(&2));
    assert_eq!(copy.lookup(0), Some(&2));
    assert_eq!(copy.lookup(2), None);
    copy.bind(4);
    copy.bind(5);
    assert_eq!(copy.lookup(0), Some(&5));
    assert_eq!(copy.lookup(2), Some(&2));
    assert_eq!(env.lookup(0), Some(&3));
    assert_eq!(env.lookup(2), Some(&1));
    let second = copy.snapshot();
    assert_eq!(second.lookup(3), Some(&1));
    let same = second.duplicate();
    assert_eq!(same.lookup(0), Some(&5));
    assert!(same == second);
}

#[test]
fn the_newest_binding_is_dropped_from_any_layer() {
    let mut env: Env<u32> = Env::new();
    env.drop_newest();
    assert_eq!(env.lookup(0), None);
    for v in [1, 2, 3] {
        env.bind(v);
    }
    let kept = env.snapshot();
    env.drop_newest();
    assert_eq!(env.current_len(), 0);
    assert_eq!(env.lookup(0), Some(&2));
    assert_eq!(env.lookup(1), Some(&1));
    assert_eq!(env.lookup(2), None);
    assert_eq!(kept.lookup(0), Some(&3));
    env.bind(9);
    env.drop_newest();
    assert_eq!(env.lookup(0), Some(&2));
    let _ = env.snapshot();
    env.drop_newest();
    env.drop_newest();
    assert_eq!(env.lookup(0), None);
    env.drop_newest();
    assert_eq!(env.lookup(0), None);
    assert_eq!(kept.lookup(2), Some(&1));
}

#[test]
fn the_first_match_is_the_newest() {
    let mut env: Env<u32> = Env::new();
    for v in [7, 8, 7] {
        env.bind(v);
    }
    let _ = env.snapshot();
    env.bind(9);
    assert_eq!(env.position_of_first_match(&|v: &u32| *v == 7), Some(1));
    assert_eq!(env.position_of_first_match(&|v: &u32| *v == 8), Some(2));
    assert_eq!(env.position_of_first_match(&|v: &u32| *v == 9), Some(0));
    assert_eq!(env.position_of_first_match(&|v: &u32| *v == 1), None);
}

#[test]
fn cells_are_shared_between_environments() {
    let mut store: Store<u32> = Store::new();
    let mut env: Env<usize> = Env::new();
    let a = store.allocate(0);
    env.bind(a);
    let b = store.allocate(5);
    env.bind(b);
    let copy = env.snapshot();
    let c = store.allocate(0);
    env.bind(c);
    assert_eq!(env.update_first_match(&mut store, 42, |v: &u32| *v == 0), Some(c));
    assert_eq!(store.get(c), Some(&42));
    assert_eq!(store.get(a), Some(&0));
    assert_eq!(env.update_first_match(&mut store, 43, |v: &u32| *v == 0), Some(a));
    assert_eq!(copy.lookup(1).and_then(|cell| store.get(*cell)), Some(&43));
    assert_eq!(env.update_first_match(&mut store, 44, |v: &u32| *v == 0), None);
    env.update(&mut store, 1, 6);
    assert_eq!(store.get(b), Some(&6));
    assert_eq!(copy.lookup(0).and_then(|cell| store.get(*cell)), Some(&6));
    env.update(&mut store, 9, 1);
    assert_eq!(store.len(), 3);
    assert_eq!(store.get(3), None);
}

// ---- syntax ----

#[test]
fn applications_and_functions_are_chains() {
    let mut names = Interner::new();
    let f = RawExpr::make_var(&mut names, RawIdent::from("f"));
    let args = vec![
        RawExpr::Literal(Literal::Num(d(1.0))),
        RawExpr::Literal(Literal::Bool(true)),
    ];
    let app = RawExpr::make_app(f, args);
    let f_id = names.intern("f");
    assert_eq!(
        *app,
        RawExpr::App(
            Box::new(RawExpr::App(
                Box::new(RawExpr::Var(f_id)),
                Box::new(RawExpr::Literal(Literal::Num(d(1.0))))
            )),
            Box::new(RawExpr::Literal(Literal::Bool(true)))
        )
    );
    let params = vec![(RawIdent::from("x"), None), (RawIdent::from("y"), Some(Type::num()))];
    let lambda = RawExpr::make_lambda(&mut names, params, Box::new(RawExpr::Literal(Literal::Unit)));
    let x = names.intern("x");
    let y = names.intern("y");
    assert_eq!(
        *lambda,
        RawExpr::Lambda(
            x,
            None,
            Box::new(RawExpr::Lambda(
                y,
                Some(Type::num()),
                Box::new(RawExpr::Literal(Literal::Unit))
            ))
        )
    );
    let bound = RawExpr::make_let(
        &mut names,
        true,
        RawIdent::from("x"),
        Box::new(RawExpr::Var(x)),
        Box::new(RawExpr::Var(y)),
    );
    assert_eq!(
        *bound,
        RawExpr::Let(true, x, Box::new(RawExpr::Var(x)), Box::new(RawExpr::Var(y)))
    );
    assert_eq!(BinaryOp::And.symbol(), "&&");
    assert_eq!(BinaryOp::Div.symbol(), "/");
}

#[test]
fn variables_get_the_index_of_their_binder() {
    let mut names = Interner::new();
    let x = names.intern("x");
    let y = names.intern("y");
    let var = |id| Box::new(RawExpr::Var(id));
    // |x| |y| let x = y in x y
    let raw = RawExpr::Lambda(
        x,
        None,
        Box::new(RawExpr::Lambda(
            y,
            None,
            Box::new(RawExpr::Let(
                false,
                x,
                var(y),
                Box::new(RawExpr::App(var(x), var(y))),
            )),
        )),
    );
    let checked = ScopeChecker::new().check(raw).unwrap();
    let expected = Expr::Lambda(
        x,
        None,
        Box::new(Expr::Lambda(
            y,
            None,
            Box::new(Expr::Let(
                false,
                x,
                Box::new(Expr::Var(y, 0)),
                Box::new(Expr::App(Box::new(Expr::Var(x, 0)), Box::new(Expr::Var(y, 1)))),
            )),
        )),
    );
    assert_eq!(checked, expected);

    let mut checker = ScopeChecker::new();
    let rec = RawExpr::Let(true, x, var(x), var(x));
    assert_eq!(
        checker.check(rec),
        Ok(Expr::Let(true, x, Box::new(Expr::Var(x, 0)), Box::new(Expr::Var(x, 0))))
    );
    // the binders of a let are gone after it
    assert_eq!(
        checker.check(RawExpr::Var(x)),
        Err(Error::ParseError(ParseError::UnboundIdentifier { ident: x }))
    );
    let first_unbound = RawExpr::Op(var(y), BinaryOp::Add, var(x));
    assert_eq!(
        checker.check(first_unbound),
        Err(Error::ParseError(ParseError::UnboundIdentifier { ident: y }))
    );
}

// ---- typing context ----

#[test]
fn context_edits() {
    let x = Id(0);
    let tv = |t: Type| Element::TypedVariable(x, t);
    let build = || {
        Ctx::new()
            .add(Element::Existential(Existential(0)))
            .add(tv(Type::num()))
            .add(Element::Solved(Existential(1), Type::bool()))
            .add(tv(Type::num()))
            .add(Element::Existential(Existential(2)))
    };
    let ctx = build();
    assert_eq!(ctx.len(), 5);
    let (left, right) = ctx.split_at(&tv(Type::num())).unwrap();
    assert_eq!(left.len(), 3);
    assert_eq!(right.len(), 2);
    assert_eq!(
        right,
        Ctx::new().add(tv(Type::num())).add(Element::Existential(Existential(2)))
    );
    assert!(matches!(
        ctx.split_at(&Element::Existential(Existential(9))),
        Err(typ::Error::Internal(_))
    ));
    let dropped = build().drop(&tv(Type::num())).unwrap();
    assert_eq!(
        dropped,
        Ctx::new()
            .add(Element::Existential(Existential(0)))
            .add(tv(Type::num()))
            .add(Element::Solved(Existential(1), Type::bool()))
    );
    assert!(matches!(build().drop(&tv(Type::bool())), Err(typ::Error::Internal(_))));
    let replaced = build()
        .insert_in_place(
            Element::Existential(Existential(0)),
            vec![
                Element::Existential(Existential(3)),
                Element::Solved(Existential(0), ex(3)),
            ],
        )
        .unwrap();
    assert_eq!(replaced.len(), 6);
    assert_eq!(replaced.get_solved(&Existential(0)), Some(&ex(3)));
    assert!(replaced.has_existential(&Existential(3)));
    assert!(!replaced.has_existential(&Existential(0)));
    let removed = build().insert_in_place(tv(Type::num()), vec![]).unwrap();
    assert_eq!(removed.len(), 4);
    assert_eq!(removed.get_annotation(x), Ok(&Type::num()));
    assert!(matches!(
        build().insert_in_place(Element::Existential(Existential(7)), vec![]),
        Err(typ::Error::Internal(_))
    ));
    assert_eq!(ctx.get_solved(&Existential(1)), Some(&Type::bool()));
    assert_eq!(ctx.get_solved(&Existential(0)), None);
    assert!(ctx.has_existential(&Existential(2)));
    assert!(!ctx.has_existential(&Existential(1)));
    assert_eq!(ctx.get_annotation(Id(5)), Err(typ::Error::UnboundVariable(Id(5))));
    assert_eq!(ctx.check_type_well_formed(&Type::arrow(ex(0), ex(1))), Ok(()));
    assert_eq!(
        ctx.check_type_well_formed(&Type::arrow(Type::arrow(ex(2), ex(8)), ex(9))),
        Err(typ::Error::IllFormedType(ex(8)))
    );
}

#[test]
fn the_newest_element_shadows() {
    let x = Id(3);
    let ctx = Ctx::new()
        .add(Element::TypedVariable(x, Type::unit()))
        .add(Element::Solved(Existential(0), Type::num()))
        .add(Element::TypedVariable(x, Type::num()))
        .add(Element::Solved(Existential(0), Type::bool()));
    assert_eq!(ctx.get_annotation(x), Ok(&Type::num()));
    assert_eq!(ctx.get_solved(&Existential(0)), Some(&Type::bool()));
    assert_eq!(ex(0).apply(&ctx), Ok(Type::bool()));
}

#[test]
fn applying_a_context_follows_solutions() {
    let ctx = Ctx::new()
        .add(Element::Solved(Existential(0), Type::num()))
        .add(Element::Solved(Existential(1), Type::arrow(ex(0), ex(2))))
        .add(Element::Existential(Existential(2)));
    assert_eq!(
        Type::arrow(ex(1), Type::bool()).apply(&ctx),
        Ok(Type::arrow(Type::arrow(Type::num(), ex(2)), Type::bool()))
    );
    assert_eq!(ex(7).apply(&ctx), Ok(ex(7)));
    let circle = Ctx::new()
        .add(Element::Solved(Existential(0), ex(1)))
        .add(Element::Solved(Existential(1), Type::arrow(Type::num(), ex(0))));
    assert!(matches!(ex(0).apply(&circle), Err(typ::Error::Internal(_))));
    assert_eq!(Type::num().apply(&circle), Ok(Type::num()));
}

// ---- inference rules ----

#[test]
fn subtyping_solves_existentials_in_place() {
    let start = || {
        Ctx::new()
            .add(Element::Existential(Existential(0)))
            .add(Element::TypedVariable(Id(0), ex(0)))
            .add(Element::Existential(Existential(1)))
    };
    let mut state = State::new();
    let solved = covariant_subtype(&mut state, start(), &ex(0), &Type::num()).unwrap();
    assert_eq!(
        solved,
        Ctx::new()
            .add(Element::Solved(Existential(0), Type::num()))
            .add(Element::TypedVariable(Id(0), ex(0)))
            .add(Element::Existential(Existential(1)))
    );
    let solved = covariant_subtype(&mut state, start(), &Type::bool(), &ex(1)).unwrap();
    assert_eq!(solved.get_solved(&Existential(1)), Some(&Type::bool()));
    assert_eq!(solved.len(), 3);
    // the newer existential is solved to the older one, whichever side it is on
    let solved = covariant_subtype(&mut state, start(), &ex(0), &ex(1)).unwrap();
    assert_eq!(solved.get_solved(&Existential(1)), Some(&ex(0)));
    let solved = covariant_subtype(&mut state, start(), &ex(1), &ex(0)).unwrap();
    assert_eq!(solved.get_solved(&Existential(1)), Some(&ex(0)));
    assert_eq!(covariant_subtype(&mut state, start(), &ex(0), &ex(0)), Ok(start()));
    assert_eq!(
        covariant_subtype(&mut state, start(), &Type::num(), &Type::bool()),
        Err(typ::Error::Mismatch { got: Type::num(), expected: Type::bool() })
    );
    assert_eq!(
        contravariant_subtype(&mut state, start(), &Type::num(), &Type::bool()),
        Err(typ::Error::Mismatch { got: Type::bool(), expected: Type::num() })
    );
    assert_eq!(
        covariant_subtype(&mut state, start(), &ex(5), &Type::num()),
        Err(typ::Error::IllFormedType(ex(5)))
    );
    assert_eq!(
        covariant_subtype(&mut state, start(), &Type::num(), &Type::arrow(Type::num(), ex(6))),
        Err(typ::Error::IllFormedType(ex(6)))
    );
    assert!(matches!(
        subtype(&mut state, start(), &ex(0), &Type::num(), Variance::Covariant, 0),
        Err(typ::Error::Internal(_))
    ));
    assert!(matches!(
        subtype(&mut state, start(), &ex(0), &Type::num(), Variance::Covariant, 1),
        Err(typ::Error::Internal(_))
    ));
    assert!(subtype(&mut state, start(), &ex(0), &Type::num(), Variance::Covariant, 2).is_ok());
}

#[test]
fn instantiating_to_an_arrow_splits_the_existential() {
    let start = || {
        Ctx::new()
            .add(Element::Existential(Existential(0)))
            .add(Element::Existential(Existential(1)))
    };
    let mut state = State::new();
    let _ = state.fresh_existential();
    let _ = state.fresh_existential();
    // ?1 is not known to the left of ?0, so ?0 cannot be solved to ?1 -> Num at once
    let target = Type::arrow(ex(1), Type::num());
    let ctx = instantiate_l(&mut state, start(), Existential(0), &target, DEPTH_LIMIT).unwrap();
    assert_eq!(ex(0).apply(&ctx), Ok(Type::arrow(ex(2), Type::num())));
    assert_eq!(ex(1).apply(&ctx), Ok(ex(2)));
    assert_eq!(state.fresh_existential(), Ok(Existential(4)));

    let mut state = State::new();
    let _ = state.fresh_existential();
    let _ = state.fresh_existential();
    let ctx = instantiate_r(&mut state, start(), &target, Existential(0), DEPTH_LIMIT).unwrap();
    assert_eq!(ex(0).apply(&ctx), Ok(Type::arrow(ex(2), Type::num())));
    assert_eq!(ex(1).apply(&ctx), Ok(ex(2)));
    assert_eq!(
        ctx,
        Ctx::new()
            .add(Element::Solved(Existential(3), Type::num()))
            .add(Element::Existential(Existential(2)))
            .add(Element::Solved(Existential(0), Type::arrow(ex(2), ex(3))))
            .add(Element::Solved(Existential(1), ex(2)))
    );
    assert!(matches!(
        instantiate_l(&mut State::new(), start(), Existential(9), &Type::num(), DEPTH_LIMIT),
        Err(typ::Error::Internal(_))
    ));
    assert!(matches!(
        instantiate_r(&mut State::new(), start(), &Type::num(), Existential(9), DEPTH_LIMIT),
        Err(typ::Error::Internal(_))
    ));
}

#[test]
fn synthesis_and_checking() {
    let x = Id(0);
    let id = Expr::Lambda(x, None, Box::new(Expr::Var(x, 0)));
    let mut state = State::new();
    let (t, ctx) = synthesize_type(&mut state, Ctx::new(), &id).unwrap();
    assert_eq!(t, Type::arrow(ex(0), ex(1)));
    assert_eq!(
        ctx,
        Ctx::new()
            .add(Element::Existential(Existential(0)))
            .add(Element::Solved(Existential(1), ex(0)))
            .add(Element::TypedVariable(x, ex(0)))
    );
    let ctx = check_type(&mut State::new(), Ctx::new(), &id, &Type::arrow(Type::num(), Type::num()))
        .unwrap();
    assert_eq!(ctx, Ctx::new());
    assert_eq!(
        check_type(&mut State::new(), Ctx::new(), &lit(1.0), &Type::bool()),
        Err(typ::Error::Mismatch { got: Type::num(), expected: Type::bool() })
    );
    assert_eq!(
        check_type(&mut State::new(), Ctx::new(), &lit(1.0), &ex(3)),
        Err(typ::Error::IllFormedType(ex(3)))
    );
    assert_eq!(
        synthesize_type(&mut State::new(), Ctx::new(), &Expr::Var(x, 0)).map(|p| p.0),
        Err(typ::Error::UnboundVariable(x))
    );
    let ascribed = Expr::Ascribed(Box::new(lit(1.0)), ex(0));
    assert_eq!(
        synthesize_type(&mut State::new(), Ctx::new(), &ascribed).map(|p| p.0),
        Err(typ::Error::IllFormedType(ex(0)))
    );
    let annotated = Expr::Lambda(x, Some(ex(4)), Box::new(Expr::Var(x, 0)));
    assert_eq!(
        synthesize_type(&mut State::new(), Ctx::new(), &annotated).map(|p| p.0),
        Err(typ::Error::IllFormedType(ex(4)))
    );
    let applied = Expr::App(Box::new(Expr::Literal(Literal::Unit)), Box::new(lit(1.0)));
    assert_eq!(typ::infer(&applied), Err(typ::Error::InvalidApplication(Type::unit())));
}

#[test]
fn a_checker_keeps_counting() {
    let x = Id(0);
    let id = Expr::Lambda(x, None, Box::new(Expr::Var(x, 0)));
    let mut checker: TypeChecker = er();
    assert_eq!(checker.infer(&id), Ok(Type::arrow(ex(0), ex(0))));
    assert_eq!(checker.infer(&id), Ok(Type::arrow(ex(2), ex(2))));
    assert_eq!(TypeChecker::new().infer(&lit(2.0)), Ok(Type::num()));
    assert_eq!(typ::infer(&id), Ok(Type::arrow(ex(0), ex(0))));
    assert_eq!(Type::bool(), Type::Primitive(Primitive::Bool));
    assert!(Type::arrow(Type::num(), ex(1)).same(&Type::arrow(Type::num(), ex(1))));
    assert!(!Type::arrow(Type::num(), ex(1)).same(&Type::arrow(Type::num(), ex(2))));
    assert_eq!(Type::arrow(Type::num(), ex(1)).duplicate(), Type::arrow(Type::num(), ex(1)));
}

// ---- compiler ----

#[test]
fn code_is_emitted_in_reverse() {
    let x = Id(0);
    let one = || Op::Const(Val::Num(d(1.0)));
    let two = || Op::Const(Val::Num(d(2.0)));
    let sum = Expr::Op(Box::new(lit(1.0)), BinaryOp::Add, Box::new(lit(2.0)));
    assert_eq!(Compiler::new().compile(&sum), code(vec![Op::Binary(BinaryOp::Add), two(), one()]));

    let choice = Expr::IfThenElse(
        Box::new(Expr::Literal(Literal::Bool(true))),
        Box::new(lit(1.0)),
        Box::new(lit(2.0)),
    );
    assert_eq!(
        Compiler::new().compile(&choice),
        code(vec![
            Op::Sel(code(vec![Op::Join(), one()]), code(vec![Op::Join(), two()])),
            Op::Const(Val::Bool(true)),
        ])
    );

    let bound = Expr::Let(false, x, Box::new(lit(1.0)), Box::new(Expr::Var(x, 0)));
    assert_eq!(
        Compiler::new().compile(&bound),
        code(vec![Op::EndLet(), Op::Access(0), Op::Grab(), one()])
    );
    let rec = Expr::Let(true, x, Box::new(lit(1.0)), Box::new(Expr::Var(x, 0)));
    assert_eq!(
        Compiler::new().compile(&rec),
        code(vec![Op::EndLet(), Op::Access(0), Op::Update(), one(), Op::Dummy()])
    );
    let ascribed = Expr::Ascribed(Box::new(lit(1.0)), Type::num());
    assert_eq!(Compiler::new().compile(&ascribed), code(vec![one()]));
}

#[test]
fn functions_and_calls_are_flattened() {
    let x = Id(0);
    let y = Id(1);
    // |x| |y| x y  -- the inner application is in tail position
    let body = Expr::App(Box::new(Expr::Var(x, 1)), Box::new(Expr::Var(y, 0)));
    let lambda = Expr::Lambda(x, None, Box::new(Expr::Lambda(y, None, Box::new(body))));
    let closure_code =
        code(vec![Op::Return(), Op::Access(1), Op::Access(0), Op::Grab(), Op::Grab()]);
    assert_eq!(Compiler::new().compile(&lambda), code(vec![Op::Closure(closure_code)]));

    // (f 1 2) + 1 with f bound at index 0
    let call = Expr::App(
        Box::new(Expr::App(Box::new(Expr::Var(x, 0)), Box::new(lit(1.0)))),
        Box::new(lit(2.0)),
    );
    let sum = Expr::Op(Box::new(call), BinaryOp::Add, Box::new(lit(1.0)));
    let one = || Op::Const(Val::Num(d(1.0)));
    assert_eq!(
        Compiler::new().compile(&sum),
        code(vec![
            Op::Apply(),
            Op::Access(0),
            one(),
            Op::Const(Val::Num(d(2.0))),
            Op::PushRetAddr(code(vec![Op::Binary(BinaryOp::Add), one()])),
        ])
    );

    // |x| let y = 1 in y  -- a let in tail position has no EndLet
    let tail_let = Expr::Lambda(
        x,
        None,
        Box::new(Expr::Let(false, y, Box::new(lit(1.0)), Box::new(Expr::Var(y, 0)))),
    );
    assert_eq!(
        Compiler::new().compile(&tail_let),
        code(vec![Op::Closure(code(vec![
            Op::Return(),
            Op::Access(0),
            Op::Grab(),
            one(),
            Op::Grab(),
        ]))])
    );
    let tail_rec = Expr::Lambda(
        x,
        None,
        Box::new(Expr::Let(true, y, Box::new(lit(1.0)), Box::new(Expr::Var(y, 0)))),
    );
    assert_eq!(
        Compiler::new().compile(&tail_rec),
        code(vec![Op::Closure(code(vec![
            Op::Return(),
            Op::Access(0),
            Op::Update(),
            one(),
            Op::Dummy(),
            Op::Grab(),
        ]))])
    );
}

// ---- machine ----

fn run(ops: Vec<Op>) -> Result<Val, EvaluationError> {
    VirtualMachine::new(code(ops)).evaluate()
}

fn internal(r: Result<Val, EvaluationError>) -> bool {
    matches!(r, Err(EvaluationError::Internal(_)))
}

#[test]
fn the_machine_runs_code_from_the_top() {
    let one = || Op::Const(Val::Num(d(1.0)));
    let two = || Op::Const(Val::Num(d(2.0)));
    assert_eq!(run(vec![Op::Binary(BinaryOp::Sub), two(), one()]), Ok(Val::Num(d(-1.0))));
    assert_eq!(run(vec![one()]), Ok(Val::Num(d(1.0))));
    assert!(internal(run(vec![])));
    assert!(internal(run(vec![one(), two()])));
    assert!(internal(run(vec![Op::Binary(BinaryOp::Add), one()])));
    assert!(internal(run(vec![Op::Binary(BinaryOp::Add), Op::Const(Val::Unit), one()])));
    assert!(internal(run(vec![Op::Binary(BinaryOp::And), one(), one()])));
    assert!(internal(run(vec![Op::Access(0)])));
    assert!(internal(run(vec![Op::Apply(), one()])));
    assert!(internal(run(vec![Op::Apply()])));
    assert!(internal(run(vec![Op::Join(), one()])));
    assert!(internal(run(vec![Op::Sel(code(vec![]), code(vec![])), one()])));
    assert!(internal(run(vec![Op::Return(), one()])));
    assert!(internal(run(vec![Op::Grab()])));
    assert!(internal(run(vec![Op::Update()])));
    assert!(internal(run(vec![Op::PushRetAddr(code(vec![]))])));
}

#[test]
fn bindings_live_in_cells() {
    let one = || Op::Const(Val::Num(d(1.0)));
    let two = || Op::Const(Val::Num(d(2.0)));
    // bind 1, bind 2, read index 1
    assert_eq!(run(vec![Op::Access(1), Op::Grab(), two(), Op::Grab(), one()]), Ok(Val::Num(d(1.0))));
    // EndLet drops the newest binding
    assert_eq!(
        run(vec![Op::Access(0), Op::EndLet(), Op::Grab(), two(), Op::Grab(), one()]),
        Ok(Val::Num(d(1.0)))
    );
    // EndLet on an empty environment changes nothing
    assert_eq!(run(vec![one(), Op::EndLet()]), Ok(Val::Num(d(1.0))));
    // EndLet drops a binding that a snapshot has frozen
    assert_eq!(
        run(vec![
            Op::Access(0),
            Op::EndLet(),
            Op::EndLet(),
            Op::Grab(),
            Op::Closure(code(vec![])),
            Op::Grab(),
            two(),
            Op::Grab(),
            one(),
        ]),
        Ok(Val::Num(d(1.0)))
    );
    // a dummy cell is read as Dummy until it is updated
    assert_eq!(run(vec![Op::Access(0), Op::Dummy()]), Ok(Val::Dummy));
    assert_eq!(run(vec![Op::Access(0), Op::Update(), one(), Op::Dummy()]), Ok(Val::Num(d(1.0))));
    // the newest dummy is the one updated
    assert_eq!(
        run(vec![Op::Access(1), Op::Update(), one(), Op::Dummy(), Op::Dummy()]),
        Ok(Val::Dummy)
    );
    // without a dummy the value is dropped
    assert_eq!(
        run(vec![Op::Access(0), Op::Update(), one(), Op::Grab(), two()]),
        Ok(Val::Num(d(2.0)))
    );
    // a closure made before the update sees the update through the shared cell
    let reads_cell = code(vec![Op::Return(), Op::Access(1), Op::Grab()]);
    assert_eq!(
        run(vec![
            Op::Apply(),
            Op::Access(0),
            Op::Const(Val::Unit),
            Op::PushRetAddr(code(vec![])),
            Op::Update(),
            Op::Closure(reads_cell),
            Op::Dummy(),
        ])
        .map(|v| matches!(v, Val::Closure { .. })),
        Ok(true)
    );
}

#[test]
fn branches_calls_and_returns() {
    let one = || Op::Const(Val::Num(d(1.0)));
    let two = || Op::Const(Val::Num(d(2.0)));
    let branch = |v: Op| code(vec![Op::Join(), v]);
    assert_eq!(
        run(vec![Op::Sel(branch(one()), branch(two())), Op::Const(Val::Bool(false))]),
        Ok(Val::Num(d(2.0)))
    );
    // (|x| x) 1
    let identity = || Op::Closure(code(vec![Op::Return(), Op::Access(0), Op::Grab()]));
    assert_eq!(
        run(vec![Op::Apply(), identity(), one(), Op::PushRetAddr(code(vec![]))]),
        Ok(Val::Num(d(1.0)))
    );
    // the code kept by PushRetAddr runs after the call
    assert_eq!(
        run(vec![
            Op::Apply(),
            identity(),
            one(),
            Op::PushRetAddr(code(vec![Op::Binary(BinaryOp::Add), two()])),
        ]),
        Ok(Val::Num(d(3.0)))
    );
    // a call without arguments gives the function back
    assert!(matches!(
        run(vec![Op::Apply(), identity(), Op::PushRetAddr(code(vec![]))]),
        Ok(Val::Closure { .. })
    ));
    // Return with a closure on top and an argument under it enters the closure
    let returns_identity = Op::Closure(code(vec![
        Op::Return(),
        Op::Closure(code(vec![Op::Return(), Op::Access(0), Op::Grab()])),
        Op::Grab(),
    ]));
    assert_eq!(
        run(vec![Op::Apply(), returns_identity, Op::Const(Val::Unit), two(), Op::PushRetAddr(code(vec![]))]),
        Ok(Val::Num(d(2.0)))
    );
}

#[test]
fn binary_operators_on_values() {
    let n = |x: f64| Val::Num(d(x));
    assert_eq!(binary(BinaryOp::Add, n(1.0), n(2.0)), Ok(n(3.0)));
    assert_eq!(binary(BinaryOp::Sub, n(1.0), n(2.0)), Ok(n(-1.0)));
    assert_eq!(binary(BinaryOp::Mul, n(3.0), n(2.0)), Ok(n(6.0)));
    assert_eq!(binary(BinaryOp::Div, n(3.0), n(2.0)), Ok(n(1.5)));
    assert_eq!(binary(BinaryOp::Div, n(3.0), n(0.0)), Err(EvaluationError::DivisionByZero));
    assert_eq!(binary(BinaryOp::Eq, n(3.0), n(3.0)), Ok(Val::Bool(true)));
    assert_eq!(binary(BinaryOp::Eq, Val::Unit, Val::Unit), Ok(Val::Bool(true)));
    assert_eq!(binary(BinaryOp::And, Val::Bool(true), Val::Bool(false)), Ok(Val::Bool(false)));
    assert!(matches!(
        binary(BinaryOp::Eq, Val::Dummy, Val::Dummy),
        Err(EvaluationError::Internal(_))
    ));
    assert!(matches!(
        binary(BinaryOp::Div, Val::Unit, n(0.0)),
        Err(EvaluationError::Internal(_))
    ));
    assert_eq!(n(1.0).as_num(), Ok(d(1.0)));
    assert!(matches!(Val::Unit.as_num(), Err(EvaluationError::Internal(_))));
    assert_eq!(Val::Bool(true).as_bool(), Ok(true));
    assert!(matches!(n(1.0).as_bool(), Err(EvaluationError::Internal(_))));
    assert_eq!(n(f64::NAN).try_eq(&n(f64::NAN)), Ok(false));
    assert_eq!(Val::Unit.duplicate(), Val::Unit);
}

#[test]
fn markers_are_popped_by_kind() {
    let mut stack: Stack<Marker> = Stack::new();
    assert!(matches!(stack.force_pop(), Err(EvaluationError::Internal(_))));
    stack.push(Marker::Env(untitled_programming_language_project::env::Env::new()));
    stack.push(Marker::Code(code(vec![Op::Join()])));
    stack.push(Marker::AppDelim);
    stack.push(Marker::Val(Val::Bool(true)));
    assert_eq!(stack.peek_value(), Some(&Val::Bool(true)));
    assert!(stack.peek_closure().is_none());
    assert_eq!(stack.force_pop_bool(), Ok(true));
    assert!(stack.peek_value().is_none());
    let (kept, env) = stack.force_pop_frame().unwrap();
    assert_eq!(kept, code(vec![Op::Join()]));
    assert_eq!(env.lookup(0), None);
    assert_eq!(stack.len(), 0);

    stack.push(Marker::Val(Val::Unit));
    assert!(matches!(stack.force_pop_app_delim(), Err(EvaluationError::Internal(_))));
    stack.push(Marker::AppDelim);
    assert!(matches!(stack.force_pop_val(), Err(EvaluationError::Internal(_))));
    stack.push(Marker::AppDelim);
    assert_eq!(stack.force_pop_app_delim(), Ok(()));
    stack.push(Marker::Val(Val::Unit));
    assert!(matches!(stack.force_pop_code(), Err(EvaluationError::Internal(_))));
    stack.push(Marker::Val(Val::Unit));
    assert!(matches!(stack.force_pop_env(), Err(EvaluationError::Internal(_))));
    stack.push(Marker::Val(Val::Unit));
    assert!(matches!(stack.force_pop_bool(), Err(EvaluationError::Internal(_))));
    stack.push(Marker::Val(Val::Unit));
    assert!(matches!(stack.force_pop_closure(), Err(EvaluationError::Internal(_))));
    stack.push(Marker::Val(Val::Closure { body: code(vec![]), env: Env::new() }));
    assert!(stack.peek_closure().is_some());
    assert!(stack.force_pop_closure().is_ok());
    stack.push(Marker::Code(code(vec![])));
    assert_eq!(stack.force_pop_code(), Ok(code(vec![])));
    stack.push(Marker::Env(Env::new()));
    assert!(stack.force_pop_env().is_ok());
}

// ---- errors of a generated parser ----

#[test]
fn rejections_become_parse_errors() {
    let src = "let \u{e9} = $";
    assert_eq!(
        Error::from_lalrpop(Rejection::InvalidToken { location: 9 }, src),
        Some(Error::ParseError(ParseError::InvalidToken { token: "$".to_string(), location: 9 }))
    );
    assert_eq!(
        Error::from_lalrpop(Rejection::InvalidToken { location: 0 }, src),
        Some(Error::ParseError(ParseError::InvalidToken { token: "l".to_string(), location: 0 }))
    );
    // the byte at 4 starts a character of two bytes, the byte at 5 is inside it
    assert_eq!(Error::from_lalrpop(Rejection::InvalidToken { location: 4 }, src), None);
    assert_eq!(Error::from_lalrpop(Rejection::InvalidToken { location: 5 }, src), None);
    assert_eq!(Error::from_lalrpop(Rejection::InvalidToken { location: 10 }, src), None);
    assert_eq!(Error::from_lalrpop(Rejection::User, src), None);
    let expected = vec!["\"in\"".to_string()];
    assert_eq!(
        Error::from_lalrpop(
            Rejection::UnrecognizedEof { location: 10, expected: expected.clone() },
            src
        ),
        Some(Error::ParseError(ParseError::UnexpectedToken {
            location: 10,
            token: Tok::EndOfFile,
            expected: expected.clone(),
        }))
    );
    assert_eq!(
        Error::from_lalrpop(
            Rejection::UnrecognizedToken {
                location: 7,
                token: "=".to_string(),
                expected: expected.clone()
            },
            src
        ),
        Some(Error::ParseError(ParseError::UnexpectedToken {
            location: 7,
            token: Tok::Raw("=".to_string()),
            expected,
        }))
    );
    assert_eq!(
        Error::from_lalrpop(Rejection::ExtraToken { location: 7, token: "=".to_string() }, src),
        Some(Error::ParseError(ParseError::UnexpectedToken {
            location: 7,
            token: Tok::Raw("=".to_string()),
            expected: vec![],
        }))
    );
    assert_eq!(Error::from(ParseError::UnboundIdentifier { ident: Id(1) }),
        Error::ParseError(ParseError::UnboundIdentifier { ident: Id(1) }));
    assert_eq!(Error::from(EvaluationError::DivisionByZero),
        Error::EvaluationError(EvaluationError::DivisionByZero));
    assert_eq!(Error::from(typ::Error::UnboundVariable(Id(1))),
        Error::TypeError(typ::Error::UnboundVariable(Id(1))));
}

// ---- more on types and names ----

#[test]
fn types_are_written_as_the_user_writes_them() {
    assert_eq!(Type::num().render(), "Num");
    assert_eq!(Type::bool().render(), "Bool");
    assert_eq!(Type::unit().render(), "Unit");
    assert_eq!(ex(0).render(), "?0");
    assert_eq!(ex(9).render(), "?9");
    assert_eq!(ex(10).render(), "?10");
    assert_eq!(ex(1234567890).render(), "?1234567890");
    assert_eq!(ex(usize::MAX).render(), format!("?{}", usize::MAX));
    assert_eq!(
        Type::arrow(Type::num(), Type::arrow(ex(42), Type::bool())).render(),
        "Num -> ?42 -> Bool"
    );
    assert_eq!(Primitive::Unit.name(), "Unit");
}

#[test]
fn many_names_keep_their_numbers() {
    let mut names = Interner::new();
    let mut ids = Vec::new();
    for i in 0..2000 {
        let name = format!("name_{}", i);
        ids.push((names.intern(&name), name));
    }
    assert_eq!(names.len(), 2000);
    for (k, (id, name)) in ids.iter().enumerate() {
        assert_eq!(id.0, k);
        assert_eq!(names.lookup(*id), name);
        assert_eq!(names.intern(name), *id);
    }
    assert_eq!(names.len(), 2000);
    // strings that share a hash are told apart
    let a = names.intern("\u{0}");
    let b = names.intern("\u{0}\u{0}");
    let c = names.intern("");
    assert!(a != b && b != c && a != c);
    assert_eq!(names.lookup(b), "\u{0}\u{0}");
    assert_eq!(names.intern("\u{e9}t\u{e9}"), names.intern("\u{e9}t\u{e9}"));
}

// ---- lexer and parser ----

#[test]
fn tokens_carry_their_place() {
    let text = "let x1 = -1.5 in  x1 - 2 -- rest";
    let source = Source::new(text);
    assert_eq!(source.len(), text.len());
    assert_eq!(source.slice(4, 6), "x1");
    let mut names = Interner::new();
    let tokens = lex(&source, &mut names).unwrap();
    let x1 = names.intern("x1");
    let ident = TokenKind::Ident { id: x1, primitive: None };
    let expected = vec![
        Token { kind: TokenKind::Let, start: 0, end: 3 },
        Token { kind: ident, start: 4, end: 6 },
        Token { kind: TokenKind::Assign, start: 7, end: 8 },
        Token { kind: TokenKind::Num(d(-1.5)), start: 9, end: 13 },
        Token { kind: TokenKind::In, start: 14, end: 16 },
        Token { kind: ident, start: 18, end: 20 },
        Token { kind: TokenKind::Minus, start: 21, end: 22 },
        Token { kind: TokenKind::Num(d(2.0)), start: 23, end: 24 },
    ];
    assert_eq!(tokens, expected);
    assert_eq!(names.len(), 1);
    assert_eq!(chars_of("a\u{e9}"), vec!['a', '\u{e9}']);
}

#[test]
fn every_symbol_and_keyword_is_a_token() {
    let text = "( ) | , : = == && + - * / -> let rec in if then else true false Num Bool Unit 1. .5";
    let source = Source::new(text);
    let mut names = Interner::new();
    let kinds: Vec<TokenKind> = match lex(&source, &mut names) {
        Ok(tokens) => tokens.into_iter().map(|t| t.kind).collect(),
        Err(e) => {
            // a point that no digit follows starts no token
            assert_eq!(e, ParseError::InvalidToken { token: ".".to_string(), location: 79 });
            Vec::new()
        },
    };
    assert!(kinds.is_empty());
    let source = Source::new(&text[..79]);
    let kinds: Vec<TokenKind> =
        lex(&source, &mut names).unwrap().into_iter().map(|t| t.kind).collect();
    let num = names.intern("Num");
    let boolean = names.intern("Bool");
    let unit = names.intern("Unit");
    assert_eq!(
        kinds,
        vec![
            TokenKind::LParen,
            TokenKind::RParen,
            TokenKind::Bar,
            TokenKind::Comma,
            TokenKind::Colon,
            TokenKind::Assign,
            TokenKind::EqEq,
            TokenKind::AndAnd,
            TokenKind::Plus,
            TokenKind::Minus,
            TokenKind::Star,
            TokenKind::Slash,
            TokenKind::Arrow,
            TokenKind::Let,
            TokenKind::Rec,
            TokenKind::In,
            TokenKind::If,
            TokenKind::Then,
            TokenKind::Else,
            TokenKind::True,
            TokenKind::False,
            TokenKind::Ident { id: num, primitive: Some(Primitive::Num) },
            TokenKind::Ident { id: boolean, primitive: Some(Primitive::Bool) },
            TokenKind::Ident { id: unit, primitive: Some(Primitive::Unit) },
            TokenKind::Num(d(1.0)),
        ]
    );
}

#[test]
fn a_parser_reads_all_its_tokens() {
    let text = "f 1 (g 2) : Num";
    let source = Source::new(text);
    let mut names = Interner::new();
    let tokens = lex(&source, &mut names).unwrap();
    let f = names.intern("f");
    let g = names.intern("g");
    let parsed = Parser::new(&source, tokens).parse().unwrap();
    let n = |x: f64| Box::new(RawExpr::Literal(Literal::Num(d(x))));
    let expected = RawExpr::Ascribed(
        Box::new(RawExpr::App(
            Box::new(RawExpr::App(Box::new(RawExpr::Var(f)), n(1.0))),
            Box::new(RawExpr::App(Box::new(RawExpr::Var(g)), n(2.0))),
        )),
        Type::num(),
    );
    assert_eq!(parsed, expected);
    assert_eq!(parse_text(text, &mut names), Ok(expected));
    // a type name is an identifier where an expression stands
    let num = names.intern("Num");
    assert_eq!(parse_text("Num", &mut names), Ok(RawExpr::Var(num)));
    assert_eq!(
        parse_text("let rec f = |x: Num -> Num, y| x y in f", &mut names).map(|e| match e {
            RawExpr::Let(rec, id, binding, _) => (rec, id, matches!(*binding, RawExpr::Lambda(..))),
            _ => (false, f, false),
        }),
        Ok((true, f, true))
    );
}

#[test]
fn an_internal_error_keeps_its_wording() {
    assert_eq!(
        EvaluationError::internal("stack underflow"),
        EvaluationError::Internal("stack underflow".to_string())
    );
    assert_eq!(EvaluationError::internal(""), EvaluationError::Internal(String::new()));
    assert_eq!(typ::internal("no such element"), typ::Error::Internal("no such element".to_string()));
    assert_ne!(typ::internal("a"), typ::internal("b"));
}
