//! A small expression language: arithmetic, let-bindings, first-class
//! functions, conditionals and type ascriptions. A program is parsed, its
//! identifiers are resolved to de Bruijn indices, its type is inferred by a
//! bidirectional checker over an ordered context, and it is compiled to a
//! linear instruction stream that a stack machine executes.
use vstd::prelude::*;

pub mod ast;
pub mod env;
pub mod error;
pub mod interner;
pub mod lexer;
pub mod num;
pub mod parser;
pub mod scopes;
pub mod typ;
pub mod values;
pub mod vm;

use crate::ast::{Expr, Literal, RawExpr};
use crate::error::{Error, EvaluationFault, Failure, ParseFault};
use crate::interner::Interner;
use crate::lexer::{tokens_of, TokenKind};
use crate::parser::{
    application_at, application_rest, atom_at, binary_at, binary_rest, expr_at, parse_text,
    parsed, parsed_tokens, Input,
};
use crate::scopes::{resolved, well_scoped, ScopeChecker};
use crate::typ::rules::inferred;
use crate::typ::Type;
use crate::values::{Val, ValModel};
use crate::vm::compiler::{pushed, Compiler};
use crate::vm::model::MachineModel;
use crate::vm::{VirtualMachine, STEP_LIMIT};

verus! {

/// The scope-checked expression that the text spells, and the interner's
/// table after its identifiers were interned.
pub open spec fn scope_checked(chars: Seq<char>, names: Seq<Seq<char>>) -> Result<
    (Expr, Seq<Seq<char>>),
    Failure,
> {
    match parsed(chars, names) {
        Err(f) => Err(Failure::Parse(f)),
        Ok((raw, after)) => match resolved(raw, Seq::empty()) {
            Err(ident) => Err(Failure::Parse(ParseFault::UnboundIdentifier { ident })),
            Ok(e) => Ok((e, after)),
        },
    }
}

/// The type of the program that the text spells.
pub open spec fn type_of(chars: Seq<char>, names: Seq<Seq<char>>) -> Result<
    (Type, Seq<Seq<char>>),
    Failure,
> {
    match scope_checked(chars, names) {
        Err(f) => Err(f),
        Ok((e, after)) => match inferred(e) {
            Err(f) => Err(Failure::Type(f)),
            Ok(t) => Ok((t, after)),
        },
    }
}

/// The value of the program that the text spells: the program must parse,
/// be well scoped and have a type; then its code, compiled in normal mode,
/// is run from the machine's start.
pub open spec fn value_of(chars: Seq<char>, names: Seq<Seq<char>>) -> Result<
    (ValModel, Seq<Seq<char>>),
    Failure,
> {
    match scope_checked(chars, names) {
        Err(f) => Err(f),
        Ok((e, after)) => match inferred(e) {
            Err(f) => Err(Failure::Type(f)),
            Ok(_) => match MachineModel::start(pushed(e, Seq::empty())).run(STEP_LIMIT as nat) {
                Err(f) => Err(Failure::Evaluation(f)),
                Ok(v) => Ok((v, after)),
            },
        },
    }
}

/// Parses a program. Its identifiers are interned in `interner`, in the
/// order in which they stand.
pub fn parse(input: &str, interner: &mut Interner) -> (r: Result<Box<RawExpr>, Error>)
    requires
        old(interner).wf(),
    ensures
        final(interner).wf(),
        match parsed(input@, old(interner)@) {
            Ok((e, names)) => r == Ok::<Box<RawExpr>, Error>(Box::new(e)) && final(interner)@
                == names,
            Err(f) => r matches Err(e) && e@ == Failure::Parse(f),
        },
{
    match parse_text(input, interner) {
        Ok(expr) => Ok(Box::new(expr)),
        Err(e) => Err(Error::ParseError(e)),
    }
}

/// Parses a program and infers its type.
pub fn check_types(input: &str, interner: &mut Interner) -> (r: Result<Type, Error>)
    requires
        old(interner).wf(),
    ensures
        final(interner).wf(),
        match type_of(input@, old(interner)@) {
            Ok((t, names)) => r == Ok::<Type, Error>(t) && final(interner)@ == names,
            Err(f) => r matches Err(e) && e@ == f,
        },
{
    let expr = match parse_and_scope_check(input, interner) {
        Ok(expr) => expr,
        Err(e) => {
            return Err(e);
        },
    };
    match typ::infer(&expr) {
        Ok(t) => Ok(t),
        Err(e) => Err(Error::TypeError(e)),
    }
}

/// Parses a program, infers its type, compiles it and runs it.
pub fn evaluate(input: &str, interner: &mut Interner) -> (r: Result<Val, Error>)
    requires
        old(interner).wf(),
    ensures
        final(interner).wf(),
        match value_of(input@, old(interner)@) {
            Ok((v, names)) => r matches Ok(x) && x@ == v && final(interner)@ == names,
            Err(f) => r matches Err(e) && e@ == f,
        },
{
    let expr = match parse_and_scope_check(input, interner) {
        Ok(expr) => expr,
        Err(e) => {
            return Err(e);
        },
    };
    match typ::infer(&expr) {
        Ok(_) => {},
        Err(e) => {
            return Err(Error::TypeError(e));
        },
    }
    let compiler = Compiler::new();
    let code = compiler.compile(&expr);
    let mut vm = VirtualMachine::new(code);
    match vm.evaluate() {
        Ok(val) => Ok(val),
        Err(e) => Err(Error::EvaluationError(e)),
    }
}

/// Parses a program and resolves its variables. What comes back is well
/// scoped under no binder.
pub fn parse_and_scope_check(input: &str, interner: &mut Interner) -> (r: Result<Box<Expr>, Error>)
    requires
        old(interner).wf(),
    ensures
        final(interner).wf(),
        match scope_checked(input@, old(interner)@) {
            Ok((e, names)) => r == Ok::<Box<Expr>, Error>(Box::new(e)) && final(interner)@
                == names && well_scoped(e, Seq::empty()),
            Err(f) => r matches Err(e) && e@ == f,
        },
{
    let expr = match parse(input, interner) {
        Ok(expr) => expr,
        Err(e) => {
            return Err(e);
        },
    };
    let mut scope_checker = ScopeChecker::new();
    match scope_checker.check(*expr) {
        Ok(expr) => Ok(Box::new(expr)),
        Err(e) => Err(e),
    }
}

/// The literal that a token is, if it is one by itself.
pub open spec fn literal_of(kind: TokenKind) -> Option<Literal> {
    match kind {
        TokenKind::Num(n) => Some(Literal::Num(n)),
        TokenKind::True => Some(Literal::Bool(true)),
        TokenKind::False => Some(Literal::Bool(false)),
        _ => None,
    }
}

/// A program that is one literal evaluates to the value that the literal
/// denotes, and has its type. The tokens of such a program are the token of
/// a number or of a boolean, or the two parentheses of the unit.
pub proof fn lemma_literal_evaluates_to_itself(
    chars: Seq<char>,
    names: Seq<Seq<char>>,
    l: Literal,
)
    requires
        tokens_of(chars, names) matches Ok((tokens, _)) && ({
            ||| tokens.len() == 1 && literal_of(tokens[0].kind) == Some(l)
            ||| tokens.len() == 2 && tokens[0].kind == TokenKind::LParen && tokens[1].kind
                == TokenKind::RParen && l == Literal::Unit
        }),
    ensures
        parsed(chars, names) matches Ok((e, _)) && e == RawExpr::Literal(l),
        type_of(chars, names) matches Ok((t, _)) && t == crate::typ::rules::literal_type(l),
        value_of(chars, names) matches Ok((v, _)) && v == ValModel::of_literal(l),
{
    let tokens = tokens_of(chars, names)->Ok_0.0;
    let inp = Input { chars, tokens };
    let e = RawExpr::Literal(l);
    let end = tokens.len() as int;
    assert(inp.kind(end) is None);
    assert(atom_at(inp, 0) == Ok::<(RawExpr, int), ParseFault>((e, end)));
    assert(application_rest(inp, end, e) == Ok::<(RawExpr, int), ParseFault>((e, end)));
    assert(application_at(inp, 0) == Ok::<(RawExpr, int), ParseFault>((e, end)));
    assert(binary_at(inp, 0, 4) == application_at(inp, 0));
    assert(binary_rest(inp, end, 3, e) == Ok::<(RawExpr, int), ParseFault>((e, end)));
    assert(binary_at(inp, 0, 3) == Ok::<(RawExpr, int), ParseFault>((e, end)));
    assert(binary_rest(inp, end, 2, e) == Ok::<(RawExpr, int), ParseFault>((e, end)));
    assert(binary_at(inp, 0, 2) == Ok::<(RawExpr, int), ParseFault>((e, end)));
    assert(binary_rest(inp, end, 1, e) == Ok::<(RawExpr, int), ParseFault>((e, end)));
    assert(binary_at(inp, 0, 1) == Ok::<(RawExpr, int), ParseFault>((e, end)));
    assert(binary_rest(inp, end, 0, e) == Ok::<(RawExpr, int), ParseFault>((e, end)));
    assert(binary_at(inp, 0, 0) == Ok::<(RawExpr, int), ParseFault>((e, end)));
    assert(expr_at(inp, 0) == Ok::<(RawExpr, int), ParseFault>((e, end)));
    assert(parsed_tokens(inp) == Ok::<RawExpr, ParseFault>(e));
    let checked = Expr::Literal(l);
    assert(resolved(e, Seq::empty()) == Ok::<Expr, crate::interner::Id>(checked));
    assert(inferred(checked) == Ok::<Type, crate::typ::Fault>(
        crate::typ::rules::literal_type(l),
    )) by {
        reveal_with_fuel(crate::typ::rules::applied, 2);
    }
    let code = pushed(checked, Seq::empty());
    let start = MachineModel::start(code);
    assert(code =~= seq![crate::vm::OpModel::Const(ValModel::of_literal(l))]);
    let next = start.step()->Ok_0;
    assert(next.code =~= Seq::empty());
    assert(next.stack =~= seq![crate::vm::MarkerModel::Val(ValModel::of_literal(l))]);
    assert(start.run(STEP_LIMIT as nat) == next.run((STEP_LIMIT - 1) as nat));
    assert(next.run((STEP_LIMIT - 1) as nat) == Ok::<ValModel, EvaluationFault>(
        ValModel::of_literal(l),
    ));
}

} // verus!
