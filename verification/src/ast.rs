//! The syntax trees: the one the parser builds, with named variables, and
//! the one the later stages read, with de Bruijn indices beside the names.
use crate::interner::{interned, Id, Interner};
use crate::num::Number;
use crate::typ::Type;
use vstd::prelude::*;

verus! {

/// The binary operators of the language.
#[derive(Copy, Clone, Debug, PartialEq, Eq, Structural)]
pub enum BinaryOp {
    Mul,
    Div,
    Add,
    Sub,
    Eq,
    And,
}

impl BinaryOp {
    /// How the operator is written.
    pub fn symbol(self) -> (s: &'static str)
        ensures
            s@ == match self {
                BinaryOp::Mul => "*"@,
                BinaryOp::Div => "/"@,
                BinaryOp::Add => "+"@,
                BinaryOp::Sub => "-"@,
                BinaryOp::Eq => "=="@,
                BinaryOp::And => "&&"@,
            },
    {
        match self {
            BinaryOp::Mul => "*",
            BinaryOp::Div => "/",
            BinaryOp::Add => "+",
            BinaryOp::Sub => "-",
            BinaryOp::Eq => "==",
            BinaryOp::And => "&&",
        }
    }
}

/// A literal: a value of primitive kind, written in the program.
#[derive(Copy, Clone, Debug, PartialEq)]
pub enum Literal {
    Bool(bool),
    Num(Number),
    Unit,
}

/// An identifier as the source spells it.
#[derive(Debug, Hash, PartialEq, Eq)]
pub struct RawIdent(pub String);

impl View for RawIdent {
    type V = Seq<char>;

    open spec fn view(&self) -> Seq<char> {
        self.0@
    }
}

impl RawIdent {
    /// The identifier spelled `s`.
    pub fn from(s: &str) -> (ident: RawIdent)
        ensures
            ident@ == s@,
    {
        RawIdent(s.to_owned())
    }
}

/// An expression as parsed: variables are names.
#[derive(Debug, PartialEq)]
pub enum RawExpr {
    Ascribed(Box<RawExpr>, Type),
    App(Box<RawExpr>, Box<RawExpr>),
    Lambda(Id, Option<Type>, Box<RawExpr>),
    Let(bool, Id, Box<RawExpr>, Box<RawExpr>),
    Literal(Literal),
    IfThenElse(Box<RawExpr>, Box<RawExpr>, Box<RawExpr>),
    Var(Id),
    Op(Box<RawExpr>, BinaryOp, Box<RawExpr>),
}

/// An expression after scope checking: every variable carries the de Bruijn
/// index of its binder.
#[derive(Debug, PartialEq)]
pub enum Expr {
    Ascribed(Box<Expr>, Type),
    App(Box<Expr>, Box<Expr>),
    Lambda(Id, Option<Type>, Box<Expr>),
    Let(bool, Id, Box<Expr>, Box<Expr>),
    Literal(Literal),
    IfThenElse(Box<Expr>, Box<Expr>, Box<Expr>),
    Var(Id, usize),
    Op(Box<Expr>, BinaryOp, Box<Expr>),
}

/// `fnc` applied to `args`, one after the other: application associates to
/// the left.
pub open spec fn app_chain(fnc: RawExpr, args: Seq<RawExpr>) -> RawExpr
    decreases args.len(),
{
    if args.len() == 0 {
        fnc
    } else {
        RawExpr::App(Box::new(app_chain(fnc, args.drop_last())), Box::new(args.last()))
    }
}

/// The interner's table after the names of `params` were interned, the last
/// parameter first.
pub open spec fn params_interned(names: Seq<Seq<char>>, params: Seq<(RawIdent, Option<Type>)>) -> Seq<
    Seq<char>,
>
    decreases params.len(),
{
    if params.len() == 0 {
        names
    } else {
        params_interned(interned(names, params.last().0@).0, params.drop_last())
    }
}

/// The function of parameters `params` and body `body`: one `Lambda` for
/// each parameter, the first parameter outermost. `names` is the interner's
/// table before any of the parameters' names was interned.
pub open spec fn lambda_chain(
    names: Seq<Seq<char>>,
    params: Seq<(RawIdent, Option<Type>)>,
    body: RawExpr,
) -> RawExpr
    decreases params.len(),
{
    if params.len() == 0 {
        body
    } else {
        let (after, id) = interned(names, params.last().0@);
        lambda_chain(
            after,
            params.drop_last(),
            RawExpr::Lambda(Id(id as usize), params.last().1, Box::new(body)),
        )
    }
}

impl RawExpr {
    /// The application of `fnc` to each of `args` in turn.
    pub fn make_app(fnc: Box<RawExpr>, args: Vec<RawExpr>) -> (e: Box<RawExpr>)
        ensures
            *e == app_chain(*fnc, args@),
        decreases args@.len(),
    {
        let mut args = args;
        match args.pop() {
            None => fnc,
            Some(last) => Box::new(RawExpr::App(RawExpr::make_app(fnc, args), Box::new(last))),
        }
    }

    /// The function that takes `args` one by one and returns `body`.
    pub fn make_lambda(
        interner: &mut Interner,
        args: Vec<(RawIdent, Option<Type>)>,
        body: Box<RawExpr>,
    ) -> (e: Box<RawExpr>)
        requires
            old(interner).wf(),
        ensures
            final(interner).wf(),
            final(interner)@ == params_interned(old(interner)@, args@),
            *e == lambda_chain(old(interner)@, args@, *body),
    {
        let mut args = args;
        let mut body = body;
        let ghost all = args@;
        let ghost first_body = *body;
        while args.len() > 0
            invariant
                interner.wf(),
                params_interned(interner@, args@) == params_interned(old(interner)@, all),
                lambda_chain(interner@, args@, *body) == lambda_chain(
                    old(interner)@,
                    all,
                    first_body,
                ),
            decreases args@.len(),
        {
            let ghost before = args@;
            let last = args.pop();
            match last {
                Some((ident, ty)) => {
                    let id = Id::new(interner, ident.0.as_str());
                    body = Box::new(RawExpr::Lambda(id, ty, body));
                },
                None => {},
            }
        }
        body
    }

    /// The binding of `ident` to `binding` in `body`.
    pub fn make_let(
        interner: &mut Interner,
        rec: bool,
        ident: RawIdent,
        binding: Box<RawExpr>,
        body: Box<RawExpr>,
    ) -> (e: Box<RawExpr>)
        requires
            old(interner).wf(),
        ensures
            final(interner).wf(),
            final(interner)@ == interned(old(interner)@, ident@).0,
            *e == RawExpr::Let(
                rec,
                Id(interned(old(interner)@, ident@).1 as usize),
                binding,
                body,
            ),
    {
        Box::new(RawExpr::Let(rec, Id::new(interner, ident.0.as_str()), binding, body))
    }

    /// The variable named `ident`.
    pub fn make_var(interner: &mut Interner, ident: RawIdent) -> (e: Box<RawExpr>)
        requires
            old(interner).wf(),
        ensures
            final(interner).wf(),
            final(interner)@ == interned(old(interner)@, ident@).0,
            *e == RawExpr::Var(Id(interned(old(interner)@, ident@).1 as usize)),
    {
        Box::new(RawExpr::Var(Id::new(interner, ident.0.as_str())))
    }
}

} // verus!
