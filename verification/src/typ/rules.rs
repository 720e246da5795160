//! The rules of type inference, stated on contexts as sequences.
//!
//! Each rule takes a context and the number of the next fresh existential,
//! and gives back the context and the number after it, so that a rule that
//! fails leaves nothing behind.
use crate::ast::{BinaryOp, Expr, Literal};
use crate::typ::ctx::{
    annotation, ill_formed_part, replaced, solution, split, truncated, well_formed, Element,
};
use crate::typ::{Existential, Fault, Primitive, Type};
use vstd::prelude::*;

verus! {

/// How deep the rules of subtyping and instantiation may call each other.
/// Past this depth they give up with an internal error.
pub const DEPTH_LIMIT: usize = 1024;

/// On which side of an arrow two types are compared. It decides which of
/// the two a `Mismatch` reports as got and which as expected.
#[derive(Clone, Copy, Debug, PartialEq, Eq, Structural)]
pub enum Variance {
    Covariant,
    Contravariant,
}

/// A context and the number of the next fresh existential.
pub type Threaded = (Seq<Element>, usize);

/// The primitive type of a literal.
pub open spec fn literal_type(l: Literal) -> Type {
    Type::Primitive(
        match l {
            Literal::Bool(_) => Primitive::Bool,
            Literal::Num(_) => Primitive::Num,
            Literal::Unit => Primitive::Unit,
        },
    )
}

/// `t` with every solved existential replaced by its solution, as long as
/// no chain of solutions is longer than `fuel`.
pub open spec fn applied(ctx: Seq<Element>, t: Type, fuel: nat) -> Result<Type, Fault>
    decreases fuel, t,
{
    match t {
        Type::Arrow(from, to) => match applied(ctx, *from, fuel) {
            Err(f) => Err(f),
            Ok(from) => match applied(ctx, *to, fuel) {
                Err(f) => Err(f),
                Ok(to) => Ok(Type::Arrow(Box::new(from), Box::new(to))),
            },
        },
        Type::Existential(a) => match solution(ctx, a) {
            Some(s) => if fuel == 0 {
                Err(Fault::Internal)
            } else {
                applied(ctx, s, (fuel - 1) as nat)
            },
            None => Ok(t),
        },
        Type::Primitive(_) => Ok(t),
    }
}

/// The context applied to `t`: every solved existential is replaced by its
/// solution, and so are those in the solution. A chain of solutions longer
/// than the context can only go round in a circle: an internal error.
pub open spec fn apply(ctx: Seq<Element>, t: Type) -> Result<Type, Fault> {
    applied(ctx, t, ctx.len())
}

/// A fresh existential, and the number of the next one.
pub open spec fn fresh(next: usize) -> Result<(Existential, usize), Fault> {
    if next < usize::MAX {
        Ok((Existential(next), (next + 1) as usize))
    } else {
        Err(Fault::Internal)
    }
}

/// The error for a type that is not well formed under `ctx`, if `t` is
/// such a type.
pub open spec fn ill_formed(ctx: Seq<Element>, t: Type) -> Option<Fault> {
    match ill_formed_part(ctx, t) {
        Some(a) => Some(Fault::IllFormedType(Type::Existential(a))),
        None => None,
    }
}

/// The context in which `alpha` is solved to `t`, at the place where it
/// stood unsolved.
pub open spec fn solve(ctx: Seq<Element>, alpha: Existential, t: Type, next: usize) -> Result<
    Threaded,
    Fault,
> {
    match replaced(ctx, Element::Existential(alpha), seq![Element::Solved(alpha, t)]) {
        Some(ctx) => Ok((ctx, next)),
        None => Err(Fault::Internal),
    }
}

/// The context in which `alpha` is solved to an arrow between two fresh
/// existentials, which stand unsolved before it; with it, the existential
/// for the arrow's left side, the one for its right side, and the number of
/// the next fresh one.
pub open spec fn solve_to_arrow(ctx: Seq<Element>, alpha: Existential, next: usize) -> Result<
    (Seq<Element>, Existential, Existential, usize),
    Fault,
> {
    match fresh(next) {
        Err(f) => Err(f),
        Ok((from, n1)) => match fresh(n1) {
            Err(f) => Err(f),
            Ok((to, n2)) => match replaced(
                ctx,
                Element::Existential(alpha),
                seq![
                    Element::Existential(to),
                    Element::Existential(from),
                    Element::Solved(
                        alpha,
                        Type::Arrow(
                            Box::new(Type::Existential(from)),
                            Box::new(Type::Existential(to)),
                        ),
                    ),
                ],
            ) {
                Some(ctx) => Ok((ctx, from, to, n2)),
                None => Err(Fault::Internal),
            },
        },
    }
}

/// `a` is made a subtype of `b`: equal to it, up to the solving of
/// existentials.
pub open spec fn subtype(
    depth: nat,
    ctx: Seq<Element>,
    a: Type,
    b: Type,
    v: Variance,
    next: usize,
) -> Result<Threaded, Fault>
    decreases depth,
{
    if depth == 0 {
        Err(Fault::Internal)
    } else if ill_formed(ctx, a) is Some {
        Err(ill_formed(ctx, a)->0)
    } else if ill_formed(ctx, b) is Some {
        Err(ill_formed(ctx, b)->0)
    } else {
        match (a, b) {
            (Type::Arrow(from1, to1), Type::Arrow(from2, to2)) => match subtype(
                (depth - 1) as nat,
                ctx,
                *from2,
                *from1,
                Variance::Contravariant,
                next,
            ) {
                Err(f) => Err(f),
                Ok((c1, n1)) => match apply(c1, *to1) {
                    Err(f) => Err(f),
                    Ok(to1) => match apply(c1, *to2) {
                        Err(f) => Err(f),
                        Ok(to2) => subtype(
                            (depth - 1) as nat,
                            c1,
                            to1,
                            to2,
                            Variance::Covariant,
                            n1,
                        ),
                    },
                },
            },
            (Type::Existential(e1), _) => if a == b {
                Ok((ctx, next))
            } else {
                instantiate_l((depth - 1) as nat, ctx, e1, b, next)
            },
            (_, Type::Existential(e2)) => instantiate_r((depth - 1) as nat, ctx, a, e2, next),
            (_, _) => if a == b {
                Ok((ctx, next))
            } else {
                match v {
                    Variance::Covariant => Err(Fault::Mismatch { got: a, expected: b }),
                    Variance::Contravariant => Err(Fault::Mismatch { got: b, expected: a }),
                }
            },
        }
    }
}

/// `alpha` is solved with `t` as its upper bound.
pub open spec fn instantiate_l(
    depth: nat,
    ctx: Seq<Element>,
    alpha: Existential,
    t: Type,
    next: usize,
) -> Result<Threaded, Fault>
    decreases depth,
{
    if depth == 0 {
        Err(Fault::Internal)
    } else {
        match split(ctx, Element::Existential(alpha)) {
            None => Err(Fault::Internal),
            Some((left, right)) => if well_formed(left, t) {
                solve(ctx, alpha, t, next)
            } else {
                match t {
                    Type::Arrow(from, to) => match solve_to_arrow(ctx, alpha, next) {
                        Err(f) => Err(f),
                        Ok((c1, a_from, a_to, n1)) => match instantiate_r(
                            (depth - 1) as nat,
                            c1,
                            *from,
                            a_from,
                            n1,
                        ) {
                            Err(f) => Err(f),
                            Ok((c2, n2)) => match apply(c2, *to) {
                                Err(f) => Err(f),
                                Ok(to) => instantiate_l((depth - 1) as nat, c2, a_to, to, n2),
                            },
                        },
                    },
                    Type::Existential(e) => if ill_formed(right, t) is Some {
                        Err(ill_formed(right, t)->0)
                    } else {
                        solve(ctx, e, Type::Existential(alpha), next)
                    },
                    Type::Primitive(_) => Err(Fault::Internal),
                }
            },
        }
    }
}

/// `alpha` is solved with `t` as its lower bound.
pub open spec fn instantiate_r(
    depth: nat,
    ctx: Seq<Element>,
    t: Type,
    alpha: Existential,
    next: usize,
) -> Result<Threaded, Fault>
    decreases depth,
{
    if depth == 0 {
        Err(Fault::Internal)
    } else {
        match split(ctx, Element::Existential(alpha)) {
            None => Err(Fault::Internal),
            Some((left, right)) => if well_formed(left, t) {
                solve(ctx, alpha, t, next)
            } else {
                match t {
                    Type::Arrow(from, to) => match solve_to_arrow(ctx, alpha, next) {
                        Err(f) => Err(f),
                        Ok((c1, a_from, a_to, n1)) => match instantiate_l(
                            (depth - 1) as nat,
                            c1,
                            a_from,
                            *from,
                            n1,
                        ) {
                            Err(f) => Err(f),
                            Ok((c2, n2)) => match apply(c2, *to) {
                                Err(f) => Err(f),
                                Ok(to) => instantiate_r((depth - 1) as nat, c2, to, a_to, n2),
                            },
                        },
                    },
                    Type::Existential(e) => if ill_formed(right, t) is Some {
                        Err(ill_formed(right, t)->0)
                    } else {
                        solve(ctx, e, Type::Existential(alpha), next)
                    },
                    Type::Primitive(_) => Err(Fault::Internal),
                }
            },
        }
    }
}

/// The type that both operands of `op` must have, where it asks for one.
pub open spec fn operand_type(op: BinaryOp) -> Option<Type> {
    match op {
        BinaryOp::Eq => None,
        BinaryOp::And => Some(Type::Primitive(Primitive::Bool)),
        _ => Some(Type::Primitive(Primitive::Num)),
    }
}

/// The type of the result of `op`.
pub open spec fn result_type(op: BinaryOp) -> Type {
    match op {
        BinaryOp::Eq | BinaryOp::And => Type::Primitive(Primitive::Bool),
        _ => Type::Primitive(Primitive::Num),
    }
}

/// The context applied to `t`, and then `t` made a subtype of `want`.
pub open spec fn constrain(ctx: Seq<Element>, t: Type, want: Type, next: usize) -> Result<
    Threaded,
    Fault,
> {
    match apply(ctx, t) {
        Err(f) => Err(f),
        Ok(t) => subtype(DEPTH_LIMIT as nat, ctx, t, want, Variance::Covariant, next),
    }
}

/// A type is synthesized for `e`.
pub open spec fn synth(e: Expr, ctx: Seq<Element>, next: usize) -> Result<
    (Type, Seq<Element>, usize),
    Fault,
>
    decreases e, 0nat,
{
    match e {
        Expr::Literal(l) => Ok((literal_type(l), ctx, next)),
        Expr::Var(id, _) => match annotation(ctx, id) {
            Some(t) => Ok((t, ctx, next)),
            None => Err(Fault::UnboundVariable(id)),
        },
        Expr::Ascribed(inner, t) => if ill_formed(ctx, t) is Some {
            Err(ill_formed(ctx, t)->0)
        } else {
            match check(*inner, t, ctx, next) {
                Err(f) => Err(f),
                Ok((c, n)) => Ok((t, c, n)),
            }
        },
        Expr::Lambda(id, Some(from), body) => if ill_formed(ctx, from) is Some {
            Err(ill_formed(ctx, from)->0)
        } else {
            match fresh(next) {
                Err(f) => Err(f),
                Ok((to, n1)) => match check(
                    *body,
                    Type::Existential(to),
                    ctx.push(Element::Existential(to)).push(Element::TypedVariable(id, from)),
                    n1,
                ) {
                    Err(f) => Err(f),
                    Ok((c, n)) => Ok(
                        (Type::Arrow(Box::new(from), Box::new(Type::Existential(to))), c, n),
                    ),
                },
            }
        },
        Expr::Lambda(id, None, body) => match fresh(next) {
            Err(f) => Err(f),
            Ok((from, n1)) => match fresh(n1) {
                Err(f) => Err(f),
                Ok((to, n2)) => match check(
                    *body,
                    Type::Existential(to),
                    ctx.push(Element::Existential(from)).push(Element::Existential(to)).push(
                        Element::TypedVariable(id, Type::Existential(from)),
                    ),
                    n2,
                ) {
                    Err(f) => Err(f),
                    Ok((c, n)) => Ok(
                        (
                            Type::Arrow(
                                Box::new(Type::Existential(from)),
                                Box::new(Type::Existential(to)),
                            ),
                            c,
                            n,
                        ),
                    ),
                },
            },
        },
        Expr::App(fnc, arg) => match synth(*fnc, ctx, next) {
            Err(f) => Err(f),
            Ok((t, c1, n1)) => match apply(c1, t) {
                Err(f) => Err(f),
                Ok(Type::Existential(a)) => match solve_to_arrow(c1, a, n1) {
                    Err(f) => Err(f),
                    Ok((c2, from, to, n2)) => match check(*arg, Type::Existential(from), c2, n2) {
                        Err(f) => Err(f),
                        Ok((c3, n3)) => Ok((Type::Existential(to), c3, n3)),
                    },
                },
                Ok(Type::Arrow(from, to)) => match check(*arg, *from, c1, n1) {
                    Err(f) => Err(f),
                    Ok((c2, n2)) => Ok((*to, c2, n2)),
                },
                Ok(t) => Err(Fault::InvalidApplication(t)),
            },
        },
        Expr::Let(false, id, binding, body) => match synth(*binding, ctx, next) {
            Err(f) => Err(f),
            Ok((bound, c1, n1)) => match synth(
                *body,
                c1.push(Element::TypedVariable(id, bound)),
                n1,
            ) {
                Err(f) => Err(f),
                Ok((t, c2, n2)) => match replaced(
                    c2,
                    Element::TypedVariable(id, bound),
                    Seq::empty(),
                ) {
                    Some(c3) => Ok((t, c3, n2)),
                    None => Err(Fault::Internal),
                },
            },
        },
        Expr::Let(true, id, binding, body) => match fresh(next) {
            Err(f) => Err(f),
            Ok((a, n0)) => match synth(
                *binding,
                ctx.push(Element::Existential(a)).push(
                    Element::TypedVariable(id, Type::Existential(a)),
                ),
                n0,
            ) {
                Err(f) => Err(f),
                Ok((_, c1, n1)) => match synth(*body, c1, n1) {
                    Err(f) => Err(f),
                    Ok((t, c2, n2)) => match replaced(
                        c2,
                        Element::TypedVariable(id, Type::Existential(a)),
                        Seq::empty(),
                    ) {
                        Some(c3) => Ok((t, c3, n2)),
                        None => Err(Fault::Internal),
                    },
                },
            },
        },
        Expr::IfThenElse(cond, thn, els) => match synth(*cond, ctx, next) {
            Err(f) => Err(f),
            Ok((ct, c1, n1)) => match subtype(
                DEPTH_LIMIT as nat,
                c1,
                ct,
                Type::Primitive(Primitive::Bool),
                Variance::Covariant,
                n1,
            ) {
                Err(f) => Err(f),
                Ok((c2, n2)) => match synth(*thn, c2, n2) {
                    Err(f) => Err(f),
                    Ok((t, c3, n3)) => match check(*els, t, c3, n3) {
                        Err(f) => Err(f),
                        Ok((c4, n4)) => Ok((t, c4, n4)),
                    },
                },
            },
        },
        Expr::Op(l, op, r) => match synth(*l, ctx, next) {
            Err(f) => Err(f),
            Ok((lt, c1, n1)) => match synth(*r, c1, n1) {
                Err(f) => Err(f),
                Ok((rt, c2, n2)) => match operand_type(op) {
                    None => Ok((result_type(op), c2, n2)),
                    Some(want) => match constrain(c2, lt, want, n2) {
                        Err(f) => Err(f),
                        Ok((c3, n3)) => match constrain(c3, rt, want, n3) {
                            Err(f) => Err(f),
                            Ok((c4, n4)) => Ok((result_type(op), c4, n4)),
                        },
                    },
                },
            },
        },
    }
}

/// `e` is checked against the type `t`.
pub open spec fn check(e: Expr, t: Type, ctx: Seq<Element>, next: usize) -> Result<
    Threaded,
    Fault,
>
    decreases e, 1nat,
{
    if ill_formed(ctx, t) is Some {
        Err(ill_formed(ctx, t)->0)
    } else {
        match (e, t) {
            (Expr::Literal(l), Type::Primitive(_)) => if literal_type(l) == t {
                Ok((ctx, next))
            } else {
                Err(Fault::Mismatch { got: literal_type(l), expected: t })
            },
            (Expr::Lambda(id, annot, body), Type::Arrow(from, to)) => match (match annot {
                Some(given) => subtype(
                    DEPTH_LIMIT as nat,
                    ctx,
                    *from,
                    given,
                    Variance::Contravariant,
                    next,
                ),
                None => Ok((ctx, next)),
            }) {
                Err(f) => Err(f),
                Ok((c1, n1)) => match check(
                    *body,
                    *to,
                    c1.push(Element::TypedVariable(id, *from)),
                    n1,
                ) {
                    Err(f) => Err(f),
                    Ok((c2, n2)) => match truncated(c2, Element::TypedVariable(id, *from)) {
                        Some(c3) => Ok((c3, n2)),
                        None => Err(Fault::Internal),
                    },
                },
            },
            (_, _) => match synth(e, ctx, next) {
                Err(f) => Err(f),
                Ok((found, c1, n1)) => match apply(c1, t) {
                    Err(f) => Err(f),
                    Ok(want) => constrain(c1, found, want, n1),
                },
            },
        }
    }
}

/// The type of `e`, and the number of the next fresh existential: the type
/// synthesized for `e` in the empty context, with the context that came out
/// applied to it.
pub open spec fn inferred_from(e: Expr, next: usize) -> Result<(Type, usize), Fault> {
    match synth(e, Seq::empty(), next) {
        Err(f) => Err(f),
        Ok((t, ctx, n)) => match apply(ctx, t) {
            Err(f) => Err(f),
            Ok(t) => Ok((t, n)),
        },
    }
}

/// The type of `e`, inferred with existentials numbered from zero.
pub open spec fn inferred(e: Expr) -> Result<Type, Fault> {
    match inferred_from(e, 0) {
        Err(f) => Err(f),
        Ok((t, _)) => Ok(t),
    }
}

} // verus!
