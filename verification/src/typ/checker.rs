//! Bidirectional type inference over the ordered context: each function
//! here carries out one rule and is proved to give what the rule says.
use crate::ast::{BinaryOp, Expr, Literal};
use crate::typ::ctx::{Ctx, Element};
use crate::typ::rules;
use crate::typ::rules::{Threaded, Variance, DEPTH_LIMIT};
use crate::typ::{internal, Error, Existential, Fault, Primitive, Type};
use vstd::prelude::*;

verus! {

/// The source of fresh existentials.
pub struct State {
    next_existential: usize,
}

/// Whether `r` is the type, or the error, that `expected` names.
pub open spec fn gives(expected: Result<Type, Fault>, r: Result<Type, Error>) -> bool {
    match expected {
        Ok(t) => r == Ok::<Type, Error>(t),
        Err(f) => r matches Err(e) && e@ == f,
    }
}

/// Whether `r` and the state after the call are the context and the number
/// of the next existential, or `r` is the error, that `expected` names.
pub open spec fn threads(expected: Result<Threaded, Fault>, r: Result<Ctx, Error>, next: usize) -> bool {
    match expected {
        Ok((ctx, n)) => r matches Ok(c) && c@ == ctx && next == n,
        Err(f) => r matches Err(e) && e@ == f,
    }
}

/// The same for a rule that also gives a type.
pub open spec fn synthesizes(
    expected: Result<(Type, Seq<Element>, usize), Fault>,
    r: Result<(Type, Ctx), Error>,
    next: usize,
) -> bool {
    match expected {
        Ok((t, ctx, n)) => r matches Ok(p) && p.0 == t && p.1@ == ctx && next == n,
        Err(f) => r matches Err(e) && e@ == f,
    }
}

impl State {
    /// The number of the next fresh existential.
    pub closed spec fn next(&self) -> usize {
        self.next_existential
    }

    /// A state that has given out no existential.
    pub fn new() -> (state: State)
        ensures
            state.next() == 0,
    {
        Self { next_existential: 0 }
    }

    /// Generate a fresh `Existential`, guaranteed to be distinct from all
    /// others. When the numbers have run out: an internal error.
    pub fn fresh_existential(&mut self) -> (r: Result<Existential, Error>)
        ensures
            match rules::fresh(old(self).next()) {
                Ok((a, n)) => r == Ok::<Existential, Error>(a) && final(self).next() == n,
                Err(f) => r matches Err(e) && e@ == f,
            },
    {
        if self.next_existential < usize::MAX {
            let e = Existential(self.next_existential);
            self.next_existential = self.next_existential + 1;
            Ok(e)
        } else {
            Err(internal("no fresh existential is left"))
        }
    }
}

impl Type {
    fn apply_within(&self, ctx: &Ctx, fuel: usize) -> (r: Result<Type, Error>)
        ensures
            gives(rules::applied(ctx@, *self, fuel as nat), r),
        decreases fuel, self,
    {
        match self {
            Type::Arrow(from, to) => {
                let from = match from.apply_within(ctx, fuel) {
                    Ok(t) => t,
                    Err(e) => {
                        return Err(e);
                    },
                };
                let to = match to.apply_within(ctx, fuel) {
                    Ok(t) => t,
                    Err(e) => {
                        return Err(e);
                    },
                };
                Ok(Type::Arrow(Box::new(from), Box::new(to)))
            },
            Type::Existential(a) => match ctx.get_solved(a) {
                Some(t) => {
                    if fuel == 0 {
                        Err(internal("the context solves an existential in a circle"))
                    } else {
                        t.apply_within(ctx, fuel - 1)
                    }
                },
                None => Ok(Type::Existential(*a)),
            },
            Type::Primitive(p) => Ok(Type::Primitive(*p)),
        }
    }

    /// Apply a `Ctx` to the `Type`, replacing any solved existentials with
    /// their solutions.
    pub fn apply(&self, ctx: &Ctx) -> (r: Result<Type, Error>)
        ensures
            gives(rules::apply(ctx@, *self), r),
    {
        self.apply_within(ctx, ctx.len())
    }
}

/// The primitive type of a literal.
pub fn literal_type(l: &Literal) -> (t: Type)
    ensures
        t == rules::literal_type(*l),
{
    Type::Primitive(
        match l {
            Literal::Bool(_) => Primitive::Bool,
            Literal::Num(_) => Primitive::Num,
            Literal::Unit => Primitive::Unit,
        },
    )
}

/// Solves `alpha` to `t`, at the place where it stands unsolved.
fn solve(ctx: Ctx, alpha: Existential, t: Type, state: &State) -> (r: Result<Ctx, Error>)
    ensures
        threads(rules::solve(ctx@, alpha, t, state.next()), r, state.next()),
{
    let mut solved: Vec<Element> = Vec::new();
    solved.push(Element::Solved(alpha, t));
    assert(solved@ =~= seq![Element::Solved(alpha, t)]);
    ctx.insert_in_place(Element::Existential(alpha), solved)
}

/// Solves `alpha` to an arrow between two fresh existentials, and returns
/// the context, the existential for the arrow's left side and the one for
/// its right side.
fn solve_to_arrow(state: &mut State, ctx: Ctx, alpha: Existential) -> (r: Result<
    (Ctx, Existential, Existential),
    Error,
>)
    ensures
        match rules::solve_to_arrow(ctx@, alpha, old(state).next()) {
            Ok((c, from, to, n)) => r matches Ok(p) && p.0@ == c && p.1 == from && p.2 == to
                && final(state).next() == n,
            Err(f) => r matches Err(e) && e@ == f,
        },
{
    let from = match state.fresh_existential() {
        Ok(a) => a,
        Err(e) => {
            return Err(e);
        },
    };
    let to = match state.fresh_existential() {
        Ok(a) => a,
        Err(e) => {
            return Err(e);
        },
    };
    let mut parts: Vec<Element> = Vec::new();
    parts.push(Element::Existential(to));
    parts.push(Element::Existential(from));
    parts.push(
        Element::Solved(
            alpha,
            Type::Arrow(Box::new(Type::Existential(from)), Box::new(Type::Existential(to))),
        ),
    );
    assert(parts@ =~= seq![
        Element::Existential(to),
        Element::Existential(from),
        Element::Solved(
            alpha,
            Type::Arrow(Box::new(Type::Existential(from)), Box::new(Type::Existential(to))),
        ),
    ]);
    match ctx.insert_in_place(Element::Existential(alpha), parts) {
        Ok(ctx) => Ok((ctx, from, to)),
        Err(e) => Err(e),
    }
}

/// The usual subtyping algorithm, with error messages showing the types in
/// covariant positions.
pub fn covariant_subtype(state: &mut State, ctx: Ctx, a: &Type, b: &Type) -> (r: Result<Ctx, Error>)
    ensures
        threads(
            rules::subtype(
                DEPTH_LIMIT as nat,
                ctx@,
                *a,
                *b,
                Variance::Covariant,
                old(state).next(),
            ),
            r,
            final(state).next(),
        ),
{
    subtype(state, ctx, a, b, Variance::Covariant, DEPTH_LIMIT)
}

/// The usual subtyping algorithm, with error messages showing the types in
/// contravariant positions.
pub fn contravariant_subtype(state: &mut State, ctx: Ctx, a: &Type, b: &Type) -> (r: Result<
    Ctx,
    Error,
>)
    ensures
        threads(
            rules::subtype(
                DEPTH_LIMIT as nat,
                ctx@,
                *a,
                *b,
                Variance::Contravariant,
                old(state).next(),
            ),
            r,
            final(state).next(),
        ),
{
    subtype(state, ctx, a, b, Variance::Contravariant, DEPTH_LIMIT)
}

/// Ensures that `a` is a subtype of `b`. Returns an updated `Ctx` if it is, and
/// an `Error` otherwise. `depth` bounds how deep the rules may call each
/// other.
pub fn subtype(state: &mut State, ctx: Ctx, a: &Type, b: &Type, v: Variance, depth: usize) -> (r:
    Result<Ctx, Error>)
    ensures
        threads(
            rules::subtype(depth as nat, ctx@, *a, *b, v, old(state).next()),
            r,
            final(state).next(),
        ),
    decreases depth,
{
    if depth == 0 {
        return Err(internal("subtyping went too deep"));
    }
    match ctx.check_type_well_formed(a) {
        Ok(()) => {},
        Err(e) => {
            return Err(e);
        },
    }
    match ctx.check_type_well_formed(b) {
        Ok(()) => {},
        Err(e) => {
            return Err(e);
        },
    }
    match (a, b) {
        (Type::Arrow(from1, to1), Type::Arrow(from2, to2)) => {
            let ctx = match subtype(state, ctx, from2, from1, Variance::Contravariant, depth - 1) {
                Ok(c) => c,
                Err(e) => {
                    return Err(e);
                },
            };
            let to1 = match to1.apply(&ctx) {
                Ok(t) => t,
                Err(e) => {
                    return Err(e);
                },
            };
            let to2 = match to2.apply(&ctx) {
                Ok(t) => t,
                Err(e) => {
                    return Err(e);
                },
            };
            subtype(state, ctx, &to1, &to2, Variance::Covariant, depth - 1)
        },
        (Type::Existential(to_instantiate), _) => {
            if a.same(b) {
                Ok(ctx)
            } else {
                instantiate_l(state, ctx, *to_instantiate, b, depth - 1)
            }
        },
        (_, Type::Existential(to_instantiate)) => instantiate_r(
            state,
            ctx,
            a,
            *to_instantiate,
            depth - 1,
        ),
        (_, _) => {
            if a.same(b) {
                Ok(ctx)
            } else {
                match v {
                    Variance::Covariant => Err(
                        Error::Mismatch { got: a.duplicate(), expected: b.duplicate() },
                    ),
                    Variance::Contravariant => Err(
                        Error::Mismatch { got: b.duplicate(), expected: a.duplicate() },
                    ),
                }
            }
        },
    }
}

/// Instantiate `to_instantiate` with `t` as an upper-bound.
pub fn instantiate_l(
    state: &mut State,
    ctx: Ctx,
    to_instantiate: Existential,
    t: &Type,
    depth: usize,
) -> (r: Result<Ctx, Error>)
    ensures
        threads(
            rules::instantiate_l(depth as nat, ctx@, to_instantiate, *t, old(state).next()),
            r,
            final(state).next(),
        ),
    decreases depth,
{
    if depth == 0 {
        return Err(internal("instantiation went too deep"));
    }
    let (left, right) = match ctx.split_at(&Element::Existential(to_instantiate)) {
        Ok(p) => p,
        Err(e) => {
            return Err(e);
        },
    };
    if left.check_type_well_formed(t).is_ok() {
        solve(ctx, to_instantiate, t.duplicate(), state)
    } else {
        match t {
            Type::Arrow(from, to) => {
                // Instantiate `to_instantiate` to an arrow `e1 -> e2` and then
                // check that `e1 -> e2 <: from -> to` (i.e. that `from <: e1`
                // and `e2 <: to`)
                let (ctx, inferred_from, inferred_to) = match solve_to_arrow(
                    state,
                    ctx,
                    to_instantiate,
                ) {
                    Ok(p) => p,
                    Err(e) => {
                        return Err(e);
                    },
                };
                let ctx = match instantiate_r(state, ctx, from, inferred_from, depth - 1) {
                    Ok(c) => c,
                    Err(e) => {
                        return Err(e);
                    },
                };
                let to = match to.apply(&ctx) {
                    Ok(t) => t,
                    Err(e) => {
                        return Err(e);
                    },
                };
                instantiate_l(state, ctx, inferred_to, &to, depth - 1)
            },
            Type::Existential(e) => {
                match right.check_type_well_formed(t) {
                    Ok(()) => {},
                    Err(e) => {
                        return Err(e);
                    },
                }
                solve(ctx, *e, Type::Existential(to_instantiate), state)
            },
            Type::Primitive(_) => Err(internal("a primitive type is well formed everywhere")),
        }
    }
}

/// Instantiates `to_instantiate` with `t` as a lower-bound.
pub fn instantiate_r(
    state: &mut State,
    ctx: Ctx,
    t: &Type,
    to_instantiate: Existential,
    depth: usize,
) -> (r: Result<Ctx, Error>)
    ensures
        threads(
            rules::instantiate_r(depth as nat, ctx@, *t, to_instantiate, old(state).next()),
            r,
            final(state).next(),
        ),
    decreases depth,
{
    if depth == 0 {
        return Err(internal("instantiation went too deep"));
    }
    let (left, right) = match ctx.split_at(&Element::Existential(to_instantiate)) {
        Ok(p) => p,
        Err(e) => {
            return Err(e);
        },
    };
    if left.check_type_well_formed(t).is_ok() {
        solve(ctx, to_instantiate, t.duplicate(), state)
    } else {
        match t {
            Type::Arrow(from, to) => {
                // Instantiate `to_instantiate` to an arrow `e1 -> e2` and then
                // check that `from -> to <: e1 -> e2` (i.e. that `e1 <: from`
                // and `to <: e2`)
                let (ctx, inferred_from, inferred_to) = match solve_to_arrow(
                    state,
                    ctx,
                    to_instantiate,
                ) {
                    Ok(p) => p,
                    Err(e) => {
                        return Err(e);
                    },
                };
                let ctx = match instantiate_l(state, ctx, inferred_from, from, depth - 1) {
                    Ok(c) => c,
                    Err(e) => {
                        return Err(e);
                    },
                };
                let to = match to.apply(&ctx) {
                    Ok(t) => t,
                    Err(e) => {
                        return Err(e);
                    },
                };
                instantiate_r(state, ctx, &to, inferred_to, depth - 1)
            },
            Type::Existential(e) => {
                match right.check_type_well_formed(t) {
                    Ok(()) => {},
                    Err(e) => {
                        return Err(e);
                    },
                }
                solve(ctx, *e, Type::Existential(to_instantiate), state)
            },
            Type::Primitive(_) => Err(internal("a primitive type is well formed everywhere")),
        }
    }
}

/// Applies the context to `t` and makes the result a subtype of `want`.
fn constrain(state: &mut State, ctx: Ctx, t: &Type, want: &Type) -> (r: Result<Ctx, Error>)
    ensures
        threads(rules::constrain(ctx@, *t, *want, old(state).next()), r, final(state).next()),
{
    let t = match t.apply(&ctx) {
        Ok(t) => t,
        Err(e) => {
            return Err(e);
        },
    };
    covariant_subtype(state, ctx, &t, want)
}

/// Check whether literal `l` has the primitive type `p`.
fn check_literal_type(ctx: Ctx, l: &Literal, p: &Primitive) -> (r: Result<Ctx, Error>)
    ensures
        rules::literal_type(*l) == Type::Primitive(*p) ==> (r matches Ok(c) && c@ == ctx@),
        rules::literal_type(*l) != Type::Primitive(*p) ==> r == Err::<Ctx, Error>(
            Error::Mismatch { got: rules::literal_type(*l), expected: Type::Primitive(*p) },
        ),
{
    match (l, p) {
        (Literal::Bool(_), Primitive::Bool) | (Literal::Num(_), Primitive::Num) | (
            Literal::Unit,
            Primitive::Unit,
        ) => Ok(ctx),
        (l, p) => Err(Error::Mismatch { got: literal_type(l), expected: Type::Primitive(*p) }),
    }
}

/// Synthesize a type for `e`. Returns both the synthesized `Type` and the
/// updated `Ctx` if successful, and an `Error` otherwise.
#[verifier::rlimit(60)]
pub fn synthesize_type(state: &mut State, ctx: Ctx, e: &Expr) -> (r: Result<(Type, Ctx), Error>)
    ensures
        synthesizes(rules::synth(*e, ctx@, old(state).next()), r, final(state).next()),
    decreases e, 0nat,
{
    match e {
        Expr::Literal(l) => Ok((literal_type(l), ctx)),
        Expr::Var(id, _) => {
            let t = match ctx.get_annotation(*id) {
                Ok(t) => t.duplicate(),
                Err(e) => {
                    return Err(e);
                },
            };
            Ok((t, ctx))
        },
        Expr::Ascribed(e, t) => {
            match ctx.check_type_well_formed(t) {
                Ok(()) => {},
                Err(e) => {
                    return Err(e);
                },
            }
            let ctx = match check_type(state, ctx, e, t) {
                Ok(c) => c,
                Err(e) => {
                    return Err(e);
                },
            };
            Ok((t.duplicate(), ctx))
        },
        Expr::Lambda(id, t, e) => {
            let (from_ty, ctx) = match t {
                Some(t) => {
                    match ctx.check_type_well_formed(t) {
                        Ok(()) => {},
                        Err(e) => {
                            return Err(e);
                        },
                    }
                    (t.duplicate(), ctx)
                },
                None => {
                    let from = match state.fresh_existential() {
                        Ok(a) => a,
                        Err(e) => {
                            return Err(e);
                        },
                    };
                    let ctx = ctx.add(Element::Existential(from));
                    (Type::Existential(from), ctx)
                },
            };
            let to = match state.fresh_existential() {
                Ok(a) => a,
                Err(e) => {
                    return Err(e);
                },
            };
            // Insert the existential types into the context, as well as `v: inferred_from`.
            let ctx = ctx.add(Element::Existential(to)).add(
                Element::TypedVariable(*id, from_ty.duplicate()),
            );
            // Then check that the lambda's body typechecks as `inferred_to` in that context
            let ctx = match check_type(state, ctx, e, &Type::Existential(to)) {
                Ok(c) => c,
                Err(e) => {
                    return Err(e);
                },
            };
            // if so then it must have type `inferred_from -> inferred_to`
            Ok((Type::Arrow(Box::new(from_ty), Box::new(Type::Existential(to))), ctx))
        },
        Expr::App(e1, e2) => {
            let (t, ctx) = match synthesize_type(state, ctx, e1) {
                Ok(p) => p,
                Err(e) => {
                    return Err(e);
                },
            };
            let applied = match t.apply(&ctx) {
                Ok(t) => t,
                Err(e) => {
                    return Err(e);
                },
            };
            match applied {
                Type::Existential(a) => {
                    let (ctx, from, to) = match solve_to_arrow(state, ctx, a) {
                        Ok(p) => p,
                        Err(e) => {
                            return Err(e);
                        },
                    };
                    let ctx = match check_type(state, ctx, e2, &Type::Existential(from)) {
                        Ok(c) => c,
                        Err(e) => {
                            return Err(e);
                        },
                    };
                    Ok((Type::Existential(to), ctx))
                },
                Type::Arrow(from, to) => {
                    let ctx = match check_type(state, ctx, e2, &from) {
                        Ok(c) => c,
                        Err(e) => {
                            return Err(e);
                        },
                    };
                    Ok((*to, ctx))
                },
                t => Err(Error::InvalidApplication(t)),
            }
        },
        Expr::Let(rec, id, binding, body) => {
            let (bound, ctx) = if *rec {
                let binding_existential = match state.fresh_existential() {
                    Ok(a) => a,
                    Err(e) => {
                        return Err(e);
                    },
                };
                let ctx = ctx.add(Element::Existential(binding_existential)).add(
                    Element::TypedVariable(*id, Type::Existential(binding_existential)),
                );
                let (_, ctx) = match synthesize_type(state, ctx, binding) {
                    Ok(p) => p,
                    Err(e) => {
                        return Err(e);
                    },
                };
                (Type::Existential(binding_existential), ctx)
            } else {
                let (binding_type, ctx) = match synthesize_type(state, ctx, binding) {
                    Ok(p) => p,
                    Err(e) => {
                        return Err(e);
                    },
                };
                let ctx = ctx.add(Element::TypedVariable(*id, binding_type.duplicate()));
                (binding_type, ctx)
            };
            let (body_type, ctx) = match synthesize_type(state, ctx, body) {
                Ok(p) => p,
                Err(e) => {
                    return Err(e);
                },
            };
            let nothing: Vec<Element> = Vec::new();
            assert(nothing@ =~= Seq::<Element>::empty());
            match ctx.insert_in_place(Element::TypedVariable(*id, bound), nothing) {
                Ok(ctx) => Ok((body_type, ctx)),
                Err(e) => Err(e),
            }
        },
        Expr::IfThenElse(cond, thn, els) => {
            let (cond_type, ctx) = match synthesize_type(state, ctx, cond) {
                Ok(p) => p,
                Err(e) => {
                    return Err(e);
                },
            };
            let ctx = match covariant_subtype(state, ctx, &cond_type, &Type::bool()) {
                Ok(c) => c,
                Err(e) => {
                    return Err(e);
                },
            };
            let (thn_ty, ctx) = match synthesize_type(state, ctx, thn) {
                Ok(p) => p,
                Err(e) => {
                    return Err(e);
                },
            };
            let ctx = match check_type(state, ctx, els, &thn_ty) {
                Ok(c) => c,
                Err(e) => {
                    return Err(e);
                },
            };
            Ok((thn_ty, ctx))
        },
        Expr::Op(l, op, r) => {
            let (l_ty, ctx) = match synthesize_type(state, ctx, l) {
                Ok(p) => p,
                Err(e) => {
                    return Err(e);
                },
            };
            let (r_ty, ctx) = match synthesize_type(state, ctx, r) {
                Ok(p) => p,
                Err(e) => {
                    return Err(e);
                },
            };
            let want = match op {
                BinaryOp::Eq => {
                    return Ok((Type::bool(), ctx));
                },
                BinaryOp::And => Type::bool(),
                BinaryOp::Mul | BinaryOp::Div | BinaryOp::Add | BinaryOp::Sub => Type::num(),
            };
            let ctx = match constrain(state, ctx, &l_ty, &want) {
                Ok(c) => c,
                Err(e) => {
                    return Err(e);
                },
            };
            let ctx = match constrain(state, ctx, &r_ty, &want) {
                Ok(c) => c,
                Err(e) => {
                    return Err(e);
                },
            };
            Ok((want, ctx))
        },
    }
}

/// Check that `e` has type `t`. Returns an updated `Ctx` if it is, and an
/// `Error` otherwise.
pub fn check_type(state: &mut State, ctx: Ctx, e: &Expr, t: &Type) -> (r: Result<Ctx, Error>)
    ensures
        threads(rules::check(*e, *t, ctx@, old(state).next()), r, final(state).next()),
    decreases e, 1nat,
{
    match ctx.check_type_well_formed(t) {
        Ok(()) => {},
        Err(e) => {
            return Err(e);
        },
    }
    match (e, t) {
        (Expr::Literal(l), Type::Primitive(p)) => check_literal_type(ctx, l, p),
        (Expr::Lambda(id, arg_annot, e), Type::Arrow(from_ty, to_ty)) => {
            let ctx = match arg_annot {
                Some(t) => match contravariant_subtype(state, ctx, from_ty, t) {
                    Ok(c) => c,
                    Err(e) => {
                        return Err(e);
                    },
                },
                None => ctx,
            };
            // Insert the newly known type - i.e. `v: from_ty` - into the context
            let typed_var = Element::TypedVariable(*id, from_ty.duplicate());
            let ctx = ctx.add(typed_var.duplicate());
            // Check the body of the lambda against the `to_ty`, and then, if we succeed,
            // drop everything from `typed_var` on from the context.
            // Note that in particular any earlier existentials which got solved during this
            // call will stick around.
            match check_type(state, ctx, e, to_ty) {
                Ok(ctx) => ctx.drop(&typed_var),
                Err(e) => Err(e),
            }
        },
        (_, _) => {
            let (inferred_t, ctx) = match synthesize_type(state, ctx, e) {
                Ok(p) => p,
                Err(e) => {
                    return Err(e);
                },
            };
            let t = match t.apply(&ctx) {
                Ok(t) => t,
                Err(e) => {
                    return Err(e);
                },
            };
            constrain(state, ctx, &inferred_t, &t)
        },
    }
}

} // verus!
