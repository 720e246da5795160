//! The type checker as a value: it keeps the source of fresh existentials
//! from one inference to the next.
use crate::ast::Expr;
use crate::typ::checker::{synthesize_type, State};
use crate::typ::ctx::Ctx;
use crate::typ::rules;
use crate::typ::{Error, Type};
use vstd::prelude::*;

verus! {

/// A new type checker.
pub fn er() -> (checker: TypeChecker)
    ensures
        checker.next() == 0,
{
    TypeChecker::new()
}

/// A type checker.
pub struct TypeChecker {
    state: State,
}

impl TypeChecker {
    /// The number of the next fresh existential.
    pub closed spec fn next(&self) -> usize {
        self.state.next()
    }

    /// A type checker that has given out no existential.
    pub fn new() -> (checker: TypeChecker)
        ensures
            checker.next() == 0,
    {
        TypeChecker { state: State::new() }
    }

    /// Infers the type of `e`: synthesizes a type for it in the empty
    /// context and applies the context that comes out to that type.
    pub fn infer(&mut self, e: &Expr) -> (r: Result<Type, Error>)
        ensures
            match rules::inferred_from(*e, old(self).next()) {
                Ok((t, n)) => r == Ok::<Type, Error>(t) && final(self).next() == n,
                Err(f) => r matches Err(err) && err@ == f,
            },
    {
        let (t, ctx) = match synthesize_type(&mut self.state, Ctx::new(), e) {
            Ok(p) => p,
            Err(e) => {
                return Err(e);
            },
        };
        t.apply(&ctx)
    }
}

} // verus!
