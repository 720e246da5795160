//! Scope checking: every variable is given the de Bruijn index of its
//! binder, and a variable without a binder is reported.
use crate::ast::{Expr, RawExpr};
use crate::error::{Error, ParseError};
use crate::interner::Id;
use vstd::prelude::*;

verus! {

/// The de Bruijn index of `id` in `scope`: the number of binders between the
/// newest binder, which is last in `scope`, and the newest binder of `id`.
pub open spec fn index_of_binder(scope: Seq<Id>, id: Id) -> Option<nat>
    decreases scope.len(),
{
    if scope.len() == 0 {
        None
    } else if scope.last() == id {
        Some(0)
    } else {
        match index_of_binder(scope.drop_last(), id) {
            Some(n) => Some(n + 1),
            None => None,
        }
    }
}

/// The scope-checked form of `e` under the binders `scope`, or the first
/// identifier, in the order of reading, that has no binder.
pub open spec fn resolved(e: RawExpr, scope: Seq<Id>) -> Result<Expr, Id>
    decreases e,
{
    match e {
        RawExpr::Ascribed(inner, t) => match resolved(*inner, scope) {
            Ok(inner) => Ok(Expr::Ascribed(Box::new(inner), t)),
            Err(id) => Err(id),
        },
        RawExpr::App(fnc, arg) => match resolved(*fnc, scope) {
            Ok(fnc) => match resolved(*arg, scope) {
                Ok(arg) => Ok(Expr::App(Box::new(fnc), Box::new(arg))),
                Err(id) => Err(id),
            },
            Err(id) => Err(id),
        },
        RawExpr::Lambda(id, ty, body) => match resolved(*body, scope.push(id)) {
            Ok(body) => Ok(Expr::Lambda(id, ty, Box::new(body))),
            Err(id) => Err(id),
        },
        RawExpr::Let(rec, id, binding, body) => match resolved(
            *binding,
            if rec {
                scope.push(id)
            } else {
                scope
            },
        ) {
            Ok(binding) => match resolved(*body, scope.push(id)) {
                Ok(body) => Ok(Expr::Let(rec, id, Box::new(binding), Box::new(body))),
                Err(id) => Err(id),
            },
            Err(id) => Err(id),
        },
        RawExpr::Literal(l) => Ok(Expr::Literal(l)),
        RawExpr::IfThenElse(cond, thn, els) => match resolved(*cond, scope) {
            Ok(cond) => match resolved(*thn, scope) {
                Ok(thn) => match resolved(*els, scope) {
                    Ok(els) => Ok(Expr::IfThenElse(Box::new(cond), Box::new(thn), Box::new(els))),
                    Err(id) => Err(id),
                },
                Err(id) => Err(id),
            },
            Err(id) => Err(id),
        },
        RawExpr::Op(l, op, r) => match resolved(*l, scope) {
            Ok(l) => match resolved(*r, scope) {
                Ok(r) => Ok(Expr::Op(Box::new(l), op, Box::new(r))),
                Err(id) => Err(id),
            },
            Err(id) => Err(id),
        },
        RawExpr::Var(id) => match index_of_binder(scope, id) {
            Some(n) => Ok(Expr::Var(id, n as usize)),
            None => Err(id),
        },
    }
}

/// Every variable of `e` carries the index of its binder: under the binders
/// `scope`, the binder at that distance binds the variable's name, and no
/// nearer binder does.
pub open spec fn well_scoped(e: Expr, scope: Seq<Id>) -> bool
    decreases e,
{
    match e {
        Expr::Ascribed(inner, _) => well_scoped(*inner, scope),
        Expr::App(fnc, arg) => well_scoped(*fnc, scope) && well_scoped(*arg, scope),
        Expr::Lambda(id, _, body) => well_scoped(*body, scope.push(id)),
        Expr::Let(rec, id, binding, body) => well_scoped(
            *binding,
            if rec {
                scope.push(id)
            } else {
                scope
            },
        ) && well_scoped(*body, scope.push(id)),
        Expr::Literal(_) => true,
        Expr::IfThenElse(cond, thn, els) => well_scoped(*cond, scope) && well_scoped(*thn, scope)
            && well_scoped(*els, scope),
        Expr::Op(l, _, r) => well_scoped(*l, scope) && well_scoped(*r, scope),
        Expr::Var(id, i) => {
            &&& i < scope.len()
            &&& scope[scope.len() - 1 - i] == id
            &&& forall|k: int| scope.len() - 1 - i < k < scope.len() ==> scope[k] != id
        },
    }
}

/// The index of a binder is under the number of binders, names the newest
/// binder of the identifier, and exists whenever the identifier is bound.
pub proof fn lemma_index_of_binder(scope: Seq<Id>, id: Id)
    ensures
        match index_of_binder(scope, id) {
            Some(n) => {
                &&& n < scope.len()
                &&& scope[scope.len() - 1 - n] == id
                &&& forall|k: int| scope.len() - 1 - n < k < scope.len() ==> scope[k] != id
            },
            None => !scope.contains(id),
        },
    decreases scope.len(),
{
    if scope.len() > 0 {
        let rest = scope.drop_last();
        lemma_index_of_binder(rest, id);
        if scope.last() != id {
            match index_of_binder(rest, id) {
                Some(n) => {
                    assert(rest[rest.len() - 1 - n] == scope[scope.len() - 1 - (n + 1)]);
                    assert forall|k: int| scope.len() - 1 - (n + 1) < k < scope.len() implies scope[k]
                        != id by {
                        if k < rest.len() {
                            assert(rest[k] == scope[k]);
                        }
                    }
                },
                None => {
                    assert forall|k: int| 0 <= k < scope.len() implies scope[k] != id by {
                        if k < rest.len() {
                            assert(rest[k] == scope[k]);
                            assert(!rest.contains(id));
                        }
                    }
                },
            }
        }
    }
}

/// The scope checker: the binders around the expression being checked,
/// the newest last.
pub struct ScopeChecker {
    idents: Vec<Id>,
}

impl ScopeChecker {
    /// The binders in scope, the newest last.
    pub closed spec fn scope(&self) -> Seq<Id> {
        self.idents@
    }

    /// A scope checker with no binder in scope.
    pub fn new() -> (checker: ScopeChecker)
        ensures
            checker.scope() == Seq::<Id>::empty(),
    {
        let idents = Vec::new();
        ScopeChecker { idents }
    }

    /// The de Bruijn index of `id`, if it is bound.
    fn index_of(&self, id: Id) -> (r: Option<usize>)
        ensures
            match index_of_binder(self.scope(), id) {
                Some(n) => r == Some(n as usize) && n < self.scope().len() <= usize::MAX,
                None => r is None,
            },
    {
        let len = self.idents.len();
        let mut i: usize = 0;
        proof {
            assert(self.idents@.take(len as int) =~= self.idents@);
            lemma_index_of_binder(self.idents@, id);
        }
        while i < len
            invariant
                len == self.idents@.len(),
                i <= len,
                index_of_binder(self.idents@, id) == match index_of_binder(
                    self.idents@.take(len - i),
                    id,
                ) {
                    Some(n) => Some((n + i) as nat),
                    None => None,
                },
                index_of_binder(self.idents@.take(len - i), id) matches Some(n) ==> n < len - i,
            decreases len - i,
        {
            proof {
                let upto = self.idents@.take(len - i);
                assert(upto.drop_last() =~= self.idents@.take(len - i - 1));
                lemma_index_of_binder(upto.drop_last(), id);
            }
            if self.idents[len - 1 - i] == id {
                return Some(i);
            }
            i = i + 1;
        }
        proof {
            assert(self.idents@.take(0).len() == 0);
        }
        None
    }

    /// Resolves the variables of `raw_expr` under the binders in scope.
    /// What comes back is well scoped, and the binders in scope are as they
    /// were; or the first identifier without a binder is reported.
    pub fn check(&mut self, raw_expr: RawExpr) -> (r: Result<Expr, Error>)
        ensures
            match resolved(raw_expr, old(self).scope()) {
                Ok(x) => {
                    &&& r == Ok::<Expr, Error>(x)
                    &&& final(self).scope() == old(self).scope()
                    &&& well_scoped(x, old(self).scope())
                },
                Err(id) => r == Err::<Expr, Error>(
                    Error::ParseError(ParseError::UnboundIdentifier { ident: id }),
                ),
            },
        decreases raw_expr,
    {
        match raw_expr {
            RawExpr::Ascribed(e, t) => {
                let e = match self.check(*e) {
                    Ok(x) => x,
                    Err(err) => {
                        return Err(err);
                    },
                };
                Ok(Expr::Ascribed(Box::new(e), t))
            },
            RawExpr::App(fnc, arg) => {
                let fnc = match self.check(*fnc) {
                    Ok(x) => x,
                    Err(err) => {
                        return Err(err);
                    },
                };
                let arg = match self.check(*arg) {
                    Ok(x) => x,
                    Err(err) => {
                        return Err(err);
                    },
                };
                Ok(Expr::App(Box::new(fnc), Box::new(arg)))
            },
            RawExpr::Lambda(id, ty, body) => {
                self.idents.push(id);
                let body = match self.check(*body) {
                    Ok(x) => x,
                    Err(err) => {
                        return Err(err);
                    },
                };
                self.idents.pop();
                assert(self.idents@ =~= old(self).idents@);
                Ok(Expr::Lambda(id, ty, Box::new(body)))
            },
            RawExpr::Let(rec, ident, binding, body) => {
                let (binding, body) = if rec {
                    self.idents.push(ident);
                    let binding = match self.check(*binding) {
                    Ok(x) => x,
                    Err(err) => {
                        return Err(err);
                    },
                };
                    let body = match self.check(*body) {
                    Ok(x) => x,
                    Err(err) => {
                        return Err(err);
                    },
                };
                    (binding, body)
                } else {
                    let binding = match self.check(*binding) {
                    Ok(x) => x,
                    Err(err) => {
                        return Err(err);
                    },
                };
                    self.idents.push(ident);
                    let body = match self.check(*body) {
                    Ok(x) => x,
                    Err(err) => {
                        return Err(err);
                    },
                };
                    (binding, body)
                };
                self.idents.pop();
                assert(self.idents@ =~= old(self).idents@);
                Ok(Expr::Let(rec, ident, Box::new(binding), Box::new(body)))
            },
            RawExpr::Literal(v) => Ok(Expr::Literal(v)),
            RawExpr::IfThenElse(cond, thn, els) => {
                let cond = match self.check(*cond) {
                    Ok(x) => x,
                    Err(err) => {
                        return Err(err);
                    },
                };
                let thn = match self.check(*thn) {
                    Ok(x) => x,
                    Err(err) => {
                        return Err(err);
                    },
                };
                let els = match self.check(*els) {
                    Ok(x) => x,
                    Err(err) => {
                        return Err(err);
                    },
                };
                Ok(Expr::IfThenElse(Box::new(cond), Box::new(thn), Box::new(els)))
            },
            RawExpr::Op(l, op, r) => {
                let l = match self.check(*l) {
                    Ok(x) => x,
                    Err(err) => {
                        return Err(err);
                    },
                };
                let r = match self.check(*r) {
                    Ok(x) => x,
                    Err(err) => {
                        return Err(err);
                    },
                };
                Ok(Expr::Op(Box::new(l), op, Box::new(r)))
            },
            RawExpr::Var(id) => {
                proof {
                    lemma_index_of_binder(self.idents@, id);
                }
                match self.index_of(id) {
                    Some(de_bruijn_idx) => Ok(Expr::Var(id, de_bruijn_idx)),
                    None => Err(Error::ParseError(ParseError::UnboundIdentifier { ident: id })),
                }
            },
        }
    }
}

} // verus!
