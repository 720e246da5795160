//! Runtime values.
use crate::ast::Literal;
use crate::env::{Env, EnvView};
use crate::error::{EvaluationError, EvaluationFault};
use crate::num::{bits_equal, Number};
use crate::vm::stack::Stack;
use crate::vm::{duplicate_code, ops_model, Op, OpModel};
use vstd::prelude::*;

verus! {

/// A runtime value. A closure holds its code and the environment it was
/// made in; the environment binds cells of the machine's store. `Dummy` is
/// what the cell of a recursive binding holds until the binding is known.
#[derive(Debug, PartialEq)]
pub enum Val {
    Bool(bool),
    Closure { body: Stack<Op>, env: Env<usize> },
    Dummy,
    Num(Number),
    Unit,
}

/// What a value is: code as a sequence, the environment as its bindings.
pub enum ValModel {
    Bool(bool),
    Closure { body: Seq<OpModel>, env: EnvView<usize> },
    Dummy,
    Num(Number),
    Unit,
}

impl View for Val {
    type V = ValModel;

    open spec fn view(&self) -> ValModel
        decreases self,
    {
        match self {
            Val::Bool(b) => ValModel::Bool(*b),
            Val::Closure { body, env } => ValModel::Closure { body: ops_model(body.0@), env: env@ },
            Val::Dummy => ValModel::Dummy,
            Val::Num(n) => ValModel::Num(*n),
            Val::Unit => ValModel::Unit,
        }
    }
}

impl ValModel {
    /// The value that a literal denotes.
    pub open spec fn of_literal(l: Literal) -> ValModel {
        match l {
            Literal::Bool(b) => ValModel::Bool(b),
            Literal::Num(n) => ValModel::Num(n),
            Literal::Unit => ValModel::Unit,
        }
    }

    /// Equality of two values: defined between two booleans, two numbers
    /// and two units; refused between two closures; an internal error between
    /// values of any other two kinds.
    pub open spec fn try_eq(self, other: ValModel) -> Result<bool, EvaluationFault> {
        match (self, other) {
            (ValModel::Bool(l), ValModel::Bool(r)) => Ok(l == r),
            (ValModel::Num(l), ValModel::Num(r)) => Ok(bits_equal(l.bits, r.bits)),
            (ValModel::Unit, ValModel::Unit) => Ok(true),
            (ValModel::Closure { .. }, ValModel::Closure { .. }) => Err(
                EvaluationFault::IllegalEquality,
            ),
            (_, _) => Err(EvaluationFault::Internal),
        }
    }
}

impl Val {
    /// The value that a literal denotes.
    pub fn from_literal(l: Literal) -> (v: Val)
        ensures
            v@ == ValModel::of_literal(l),
    {
        match l {
            Literal::Bool(b) => Val::Bool(b),
            Literal::Num(n) => Val::Num(n),
            Literal::Unit => Val::Unit,
        }
    }

    /// The number that this value is.
    pub fn as_num(self) -> (r: Result<Number, EvaluationError>)
        ensures
            match self {
                Val::Num(n) => r == Ok::<Number, EvaluationError>(n),
                _ => r matches Err(e) && e@ == EvaluationFault::Internal,
            },
    {
        match self {
            Val::Num(n) => Ok(n),
            _ => Err(EvaluationError::internal("expected Num, got another kind of value")),
        }
    }

    /// The boolean that this value is.
    pub fn as_bool(self) -> (r: Result<bool, EvaluationError>)
        ensures
            match self {
                Val::Bool(b) => r == Ok::<bool, EvaluationError>(b),
                _ => r matches Err(e) && e@ == EvaluationFault::Internal,
            },
    {
        match self {
            Val::Bool(b) => Ok(b),
            _ => Err(EvaluationError::internal("expected Bool, got another kind of value")),
        }
    }

    /// Whether the two values are equal, where equality is defined.
    pub fn try_eq(&self, other: &Val) -> (r: Result<bool, EvaluationError>)
        ensures
            match self@.try_eq(other@) {
                Ok(b) => r == Ok::<bool, EvaluationError>(b),
                Err(f) => r matches Err(e) && e@ == f,
            },
    {
        match (self, other) {
            (Val::Bool(l), Val::Bool(r)) => Ok(*l == *r),
            (Val::Num(l), Val::Num(r)) => Ok(l.equals(*r)),
            (Val::Unit, Val::Unit) => Ok(true),
            (Val::Closure { .. }, Val::Closure { .. }) => Err(EvaluationError::IllegalEquality),
            (_, _) => Err(EvaluationError::internal("equality between values of two kinds")),
        }
    }

    /// A copy of this value.
    pub fn duplicate(&self) -> (v: Val)
        ensures
            v@ == self@,
        decreases self,
    {
        match self {
            Val::Bool(b) => Val::Bool(*b),
            Val::Closure { body, env } => Val::Closure {
                body: duplicate_code(body),
                env: env.duplicate(),
            },
            Val::Dummy => Val::Dummy,
            Val::Num(n) => Val::Num(*n),
            Val::Unit => Val::Unit,
        }
    }
}

} // verus!
