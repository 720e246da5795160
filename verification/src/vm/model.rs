//! What the machine does, stated on models: one function from a machine
//! state to the next, and its iteration.
use crate::ast::BinaryOp;
use crate::env::EnvView;
use crate::error::EvaluationFault;
use crate::num::{bits_are_zero, double_add, double_div, double_mul, double_sub, Number};
use crate::values::ValModel;
use crate::vm::{MarkerModel, OpModel};
use vstd::prelude::*;

verus! {

/// The state of the machine.
pub struct MachineModel {
    /// The code that is left to run; its last instruction runs next.
    pub code: Seq<OpModel>,
    /// The current environment. It binds cells of the store.
    pub env: EnvView<usize>,
    /// The stack of markers, bottom first.
    pub stack: Seq<MarkerModel>,
    /// The content of every cell, at the cell's index.
    pub store: Seq<ValModel>,
}

/// A stack without its top, which must be a value, and that value.
pub open spec fn pop_val(stack: Seq<MarkerModel>) -> Result<
    (ValModel, Seq<MarkerModel>),
    EvaluationFault,
> {
    if stack.len() > 0 {
        match stack.last() {
            MarkerModel::Val(v) => Ok((v, stack.drop_last())),
            _ => Err(EvaluationFault::Internal),
        }
    } else {
        Err(EvaluationFault::Internal)
    }
}

/// A stack without its top, which must be code, and that code.
pub open spec fn pop_code(stack: Seq<MarkerModel>) -> Result<
    (Seq<OpModel>, Seq<MarkerModel>),
    EvaluationFault,
> {
    if stack.len() > 0 {
        match stack.last() {
            MarkerModel::Code(c) => Ok((c, stack.drop_last())),
            _ => Err(EvaluationFault::Internal),
        }
    } else {
        Err(EvaluationFault::Internal)
    }
}

/// A stack without its top, which must be an environment, and that
/// environment.
pub open spec fn pop_env(stack: Seq<MarkerModel>) -> Result<
    (EnvView<usize>, Seq<MarkerModel>),
    EvaluationFault,
> {
    if stack.len() > 0 {
        match stack.last() {
            MarkerModel::Env(e) => Ok((e, stack.drop_last())),
            _ => Err(EvaluationFault::Internal),
        }
    } else {
        Err(EvaluationFault::Internal)
    }
}

/// A stack without its top, which must be an application delimiter.
pub open spec fn pop_app_delim(stack: Seq<MarkerModel>) -> Result<
    Seq<MarkerModel>,
    EvaluationFault,
> {
    if stack.len() > 0 {
        match stack.last() {
            MarkerModel::AppDelim => Ok(stack.drop_last()),
            _ => Err(EvaluationFault::Internal),
        }
    } else {
        Err(EvaluationFault::Internal)
    }
}

/// A stack without the return frame on its top: a delimiter, under it the
/// caller's code, under that the caller's environment.
pub open spec fn pop_frame(stack: Seq<MarkerModel>) -> Result<
    (Seq<OpModel>, EnvView<usize>, Seq<MarkerModel>),
    EvaluationFault,
> {
    match pop_app_delim(stack) {
        Err(f) => Err(f),
        Ok(s1) => match pop_code(s1) {
            Err(f) => Err(f),
            Ok((code, s2)) => match pop_env(s2) {
                Err(f) => Err(f),
                Ok((env, s3)) => Ok((code, env, s3)),
            },
        },
    }
}

/// The result of a binary operator on two values.
pub open spec fn binary_result(op: BinaryOp, l: ValModel, r: ValModel) -> Result<
    ValModel,
    EvaluationFault,
> {
    match op {
        BinaryOp::Eq => match l.try_eq(r) {
            Ok(b) => Ok(ValModel::Bool(b)),
            Err(f) => Err(f),
        },
        BinaryOp::And => match (l, r) {
            (ValModel::Bool(a), ValModel::Bool(b)) => Ok(ValModel::Bool(a && b)),
            _ => Err(EvaluationFault::Internal),
        },
        _ => match (l, r) {
            (ValModel::Num(a), ValModel::Num(b)) => match op {
                BinaryOp::Add => Ok(ValModel::Num(Number { bits: double_add(a.bits, b.bits) })),
                BinaryOp::Sub => Ok(ValModel::Num(Number { bits: double_sub(a.bits, b.bits) })),
                BinaryOp::Mul => Ok(ValModel::Num(Number { bits: double_mul(a.bits, b.bits) })),
                _ => if bits_are_zero(b.bits) {
                    Err(EvaluationFault::DivisionByZero)
                } else {
                    Ok(ValModel::Num(Number { bits: double_div(a.bits, b.bits) }))
                },
            },
            _ => Err(EvaluationFault::Internal),
        },
    }
}

/// The first cell, from the newest binding to the oldest, that holds
/// `Dummy`. A binding that names no cell of the store is passed over.
pub open spec fn first_dummy(bindings: Seq<usize>, store: Seq<ValModel>) -> Option<usize>
    decreases bindings.len(),
{
    if bindings.len() == 0 {
        None
    } else {
        let cell = bindings.last();
        if cell < store.len() && store[cell as int] is Dummy {
            Some(cell)
        } else {
            first_dummy(bindings.drop_last(), store)
        }
    }
}

impl MachineModel {
    /// The machine at its start: `code` to run, nothing bound, nothing on
    /// the stack, no cell.
    pub open spec fn start(code: Seq<OpModel>) -> MachineModel {
        MachineModel {
            code,
            env: EnvView::empty(),
            stack: Seq::empty(),
            store: Seq::empty(),
        }
    }

    /// `Access(i)`: push the content of the cell bound at index `i`.
    pub open spec fn access(self, i: usize) -> Result<MachineModel, EvaluationFault> {
        match self.env.lookup(i as nat) {
            Some(cell) => if cell < self.store.len() {
                Ok(
                    MachineModel {
                        stack: self.stack.push(MarkerModel::Val(self.store[cell as int])),
                        ..self
                    },
                )
            } else {
                Err(EvaluationFault::Internal)
            },
            None => Err(EvaluationFault::Internal),
        }
    }

    /// `Apply()`: pop a closure and install its code and environment.
    pub open spec fn apply(self) -> Result<MachineModel, EvaluationFault> {
        match pop_val(self.stack) {
            Ok((ValModel::Closure { body, env }, rest)) => Ok(
                MachineModel { code: body, env, stack: rest, ..self },
            ),
            _ => Err(EvaluationFault::Internal),
        }
    }

    /// `Binary(op)`: pop the right operand, pop the left operand, push the
    /// result.
    pub open spec fn binary(self, op: BinaryOp) -> Result<MachineModel, EvaluationFault> {
        match pop_val(self.stack) {
            Err(f) => Err(f),
            Ok((r, s1)) => match pop_val(s1) {
                Err(f) => Err(f),
                Ok((l, s2)) => match binary_result(op, l, r) {
                    Err(f) => Err(f),
                    Ok(v) => Ok(MachineModel { stack: s2.push(MarkerModel::Val(v)), ..self }),
                },
            },
        }
    }

    /// `Closure(body)`: freeze the environment and push a closure over it.
    pub open spec fn closure(self, body: Seq<OpModel>) -> MachineModel {
        MachineModel {
            env: self.env.freeze(),
            stack: self.stack.push(
                MarkerModel::Val(ValModel::Closure { body, env: self.env.freeze() }),
            ),
            ..self
        }
    }

    /// The machine after a new cell that holds `v` was bound.
    pub open spec fn bind_new_cell(self, v: ValModel) -> MachineModel {
        MachineModel {
            env: self.env.bind(self.store.len() as usize),
            store: self.store.push(v),
            ..self
        }
    }

    /// `EndLet()`: drop the newest binding, also where a snapshot has
    /// frozen it since it was bound.
    pub open spec fn end_let(self) -> MachineModel {
        MachineModel { env: self.env.without_newest(), ..self }
    }

    /// Whether `Return()` finds a closure on top of the stack and an
    /// argument waiting under it.
    pub open spec fn returns_into_call(self) -> bool {
        &&& self.stack.len() >= 2
        &&& self.stack.last() matches MarkerModel::Val(ValModel::Closure { .. })
        &&& self.stack[self.stack.len() - 2] is Val
    }

    /// `Return()`: with a closure on top and an argument under it, enter
    /// the closure; else hand the value on top to the caller, whose code and
    /// environment the return frame holds.
    pub open spec fn ret(self) -> Result<MachineModel, EvaluationFault> {
        if self.returns_into_call() {
            self.apply()
        } else {
            match pop_val(self.stack) {
                Err(f) => Err(f),
                Ok((v, s1)) => match pop_frame(s1) {
                    Err(f) => Err(f),
                    Ok((code, env, s2)) => Ok(
                        MachineModel {
                            code,
                            env,
                            stack: s2.push(MarkerModel::Val(v)),
                            ..self
                        },
                    ),
                },
            }
        }
    }

    /// `Sel(thn, els)`: pop a boolean, run the branch it chooses, and keep
    /// the code that follows on the stack.
    pub open spec fn sel(self, thn: Seq<OpModel>, els: Seq<OpModel>) -> Result<
        MachineModel,
        EvaluationFault,
    > {
        match pop_val(self.stack) {
            Ok((ValModel::Bool(b), rest)) => Ok(
                MachineModel {
                    code: if b {
                        thn
                    } else {
                        els
                    },
                    stack: rest.push(MarkerModel::Code(self.code)),
                    ..self
                },
            ),
            _ => Err(EvaluationFault::Internal),
        }
    }

    /// `Join()`: pop the branch's value, go back to the code that `Sel`
    /// kept, push the value.
    pub open spec fn join(self) -> Result<MachineModel, EvaluationFault> {
        match pop_val(self.stack) {
            Err(f) => Err(f),
            Ok((v, s1)) => match pop_code(s1) {
                Err(f) => Err(f),
                Ok((code, s2)) => Ok(
                    MachineModel { code, stack: s2.push(MarkerModel::Val(v)), ..self },
                ),
            },
        }
    }

    /// `Grab()`: with a value on top, bind it in a new cell; else the
    /// arguments have run out: go back to the caller with a closure over the
    /// code that is left, `Grab()` included, and the current environment.
    pub open spec fn grab(self) -> Result<MachineModel, EvaluationFault> {
        if self.stack.len() > 0 && self.stack.last() is Val {
            match self.stack.last() {
                MarkerModel::Val(v) => Ok(
                    MachineModel { stack: self.stack.drop_last(), ..self }.bind_new_cell(v),
                ),
                _ => Err(EvaluationFault::Internal),
            }
        } else {
            match pop_frame(self.stack) {
                Err(f) => Err(f),
                Ok((code, env, rest)) => Ok(
                    MachineModel {
                        code,
                        env,
                        stack: rest.push(
                            MarkerModel::Val(
                                ValModel::Closure {
                                    body: self.code.push(OpModel::Grab),
                                    env: self.env,
                                },
                            ),
                        ),
                        ..self
                    },
                ),
            }
        }
    }

    /// `PushRetAddr(code)`: freeze the environment and push a return
    /// frame: the environment, `code`, a delimiter.
    pub open spec fn push_ret_addr(self, code: Seq<OpModel>) -> MachineModel {
        MachineModel {
            env: self.env.freeze(),
            stack: self.stack.push(MarkerModel::Env(self.env.freeze())).push(
                MarkerModel::Code(code),
            ).push(MarkerModel::AppDelim),
            ..self
        }
    }

    /// `Update()`: pop a value and put it in the first bound cell that
    /// holds `Dummy`. Without such a cell, the value is dropped.
    pub open spec fn update(self) -> Result<MachineModel, EvaluationFault> {
        match pop_val(self.stack) {
            Err(f) => Err(f),
            Ok((v, rest)) => match first_dummy(self.env.bindings(), self.store) {
                Some(cell) => Ok(
                    MachineModel {
                        stack: rest,
                        store: self.store.update(cell as int, v),
                        ..self
                    },
                ),
                None => Ok(MachineModel { stack: rest, ..self }),
            },
        }
    }

    /// What instruction `op` does to the machine.
    pub open spec fn exec(self, op: OpModel) -> Result<MachineModel, EvaluationFault> {
        match op {
            OpModel::Access(i) => self.access(i),
            OpModel::Apply => self.apply(),
            OpModel::Binary(op) => self.binary(op),
            OpModel::Closure(body) => Ok(self.closure(body)),
            OpModel::Const(v) => Ok(
                MachineModel { stack: self.stack.push(MarkerModel::Val(v)), ..self },
            ),
            OpModel::Dummy => Ok(self.bind_new_cell(ValModel::Dummy)),
            OpModel::EndLet => Ok(self.end_let()),
            OpModel::Grab => self.grab(),
            OpModel::Join => self.join(),
            OpModel::PushRetAddr(code) => Ok(self.push_ret_addr(code)),
            OpModel::Return => self.ret(),
            OpModel::Sel(thn, els) => self.sel(thn, els),
            OpModel::Update => self.update(),
        }
    }

    /// One step: take the next instruction off the code and run it.
    pub open spec fn step(self) -> Result<MachineModel, EvaluationFault>
        recommends
            self.code.len() > 0,
    {
        MachineModel { code: self.code.drop_last(), ..self }.exec(self.code.last())
    }

    /// The answer of a machine that has no code left: the one value that
    /// is on its stack.
    pub open spec fn answer(self) -> Result<ValModel, EvaluationFault> {
        if self.stack.len() == 1 {
            match self.stack[0] {
                MarkerModel::Val(v) => Ok(v),
                _ => Err(EvaluationFault::Internal),
            }
        } else {
            Err(EvaluationFault::Internal)
        }
    }

    /// The machine at the moment it has no code left, if it gets there
    /// within `steps` steps and no step fails.
    pub open spec fn halted(self, steps: nat) -> Option<MachineModel>
        decreases steps,
    {
        if self.code.len() == 0 {
            Some(self)
        } else if steps == 0 {
            None
        } else {
            match self.step() {
                Err(_) => None,
                Ok(next) => next.halted((steps - 1) as nat),
            }
        }
    }

    /// The answer of the machine, if it gets there within `steps` steps. A
    /// machine that would need more ends in an internal error.
    pub open spec fn run(self, steps: nat) -> Result<ValModel, EvaluationFault>
        decreases steps,
    {
        if self.code.len() == 0 {
            self.answer()
        } else if steps == 0 {
            Err(EvaluationFault::Internal)
        } else {
            match self.step() {
                Err(f) => Err(f),
                Ok(next) => next.run((steps - 1) as nat),
            }
        }
    }
}

/// A call in tail position keeps no frame: when `Return()` finds a closure
/// and an argument for it, the machine enters the closure, and the stack
/// only loses the closure.
pub proof fn lemma_tail_call_keeps_no_frame(m: MachineModel)
    requires
        m.returns_into_call(),
    ensures
        m.ret() matches Ok(next) && next.stack == m.stack.drop_last() && next.store == m.store,
{
}

/// No step removes a cell: the store after a step is at least as long as
/// before, so a cell that an environment binds stays bound to a cell.
pub proof fn lemma_cells_are_never_removed(m: MachineModel)
    requires
        m.code.len() > 0,
    ensures
        m.step() matches Ok(next) ==> next.store.len() >= m.store.len(),
{
    lemma_first_dummy_is_a_cell(m.env.bindings(), m.store);
}

/// The cell that `first_dummy` finds is a cell of the store, and holds
/// `Dummy`.
pub proof fn lemma_first_dummy_is_a_cell(bindings: Seq<usize>, store: Seq<ValModel>)
    ensures
        first_dummy(bindings, store) matches Some(cell) ==> cell < store.len()
            && store[cell as int] is Dummy,
    decreases bindings.len(),
{
    if bindings.len() > 0 {
        lemma_first_dummy_is_a_cell(bindings.drop_last(), store);
    }
}

/// A machine that answers has halted, and a machine that has halted
/// answers or fails on what its stack holds.
pub proof fn lemma_run_halts(m: MachineModel, steps: nat)
    ensures
        m.run(steps) is Ok ==> m.halted(steps) is Some,
        m.halted(steps) matches Some(last) ==> m.run(steps) == last.answer(),
    decreases steps,
{
    if m.code.len() > 0 && steps > 0 {
        match m.step() {
            Ok(next) => lemma_run_halts(next, (steps - 1) as nat),
            Err(_) => {},
        }
    }
}

} // verus!
