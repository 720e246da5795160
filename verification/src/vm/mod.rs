//! The abstract machine and its instruction set.
//!
//! Code is a stack of instructions: the instruction on top runs next. The
//! machine holds the current code, the current environment, a stack of
//! markers, and the store of the cells that environments bind.
use crate::ast::BinaryOp;
use crate::env::{first_accepted, Env, EnvView, Store};
use crate::error::{EvaluationError, EvaluationFault};
use crate::values::{Val, ValModel};
use vstd::prelude::*;

pub mod compiler;
pub mod model;
pub mod stack;

use self::model::{
    binary_result, first_dummy, pop_app_delim, pop_code, pop_env, pop_frame, pop_val, MachineModel,
};
use self::stack::Stack;

verus! {

/// operations run by the vm.
#[derive(Debug, PartialEq)]
pub enum Op {
    Access(usize),
    Apply(),
    Binary(BinaryOp),
    Closure(Stack<Op>),
    Const(Val),
    Dummy(),
    EndLet(),
    Grab(),
    Join(),
    PushRetAddr(Stack<Op>),
    Return(),
    Sel(Stack<Op>, Stack<Op>),
    Update(),
}

/// What an instruction is, with code as sequences.
pub enum OpModel {
    Access(usize),
    Apply,
    Binary(BinaryOp),
    Closure(Seq<OpModel>),
    Const(ValModel),
    Dummy,
    EndLet,
    Grab,
    Join,
    PushRetAddr(Seq<OpModel>),
    Return,
    Sel(Seq<OpModel>, Seq<OpModel>),
    Update,
}

impl View for Op {
    type V = OpModel;

    open spec fn view(&self) -> OpModel
        decreases self,
    {
        match self {
            Op::Access(i) => OpModel::Access(*i),
            Op::Apply() => OpModel::Apply,
            Op::Binary(op) => OpModel::Binary(*op),
            Op::Closure(body) => OpModel::Closure(ops_model(body.0@)),
            Op::Const(v) => OpModel::Const(v@),
            Op::Dummy() => OpModel::Dummy,
            Op::EndLet() => OpModel::EndLet,
            Op::Grab() => OpModel::Grab,
            Op::Join() => OpModel::Join,
            Op::PushRetAddr(code) => OpModel::PushRetAddr(ops_model(code.0@)),
            Op::Return() => OpModel::Return,
            Op::Sel(thn, els) => OpModel::Sel(ops_model(thn.0@), ops_model(els.0@)),
            Op::Update() => OpModel::Update,
        }
    }
}

/// What a piece of code is: the model of each instruction, in the order of
/// the stack, so that the last one is the next to run.
pub open spec fn ops_model(ops: Seq<Op>) -> Seq<OpModel>
    decreases ops,
{
    Seq::new(
        ops.len(),
        |i: int|
            if 0 <= i < ops.len() {
                ops[i]@
            } else {
                OpModel::Apply
            },
    )
}

/// What the machine keeps on its stack.
#[derive(Debug, PartialEq)]
pub enum Marker {
    AppDelim,
    Code(Stack<Op>),
    Env(Env<usize>),
    Val(Val),
}

/// What a marker is.
pub enum MarkerModel {
    AppDelim,
    Code(Seq<OpModel>),
    Env(EnvView<usize>),
    Val(ValModel),
}

impl View for Marker {
    type V = MarkerModel;

    open spec fn view(&self) -> MarkerModel {
        match self {
            Marker::AppDelim => MarkerModel::AppDelim,
            Marker::Code(code) => MarkerModel::Code(ops_model(code.0@)),
            Marker::Env(env) => MarkerModel::Env(env@),
            Marker::Val(v) => MarkerModel::Val(v@),
        }
    }
}

/// The models of the markers of a stack, bottom first.
pub open spec fn markers_model(markers: Seq<Marker>) -> Seq<MarkerModel> {
    Seq::new(markers.len(), |i: int| markers[i]@)
}

/// The models of the contents of a store's cells.
pub open spec fn vals_model(vals: Seq<Val>) -> Seq<ValModel> {
    Seq::new(vals.len(), |i: int| vals[i]@)
}

/// The model of code holds the model of each instruction, at its place.
pub proof fn lemma_ops_model(ops: Seq<Op>)
    ensures
        ops_model(ops).len() == ops.len(),
        forall|i: int| 0 <= i < ops.len() ==> (#[trigger] ops_model(ops)[i]) == ops[i]@,
{
    reveal_with_fuel(ops_model, 2);
}

/// The model of code with one more instruction on top.
pub proof fn lemma_ops_push(ops: Seq<Op>, op: Op)
    ensures
        ops_model(ops.push(op)) == ops_model(ops).push(op@),
{
    lemma_ops_model(ops);
    lemma_ops_model(ops.push(op));
    assert(ops_model(ops.push(op)) =~= ops_model(ops).push(op@));
}

/// The model of code without its top instruction, and the model of that
/// instruction.
pub proof fn lemma_ops_drop_last(ops: Seq<Op>)
    requires
        ops.len() > 0,
    ensures
        ops_model(ops.drop_last()) == ops_model(ops).drop_last(),
        ops_model(ops).last() == ops.last()@,
{
    lemma_ops_model(ops);
    lemma_ops_model(ops.drop_last());
    assert(ops_model(ops.drop_last()) =~= ops_model(ops).drop_last());
}

/// The model of a stack with one more marker on top.
pub proof fn lemma_markers_push(markers: Seq<Marker>, m: Marker)
    ensures
        markers_model(markers.push(m)) == markers_model(markers).push(m@),
{
    assert(markers_model(markers.push(m)) =~= markers_model(markers).push(m@));
}

/// The model of a stack without its top marker, and the model of that
/// marker.
pub proof fn lemma_markers_drop_last(markers: Seq<Marker>)
    requires
        markers.len() > 0,
    ensures
        markers_model(markers.drop_last()) == markers_model(markers).drop_last(),
        markers_model(markers).last() == markers.last()@,
{
    assert(markers_model(markers.drop_last()) =~= markers_model(markers).drop_last());
}

/// The model of a store with one more cell.
pub proof fn lemma_vals_push(vals: Seq<Val>, v: Val)
    ensures
        vals_model(vals.push(v)) == vals_model(vals).push(v@),
{
    assert(vals_model(vals.push(v)) =~= vals_model(vals).push(v@));
}

/// The model of a store after the content of one cell was replaced.
pub proof fn lemma_vals_update(vals: Seq<Val>, i: int, v: Val)
    requires
        0 <= i < vals.len(),
    ensures
        vals_model(vals.update(i, v)) == vals_model(vals).update(i, v@),
{
    assert(vals_model(vals.update(i, v)) =~= vals_model(vals).update(i, v@));
}

/// A copy of a piece of code.
pub fn duplicate_code(code: &Stack<Op>) -> (copy: Stack<Op>)
    ensures
        ops_model(copy.0@) == ops_model(code.0@),
    decreases code,
{
    let n = code.0.len();
    let mut ops: Vec<Op> = Vec::new();
    let mut i: usize = 0;
    while i < n
        invariant
            n == code.0@.len(),
            i <= n,
            ops@.len() == i,
            forall|k: int| 0 <= k < i ==> ops@[k]@ == code.0@[k]@,
        decreases n - i,
    {
        let op = code.0[i].duplicate();
        ops.push(op);
        i = i + 1;
    }
    proof {
        lemma_ops_model(ops@);
        lemma_ops_model(code.0@);
    }
    assert(ops_model(ops@) =~= ops_model(code.0@));
    Stack(ops)
}

impl Op {
    /// A copy of this instruction.
    pub fn duplicate(&self) -> (op: Op)
        ensures
            op@ == self@,
        decreases self,
    {
        match self {
            Op::Access(i) => Op::Access(*i),
            Op::Apply() => Op::Apply(),
            Op::Binary(op) => Op::Binary(*op),
            Op::Closure(body) => Op::Closure(duplicate_code(body)),
            Op::Const(v) => Op::Const(v.duplicate()),
            Op::Dummy() => Op::Dummy(),
            Op::EndLet() => Op::EndLet(),
            Op::Grab() => Op::Grab(),
            Op::Join() => Op::Join(),
            Op::PushRetAddr(code) => Op::PushRetAddr(duplicate_code(code)),
            Op::Return() => Op::Return(),
            Op::Sel(thn, els) => Op::Sel(duplicate_code(thn), duplicate_code(els)),
            Op::Update() => Op::Update(),
        }
    }
}

/// Whether the machine did what the model says: it went on with the state
/// `expected`, or stopped with the fault `expected`.
pub open spec fn agrees(
    expected: Result<MachineModel, EvaluationFault>,
    r: Result<(), EvaluationError>,
    after: MachineModel,
) -> bool {
    match expected {
        Ok(m) => r is Ok && after == m,
        Err(f) => r matches Err(e) && e@ == f,
    }
}

impl Stack<Marker> {
    /// Pops a marker; an empty stack is an internal error.
    pub fn force_pop(&mut self) -> (r: Result<Marker, EvaluationError>)
        ensures
            old(self)@.len() > 0 ==> r == Ok::<Marker, EvaluationError>(old(self)@.last())
                && final(self)@ == old(self)@.drop_last(),
            old(self)@.len() == 0 ==> (r matches Err(e) && e@ == EvaluationFault::Internal)
                && final(self)@ == old(self)@,
    {
        match self.pop() {
            Some(m) => Ok(m),
            None => Err(EvaluationError::internal("Attempt to pop from empty stack")),
        }
    }

    /// Pops an application delimiter.
    pub fn force_pop_app_delim(&mut self) -> (r: Result<(), EvaluationError>)
        ensures
            match pop_app_delim(markers_model(old(self)@)) {
                Ok(rest) => r is Ok && markers_model(final(self)@) == rest,
                Err(f) => r matches Err(e) && e@ == f,
            },
    {
        proof {
            if self@.len() > 0 {
                lemma_markers_drop_last(self@);
            }
        }
        match self.force_pop()? {
            Marker::AppDelim => Ok(()),
            _ => Err(EvaluationError::internal("Expected AppDelim but got something else")),
        }
    }

    /// Pops code.
    pub fn force_pop_code(&mut self) -> (r: Result<Stack<Op>, EvaluationError>)
        ensures
            match pop_code(markers_model(old(self)@)) {
                Ok((code, rest)) => r matches Ok(c) && ops_model(c.0@) == code && markers_model(
                    final(self)@,
                ) == rest,
                Err(f) => r matches Err(e) && e@ == f,
            },
    {
        proof {
            if self@.len() > 0 {
                lemma_markers_drop_last(self@);
            }
        }
        match self.force_pop()? {
            Marker::Code(c) => Ok(c),
            _ => Err(EvaluationError::internal("Expected Code but got something else")),
        }
    }

    /// Pops an environment.
    pub fn force_pop_env(&mut self) -> (r: Result<Env<usize>, EvaluationError>)
        ensures
            match pop_env(markers_model(old(self)@)) {
                Ok((env, rest)) => r matches Ok(x) && x@ == env && markers_model(final(self)@)
                    == rest,
                Err(f) => r matches Err(e) && e@ == f,
            },
    {
        proof {
            if self@.len() > 0 {
                lemma_markers_drop_last(self@);
            }
        }
        match self.force_pop()? {
            Marker::Env(e) => Ok(e),
            _ => Err(EvaluationError::internal("Expected Env but got something else")),
        }
    }

    /// Pops a value.
    pub fn force_pop_val(&mut self) -> (r: Result<Val, EvaluationError>)
        ensures
            match pop_val(markers_model(old(self)@)) {
                Ok((v, rest)) => r matches Ok(x) && x@ == v && markers_model(final(self)@)
                    == rest,
                Err(f) => r matches Err(e) && e@ == f,
            },
    {
        proof {
            if self@.len() > 0 {
                lemma_markers_drop_last(self@);
            }
        }
        match self.force_pop()? {
            Marker::Val(v) => Ok(v),
            _ => Err(EvaluationError::internal("Expected Val but got something else")),
        }
    }

    /// Pops a value that is a boolean.
    pub fn force_pop_bool(&mut self) -> (r: Result<bool, EvaluationError>)
        ensures
            match pop_val(markers_model(old(self)@)) {
                Ok((ValModel::Bool(b), rest)) => r == Ok::<bool, EvaluationError>(b)
                    && markers_model(final(self)@) == rest,
                _ => r matches Err(e) && e@ == EvaluationFault::Internal,
            },
    {
        match self.force_pop_val()? {
            Val::Bool(b) => Ok(b),
            _ => Err(EvaluationError::internal("Expected bool but got something else")),
        }
    }

    /// Pops a value that is a closure.
    pub fn force_pop_closure(&mut self) -> (r: Result<(Stack<Op>, Env<usize>), EvaluationError>)
        ensures
            match pop_val(markers_model(old(self)@)) {
                Ok((ValModel::Closure { body, env }, rest)) => r matches Ok(c) && ops_model(
                    c.0.0@,
                ) == body && c.1@ == env && markers_model(final(self)@) == rest,
                _ => r matches Err(e) && e@ == EvaluationFault::Internal,
            },
    {
        match self.force_pop_val()? {
            Val::Closure { body, env } => Ok((body, env)),
            _ => Err(EvaluationError::internal("Expected closure but got something else")),
        }
    }

    /// Pops a return frame: a delimiter, the caller's code, the caller's
    /// environment.
    pub fn force_pop_frame(&mut self) -> (r: Result<(Stack<Op>, Env<usize>), EvaluationError>)
        ensures
            match pop_frame(markers_model(old(self)@)) {
                Ok((code, env, rest)) => r matches Ok(c) && ops_model(c.0.0@) == code && c.1@
                    == env && markers_model(final(self)@) == rest,
                Err(f) => r matches Err(e) && e@ == f,
            },
    {
        self.force_pop_app_delim()?;
        let code = self.force_pop_code()?;
        let env = self.force_pop_env()?;
        Ok((code, env))
    }

    /// The value on top of the stack, if a value is on top.
    pub fn peek_value(&self) -> (r: Option<&Val>)
        ensures
            match r {
                Some(v) => self@.len() > 0 && self@.last() == Marker::Val(*v),
                None => self@.len() == 0 || !(self@.last() is Val),
            },
    {
        match self.peek() {
            Some(Marker::Val(v)) => Some(v),
            _ => None,
        }
    }

    /// The closure on top of the stack, if a closure is on top.
    pub fn peek_closure(&self) -> (r: Option<(&Stack<Op>, &Env<usize>)>)
        ensures
            match r {
                Some((body, env)) => self@.len() > 0 && self@.last() == Marker::Val(
                    Val::Closure { body: *body, env: *env },
                ),
                None => self@.len() == 0 || !(self@.last() matches Marker::Val(
                    Val::Closure { .. },
                )),
            },
    {
        match self.peek_value() {
            Some(Val::Closure { body, env }) => Some((body, env)),
            _ => None,
        }
    }
}

/// The result of a binary operator on two values.
pub fn binary(op: BinaryOp, l: Val, r: Val) -> (res: Result<Val, EvaluationError>)
    ensures
        match binary_result(op, l@, r@) {
            Ok(v) => res matches Ok(x) && x@ == v,
            Err(f) => res matches Err(e) && e@ == f,
        },
{
    match op {
        BinaryOp::Add => {
            let (l, r) = (l.as_num()?, r.as_num()?);
            Ok(Val::Num(l.plus(r)))
        },
        BinaryOp::Mul => {
            let (l, r) = (l.as_num()?, r.as_num()?);
            Ok(Val::Num(l.times(r)))
        },
        BinaryOp::Sub => {
            let (l, r) = (l.as_num()?, r.as_num()?);
            Ok(Val::Num(l.minus(r)))
        },
        BinaryOp::Div => {
            let (l, r) = (l.as_num()?, r.as_num()?);
            if r.is_zero() {
                Err(EvaluationError::DivisionByZero)
            } else {
                Ok(Val::Num(l.divided_by(r)))
            }
        },
        BinaryOp::Eq => Ok(Val::Bool(l.try_eq(&r)?)),
        BinaryOp::And => {
            let (l, r) = (l.as_bool()?, r.as_bool()?);
            Ok(Val::Bool(l && r))
        },
    }
}

/// The most steps that `evaluate` takes.
pub const STEP_LIMIT: u64 = 0xffff_ffff_ffff_ffff;

/// The abstract machine.
pub struct VirtualMachine {
    code: Stack<Op>,
    env: Env<usize>,
    stack: Stack<Marker>,
    store: Store<Val>,
}

impl View for VirtualMachine {
    type V = MachineModel;

    closed spec fn view(&self) -> MachineModel {
        MachineModel {
            code: ops_model(self.code.0@),
            env: self.env@,
            stack: markers_model(self.stack@),
            store: vals_model(self.store@),
        }
    }
}

impl VirtualMachine {
    /// A machine that is about to run `code`.
    pub fn new(code: Stack<Op>) -> (vm: VirtualMachine)
        ensures
            vm@ == MachineModel::start(ops_model(code.0@)),
    {
        let vm = VirtualMachine { code, env: Env::new(), stack: Stack::new(), store: Store::new() };
        assert(vm@.stack =~= Seq::empty());
        assert(vm@.store =~= Seq::empty());
        vm
    }

    fn push_val(&mut self, v: Val)
        ensures
            final(self)@ == (MachineModel {
                stack: old(self)@.stack.push(MarkerModel::Val(v@)),
                ..old(self)@
            }),
    {
        proof {
            lemma_markers_push(self.stack@, Marker::Val(v));
        }
        self.stack.push(Marker::Val(v));
    }

    fn bind_new_cell(&mut self, v: Val)
        ensures
            final(self)@ == old(self)@.bind_new_cell(v@),
    {
        proof {
            lemma_vals_push(self.store@, v);
        }
        let cell = self.store.allocate(v);
        self.env.bind(cell);
    }

    fn access(&mut self, i: usize) -> (r: Result<(), EvaluationError>)
        ensures
            agrees(old(self)@.access(i), r, final(self)@),
    {
        match self.env.lookup(i) {
            Some(cell) => {
                let cell = *cell;
                match self.store.get(cell) {
                    Some(v) => {
                        let v = v.duplicate();
                        self.push_val(v);
                        Ok(())
                    },
                    None => Err(
                        EvaluationError::internal("Attempt to access a cell that does not exist"),
                    ),
                }
            },
            None => Err(EvaluationError::internal("Attempt to access unbound variable")),
        }
    }

    fn apply(&mut self) -> (r: Result<(), EvaluationError>)
        ensures
            agrees(old(self)@.apply(), r, final(self)@),
    {
        let (fn_body, fn_env) = self.stack.force_pop_closure()?;
        self.code = fn_body;
        self.env = fn_env;
        Ok(())
    }

    fn binary(&mut self, op: BinaryOp) -> (r: Result<(), EvaluationError>)
        ensures
            agrees(old(self)@.binary(op), r, final(self)@),
    {
        let r = self.stack.force_pop_val()?;
        let l = self.stack.force_pop_val()?;
        let res = binary(op, l, r)?;
        self.push_val(res);
        Ok(())
    }

    fn closure(&mut self, body: Stack<Op>)
        ensures
            final(self)@ == old(self)@.closure(ops_model(body.0@)),
    {
        let env = self.env.snapshot();
        self.push_val(Val::Closure { body, env });
    }

    fn end_let(&mut self)
        ensures
            final(self)@ == old(self)@.end_let(),
    {
        self.env.drop_newest();
    }

    fn ret(&mut self) -> (r: Result<(), EvaluationError>)
        ensures
            agrees(old(self)@.ret(), r, final(self)@),
    {
        let n = self.stack.len();
        let into_call = n >= 2 && self.stack.peek_closure().is_some() && matches!(
            self.stack.0[n - 2],
            Marker::Val(_)
        );
        proof {
            if n >= 2 {
                assert(markers_model(self.stack@)[n - 1] == self.stack@[n - 1]@);
                assert(markers_model(self.stack@)[n - 2] == self.stack@[n - 2]@);
            }
        }
        if into_call {
            self.apply()
        } else {
            let v = self.stack.force_pop_val()?;
            let (code, env) = self.stack.force_pop_frame()?;
            self.code = code;
            self.env = env;
            self.push_val(v);
            Ok(())
        }
    }

    fn sel(&mut self, thn: Stack<Op>, els: Stack<Op>) -> (r: Result<(), EvaluationError>)
        ensures
            agrees(old(self)@.sel(ops_model(thn.0@), ops_model(els.0@)), r, final(self)@),
    {
        let cond = self.stack.force_pop_bool()?;
        let mut branch = if cond {
            thn
        } else {
            els
        };
        core::mem::swap(&mut self.code, &mut branch);
        proof {
            lemma_markers_push(self.stack@, Marker::Code(branch));
        }
        self.stack.push(Marker::Code(branch));
        Ok(())
    }

    fn join(&mut self) -> (r: Result<(), EvaluationError>)
        ensures
            agrees(old(self)@.join(), r, final(self)@),
    {
        let ret_val = self.stack.force_pop_val()?;
        let code = self.stack.force_pop_code()?;
        self.code = code;
        self.push_val(ret_val);
        Ok(())
    }

    fn grab(&mut self) -> (r: Result<(), EvaluationError>)
        ensures
            agrees(old(self)@.grab(), r, final(self)@),
    {
        proof {
            if self.stack@.len() > 0 {
                lemma_markers_drop_last(self.stack@);
            }
        }
        if self.stack.peek_value().is_some() {
            let val = self.stack.force_pop_val()?;
            self.bind_new_cell(val);
            Ok(())
        } else {
            let (mut code, mut env) = self.stack.force_pop_frame()?;
            core::mem::swap(&mut self.code, &mut code);
            core::mem::swap(&mut self.env, &mut env);
            proof {
                lemma_ops_push(code.0@, Op::Grab());
            }
            code.push(Op::Grab());
            self.push_val(Val::Closure { body: code, env });
            Ok(())
        }
    }

    fn push_ret_addr(&mut self, code: Stack<Op>)
        ensures
            final(self)@ == old(self)@.push_ret_addr(ops_model(code.0@)),
    {
        let env = self.env.snapshot();
        proof {
            lemma_markers_push(self.stack@, Marker::Env(env));
            lemma_markers_push(self.stack@.push(Marker::Env(env)), Marker::Code(code));
            lemma_markers_push(
                self.stack@.push(Marker::Env(env)).push(Marker::Code(code)),
                Marker::AppDelim,
            );
        }
        self.stack.push(Marker::Env(env));
        self.stack.push(Marker::Code(code));
        self.stack.push(Marker::AppDelim);
    }

    fn update(&mut self) -> (r: Result<(), EvaluationError>)
        ensures
            agrees(old(self)@.update(), r, final(self)@),
    {
        let val = self.stack.force_pop_val()?;
        let is_dummy = |v: &Val| -> (b: bool)
            ensures
                b == (*v is Dummy),
            { matches!(v, Val::Dummy) };
        let ghost cells = self.store@;
        let found = self.env.update_first_match(&mut self.store, val, is_dummy);
        proof {
            lemma_first_dummy(self.env@.bindings(), cells, &is_dummy, found);
            if let Some(cell) = found {
                lemma_vals_update(cells, cell as int, val);
            }
        }
        Ok(())
    }

    /// Runs one instruction.
    fn exec(&mut self, op: Op) -> (r: Result<(), EvaluationError>)
        ensures
            agrees(old(self)@.exec(op@), r, final(self)@),
    {
        match op {
            Op::Access(i) => self.access(i),
            Op::Apply() => self.apply(),
            Op::Binary(op) => self.binary(op),
            Op::Closure(body) => {
                self.closure(body);
                Ok(())
            },
            Op::Const(v) => {
                self.push_val(v);
                Ok(())
            },
            Op::Dummy() => {
                self.bind_new_cell(Val::Dummy);
                Ok(())
            },
            Op::EndLet() => {
                self.end_let();
                Ok(())
            },
            Op::Grab() => self.grab(),
            Op::Join() => self.join(),
            Op::PushRetAddr(code) => {
                self.push_ret_addr(code);
                Ok(())
            },
            Op::Return() => self.ret(),
            Op::Sel(thn, els) => self.sel(thn, els),
            Op::Update() => self.update(),
        }
    }

    /// The answer of a machine that has no code left.
    fn answer(&mut self) -> (r: Result<Val, EvaluationError>)
        ensures
            match old(self)@.answer() {
                Ok(v) => r matches Ok(x) && x@ == v && final(self)@ == (MachineModel {
                    stack: Seq::empty(),
                    ..old(self)@
                }),
                Err(f) => r matches Err(e) && e@ == f,
            },
    {
        proof {
            if self.stack@.len() == 1 {
                assert(markers_model(self.stack@).drop_last() =~= Seq::empty());
            }
        }
        if self.stack.len() == 1 {
            self.stack.force_pop_val()
        } else {
            Err(EvaluationError::internal("unexpected end of program"))
        }
    }

    /// Runs the machine until no code is left, and returns its answer, as
    /// `MachineModel::run` defines it for `STEP_LIMIT` steps. After an answer
    /// the machine is as it was when the code ran out, with an empty stack.
    pub fn evaluate(&mut self) -> (r: Result<Val, EvaluationError>)
        ensures
            match old(self)@.run(STEP_LIMIT as nat) {
                Ok(v) => {
                    &&& r matches Ok(x) && x@ == v
                    &&& old(self)@.halted(STEP_LIMIT as nat) matches Some(last) && final(self)@
                        == (MachineModel { stack: Seq::empty(), ..last })
                },
                Err(f) => r matches Err(e) && e@ == f,
            },
    {
        let mut steps: u64 = STEP_LIMIT;
        loop
            invariant
                self@.run(steps as nat) == old(self)@.run(STEP_LIMIT as nat),
                self@.halted(steps as nat) == old(self)@.halted(STEP_LIMIT as nat),
            decreases steps,
        {
            proof {
                if self.code.0@.len() > 0 {
                    lemma_ops_drop_last(self.code.0@);
                }
                lemma_ops_model(self.code.0@);
            }
            match self.code.pop() {
                None => {
                    return self.answer();
                },
                Some(op) => {
                    if steps == 0 {
                        return Err(EvaluationError::internal("step limit reached"));
                    }
                    steps = steps - 1;
                    match self.exec(op) {
                        Ok(()) => {},
                        Err(e) => {
                            return Err(e);
                        },
                    }
                },
            }
        }
    }
}

/// What `first_accepted` finds for the test "holds `Dummy`" is what
/// `first_dummy` names.
proof fn lemma_first_dummy<F: Fn(&Val) -> bool>(
    bindings: Seq<usize>,
    cells: Seq<Val>,
    pred: &F,
    found: Option<usize>,
)
    requires
        first_accepted(bindings, cells, pred, found),
        forall|v: &Val, b: bool| pred.ensures((v,), b) ==> b == (*v is Dummy),
    ensures
        found == first_dummy(bindings, vals_model(cells)),
    decreases bindings.len(),
{
    if bindings.len() > 0 {
        let cell = bindings.last();
        if cell < cells.len() && pred.ensures((&cells[cell as int],), true) && found == Some(cell) {
            assert(cells[cell as int] is Dummy);
        } else {
            lemma_first_dummy(bindings.drop_last(), cells, pred, found);
        }
    }
}

} // verus!
