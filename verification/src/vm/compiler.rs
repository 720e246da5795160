//! The compiler from scope-checked expressions to machine code.
//!
//! Code is emitted in reverse: what is pushed last runs first. An expression
//! is compiled in one of two modes. In normal mode its code leaves its value
//! on the stack and goes on with the code under it. In tail mode its value is
//! the value of the enclosing function, so the code ends by returning, and a
//! call in that position reuses the current frame.
use crate::ast::Expr;
use crate::values::{Val, ValModel};
use crate::vm::stack::Stack;
use crate::vm::{lemma_ops_push, ops_model, Op, OpModel};
use vstd::prelude::*;

verus! {

/// The code `code` with the code of `e`, compiled in normal mode, pushed on
/// it.
pub open spec fn pushed(e: Expr, code: Seq<OpModel>) -> Seq<OpModel>
    decreases e, 0nat,
{
    match e {
        Expr::Ascribed(inner, _) => pushed(*inner, code),
        Expr::App(fnc, arg) => pushed(*arg, pushed_head(*fnc, seq![OpModel::Apply])).push(
            OpModel::PushRetAddr(code),
        ),
        Expr::Lambda(_, _, body) => code.push(
            OpModel::Closure(pushed_tail(*body, Seq::empty()).push(OpModel::Grab)),
        ),
        Expr::Let(false, _, binding, body) => pushed(
            *binding,
            pushed(*body, code.push(OpModel::EndLet)).push(OpModel::Grab),
        ),
        Expr::Let(true, _, binding, body) => pushed(
            *binding,
            pushed(*body, code.push(OpModel::EndLet)).push(OpModel::Update),
        ).push(OpModel::Dummy),
        Expr::Literal(l) => code.push(OpModel::Const(ValModel::of_literal(l))),
        Expr::IfThenElse(cond, thn, els) => pushed(
            *cond,
            code.push(
                OpModel::Sel(
                    pushed(*thn, seq![OpModel::Join]),
                    pushed(*els, seq![OpModel::Join]),
                ),
            ),
        ),
        Expr::Op(l, op, r) => pushed(*l, pushed(*r, code.push(OpModel::Binary(op)))),
        Expr::Var(_, i) => code.push(OpModel::Access(i)),
    }
}

/// The code `code` with the code of the function part of an application
/// pushed on it. A function part that is itself an application is taken as
/// part of one call with several arguments: the code of its own function
/// part, then that of its argument.
pub open spec fn pushed_head(e: Expr, code: Seq<OpModel>) -> Seq<OpModel>
    decreases e, 1nat,
{
    match e {
        Expr::App(fnc, arg) => pushed(*arg, pushed_head(*fnc, code)),
        _ => pushed(e, code),
    }
}

/// The code `code` with the code of `e`, compiled in tail mode, pushed on
/// it.
pub open spec fn pushed_tail(e: Expr, code: Seq<OpModel>) -> Seq<OpModel>
    decreases e, 2nat,
{
    match e {
        Expr::App(fnc, arg) => pushed(*arg, pushed_tail(*fnc, code)),
        Expr::Lambda(_, _, body) => pushed_tail(*body, code).push(OpModel::Grab),
        Expr::Let(false, _, binding, body) => pushed(
            *binding,
            pushed_tail(*body, code).push(OpModel::Grab),
        ),
        Expr::Let(true, _, binding, body) => pushed(
            *binding,
            pushed_tail(*body, code).push(OpModel::Update),
        ).push(OpModel::Dummy),
        _ => pushed(e, code.push(OpModel::Return)),
    }
}

/// The mode in which an expression is compiled.
#[derive(Clone, Copy, Debug, PartialEq, Eq, Structural)]
pub enum CompilerMode {
    Normal,
    Tail,
}

/// A compiler: a mode, and the code emitted so far.
pub struct Compiler {
    mode: CompilerMode,
    code: Stack<Op>,
}

impl Compiler {
    /// The mode of this compiler.
    pub closed spec fn mode(&self) -> CompilerMode {
        self.mode
    }

    /// The code that this compiler has emitted.
    pub closed spec fn code(&self) -> Seq<OpModel> {
        ops_model(self.code.0@)
    }

    /// A compiler in normal mode that has emitted nothing.
    pub fn new() -> (c: Compiler)
        ensures
            c.mode() == CompilerMode::Normal,
            c.code() == Seq::<OpModel>::empty(),
    {
        let c = Compiler { mode: CompilerMode::Normal, code: Stack::new() };
        assert(c.code() =~= Seq::<OpModel>::empty());
        c
    }

    fn with_mode_and_ops(mode: CompilerMode, ops: Vec<Op>) -> (c: Compiler)
        ensures
            c.mode() == mode,
            c.code() == ops_model(ops@),
    {
        Compiler { mode, code: Stack::from_stacked_vec(ops) }
    }

    fn for_tail() -> (c: Compiler)
        ensures
            c.mode() == CompilerMode::Tail,
            c.code() == Seq::<OpModel>::empty(),
    {
        let c = Compiler::with_mode_and_ops(CompilerMode::Tail, Vec::new());
        assert(c.code() =~= Seq::<OpModel>::empty());
        c
    }

    fn for_branch() -> (c: Compiler)
        ensures
            c.mode() == CompilerMode::Normal,
            c.code() == seq![OpModel::Join],
    {
        let mut ops: Vec<Op> = Vec::new();
        ops.push(Op::Join());
        proof {
            lemma_ops_push(Seq::empty(), Op::Join());
            assert(ops@ =~= Seq::<Op>::empty().push(Op::Join()));
            assert(ops_model(Seq::<Op>::empty()) =~= Seq::<OpModel>::empty());
            assert(ops_model(ops@) =~= seq![OpModel::Join]);
        }
        Compiler::with_mode_and_ops(CompilerMode::Normal, ops)
    }

    /// compiles the syntax tree to a "bytecode" representation.
    ///
    /// note that instructions are returned in reverse order - i.e. the last
    /// element of the vector is the first instruction to be computed. this is
    /// because most of the time we just pop the next instruction off, and
    /// popping from the tail of a vector is O(1).
    pub fn compile(self, e: &Expr) -> (code: Stack<Op>)
        ensures
            ops_model(code.0@) == match self.mode() {
                CompilerMode::Normal => pushed(*e, self.code()),
                CompilerMode::Tail => pushed_tail(*e, self.code()),
            },
    {
        let mut c = self;
        match c.mode {
            CompilerMode::Normal => c.push(e),
            CompilerMode::Tail => c.push_tail(e),
        }
        c.code
    }

    fn emit(&mut self, op: Op)
        ensures
            final(self).mode() == old(self).mode(),
            final(self).code() == old(self).code().push(op@),
    {
        proof {
            lemma_ops_push(self.code.0@, op);
        }
        self.code.push(op);
    }

    fn push(&mut self, e: &Expr)
        ensures
            final(self).mode() == old(self).mode(),
            final(self).code() == pushed(*e, old(self).code()),
        decreases e, 0nat,
    {
        match e {
            Expr::Ascribed(inner, _) => self.push(inner),
            Expr::App(fnc, arg) => {
                let mut code: Stack<Op> = Stack::new();
                core::mem::swap(&mut self.code, &mut code);
                assert(self.code() =~= Seq::<OpModel>::empty());
                self.emit(Op::Apply());
                assert(self.code() =~= seq![OpModel::Apply]);
                self.push_head(fnc);
                self.push(arg);
                self.emit(Op::PushRetAddr(code));
            },
            Expr::Lambda(_, _, body) => {
                let mut inner = Compiler::for_tail();
                inner.push_tail(body);
                inner.emit(Op::Grab());
                self.emit(Op::Closure(inner.code));
            },
            Expr::Let(false, _, binding, body) => {
                self.emit(Op::EndLet());
                self.push(body);
                self.emit(Op::Grab());
                self.push(binding);
            },
            Expr::Let(true, _, binding, body) => {
                self.emit(Op::EndLet());
                self.push(body);
                self.emit(Op::Update());
                self.push(binding);
                self.emit(Op::Dummy());
            },
            Expr::Literal(l) => self.emit(Op::Const(Val::from_literal(*l))),
            Expr::IfThenElse(cond, thn, els) => {
                let mut thn_ops = Compiler::for_branch();
                thn_ops.push(thn);
                let mut els_ops = Compiler::for_branch();
                els_ops.push(els);
                self.emit(Op::Sel(thn_ops.code, els_ops.code));
                self.push(cond);
            },
            Expr::Op(l, op, r) => {
                self.emit(Op::Binary(*op));
                self.push(r);
                self.push(l);
            },
            Expr::Var(_, i) => {
                self.emit(Op::Access(*i));
            },
        }
    }

    fn push_head(&mut self, e: &Expr)
        ensures
            final(self).mode() == old(self).mode(),
            final(self).code() == pushed_head(*e, old(self).code()),
        decreases e, 1nat,
    {
        match e {
            Expr::App(fnc, arg) => {
                self.push_head(fnc);
                self.push(arg);
            },
            _ => self.push(e),
        }
    }

    fn push_tail(&mut self, e: &Expr)
        ensures
            final(self).mode() == old(self).mode(),
            final(self).code() == pushed_tail(*e, old(self).code()),
        decreases e, 2nat,
    {
        match e {
            Expr::App(f, arg) => {
                self.push_tail(f);
                self.push(arg);
            },
            Expr::Lambda(_, _, a) => {
                self.push_tail(a);
                self.emit(Op::Grab());
            },
            Expr::Let(false, _, a, b) => {
                self.push_tail(b);
                self.emit(Op::Grab());
                self.push(a);
            },
            Expr::Let(true, _, a, b) => {
                self.push_tail(b);
                self.emit(Op::Update());
                self.push(a);
                self.emit(Op::Dummy());
            },
            _ => {
                self.emit(Op::Return());
                self.push(e);
            },
        }
    }
}

} // verus!
