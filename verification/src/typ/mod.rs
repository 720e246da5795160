//! Types of the language and the errors of type inference.
use crate::ast::Expr;
use crate::interner::Id;
use vstd::prelude::*;
use vstd::string::StringExecFns;

pub mod check;
pub mod checker;
pub mod ctx;
pub mod rules;

verus! {

/// An existential: a type that must exist, but whose identity may not be
/// known yet. Two existentials are the same when their numbers are.
#[derive(Clone, Copy, Debug, PartialEq, Eq, Structural)]
pub struct Existential(pub usize);

/// The primitive types.
#[derive(Clone, Copy, Debug, PartialEq, Eq, Structural)]
pub enum Primitive {
    Bool,
    Num,
    Unit,
}

/// A type.
#[derive(Debug, PartialEq, Eq)]
pub enum Type {
    Arrow(Box<Type>, Box<Type>),
    Existential(Existential),
    Primitive(Primitive),
}

/// Why inference failed.
#[derive(Debug, PartialEq, Eq)]
pub enum Error {
    IllFormedType(Type),
    Mismatch { got: Type, expected: Type },
    InvalidApplication(Type),
    UnboundVariable(Id),
    Internal(String),
}

/// An inference error without the wording of an internal one.
pub enum Fault {
    IllFormedType(Type),
    Mismatch { got: Type, expected: Type },
    InvalidApplication(Type),
    UnboundVariable(Id),
    Internal,
}

impl View for Error {
    type V = Fault;

    open spec fn view(&self) -> Fault {
        match self {
            Error::IllFormedType(t) => Fault::IllFormedType(*t),
            Error::Mismatch { got, expected } => Fault::Mismatch { got: *got, expected: *expected },
            Error::InvalidApplication(t) => Fault::InvalidApplication(*t),
            Error::UnboundVariable(id) => Fault::UnboundVariable(*id),
            Error::Internal(_) => Fault::Internal,
        }
    }
}

impl Type {
    /// The type of booleans.
    pub fn bool() -> (t: Type)
        ensures
            t == Type::Primitive(Primitive::Bool),
    {
        Type::Primitive(Primitive::Bool)
    }

    /// The type of numbers.
    pub fn num() -> (t: Type)
        ensures
            t == Type::Primitive(Primitive::Num),
    {
        Type::Primitive(Primitive::Num)
    }

    /// The type of the unit value.
    pub fn unit() -> (t: Type)
        ensures
            t == Type::Primitive(Primitive::Unit),
    {
        Type::Primitive(Primitive::Unit)
    }

    /// The function type from `from` to `to`.
    pub fn arrow(from: Type, to: Type) -> (t: Type)
        ensures
            t == Type::Arrow(Box::new(from), Box::new(to)),
    {
        Type::Arrow(Box::new(from), Box::new(to))
    }

    /// A copy of this type.
    pub fn duplicate(&self) -> (t: Type)
        ensures
            t == *self,
        decreases self,
    {
        match self {
            Type::Arrow(from, to) => Type::Arrow(
                Box::new(from.duplicate()),
                Box::new(to.duplicate()),
            ),
            Type::Existential(a) => Type::Existential(*a),
            Type::Primitive(p) => Type::Primitive(*p),
        }
    }

    /// Whether the two types are the same type.
    pub fn same(&self, other: &Type) -> (r: bool)
        ensures
            r == (*self == *other),
        decreases self,
    {
        match (self, other) {
            (Type::Arrow(f1, t1), Type::Arrow(f2, t2)) => f1.same(f2) && t1.same(t2),
            (Type::Existential(a), Type::Existential(b)) => a.0 == b.0,
            (Type::Primitive(p), Type::Primitive(q)) => *p == *q,
            _ => false,
        }
    }
}

/// An internal inference error with the given wording.
pub fn internal(msg: &str) -> (e: Error)
    ensures
        e matches Error::Internal(wording) && wording@ == msg@,
        e@ == Fault::Internal,
{
    Error::Internal(msg.to_owned())
}

/// Infer the `Type` of `e`, or return an appropriate `Error`.
pub fn infer(e: &Expr) -> (r: Result<Type, Error>)
    ensures
        checker::gives(rules::inferred(*e), r),
{
    check::er().infer(e)
}

/// The character that writes a digit.
pub open spec fn digit_char(d: nat) -> char {
    if d == 0 {
        '0'
    } else if d == 1 {
        '1'
    } else if d == 2 {
        '2'
    } else if d == 3 {
        '3'
    } else if d == 4 {
        '4'
    } else if d == 5 {
        '5'
    } else if d == 6 {
        '6'
    } else if d == 7 {
        '7'
    } else if d == 8 {
        '8'
    } else {
        '9'
    }
}

/// A number in decimal digits.
pub open spec fn decimal(n: nat) -> Seq<char>
    decreases n,
{
    if n < 10 {
        seq![digit_char(n)]
    } else {
        decimal(n / 10).push(digit_char(n % 10))
    }
}

/// The name of a primitive type.
pub open spec fn primitive_name(p: Primitive) -> Seq<char> {
    match p {
        Primitive::Bool => "Bool"@,
        Primitive::Num => "Num"@,
        Primitive::Unit => "Unit"@,
    }
}

/// How a type is written: a primitive type by its name, an existential as
/// `?` and its number, an arrow as its two sides with ` -> ` between them.
pub open spec fn rendered(t: Type) -> Seq<char>
    decreases t,
{
    match t {
        Type::Arrow(from, to) => rendered(*from) + " -> "@ + rendered(*to),
        Type::Existential(a) => "?"@ + decimal(a.0 as nat),
        Type::Primitive(p) => primitive_name(p),
    }
}

/// The digit `d` as text.
fn digit_text(d: usize) -> (s: &'static str)
    requires
        d < 10,
    ensures
        s@ == seq![digit_char(d as nat)],
{
    proof {
        reveal_strlit("0");
        reveal_strlit("1");
        reveal_strlit("2");
        reveal_strlit("3");
        reveal_strlit("4");
        reveal_strlit("5");
        reveal_strlit("6");
        reveal_strlit("7");
        reveal_strlit("8");
        reveal_strlit("9");
    }
    let s = if d == 0 {
        "0"
    } else if d == 1 {
        "1"
    } else if d == 2 {
        "2"
    } else if d == 3 {
        "3"
    } else if d == 4 {
        "4"
    } else if d == 5 {
        "5"
    } else if d == 6 {
        "6"
    } else if d == 7 {
        "7"
    } else if d == 8 {
        "8"
    } else {
        "9"
    };
    assert(s@ =~= seq![digit_char(d as nat)]);
    s
}

/// Writes `n` in decimal digits at the end of `out`.
fn append_decimal(out: &mut String, n: usize)
    ensures
        final(out)@ == old(out)@ + decimal(n as nat),
    decreases n,
{
    if n < 10 {
        out.append(digit_text(n));
    } else {
        append_decimal(out, n / 10);
        out.append(digit_text(n % 10));
        assert(out@ =~= old(out)@ + decimal(n as nat));
    }
}

impl Primitive {
    /// The name of this primitive type.
    pub fn name(self) -> (s: &'static str)
        ensures
            s@ == primitive_name(self),
    {
        match self {
            Primitive::Bool => "Bool",
            Primitive::Num => "Num",
            Primitive::Unit => "Unit",
        }
    }
}

impl Type {
    fn append_to(&self, out: &mut String)
        ensures
            final(out)@ == old(out)@ + rendered(*self),
        decreases self,
    {
        match self {
            Type::Arrow(from, to) => {
                from.append_to(out);
                out.append(" -> ");
                to.append_to(out);
                assert(out@ =~= old(out)@ + rendered(*self));
            },
            Type::Existential(a) => {
                out.append("?");
                append_decimal(out, a.0);
                assert(out@ =~= old(out)@ + rendered(*self));
            },
            Type::Primitive(p) => {
                out.append(p.name());
            },
        }
    }

    /// This type as text.
    pub fn render(&self) -> (s: String)
        ensures
            s@ == rendered(*self),
    {
        let mut out = String::new();
        self.append_to(&mut out);
        assert(out@ =~= rendered(*self));
        out
    }
}

} // verus!
