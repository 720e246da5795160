//! The parser: from the tokens of a program to its syntax tree.
//!
//! From the loosest form to the tightest: `let`, `if` and functions, which
//! reach as far to the right as they can; an ascription; the operators `&&`,
//! `==`, `+ -`, `* /`, each associating to the left; application, by
//! juxtaposition, also to the left; atoms.
use crate::ast::{BinaryOp, Literal, RawExpr};
use crate::error::{texts, ParseError, ParseFault, Tok, TokText};
use crate::interner::{Id, Interner};
use crate::lexer::{lex, tokens_in_order, tokens_of, Source, Token, TokenKind};
use crate::typ::Type;
use vstd::prelude::*;

verus! {

/// What the parser reads: the tokens, and the text they were cut from.
pub struct Input {
    pub chars: Seq<char>,
    pub tokens: Seq<Token>,
}

impl Input {
    /// The kind of the token at `pos`.
    pub open spec fn kind(self, pos: int) -> Option<TokenKind> {
        if 0 <= pos < self.tokens.len() {
            Some(self.tokens[pos].kind)
        } else {
            None
        }
    }

    /// The error for the token at `pos`, or for the end of the tokens, where
    /// what `expected` describes had to stand. The end is reported at the end
    /// of the last token.
    pub open spec fn unexpected(self, pos: int, expected: Seq<char>) -> ParseFault {
        if 0 <= pos < self.tokens.len() {
            ParseFault::UnexpectedToken {
                location: self.tokens[pos].start,
                token: TokText::Raw(
                    self.chars.subrange(self.tokens[pos].start as int, self.tokens[pos].end as int),
                ),
                expected: seq![expected],
            }
        } else {
            ParseFault::UnexpectedToken {
                location: if self.tokens.len() > 0 {
                    self.tokens.last().end
                } else {
                    0
                },
                token: TokText::EndOfFile,
                expected: seq![expected],
            }
        }
    }
}

/// The operator of precedence `level` that a token of kind `kind` is:
/// level 0 holds `&&`, level 1 `==`, level 2 `+` and `-`, level 3 `*` and `/`.
pub open spec fn operator_of(kind: Option<TokenKind>, level: int) -> Option<BinaryOp> {
    match kind {
        Some(TokenKind::AndAnd) if level == 0 => Some(BinaryOp::And),
        Some(TokenKind::EqEq) if level == 1 => Some(BinaryOp::Eq),
        Some(TokenKind::Plus) if level == 2 => Some(BinaryOp::Add),
        Some(TokenKind::Minus) if level == 2 => Some(BinaryOp::Sub),
        Some(TokenKind::Star) if level == 3 => Some(BinaryOp::Mul),
        Some(TokenKind::Slash) if level == 3 => Some(BinaryOp::Div),
        _ => None,
    }
}

/// Whether an atom may start with a token of this kind.
pub open spec fn starts_atom(kind: Option<TokenKind>) -> bool {
    match kind {
        Some(TokenKind::Num(_)) | Some(TokenKind::Ident { .. }) | Some(TokenKind::True) | Some(
            TokenKind::False,
        ) | Some(TokenKind::LParen) => true,
        _ => false,
    }
}

/// The function of parameters `params` and body `body`: one `Lambda` for
/// each parameter, the first parameter outermost.
pub open spec fn lambda_of(params: Seq<(Id, Option<Type>)>, body: RawExpr) -> RawExpr
    decreases params.len(),
{
    if params.len() == 0 {
        body
    } else {
        lambda_of(
            params.drop_last(),
            RawExpr::Lambda(params.last().0, params.last().1, Box::new(body)),
        )
    }
}

/// A type that is not an arrow: the name of a primitive type, or a type in
/// parentheses.
pub open spec fn type_atom(inp: Input, pos: int) -> Result<(Type, int), ParseFault>
    decreases inp.tokens.len() - pos, 0nat,
{
    match inp.kind(pos) {
        Some(TokenKind::Ident { id, primitive: Some(p) }) => Ok((Type::Primitive(p), pos + 1)),
        Some(TokenKind::LParen) => match type_at(inp, pos + 1) {
            Err(f) => Err(f),
            Ok((t, p)) => if inp.kind(p) == Some(TokenKind::RParen) {
                Ok((t, p + 1))
            } else {
                Err(inp.unexpected(p, ")"@))
            },
        },
        _ => Err(inp.unexpected(pos, "type"@)),
    }
}

/// A type. The arrow associates to the right.
pub open spec fn type_at(inp: Input, pos: int) -> Result<(Type, int), ParseFault>
    decreases inp.tokens.len() - pos, 1nat,
{
    match type_atom(inp, pos) {
        Err(f) => Err(f),
        Ok((from, p)) => if inp.kind(p) == Some(TokenKind::Arrow) {
            if p < pos {
                Err(inp.unexpected(p, "type"@))
            } else {
                match type_at(inp, p + 1) {
                    Err(f) => Err(f),
                    Ok((to, q)) => Ok((Type::Arrow(Box::new(from), Box::new(to)), q)),
                }
            }
        } else {
            Ok((from, p))
        },
    }
}

/// The parameters of a function: identifiers, each with a type or without,
/// with commas between them.
pub open spec fn params_at(inp: Input, pos: int) -> Result<
    (Seq<(Id, Option<Type>)>, int),
    ParseFault,
>
    decreases inp.tokens.len() - pos,
{
    match inp.kind(pos) {
        Some(TokenKind::Ident { id, .. }) => match (if inp.kind(pos + 1) == Some(
            TokenKind::Colon,
        ) {
            match type_at(inp, pos + 2) {
                Err(f) => Err(f),
                Ok((t, p)) => Ok((Some(t), p)),
            }
        } else {
            Ok((None, pos + 1))
        }) {
            Err(f) => Err(f),
            Ok((ty, p)) => if inp.kind(p) == Some(TokenKind::Comma) {
                if p <= pos || p > inp.tokens.len() {
                    Err(inp.unexpected(p, "identifier"@))
                } else {
                    match params_at(inp, p + 1) {
                        Err(f) => Err(f),
                        Ok((rest, q)) => Ok((seq![(id, ty)] + rest, q)),
                    }
                }
            } else {
                Ok((seq![(id, ty)], p))
            },
        },
        _ => Err(inp.unexpected(pos, "identifier"@)),
    }
}

/// An expression.
pub open spec fn expr_at(inp: Input, pos: int) -> Result<(RawExpr, int), ParseFault>
    decreases inp.tokens.len() - pos, 20nat,
{
    match inp.kind(pos) {
        Some(TokenKind::Let) => {
            let rec = inp.kind(pos + 1) == Some(TokenKind::Rec);
            let at0 = if rec {
                pos + 2
            } else {
                pos + 1
            };
            match inp.kind(at0) {
                Some(TokenKind::Ident { id, .. }) => if inp.kind(at0 + 1) == Some(
                    TokenKind::Assign,
                ) {
                    match expr_at(inp, at0 + 2) {
                        Err(f) => Err(f),
                        Ok((binding, at1)) => if inp.kind(at1) == Some(TokenKind::In) && at1 > pos {
                            match expr_at(inp, at1 + 1) {
                                Err(f) => Err(f),
                                Ok((body, at2)) => Ok(
                                    (
                                        RawExpr::Let(rec, id, Box::new(binding), Box::new(body)),
                                        at2,
                                    ),
                                ),
                            }
                        } else {
                            Err(inp.unexpected(at1, "in"@))
                        },
                    }
                } else {
                    Err(inp.unexpected(at0 + 1, "="@))
                },
                _ => Err(inp.unexpected(at0, "identifier"@)),
            }
        },
        Some(TokenKind::If) => match expr_at(inp, pos + 1) {
            Err(f) => Err(f),
            Ok((cond, at1)) => if inp.kind(at1) == Some(TokenKind::Then) && at1 > pos {
                match expr_at(inp, at1 + 1) {
                    Err(f) => Err(f),
                    Ok((thn, at2)) => if inp.kind(at2) == Some(TokenKind::Else) && at2 > pos {
                        match expr_at(inp, at2 + 1) {
                            Err(f) => Err(f),
                            Ok((els, at3)) => Ok(
                                (
                                    RawExpr::IfThenElse(
                                        Box::new(cond),
                                        Box::new(thn),
                                        Box::new(els),
                                    ),
                                    at3,
                                ),
                            ),
                        }
                    } else {
                        Err(inp.unexpected(at2, "else"@))
                    },
                }
            } else {
                Err(inp.unexpected(at1, "then"@))
            },
        },
        Some(TokenKind::Bar) => match params_at(inp, pos + 1) {
            Err(f) => Err(f),
            Ok((params, at1)) => if inp.kind(at1) == Some(TokenKind::Bar) && at1 > pos {
                match expr_at(inp, at1 + 1) {
                    Err(f) => Err(f),
                    Ok((body, at2)) => Ok((lambda_of(params, body), at2)),
                }
            } else {
                Err(inp.unexpected(at1, "|"@))
            },
        },
        _ => match binary_at(inp, pos, 0) {
            Err(f) => Err(f),
            Ok((e, p)) => if inp.kind(p) == Some(TokenKind::Colon) {
                match type_at(inp, p + 1) {
                    Err(f) => Err(f),
                    Ok((t, q)) => Ok((RawExpr::Ascribed(Box::new(e), t), q)),
                }
            } else {
                Ok((e, p))
            },
        },
    }
}

/// The place of a chain of level `level` in the order of the grammar's
/// forms.
pub open spec fn rank(level: int) -> nat {
    if 0 <= level < 4 {
        (18 - 3 * level) as nat
    } else {
        6
    }
}

/// A chain of operands joined by the operators of precedence `level`; an
/// operand is a chain of the next level, and past the last level an
/// application.
pub open spec fn binary_at(inp: Input, pos: int, level: int) -> Result<(RawExpr, int), ParseFault>
    decreases inp.tokens.len() - pos, rank(level),
{
    if level < 0 || level >= 4 {
        application_at(inp, pos)
    } else {
        match binary_at(inp, pos, level + 1) {
            Err(f) => Err(f),
            Ok((left, p)) => if p <= pos || p > inp.tokens.len() {
                Err(inp.unexpected(p, "expression"@))
            } else {
                binary_rest(inp, p, level, left)
            },
        }
    }
}

/// The rest of a chain of level `level` whose operands so far make up
/// `left`.
pub open spec fn binary_rest(inp: Input, pos: int, level: int, left: RawExpr) -> Result<
    (RawExpr, int),
    ParseFault,
>
    decreases inp.tokens.len() - pos, 19nat,
{
    match operator_of(inp.kind(pos), level) {
        None => Ok((left, pos)),
        Some(op) => match binary_at(inp, pos + 1, level + 1) {
            Err(f) => Err(f),
            Ok((right, p)) => if p <= pos || p > inp.tokens.len() {
                Err(inp.unexpected(p, "expression"@))
            } else {
                binary_rest(inp, p, level, RawExpr::Op(Box::new(left), op, Box::new(right)))
            },
        },
    }
}

/// An atom, applied to the atoms that follow it.
pub open spec fn application_at(inp: Input, pos: int) -> Result<(RawExpr, int), ParseFault>
    decreases inp.tokens.len() - pos, 4nat,
{
    match atom_at(inp, pos) {
        Err(f) => Err(f),
        Ok((fnc, p)) => if p <= pos || p > inp.tokens.len() {
            Err(inp.unexpected(p, "expression"@))
        } else {
            application_rest(inp, p, fnc)
        },
    }
}

/// The rest of an application whose function and arguments so far make up
/// `fnc`.
pub open spec fn application_rest(inp: Input, pos: int, fnc: RawExpr) -> Result<
    (RawExpr, int),
    ParseFault,
>
    decreases inp.tokens.len() - pos, 19nat,
{
    if starts_atom(inp.kind(pos)) {
        match atom_at(inp, pos) {
            Err(f) => Err(f),
            Ok((arg, p)) => if p <= pos || p > inp.tokens.len() {
                Err(inp.unexpected(p, "expression"@))
            } else {
                application_rest(inp, p, RawExpr::App(Box::new(fnc), Box::new(arg)))
            },
        }
    } else {
        Ok((fnc, pos))
    }
}

/// An atom: a literal, a variable, or an expression in parentheses.
pub open spec fn atom_at(inp: Input, pos: int) -> Result<(RawExpr, int), ParseFault>
    decreases inp.tokens.len() - pos, 2nat,
{
    match inp.kind(pos) {
        Some(TokenKind::Num(n)) => Ok((RawExpr::Literal(Literal::Num(n)), pos + 1)),
        Some(TokenKind::True) => Ok((RawExpr::Literal(Literal::Bool(true)), pos + 1)),
        Some(TokenKind::False) => Ok((RawExpr::Literal(Literal::Bool(false)), pos + 1)),
        Some(TokenKind::Ident { id, .. }) => Ok((RawExpr::Var(id), pos + 1)),
        Some(TokenKind::LParen) => if inp.kind(pos + 1) == Some(TokenKind::RParen) {
            Ok((RawExpr::Literal(Literal::Unit), pos + 2))
        } else {
            match expr_at(inp, pos + 1) {
                Err(f) => Err(f),
                Ok((e, p)) => if inp.kind(p) == Some(TokenKind::RParen) {
                    Ok((e, p + 1))
                } else {
                    Err(inp.unexpected(p, ")"@))
                },
            }
        },
        _ => Err(inp.unexpected(pos, "expression"@)),
    }
}

/// The expression that the tokens spell, all of them.
pub open spec fn parsed_tokens(inp: Input) -> Result<RawExpr, ParseFault> {
    match expr_at(inp, 0) {
        Err(f) => Err(f),
        Ok((e, p)) => if p == inp.tokens.len() {
            Ok(e)
        } else {
            Err(inp.unexpected(p, "end of input"@))
        },
    }
}

/// The expression that the text spells, and the interner's table after its
/// identifiers were interned.
pub open spec fn parsed(chars: Seq<char>, names: Seq<Seq<char>>) -> Result<
    (RawExpr, Seq<Seq<char>>),
    ParseFault,
> {
    match tokens_of(chars, names) {
        Err(f) => Err(f),
        Ok((tokens, after)) => match parsed_tokens(Input { chars, tokens }) {
            Err(f) => Err(f),
            Ok(e) => Ok((e, after)),
        },
    }
}

/// Whether `r` is what `expected` names: the same tree and the place after
/// it, which lies past `pos` and within the `len` tokens; or the same error.
pub open spec fn reads<T>(
    expected: Result<(T, int), ParseFault>,
    r: Result<(T, usize), ParseError>,
    pos: usize,
    len: nat,
) -> bool {
    match expected {
        Ok((e, p)) => r == Ok::<(T, usize), ParseError>((e, p as usize)) && pos < p <= len,
        Err(f) => r matches Err(e) && e@ == f,
    }
}

/// A parser over the tokens of one text.
pub struct Parser<'a> {
    source: &'a Source<'a>,
    tokens: Vec<Token>,
}

impl<'a> Parser<'a> {
    /// What this parser reads.
    pub closed spec fn input(&self) -> Input {
        Input { chars: self.source.chars(), tokens: self.tokens@ }
    }

    /// The tokens lie in the text, in order.
    pub closed spec fn wf(&self) -> bool {
        &&& self.source.wf()
        &&& tokens_in_order(self.tokens@, self.source.chars().len() as int)
    }

    /// A parser over `tokens`, which were cut from `source`.
    pub fn new(source: &'a Source<'a>, tokens: Vec<Token>) -> (parser: Parser<'a>)
        requires
            source.wf(),
            tokens_in_order(tokens@, source.chars().len() as int),
        ensures
            parser.wf(),
            parser.input() == (Input { chars: source.chars(), tokens: tokens@ }),
    {
        Parser { source, tokens }
    }

    fn kind(&self, pos: usize) -> (k: Option<TokenKind>)
        ensures
            k == self.input().kind(pos as int),
            k is Some ==> pos < self.input().tokens.len(),
    {
        if pos < self.tokens.len() {
            Some(self.tokens[pos].kind)
        } else {
            None
        }
    }

    /// The error for the token at `pos`, where something that `expected`
    /// describes had to stand.
    fn unexpected(&self, pos: usize, expected: &str) -> (e: ParseError)
        requires
            self.wf(),
        ensures
            e@ == self.input().unexpected(pos as int, expected@),
    {
        let mut wanted: Vec<String> = Vec::new();
        wanted.push(expected.to_owned());
        assert(texts(wanted@) =~= seq![expected@]);
        let n = self.tokens.len();
        if pos < n {
            let token = self.tokens[pos];
            ParseError::UnexpectedToken {
                location: token.start,
                token: Tok::Raw(self.source.slice(token.start, token.end).to_owned()),
                expected: wanted,
            }
        } else {
            ParseError::UnexpectedToken {
                location: if n > 0 {
                    self.tokens[n - 1].end
                } else {
                    0
                },
                token: Tok::EndOfFile,
                expected: wanted,
            }
        }
    }

    fn operator(&self, pos: usize, level: u8) -> (op: Option<BinaryOp>)
        ensures
            op == operator_of(self.input().kind(pos as int), level as int),
            op is Some ==> pos < self.input().tokens.len(),
    {
        match self.kind(pos) {
            Some(TokenKind::AndAnd) => if level == 0 {
                Some(BinaryOp::And)
            } else {
                None
            },
            Some(TokenKind::EqEq) => if level == 1 {
                Some(BinaryOp::Eq)
            } else {
                None
            },
            Some(TokenKind::Plus) => if level == 2 {
                Some(BinaryOp::Add)
            } else {
                None
            },
            Some(TokenKind::Minus) => if level == 2 {
                Some(BinaryOp::Sub)
            } else {
                None
            },
            Some(TokenKind::Star) => if level == 3 {
                Some(BinaryOp::Mul)
            } else {
                None
            },
            Some(TokenKind::Slash) => if level == 3 {
                Some(BinaryOp::Div)
            } else {
                None
            },
            _ => None,
        }
    }

    fn type_atom(&self, pos: usize) -> (r: Result<(Type, usize), ParseError>)
        requires
            self.wf(),
        ensures
            reads(type_atom(self.input(), pos as int), r, pos, self.input().tokens.len()),
        decreases self.input().tokens.len() - pos, 0nat,
    {
        let n = self.tokens.len();
        match self.kind(pos) {
            Some(TokenKind::Ident { id, primitive: Some(p) }) => Ok((Type::Primitive(p), pos + 1)),
            Some(TokenKind::LParen) => {
                let (t, p) = match self.type_at(pos + 1) {
                    Ok(x) => x,
                    Err(e) => {
                        return Err(e);
                    },
                };
                match self.kind(p) {
                    Some(TokenKind::RParen) => Ok((t, p + 1)),
                    _ => Err(self.unexpected(p, ")")),
                }
            },
            _ => Err(self.unexpected(pos, "type")),
        }
    }

    fn type_at(&self, pos: usize) -> (r: Result<(Type, usize), ParseError>)
        requires
            self.wf(),
        ensures
            reads(type_at(self.input(), pos as int), r, pos, self.input().tokens.len()),
        decreases self.input().tokens.len() - pos, 1nat,
    {
        let n = self.tokens.len();
        let (from, p) = match self.type_atom(pos) {
            Ok(x) => x,
            Err(e) => {
                return Err(e);
            },
        };
        match self.kind(p) {
            Some(TokenKind::Arrow) => {
                let (to, q) = match self.type_at(p + 1) {
                    Ok(x) => x,
                    Err(e) => {
                        return Err(e);
                    },
                };
                Ok((Type::Arrow(Box::new(from), Box::new(to)), q))
            },
            _ => Ok((from, p)),
        }
    }

    fn params_at(&self, pos: usize) -> (r: Result<(Vec<(Id, Option<Type>)>, usize), ParseError>)
        requires
            self.wf(),
        ensures
            match params_at(self.input(), pos as int) {
                Ok((params, p)) => r matches Ok(x) && x.0@ == params && x.1 == p && pos < p
                    <= self.input().tokens.len(),
                Err(f) => r matches Err(e) && e@ == f,
            },
        decreases self.input().tokens.len() - pos,
    {
        let n = self.tokens.len();
        match self.kind(pos) {
            Some(TokenKind::Ident { id, .. }) => {
                let (ty, p) = match self.kind(pos + 1) {
                    Some(TokenKind::Colon) => match self.type_at(pos + 2) {
                        Ok((t, p)) => (Some(t), p),
                        Err(e) => {
                            return Err(e);
                        },
                    },
                    _ => (None, pos + 1),
                };
                match self.kind(p) {
                    Some(TokenKind::Comma) => {
                        let (rest, q) = match self.params_at(p + 1) {
                            Ok(x) => x,
                            Err(e) => {
                                return Err(e);
                            },
                        };
                        let mut params: Vec<(Id, Option<Type>)> = Vec::new();
                        params.push((id, ty));
                        let mut rest = rest;
                        let ghost tail = rest@;
                        params.append(&mut rest);
                        assert(params@ =~= seq![(id, ty)] + tail);
                        Ok((params, q))
                    },
                    _ => {
                        let mut params: Vec<(Id, Option<Type>)> = Vec::new();
                        params.push((id, ty));
                        assert(params@ =~= seq![(id, ty)]);
                        Ok((params, p))
                    },
                }
            },
            _ => Err(self.unexpected(pos, "identifier")),
        }
    }

    /// The function of parameters `params` and body `body`.
    fn lambda(params: Vec<(Id, Option<Type>)>, body: RawExpr) -> (e: RawExpr)
        ensures
            e == lambda_of(params@, body),
        decreases params@.len(),
    {
        let mut params = params;
        match params.pop() {
            None => body,
            Some((id, ty)) => Parser::lambda(params, RawExpr::Lambda(id, ty, Box::new(body))),
        }
    }

    #[verifier::rlimit(50)]
    fn expr_at(&self, pos: usize) -> (r: Result<(RawExpr, usize), ParseError>)
        requires
            self.wf(),
        ensures
            reads(expr_at(self.input(), pos as int), r, pos, self.input().tokens.len()),
        decreases self.input().tokens.len() - pos, 20nat,
    {
        let n = self.tokens.len();
        match self.kind(pos) {
            Some(TokenKind::Let) => {
                let rec = matches!(self.kind(pos + 1), Some(TokenKind::Rec));
                let at0 = if rec {
                    pos + 2
                } else {
                    pos + 1
                };
                let id = match self.kind(at0) {
                    Some(TokenKind::Ident { id, .. }) => id,
                    _ => {
                        return Err(self.unexpected(at0, "identifier"));
                    },
                };
                match self.kind(at0 + 1) {
                    Some(TokenKind::Assign) => {},
                    _ => {
                        return Err(self.unexpected(at0 + 1, "="));
                    },
                }
                let (binding, at1) = match self.expr_at(at0 + 2) {
                    Ok(x) => x,
                    Err(e) => {
                        return Err(e);
                    },
                };
                match self.kind(at1) {
                    Some(TokenKind::In) => {},
                    _ => {
                        return Err(self.unexpected(at1, "in"));
                    },
                }
                let (body, at2) = match self.expr_at(at1 + 1) {
                    Ok(x) => x,
                    Err(e) => {
                        return Err(e);
                    },
                };
                Ok((RawExpr::Let(rec, id, Box::new(binding), Box::new(body)), at2))
            },
            Some(TokenKind::If) => {
                let (cond, at1) = match self.expr_at(pos + 1) {
                    Ok(x) => x,
                    Err(e) => {
                        return Err(e);
                    },
                };
                match self.kind(at1) {
                    Some(TokenKind::Then) => {},
                    _ => {
                        return Err(self.unexpected(at1, "then"));
                    },
                }
                let (thn, at2) = match self.expr_at(at1 + 1) {
                    Ok(x) => x,
                    Err(e) => {
                        return Err(e);
                    },
                };
                match self.kind(at2) {
                    Some(TokenKind::Else) => {},
                    _ => {
                        return Err(self.unexpected(at2, "else"));
                    },
                }
                let (els, at3) = match self.expr_at(at2 + 1) {
                    Ok(x) => x,
                    Err(e) => {
                        return Err(e);
                    },
                };
                Ok((RawExpr::IfThenElse(Box::new(cond), Box::new(thn), Box::new(els)), at3))
            },
            Some(TokenKind::Bar) => {
                let (params, at1) = match self.params_at(pos + 1) {
                    Ok(x) => x,
                    Err(e) => {
                        return Err(e);
                    },
                };
                match self.kind(at1) {
                    Some(TokenKind::Bar) => {},
                    _ => {
                        return Err(self.unexpected(at1, "|"));
                    },
                }
                let (body, at2) = match self.expr_at(at1 + 1) {
                    Ok(x) => x,
                    Err(e) => {
                        return Err(e);
                    },
                };
                Ok((Parser::lambda(params, body), at2))
            },
            _ => {
                let (e, p) = match self.binary_at(pos, 0) {
                    Ok(x) => x,
                    Err(e) => {
                        return Err(e);
                    },
                };
                match self.kind(p) {
                    Some(TokenKind::Colon) => {
                        let (t, q) = match self.type_at(p + 1) {
                            Ok(x) => x,
                            Err(e) => {
                                return Err(e);
                            },
                        };
                        Ok((RawExpr::Ascribed(Box::new(e), t), q))
                    },
                    _ => Ok((e, p)),
                }
            },
        }
    }

    fn binary_at(&self, pos: usize, level: u8) -> (r: Result<(RawExpr, usize), ParseError>)
        requires
            self.wf(),
        ensures
            reads(binary_at(self.input(), pos as int, level as int), r, pos, self.input().tokens.len()),
        decreases self.input().tokens.len() - pos, rank(level as int),
    {
        let n = self.tokens.len();
        if level >= 4 {
            self.application_at(pos)
        } else {
            let (left, p) = match self.binary_at(pos, level + 1) {
                Ok(x) => x,
                Err(e) => {
                    return Err(e);
                },
            };
            self.binary_rest(p, level, left)
        }
    }

    fn binary_rest(&self, pos: usize, level: u8, left: RawExpr) -> (r: Result<
        (RawExpr, usize),
        ParseError,
    >)
        requires
            self.wf(),
            level < 4,
            pos <= self.input().tokens.len(),
        ensures
            match binary_rest(self.input(), pos as int, level as int, left) {
                Ok((e, p)) => r == Ok::<(RawExpr, usize), ParseError>((e, p as usize)) && pos <= p
                    <= self.input().tokens.len(),
                Err(f) => r matches Err(e) && e@ == f,
            },
        decreases self.input().tokens.len() - pos, 19nat,
    {
        let n = self.tokens.len();
        match self.operator(pos, level) {
            None => Ok((left, pos)),
            Some(op) => {
                let (right, p) = match self.binary_at(pos + 1, level + 1) {
                    Ok(x) => x,
                    Err(e) => {
                        return Err(e);
                    },
                };
                self.binary_rest(p, level, RawExpr::Op(Box::new(left), op, Box::new(right)))
            },
        }
    }

    fn application_at(&self, pos: usize) -> (r: Result<(RawExpr, usize), ParseError>)
        requires
            self.wf(),
        ensures
            reads(application_at(self.input(), pos as int), r, pos, self.input().tokens.len()),
        decreases self.input().tokens.len() - pos, 4nat,
    {
        let n = self.tokens.len();
        let (fnc, p) = match self.atom_at(pos) {
            Ok(x) => x,
            Err(e) => {
                return Err(e);
            },
        };
        self.application_rest(p, fnc)
    }

    fn application_rest(&self, pos: usize, fnc: RawExpr) -> (r: Result<
        (RawExpr, usize),
        ParseError,
    >)
        requires
            self.wf(),
            pos <= self.input().tokens.len(),
        ensures
            match application_rest(self.input(), pos as int, fnc) {
                Ok((e, p)) => r == Ok::<(RawExpr, usize), ParseError>((e, p as usize)) && pos <= p
                    <= self.input().tokens.len(),
                Err(f) => r matches Err(e) && e@ == f,
            },
        decreases self.input().tokens.len() - pos, 19nat,
    {
        let n = self.tokens.len();
        let starts = matches!(
            self.kind(pos),
            Some(TokenKind::Num(_)) | Some(TokenKind::Ident { .. }) | Some(TokenKind::True) | Some(
                TokenKind::False
            ) | Some(TokenKind::LParen)
        );
        if starts {
            let (arg, p) = match self.atom_at(pos) {
                Ok(x) => x,
                Err(e) => {
                    return Err(e);
                },
            };
            self.application_rest(p, RawExpr::App(Box::new(fnc), Box::new(arg)))
        } else {
            Ok((fnc, pos))
        }
    }

    fn atom_at(&self, pos: usize) -> (r: Result<(RawExpr, usize), ParseError>)
        requires
            self.wf(),
        ensures
            reads(atom_at(self.input(), pos as int), r, pos, self.input().tokens.len()),
        decreases self.input().tokens.len() - pos, 2nat,
    {
        let n = self.tokens.len();
        match self.kind(pos) {
            Some(TokenKind::Num(number)) => Ok((RawExpr::Literal(Literal::Num(number)), pos + 1)),
            Some(TokenKind::True) => Ok((RawExpr::Literal(Literal::Bool(true)), pos + 1)),
            Some(TokenKind::False) => Ok((RawExpr::Literal(Literal::Bool(false)), pos + 1)),
            Some(TokenKind::Ident { id, .. }) => Ok((RawExpr::Var(id), pos + 1)),
            Some(TokenKind::LParen) => {
                match self.kind(pos + 1) {
                    Some(TokenKind::RParen) => {
                        return Ok((RawExpr::Literal(Literal::Unit), pos + 2));
                    },
                    _ => {},
                }
                let (e, p) = match self.expr_at(pos + 1) {
                    Ok(x) => x,
                    Err(e) => {
                        return Err(e);
                    },
                };
                match self.kind(p) {
                    Some(TokenKind::RParen) => Ok((e, p + 1)),
                    _ => Err(self.unexpected(p, ")")),
                }
            },
            _ => Err(self.unexpected(pos, "expression")),
        }
    }

    /// Parses all the tokens as one expression.
    pub fn parse(&self) -> (r: Result<RawExpr, ParseError>)
        requires
            self.wf(),
        ensures
            match parsed_tokens(self.input()) {
                Ok(e) => r == Ok::<RawExpr, ParseError>(e),
                Err(f) => r matches Err(e) && e@ == f,
            },
    {
        let (e, p) = match self.expr_at(0) {
            Ok(x) => x,
            Err(e) => {
                return Err(e);
            },
        };
        if p == self.tokens.len() {
            Ok(e)
        } else {
            Err(self.unexpected(p, "end of input"))
        }
    }
}

/// Parses `input`, and interns its identifiers in the order in which they
/// stand.
pub fn parse_text(input: &str, interner: &mut Interner) -> (r: Result<RawExpr, ParseError>)
    requires
        old(interner).wf(),
    ensures
        final(interner).wf(),
        match parsed(input@, old(interner)@) {
            Ok((e, names)) => r == Ok::<RawExpr, ParseError>(e) && final(interner)@ == names,
            Err(f) => r matches Err(e) && e@ == f,
        },
{
    let source = Source::new(input);
    let tokens = match lex(&source, interner) {
        Ok(tokens) => tokens,
        Err(e) => {
            return Err(e);
        },
    };
    Parser::new(&source, tokens).parse()
}

} // verus!
