//! The errors of the pipeline, one family for each stage.
use crate::interner::Id;
use crate::typ;
use vstd::prelude::*;
use vstd::string::StringSliceAdditionalSpecFns;
use vstd::utf8::{encode_utf8, is_char_boundary};

verus! {

/// Any error of the pipeline.
#[derive(Debug, PartialEq)]
pub enum Error {
    ParseError(ParseError),
    TypeError(typ::Error),
    EvaluationError(EvaluationError),
}

/// An error found while reading the program: by the lexer, by the parser, or
/// by the scope checker.
#[derive(Debug, PartialEq, Eq)]
#[allow(inconsistent_fields)]
pub enum ParseError {
    InvalidToken { token: String, location: usize },
    UnexpectedToken { location: usize, token: Tok, expected: Vec<String> },
    UnboundIdentifier { ident: Id },
}

/// The token at which the parser stopped.
#[derive(Debug, PartialEq, Eq)]
pub enum Tok {
    EndOfFile,
    Raw(String),
}

/// An error of the abstract machine.
#[derive(Debug, PartialEq, Eq)]
pub enum EvaluationError {
    DivisionByZero,
    IllegalEquality,
    Internal(String),
}

/// An evaluation error without the wording of an internal one.
pub enum EvaluationFault {
    DivisionByZero,
    IllegalEquality,
    Internal,
}

/// A token as text.
pub enum TokText {
    EndOfFile,
    Raw(Seq<char>),
}

/// A parse error with its strings as text.
#[allow(inconsistent_fields)]
pub enum ParseFault {
    InvalidToken { token: Seq<char>, location: usize },
    UnexpectedToken { location: usize, token: TokText, expected: Seq<Seq<char>> },
    UnboundIdentifier { ident: Id },
}

/// The texts of a list of strings.
pub open spec fn texts(strings: Seq<String>) -> Seq<Seq<char>> {
    Seq::new(strings.len(), |i: int| strings[i]@)
}

/// Any error of the pipeline, by the stage's own description of it.
pub enum Failure {
    Parse(ParseFault),
    Type(typ::Fault),
    Evaluation(EvaluationFault),
}

impl View for EvaluationError {
    type V = EvaluationFault;

    open spec fn view(&self) -> EvaluationFault {
        match self {
            EvaluationError::DivisionByZero => EvaluationFault::DivisionByZero,
            EvaluationError::IllegalEquality => EvaluationFault::IllegalEquality,
            EvaluationError::Internal(_) => EvaluationFault::Internal,
        }
    }
}

impl View for Tok {
    type V = TokText;

    open spec fn view(&self) -> TokText {
        match self {
            Tok::EndOfFile => TokText::EndOfFile,
            Tok::Raw(s) => TokText::Raw(s@),
        }
    }
}

impl View for ParseError {
    type V = ParseFault;

    open spec fn view(&self) -> ParseFault {
        match self {
            ParseError::InvalidToken { token, location } => ParseFault::InvalidToken {
                token: token@,
                location: *location,
            },
            ParseError::UnexpectedToken { location, token, expected } => {
                ParseFault::UnexpectedToken {
                    location: *location,
                    token: token@,
                    expected: texts(expected@),
                }
            },
            ParseError::UnboundIdentifier { ident } => ParseFault::UnboundIdentifier {
                ident: *ident,
            },
        }
    }
}

impl View for Error {
    type V = Failure;

    open spec fn view(&self) -> Failure {
        match self {
            Error::ParseError(e) => Failure::Parse(e@),
            Error::TypeError(e) => Failure::Type(e@),
            Error::EvaluationError(e) => Failure::Evaluation(e@),
        }
    }
}

impl EvaluationError {
    /// An internal error of the machine with the given wording.
    pub fn internal(msg: &str) -> (e: EvaluationError)
        ensures
            e matches EvaluationError::Internal(wording) && wording@ == msg@,
            e@ == EvaluationFault::Internal,
    {
        EvaluationError::Internal(msg.to_owned())
    }
}

impl From<ParseError> for Error {
    fn from(e: ParseError) -> (r: Error) {
        Error::ParseError(e)
    }
}

impl vstd::std_specs::convert::FromSpecImpl<ParseError> for Error {
    open spec fn obeys_from_spec() -> bool {
        true
    }

    open spec fn from_spec(e: ParseError) -> Error {
        Error::ParseError(e)
    }
}

impl From<typ::Error> for Error {
    fn from(e: typ::Error) -> (r: Error) {
        Error::TypeError(e)
    }
}

impl vstd::std_specs::convert::FromSpecImpl<typ::Error> for Error {
    open spec fn obeys_from_spec() -> bool {
        true
    }

    open spec fn from_spec(e: typ::Error) -> Error {
        Error::TypeError(e)
    }
}

impl From<EvaluationError> for Error {
    fn from(e: EvaluationError) -> (r: Error) {
        Error::EvaluationError(e)
    }
}

impl vstd::std_specs::convert::FromSpecImpl<EvaluationError> for Error {
    open spec fn obeys_from_spec() -> bool {
        true
    }

    open spec fn from_spec(e: EvaluationError) -> Error {
        Error::EvaluationError(e)
    }
}

/// What a parser that LALRPOP generated reports, as plain values: one
/// variant for each of its error's variants, a token as the text that it
/// displays.
#[derive(Debug, PartialEq, Eq)]
pub enum Rejection {
    /// No token starts at `location`.
    InvalidToken { location: usize },
    /// The text ended at `location`, where one of `expected` had to stand.
    UnrecognizedEof { location: usize, expected: Vec<String> },
    /// The token `token` stands at `location`, where one of `expected` had
    /// to stand.
    UnrecognizedToken { location: usize, token: String, expected: Vec<String> },
    /// The token `token` stands at `location`, after the end of the program.
    ExtraToken { location: usize, token: String },
    /// An error of the grammar's own, which this language's grammar has not.
    User,
}

/// Whether exactly one character of `src`, one byte long, starts at the
/// byte `location`.
pub open spec fn names_one_byte(src: &str, location: usize) -> bool {
    &&& location < src.spec_bytes().len()
    &&& is_char_boundary(src.spec_bytes(), location as int)
    &&& is_char_boundary(src.spec_bytes(), location + 1)
}

/// Whether `e` is the parse error that stands for `rejection`, which a
/// parser gave for the text `src`.
pub open spec fn stands_for(e: ParseError, rejection: Rejection, src: &str) -> bool {
    match rejection {
        Rejection::InvalidToken { location } => e matches ParseError::InvalidToken {
            token,
            location: l,
        } && l == location && encode_utf8(token@) == src.spec_bytes().subrange(
            location as int,
            location + 1,
        ),
        Rejection::UnrecognizedEof { location, expected } => e == (ParseError::UnexpectedToken {
            location,
            token: Tok::EndOfFile,
            expected,
        }),
        Rejection::UnrecognizedToken { location, token, expected } => e == (
        ParseError::UnexpectedToken { location, token: Tok::Raw(token), expected }),
        Rejection::ExtraToken { location, token } => e matches ParseError::UnexpectedToken {
            location: l,
            token: t,
            expected,
        } && l == location && t == Tok::Raw(token) && expected@.len() == 0,
        Rejection::User => false,
    }
}

/// Whether a rejection can be reported: it is none of the grammar's own
/// errors, and if it names an invalid token, one character of `src`, one byte
/// long, starts at its location.
pub open spec fn reportable(rejection: Rejection, src: &str) -> bool {
    match rejection {
        Rejection::InvalidToken { location } => names_one_byte(src, location),
        Rejection::User => false,
        _ => true,
    }
}

impl Error {
    /// The error that stands for what a generated parser reported for the
    /// text `src`, or `None` where it cannot be reported.
    pub fn from_lalrpop(rejection: Rejection, src: &str) -> (r: Option<Error>)
        ensures
            reportable(rejection, src) ==> (r matches Some(Error::ParseError(e)) && stands_for(
                e,
                rejection,
                src,
            )),
            !reportable(rejection, src) ==> r is None,
    {
        let parse_error = match rejection {
            Rejection::InvalidToken { location } => {
                let n = src.as_bytes().len();
                if location < n && src.is_char_boundary(location) && src.is_char_boundary(
                    location + 1,
                ) {
                    proof {
                        vstd::utf8::encode_utf8_valid_utf8(src@);
                        lemma_boundary_moves(src.spec_bytes(), location as int, location + 1);
                    }
                    let (_, rest) = src.split_at(location);
                    let (token, _) = rest.split_at(1);
                    assert(token.spec_bytes() =~= src.spec_bytes().subrange(
                        location as int,
                        location + 1,
                    ));
                    ParseError::InvalidToken { token: token.to_owned(), location }
                } else {
                    return None;
                }
            },
            Rejection::UnrecognizedEof { location, expected } => ParseError::UnexpectedToken {
                location,
                token: Tok::EndOfFile,
                expected,
            },
            Rejection::UnrecognizedToken { location, token, expected } => {
                ParseError::UnexpectedToken { location, token: Tok::Raw(token), expected }
            },
            Rejection::ExtraToken { location, token } => ParseError::UnexpectedToken {
                location,
                token: Tok::Raw(token),
                expected: Vec::new(),
            },
            Rejection::User => {
                return None;
            },
        };
        Some(Error::ParseError(parse_error))
    }
}

/// A boundary between characters at `index`, past a boundary at `start`, is
/// a boundary of the bytes from `start` on.
proof fn lemma_boundary_moves(bytes: Seq<u8>, start: int, index: int)
    requires
        vstd::utf8::valid_utf8(bytes),
        0 <= start <= index <= bytes.len(),
        is_char_boundary(bytes, start),
        is_char_boundary(bytes, index),
    ensures
        vstd::utf8::valid_utf8(bytes.subrange(start, bytes.len() as int)),
        is_char_boundary(bytes.subrange(start, bytes.len() as int), index - start),
{
    let rest = bytes.subrange(start, bytes.len() as int);
    vstd::utf8::valid_utf8_split(bytes, start);
    if index < bytes.len() {
        vstd::utf8::is_char_boundary_iff_not_is_continuation_byte(bytes, index);
        assert(rest[index - start] == bytes[index]);
        vstd::utf8::is_char_boundary_iff_not_is_continuation_byte(rest, index - start);
    } else {
        vstd::utf8::is_char_boundary_start_end_of_seq(rest);
    }
}

} // verus!
