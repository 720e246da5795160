//! The lexer: from the text of a program to its tokens.
//!
//! Blanks and comments, which run from `--` to the end of the line, separate
//! tokens. A number is a run of digits, with a fraction or without, and with
//! a minus sign before it where no operand stands to its left. A word is a
//! keyword or an identifier; identifiers are interned as they are read.
use crate::error::{ParseError, ParseFault};
use crate::interner::{interned, Id, Interner};
use crate::num::{double_from_text, Number};
use crate::typ::Primitive;
use vstd::prelude::*;

verus! {

/// What a token is.
#[derive(Clone, Copy, Debug, PartialEq)]
pub enum TokenKind {
    /// A number literal.
    Num(Number),
    /// An identifier; `primitive` is set where it spells the name of a
    /// primitive type.
    Ident { id: Id, primitive: Option<Primitive> },
    Let,
    Rec,
    In,
    If,
    Then,
    Else,
    True,
    False,
    LParen,
    RParen,
    Bar,
    Comma,
    Colon,
    Assign,
    EqEq,
    AndAnd,
    Plus,
    Minus,
    Star,
    Slash,
    Arrow,
}

/// A token, with the place of its text: from `start` up to `end`, counted in
/// characters.
#[derive(Clone, Copy, Debug, PartialEq)]
pub struct Token {
    pub kind: TokenKind,
    pub start: usize,
    pub end: usize,
}

/// Whether `c` is a blank: a space, a tab or the end of a line.
pub open spec fn is_blank(c: char) -> bool {
    c == ' ' || c == '\t' || c == '\n' || c == '\r'
}

/// Whether `c` is a decimal digit.
pub open spec fn is_digit(c: char) -> bool {
    '0' <= c && c <= '9'
}

/// Whether `c` is a letter of the Latin alphabet.
pub open spec fn is_letter(c: char) -> bool {
    ('a' <= c && c <= 'z') || ('A' <= c && c <= 'Z')
}

/// Whether `c` may stand in a word: a letter, a digit or an underscore.
pub open spec fn is_word_char(c: char) -> bool {
    is_letter(c) || is_digit(c) || c == '_'
}

/// The first place from `pos` on that is neither blank nor in a comment.
/// `in_comment` says whether `pos` is in a comment.
pub open spec fn skip_blanks(chars: Seq<char>, pos: int, in_comment: bool) -> int
    decreases chars.len() - pos,
{
    if pos >= chars.len() {
        chars.len() as int
    } else if in_comment {
        skip_blanks(chars, pos + 1, chars[pos] != '\n')
    } else if is_blank(chars[pos]) {
        skip_blanks(chars, pos + 1, false)
    } else if chars[pos] == '-' && pos + 1 < chars.len() && chars[pos + 1] == '-' {
        skip_blanks(chars, pos + 2, true)
    } else {
        pos
    }
}

/// The end of the run of digits that starts at `pos`.
pub open spec fn digits_end(chars: Seq<char>, pos: int) -> int
    decreases chars.len() - pos,
{
    if pos < chars.len() && is_digit(chars[pos]) {
        digits_end(chars, pos + 1)
    } else {
        pos
    }
}

/// The end of the run of letters, digits and underscores that starts at
/// `pos`.
pub open spec fn word_end(chars: Seq<char>, pos: int) -> int
    decreases chars.len() - pos,
{
    if pos < chars.len() && is_word_char(chars[pos]) {
        word_end(chars, pos + 1)
    } else {
        pos
    }
}

/// The end of the run of underscores that starts at `pos`.
pub open spec fn underscores_end(chars: Seq<char>, pos: int) -> int
    decreases chars.len() - pos,
{
    if pos < chars.len() && chars[pos] == '_' {
        underscores_end(chars, pos + 1)
    } else {
        pos
    }
}

/// The end of the number literal whose digits start at `pos`: the digits,
/// and a fraction if a point and a digit follow them.
pub open spec fn number_end(chars: Seq<char>, pos: int) -> int {
    let whole = digits_end(chars, pos);
    if whole + 1 < chars.len() && chars[whole] == '.' && is_digit(chars[whole + 1]) {
        digits_end(chars, whole + 1)
    } else {
        whole
    }
}

/// Whether a number literal starts at `pos`: a digit, or, where no operand
/// stands to the left, a minus sign and a digit.
pub open spec fn number_starts(chars: Seq<char>, pos: int, after_operand: bool) -> bool {
    pos < chars.len() && (is_digit(chars[pos]) || (!after_operand && chars[pos]
        == '-' && pos + 1 < chars.len() && is_digit(chars[pos + 1])))
}

/// The keyword that `text` spells.
pub open spec fn keyword(text: Seq<char>) -> Option<TokenKind> {
    if text == seq!['l', 'e', 't'] {
        Some(TokenKind::Let)
    } else if text == seq!['r', 'e', 'c'] {
        Some(TokenKind::Rec)
    } else if text == seq!['i', 'n'] {
        Some(TokenKind::In)
    } else if text == seq!['i', 'f'] {
        Some(TokenKind::If)
    } else if text == seq!['t', 'h', 'e', 'n'] {
        Some(TokenKind::Then)
    } else if text == seq!['e', 'l', 's', 'e'] {
        Some(TokenKind::Else)
    } else if text == seq!['t', 'r', 'u', 'e'] {
        Some(TokenKind::True)
    } else if text == seq!['f', 'a', 'l', 's', 'e'] {
        Some(TokenKind::False)
    } else {
        None
    }
}

/// The primitive type that `text` names.
pub open spec fn primitive_named(text: Seq<char>) -> Option<Primitive> {
    if text == seq!['N', 'u', 'm'] {
        Some(Primitive::Num)
    } else if text == seq!['B', 'o', 'o', 'l'] {
        Some(Primitive::Bool)
    } else if text == seq!['U', 'n', 'i', 't'] {
        Some(Primitive::Unit)
    } else {
        None
    }
}

/// The token made of punctuation that starts at `pos`, and its length.
pub open spec fn symbol_at(chars: Seq<char>, pos: int) -> Option<(TokenKind, int)> {
    if pos >= chars.len() {
        None
    } else {
        let c = chars[pos];
        let d = if pos + 1 < chars.len() {
            Some(chars[pos + 1])
        } else {
            None
        };
        if c == '=' && d == Some('=') {
            Some((TokenKind::EqEq, 2))
        } else if c == '&' && d == Some('&') {
            Some((TokenKind::AndAnd, 2))
        } else if c == '-' && d == Some('>') {
            Some((TokenKind::Arrow, 2))
        } else if c == '(' {
            Some((TokenKind::LParen, 1))
        } else if c == ')' {
            Some((TokenKind::RParen, 1))
        } else if c == '|' {
            Some((TokenKind::Bar, 1))
        } else if c == ',' {
            Some((TokenKind::Comma, 1))
        } else if c == ':' {
            Some((TokenKind::Colon, 1))
        } else if c == '=' {
            Some((TokenKind::Assign, 1))
        } else if c == '+' {
            Some((TokenKind::Plus, 1))
        } else if c == '-' {
            Some((TokenKind::Minus, 1))
        } else if c == '*' {
            Some((TokenKind::Star, 1))
        } else if c == '/' {
            Some((TokenKind::Slash, 1))
        } else {
            None
        }
    }
}

/// The error for the character at `pos`, with which no token starts.
pub open spec fn invalid_at(chars: Seq<char>, pos: int) -> ParseFault {
    ParseFault::InvalidToken {
        token: chars.subrange(pos, pos + 1),
        location: pos as usize,
    }
}

/// Whether an operand may end with a token of this kind.
pub open spec fn ends_operand(kind: TokenKind) -> bool {
    match kind {
        TokenKind::Num(_) | TokenKind::Ident { .. } | TokenKind::True | TokenKind::False
        | TokenKind::RParen => true,
        _ => false,
    }
}

/// The token that starts at `pos`, where a character that is not blank
/// stands, and the interner's table after it was read.
pub open spec fn token_at(
    chars: Seq<char>,
    pos: int,
    names: Seq<Seq<char>>,
    after_operand: bool,
) -> Result<(Token, Seq<Seq<char>>), ParseFault>
    recommends
        pos < chars.len(),
{
    let c = chars[pos];
    if number_starts(chars, pos, after_operand) {
        let end = number_end(
            chars,
            if is_digit(c) {
                pos
            } else {
                pos + 1
            },
        );
        match double_from_text(chars.subrange(pos, end)) {
            Some(bits) => Ok(
                (
                    Token {
                        kind: TokenKind::Num(Number { bits }),
                        start: pos as usize,
                        end: end as usize,
                    },
                    names,
                ),
            ),
            None => Err(invalid_at(chars, pos)),
        }
    } else if is_letter(c) || c == '_' {
        let end = word_end(chars, pos);
        let text = chars.subrange(pos, end);
        let first = underscores_end(chars, pos);
        match keyword(text) {
            Some(kind) => Ok((Token { kind, start: pos as usize, end: end as usize }, names)),
            None => if first < end && is_letter(chars[first]) {
                let (after, id) = interned(names, text);
                Ok(
                    (
                        Token {
                            kind: TokenKind::Ident {
                                id: Id(id as usize),
                                primitive: primitive_named(text),
                            },
                            start: pos as usize,
                            end: end as usize,
                        },
                        after,
                    ),
                )
            } else {
                Err(invalid_at(chars, pos))
            },
        }
    } else {
        match symbol_at(chars, pos) {
            Some((kind, len)) => Ok(
                (Token { kind, start: pos as usize, end: (pos + len) as usize }, names),
            ),
            None => Err(invalid_at(chars, pos)),
        }
    }
}

/// The tokens from `pos` on, and the interner's table after they were read.
pub open spec fn tokens_from(
    chars: Seq<char>,
    pos: int,
    names: Seq<Seq<char>>,
    after_operand: bool,
) -> Result<(Seq<Token>, Seq<Seq<char>>), ParseFault>
    decreases chars.len() - pos,
{
    let start = skip_blanks(chars, pos, false);
    if start >= chars.len() {
        Ok((Seq::empty(), names))
    } else {
        match token_at(chars, start, names, after_operand) {
            Err(f) => Err(f),
            Ok((token, after)) => if token.end <= pos || token.end > chars.len() {
                Err(invalid_at(chars, start))
            } else {
                match tokens_from(chars, token.end as int, after, ends_operand(token.kind)) {
                    Err(f) => Err(f),
                    Ok((rest, last)) => Ok((seq![token] + rest, last)),
                }
            },
        }
    }
}

/// The tokens of a program, and the interner's table after they were read.
pub open spec fn tokens_of(chars: Seq<char>, names: Seq<Seq<char>>) -> Result<
    (Seq<Token>, Seq<Seq<char>>),
    ParseFault,
> {
    tokens_from(chars, 0, names, false)
}

/// The characters of `s`, one by one.
pub fn chars_of(s: &str) -> (chars: Vec<char>)
    ensures
        chars@ == s@,
{
    let mut chars: Vec<char> = Vec::new();
    for c in it: s.chars()
        invariant
            chars@ == it.seq().take(it.index() as int),
            it.seq() == s@,
    {
        chars.push(c);
    }
    chars
}

fn blank(c: char) -> (r: bool)
    ensures
        r == is_blank(c),
{
    c == ' ' || c == '\t' || c == '\n' || c == '\r'
}

fn digit(c: char) -> (r: bool)
    ensures
        r == is_digit(c),
{
    '0' <= c && c <= '9'
}

fn letter(c: char) -> (r: bool)
    ensures
        r == is_letter(c),
{
    ('a' <= c && c <= 'z') || ('A' <= c && c <= 'Z')
}

fn word_char(c: char) -> (r: bool)
    ensures
        r == is_word_char(c),
{
    letter(c) || digit(c) || c == '_'
}

/// The text to read, with what is known of it.
pub struct Source<'a> {
    text: &'a str,
    chars: Vec<char>,
    ascii: bool,
}

impl<'a> Source<'a> {
    /// The characters of the text.
    pub closed spec fn chars(&self) -> Seq<char> {
        self.chars@
    }

    /// The fields describe one text.
    pub closed spec fn wf(&self) -> bool {
        &&& self.chars@ == self.text@
        &&& self.ascii ==> self.text.is_ascii()
    }

    /// The source that holds `text`.
    pub fn new(text: &'a str) -> (source: Source<'a>)
        ensures
            source.wf(),
            source.chars() == text@,
    {
        Source { text, chars: chars_of(text), ascii: text.is_ascii() }
    }

    /// The number of characters.
    pub fn len(&self) -> (n: usize)
        ensures
            n == self.chars().len(),
    {
        self.chars.len()
    }

    /// The text from `from` up to `to`.
    pub fn slice(&self, from: usize, to: usize) -> (part: &'a str)
        requires
            self.wf(),
            from <= to <= self.chars().len(),
        ensures
            part@ == self.chars().subrange(from as int, to as int),
    {
        if self.ascii {
            self.text.substring_ascii(from, to)
        } else {
            self.text.substring_char(from, to)
        }
    }

    /// The error for the character at `pos`, with which no token starts.
    fn invalid(&self, pos: usize) -> (e: ParseError)
        requires
            self.wf(),
            pos < self.chars().len(),
        ensures
            e@ == invalid_at(self.chars(), pos as int),
    {
        let n = self.chars.len();
        ParseError::InvalidToken { token: self.slice(pos, pos + 1).to_owned(), location: pos }
    }

    fn skip(&self, pos: usize) -> (p: usize)
        requires
            pos <= self.chars().len(),
        ensures
            p == skip_blanks(self.chars(), pos as int, false),
            pos <= p <= self.chars().len(),
    {
        let n = self.chars.len();
        let mut i: usize = pos;
        let mut in_comment = false;
        while i < n && (in_comment || blank(self.chars[i]) || (self.chars[i] == '-' && i + 1 < n
            && self.chars[i + 1] == '-'))
            invariant
                n == self.chars@.len(),
                pos <= i <= n,
                skip_blanks(self.chars@, pos as int, false) == skip_blanks(
                    self.chars@,
                    i as int,
                    in_comment,
                ),
            decreases n - i,
        {
            if in_comment {
                in_comment = self.chars[i] != '\n';
                i = i + 1;
            } else if blank(self.chars[i]) {
                i = i + 1;
            } else {
                in_comment = true;
                i = i + 2;
            }
        }
        i
    }

    fn scan_digits(&self, pos: usize) -> (end: usize)
        requires
            pos <= self.chars().len(),
        ensures
            end == digits_end(self.chars(), pos as int),
            pos <= end <= self.chars().len(),
    {
        let n = self.chars.len();
        let mut i: usize = pos;
        while i < n && digit(self.chars[i])
            invariant
                n == self.chars@.len(),
                pos <= i <= n,
                digits_end(self.chars@, pos as int) == digits_end(self.chars@, i as int),
            decreases n - i,
        {
            i = i + 1;
        }
        i
    }

    fn scan_word(&self, pos: usize) -> (end: usize)
        requires
            pos <= self.chars().len(),
        ensures
            end == word_end(self.chars(), pos as int),
            pos <= end <= self.chars().len(),
    {
        let n = self.chars.len();
        let mut i: usize = pos;
        while i < n && word_char(self.chars[i])
            invariant
                n == self.chars@.len(),
                pos <= i <= n,
                word_end(self.chars@, pos as int) == word_end(self.chars@, i as int),
            decreases n - i,
        {
            i = i + 1;
        }
        i
    }

    fn scan_underscores(&self, pos: usize) -> (end: usize)
        requires
            pos <= self.chars().len(),
        ensures
            end == underscores_end(self.chars(), pos as int),
            pos <= end <= self.chars().len(),
    {
        let n = self.chars.len();
        let mut i: usize = pos;
        while i < n && self.chars[i] == '_'
            invariant
                n == self.chars@.len(),
                pos <= i <= n,
                underscores_end(self.chars@, pos as int) == underscores_end(
                    self.chars@,
                    i as int,
                ),
            decreases n - i,
        {
            i = i + 1;
        }
        i
    }

    fn scan_number(&self, pos: usize) -> (end: usize)
        requires
            pos <= self.chars().len(),
        ensures
            end == number_end(self.chars(), pos as int),
            pos <= end <= self.chars().len(),
    {
        let n = self.chars.len();
        let whole = self.scan_digits(pos);
        if whole < n && n - whole > 1 && self.chars[whole] == '.' && digit(self.chars[whole + 1]) {
            self.scan_digits(whole + 1)
        } else {
            whole
        }
    }

    fn keyword_at(&self, start: usize, end: usize) -> (r: Option<TokenKind>)
        requires
            start <= end <= self.chars().len(),
        ensures
            r == keyword(self.chars().subrange(start as int, end as int)),
    {
        let ghost text = self.chars@.subrange(start as int, end as int);
        let n = end - start;
        let c = &self.chars;
        if n == 2 && c[start] == 'i' && c[start + 1] == 'n' {
            assert(text =~= seq!['i', 'n']);
            Some(TokenKind::In)
        } else if n == 2 && c[start] == 'i' && c[start + 1] == 'f' {
            assert(text =~= seq!['i', 'f']);
            Some(TokenKind::If)
        } else if n == 3 && c[start] == 'l' && c[start + 1] == 'e' && c[start + 2] == 't' {
            assert(text =~= seq!['l', 'e', 't']);
            Some(TokenKind::Let)
        } else if n == 3 && c[start] == 'r' && c[start + 1] == 'e' && c[start + 2] == 'c' {
            assert(text =~= seq!['r', 'e', 'c']);
            Some(TokenKind::Rec)
        } else if n == 4 && c[start] == 't' && c[start + 1] == 'h' && c[start + 2] == 'e' && c[start
            + 3] == 'n' {
            assert(text =~= seq!['t', 'h', 'e', 'n']);
            Some(TokenKind::Then)
        } else if n == 4 && c[start] == 'e' && c[start + 1] == 'l' && c[start + 2] == 's' && c[start
            + 3] == 'e' {
            assert(text =~= seq!['e', 'l', 's', 'e']);
            Some(TokenKind::Else)
        } else if n == 4 && c[start] == 't' && c[start + 1] == 'r' && c[start + 2] == 'u' && c[start
            + 3] == 'e' {
            assert(text =~= seq!['t', 'r', 'u', 'e']);
            Some(TokenKind::True)
        } else if n == 5 && c[start] == 'f' && c[start + 1] == 'a' && c[start + 2] == 'l' && c[start
            + 3] == 's' && c[start + 4] == 'e' {
            assert(text =~= seq!['f', 'a', 'l', 's', 'e']);
            Some(TokenKind::False)
        } else {
            proof {
                lemma_not_a_keyword(text);
            }
            None
        }
    }

    fn primitive_at(&self, start: usize, end: usize) -> (r: Option<Primitive>)
        requires
            start <= end <= self.chars().len(),
        ensures
            r == primitive_named(self.chars().subrange(start as int, end as int)),
    {
        let ghost text = self.chars@.subrange(start as int, end as int);
        let n = end - start;
        let c = &self.chars;
        if n == 3 && c[start] == 'N' && c[start + 1] == 'u' && c[start + 2] == 'm' {
            assert(text =~= seq!['N', 'u', 'm']);
            Some(Primitive::Num)
        } else if n == 4 && c[start] == 'B' && c[start + 1] == 'o' && c[start + 2] == 'o' && c[start
            + 3] == 'l' {
            assert(text =~= seq!['B', 'o', 'o', 'l']);
            Some(Primitive::Bool)
        } else if n == 4 && c[start] == 'U' && c[start + 1] == 'n' && c[start + 2] == 'i' && c[start
            + 3] == 't' {
            assert(text =~= seq!['U', 'n', 'i', 't']);
            Some(Primitive::Unit)
        } else {
            proof {
                lemma_not_a_primitive(text);
            }
            None
        }
    }

    fn symbol(&self, pos: usize) -> (r: Option<(TokenKind, usize)>)
        requires
            pos < self.chars().len(),
        ensures
            match symbol_at(self.chars(), pos as int) {
                Some((kind, len)) => r == Some((kind, len as usize)) && 1 <= len <= 2 && pos + len
                    <= self.chars().len(),
                None => r is None,
            },
    {
        let n = self.chars.len();
        let c = self.chars[pos];
        let two = n - pos > 1;
        if c == '=' && two && self.chars[pos + 1] == '=' {
            Some((TokenKind::EqEq, 2))
        } else if c == '&' && two && self.chars[pos + 1] == '&' {
            Some((TokenKind::AndAnd, 2))
        } else if c == '-' && two && self.chars[pos + 1] == '>' {
            Some((TokenKind::Arrow, 2))
        } else if c == '(' {
            Some((TokenKind::LParen, 1))
        } else if c == ')' {
            Some((TokenKind::RParen, 1))
        } else if c == '|' {
            Some((TokenKind::Bar, 1))
        } else if c == ',' {
            Some((TokenKind::Comma, 1))
        } else if c == ':' {
            Some((TokenKind::Colon, 1))
        } else if c == '=' {
            Some((TokenKind::Assign, 1))
        } else if c == '+' {
            Some((TokenKind::Plus, 1))
        } else if c == '-' {
            Some((TokenKind::Minus, 1))
        } else if c == '*' {
            Some((TokenKind::Star, 1))
        } else if c == '/' {
            Some((TokenKind::Slash, 1))
        } else {
            None
        }
    }

    /// Reads the token that starts at `pos`.
    fn token(&self, pos: usize, interner: &mut Interner, after_operand: bool) -> (r: Result<
        Token,
        ParseError,
    >)
        requires
            self.wf(),
            pos < self.chars().len(),
            old(interner).wf(),
        ensures
            final(interner).wf(),
            match token_at(self.chars(), pos as int, old(interner)@, after_operand) {
                Ok((token, names)) => r == Ok::<Token, ParseError>(token) && final(interner)@
                    == names && pos < token.end <= self.chars().len(),
                Err(f) => r matches Err(e) && e@ == f,
            },
    {
        let n = self.chars.len();
        let c = self.chars[pos];
        if digit(c) || (!after_operand && c == '-' && n - pos > 1 && digit(self.chars[pos + 1])) {
            let end = self.scan_number(
                if digit(c) {
                    pos
                } else {
                    pos + 1
                },
            );
            proof {
                if is_digit(c) {
                    lemma_digits_end(self.chars@, pos + 1);
                    lemma_digits_end(self.chars@, digits_end(self.chars@, pos as int) + 1);
                }
            }
            match Number::from_text(self.slice(pos, end)) {
                Some(number) => Ok(Token { kind: TokenKind::Num(number), start: pos, end }),
                None => Err(self.invalid(pos)),
            }
        } else if letter(c) || c == '_' {
            let end = self.scan_word(pos);
            let first = self.scan_underscores(pos);
            proof {
                lemma_word_end(self.chars@, pos + 1);
            }
            match self.keyword_at(pos, end) {
                Some(kind) => Ok(Token { kind, start: pos, end }),
                None => {
                    if first < end && letter(self.chars[first]) {
                        let primitive = self.primitive_at(pos, end);
                        let id = interner.intern(self.slice(pos, end));
                        Ok(Token { kind: TokenKind::Ident { id, primitive }, start: pos, end })
                    } else {
                        Err(self.invalid(pos))
                    }
                },
            }
        } else {
            match self.symbol(pos) {
                Some((kind, len)) => Ok(Token { kind, start: pos, end: pos + len }),
                None => Err(self.invalid(pos)),
            }
        }
    }
}

/// A run of digits ends at its start or later.
proof fn lemma_digits_end(chars: Seq<char>, pos: int)
    ensures
        digits_end(chars, pos) >= pos,
    decreases chars.len() - pos,
{
    if pos < chars.len() && is_digit(chars[pos]) {
        lemma_digits_end(chars, pos + 1);
    }
}

/// A word ends at its start or later.
proof fn lemma_word_end(chars: Seq<char>, pos: int)
    ensures
        word_end(chars, pos) >= pos,
    decreases chars.len() - pos,
{
    if pos < chars.len() && is_word_char(chars[pos]) {
        lemma_word_end(chars, pos + 1);
    }
}

/// A text of another length than a keyword's, or with another character
/// somewhere, is no keyword.
proof fn lemma_not_a_keyword(text: Seq<char>)
    requires
        !(text.len() == 2 && text[0] == 'i' && text[1] == 'n'),
        !(text.len() == 2 && text[0] == 'i' && text[1] == 'f'),
        !(text.len() == 3 && text[0] == 'l' && text[1] == 'e' && text[2] == 't'),
        !(text.len() == 3 && text[0] == 'r' && text[1] == 'e' && text[2] == 'c'),
        !(text.len() == 4 && text[0] == 't' && text[1] == 'h' && text[2] == 'e' && text[3] == 'n'),
        !(text.len() == 4 && text[0] == 'e' && text[1] == 'l' && text[2] == 's' && text[3] == 'e'),
        !(text.len() == 4 && text[0] == 't' && text[1] == 'r' && text[2] == 'u' && text[3] == 'e'),
        !(text.len() == 5 && text[0] == 'f' && text[1] == 'a' && text[2] == 'l' && text[3] == 's'
            && text[4] == 'e'),
    ensures
        keyword(text) is None,
{
}

/// The same for the names of the primitive types.
proof fn lemma_not_a_primitive(text: Seq<char>)
    requires
        !(text.len() == 3 && text[0] == 'N' && text[1] == 'u' && text[2] == 'm'),
        !(text.len() == 4 && text[0] == 'B' && text[1] == 'o' && text[2] == 'o' && text[3] == 'l'),
        !(text.len() == 4 && text[0] == 'U' && text[1] == 'n' && text[2] == 'i' && text[3] == 't'),
    ensures
        primitive_named(text) is None,
{
}

/// The result of reading on after the tokens `read`.
pub open spec fn after_tokens(
    read: Seq<Token>,
    rest: Result<(Seq<Token>, Seq<Seq<char>>), ParseFault>,
) -> Result<(Seq<Token>, Seq<Seq<char>>), ParseFault> {
    match rest {
        Ok((tokens, names)) => Ok((read + tokens, names)),
        Err(f) => Err(f),
    }
}

/// Every token lies in the text, is not empty, and starts where the one
/// before it has ended or later.
pub open spec fn tokens_in_order(tokens: Seq<Token>, len: int) -> bool {
    &&& forall|i: int| 0 <= i < tokens.len() ==> (#[trigger] tokens[i]).start < tokens[i].end <= len
    &&& forall|i: int, j: int|
        0 <= i < j < tokens.len() ==> (#[trigger] tokens[i]).end <= (#[trigger] tokens[j]).start
}

/// Reads the tokens of `source`, and interns its identifiers in the order
/// in which they stand.
pub fn lex(source: &Source, interner: &mut Interner) -> (r: Result<Vec<Token>, ParseError>)
    requires
        source.wf(),
        old(interner).wf(),
    ensures
        final(interner).wf(),
        match tokens_of(source.chars(), old(interner)@) {
            Ok((tokens, names)) => r matches Ok(v) && v@ == tokens && final(interner)@ == names
                && tokens_in_order(tokens, source.chars().len() as int),
            Err(f) => r matches Err(e) && e@ == f,
        },
{
    let n = source.len();
    let mut tokens: Vec<Token> = Vec::new();
    let mut pos: usize = 0;
    let mut after_operand = false;
    assert(Seq::<Token>::empty() + Seq::<Token>::empty() =~= Seq::<Token>::empty());
    loop
        invariant
            source.wf(),
            interner.wf(),
            n == source.chars().len(),
            pos <= n,
            tokens_in_order(tokens@, n as int),
            forall|i: int| 0 <= i < tokens@.len() ==> (#[trigger] tokens@[i]).end <= pos,
            tokens_of(source.chars(), old(interner)@) == after_tokens(
                tokens@,
                tokens_from(source.chars(), pos as int, interner@, after_operand),
            ),
        decreases n - pos,
    {
        let start = source.skip(pos);
        if start >= n {
            assert(tokens@ + Seq::<Token>::empty() =~= tokens@);
            return Ok(tokens);
        }
        let ghost names = interner@;
        let ghost before = tokens@;
        let token = match source.token(start, interner, after_operand) {
            Ok(token) => token,
            Err(e) => {
                return Err(e);
            },
        };
        proof {
            let rest = tokens_from(
                source.chars(),
                token.end as int,
                interner@,
                ends_operand(token.kind),
            );
            match rest {
                Ok((more, last)) => {
                    assert(before + (seq![token] + more) =~= before.push(token) + more);
                },
                Err(_) => {},
            }
        }
        tokens.push(token);
        pos = token.end;
        after_operand = matches!(
            token.kind,
            TokenKind::Num(_) | TokenKind::Ident { .. } | TokenKind::True | TokenKind::False
                | TokenKind::RParen
        );
    }
}

} // verus!
