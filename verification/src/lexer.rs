//! The lexer: turns source bytes into tokens.

use vstd::prelude::*;
use vstd::slice::slice_to_vec;
use vstd::string::StringSliceAdditionalSpecFns;
use crate::error::Error;
use crate::string_spliter::split_string;
use crate::token::{Span, Token, TokenKind};

verus! {

/// Relies on `String::from_utf8`: the string holding exactly the given
/// bytes when they are valid UTF-8, or the empty string when they are
/// not.
#[verifier::external_body]
fn string_from_utf8_or_empty(v: Vec<u8>) -> (r: String)
    ensures
        vstd::utf8::valid_utf8(v@) ==> vstd::utf8::encode_utf8(r@) == v@,
        !vstd::utf8::valid_utf8(v@) ==> r@ == Seq::<char>::empty(),
{
    match String::from_utf8(v) {
        Ok(s) => s,
        Err(_) => String::new(),
    }
}

/// Byte-wise equality of two strings.
fn str_eq_bytes(a: &str, b: &str) -> (r: bool)
    ensures
        r == (a.spec_bytes() == b.spec_bytes()),
{
    let x = a.as_bytes();
    let y = b.as_bytes();
    if x.len() != y.len() {
        proof {
            assert(a.spec_bytes() != b.spec_bytes());
        }
        return false;
    }
    let mut i: usize = 0;
    while i < x.len()
        invariant
            i <= x.len(),
            x@ == a.spec_bytes(),
            y@ == b.spec_bytes(),
            x@.len() == y@.len(),
            forall|j: int| 0 <= j < i ==> x@[j] == y@[j],
        decreases x.len() - i,
    {
        if x[i] != y[i] {
            proof {
                assert(a.spec_bytes()[i as int] != b.spec_bytes()[i as int]);
            }
            return false;
        }
        i = i + 1;
    }
    proof {
        assert(a.spec_bytes() =~= b.spec_bytes());
    }
    true
}

/// The next index, capped instead of wrapping at the type's end.
fn succ(x: usize) -> (r: usize)
    ensures
        x < usize::MAX ==> r == x + 1,
        x == usize::MAX ==> r == x,
{
    if x < usize::MAX {
        x + 1
    } else {
        x
    }
}

/// Whether a byte opens whitespace or a comment.
pub open spec fn is_space_byte(b: u8) -> bool {
    b == 32 || b == 9 || b == 13 || b == 10 || b == 35
}

/// An ASCII decimal digit.
pub open spec fn spec_is_digit(b: u8) -> bool {
    48 <= b <= 57
}

/// An ASCII letter or underscore.
pub open spec fn spec_is_alpha(b: u8) -> bool {
    (65 <= b <= 90) || (97 <= b <= 122) || b == 95
}

/// The digit-set test for a number literal: mode 1 is hexadecimal, mode
/// 2 binary, anything else decimal; underscores pass everywhere.
pub open spec fn accept_byte(mode: u8, b: u8) -> bool {
    if mode == 1 {
        spec_is_digit(b) || b == 120 || (65 <= b <= 70) || (97 <= b <= 102) || b == 95
    } else if mode == 2 {
        b == 48 || b == 49 || b == 98 || b == 95
    } else {
        spec_is_digit(b) || b == 95
    }
}

fn is_digit(b: u8) -> (r: bool)
    ensures
        r == spec_is_digit(b),
{
    48 <= b && b <= 57
}

fn is_alpha(b: u8) -> (r: bool)
    ensures
        r == spec_is_alpha(b),
{
    (65 <= b && b <= 90) || (97 <= b && b <= 122) || b == 95
}

fn is_alnum(b: u8) -> (r: bool)
    ensures
        r == (spec_is_alpha(b) || spec_is_digit(b)),
{
    is_alpha(b) || is_digit(b)
}

/// Whether the byte after the current one is the given byte.
pub open spec fn peek_is(l: Lexer, b: u8) -> bool {
    l.read_position < l.input@.len() && l.input@[l.read_position as int] == b
}

/// The keyword table: which kind an identifier's text names.
pub open spec fn keyword_kind(s: Seq<u8>) -> TokenKind {
    if s == "int".spec_bytes() {
        TokenKind::IntTy
    } else if s == "float".spec_bytes() {
        TokenKind::FloatTy
    } else if s == "str".spec_bytes() {
        TokenKind::StringTy
    } else if s == "if".spec_bytes() {
        TokenKind::IfKw
    } else if s == "fun".spec_bytes() {
        TokenKind::Fun
    } else if s == "bool".spec_bytes() {
        TokenKind::BoolTy
    } else if s == "enum".spec_bytes() {
        TokenKind::Enum
    } else if s == "end".spec_bytes() {
        TokenKind::End
    } else if s == "do".spec_bytes() {
        TokenKind::Do
    } else if s == "true".spec_bytes() {
        TokenKind::Bool(true)
    } else if s == "false".spec_bytes() {
        TokenKind::Bool(false)
    } else {
        TokenKind::Identifier
    }
}

/// The lexer's cursor over the input bytes: `position` is where the
/// current byte `ch` sits, `read_position` one past it. Both stall once
/// the input is exhausted, with `ch` at NUL.
pub struct Lexer {
    pub input: Vec<u8>,
    pub position: usize,
    pub errors: Vec<Error>,
    pub ch: u8,
    pub file_name: String,
    pub read_position: usize,
    pub source: String,
}

impl Lexer {
    /// The cursor's well-formedness: a live current byte is the input
    /// byte under `position`, with `read_position` one past it, and
    /// `read_position` never runs more than one past the input.
    pub open spec fn wf(self) -> bool {
        &&& self.input@.len() < usize::MAX
        &&& self.position <= self.read_position
        &&& self.read_position <= self.input@.len() + 1
        &&& (self.ch != 0 ==> self.position < self.input@.len() && self.ch == self.input@[
            self.position as int
        ] && self.read_position == self.position + 1)
    }

    /// A fresh lexer over the source text, with the first byte loaded:
    /// the cursor sits at position zero, reading one byte ahead, and the
    /// current byte is the input's first (NUL when the input is empty).
    /// The input must leave room for a cursor one past its end.
    pub fn new(input: &str, file_name: &str) -> (r: Self)
        requires
            input.spec_bytes().len() < usize::MAX,
        ensures
            r.wf(),
            r.input@ == input.spec_bytes(),
            r.errors@ == Seq::<Error>::empty(),
            r.position == 0,
            r.read_position == 1,
            r.ch == (if input.spec_bytes().len() > 0 {
                input.spec_bytes()[0]
            } else {
                0u8
            }),
    {
        let mut lexer = Lexer {
            input: slice_to_vec(input.as_bytes()),
            position: 0,
            file_name: file_name.to_owned(),
            ch: 0,
            errors: Vec::new(),
            read_position: 0,
            source: input.to_owned(),
        };
        lexer.read();
        lexer
    }

    /// Advances the cursor one byte: loads the byte under
    /// `read_position` (NUL past the end) and steps forward, stalling
    /// once one past the end.
    fn read(&mut self)
        requires
            old(self).wf(),
        ensures
            final(self).wf(),
            final(self).input == old(self).input,
            final(self).errors == old(self).errors,
            final(self).file_name == old(self).file_name,
            final(self).source == old(self).source,
            final(self).position == old(self).read_position,
            final(self).ch == (if old(self).read_position < old(self).input@.len() {
                old(self).input@[old(self).read_position as int]
            } else {
                0u8
            }),
            old(self).read_position <= old(self).input@.len() ==> final(self).read_position == old(
                self,
            ).read_position + 1,
            old(self).read_position > old(self).input@.len() ==> final(self).read_position == old(
                self,
            ).read_position,
    {
        if self.read_position >= self.input.len() {
            self.ch = 0;
        } else {
            self.ch = self.input[self.read_position];
        }
        self.position = self.read_position;
        if self.read_position <= self.input.len() {
            self.read_position = self.read_position + 1;
        }
    }

    /// Skips whitespace, line comments (`#` to end of line) and block
    /// comments (`#*` to `*#`), leaving the cursor on a byte that opens
    /// none of them.
    fn whitespace(&mut self)
        requires
            old(self).wf(),
        ensures
            final(self).wf(),
            final(self).input == old(self).input,
            final(self).errors == old(self).errors,
            final(self).file_name == old(self).file_name,
            final(self).source == old(self).source,
            final(self).read_position >= old(self).read_position,
            final(self).position >= old(self).position,
            !is_space_byte(final(self).ch),
            !is_space_byte(old(self).ch) ==> *final(self) == *old(self),
    {
        loop
            invariant
                self.wf(),
                self.input == old(self).input,
                self.errors == old(self).errors,
                self.file_name == old(self).file_name,
                self.source == old(self).source,
                self.read_position >= old(self).read_position,
                self.position >= old(self).position,
                *self == *old(self) || is_space_byte(old(self).ch),
            ensures
                self.wf(),
                self.input == old(self).input,
                self.errors == old(self).errors,
                self.file_name == old(self).file_name,
                self.source == old(self).source,
                self.read_position >= old(self).read_position,
                self.position >= old(self).position,
                !is_space_byte(self.ch),
                !is_space_byte(old(self).ch) ==> *self == *old(self),
            decreases self.input@.len() + 1 - self.read_position,
        {
            if self.ch == 32 || self.ch == 9 || self.ch == 13 || self.ch == 10 {
                self.read();
            } else if self.ch == 35 {
                if self.next_match(42) {
                    // Block comment: read to the closing marker or the
                    // end of the input. The marker's second byte is left
                    // for this loop to look at again.
                    self.read();
                    let ghost anchor = self.read_position;
                    let ghost panchor = self.position;
                    loop
                        invariant
                            self.wf(),
                            self.input == old(self).input,
                            self.errors == old(self).errors,
                            self.file_name == old(self).file_name,
                            self.source == old(self).source,
                            self.read_position >= anchor,
                            self.position >= panchor,
                        ensures
                            self.wf(),
                            self.input == old(self).input,
                            self.errors == old(self).errors,
                            self.file_name == old(self).file_name,
                            self.source == old(self).source,
                            self.read_position >= anchor,
                            self.position >= panchor,
                        decreases self.input@.len() + 1 - self.read_position,
                    {
                        if self.ch == 0 {
                            break ;
                        }
                        let next_is_hash = match self.peek_next() {
                            Some(b) => b == 35,
                            None => false,
                        };
                        if self.ch == 42 && next_is_hash {
                            self.read();
                            break ;
                        }
                        self.read();
                    }
                } else {
                    // Line comment: read to the end of the line or input.
                    self.read();
                    let ghost anchor = self.read_position;
                    let ghost panchor = self.position;
                    loop
                        invariant
                            self.wf(),
                            self.input == old(self).input,
                            self.errors == old(self).errors,
                            self.file_name == old(self).file_name,
                            self.source == old(self).source,
                            self.read_position >= anchor,
                            self.position >= panchor,
                        ensures
                            self.wf(),
                            self.input == old(self).input,
                            self.errors == old(self).errors,
                            self.file_name == old(self).file_name,
                            self.source == old(self).source,
                            self.read_position >= anchor,
                            self.position >= panchor,
                        decreases self.input@.len() + 1 - self.read_position,
                    {
                        if self.ch == 10 || self.ch == 0 {
                            break ;
                        }
                        self.read();
                    }
                }
            } else {
                break ;
            }
        }
    }

    /// The byte under `read_position`, if any.
    pub fn peek_next(&self) -> (r: Option<u8>)
        ensures
            r == (if self.read_position < self.input@.len() {
                Some(self.input@[self.read_position as int])
            } else {
                None::<u8>
            }),
    {
        if self.read_position < self.input.len() {
            Some(self.input[self.read_position])
        } else {
            None
        }
    }

    /// Consumes the next byte exactly when it equals the expected one.
    fn next_match(&mut self, expected: u8) -> (r: bool)
        requires
            old(self).wf(),
        ensures
            final(self).wf(),
            final(self).input == old(self).input,
            final(self).errors == old(self).errors,
            final(self).file_name == old(self).file_name,
            final(self).source == old(self).source,
            final(self).read_position >= old(self).read_position,
            r == (old(self).read_position < old(self).input@.len() && old(self).input@[
                old(self).read_position as int
            ] == expected),
            !r ==> *final(self) == *old(self),
            r ==> final(self).read_position > old(self).read_position,
    {
        let matched = match self.peek_next() {
            Some(b) => b == expected,
            None => false,
        };
        if matched {
            self.read();
            return true;
        }
        false
    }

    /// The keyword kind for an identifier's text, or `Identifier`.
    fn keyword(&self, literal: &str) -> (r: TokenKind)
        ensures
            r == keyword_kind(literal.spec_bytes()),
    {
        if str_eq_bytes(literal, "int") {
            TokenKind::IntTy
        } else if str_eq_bytes(literal, "float") {
            TokenKind::FloatTy
        } else if str_eq_bytes(literal, "str") {
            TokenKind::StringTy
        } else if str_eq_bytes(literal, "if") {
            TokenKind::IfKw
        } else if str_eq_bytes(literal, "fun") {
            TokenKind::Fun
        } else if str_eq_bytes(literal, "bool") {
            TokenKind::BoolTy
        } else if str_eq_bytes(literal, "enum") {
            TokenKind::Enum
        } else if str_eq_bytes(literal, "end") {
            TokenKind::End
        } else if str_eq_bytes(literal, "do") {
            TokenKind::Do
        } else if str_eq_bytes(literal, "true") {
            TokenKind::Bool(true)
        } else if str_eq_bytes(literal, "false") {
            TokenKind::Bool(false)
        } else {
            TokenKind::Identifier
        }
    }

    /// Produces the next token. The cursor only moves forward, and it
    /// stays put only when the token is the end-of-input token; an
    /// exhausted input is a fixed point that yields the end-of-input
    /// token on this and every later call, without a diagnostic. The
    /// only diagnostic a call ever appends is one "Unterminated String"
    /// report. When the current byte already starts a token, its kind
    /// is fixed below: one-byte operators map to their kinds, an equals
    /// sign directly after `>`, `<`, `=` or `!` is merged into the
    /// two-byte operator, a letter opens a word whose returned text
    /// picks the kind through the keyword table, and a digit opens a
    /// number token.
    pub fn next(&mut self) -> (r: Token)
        requires
            old(self).wf(),
        ensures
            final(self).wf(),
            final(self).input == old(self).input,
            final(self).file_name == old(self).file_name,
            final(self).source == old(self).source,
            final(self).read_position >= old(self).read_position,
            !(r.kind is Eof) ==> final(self).read_position > old(self).read_position,
            old(self).position >= old(self).input@.len() ==> r.kind is Eof
                && final(self).position >= final(self).input@.len()
                && final(self).errors == old(self).errors,
            final(self).errors@ == old(self).errors@
                || (final(self).errors@ == old(self).errors@.push(final(self).errors@.last())
                && final(self).errors@.last().message@ == "Unterminated String"@),
            old(self).ch == 43 ==> r.kind is Plus,
            old(self).ch == 45 ==> r.kind is Minus,
            old(self).ch == 42 ==> r.kind is Asterisk,
            old(self).ch == 47 ==> r.kind is Slash,
            old(self).ch == 37 ==> r.kind is Mod,
            old(self).ch == 124 ==> r.kind is Or,
            old(self).ch == 40 ==> r.kind is OpeningParen,
            old(self).ch == 41 ==> r.kind is ClosingParen,
            old(self).ch == 123 ==> r.kind is OpeningBracket,
            old(self).ch == 125 ==> r.kind is ClosingBracket,
            old(self).ch == 58 ==> r.kind is Colon,
            old(self).ch == 44 ==> r.kind is Comma,
            old(self).ch == 59 ==> r.kind is SemiColon,
            old(self).ch == 38 ==> r.kind is And,
            old(self).ch == 0 ==> r.kind is Eof && r.literal@ == "end of file"@,
            old(self).ch == 62 ==> r.kind == (if peek_is(*old(self), 61) {
                TokenKind::GreaterThanEqual
            } else {
                TokenKind::GreaterThan
            }),
            old(self).ch == 60 ==> r.kind == (if peek_is(*old(self), 61) {
                TokenKind::LessThanEqual
            } else {
                TokenKind::LessThan
            }),
            old(self).ch == 61 ==> r.kind == (if peek_is(*old(self), 61) {
                TokenKind::EqualTo
            } else {
                TokenKind::Equal
            }),
            old(self).ch == 33 ==> r.kind == (if peek_is(*old(self), 61) {
                TokenKind::NotEqual
            } else {
                TokenKind::Not
            }),
            old(self).ch == 39 ==> r.kind is String,
            spec_is_alpha(old(self).ch) ==> r.kind == keyword_kind(
                vstd::utf8::encode_utf8(r.literal@),
            ),
            spec_is_digit(old(self).ch) ==> r.kind is Int || r.kind is Float,
            old(self).ch == 34 ==> r.kind is String
                || (r.kind is Illegal && final(self).errors@.len() > old(self).errors@.len()),
            (old(self).ch == 39 && forall|k: int|
                old(self).read_position <= k < old(self).input@.len()
                    ==> old(self).input@[k] != 39) ==> final(self).errors@.len() == old(
                self,
            ).errors@.len() + 1,
            (old(self).ch == 34 && forall|k: int|
                old(self).read_position <= k < old(self).input@.len()
                    ==> old(self).input@[k] != 34) ==> final(self).errors@.len() == old(
                self,
            ).errors@.len() + 1,
    {
        self.whitespace();
        let mut single: Vec<u8> = Vec::new();
        single.push(self.ch);
        let mut token = Token::new(
            TokenKind::Illegal,
            string_from_utf8_or_empty(single),
            Span::new(self.position, succ(self.position)),
        );
        if self.ch == 43 {
            token.kind = TokenKind::Plus;
        } else if self.ch == 45 {
            token.kind = TokenKind::Minus;
        } else if self.ch == 42 {
            token.kind = TokenKind::Asterisk;
        } else if self.ch == 47 {
            token.kind = TokenKind::Slash;
        } else if self.ch == 37 {
            token.kind = TokenKind::Mod;
        } else if self.ch == 124 {
            token.kind = TokenKind::Or;
        } else if self.ch == 62 {
            let start = token.span.start;
            if self.next_match(61) {
                token.kind = TokenKind::GreaterThanEqual;
                token.literal = ">=".to_owned();
                token.span = Span::new(start, succ(self.position));
            } else {
                token.kind = TokenKind::GreaterThan;
            }
        } else if self.ch == 60 {
            let start = token.span.start;
            if self.next_match(61) {
                token.kind = TokenKind::LessThanEqual;
                token.literal = "<=".to_owned();
                token.span = Span::new(start, succ(self.position));
            } else {
                token.kind = TokenKind::LessThan;
            }
        } else if self.ch == 40 {
            token.kind = TokenKind::OpeningParen;
        } else if self.ch == 41 {
            token.kind = TokenKind::ClosingParen;
        } else if self.ch == 123 {
            token.kind = TokenKind::OpeningBracket;
        } else if self.ch == 58 {
            token.kind = TokenKind::Colon;
        } else if self.ch == 125 {
            token.kind = TokenKind::ClosingBracket;
        } else if self.ch == 44 {
            token.kind = TokenKind::Comma;
        } else if self.ch == 61 {
            let start = token.span.start;
            if self.next_match(61) {
                token.kind = TokenKind::EqualTo;
                token.literal = "==".to_owned();
                token.span = Span::new(start, succ(self.position));
            } else {
                token.kind = TokenKind::Equal;
            }
        } else if self.ch == 33 {
            let start = token.span.start;
            if self.next_match(61) {
                token.kind = TokenKind::NotEqual;
                token.literal = "!=".to_owned();
                token.span = Span::new(start, succ(self.position));
            } else {
                token.kind = TokenKind::Not;
            }
        } else if self.ch == 0 {
            token.kind = TokenKind::Eof;
            token.literal = "end of file".to_owned();
        } else if self.ch == 59 {
            token.kind = TokenKind::SemiColon;
        } else if self.ch == 38 {
            token.kind = TokenKind::And;
        } else if self.ch == 39 {
            // Single-quoted string literal.
            let start = self.position;
            self.read();
            let mut buf: Vec<u8> = Vec::new();
            loop
                invariant_except_break
                    self.errors@ == old(self).errors@,
                invariant
                    self.wf(),
                    self.input == old(self).input,
                    self.file_name == old(self).file_name,
                    self.source == old(self).source,
                    self.read_position > old(self).read_position,
                    self.position >= old(self).read_position,
                ensures
                    self.wf(),
                    self.input == old(self).input,
                    self.file_name == old(self).file_name,
                    self.source == old(self).source,
                    self.read_position > old(self).read_position,
                    self.errors@ == old(self).errors@
                        || (self.errors@ == old(self).errors@.push(self.errors@.last())
                        && self.errors@.last().message@ == "Unterminated String"@),
                    (forall|k: int|
                        old(self).read_position <= k < old(self).input@.len() ==> old(
                            self,
                        ).input@[k] != 39) ==> self.errors@.len() == old(self).errors@.len() + 1,
                decreases self.input@.len() + 1 - self.read_position,
            {
                if self.ch == 39 {
                    break ;
                }
                if self.ch == 92 {
                    self.read();
                    if self.ch == 39 {
                        buf.push(39);
                        self.read();
                        continue ;
                    }
                }
                if self.ch == 0 {
                    let shown = string_from_utf8_or_empty(buf);
                    let help = "Try adding \"'\" here like this: '".to_owned().concat(
                        shown.as_str(),
                    ).concat("'");
                    let err = Error {
                        source: self.source.clone(),
                        file_name: self.file_name.clone(),
                        message: "Unterminated String".to_owned(),
                        span: Span::new(self.position, succ(self.position)),
                        help,
                    };
                    self.errors.push(err);
                    buf = Vec::new();
                    break ;
                }
                buf.push(self.ch);
                self.read();
            }
            token.span = Span::new(start, succ(self.position));
            token.kind = TokenKind::String;
            token.literal = string_from_utf8_or_empty(split_string(buf));
        } else if self.ch == 34 {
            // Double-quoted string literal.
            let start = self.position;
            self.read();
            let mut buf: Vec<u8> = Vec::new();
            loop
                invariant
                    self.wf(),
                    self.input == old(self).input,
                    self.file_name == old(self).file_name,
                    self.source == old(self).source,
                    self.read_position > old(self).read_position,
                    self.position >= old(self).read_position,
                    self.errors@ == old(self).errors@,
                    old(self).position < old(self).input@.len(),
                    old(self).ch == 34 || is_space_byte(old(self).ch),
                    token.kind is Illegal,
                ensures
                    self.wf(),
                    self.input == old(self).input,
                    self.file_name == old(self).file_name,
                    self.source == old(self).source,
                    self.read_position > old(self).read_position,
                    self.errors@ == old(self).errors@,
                    (forall|k: int|
                        old(self).read_position <= k < old(self).input@.len() ==> old(
                            self,
                        ).input@[k] != 34) ==> false,
                decreases self.input@.len() + 1 - self.read_position,
            {
                if self.ch == 34 {
                    break ;
                }
                if self.ch == 92 {
                    let next_is_quote = match self.peek_next() {
                        Some(b) => b == 34,
                        None => false,
                    };
                    if next_is_quote {
                        self.read();
                        buf.push(34);
                        self.read();
                        continue ;
                    }
                }
                if self.ch == 0 {
                    let shown = string_from_utf8_or_empty(buf);
                    let help = "Try adding '\"' here like this: \"".to_owned().concat(
                        shown.as_str(),
                    ).concat("\"");
                    let err = Error {
                        source: self.source.clone(),
                        file_name: self.file_name.clone(),
                        message: "Unterminated String".to_owned(),
                        span: Span::new(self.position, succ(self.position)),
                        help,
                    };
                    self.errors.push(err);
                    return token;
                }
                buf.push(self.ch);
                self.read();
            }
            token.span = Span::new(start, succ(self.position));
            token.kind = TokenKind::String;
            token.literal = string_from_utf8_or_empty(split_string(buf));
        } else {
            let peek_digit = match self.peek_next() {
                Some(b) => is_digit(b),
                None => false,
            };
            if is_digit(self.ch) || (self.ch == 46 && peek_digit) {
                // A number: an integer, hexadecimal or binary literal,
                // or a float once a radix point appears.
                let mut buf: Vec<u8> = Vec::new();
                let mut is_float = false;
                let start = self.position;
                let peek = match self.peek_next() {
                    Some(b) => b,
                    None => 0,
                };
                // 0 selects the decimal digit set, 1 hexadecimal, 2
                // binary.
                let mut mode: u8 = 0;
                if self.ch == 48 && peek == 120 {
                    mode = 1;
                }
                if self.ch == 48 && peek == 98 {
                    mode = 2;
                }
                let ghost snap = *self;
                loop
                    invariant
                        self.wf(),
                        self.input == old(self).input,
                        self.errors == old(self).errors,
                        self.file_name == old(self).file_name,
                        self.source == old(self).source,
                        self.read_position >= old(self).read_position,
                        self.read_position > old(self).read_position || *self == snap,
                        snap.read_position >= old(self).read_position,
                    ensures
                        self.wf(),
                        self.input == old(self).input,
                        self.errors == old(self).errors,
                        self.file_name == old(self).file_name,
                        self.source == old(self).source,
                        self.read_position >= old(self).read_position,
                        self.read_position > old(self).read_position || *self == snap,
                        !accept_byte(mode, self.ch),
                    decreases self.input@.len() + 1 - self.read_position,
                {
                    let accepted = if mode == 1 {
                        is_digit(self.ch) || self.ch == 120 || (65 <= self.ch && self.ch <= 70)
                            || (97 <= self.ch && self.ch <= 102) || self.ch == 95
                    } else if mode == 2 {
                        self.ch == 48 || self.ch == 49 || self.ch == 98 || self.ch == 95
                    } else {
                        is_digit(self.ch) || self.ch == 95
                    };
                    if !accepted {
                        break ;
                    }
                    if self.ch != 95 {
                        buf.push(self.ch);
                    }
                    self.read();
                }
                let peek_digit2 = match self.peek_next() {
                    Some(b) => is_digit(b),
                    None => false,
                };
                if self.ch == 46 && peek_digit2 {
                    buf.push(self.ch);
                    self.read();
                    loop
                        invariant
                            self.wf(),
                            self.input == old(self).input,
                            self.errors == old(self).errors,
                            self.file_name == old(self).file_name,
                            self.source == old(self).source,
                            self.read_position > old(self).read_position,
                        ensures
                            self.wf(),
                            self.input == old(self).input,
                            self.errors == old(self).errors,
                            self.file_name == old(self).file_name,
                            self.source == old(self).source,
                            self.read_position > old(self).read_position,
                        decreases self.input@.len() + 1 - self.read_position,
                    {
                        if !is_digit(self.ch) {
                            break ;
                        }
                        buf.push(self.ch);
                        self.read();
                    }
                    is_float = true;
                } else if self.ch == 46 {
                    buf.push(self.ch);
                    self.read();
                    is_float = true;
                }
                token.kind = if is_float {
                    TokenKind::Float
                } else {
                    TokenKind::Int
                };
                token.literal = string_from_utf8_or_empty(buf);
                token.span = Span::new(start, self.position);
                return token;
            }
            if is_alpha(self.ch) {
                // An identifier or keyword.
                let mut buf: Vec<u8> = Vec::new();
                let start = self.position;
                let ghost snap = *self;
                loop
                    invariant
                        self.wf(),
                        self.input == old(self).input,
                        self.errors == old(self).errors,
                        self.file_name == old(self).file_name,
                        self.source == old(self).source,
                        self.read_position >= old(self).read_position,
                        self.read_position > old(self).read_position || *self == snap,
                        spec_is_alpha(snap.ch),
                    ensures
                        self.wf(),
                        self.input == old(self).input,
                        self.errors == old(self).errors,
                        self.file_name == old(self).file_name,
                        self.source == old(self).source,
                        self.read_position >= old(self).read_position,
                        self.read_position > old(self).read_position || *self == snap,
                        !(spec_is_alpha(self.ch) || spec_is_digit(self.ch)),
                    decreases self.input@.len() + 1 - self.read_position,
                {
                    if !is_alnum(self.ch) {
                        break ;
                    }
                    buf.push(self.ch);
                    self.read();
                }
                proof {
                    // A first alphabetic byte is always consumed.
                    assert(self.read_position > old(self).read_position);
                }
                let text = string_from_utf8_or_empty(buf);
                token.kind = self.keyword(text.as_str());
                token.literal = text;
                token.span = Span::new(start, self.position);
                return token;
            }
        }
        self.read();
        token
    }
}

} // verus!
