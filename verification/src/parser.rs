//! The parser: a Pratt-style recursive descent over the token stream.

use vstd::prelude::*;
use vstd::string::StringSliceAdditionalSpecFns;
use crate::ast::{Expr, ExprKind, Param, Type};
use crate::error::Error;
use crate::lexer::Lexer;
use crate::token::{Span, Token, TokenKind};

verus! {

/// The binding power of an operator token; anything else stops
/// expression parsing.
pub open spec fn spec_lbp(op: TokenKind) -> int {
    match op {
        TokenKind::Mod => 25,
        TokenKind::Plus => 10,
        TokenKind::Minus => 10,
        TokenKind::Asterisk => 15,
        TokenKind::Slash => 15,
        TokenKind::GreaterThan => 5,
        TokenKind::LessThan => 5,
        TokenKind::GreaterThanEqual => 5,
        TokenKind::LessThanEqual => 5,
        TokenKind::NotEqual => 3,
        TokenKind::EqualTo => 3,
        TokenKind::And => 2,
        TokenKind::Or => 1,
        TokenKind::Colon => 1,
        _ => -1,
    }
}

/// Whether every byte is a decimal digit.
pub open spec fn all_dec(s: Seq<u8>) -> bool {
    forall|k: int| 0 <= k < s.len() ==> 48 <= #[trigger] s[k] <= 57
}

/// The number a run of decimal digits denotes.
pub open spec fn dec_val(s: Seq<u8>) -> int
    decreases s.len(),
{
    if s.len() == 0 {
        0
    } else {
        dec_val(s.drop_last()) * 10 + (s.last() - 48)
    }
}

/// Whether a byte is a hexadecimal digit.
pub open spec fn spec_is_hex(b: u8) -> bool {
    48 <= b <= 57 || 65 <= b <= 70 || 97 <= b <= 102
}

/// Whether every byte is a hexadecimal digit.
pub open spec fn all_hex(s: Seq<u8>) -> bool {
    forall|k: int| 0 <= k < s.len() ==> spec_is_hex(#[trigger] s[k])
}

/// A hexadecimal digit's value.
pub open spec fn spec_hex_digit(b: u8) -> int {
    if 48 <= b <= 57 {
        b - 48
    } else if 65 <= b <= 70 {
        b - 55
    } else if 97 <= b <= 102 {
        b - 87
    } else {
        0
    }
}

/// The number a run of hexadecimal digits denotes.
pub open spec fn hex_val(s: Seq<u8>) -> int
    decreases s.len(),
{
    if s.len() == 0 {
        0
    } else {
        hex_val(s.drop_last()) * 16 + spec_hex_digit(s.last())
    }
}

/// Whether a byte run contains the hexadecimal prefix marker.
pub open spec fn has_x(s: Seq<u8>) -> bool {
    exists|k: int| 0 <= k < s.len() && #[trigger] s[k] == 120
}

/// Digit runs denote non-negative numbers.
proof fn lemma_dec_val_nonneg(s: Seq<u8>)
    requires
        all_dec(s),
    ensures
        dec_val(s) >= 0,
    decreases s.len(),
{
    if s.len() > 0 {
        assert(all_dec(s.drop_last())) by {
            assert(forall|k: int|
                0 <= k < s.drop_last().len() ==> #[trigger] s.drop_last()[k] == s[k]);
        }
        lemma_dec_val_nonneg(s.drop_last());
        assert(dec_val(s.drop_last()) * 10 >= 0) by (nonlinear_arith)
            requires
                dec_val(s.drop_last()) >= 0,
        ;
    }
}

proof fn lemma_hex_val_nonneg(s: Seq<u8>)
    requires
        all_hex(s),
    ensures
        hex_val(s) >= 0,
    decreases s.len(),
{
    if s.len() > 0 {
        assert(all_hex(s.drop_last())) by {
            assert(forall|k: int|
                0 <= k < s.drop_last().len() ==> #[trigger] s.drop_last()[k] == s[k]);
        }
        lemma_hex_val_nonneg(s.drop_last());
        assert(hex_val(s.drop_last()) * 16 >= 0) by (nonlinear_arith)
            requires
                hex_val(s.drop_last()) >= 0,
        ;
    }
}

/// A digit run's value never falls below a prefix's.
proof fn lemma_dec_val_mono(s: Seq<u8>, j: int)
    requires
        all_dec(s),
        0 <= j <= s.len(),
    ensures
        dec_val(s.take(j)) <= dec_val(s),
    decreases s.len() - j,
{
    if j == s.len() {
        assert(s.take(j) =~= s);
    } else {
        assert(s.take(j + 1).drop_last() =~= s.take(j));
        assert(s.take(j + 1).last() == s[j]);
        assert(all_dec(s.take(j))) by {
            assert(forall|k: int| 0 <= k < j ==> #[trigger] s.take(j)[k] == s[k]);
        }
        lemma_dec_val_nonneg(s.take(j));
        assert(dec_val(s.take(j)) * 10 >= dec_val(s.take(j))) by (nonlinear_arith)
            requires
                dec_val(s.take(j)) >= 0,
        ;
        lemma_dec_val_mono(s, j + 1);
    }
}

proof fn lemma_hex_val_mono(s: Seq<u8>, j: int)
    requires
        all_hex(s),
        0 <= j <= s.len(),
    ensures
        hex_val(s.take(j)) <= hex_val(s),
    decreases s.len() - j,
{
    if j == s.len() {
        assert(s.take(j) =~= s);
    } else {
        assert(s.take(j + 1).drop_last() =~= s.take(j));
        assert(s.take(j + 1).last() == s[j]);
        assert(all_hex(s.take(j))) by {
            assert(forall|k: int| 0 <= k < j ==> #[trigger] s.take(j)[k] == s[k]);
        }
        lemma_hex_val_nonneg(s.take(j));
        assert(hex_val(s.take(j)) * 16 >= hex_val(s.take(j))) by (nonlinear_arith)
            requires
                hex_val(s.take(j)) >= 0,
        ;
        lemma_hex_val_mono(s, j + 1);
    }
}

/// A decimal digit's value, or 255.
fn digit_value(b: u8) -> (r: u8)
    ensures
        48 <= b <= 57 ==> r == b - 48,
        !(48 <= b <= 57) ==> r == 255,
{
    if 48 <= b && b <= 57 {
        b - 48
    } else {
        255
    }
}

/// A hexadecimal digit's value, or 255.
fn hex_digit_value(b: u8) -> (r: u8)
    ensures
        48 <= b <= 57 ==> r == b - 48,
        65 <= b <= 70 ==> r == b - 55,
        97 <= b <= 102 ==> r == b - 87,
        !(48 <= b <= 57 || 65 <= b <= 70 || 97 <= b <= 102) ==> r == 255,
{
    if 48 <= b && b <= 57 {
        b - 48
    } else if 65 <= b && b <= 70 {
        b - 55
    } else if 97 <= b && b <= 102 {
        b - 87
    } else {
        255
    }
}

/// Parses a decimal integer literal: the denoted number when the text
/// is a nonempty digit run whose value fits a signed word; `None`
/// otherwise.
fn parse_i64_dec(s: &str) -> (r: Option<i64>)
    ensures
        r matches Some(n) ==> s.spec_bytes().len() > 0 && all_dec(s.spec_bytes()) && n == dec_val(
            s.spec_bytes(),
        ),
        r is None ==> s.spec_bytes().len() == 0 || !all_dec(s.spec_bytes()) || dec_val(
            s.spec_bytes(),
        ) > i64::MAX,
{
    let bytes = s.as_bytes();
    if bytes.len() == 0 {
        return None;
    }
    proof {
        assert(bytes@.take(0) =~= Seq::<u8>::empty());
    }
    let mut acc: u64 = 0;
    let mut i: usize = 0;
    while i < bytes.len()
        invariant
            i <= bytes@.len(),
            bytes@ == s.spec_bytes(),
            bytes@.len() > 0,
            acc <= 0x7fff_ffff_ffff_ffff,
            acc == dec_val(bytes@.take(i as int)),
            all_dec(bytes@.take(i as int)),
        decreases bytes@.len() - i,
    {
        let d = digit_value(bytes[i]);
        if d == 255 {
            proof {
                assert(!all_dec(bytes@));
            }
            return None;
        }
        proof {
            assert(bytes@.take(i + 1).drop_last() =~= bytes@.take(i as int));
            assert(bytes@.take(i + 1).last() == bytes@[i as int]);
            assert(all_dec(bytes@.take(i + 1))) by {
                assert(forall|k: int|
                    0 <= k < i ==> #[trigger] bytes@.take(i + 1)[k] == bytes@.take(i as int)[k]);
            }
        }
        if acc > (0x7fff_ffff_ffff_ffffu64 - d as u64) / 10 {
            proof {
                assert(acc * 10 + d > 0x7fff_ffff_ffff_ffff) by (nonlinear_arith)
                    requires
                        acc > (0x7fff_ffff_ffff_ffffu64 - d) / 10,
                        d <= 9,
                ;
                assert(dec_val(bytes@.take(i + 1)) > i64::MAX);
                if all_dec(bytes@) {
                    lemma_dec_val_mono(bytes@, i + 1);
                }
            }
            return None;
        }
        proof {
            assert(acc * 10 + d <= 0x7fff_ffff_ffff_ffff) by (nonlinear_arith)
                requires
                    acc <= (0x7fff_ffff_ffff_ffffu64 - d) / 10,
                    d <= 9,
            ;
        }
        acc = acc * 10 + d as u64;
        i = i + 1;
    }
    proof {
        assert(bytes@.take(i as int) =~= bytes@);
    }
    Some(acc as i64)
}

/// Parses a hexadecimal integer literal (the text after its prefix):
/// the denoted number when the text is a nonempty hexadecimal-digit
/// run whose value fits a signed word. The error codes: 0 for an empty
/// text, 1 for a stray byte, 2 for a value that does not fit.
fn parse_i64_hex(s: &[u8]) -> (r: Result<i64, u8>)
    ensures
        r matches Ok(n) ==> s@.len() > 0 && all_hex(s@) && n == hex_val(s@),
        r == Result::<i64, u8>::Err(0u8) ==> s@.len() == 0,
        r == Result::<i64, u8>::Err(1u8) ==> !all_hex(s@),
        r == Result::<i64, u8>::Err(2u8) ==> !all_hex(s@) || hex_val(s@) > i64::MAX,
        r is Ok || r == Result::<i64, u8>::Err(0u8) || r == Result::<i64, u8>::Err(1u8) || r
            == Result::<i64, u8>::Err(2u8),
{
    if s.len() == 0 {
        return Err(0);
    }
    proof {
        assert(s@.take(0) =~= Seq::<u8>::empty());
    }
    let mut acc: u64 = 0;
    let mut i: usize = 0;
    while i < s.len()
        invariant
            i <= s@.len(),
            s@.len() > 0,
            acc <= 0x7fff_ffff_ffff_ffff,
            acc == hex_val(s@.take(i as int)),
            all_hex(s@.take(i as int)),
        decreases s@.len() - i,
    {
        let d = hex_digit_value(s[i]);
        if d == 255 {
            proof {
                assert(!all_hex(s@));
            }
            return Err(1);
        }
        proof {
            assert(s@.take(i + 1).drop_last() =~= s@.take(i as int));
            assert(s@.take(i + 1).last() == s@[i as int]);
            assert(all_hex(s@.take(i + 1))) by {
                assert(forall|k: int|
                    0 <= k < i ==> #[trigger] s@.take(i + 1)[k] == s@.take(i as int)[k]);
            }
        }
        if acc > (0x7fff_ffff_ffff_ffffu64 - d as u64) / 16 {
            proof {
                assert(acc * 16 + d > 0x7fff_ffff_ffff_ffff) by (nonlinear_arith)
                    requires
                        acc > (0x7fff_ffff_ffff_ffffu64 - d) / 16,
                        d <= 15,
                ;
                assert(hex_val(s@.take(i + 1)) > i64::MAX);
                if all_hex(s@) {
                    lemma_hex_val_mono(s@, i + 1);
                }
            }
            return Err(2);
        }
        proof {
            assert(acc * 16 + d <= 0x7fff_ffff_ffff_ffff) by (nonlinear_arith)
                requires
                    acc <= (0x7fff_ffff_ffff_ffffu64 - d) / 16,
                    d <= 15,
            ;
        }
        acc = acc * 16 + d as u64;
        i = i + 1;
    }
    proof {
        assert(s@.take(i as int) =~= s@);
    }
    Ok(acc as i64)
}

/// Whether a byte sequence contains the hexadecimal prefix marker.
fn contains_x(s: &[u8]) -> (r: bool)
    ensures
        r == has_x(s@),
{
    let mut i: usize = 0;
    while i < s.len()
        invariant
            i <= s@.len(),
            forall|k: int| 0 <= k < i ==> #[trigger] s@[k] != 120,
        decreases s@.len() - i,
    {
        if s[i] == 120 {
            return true;
        }
        i = i + 1;
    }
    false
}

/// Whether a float literal's text is a plain decimal: only digits and at
/// most one radix point, with at least one digit. Exactly these texts
/// denote float values; a hexadecimal or binary prefix does not.
fn float_text_ok(s: &[u8]) -> (r: bool)
{
    let mut i: usize = 0;
    let mut dots: u32 = 0;
    let mut digits: u32 = 0;
    while i < s.len()
        invariant
            i <= s@.len(),
        decreases s@.len() - i,
    {
        let b = s[i];
        if b == 46 {
            if dots >= 1 {
                return false;
            }
            dots = dots + 1;
        } else if 48 <= b && b <= 57 {
            if digits < 0xffff_ffff {
                digits = digits + 1;
            }
        } else {
            return false;
        }
        i = i + 1;
    }
    digits > 0
}

/// The parser: owns the lexer, the current token, and the diagnostics
/// collected so far.
pub struct Parser {
    pub source: String,
    pub has_lexing_errors: bool,
    pub errors: Vec<Error>,
    pub lexer: Lexer,
    pub current: Token,
    pub filename: String,
    pub position: usize,
}

impl Parser {
    pub open spec fn wf(self) -> bool {
        self.lexer.wf()
    }

    /// The parser's progress measure: how much input is left, plus one
    /// while the current token is not yet the end-of-input token. Every
    /// token taken strictly shrinks it.
    pub open spec fn measure(self) -> int {
        2 * (self.lexer.input@.len() + 1 - self.lexer.read_position) + if self.current.kind
            is Eof {
            0int
        } else {
            1int
        }
    }

    /// A fresh parser over the source text, with the first token taken.
    pub fn new(input: &str, file_name: &str) -> (r: Self)
        requires
            input.spec_bytes().len() < usize::MAX,
        ensures
            r.wf(),
    {
        let mut p = Parser {
            lexer: Lexer::new(input, file_name),
            current: Token::new(TokenKind::Eof, "\u{0}".to_owned(), Span::new(0, 0)),
            source: input.to_owned(),
            filename: file_name.to_owned(),
            has_lexing_errors: false,
            errors: Vec::new(),
            position: 0,
        };
        p.next();
        p
    }

    /// Takes the next token, remembering where the one before it began.
    /// The parser's own diagnostics are untouched (the lexer may add to
    /// its own).
    fn next(&mut self)
        requires
            old(self).wf(),
        ensures
            final(self).wf(),
            final(self).lexer.input == old(self).lexer.input,
            final(self).source == old(self).source,
            final(self).filename == old(self).filename,
            final(self).errors@ == old(self).errors@,
            final(self).measure() <= old(self).measure(),
            !(old(self).current.kind is Eof) ==> final(self).measure() < old(self).measure(),
    {
        self.position = self.lexer.position;
        self.current = self.lexer.next();
        if self.lexer.errors.len() > 0 && !self.has_lexing_errors {
            self.has_lexing_errors = true;
        }
    }

    /// Takes the next token, recording a diagnostic when the current one
    /// is not of the expected kind.
    fn expect(&mut self, kind: TokenKind)
        requires
            old(self).wf(),
        ensures
            final(self).wf(),
            final(self).lexer.input == old(self).lexer.input,
            final(self).source == old(self).source,
            final(self).filename == old(self).filename,
            final(self).errors@.len() >= old(self).errors@.len(),
            final(self).measure() <= old(self).measure(),
            !(old(self).current.kind is Eof) ==> final(self).measure() < old(self).measure(),
    {
        if self.current.kind != kind {
            let msg = "Expected \"".to_owned().concat(kind.text().as_str()).concat(
                "\" found ",
            ).concat(self.current.literal.as_str());
            let err = Error {
                source: self.source.clone(),
                file_name: self.filename.clone(),
                message: msg,
                span: self.current.span,
                help: "".to_owned(),
            };
            self.errors.push(err);
        }
        self.current = self.lexer.next();
    }

    /// Parses the whole input: top-level declarations up to and
    /// including the end-of-input marker, which is always the nonempty
    /// result's last node.
    pub fn parse(&mut self) -> (r: Vec<Expr>)
        requires
            old(self).wf(),
        ensures
            final(self).wf(),
            r@.len() > 0,
            r@.last().inner is Eof,
    {
        let mut exprs: Vec<Expr> = Vec::new();
        loop
            invariant
                self.wf(),
            decreases self.measure(),
        {
            let expr = self.declaration();
            let is_eof = matches!(expr.inner, ExprKind::Eof);
            exprs.push(expr);
            if is_eof {
                return exprs;
            }
        }
    }

    /// Parses one top-level declaration: a block, a function, an
    /// enumeration, a conditional, or a bare expression statement.
    fn declaration(&mut self) -> (r: Expr)
        requires
            old(self).wf(),
        ensures
            final(self).wf(),
            final(self).lexer.input == old(self).lexer.input,
            final(self).source == old(self).source,
            final(self).filename == old(self).filename,
            final(self).errors@.len() >= old(self).errors@.len(),
            final(self).measure() <= old(self).measure(),
            !(old(self).current.kind is Eof) ==> final(self).measure() < old(self).measure(),
            !(r.inner is Eof) ==> final(self).measure() < old(self).measure(),
        decreases self.measure(), 4int,
    {
        if matches!(self.current.kind, TokenKind::Eof) {
            return Expr { inner: ExprKind::Eof, span: self.current.span };
        }
        if matches!(self.current.kind, TokenKind::Do) {
            let start = self.position;
            self.next();
            let mut exprs: Vec<Expr> = Vec::new();
            loop
                invariant
                    self.wf(),
                    self.lexer.input == old(self).lexer.input,
                    self.source == old(self).source,
                    self.filename == old(self).filename,
                    self.errors@.len() >= old(self).errors@.len(),
                    self.measure() < old(self).measure(),
                decreases self.measure(),
            {
                if matches!(self.current.kind, TokenKind::End) {
                    self.next();
                    break ;
                }
                if matches!(self.current.kind, TokenKind::Eof) {
                    let err = Error {
                        source: self.source.clone(),
                        file_name: self.filename.clone(),
                        message: "Expected `end` at end of block.".to_owned(),
                        span: self.current.span,
                        help: "".to_owned(),
                    };
                    self.errors.push(err);
                    self.next();
                    return Expr { inner: ExprKind::Error, span: self.current.span };
                }
                let e = self.declaration();
                exprs.push(e);
            }
            return Expr { inner: ExprKind::Block(exprs), span: Span::new(start, self.position) };
        }
        if matches!(self.current.kind, TokenKind::Fun) {
            let start = self.position;
            self.next();
            let name = self.current.literal.clone();
            self.expect(TokenKind::Identifier);
            let mut params: Vec<Param> = Vec::new();
            if matches!(self.current.kind, TokenKind::Identifier) {
                loop
                    invariant
                        self.wf(),
                        self.lexer.input == old(self).lexer.input,
                        self.source == old(self).source,
                        self.filename == old(self).filename,
                        self.errors@.len() >= old(self).errors@.len(),
                        self.measure() < old(self).measure(),
                    decreases self.measure(),
                {
                    let param_name = self.current.literal.clone();
                    self.next();
                    let param_type = self.parse_type();
                    params.push(Param { param_type, name: param_name });
                    if matches!(self.current.kind, TokenKind::Comma) {
                        self.next();
                    } else {
                        break ;
                    }
                }
            }
            let mut return_type = Type::Nothing;
            if matches!(self.current.kind, TokenKind::Colon) {
                self.next();
                return_type = self.parse_type();
            }
            let mut exprs: Vec<Expr> = Vec::new();
            loop
                invariant
                    self.wf(),
                    self.lexer.input == old(self).lexer.input,
                    self.source == old(self).source,
                    self.filename == old(self).filename,
                    self.errors@.len() >= old(self).errors@.len(),
                    self.measure() < old(self).measure(),
                decreases self.measure(),
            {
                if matches!(self.current.kind, TokenKind::End) {
                    self.next();
                    break ;
                }
                if matches!(self.current.kind, TokenKind::Eof) {
                    let err = Error {
                        source: self.source.clone(),
                        file_name: self.filename.clone(),
                        message: "Expected `end` at end of block.".to_owned(),
                        span: self.current.span,
                        help: "".to_owned(),
                    };
                    self.errors.push(err);
                    self.next();
                    return Expr { inner: ExprKind::Error, span: self.current.span };
                }
                let e = self.declaration();
                exprs.push(e);
            }
            return Expr {
                inner: ExprKind::FunctionDeclaration(name, params, return_type, exprs),
                span: Span::new(start, self.position),
            };
        }
        if matches!(self.current.kind, TokenKind::Enum) {
            let start = self.position;
            self.next();
            let name = self.current.literal.clone();
            self.next();
            let mut fields: Vec<String> = Vec::new();
            loop
                invariant
                    self.wf(),
                    self.lexer.input == old(self).lexer.input,
                    self.source == old(self).source,
                    self.filename == old(self).filename,
                    self.errors@.len() >= old(self).errors@.len(),
                    self.measure() < old(self).measure(),
                decreases self.measure(),
            {
                let field = self.current.literal.clone();
                fields.push(field);
                self.next();
                if matches!(self.current.kind, TokenKind::End) {
                    self.next();
                    break ;
                }
                if matches!(self.current.kind, TokenKind::Eof) {
                    let err = Error {
                        source: self.source.clone(),
                        file_name: self.filename.clone(),
                        message: "Expected `end` at end of block.".to_owned(),
                        span: self.current.span,
                        help: "".to_owned(),
                    };
                    self.errors.push(err);
                    self.next();
                    return Expr { inner: ExprKind::Error, span: self.current.span };
                }
                if matches!(self.current.kind, TokenKind::Comma) {
                    self.next();
                } else {
                    break ;
                }
            }
            self.semicolon();
            return Expr {
                inner: ExprKind::Enum(name, fields),
                span: Span::new(start, self.position),
            };
        }
        if matches!(self.current.kind, TokenKind::IfKw) {
            return self.if_expr();
        }
        let expr = self.parse_expr(0);
        self.semicolon();
        expr
    }

    /// Parses a conditional: the condition expression, then the body up
    /// to its closing `end`. The result is the conditional's node, or an
    /// error node after an "Expected `end` at end of block." diagnostic
    /// when the input runs out first.
    fn if_expr(&mut self) -> (r: Expr)
        requires
            old(self).wf(),
            old(self).current.kind is IfKw,
        ensures
            final(self).wf(),
            final(self).lexer.input == old(self).lexer.input,
            final(self).source == old(self).source,
            final(self).filename == old(self).filename,
            final(self).errors@.len() >= old(self).errors@.len(),
            final(self).measure() < old(self).measure(),
            r.inner matches ExprKind::If(_, _) || r.inner is Error,
            r.inner is Error ==> final(self).errors@.len() > old(self).errors@.len()
                && final(self).errors@.last().message@ == "Expected `end` at end of block."@,
        decreases self.measure(), 3int,
    {
        let start = self.position;
        self.next();
        let condition = self.parse_expr(0);
        let mut exprs: Vec<Expr> = Vec::new();
        loop
            invariant
                self.wf(),
                self.lexer.input == old(self).lexer.input,
                self.source == old(self).source,
                self.filename == old(self).filename,
                self.errors@.len() >= old(self).errors@.len(),
                self.measure() < old(self).measure(),
            decreases self.measure(),
        {
            if matches!(self.current.kind, TokenKind::End) {
                self.next();
                break ;
            }
            if matches!(self.current.kind, TokenKind::Eof) {
                let err = Error {
                    source: self.source.clone(),
                    file_name: self.filename.clone(),
                    message: "Expected `end` at end of block.".to_owned(),
                    span: self.current.span,
                    help: "".to_owned(),
                };
                self.errors.push(err);
                self.next();
                return Expr { inner: ExprKind::Error, span: self.current.span };
            }
            let e = self.declaration();
            exprs.push(e);
        }
        Expr {
            inner: ExprKind::If(condition.boxed(), exprs),
            span: Span::new(start, self.position),
        }
    }

    /// Consumes a semicolon when one is there.
    fn semicolon(&mut self)
        requires
            old(self).wf(),
        ensures
            final(self).wf(),
            final(self).lexer.input == old(self).lexer.input,
            final(self).source == old(self).source,
            final(self).filename == old(self).filename,
            final(self).errors@ == old(self).errors@,
            final(self).measure() <= old(self).measure(),
    {
        if matches!(self.current.kind, TokenKind::SemiColon) {
            self.next();
        }
    }

    /// Pratt expression parsing: a prefix form, then operators of higher
    /// binding power than the context's.
    fn parse_expr(&mut self, rbp: i32) -> (r: Expr)
        requires
            old(self).wf(),
            rbp >= -1,
        ensures
            final(self).wf(),
            final(self).lexer.input == old(self).lexer.input,
            final(self).source == old(self).source,
            final(self).filename == old(self).filename,
            final(self).errors@.len() >= old(self).errors@.len(),
            final(self).measure() <= old(self).measure(),
            !(old(self).current.kind is Eof) ==> final(self).measure() < old(self).measure(),
        decreases self.measure(), 2int,
    {
        let start = self.position;
        let tok_kind = self.current.kind;
        let mut left = self.nud(tok_kind);
        loop
            invariant
                self.wf(),
                rbp >= -1,
                self.lexer.input == old(self).lexer.input,
                self.source == old(self).source,
                self.filename == old(self).filename,
                self.errors@.len() >= old(self).errors@.len(),
                self.measure() <= old(self).measure(),
                !(old(self).current.kind is Eof) ==> self.measure() < old(self).measure(),
            decreases self.measure(),
        {
            let power = self.lbp(&self.current.kind);
            if !(rbp < power) {
                break ;
            }
            let op_kind = self.current.kind;
            proof {
                assert(spec_lbp(op_kind) == power);
                assert(power >= 0);
                if op_kind is Eof {
                    assert(spec_lbp(op_kind) == -1);
                }
                assert(!(op_kind is Eof));
            }
            self.next();
            let right = self.parse_expr(self.lbp(&op_kind));
            left = self.led(left.boxed(), op_kind, right.boxed(), Span::new(start, self.position));
        }
        left
    }

    /// The binding power table.
    fn lbp(&self, op: &TokenKind) -> (r: i32)
        ensures
            r == spec_lbp(*op),
    {
        match op {
            TokenKind::Mod => 25,
            TokenKind::Plus => 10,
            TokenKind::Minus => 10,
            TokenKind::Asterisk => 15,
            TokenKind::Slash => 15,
            TokenKind::GreaterThan => 5,
            TokenKind::LessThan => 5,
            TokenKind::GreaterThanEqual => 5,
            TokenKind::LessThanEqual => 5,
            TokenKind::NotEqual => 3,
            TokenKind::EqualTo => 3,
            TokenKind::And => 2,
            TokenKind::Or => 1,
            TokenKind::Colon => 1,
            _ => -1,
        }
    }

    /// An infix node.
    fn led(&self, left: Box<Expr>, op: TokenKind, right: Box<Expr>, span: Span) -> (r: Expr)
        ensures
            r == (Expr { inner: ExprKind::Binary(left, op, right), span }),
    {
        Expr { inner: ExprKind::Binary(left, op, right), span }
    }

    /// Whether any diagnostic was collected while lexing or parsing.
    pub fn finish(&self) -> (r: bool)
        ensures
            r == (self.has_lexing_errors || self.errors@.len() > 0),
    {
        if self.has_lexing_errors {
            return true;
        }
        if self.errors.len() > 0 {
            return true;
        }
        false
    }

    /// Parses a type annotation: one of the four base types, wrapped
    /// into a pointer when an asterisk follows; anything else is
    /// reported as "Expected type" and yields no type.
    fn parse_type(&mut self) -> (r: Type)
        requires
            old(self).wf(),
        ensures
            final(self).wf(),
            final(self).lexer.input == old(self).lexer.input,
            final(self).source == old(self).source,
            final(self).filename == old(self).filename,
            final(self).errors@.len() >= old(self).errors@.len(),
            final(self).measure() <= old(self).measure(),
            !(old(self).current.kind is Eof) ==> final(self).measure() < old(self).measure(),
            old(self).current.kind is IntTy ==> r == Type::Int || r == Type::Ptr(
                Box::new(Type::Int),
            ),
            old(self).current.kind is FloatTy ==> r == Type::Float || r == Type::Ptr(
                Box::new(Type::Float),
            ),
            old(self).current.kind is StringTy ==> r == Type::String || r == Type::Ptr(
                Box::new(Type::String),
            ),
            old(self).current.kind is BoolTy ==> r == Type::Bool || r == Type::Ptr(
                Box::new(Type::Bool),
            ),
            !(old(self).current.kind is IntTy || old(self).current.kind is FloatTy
                || old(self).current.kind is StringTy || old(self).current.kind is BoolTy)
                ==> r == Type::Nothing
                && final(self).errors@.len() == old(self).errors@.len() + 1
                && final(self).errors@.last().message@ == "Expected type"@,
    {
        let base = match self.current.kind {
            TokenKind::IntTy => Some(Type::Int),
            TokenKind::FloatTy => Some(Type::Float),
            TokenKind::StringTy => Some(Type::String),
            TokenKind::BoolTy => Some(Type::Bool),
            _ => None,
        };
        match base {
            Some(ty) => {
                self.next();
                if matches!(self.current.kind, TokenKind::Asterisk) {
                    self.next();
                    return Type::Ptr(ty.boxed());
                }
                ty
            },
            None => {
                let err = Error {
                    source: self.source.clone(),
                    file_name: self.filename.clone(),
                    message: "Expected type".to_owned(),
                    span: self.current.span,
                    help: "like `int`, `float` `str` `bool`".to_owned(),
                };
                self.errors.push(err);
                self.next();
                Type::Nothing
            },
        }
    }

    /// A prefix form: a literal, a parenthesized expression, a unary
    /// operator, a reference, an identifier (possibly opening a typed
    /// declaration or a call), or an error. A string token becomes its
    /// literal text; a boolean token its value; an integer token its
    /// parsed value, or an error node with a diagnostic; a float token
    /// keeps its text (bit pattern left unresolved), or is an error
    /// node with a diagnostic; a prefix operator wraps the expression
    /// after it.
    fn nud(&mut self, kind: TokenKind) -> (r: Expr)
        requires
            old(self).wf(),
            kind == old(self).current.kind,
        ensures
            final(self).wf(),
            final(self).lexer.input == old(self).lexer.input,
            final(self).source == old(self).source,
            final(self).filename == old(self).filename,
            final(self).errors@.len() >= old(self).errors@.len(),
            final(self).measure() <= old(self).measure(),
            !(old(self).current.kind is Eof) ==> final(self).measure() < old(self).measure(),
            kind is String ==> ({
                &&& r.inner matches ExprKind::Str(s)
                &&& s@ == old(self).current.literal@
                &&& r.span == old(self).current.span
            }),
            kind matches TokenKind::Bool(b) ==> r.inner == ExprKind::Bool(b)
                && r.span == old(self).current.span,
            kind is Int ==> ({
                let bs = vstd::utf8::encode_utf8(old(self).current.literal@);
                let digits = if bs.len() >= 2 {
                    bs.skip(2)
                } else {
                    Seq::<u8>::empty()
                };
                &&& (r.inner matches ExprKind::Int(n) ==> n == (if has_x(bs) {
                    hex_val(digits)
                } else {
                    dec_val(bs)
                }))
                &&& (r.inner matches ExprKind::Int(_) || (r.inner is Error
                    && final(self).errors@.len() == old(self).errors@.len() + 1))
            }),
            kind is Float ==> ((r.inner matches ExprKind::Float(text, bits)
                && text@ == old(self).current.literal@ && bits == 0) || (r.inner is Error
                && final(self).errors@.len() == old(self).errors@.len() + 1
                && final(self).errors@.last().message@ == "Error while parsing float."@)),
            kind is Plus || kind is Minus || kind is Not ==> ({
                &&& r.inner matches ExprKind::Unary(op, _)
                &&& op == kind
            }),
            kind is And ==> r.inner matches ExprKind::Ref(_),
        decreases self.measure(), 1int,
    {
        match kind {
            TokenKind::String => {
                let text = self.current.literal.clone();
                let span = self.current.span;
                self.next();
                Expr { inner: ExprKind::Str(text), span }
            },
            TokenKind::Int => {
                let span = self.current.span;
                let bytes = self.current.literal.as_str().as_bytes();
                proof {
                    assert(bytes@ == vstd::utf8::encode_utf8(old(self).current.literal@));
                }
                if contains_x(bytes) {
                    // A hexadecimal literal: the value of the digits
                    // after the prefix.
                    let digits = if bytes.len() >= 2 {
                        vstd::slice::slice_subrange(bytes, 2, bytes.len())
                    } else {
                        vstd::slice::slice_subrange(bytes, bytes.len(), bytes.len())
                    };
                    proof {
                        if bytes@.len() >= 2 {
                            assert(digits@ =~= bytes@.skip(2));
                        } else {
                            assert(digits@ =~= Seq::<u8>::empty());
                        }
                    }
                    match parse_i64_hex(digits) {
                        Ok(num) => {
                            self.next();
                            Expr { inner: ExprKind::Int(num), span }
                        },
                        Err(code) => {
                            let message = if code == 0 {
                                "Int parsing error: Empty.".to_owned()
                            } else if code == 1 {
                                "Int parsing error: Invalid digit".to_owned()
                            } else {
                                "Int parsing error: Positive Overflow".to_owned()
                            };
                            let err = Error {
                                source: self.source.clone(),
                                file_name: self.filename.clone(),
                                message,
                                span,
                                help: "".to_owned(),
                            };
                            self.errors.push(err);
                            self.next();
                            Expr { inner: ExprKind::Error, span }
                        },
                    }
                } else {
                    match parse_i64_dec(self.current.literal.as_str()) {
                        Some(num) => {
                            self.next();
                            Expr { inner: ExprKind::Int(num), span }
                        },
                        None => {
                            let err = Error {
                                source: self.source.clone(),
                                file_name: self.filename.clone(),
                                message: "Int parsing error: Positive Overflow".to_owned(),
                                span,
                                help: "".to_owned(),
                            };
                            self.errors.push(err);
                            self.next();
                            Expr { inner: ExprKind::Error, span }
                        },
                    }
                }
            },
            TokenKind::OpeningParen => {
                self.next();
                let expr = self.parse_expr(-1);
                self.expect(TokenKind::ClosingParen);
                expr
            },
            TokenKind::Float => {
                let span = self.current.span;
                let ok = float_text_ok(self.current.literal.as_str().as_bytes());
                if ok {
                    let text = self.current.literal.clone();
                    self.next();
                    // The bit pattern is left for the embedding to
                    // resolve from the text.
                    Expr { inner: ExprKind::Float(text, 0), span }
                } else {
                    let err = Error {
                        source: self.source.clone(),
                        file_name: self.filename.clone(),
                        message: "Error while parsing float.".to_owned(),
                        span,
                        help: "".to_owned(),
                    };
                    self.errors.push(err);
                    self.next();
                    Expr { inner: ExprKind::Error, span }
                }
            },
            TokenKind::Plus => self.unary(kind),
            TokenKind::Minus => self.unary(kind),
            TokenKind::Not => self.unary(kind),
            TokenKind::And => {
                let start = self.position;
                self.next();
                let expr = self.parse_expr(40);
                Expr { inner: ExprKind::Ref(expr.boxed()), span: Span::new(start, self.position) }
            },
            TokenKind::Bool(b) => {
                let span = self.current.span;
                self.next();
                Expr { inner: ExprKind::Bool(b), span }
            },
            TokenKind::Identifier => {
                let start = self.position;
                let ident = self.current.literal.clone();
                let span = self.current.span;
                self.next();
                let is_type_start = matches!(
                    self.current.kind,
                    TokenKind::IntTy | TokenKind::FloatTy | TokenKind::StringTy
                        | TokenKind::BoolTy,
                );
                if is_type_start {
                    let ty = self.parse_type();
                    self.expect(TokenKind::Equal);
                    let expr = self.parse_expr(0);
                    let lo = if start < usize::MAX {
                        start + 1
                    } else {
                        start
                    };
                    let hi = if self.lexer.position > 0 {
                        self.lexer.position - 1
                    } else {
                        0
                    };
                    return Expr {
                        inner: ExprKind::Var(ident, expr.boxed(), ty),
                        span: Span::new(lo, hi),
                    };
                }
                if matches!(self.current.kind, TokenKind::OpeningParen) {
                    self.next();
                    let mut args: Vec<Expr> = Vec::new();
                    loop
                        invariant
                            self.wf(),
                            self.lexer.input == old(self).lexer.input,
                            self.source == old(self).source,
                            self.filename == old(self).filename,
                            self.errors@.len() >= old(self).errors@.len(),
                            self.measure() < old(self).measure(),
                        decreases self.measure(),
                    {
                        if matches!(self.current.kind, TokenKind::ClosingParen) {
                            break ;
                        }
                        let arg = self.parse_expr(0);
                        args.push(arg);
                        if matches!(self.current.kind, TokenKind::Comma) {
                            self.next();
                        } else {
                            break ;
                        }
                    }
                    self.expect(TokenKind::ClosingParen);
                    return Expr {
                        inner: ExprKind::FunctionCall(ident, args),
                        span: Span::new(start, self.position),
                    };
                }
                Expr { inner: ExprKind::Ident(ident), span }
            },
            _ => {
                let err = Error {
                    source: self.source.clone(),
                    file_name: self.filename.clone(),
                    message: "Expected expression".to_owned(),
                    span: self.current.span,
                    help: "".to_owned(),
                };
                self.errors.push(err);
                self.next();
                Expr { inner: ExprKind::Error, span: self.current.span }
            },
        }
    }

    /// A unary prefix node over the expression after the operator.
    fn unary(&mut self, op: TokenKind) -> (r: Expr)
        requires
            old(self).wf(),
            !(old(self).current.kind is Eof),
        ensures
            final(self).wf(),
            final(self).lexer.input == old(self).lexer.input,
            final(self).source == old(self).source,
            final(self).filename == old(self).filename,
            final(self).errors@.len() >= old(self).errors@.len(),
            final(self).measure() < old(self).measure(),
            ({
                &&& r.inner matches ExprKind::Unary(o, _)
                &&& o == op
            }),
        decreases self.measure(), 0int,
    {
        let start = self.position;
        self.next();
        let expr = self.parse_expr(40);
        Expr { inner: ExprKind::Unary(op, expr.boxed()), span: Span::new(start, self.position) }
    }
}

} // verus!
