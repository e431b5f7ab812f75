//! Tokens, token kinds and source spans.

use vstd::prelude::*;

verus! {

/// Every kind of token the lexer produces.
#[derive(Debug, Clone, Copy, PartialEq, Eq, PartialOrd, Structural)]
pub enum TokenKind {
    // One-character tokens
    Plus,
    Minus,
    Not,
    Comma,
    And,
    Colon,
    Asterisk,
    Slash,
    Equal,
    Or,
    OpeningParen,
    ClosingParen,
    OpeningBracket,
    ClosingBracket,
    Mod,
    GreaterThan,
    LessThan,
    GreaterThanEqual,
    LessThanEqual,
    SemiColon,
    Illegal,
    // Multi-character tokens
    String,
    Arrow,
    EqualTo,
    Identifier,
    Bool(bool),
    Fun,
    Do,
    NotEqual,
    Enum,
    Int,
    Float,
    // Keywords
    IntTy,
    FloatTy,
    BoolTy,
    End,
    StringTy,
    IfKw,
    // End of input
    Eof,
}

/// The display text of each token kind.
pub open spec fn token_kind_text(k: TokenKind) -> Seq<char> {
    match k {
        TokenKind::Plus => "+"@,
        TokenKind::Minus => "-"@,
        TokenKind::Not => "!"@,
        TokenKind::NotEqual => "!="@,
        TokenKind::Colon => ":"@,
        TokenKind::Asterisk => "*"@,
        TokenKind::Comma => ","@,
        TokenKind::Slash => "/"@,
        TokenKind::EqualTo => "=="@,
        TokenKind::IntTy => "int type"@,
        TokenKind::FloatTy => "float type"@,
        TokenKind::Arrow => "->"@,
        TokenKind::StringTy => "string type"@,
        TokenKind::IfKw => "if"@,
        TokenKind::Enum => "enum"@,
        TokenKind::Fun => "fun"@,
        TokenKind::End => "end"@,
        TokenKind::Do => "do"@,
        TokenKind::Equal => "="@,
        TokenKind::And => "&"@,
        TokenKind::Or => "|"@,
        TokenKind::SemiColon => ";"@,
        TokenKind::Mod => "%"@,
        TokenKind::Bool(b) => if b {
            "true"@
        } else {
            "false"@
        },
        TokenKind::BoolTy => "bool type"@,
        TokenKind::Identifier => "identifier"@,
        TokenKind::OpeningParen => "("@,
        TokenKind::ClosingParen => ")"@,
        TokenKind::GreaterThan => ">"@,
        TokenKind::LessThan => "<"@,
        TokenKind::GreaterThanEqual => ">="@,
        TokenKind::LessThanEqual => "<="@,
        TokenKind::OpeningBracket => "{"@,
        TokenKind::ClosingBracket => "}"@,
        TokenKind::String => "string"@,
        TokenKind::Int => "int"@,
        TokenKind::Float => "float"@,
        TokenKind::Illegal => "<illegal>"@,
        TokenKind::Eof => "<eof>"@,
    }
}

impl TokenKind {
    /// The display text of this token kind.
    pub fn text(&self) -> (r: String)
        ensures
            r@ == token_kind_text(*self),
    {
        match self {
            TokenKind::Plus => "+".to_owned(),
            TokenKind::Minus => "-".to_owned(),
            TokenKind::Not => "!".to_owned(),
            TokenKind::NotEqual => "!=".to_owned(),
            TokenKind::Colon => ":".to_owned(),
            TokenKind::Asterisk => "*".to_owned(),
            TokenKind::Comma => ",".to_owned(),
            TokenKind::Slash => "/".to_owned(),
            TokenKind::EqualTo => "==".to_owned(),
            TokenKind::IntTy => "int type".to_owned(),
            TokenKind::FloatTy => "float type".to_owned(),
            TokenKind::Arrow => "->".to_owned(),
            TokenKind::StringTy => "string type".to_owned(),
            TokenKind::IfKw => "if".to_owned(),
            TokenKind::Enum => "enum".to_owned(),
            TokenKind::Fun => "fun".to_owned(),
            TokenKind::End => "end".to_owned(),
            TokenKind::Do => "do".to_owned(),
            TokenKind::Equal => "=".to_owned(),
            TokenKind::And => "&".to_owned(),
            TokenKind::Or => "|".to_owned(),
            TokenKind::SemiColon => ";".to_owned(),
            TokenKind::Mod => "%".to_owned(),
            TokenKind::Bool(b) => if *b {
                "true".to_owned()
            } else {
                "false".to_owned()
            },
            TokenKind::BoolTy => "bool type".to_owned(),
            TokenKind::Identifier => "identifier".to_owned(),
            TokenKind::OpeningParen => "(".to_owned(),
            TokenKind::ClosingParen => ")".to_owned(),
            TokenKind::GreaterThan => ">".to_owned(),
            TokenKind::LessThan => "<".to_owned(),
            TokenKind::GreaterThanEqual => ">=".to_owned(),
            TokenKind::LessThanEqual => "<=".to_owned(),
            TokenKind::OpeningBracket => "{".to_owned(),
            TokenKind::ClosingBracket => "}".to_owned(),
            TokenKind::String => "string".to_owned(),
            TokenKind::Int => "int".to_owned(),
            TokenKind::Float => "float".to_owned(),
            TokenKind::Illegal => "<illegal>".to_owned(),
            TokenKind::Eof => "<eof>".to_owned(),
        }
    }
}

/// A half-open byte range into the source text.
#[derive(Debug, Clone, Copy, PartialEq, Eq, Structural)]
pub struct Span {
    pub start: usize,
    pub end: usize,
}

impl Span {
    /// The span covering `start..end`.
    pub fn new(start: usize, end: usize) -> (r: Self)
        ensures
            r.start == start,
            r.end == end,
    {
        Span { start, end }
    }
}

/// One token: its kind, its text, and where it came from.
#[derive(Debug, Clone)]
pub struct Token {
    pub literal: String,
    pub kind: TokenKind,
    pub span: Span,
}

impl Token {
    pub fn new(kind: TokenKind, literal: String, span: Span) -> (r: Self)
        ensures
            r.kind == kind,
            r.literal@ == literal@,
            r.span == span,
    {
        Token { kind, literal, span }
    }
}

} // verus!
