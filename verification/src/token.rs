//! Token kinds and tokens produced by the scanner and consumed by the parser.

use vstd::prelude::*;

use crate::ast::Literal;

verus! {

/// The lexical category of a token.
#[derive(Debug, Copy, Clone, PartialEq, Eq, Structural)]
pub enum TokenKind {
    // Single-character tokens.
    LeftParen,
    RightParen,
    LeftBrace,
    RightBrace,
    Comma,
    Dot,
    Minus,
    Plus,
    Semicolon,
    Slash,
    Star,
    // One or two character tokens.
    Bang,
    BangEqual,
    Equal,
    EqualEqual,
    Greater,
    GreaterEqual,
    Less,
    LessEqual,
    // Literals.
    Identifier,
    String,
    Number,
    // Keywords.
    And,
    Class,
    Else,
    False,
    Fun,
    For,
    If,
    Nil,
    Or,
    Print,
    Return,
    Super,
    This,
    True,
    Var,
    While,
    Eof,
}

/// One token: its kind, the source text it was scanned from, the literal
/// value it carries (for number and string tokens), and its source line.
#[derive(Debug, Clone)]
pub struct Token {
    pub kind: TokenKind,
    pub lexeme: std::string::String,
    pub literal: Option<Literal>,
    pub line: usize,
}

} // verus!
