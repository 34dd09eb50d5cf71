//! The scanner: source text to tokens. A supporting pass in front of the
//! parser; its contract guarantees the token shape the parser relies on —
//! a trailing end marker, and number and string tokens that carry their
//! literal value.

use vstd::prelude::*;
use vstd::string::StringExecFns;

use crate::ast::Literal;
use crate::token::{Token, TokenKind};

verus! {

/// Relies on `str::chars`: yields the string's characters in order.
#[verifier::external_body]
fn str_chars_vec(s: &str) -> (v: Vec<char>)
    ensures
        v@ == s@,
{
    s.chars().collect()
}

/// Relies on `String::push`: appends exactly one character.
#[verifier::external_body]
fn push_char(s: &mut String, c: char)
    ensures
        final(s)@ == old(s)@.push(c),
{
    s.push(c);
}

/// A scanning error, with the line it was found on.
#[derive(Debug, Clone)]
pub enum ScanError {
    /// A character no token can start with.
    UnsupportedCharacter { line: usize },
    /// A string literal with no closing quote before the end of the source.
    UnterminatedString { line: usize },
    /// A number literal too large for a number value.
    NumberTooLarge { line: usize },
}

impl ScanError {
    /// A human-readable description of the error.
    pub fn message(&self) -> (s: String)
        ensures
            s@ == (match self {
                ScanError::UnsupportedCharacter { .. } => "Unsupported character"@,
                ScanError::UnterminatedString { .. } => "Unterminated string."@,
                ScanError::NumberTooLarge { .. } => "Number literal is too large."@,
            }),
    {
        match self {
            ScanError::UnsupportedCharacter { .. } => String::from_str("Unsupported character"),
            ScanError::UnterminatedString { .. } => String::from_str("Unterminated string."),
            ScanError::NumberTooLarge { .. } => String::from_str("Number literal is too large."),
        }
    }
}

/// A token that carries what its kind promises: number and string tokens
/// hold a literal of the matching shape.
pub open spec fn wf_token(t: Token) -> bool {
    &&& (t.kind == TokenKind::Number ==> t.literal matches Some(Literal::Number(_)))
    &&& (t.kind == TokenKind::String ==> t.literal matches Some(Literal::String(_)))
}

/// The token shape the parser relies on: at least the end marker, the end
/// marker last (with an empty lexeme and no literal), and every token well
/// formed.
pub open spec fn wf_tokens(ts: Seq<Token>) -> bool {
    &&& ts.len() > 0
    &&& ts.last().kind == TokenKind::Eof
    &&& ts.last().lexeme@ == Seq::<char>::empty()
    &&& ts.last().literal is None
    &&& (forall|i: int| 0 <= i < ts.len() ==> wf_token(#[trigger] ts[i]))
}

/// The scanner's state: the source as characters, the start of the token
/// being scanned, the read position, the current line, and the tokens
/// produced so far.
pub struct Scanner {
    pub source: Vec<char>,
    pub start: usize,
    pub current: usize,
    pub line: usize,
    pub tokens: Vec<Token>,
}

impl Scanner {
    /// Positions stay inside the source, and every token produced so far is
    /// well formed.
    pub open spec fn inv(&self) -> bool {
        &&& self.start <= self.current <= self.source.len()
        &&& (forall|i: int| 0 <= i < self.tokens.len() ==> wf_token(#[trigger] self.tokens@[i]))
    }

    /// Creates a scanner over the given source text.
    pub fn new(source: &str) -> (r: Scanner)
        ensures
            r.inv(),
            r.tokens@.len() == 0,
    {
        Scanner { source: str_chars_vec(source), start: 0, current: 0, line: 1, tokens: Vec::new() }
    }

    /// Scans the whole source. On success the tokens end with the end
    /// marker and every number or string token carries its literal value;
    /// an unsupported character, an unterminated string or an oversized
    /// number literal is an error.
    pub fn scan_tokens(self) -> (r: Result<Vec<Token>, ScanError>)
        requires
            self.inv(),
        ensures
            r matches Ok(ts) ==> wf_tokens(ts@),
    {
        let mut this = self;
        while !(this.current >= this.source.len())
            invariant
                this.inv(),
            decreases this.source.len() - this.current,
        {
            this.start = this.current;
            match this.scan_token() {
                Ok(_) => {},
                Err(e) => {
                    return Err(e);
                },
            }
        }
        let line = this.line;
        this.tokens.push(
            Token { kind: TokenKind::Eof, lexeme: String::from_str(""), literal: None, line },
        );
        proof {
            reveal_strlit("");
            assert(this.tokens@.last().lexeme@ =~= Seq::<char>::empty());
            assert(wf_tokens(this.tokens@));
        }
        Ok(this.tokens)
    }

    /// Whether the whole source has been read.
    fn is_at_end(&self) -> (r: bool)
        ensures
            r == (self.current >= self.source.len()),
    {
        self.current >= self.source.len()
    }

    /// Scans one token (or skips whitespace or a comment), advancing by at
    /// least one character.
    fn scan_token(&mut self) -> (r: Result<(), ScanError>)
        requires
            old(self).inv(),
            old(self).start == old(self).current < old(self).source.len(),
        ensures
            final(self).inv(),
            old(self).current < final(self).current,
            final(self).source == old(self).source,
    {
        let c = self.advance();
        match c {
            '(' => self.add_empty_token(TokenKind::LeftParen),
            ')' => self.add_empty_token(TokenKind::RightParen),
            '{' => self.add_empty_token(TokenKind::LeftBrace),
            '}' => self.add_empty_token(TokenKind::RightBrace),
            ',' => self.add_empty_token(TokenKind::Comma),
            '.' => self.add_empty_token(TokenKind::Dot),
            '-' => self.add_empty_token(TokenKind::Minus),
            '+' => self.add_empty_token(TokenKind::Plus),
            ';' => self.add_empty_token(TokenKind::Semicolon),
            '*' => self.add_empty_token(TokenKind::Star),
            '!' => {
                if self.match_('=') {
                    self.add_empty_token(TokenKind::BangEqual)
                } else {
                    self.add_empty_token(TokenKind::Bang)
                }
            },
            '=' => {
                if self.match_('=') {
                    self.add_empty_token(TokenKind::EqualEqual)
                } else {
                    self.add_empty_token(TokenKind::Equal)
                }
            },
            '<' => {
                if self.match_('=') {
                    self.add_empty_token(TokenKind::LessEqual)
                } else {
                    self.add_empty_token(TokenKind::Less)
                }
            },
            '>' => {
                if self.match_('=') {
                    self.add_empty_token(TokenKind::GreaterEqual)
                } else {
                    self.add_empty_token(TokenKind::Greater)
                }
            },
            '/' => {
                if self.match_('/') {
                    // A comment runs to the end of the line.
                    while !self.is_at_end() && self.peek_is_not('\n')
                        invariant
                            self.inv(),
                            self.source == old(self).source,
                            old(self).current < self.current,
                        decreases self.source.len() - self.current,
                    {
                        let _ = self.advance();
                    }
                } else {
                    self.add_empty_token(TokenKind::Slash);
                }
            },
            ' ' | '\r' | '\t' => {
                // Whitespace between tokens.
            },
            '\n' => {
                if self.line < usize::MAX {
                    self.line = self.line + 1;
                }
            },
            '"' => {
                return self.string();
            },
            _ => {
                if is_digit(c) {
                    return self.number();
                } else if is_alpha(c) {
                    self.identifier();
                } else {
                    return Err(ScanError::UnsupportedCharacter { line: self.line });
                }
            },
        }
        Ok(())
    }

    /// Scans the rest of a string literal; the opening quote has been
    /// consumed.
    fn string(&mut self) -> (r: Result<(), ScanError>)
        requires
            old(self).inv(),
            old(self).start < old(self).current,
        ensures
            final(self).inv(),
            old(self).current <= final(self).current,
            final(self).source == old(self).source,
    {
        while !self.is_at_end() && self.peek_is_not('"')
            invariant
                self.inv(),
                self.source == old(self).source,
                self.start == old(self).start,
                old(self).start < self.current,
                old(self).current <= self.current,
            decreases self.source.len() - self.current,
        {
            if self.peek_is('\n') && self.line < usize::MAX {
                self.line = self.line + 1;
            }
            let _ = self.advance();
        }
        if self.is_at_end() {
            return Err(ScanError::UnterminatedString { line: self.line });
        }
        let _ = self.advance();  // the closing quote
        let value = self.copy_range(self.start + 1, self.current - 1);
        self.add_literal_token(TokenKind::String, Literal::String(value));
        Ok(())
    }

    /// Scans the rest of a number literal; the first digit has been
    /// consumed. Digits only: number values are whole numbers.
    #[verifier::loop_isolation(false)]
    fn number(&mut self) -> (r: Result<(), ScanError>)
        requires
            old(self).inv(),
            old(self).start < old(self).current,
        ensures
            final(self).inv(),
            old(self).current <= final(self).current,
            final(self).source == old(self).source,
    {
        while !self.is_at_end() && self.peek_digit()
            invariant
                self.inv(),
                self.source == old(self).source,
                self.start == old(self).start,
                old(self).start < self.current,
                old(self).current <= self.current,
            decreases self.source.len() - self.current,
        {
            let _ = self.advance();
        }
        let mut value: i64 = 0;
        let mut i = self.start;
        let line = self.line;
        while i < self.current
            invariant
                self.inv(),
                0 <= value,
            decreases self.current - i,
        {
            let c = self.source[i];
            let d: i64 = digit_value(c);
            value = match value.checked_mul(10) {
                Some(v) => v,
                None => {
                    return Err(ScanError::NumberTooLarge { line });
                },
            };
            value = match value.checked_add(d) {
                Some(v) => v,
                None => {
                    return Err(ScanError::NumberTooLarge { line });
                },
            };
            i += 1;
        }
        self.add_literal_token(TokenKind::Number, Literal::Number(value));
        Ok(())
    }

    /// Scans the rest of an identifier or keyword; the first letter has
    /// been consumed.
    fn identifier(&mut self)
        requires
            old(self).inv(),
            old(self).start < old(self).current,
        ensures
            final(self).inv(),
            old(self).current <= final(self).current,
            final(self).source == old(self).source,
    {
        while !self.is_at_end() && self.peek_alnum()
            invariant
                self.inv(),
                self.source == old(self).source,
                self.start == old(self).start,
                old(self).start < self.current,
                old(self).current <= self.current,
            decreases self.source.len() - self.current,
        {
            let _ = self.advance();
        }
        let lexeme = self.copy_range(self.start, self.current);
        let kind = match keyword_to_token(&lexeme) {
            Some(k) => k,
            None => TokenKind::Identifier,
        };
        self.add_empty_token(kind);
    }

    /// Consumes and returns the next character.
    fn advance(&mut self) -> (c: char)
        requires
            old(self).inv(),
            old(self).current < old(self).source.len(),
        ensures
            final(self).inv(),
            final(self).current == old(self).current + 1,
            final(self).source == old(self).source,
            final(self).start == old(self).start,
            final(self).tokens == old(self).tokens,
            final(self).line == old(self).line,
            c == old(self).source@[old(self).current as int],
    {
        let result = self.source[self.current];
        self.current = self.current + 1;
        result
    }

    /// Consumes the next character if it equals `expected`.
    fn match_(&mut self, expected: char) -> (r: bool)
        requires
            old(self).inv(),
        ensures
            final(self).inv(),
            old(self).current <= final(self).current <= old(self).current + 1,
            final(self).source == old(self).source,
            final(self).start == old(self).start,
            final(self).tokens == old(self).tokens,
            final(self).line == old(self).line,
    {
        if self.is_at_end() {
            return false;
        }
        if self.source[self.current] != expected {
            return false;
        }
        self.current = self.current + 1;
        true
    }

    /// Whether the next character is `c` (false at the end).
    fn peek_is(&self, c: char) -> (r: bool)
        requires
            self.inv(),
    {
        if self.current < self.source.len() {
            self.source[self.current] == c
        } else {
            false
        }
    }

    /// Whether the next character exists and differs from `c`.
    fn peek_is_not(&self, c: char) -> (r: bool)
        requires
            self.inv(),
    {
        if self.current < self.source.len() {
            self.source[self.current] != c
        } else {
            false
        }
    }

    /// Whether the next character is a digit.
    fn peek_digit(&self) -> (r: bool)
        requires
            self.inv(),
    {
        if self.current < self.source.len() {
            is_digit(self.source[self.current])
        } else {
            false
        }
    }

    /// Whether the next character is a letter or digit.
    fn peek_alnum(&self) -> (r: bool)
        requires
            self.inv(),
    {
        if self.current < self.source.len() {
            let c = self.source[self.current];
            is_digit(c) || is_alpha(c)
        } else {
            false
        }
    }

    /// The source characters from `from` to `to` as a string.
    fn copy_range(&self, from: usize, to: usize) -> (s: String)
        requires
            self.inv(),
            from <= to <= self.source.len(),
    {
        let mut s = String::new();
        let mut i = from;
        while i < to
            invariant
                from <= i <= to <= self.source.len(),
            decreases to - i,
        {
            push_char(&mut s, self.source[i]);
            i += 1;
        }
        s
    }

    /// Records a token without a literal value.
    fn add_empty_token(&mut self, kind: TokenKind)
        requires
            old(self).inv(),
            kind != TokenKind::Number,
            kind != TokenKind::String,
        ensures
            final(self).inv(),
            final(self).current == old(self).current,
            final(self).start == old(self).start,
            final(self).source == old(self).source,
    {
        let lexeme = self.copy_range(self.start, self.current);
        let line = self.line;
        self.tokens.push(Token { kind, lexeme, literal: None, line });
    }

    /// Records a token carrying a literal value.
    fn add_literal_token(&mut self, kind: TokenKind, literal: Literal)
        requires
            old(self).inv(),
            kind == TokenKind::Number ==> literal matches Literal::Number(_),
            kind == TokenKind::String ==> literal matches Literal::String(_),
        ensures
            final(self).inv(),
            final(self).current == old(self).current,
            final(self).start == old(self).start,
            final(self).source == old(self).source,
    {
        let lexeme = self.copy_range(self.start, self.current);
        let line = self.line;
        self.tokens.push(Token { kind, lexeme, literal: Some(literal), line });
    }
}

/// Whether `c` is a decimal digit.
fn is_digit(c: char) -> (r: bool)
    ensures
        r == ('0' <= c <= '9'),
{
    '0' <= c && c <= '9'
}

/// The value of a digit character.
fn digit_value(c: char) -> (r: i64)
    ensures
        0 <= r <= 9,
{
    if '0' <= c && c <= '9' {
        ((c as u32) - ('0' as u32)) as i64
    } else {
        0
    }
}

/// Whether `c` can start an identifier: an ASCII letter.
fn is_alpha(c: char) -> (r: bool) {
    ('a' <= c && c <= 'z') || ('A' <= c && c <= 'Z')
}

/// Whether `lexeme` is the keyword `word`.
fn is_word(lexeme: &String, word: &str) -> (r: bool)
    ensures
        r == (lexeme@ == word@),
{
    *lexeme == String::from_str(word)
}

/// The keyword kind of `lexeme`, if it is a keyword.
fn keyword_to_token(lexeme: &String) -> (r: Option<TokenKind>)
    ensures
        r matches Some(k) ==> k != TokenKind::Number && k != TokenKind::String,
{
    if is_word(lexeme, "and") {
        Some(TokenKind::And)
    } else if is_word(lexeme, "class") {
        Some(TokenKind::Class)
    } else if is_word(lexeme, "else") {
        Some(TokenKind::Else)
    } else if is_word(lexeme, "false") {
        Some(TokenKind::False)
    } else if is_word(lexeme, "for") {
        Some(TokenKind::For)
    } else if is_word(lexeme, "fun") {
        Some(TokenKind::Fun)
    } else if is_word(lexeme, "if") {
        Some(TokenKind::If)
    } else if is_word(lexeme, "nil") {
        Some(TokenKind::Nil)
    } else if is_word(lexeme, "or") {
        Some(TokenKind::Or)
    } else if is_word(lexeme, "print") {
        Some(TokenKind::Print)
    } else if is_word(lexeme, "return") {
        Some(TokenKind::Return)
    } else if is_word(lexeme, "super") {
        Some(TokenKind::Super)
    } else if is_word(lexeme, "this") {
        Some(TokenKind::This)
    } else if is_word(lexeme, "true") {
        Some(TokenKind::True)
    } else if is_word(lexeme, "var") {
        Some(TokenKind::Var)
    } else if is_word(lexeme, "while") {
        Some(TokenKind::While)
    } else {
        None
    }
}

} // verus!
