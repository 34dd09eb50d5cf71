//! The recursive-descent parser: tokens to syntax tree. A supporting,
//! grammar-driven pass; its contracts guarantee progress through the token
//! stream and keep every position inside it, which is what rules out both
//! divergence and panics.

use vstd::prelude::*;
use vstd::string::StringExecFns;

use crate::ast::{clone_literal, expr, statement, Expr, Literal, Statement};
use crate::scanner::wf_tokens;
use crate::token::{Token, TokenKind};
use crate::value::nat_to_string;

verus! {

/// A parse error: where it happened and what was expected.
#[derive(Debug, Clone)]
pub struct ParseError {
    pub line: usize,
    pub lexeme: String,
    pub description: String,
}

impl ParseError {
    /// A human-readable description of the error: the line, the offending
    /// token's text, and what was expected.
    pub fn message(&self) -> (s: String)
        ensures
            s@ == "Line "@ + crate::value::dec_seq_nat(self.line as nat) + ", at '"@
                + self.lexeme@ + "', "@ + self.description@,
    {
        let mut s = String::from_str("Line ");
        let digits = nat_to_string(self.line as u64);
        s.append(digits.as_str());
        s.append(", at '");
        s.append(self.lexeme.as_str());
        s.append("', ");
        s.append(self.description.as_str());
        proof {
            assert(s@ =~= "Line "@ + crate::value::dec_seq_nat(self.line as nat) + ", at '"@
                + self.lexeme@ + "', "@ + self.description@);
        }
        s
    }
}

/// Outcome of parsing one expression.
pub type ParseExprResult = Result<Expr, ParseError>;

/// Outcome of parsing one statement.
pub type ParseStmtResult = Result<Statement, ParseError>;

/// The parser's state: the tokens, the read position, and the counter that
/// hands out node identifiers.
pub struct Parser {
    pub tokens: Vec<Token>,
    pub current: usize,
    pub next_id: usize,
}

impl Parser {
    /// The token stream is well formed and the position is on a token.
    pub open spec fn inv(&self) -> bool {
        &&& wf_tokens(self.tokens@)
        &&& self.current < self.tokens.len()
    }

    /// Creates a parser over a scanned token stream. The stream must be in
    /// the shape the scanner guarantees; anything else would read past the
    /// end.
    pub fn new(tokens: Vec<Token>) -> (r: Parser)
        requires
            wf_tokens(tokens@),
        ensures
            r.inv(),
    {
        Parser { tokens, current: 0, next_id: 0 }
    }

    /// Hands out the next node identifier.
    fn new_id(&mut self) -> (id: usize)
        requires
            old(self).inv(),
        ensures
            final(self).inv(),
            final(self).tokens == old(self).tokens,
            final(self).current == old(self).current,
    {
        let id = self.next_id;
        if self.next_id < usize::MAX {
            self.next_id = self.next_id + 1;
        }
        id
    }

    /// The kind of the token at the read position.
    fn peek_kind(&self) -> (k: TokenKind)
        requires
            self.inv(),
        ensures
            k == self.tokens@[self.current as int].kind,
    {
        self.tokens[self.current].kind
    }

    /// Whether the read position is on the end marker.
    fn is_at_end(&self) -> (r: bool)
        requires
            self.inv(),
        ensures
            r == (self.tokens@[self.current as int].kind == TokenKind::Eof),
    {
        self.peek_kind() == TokenKind::Eof
    }

    /// Whether the next token has the given kind (never true at the end).
    fn check(&self, kind: TokenKind) -> (r: bool)
        requires
            self.inv(),
        ensures
            r ==> self.tokens@[self.current as int].kind == kind && self.tokens@[self.current as int].kind != TokenKind::Eof,
            !r ==> self.tokens@[self.current as int].kind != kind || kind == TokenKind::Eof,
    {
        if self.is_at_end() {
            return false;
        }
        self.peek_kind() == kind
    }

    /// Moves past the current token; the end marker is never consumed.
    fn advance(&mut self)
        requires
            old(self).inv(),
        ensures
            final(self).inv(),
            final(self).tokens == old(self).tokens,
            final(self).current == (if old(self).tokens@[old(self).current as int].kind
                == TokenKind::Eof {
                old(self).current as int
            } else {
                old(self).current + 1
            }),
    {
        if !self.is_at_end() {
            proof {
                assert(self.tokens@.last().kind == TokenKind::Eof);
            }
            self.current = self.current + 1;
        }
    }

    /// Consumes the next token if it has one of the given kinds.
    fn match_(&mut self, kinds: &[TokenKind]) -> (r: bool)
        requires
            old(self).inv(),
        ensures
            final(self).inv(),
            final(self).tokens == old(self).tokens,
            r ==> final(self).current == old(self).current + 1,
            !r ==> final(self).current == old(self).current,
    {
        let n = kinds.len();
        let mut i: usize = 0;
        while i < n
            invariant
                self.inv(),
                self.tokens == old(self).tokens,
                self.current == old(self).current,
                n == kinds.len(),
            decreases n - i,
        {
            if self.check(kinds[i]) {
                self.advance();
                return true;
            }
            i += 1;
        }
        false
    }

    /// Consumes the next token, which must have the given kind.
    fn consume(&mut self, kind: TokenKind, message: &str) -> (r: Result<(), ParseError>)
        requires
            old(self).inv(),
        ensures
            final(self).inv(),
            final(self).tokens == old(self).tokens,
            old(self).current <= final(self).current <= old(self).current + 1,
            r is Ok ==> final(self).current == old(self).current + 1,
            r is Err ==> final(self).current == old(self).current,
    {
        if self.check(kind) {
            self.advance();
            return Ok(());
        }
        Err(self.error_here(message))
    }

    /// A parse error at the current token.
    fn error_here(&self, message: &str) -> (e: ParseError)
        requires
            self.inv(),
    {
        ParseError {
            line: self.tokens[self.current].line,
            lexeme: self.tokens[self.current].lexeme.clone(),
            description: message.to_owned(),
        }
    }

    /// A parse error at the token just consumed.
    fn error_previous(&self, message: &str) -> (e: ParseError)
        requires
            self.inv(),
            self.current >= 1,
    {
        ParseError {
            line: self.tokens[self.current - 1].line,
            lexeme: self.tokens[self.current - 1].lexeme.clone(),
            description: message.to_owned(),
        }
    }

    /// The source text of the token just consumed.
    fn previous_lexeme(&self) -> (s: String)
        requires
            self.inv(),
            self.current >= 1,
    {
        self.tokens[self.current - 1].lexeme.clone()
    }

    /// The kind of the token just consumed.
    fn previous_kind(&self) -> (k: TokenKind)
        requires
            self.inv(),
            self.current >= 1,
    {
        self.tokens[self.current - 1].kind
    }

    /// The literal carried by the token just consumed; `Nil` if it carries
    /// none (number and string tokens always do).
    fn previous_literal(&self) -> (l: Literal)
        requires
            self.inv(),
            self.current >= 1,
    {
        match &self.tokens[self.current - 1].literal {
            Some(l) => clone_literal(l),
            None => Literal::Nil,
        }
    }

    /// Parses a whole program: declarations until the end of the tokens.
    pub fn parse(&mut self) -> (r: Result<Vec<Statement>, ParseError>)
        requires
            old(self).inv(),
        ensures
            final(self).inv(),
        decreases self.tokens.len() - self.current, 31int,
    {
        let mut statements: Vec<Statement> = Vec::new();
        while !self.is_at_end()
            invariant
                self.inv(),
                self.tokens == old(self).tokens,
            decreases self.tokens.len() - self.current,
        {
            match self.parse_declaration() {
                Ok(s) => statements.push(s),
                Err(e) => {
                    return Err(e);
                },
            }
        }
        Ok(statements)
    }

    /// declaration → funDecl | varDecl | statement
    fn parse_declaration(&mut self) -> (r: ParseStmtResult)
        requires
            old(self).inv(),
        ensures
            final(self).inv(),
            final(self).tokens == old(self).tokens,
            old(self).current <= final(self).current,
            r is Ok ==> old(self).current < final(self).current,
        decreases self.tokens.len() - self.current, 24int,
    {
        if self.match_(&[TokenKind::Var]) {
            self.parse_variable_decl()
        } else if self.match_(&[TokenKind::Fun]) {
            self.parse_function_decl()
        } else {
            self.parse_statement()
        }
    }

    /// varDecl → "var" IDENTIFIER ( "=" expression )? ";"  (after "var")
    fn parse_variable_decl(&mut self) -> (r: ParseStmtResult)
        requires
            old(self).inv(),
        ensures
            final(self).inv(),
            final(self).tokens == old(self).tokens,
            old(self).current <= final(self).current,
        decreases self.tokens.len() - self.current, 23int,
    {
        match self.consume(TokenKind::Identifier, "Expect variable name.") {
            Ok(_) => {},
            Err(e) => {
                return Err(e);
            },
        }
        let name = self.previous_lexeme();
        let e = if self.match_(&[TokenKind::Equal]) {
            match self.parse_expression() {
                Ok(e) => Some(e),
                Err(er) => {
                    return Err(er);
                },
            }
        } else {
            None
        };
        match self.consume(TokenKind::Semicolon, "Expect ';' after value.") {
            Ok(_) => {},
            Err(er) => {
                return Err(er);
            },
        }
        let id = self.new_id();
        Ok(Statement::VariableDecl(Box::new(statement::VariableDecl { id, name, expr: e })))
    }

    /// funDecl → "fun" IDENTIFIER "(" parameters? ")" block  (after "fun")
    fn parse_function_decl(&mut self) -> (r: ParseStmtResult)
        requires
            old(self).inv(),
        ensures
            final(self).inv(),
            final(self).tokens == old(self).tokens,
            old(self).current <= final(self).current,
        decreases self.tokens.len() - self.current, 23int,
    {
        match self.consume(TokenKind::Identifier, "Expect function name.") {
            Ok(_) => {},
            Err(e) => {
                return Err(e);
            },
        }
        let name = self.previous_lexeme();
        match self.consume(TokenKind::LeftParen, "Expect '(' after function name.") {
            Ok(_) => {},
            Err(e) => {
                return Err(e);
            },
        }
        let mut params: Vec<String> = Vec::new();
        if !self.check(TokenKind::RightParen) {
            loop
                invariant
                    self.inv(),
                    self.tokens == old(self).tokens,
                    old(self).current < self.current,
                decreases self.tokens.len() - self.current,
            {
                if params.len() >= 255 {
                    return Err(self.error_here("Can't have more than 255 parameters"));
                }
                match self.consume(TokenKind::Identifier, "Expect parameter name.") {
                    Ok(_) => {},
                    Err(e) => {
                        return Err(e);
                    },
                }
                params.push(self.previous_lexeme());
                if !self.match_(&[TokenKind::Comma]) {
                    break;
                }
            }
        }
        match self.consume(TokenKind::RightParen, "Expect ')' after parameters.") {
            Ok(_) => {},
            Err(e) => {
                return Err(e);
            },
        }
        match self.consume(TokenKind::LeftBrace, "Expect '{' before function body.") {
            Ok(_) => {},
            Err(e) => {
                return Err(e);
            },
        }
        let body = match self.parse_block_statement() {
            Ok(b) => b,
            Err(e) => {
                return Err(e);
            },
        };
        let id = self.new_id();
        Ok(
            Statement::Function(
                Box::new(statement::Function { id, name, params, body: Box::new(body) }),
            ),
        )
    }

    /// statement → exprStmt | forStmt | ifStmt | printStmt | returnStmt
    ///           | whileStmt | block
    fn parse_statement(&mut self) -> (r: ParseStmtResult)
        requires
            old(self).inv(),
        ensures
            final(self).inv(),
            final(self).tokens == old(self).tokens,
            old(self).current <= final(self).current,
            r is Ok ==> old(self).current < final(self).current,
        decreases self.tokens.len() - self.current, 22int,
    {
        if self.match_(&[TokenKind::Print]) {
            self.parse_print_statement()
        } else if self.match_(&[TokenKind::LeftBrace]) {
            self.parse_block_statement()
        } else if self.match_(&[TokenKind::If]) {
            self.parse_if_statement()
        } else if self.match_(&[TokenKind::While]) {
            self.parse_while_statement()
        } else if self.match_(&[TokenKind::For]) {
            self.parse_for_statement()
        } else if self.match_(&[TokenKind::Return]) {
            self.parse_return_statement()
        } else {
            self.parse_expression_statement()
        }
    }

    /// printStmt → "print" expression ";"  (after "print")
    fn parse_print_statement(&mut self) -> (r: ParseStmtResult)
        requires
            old(self).inv(),
        ensures
            final(self).inv(),
            final(self).tokens == old(self).tokens,
            old(self).current <= final(self).current,
        decreases self.tokens.len() - self.current, 21int,
    {
        let value = match self.parse_expression() {
            Ok(e) => e,
            Err(er) => {
                return Err(er);
            },
        };
        match self.consume(TokenKind::Semicolon, "Expect ';' after value.") {
            Ok(_) => {},
            Err(er) => {
                return Err(er);
            },
        }
        let id = self.new_id();
        Ok(Statement::Print(Box::new(statement::Print { id, expr: value })))
    }

    /// exprStmt → expression ";"
    fn parse_expression_statement(&mut self) -> (r: ParseStmtResult)
        requires
            old(self).inv(),
        ensures
            final(self).inv(),
            final(self).tokens == old(self).tokens,
            old(self).current <= final(self).current,
            r is Ok ==> old(self).current < final(self).current,
        decreases self.tokens.len() - self.current, 21int,
    {
        let value = match self.parse_expression() {
            Ok(e) => e,
            Err(er) => {
                return Err(er);
            },
        };
        match self.consume(TokenKind::Semicolon, "Expect ';' after value.") {
            Ok(_) => {},
            Err(er) => {
                return Err(er);
            },
        }
        let id = self.new_id();
        Ok(Statement::Expression(Box::new(statement::Expression { id, expr: value })))
    }

    /// block → "{" declaration* "}"  (after "{")
    fn parse_block_statement(&mut self) -> (r: ParseStmtResult)
        requires
            old(self).inv(),
        ensures
            final(self).inv(),
            final(self).tokens == old(self).tokens,
            old(self).current <= final(self).current,
        decreases self.tokens.len() - self.current, 30int,
    {
        let mut statements: Vec<Statement> = Vec::new();
        while !self.check(TokenKind::RightBrace) && !self.is_at_end()
            invariant
                self.inv(),
                self.tokens == old(self).tokens,
                old(self).current <= self.current,
            decreases self.tokens.len() - self.current,
        {
            match self.parse_declaration() {
                Ok(s) => statements.push(s),
                Err(e) => {
                    return Err(e);
                },
            }
        }
        match self.consume(TokenKind::RightBrace, "Expect '}' after block.") {
            Ok(_) => {},
            Err(e) => {
                return Err(e);
            },
        }
        let id = self.new_id();
        Ok(Statement::Block(Box::new(statement::Block { id, statements })))
    }

    /// ifStmt → "if" "(" expression ")" statement ( "else" statement )?
    /// (after "if")
    fn parse_if_statement(&mut self) -> (r: ParseStmtResult)
        requires
            old(self).inv(),
        ensures
            final(self).inv(),
            final(self).tokens == old(self).tokens,
            old(self).current <= final(self).current,
        decreases self.tokens.len() - self.current, 21int,
    {
        match self.consume(TokenKind::LeftParen, "Expect '(' after 'if'.") {
            Ok(_) => {},
            Err(e) => {
                return Err(e);
            },
        }
        let condition = match self.parse_expression() {
            Ok(e) => e,
            Err(er) => {
                return Err(er);
            },
        };
        match self.consume(TokenKind::RightParen, "Expect ')' after if condition.") {
            Ok(_) => {},
            Err(e) => {
                return Err(e);
            },
        }
        let then_branch = match self.parse_statement() {
            Ok(s) => s,
            Err(e) => {
                return Err(e);
            },
        };
        let else_branch = if self.match_(&[TokenKind::Else]) {
            match self.parse_statement() {
                Ok(s) => Some(s),
                Err(e) => {
                    return Err(e);
                },
            }
        } else {
            None
        };
        let id = self.new_id();
        Ok(
            Statement::If(
                Box::new(statement::If { id, condition, then_branch, else_branch }),
            ),
        )
    }

    /// whileStmt → "while" "(" expression ")" statement  (after "while")
    fn parse_while_statement(&mut self) -> (r: ParseStmtResult)
        requires
            old(self).inv(),
        ensures
            final(self).inv(),
            final(self).tokens == old(self).tokens,
            old(self).current <= final(self).current,
        decreases self.tokens.len() - self.current, 21int,
    {
        match self.consume(TokenKind::LeftParen, "Expect '(' after 'while'.") {
            Ok(_) => {},
            Err(e) => {
                return Err(e);
            },
        }
        let condition = match self.parse_expression() {
            Ok(e) => e,
            Err(er) => {
                return Err(er);
            },
        };
        match self.consume(TokenKind::RightParen, "Expect ')' after condition.") {
            Ok(_) => {},
            Err(e) => {
                return Err(e);
            },
        }
        let body = match self.parse_statement() {
            Ok(s) => s,
            Err(e) => {
                return Err(e);
            },
        };
        let id = self.new_id();
        Ok(Statement::While(Box::new(statement::While { id, condition, body })))
    }

    /// forStmt → "for" "(" ( varDecl | exprStmt | ";" ) expression? ";"
    ///           expression? ")" statement  (after "for"); desugared into
    /// a while loop wrapped in blocks.
    fn parse_for_statement(&mut self) -> (r: ParseStmtResult)
        requires
            old(self).inv(),
        ensures
            final(self).inv(),
            final(self).tokens == old(self).tokens,
            old(self).current <= final(self).current,
        decreases self.tokens.len() - self.current, 21int,
    {
        match self.consume(TokenKind::LeftParen, "Expect '(' after 'for'.") {
            Ok(_) => {},
            Err(e) => {
                return Err(e);
            },
        }
        let initializer = if self.match_(&[TokenKind::Semicolon]) {
            None
        } else if self.match_(&[TokenKind::Var]) {
            match self.parse_variable_decl() {
                Ok(s) => Some(s),
                Err(e) => {
                    return Err(e);
                },
            }
        } else {
            match self.parse_expression_statement() {
                Ok(s) => Some(s),
                Err(e) => {
                    return Err(e);
                },
            }
        };
        let condition = if self.check(TokenKind::Semicolon) {
            None
        } else {
            match self.parse_expression() {
                Ok(e) => Some(e),
                Err(er) => {
                    return Err(er);
                },
            }
        };
        match self.consume(TokenKind::Semicolon, "Expect ';' after loop condition.") {
            Ok(_) => {},
            Err(e) => {
                return Err(e);
            },
        }
        let increment = if self.check(TokenKind::RightParen) {
            None
        } else {
            match self.parse_expression() {
                Ok(e) => Some(e),
                Err(er) => {
                    return Err(er);
                },
            }
        };
        match self.consume(TokenKind::RightParen, "Expect ')' after for clauses.") {
            Ok(_) => {},
            Err(e) => {
                return Err(e);
            },
        }
        let mut body = match self.parse_statement() {
            Ok(s) => s,
            Err(e) => {
                return Err(e);
            },
        };
        // Desugar: the increment runs after the body, the condition guards
        // a while loop, and the initializer runs once before it.
        match increment {
            Some(inc) => {
                let expr_id = self.new_id();
                let block_id = self.new_id();
                let mut statements: Vec<Statement> = Vec::new();
                statements.push(body);
                statements.push(
                    Statement::Expression(Box::new(statement::Expression { id: expr_id, expr: inc })),
                );
                body = Statement::Block(Box::new(statement::Block { id: block_id, statements }));
            },
            None => {},
        }
        let condition = match condition {
            Some(c) => c,
            None => {
                let lit_id = self.new_id();
                Expr::Literal(
                    Box::new(expr::Literal { id: lit_id, literal: Literal::Boolean(true) }),
                )
            },
        };
        let while_id = self.new_id();
        body = Statement::While(Box::new(statement::While { id: while_id, condition, body }));
        match initializer {
            Some(init) => {
                let block_id = self.new_id();
                let mut statements: Vec<Statement> = Vec::new();
                statements.push(init);
                statements.push(body);
                body = Statement::Block(Box::new(statement::Block { id: block_id, statements }));
            },
            None => {},
        }
        Ok(body)
    }

    /// returnStmt → "return" expression? ";"  (after "return")
    fn parse_return_statement(&mut self) -> (r: ParseStmtResult)
        requires
            old(self).inv(),
        ensures
            final(self).inv(),
            final(self).tokens == old(self).tokens,
            old(self).current <= final(self).current,
        decreases self.tokens.len() - self.current, 21int,
    {
        let value = if !self.check(TokenKind::Semicolon) {
            match self.parse_expression() {
                Ok(e) => Some(e),
                Err(er) => {
                    return Err(er);
                },
            }
        } else {
            None
        };
        match self.consume(TokenKind::Semicolon, "Expect ';' after return value.") {
            Ok(_) => {},
            Err(e) => {
                return Err(e);
            },
        }
        let id = self.new_id();
        Ok(Statement::Return(Box::new(statement::Return { id, value })))
    }

    /// expression → assignment
    fn parse_expression(&mut self) -> (r: ParseExprResult)
        requires
            old(self).inv(),
        ensures
            final(self).inv(),
            final(self).tokens == old(self).tokens,
            old(self).current <= final(self).current,
            r is Ok ==> old(self).current < final(self).current,
        decreases self.tokens.len() - self.current, 20int,
    {
        self.parse_assignment()
    }

    /// assignment → IDENTIFIER "=" assignment | logic_or
    fn parse_assignment(&mut self) -> (r: ParseExprResult)
        requires
            old(self).inv(),
        ensures
            final(self).inv(),
            final(self).tokens == old(self).tokens,
            old(self).current <= final(self).current,
            r is Ok ==> old(self).current < final(self).current,
        decreases self.tokens.len() - self.current, 19int,
    {
        let e = match self.parse_or() {
            Ok(e) => e,
            Err(er) => {
                return Err(er);
            },
        };
        if self.match_(&[TokenKind::Equal]) {
            // The error, if needed, points at the '=' just consumed.
            let error = self.error_previous("Invalid assignment target.");
            // Assignment is right-associative.
            let value = match self.parse_assignment() {
                Ok(v) => v,
                Err(er) => {
                    return Err(er);
                },
            };
            if let Expr::Variable(var) = e {
                let id = self.new_id();
                return Ok(
                    Expr::Assign(
                        Box::new(
                            expr::Assign { id, name: var.name, value, resolution: None },
                        ),
                    ),
                );
            }
            return Err(error);
        }
        Ok(e)
    }

    /// logic_or → logic_and ( "or" logic_and )*
    fn parse_or(&mut self) -> (r: ParseExprResult)
        requires
            old(self).inv(),
        ensures
            final(self).inv(),
            final(self).tokens == old(self).tokens,
            old(self).current <= final(self).current,
            r is Ok ==> old(self).current < final(self).current,
        decreases self.tokens.len() - self.current, 18int,
    {
        let mut e = match self.parse_and() {
            Ok(e) => e,
            Err(er) => {
                return Err(er);
            },
        };
        while self.match_(&[TokenKind::Or])
            invariant
                self.inv(),
                self.tokens == old(self).tokens,
                old(self).current < self.current,
            decreases self.tokens.len() - self.current,
        {
            let operator = self.previous_kind();
            let right = match self.parse_and() {
                Ok(right) => right,
                Err(er) => {
                    return Err(er);
                },
            };
            let id = self.new_id();
            e = Expr::Logical(Box::new(expr::Logical { id, left: e, operator, right }));
        }
        Ok(e)
    }

    /// logic_and → equality ( "and" equality )*
    fn parse_and(&mut self) -> (r: ParseExprResult)
        requires
            old(self).inv(),
        ensures
            final(self).inv(),
            final(self).tokens == old(self).tokens,
            old(self).current <= final(self).current,
            r is Ok ==> old(self).current < final(self).current,
        decreases self.tokens.len() - self.current, 17int,
    {
        let mut e = match self.parse_equality() {
            Ok(e) => e,
            Err(er) => {
                return Err(er);
            },
        };
        while self.match_(&[TokenKind::And])
            invariant
                self.inv(),
                self.tokens == old(self).tokens,
                old(self).current < self.current,
            decreases self.tokens.len() - self.current,
        {
            let operator = self.previous_kind();
            let right = match self.parse_equality() {
                Ok(right) => right,
                Err(er) => {
                    return Err(er);
                },
            };
            let id = self.new_id();
            e = Expr::Logical(Box::new(expr::Logical { id, left: e, operator, right }));
        }
        Ok(e)
    }

    /// equality → comparison ( ( "!=" | "==" ) comparison )*
    fn parse_equality(&mut self) -> (r: ParseExprResult)
        requires
            old(self).inv(),
        ensures
            final(self).inv(),
            final(self).tokens == old(self).tokens,
            old(self).current <= final(self).current,
            r is Ok ==> old(self).current < final(self).current,
        decreases self.tokens.len() - self.current, 16int,
    {
        let mut e = match self.parse_comparison() {
            Ok(e) => e,
            Err(er) => {
                return Err(er);
            },
        };
        while self.match_(&[TokenKind::BangEqual, TokenKind::EqualEqual])
            invariant
                self.inv(),
                self.tokens == old(self).tokens,
                old(self).current < self.current,
            decreases self.tokens.len() - self.current,
        {
            let operator = self.previous_kind();
            let right = match self.parse_comparison() {
                Ok(right) => right,
                Err(er) => {
                    return Err(er);
                },
            };
            let id = self.new_id();
            e = Expr::Binary(Box::new(expr::Binary { id, left: e, operator, right }));
        }
        Ok(e)
    }

    /// comparison → term ( ( ">" | ">=" | "<" | "<=" ) term )*
    fn parse_comparison(&mut self) -> (r: ParseExprResult)
        requires
            old(self).inv(),
        ensures
            final(self).inv(),
            final(self).tokens == old(self).tokens,
            old(self).current <= final(self).current,
            r is Ok ==> old(self).current < final(self).current,
        decreases self.tokens.len() - self.current, 15int,
    {
        let mut e = match self.parse_term() {
            Ok(e) => e,
            Err(er) => {
                return Err(er);
            },
        };
        while self.match_(
            &[TokenKind::Less, TokenKind::LessEqual, TokenKind::Greater, TokenKind::GreaterEqual],
        )
            invariant
                self.inv(),
                self.tokens == old(self).tokens,
                old(self).current < self.current,
            decreases self.tokens.len() - self.current,
        {
            let operator = self.previous_kind();
            let right = match self.parse_term() {
                Ok(right) => right,
                Err(er) => {
                    return Err(er);
                },
            };
            let id = self.new_id();
            e = Expr::Binary(Box::new(expr::Binary { id, left: e, operator, right }));
        }
        Ok(e)
    }

    /// term → factor ( ( "-" | "+" ) factor )*
    fn parse_term(&mut self) -> (r: ParseExprResult)
        requires
            old(self).inv(),
        ensures
            final(self).inv(),
            final(self).tokens == old(self).tokens,
            old(self).current <= final(self).current,
            r is Ok ==> old(self).current < final(self).current,
        decreases self.tokens.len() - self.current, 14int,
    {
        let mut e = match self.parse_factor() {
            Ok(e) => e,
            Err(er) => {
                return Err(er);
            },
        };
        while self.match_(&[TokenKind::Minus, TokenKind::Plus])
            invariant
                self.inv(),
                self.tokens == old(self).tokens,
                old(self).current < self.current,
            decreases self.tokens.len() - self.current,
        {
            let operator = self.previous_kind();
            let right = match self.parse_factor() {
                Ok(right) => right,
                Err(er) => {
                    return Err(er);
                },
            };
            let id = self.new_id();
            e = Expr::Binary(Box::new(expr::Binary { id, left: e, operator, right }));
        }
        Ok(e)
    }

    /// factor → unary ( ( "/" | "*" ) unary )*
    fn parse_factor(&mut self) -> (r: ParseExprResult)
        requires
            old(self).inv(),
        ensures
            final(self).inv(),
            final(self).tokens == old(self).tokens,
            old(self).current <= final(self).current,
            r is Ok ==> old(self).current < final(self).current,
        decreases self.tokens.len() - self.current, 13int,
    {
        let mut e = match self.parse_unary() {
            Ok(e) => e,
            Err(er) => {
                return Err(er);
            },
        };
        while self.match_(&[TokenKind::Slash, TokenKind::Star])
            invariant
                self.inv(),
                self.tokens == old(self).tokens,
                old(self).current < self.current,
            decreases self.tokens.len() - self.current,
        {
            let operator = self.previous_kind();
            let right = match self.parse_unary() {
                Ok(right) => right,
                Err(er) => {
                    return Err(er);
                },
            };
            let id = self.new_id();
            e = Expr::Binary(Box::new(expr::Binary { id, left: e, operator, right }));
        }
        Ok(e)
    }

    /// unary → ( "!" | "-" ) unary | call
    fn parse_unary(&mut self) -> (r: ParseExprResult)
        requires
            old(self).inv(),
        ensures
            final(self).inv(),
            final(self).tokens == old(self).tokens,
            old(self).current <= final(self).current,
            r is Ok ==> old(self).current < final(self).current,
        decreases self.tokens.len() - self.current, 12int,
    {
        if self.match_(&[TokenKind::Bang, TokenKind::Minus]) {
            let operator = self.previous_kind();
            let right = match self.parse_unary() {
                Ok(right) => right,
                Err(er) => {
                    return Err(er);
                },
            };
            let id = self.new_id();
            Ok(Expr::Unary(Box::new(expr::Unary { id, operator, right })))
        } else {
            self.parse_call()
        }
    }

    /// call → primary ( "(" arguments? ")" )*
    #[verifier::loop_isolation(false)]
    fn parse_call(&mut self) -> (r: ParseExprResult)
        requires
            old(self).inv(),
        ensures
            final(self).inv(),
            final(self).tokens == old(self).tokens,
            old(self).current <= final(self).current,
            r is Ok ==> old(self).current < final(self).current,
        decreases self.tokens.len() - self.current, 11int,
    {
        let mut e = match self.parse_primary() {
            Ok(e) => e,
            Err(er) => {
                return Err(er);
            },
        };
        loop
            invariant
                self.inv(),
                self.tokens == old(self).tokens,
                old(self).current < self.current,
            decreases self.tokens.len() - self.current,
        {
            let ghost round_start = self.current;
            if !self.match_(&[TokenKind::LeftParen]) {
                break;
            }
            let mut arguments: Vec<Expr> = Vec::new();
            if !self.check(TokenKind::RightParen) {
                loop
                    invariant
                        self.inv(),
                        self.tokens == old(self).tokens,
                        old(self).current < self.current,
                        round_start < self.current,
                    decreases self.tokens.len() - self.current,
                {
                    if arguments.len() >= 255 {
                        return Err(self.error_here("Can't have more than 255 arguments."));
                    }
                    match self.parse_expression() {
                        Ok(a) => arguments.push(a),
                        Err(er) => {
                            return Err(er);
                        },
                    }
                    if !self.match_(&[TokenKind::Comma]) {
                        break;
                    }
                }
            }
            match self.consume(TokenKind::RightParen, "Expect ')' after arguments") {
                Ok(_) => {},
                Err(er) => {
                    return Err(er);
                },
            }
            let id = self.new_id();
            e = Expr::Call(Box::new(expr::Call { id, callee: e, arguments }));
        }
        Ok(e)
    }

    /// primary → NUMBER | STRING | "true" | "false" | "nil"
    ///         | "(" expression ")" | IDENTIFIER
    fn parse_primary(&mut self) -> (r: ParseExprResult)
        requires
            old(self).inv(),
        ensures
            final(self).inv(),
            final(self).tokens == old(self).tokens,
            old(self).current <= final(self).current,
            r is Ok ==> old(self).current < final(self).current,
        decreases self.tokens.len() - self.current, 10int,
    {
        if self.match_(&[TokenKind::Number, TokenKind::String]) {
            let literal = self.previous_literal();
            let id = self.new_id();
            Ok(Expr::Literal(Box::new(expr::Literal { id, literal })))
        } else if self.match_(&[TokenKind::True]) {
            let id = self.new_id();
            Ok(Expr::Literal(Box::new(expr::Literal { id, literal: Literal::Boolean(true) })))
        } else if self.match_(&[TokenKind::False]) {
            let id = self.new_id();
            Ok(Expr::Literal(Box::new(expr::Literal { id, literal: Literal::Boolean(false) })))
        } else if self.match_(&[TokenKind::Nil]) {
            let id = self.new_id();
            Ok(Expr::Literal(Box::new(expr::Literal { id, literal: Literal::Nil })))
        } else if self.match_(&[TokenKind::LeftParen]) {
            let e = match self.parse_expression() {
                Ok(e) => e,
                Err(er) => {
                    return Err(er);
                },
            };
            match self.consume(TokenKind::RightParen, "Expect ')' after expression") {
                Ok(_) => {},
                Err(er) => {
                    return Err(er);
                },
            }
            let id = self.new_id();
            Ok(Expr::Grouping(Box::new(expr::Grouping { id, expr: e })))
        } else if self.match_(&[TokenKind::Identifier]) {
            let name = self.previous_lexeme();
            let id = self.new_id();
            Ok(Expr::Variable(Box::new(expr::Variable { id, name, resolution: None })))
        } else {
            Err(self.error_here("Expect expression."))
        }
    }
}

} // verus!
