//! Statement nodes of the syntax tree, one struct per statement kind.

use vstd::prelude::*;

use crate::ast::{Expr, Ptr, Statement, SyntaxNode};

verus! {

/// An expression evaluated for its effects; the value is discarded.
#[derive(Debug)]
pub struct Expression {
    pub id: usize,
    pub expr: Expr,
}

/// `print e;` — evaluates `e` and forwards its text to the output sink.
#[derive(Debug)]
pub struct Print {
    pub id: usize,
    pub expr: Expr,
}

/// `var name = expr;` — declares a binding in the current scope.
#[derive(Debug)]
pub struct VariableDecl {
    pub id: usize,
    pub name: String,
    pub expr: Option<Expr>,
}

/// `{ ... }` — a brace-delimited list of statements in a fresh scope.
#[derive(Debug)]
pub struct Block {
    pub id: usize,
    pub statements: Vec<Statement>,
}

/// `fun name(params) { ... }` — a function declaration.
#[derive(Debug)]
pub struct Function {
    pub id: usize,
    pub name: String,
    pub params: Vec<String>,
    pub body: Ptr<Statement>,
}

/// `if (condition) then_branch else else_branch`.
#[derive(Debug)]
pub struct If {
    pub id: usize,
    pub condition: Expr,
    pub then_branch: Statement,
    pub else_branch: Option<Statement>,
}

/// `while (condition) body`.
#[derive(Debug)]
pub struct While {
    pub id: usize,
    pub condition: Expr,
    pub body: Statement,
}

/// `return expr;` with an optional value.
#[derive(Debug)]
pub struct Return {
    pub id: usize,
    pub value: Option<Expr>,
}

impl SyntaxNode for Expression {
    fn id(&self) -> usize {
        self.id
    }
}

impl SyntaxNode for Print {
    fn id(&self) -> usize {
        self.id
    }
}

impl SyntaxNode for VariableDecl {
    fn id(&self) -> usize {
        self.id
    }
}

impl SyntaxNode for Block {
    fn id(&self) -> usize {
        self.id
    }
}

impl SyntaxNode for Function {
    fn id(&self) -> usize {
        self.id
    }
}

impl SyntaxNode for If {
    fn id(&self) -> usize {
        self.id
    }
}

impl SyntaxNode for While {
    fn id(&self) -> usize {
        self.id
    }
}

impl SyntaxNode for Return {
    fn id(&self) -> usize {
        self.id
    }
}

} // verus!
