//! Expression nodes of the syntax tree, one struct per expression kind.

use vstd::prelude::*;

use crate::ast::{Expr, SyntaxNode};
use crate::token::TokenKind;

verus! {

/// A binary operation `left operator right`.
#[derive(Debug)]
pub struct Binary {
    pub id: usize,
    pub left: Expr,
    pub operator: TokenKind,
    pub right: Expr,
}

/// A parenthesised expression.
#[derive(Debug)]
pub struct Grouping {
    pub id: usize,
    pub expr: Expr,
}

/// A literal expression.
#[derive(Debug)]
pub struct Literal {
    pub id: usize,
    pub literal: crate::ast::Literal,
}

/// A unary operation `operator right`.
#[derive(Debug)]
pub struct Unary {
    pub id: usize,
    pub operator: TokenKind,
    pub right: Expr,
}

/// A variable reference.
///
/// `resolution`, when present, is the number of scope levels to walk
/// outward to find the binding, as computed by the resolver; a tree that
/// has not been resolved carries no annotation, and the evaluator then
/// searches the chain dynamically.
#[derive(Debug)]
pub struct Variable {
    pub id: usize,
    pub name: String,
    pub resolution: Option<usize>,
}

/// An assignment `name = value`; carries the same resolution annotation as a
/// variable reference.
#[derive(Debug)]
pub struct Assign {
    pub id: usize,
    pub name: String,
    pub value: Expr,
    pub resolution: Option<usize>,
}

/// A short-circuiting `and` / `or`.
#[derive(Debug)]
pub struct Logical {
    pub id: usize,
    pub left: Expr,
    pub operator: TokenKind,
    pub right: Expr,
}

/// A call `callee(arguments...)`.
#[derive(Debug)]
pub struct Call {
    pub id: usize,
    pub callee: Expr,
    pub arguments: Vec<Expr>,
}

impl SyntaxNode for Binary {
    fn id(&self) -> usize {
        self.id
    }
}

impl SyntaxNode for Grouping {
    fn id(&self) -> usize {
        self.id
    }
}

impl SyntaxNode for Literal {
    fn id(&self) -> usize {
        self.id
    }
}

impl SyntaxNode for Unary {
    fn id(&self) -> usize {
        self.id
    }
}

impl SyntaxNode for Variable {
    fn id(&self) -> usize {
        self.id
    }
}

impl SyntaxNode for Assign {
    fn id(&self) -> usize {
        self.id
    }
}

impl SyntaxNode for Logical {
    fn id(&self) -> usize {
        self.id
    }
}

impl SyntaxNode for Call {
    fn id(&self) -> usize {
        self.id
    }
}

} // verus!
