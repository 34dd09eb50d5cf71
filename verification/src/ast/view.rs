//! Mathematical views of the syntax tree.
//!
//! The evaluator's and resolver's contracts are stated over these ghost
//! datatypes; node identifiers are irrelevant to meaning and are not part of
//! the view.

use vstd::prelude::*;

use crate::token::TokenKind;

verus! {

/// View of a literal.
pub enum LitV {
    Number(i64),
    Str(Seq<char>),
    Boolean(bool),
    Nil,
}

/// View of an expression.
pub enum ExprV {
    Binary { operator: TokenKind, left: Box<ExprV>, right: Box<ExprV> },
    Grouping(Box<ExprV>),
    Lit(LitV),
    Unary { operator: TokenKind, right: Box<ExprV> },
    Variable { name: Seq<char>, resolution: Option<int> },
    Assign { name: Seq<char>, resolution: Option<int>, value: Box<ExprV> },
    Logical { operator: TokenKind, left: Box<ExprV>, right: Box<ExprV> },
    Call { callee: Box<ExprV>, arguments: Seq<ExprV> },
}

/// View of a statement.
pub enum StmtV {
    Expression(Box<ExprV>),
    Print(Box<ExprV>),
    VariableDecl { name: Seq<char>, init: Option<Box<ExprV>> },
    Block(Seq<StmtV>),
    If { condition: Box<ExprV>, then_branch: Box<StmtV>, else_branch: Option<Box<StmtV>> },
    While { condition: Box<ExprV>, body: Box<StmtV> },
    Function { name: Seq<char>, params: Seq<Seq<char>>, body: Box<StmtV> },
    Return(Option<Box<ExprV>>),
}

} // verus!
