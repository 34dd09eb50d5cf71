//! A verified tree-walking interpreter for a small dynamically typed
//! scripting language with C-like syntax: variables, blocks, control flow,
//! first-class functions and closures over mutable lexical scopes.
//!
//! The evaluation core (environment chain, statement/expression evaluator,
//! call and return mechanism) carries full functional contracts against a
//! definitional semantics in [`semantics`]; the scanner, parser and resolver are
//! verified supporting passes.

pub mod ast;
pub mod env;
pub mod interp;
pub mod laws;
pub mod parser;
pub mod resolver;
pub mod scanner;
pub mod semantics;
pub mod token;
pub mod value;

pub use token::Token;
pub use token::TokenKind;
