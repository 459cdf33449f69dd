//! Front end and evaluator for a small dynamically typed expression
//! language: a scanner that turns source text into tokens, a
//! recursive-descent parser that builds an expression tree, a printer that
//! renders the tree in parenthesized prefix form, and a tree-walking
//! evaluator.
//!
//! Numeric literals and runtime numbers are exact rationals (see
//! [`numeric`]), so every arithmetic result is either exact or reported as
//! out of range.

pub mod ast;
pub mod laws;
pub mod lexer;
pub mod numeric;
pub mod text;
