//! Syntax tree, parser, printer, and evaluator.

pub mod expr;
pub mod interpreter;
pub mod printer;
pub mod syntax_tree;
