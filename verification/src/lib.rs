//! Core of a small dynamic-language engine: a recursive-descent parser from
//! tokens to an abstract syntax tree, and a tree-walking evaluator that runs
//! that tree against a prototype-based value model.

pub mod ast;
pub mod break_statement;
pub mod call_expression;
pub mod cursor;
pub mod expression;
pub mod interner;
pub mod interpreter;
pub mod laws;
pub mod parse_error;
pub mod token;
pub mod value;
