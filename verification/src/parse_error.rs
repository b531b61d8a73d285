//! Structured parse failures: the stream ended where a token was required,
//! or a token was present but grammatically invalid.

use vstd::prelude::*;
use crate::token::{Keyword, Position, Punctuator, TokenKind};

verus! {

/// A description of an acceptable token, for error reports.
#[derive(Clone, Copy, PartialEq, Eq, Structural, Debug)]
pub enum TokenClass {
    /// A specific punctuator.
    Punc(Punctuator),
    /// A specific keyword.
    Kw(Keyword),
    /// A line terminator.
    LineTerminator,
    /// Any identifier.
    Identifier,
}

/// The grammar production a failure is reported against.
#[derive(Clone, Copy, PartialEq, Eq, Structural, Debug)]
pub enum Production {
    CallExpression,
    BreakStatement,
    ArrayLiteral,
    Expression,
    ArgumentList,
}

/// A parse failure.
#[derive(PartialEq, Debug)]
pub enum ParseError {
    /// A token was required but the stream was exhausted.
    AbruptEnd,
    /// A token was present but grammatically invalid: the set of acceptable
    /// token descriptions, the actual token's kind, its source position, and
    /// the production that failed.
    Expected {
        expected: Vec<TokenClass>,
        found: TokenKind,
        pos: Position,
        production: Production,
    },
}

/// The mathematical shape of a parse failure, over `Seq`.
pub enum ParseErrorV {
    AbruptEnd,
    Expected {
        expected: Seq<TokenClass>,
        found: TokenKind,
        pos: Position,
        production: Production,
    },
}

impl View for ParseError {
    type V = ParseErrorV;

    open spec fn view(&self) -> ParseErrorV {
        match self {
            ParseError::AbruptEnd => ParseErrorV::AbruptEnd,
            ParseError::Expected { expected, found, pos, production } => ParseErrorV::Expected {
                expected: expected@,
                found: *found,
                pos: *pos,
                production: *production,
            },
        }
    }
}

} // verus!
