//! Tokens, as handed over by the tokenizer: a kind plus a source position.
//! Identifier and string-literal text arrives already interned.

use vstd::prelude::*;
use vstd::string::StringSliceAdditionalSpecFns;
use vstd::string::StrSliceExecFns;
use crate::ast::Sym;

verus! {

/// A position in the source text.
#[derive(Clone, Copy, PartialEq, Eq, Structural, Debug)]
pub struct Position {
    pub line: usize,
    pub column: usize,
}

/// The keywords this core distinguishes.
#[derive(Clone, Copy, PartialEq, Eq, Structural, Debug)]
pub enum Keyword {
    Break,
    New,
    Return,
}

/// Punctuator tokens.
#[derive(Clone, Copy, PartialEq, Eq, Structural, Debug)]
pub enum Punctuator {
    OpenParen,
    CloseParen,
    OpenBracket,
    CloseBracket,
    OpenBlock,
    CloseBlock,
    Dot,
    Comma,
    Semicolon,
    Spread,
}

/// The kind of a token.
#[derive(Clone, Copy, PartialEq, Eq, Structural, Debug)]
pub enum TokenKind {
    Identifier(Sym),
    Keyword(Keyword),
    Punctuator(Punctuator),
    StringLiteral(Sym),
    NumericLiteral(i64),
    LineTerminator,
}

/// A token: kind and source position. Produced externally; immutable.
#[derive(Clone, Copy, PartialEq, Eq, Structural, Debug)]
pub struct Token {
    pub kind: TokenKind,
    pub pos: Position,
}

/// The text of a keyword, as UTF-8 bytes.
pub open spec fn spec_keyword_text(kw: Keyword) -> Seq<u8> {
    match kw {
        Keyword::Break => "break".spec_bytes(),
        Keyword::New => "new".spec_bytes(),
        Keyword::Return => "return".spec_bytes(),
    }
}

/// Returns the text of a keyword, for interning it where the grammar treats
/// a keyword as an identifier.
pub fn keyword_text(kw: Keyword) -> (r: Vec<u8>)
    ensures
        r@ == spec_keyword_text(kw),
{
    match kw {
        Keyword::Break => "break".as_bytes_vec(),
        Keyword::New => "new".as_bytes_vec(),
        Keyword::Return => "return".as_bytes_vec(),
    }
}

} // verus!
