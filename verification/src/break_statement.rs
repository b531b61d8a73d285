//! Break statement parsing: `break` optionally followed by a label.
//!
//! After the `break` keyword the very next token decides, without skipping
//! line terminators first, since a line terminator is itself a valid
//! terminator here: a line terminator, semicolon or block-close yields an
//! unlabeled break node (and is pushed back for the caller to re-consume);
//! an identifier yields a labeled break node; anything else is rejected.

use vstd::prelude::*;
use crate::ast::{Node, NodeV};
use crate::cursor::{spec_expect, Cursor};
use crate::parse_error::{ParseError, ParseErrorV, Production, TokenClass};
use crate::token::{Keyword, Punctuator, Token, TokenKind};

verus! {

/// Outcome of parsing a break statement from `pos`: the node or the failure,
/// and the position after the parse.
pub open spec fn spec_parse_break(toks: Seq<Token>, pos: int) -> (Result<NodeV, ParseErrorV>, int) {
    let (r1, p1) = spec_expect(
        toks,
        pos,
        TokenKind::Keyword(Keyword::Break),
        Production::BreakStatement,
    );
    match r1 {
        Err(e) => (Err(e), p1),
        Ok(_) => {
            if p1 >= toks.len() {
                (Err(ParseErrorV::AbruptEnd), p1)
            } else {
                let t = toks[p1];
                if t.kind == TokenKind::LineTerminator || t.kind == TokenKind::Punctuator(
                    Punctuator::Semicolon,
                ) || t.kind == TokenKind::Punctuator(Punctuator::CloseBlock) {
                    (Ok(NodeV::Break(None)), p1)
                } else if t.kind is Identifier {
                    (Ok(NodeV::Break(Some(t.kind->Identifier_0))), p1 + 1)
                } else {
                    (
                        Err(
                            ParseErrorV::Expected {
                                expected: seq![
                                    TokenClass::Punc(Punctuator::Semicolon),
                                    TokenClass::Punc(Punctuator::CloseBlock),
                                    TokenClass::LineTerminator,
                                    TokenClass::Identifier,
                                ],
                                found: t.kind,
                                pos: t.pos,
                                production: Production::BreakStatement,
                            },
                        ),
                        p1 + 1,
                    )
                }
            }
        },
    }
}

/// Relates an executable parse result to its spec-level counterpart.
pub open spec fn res_matches(r: Result<Node, ParseError>, res: Result<NodeV, ParseErrorV>) -> bool {
    match (r, res) {
        (Ok(n), Ok(nv)) => n@ == nv,
        (Err(e), Err(ev)) => e@ == ev,
        _ => false,
    }
}

/// Break statement parser unit.
pub struct BreakStatement {
    /// Whether `yield` is currently permitted in the grammar context.
    pub allow_yield: bool,
    /// Whether `await` is currently permitted in the grammar context.
    pub allow_await: bool,
}

impl BreakStatement {
    /// Creates a new `BreakStatement` parser with the given grammar context:
    /// whether `yield` and `await` are currently permitted. The context is
    /// carried for the surrounding grammar's sake; this production does not
    /// consult it.
    pub fn new(allow_yield: bool, allow_await: bool) -> (r: Self)
        ensures
            r.allow_yield == allow_yield,
            r.allow_await == allow_await,
    {
        BreakStatement { allow_yield, allow_await }
    }

    /// Parses a break statement at the cursor's position.
    pub fn parse(self, cursor: &mut Cursor) -> (r: Result<Node, ParseError>)
        requires
            old(cursor).wf(),
        ensures
            final(cursor).toks() == old(cursor).toks(),
            final(cursor).wf(),
            ({
                let (res, p) = spec_parse_break(old(cursor).toks(), old(cursor).pos());
                &&& final(cursor).pos() == p
                &&& res_matches(r, res)
            }),
    {
        if let Err(e) = cursor.expect(
            TokenKind::Keyword(Keyword::Break),
            Production::BreakStatement,
        ) {
            return Err(e);
        }
        let tok = match cursor.next() {
            None => {
                return Err(ParseError::AbruptEnd);
            },
            Some(t) => t,
        };
        match tok.kind {
            TokenKind::LineTerminator
            | TokenKind::Punctuator(Punctuator::Semicolon)
            | TokenKind::Punctuator(Punctuator::CloseBlock) => {
                cursor.back();
                Ok(Node::Break(None))
            },
            TokenKind::Identifier(name) => Ok(Node::Break(Some(name))),
            _ => {
                let mut expected: Vec<TokenClass> = Vec::new();
                expected.push(TokenClass::Punc(Punctuator::Semicolon));
                expected.push(TokenClass::Punc(Punctuator::CloseBlock));
                expected.push(TokenClass::LineTerminator);
                expected.push(TokenClass::Identifier);
                proof {
                    assert(expected@ =~= seq![
                        TokenClass::Punc(Punctuator::Semicolon),
                        TokenClass::Punc(Punctuator::CloseBlock),
                        TokenClass::LineTerminator,
                        TokenClass::Identifier,
                    ]);
                }
                Err(
                    ParseError::Expected {
                        expected,
                        found: tok.kind,
                        pos: tok.pos,
                        production: Production::BreakStatement,
                    },
                )
            },
        }
    }
}

} // verus!
