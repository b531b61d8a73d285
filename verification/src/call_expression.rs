//! Call-expression continuation: given an already-parsed left-hand-side
//! expression, repeatedly extends it while the next token (skipping line
//! terminators) opens an argument list, a dot member access, or a computed
//! member access, and stops on any other token.

use vstd::prelude::*;
use crate::ast::{Node, NodeV};
use crate::break_statement::res_matches;
use crate::cursor::{lemma_skip_lt, spec_expect, spec_skip_lt, Cursor};
use crate::expression::{
    lemma_arguments_progress, lemma_expression_progress, parse_arguments_rec, parse_expression,
    spec_parse_arguments, spec_parse_expression,
};
use crate::interner::{spec_intern_sym, spec_intern_table, Interner};
use crate::parse_error::{ParseError, ParseErrorV, Production, TokenClass};
use crate::token::{keyword_text, spec_keyword_text, Punctuator, Token, TokenKind};

verus! {

/// Continuation of a call expression from `pos`, extending `lhs`: the final
/// node or the failure, the position after the parse, and the interning
/// table after it (a keyword after a dot is interned as a field name).
pub open spec fn spec_parse_call_tail(
    toks: Seq<Token>,
    pos: int,
    lhs: NodeV,
    tbl: Seq<Seq<u8>>,
) -> (Result<NodeV, ParseErrorV>, int, Seq<Seq<u8>>)
    decreases toks.len() - pos, 4int,
    when 0 <= pos <= toks.len()
    via spec_parse_call_tail_dec
{
    let s = spec_skip_lt(toks, pos);
    if s >= toks.len() {
        (Ok(lhs), pos, tbl)
    } else if toks[s].kind == TokenKind::Punctuator(Punctuator::OpenParen) {
        let (r1, p1) = spec_parse_arguments(toks, s + 1, Seq::empty());
        match r1 {
            Err(e) => (Err(e), p1, tbl),
            Ok(args) => {
                if s + 1 < p1 <= toks.len() {
                    spec_parse_call_tail(toks, p1, NodeV::Call(Box::new(lhs), args), tbl)
                } else {
                    (Err(ParseErrorV::AbruptEnd), p1, tbl)
                }
            },
        }
    } else if toks[s].kind == TokenKind::Punctuator(Punctuator::Dot) {
        let s2 = spec_skip_lt(toks, s + 1);
        if s2 >= toks.len() {
            (Err(ParseErrorV::AbruptEnd), toks.len() as int, tbl)
        } else if toks[s2].kind is Identifier {
            spec_parse_call_tail(
                toks,
                s2 + 1,
                NodeV::GetConstField(Box::new(lhs), toks[s2].kind->Identifier_0),
                tbl,
            )
        } else if toks[s2].kind is Keyword {
            let text = spec_keyword_text(toks[s2].kind->Keyword_0);
            spec_parse_call_tail(
                toks,
                s2 + 1,
                NodeV::GetConstField(Box::new(lhs), spec_intern_sym(tbl, text) as usize),
                spec_intern_table(tbl, text),
            )
        } else {
            (
                Err(
                    ParseErrorV::Expected {
                        expected: seq![TokenClass::Identifier],
                        found: toks[s2].kind,
                        pos: toks[s2].pos,
                        production: Production::CallExpression,
                    },
                ),
                s2 + 1,
                tbl,
            )
        }
    } else if toks[s].kind == TokenKind::Punctuator(Punctuator::OpenBracket) {
        let (r1, p1) = spec_parse_expression(toks, s + 1);
        match r1 {
            Err(e) => (Err(e), p1, tbl),
            Ok(idx) => {
                if s + 1 < p1 <= toks.len() {
                    let (r2, p2) = spec_expect(
                        toks,
                        p1,
                        TokenKind::Punctuator(Punctuator::CloseBracket),
                        Production::CallExpression,
                    );
                    match r2 {
                        Err(e) => (Err(e), p2, tbl),
                        Ok(_) => {
                            if p1 < p2 <= toks.len() {
                                spec_parse_call_tail(
                                    toks,
                                    p2,
                                    NodeV::GetField(Box::new(lhs), Box::new(idx)),
                                    tbl,
                                )
                            } else {
                                (Err(ParseErrorV::AbruptEnd), p2, tbl)
                            }
                        },
                    }
                } else {
                    (Err(ParseErrorV::AbruptEnd), p1, tbl)
                }
            },
        }
    } else {
        (Ok(lhs), pos, tbl)
    }
}

#[via_fn]
proof fn spec_parse_call_tail_dec(toks: Seq<Token>, pos: int, lhs: NodeV, tbl: Seq<Seq<u8>>) {
    lemma_skip_lt(toks, pos);
    if spec_skip_lt(toks, pos) < toks.len() {
        lemma_skip_lt(toks, spec_skip_lt(toks, pos) + 1);
    }
}

/// Outcome of the whole call-expression production from `pos`: the first
/// continuation must be an argument list over the already-parsed member
/// expression; further continuations follow [`spec_parse_call_tail`].
pub open spec fn spec_parse_call(
    toks: Seq<Token>,
    pos: int,
    first: NodeV,
    tbl: Seq<Seq<u8>>,
) -> (Result<NodeV, ParseErrorV>, int, Seq<Seq<u8>>)
    decreases toks.len() - pos, 5int,
    when 0 <= pos <= toks.len()
    via spec_parse_call_dec
{
    let s = spec_skip_lt(toks, pos);
    if s < toks.len() && toks[s].kind == TokenKind::Punctuator(Punctuator::OpenParen) {
        let (r1, p1) = spec_parse_arguments(toks, s + 1, Seq::empty());
        match r1 {
            Err(e) => (Err(e), p1, tbl),
            Ok(args) => {
                if s + 1 < p1 <= toks.len() {
                    spec_parse_call_tail(toks, p1, NodeV::Call(Box::new(first), args), tbl)
                } else {
                    (Err(ParseErrorV::AbruptEnd), p1, tbl)
                }
            },
        }
    } else if s >= toks.len() {
        (Err(ParseErrorV::AbruptEnd), toks.len() as int, tbl)
    } else {
        (
            Err(
                ParseErrorV::Expected {
                    expected: seq![TokenClass::Punc(Punctuator::OpenParen)],
                    found: toks[s].kind,
                    pos: toks[s].pos,
                    production: Production::CallExpression,
                },
            ),
            s + 1,
            tbl,
        )
    }
}

#[via_fn]
proof fn spec_parse_call_dec(toks: Seq<Token>, pos: int, first: NodeV, tbl: Seq<Seq<u8>>) {
    lemma_skip_lt(toks, pos);
}

/// Extends `lhs` with call, dot-member and computed-member continuations at
/// the cursor's position.
fn parse_call_tail(cursor: &mut Cursor, interner: &mut Interner, lhs: Node) -> (r: Result<
    Node,
    ParseError,
>)
    requires
        old(cursor).wf(),
    ensures
        final(cursor).toks() == old(cursor).toks(),
        final(cursor).wf(),
        ({
            let (res, p, tbl) = spec_parse_call_tail(
                old(cursor).toks(),
                old(cursor).pos(),
                lhs@,
                old(interner)@,
            );
            &&& final(cursor).pos() == p
            &&& final(interner)@ == tbl
            &&& res_matches(r, res)
        }),
    decreases old(cursor).toks().len() - old(cursor).pos(), 4int,
{
    let ghost toks = cursor.toks();
    let ghost pos0 = cursor.pos();
    proof {
        lemma_skip_lt(toks, pos0);
    }
    let tok = match cursor.peek_skip_lineterminator() {
        None => {
            return Ok(lhs);
        },
        Some(t) => t,
    };
    match tok.kind {
        TokenKind::Punctuator(Punctuator::OpenParen) => {
            let _ = cursor.next_skip_lineterminator();
            let ghost p_args = cursor.pos();
            let args = match parse_arguments_rec(cursor, Vec::new()) {
                Err(e) => {
                    return Err(e);
                },
                Ok(a) => a,
            };
            proof {
                lemma_arguments_progress(toks, p_args, Seq::empty());
            }
            parse_call_tail(cursor, interner, Node::Call(Box::new(lhs), args))
        },
        TokenKind::Punctuator(Punctuator::Dot) => {
            let _ = cursor.next_skip_lineterminator();
            proof {
                lemma_skip_lt(toks, cursor.pos());
            }
            let field_tok = match cursor.next_skip_lineterminator() {
                None => {
                    return Err(ParseError::AbruptEnd);
                },
                Some(t) => t,
            };
            match field_tok.kind {
                TokenKind::Identifier(name) => {
                    parse_call_tail(cursor, interner, Node::GetConstField(Box::new(lhs), name))
                },
                TokenKind::Keyword(kw) => {
                    let text = keyword_text(kw);
                    let sym = interner.get_or_intern(&text);
                    parse_call_tail(cursor, interner, Node::GetConstField(Box::new(lhs), sym))
                },
                _ => {
                    let mut expected: Vec<TokenClass> = Vec::new();
                    expected.push(TokenClass::Identifier);
                    proof {
                        assert(expected@ =~= seq![TokenClass::Identifier]);
                    }
                    Err(
                        ParseError::Expected {
                            expected,
                            found: field_tok.kind,
                            pos: field_tok.pos,
                            production: Production::CallExpression,
                        },
                    )
                },
            }
        },
        TokenKind::Punctuator(Punctuator::OpenBracket) => {
            let _ = cursor.next_skip_lineterminator();
            let ghost p_idx = cursor.pos();
            let idx = match parse_expression(cursor) {
                Err(e) => {
                    return Err(e);
                },
                Ok(n) => n,
            };
            proof {
                lemma_expression_progress(toks, p_idx);
            }
            let ghost p_close = cursor.pos();
            if let Err(e) = cursor.expect(
                TokenKind::Punctuator(Punctuator::CloseBracket),
                Production::CallExpression,
            ) {
                return Err(e);
            }
            proof {
                lemma_skip_lt(toks, p_close);
            }
            parse_call_tail(cursor, interner, Node::GetField(Box::new(lhs), Box::new(idx)))
        },
        _ => Ok(lhs),
    }
}

/// Call expression parser unit: continues an already-parsed member
/// expression with argument lists and member accesses.
pub struct CallExpression {
    /// Whether `yield` is currently permitted in the grammar context.
    pub allow_yield: bool,
    /// Whether `await` is currently permitted in the grammar context.
    pub allow_await: bool,
    /// The already-parsed left-hand-side expression this unit extends.
    pub first_member_expr: Node,
}

impl CallExpression {
    /// Creates a new `CallExpression` parser over the given left-hand-side
    /// member expression, with the given grammar context: whether `yield`
    /// and `await` are currently permitted. The context is carried for the
    /// surrounding grammar's sake; this production does not consult it.
    pub fn new(allow_yield: bool, allow_await: bool, first_member_expr: Node) -> (r: Self)
        ensures
            r.allow_yield == allow_yield,
            r.allow_await == allow_await,
            r.first_member_expr == first_member_expr,
    {
        CallExpression { allow_yield, allow_await, first_member_expr }
    }

    /// Parses the call expression at the cursor's position: first an
    /// argument list over the member expression, then any further
    /// continuations.
    pub fn parse(self, cursor: &mut Cursor, interner: &mut Interner) -> (r: Result<
        Node,
        ParseError,
    >)
        requires
            old(cursor).wf(),
        ensures
            final(cursor).toks() == old(cursor).toks(),
            final(cursor).wf(),
            ({
                let (res, p, tbl) = spec_parse_call(
                    old(cursor).toks(),
                    old(cursor).pos(),
                    self.first_member_expr@,
                    old(interner)@,
                );
                &&& final(cursor).pos() == p
                &&& final(interner)@ == tbl
                &&& res_matches(r, res)
            }),
    {
        let ghost toks = cursor.toks();
        let ghost pos0 = cursor.pos();
        proof {
            lemma_skip_lt(toks, pos0);
        }
        if cursor.next_if_skip_lineterminator(
            TokenKind::Punctuator(Punctuator::OpenParen),
        ).is_some() {
            let ghost p_args = cursor.pos();
            let args = match parse_arguments_rec(cursor, Vec::new()) {
                Err(e) => {
                    return Err(e);
                },
                Ok(a) => a,
            };
            proof {
                lemma_arguments_progress(toks, p_args, Seq::empty());
            }
            parse_call_tail(
                cursor,
                interner,
                Node::Call(Box::new(self.first_member_expr), args),
            )
        } else {
            let next_token = match cursor.next_skip_lineterminator() {
                None => {
                    return Err(ParseError::AbruptEnd);
                },
                Some(t) => t,
            };
            let mut expected: Vec<TokenClass> = Vec::new();
            expected.push(TokenClass::Punc(Punctuator::OpenParen));
            proof {
                assert(expected@ =~= seq![TokenClass::Punc(Punctuator::OpenParen)]);
            }
            Err(
                ParseError::Expected {
                    expected,
                    found: next_token.kind,
                    pos: next_token.pos,
                    production: Production::CallExpression,
                },
            )
        }
    }
}

} // verus!
