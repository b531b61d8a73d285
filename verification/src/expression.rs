//! Expression parsing: the primary expressions this core supports (constant
//! literals, identifier references, array literals) and argument lists.
//!
//! Array literals: each comma-separated slot with no expression before the
//! next comma or close materializes one explicit undefined-constant element;
//! a comma immediately before the closing bracket contributes nothing.
//!
//! Argument lists: comma-separated expressions between parentheses, with a
//! trailing comma allowed and spread markers preserved as spread nodes.

use vstd::prelude::*;
use crate::ast::{lemma_nodes_view_push, nodes_view, Const, Node, NodeV};
use crate::break_statement::res_matches;
use crate::cursor::{lemma_skip_lt, spec_skip_lt, Cursor};
use crate::parse_error::{ParseError, ParseErrorV, Production, TokenClass};
use crate::token::{Punctuator, Token, TokenKind};

verus! {

/// Outcome of parsing one expression from `pos`.
pub open spec fn spec_parse_expression(toks: Seq<Token>, pos: int) -> (Result<NodeV, ParseErrorV>, int)
    decreases toks.len() - pos, 1int,
    when 0 <= pos <= toks.len()
    via spec_parse_expression_dec
{
    let s = spec_skip_lt(toks, pos);
    if s >= toks.len() {
        (Err(ParseErrorV::AbruptEnd), toks.len() as int)
    } else {
        let t = toks[s];
        match t.kind {
            TokenKind::NumericLiteral(n) => (Ok(NodeV::Const(Const::Num(n))), s + 1),
            TokenKind::StringLiteral(sym) => (Ok(NodeV::Const(Const::Str(sym))), s + 1),
            TokenKind::Identifier(sym) => (Ok(NodeV::Local(sym)), s + 1),
            TokenKind::Punctuator(Punctuator::OpenBracket) => spec_parse_array(toks, s),
            _ => (
                Err(
                    ParseErrorV::Expected {
                        expected: seq![TokenClass::Identifier],
                        found: t.kind,
                        pos: t.pos,
                        production: Production::Expression,
                    },
                ),
                s + 1,
            ),
        }
    }
}

#[via_fn]
proof fn spec_parse_expression_dec(toks: Seq<Token>, pos: int) {
    lemma_skip_lt(toks, pos);
}

/// Outcome of parsing an array literal (including its opening bracket)
/// from `pos`.
pub open spec fn spec_parse_array(toks: Seq<Token>, pos: int) -> (Result<NodeV, ParseErrorV>, int)
    decreases toks.len() - pos, 0int,
    when 0 <= pos <= toks.len()
    via spec_parse_array_dec
{
    let s = spec_skip_lt(toks, pos);
    if s >= toks.len() {
        (Err(ParseErrorV::AbruptEnd), toks.len() as int)
    } else if toks[s].kind == TokenKind::Punctuator(Punctuator::OpenBracket) {
        spec_parse_array_items(toks, s + 1, Seq::empty())
    } else {
        (
            Err(
                ParseErrorV::Expected {
                    expected: seq![TokenClass::Punc(Punctuator::OpenBracket)],
                    found: toks[s].kind,
                    pos: toks[s].pos,
                    production: Production::ArrayLiteral,
                },
            ),
            s + 1,
        )
    }
}

#[via_fn]
proof fn spec_parse_array_dec(toks: Seq<Token>, pos: int) {
    lemma_skip_lt(toks, pos);
}

/// One step of array-literal element parsing, after the opening bracket:
/// pending commas materialize undefined constants, a closing bracket ends
/// the literal, otherwise one element (possibly a spread) is parsed.
pub open spec fn spec_parse_array_items(
    toks: Seq<Token>,
    pos: int,
    acc: Seq<NodeV>,
) -> (Result<NodeV, ParseErrorV>, int)
    decreases toks.len() - pos, 2int,
    when 0 <= pos <= toks.len()
    via spec_parse_array_items_dec
{
    let s = spec_skip_lt(toks, pos);
    if s < toks.len() && toks[s].kind == TokenKind::Punctuator(Punctuator::Comma) {
        spec_parse_array_items(toks, s + 1, acc.push(NodeV::Const(Const::Undefined)))
    } else if s < toks.len() && toks[s].kind == TokenKind::Punctuator(Punctuator::CloseBracket) {
        (Ok(NodeV::ArrayDecl(acc)), s + 1)
    } else if pos >= toks.len() {
        (Err(ParseErrorV::AbruptEnd), pos)
    } else if s < toks.len() && toks[s].kind == TokenKind::Punctuator(Punctuator::Spread) {
        let (r1, p1) = spec_parse_expression(toks, s + 1);
        match r1 {
            Err(e) => (Err(e), p1),
            Ok(n) => {
                if s + 1 < p1 <= toks.len() {
                    spec_array_after_element(toks, p1, acc.push(NodeV::Spread(Box::new(n))))
                } else {
                    (Err(ParseErrorV::AbruptEnd), p1)
                }
            },
        }
    } else {
        let (r1, p1) = spec_parse_expression(toks, pos);
        match r1 {
            Err(e) => (Err(e), p1),
            Ok(n) => {
                if pos < p1 <= toks.len() {
                    spec_array_after_element(toks, p1, acc.push(n))
                } else {
                    (Err(ParseErrorV::AbruptEnd), p1)
                }
            },
        }
    }
}

#[via_fn]
proof fn spec_parse_array_items_dec(toks: Seq<Token>, pos: int, acc: Seq<NodeV>) {
    lemma_skip_lt(toks, pos);
}

/// After one array element: an element separator comma, if present, is
/// consumed, and element parsing continues.
pub open spec fn spec_array_after_element(
    toks: Seq<Token>,
    pos: int,
    acc: Seq<NodeV>,
) -> (Result<NodeV, ParseErrorV>, int)
    decreases toks.len() - pos, 3int,
    when 0 <= pos <= toks.len()
    via spec_array_after_element_dec
{
    let s = spec_skip_lt(toks, pos);
    if s < toks.len() && toks[s].kind == TokenKind::Punctuator(Punctuator::Comma) {
        spec_parse_array_items(toks, s + 1, acc)
    } else {
        spec_parse_array_items(toks, pos, acc)
    }
}

#[via_fn]
proof fn spec_array_after_element_dec(toks: Seq<Token>, pos: int, acc: Seq<NodeV>) {
    lemma_skip_lt(toks, pos);
}

/// One step of argument-list parsing, after the opening parenthesis: a
/// closing parenthesis ends the list; a separator comma (never first, and
/// possibly trailing) is consumed; otherwise one argument is parsed.
pub open spec fn spec_parse_arguments(
    toks: Seq<Token>,
    pos: int,
    acc: Seq<NodeV>,
) -> (Result<Seq<NodeV>, ParseErrorV>, int)
    decreases toks.len() - pos, 3int,
    when 0 <= pos <= toks.len()
    via spec_parse_arguments_dec
{
    let s = spec_skip_lt(toks, pos);
    if s >= toks.len() {
        (Err(ParseErrorV::AbruptEnd), toks.len() as int)
    } else if toks[s].kind == TokenKind::Punctuator(Punctuator::CloseParen) {
        (Ok(acc), s + 1)
    } else if toks[s].kind == TokenKind::Punctuator(Punctuator::Comma) {
        if acc.len() == 0 {
            (
                Err(
                    ParseErrorV::Expected {
                        expected: seq![TokenClass::Punc(Punctuator::CloseParen)],
                        found: toks[s].kind,
                        pos: toks[s].pos,
                        production: Production::ArgumentList,
                    },
                ),
                s + 1,
            )
        } else {
            let s2 = spec_skip_lt(toks, s + 1);
            if s2 < toks.len() && toks[s2].kind == TokenKind::Punctuator(Punctuator::CloseParen) {
                (Ok(acc), s2 + 1)
            } else {
                spec_args_element(toks, s + 1, acc)
            }
        }
    } else {
        if acc.len() > 0 {
            (
                Err(
                    ParseErrorV::Expected {
                        expected: seq![
                            TokenClass::Punc(Punctuator::Comma),
                            TokenClass::Punc(Punctuator::CloseParen),
                        ],
                        found: toks[s].kind,
                        pos: toks[s].pos,
                        production: Production::ArgumentList,
                    },
                ),
                s + 1,
            )
        } else {
            spec_args_element(toks, s, acc)
        }
    }
}

#[via_fn]
proof fn spec_parse_arguments_dec(toks: Seq<Token>, pos: int, acc: Seq<NodeV>) {
    lemma_skip_lt(toks, pos);
    if spec_skip_lt(toks, pos) < toks.len() {
        lemma_skip_lt(toks, spec_skip_lt(toks, pos) + 1);
    }
}

/// One argument: a spread element or a plain expression; then the list
/// continues.
pub open spec fn spec_args_element(
    toks: Seq<Token>,
    pos: int,
    acc: Seq<NodeV>,
) -> (Result<Seq<NodeV>, ParseErrorV>, int)
    decreases toks.len() - pos, 2int,
    when 0 <= pos <= toks.len()
    via spec_args_element_dec
{
    let s = spec_skip_lt(toks, pos);
    if s < toks.len() && toks[s].kind == TokenKind::Punctuator(Punctuator::Spread) {
        let (r1, p1) = spec_parse_expression(toks, s + 1);
        match r1 {
            Err(e) => (Err(e), p1),
            Ok(n) => {
                if s + 1 < p1 <= toks.len() {
                    spec_parse_arguments(toks, p1, acc.push(NodeV::Spread(Box::new(n))))
                } else {
                    (Err(ParseErrorV::AbruptEnd), p1)
                }
            },
        }
    } else {
        let (r1, p1) = spec_parse_expression(toks, pos);
        match r1 {
            Err(e) => (Err(e), p1),
            Ok(n) => {
                if pos < p1 <= toks.len() {
                    spec_parse_arguments(toks, p1, acc.push(n))
                } else {
                    (Err(ParseErrorV::AbruptEnd), p1)
                }
            },
        }
    }
}

#[via_fn]
proof fn spec_args_element_dec(toks: Seq<Token>, pos: int, acc: Seq<NodeV>) {
    lemma_skip_lt(toks, pos);
}

/// The parsers never move the position backwards nor past the end, and
/// consume at least one token on success.
pub proof fn lemma_expression_progress(toks: Seq<Token>, pos: int)
    requires
        0 <= pos <= toks.len(),
    ensures
        ({
            let (r, p) = spec_parse_expression(toks, pos);
            &&& pos <= p <= toks.len()
            &&& r is Ok ==> pos < p
        }),
    decreases toks.len() - pos, 1int,
{
    lemma_skip_lt(toks, pos);
    let s = spec_skip_lt(toks, pos);
    if s < toks.len() && toks[s].kind == TokenKind::Punctuator(Punctuator::OpenBracket) {
        lemma_array_progress(toks, s);
    }
}

/// Position bounds of [`spec_parse_array`], as in [`lemma_expression_progress`].
pub proof fn lemma_array_progress(toks: Seq<Token>, pos: int)
    requires
        0 <= pos <= toks.len(),
    ensures
        ({
            let (r, p) = spec_parse_array(toks, pos);
            &&& pos <= p <= toks.len()
            &&& r is Ok ==> pos < p
        }),
    decreases toks.len() - pos, 0int,
{
    lemma_skip_lt(toks, pos);
    let s = spec_skip_lt(toks, pos);
    if s < toks.len() && toks[s].kind == TokenKind::Punctuator(Punctuator::OpenBracket) {
        lemma_array_items_progress(toks, s + 1, Seq::empty());
    }
}

/// Position bounds of [`spec_parse_array_items`].
pub proof fn lemma_array_items_progress(toks: Seq<Token>, pos: int, acc: Seq<NodeV>)
    requires
        0 <= pos <= toks.len(),
    ensures
        ({
            let (r, p) = spec_parse_array_items(toks, pos, acc);
            pos <= p <= toks.len()
        }),
    decreases toks.len() - pos, 2int,
{
    lemma_skip_lt(toks, pos);
    let s = spec_skip_lt(toks, pos);
    if s < toks.len() && toks[s].kind == TokenKind::Punctuator(Punctuator::Comma) {
        lemma_array_items_progress(toks, s + 1, acc.push(NodeV::Const(Const::Undefined)));
    } else if s < toks.len() && toks[s].kind == TokenKind::Punctuator(Punctuator::CloseBracket) {
    } else if pos >= toks.len() {
    } else if s < toks.len() && toks[s].kind == TokenKind::Punctuator(Punctuator::Spread) {
        lemma_expression_progress(toks, s + 1);
        let (r1, p1) = spec_parse_expression(toks, s + 1);
        if r1 is Ok && s + 1 < p1 <= toks.len() {
            lemma_array_after_element_progress(
                toks,
                p1,
                acc.push(NodeV::Spread(Box::new(r1->Ok_0))),
            );
        }
    } else {
        lemma_expression_progress(toks, pos);
        let (r1, p1) = spec_parse_expression(toks, pos);
        if r1 is Ok && pos < p1 <= toks.len() {
            lemma_array_after_element_progress(toks, p1, acc.push(r1->Ok_0));
        }
    }
}

/// Position bounds of [`spec_array_after_element`].
pub proof fn lemma_array_after_element_progress(toks: Seq<Token>, pos: int, acc: Seq<NodeV>)
    requires
        0 <= pos <= toks.len(),
    ensures
        ({
            let (r, p) = spec_array_after_element(toks, pos, acc);
            pos <= p <= toks.len()
        }),
    decreases toks.len() - pos, 3int,
{
    lemma_skip_lt(toks, pos);
    let s = spec_skip_lt(toks, pos);
    if s < toks.len() && toks[s].kind == TokenKind::Punctuator(Punctuator::Comma) {
        lemma_array_items_progress(toks, s + 1, acc);
    } else {
        lemma_array_items_progress(toks, pos, acc);
    }
}

/// Position bounds of [`spec_parse_arguments`].
pub proof fn lemma_arguments_progress(toks: Seq<Token>, pos: int, acc: Seq<NodeV>)
    requires
        0 <= pos <= toks.len(),
    ensures
        ({
            let (r, p) = spec_parse_arguments(toks, pos, acc);
            &&& pos <= p <= toks.len()
            &&& r is Ok ==> pos < p
        }),
    decreases toks.len() - pos, 3int,
{
    lemma_skip_lt(toks, pos);
    let s = spec_skip_lt(toks, pos);
    if s >= toks.len() {
    } else if toks[s].kind == TokenKind::Punctuator(Punctuator::CloseParen) {
    } else if toks[s].kind == TokenKind::Punctuator(Punctuator::Comma) {
        if acc.len() > 0 {
            lemma_skip_lt(toks, s + 1);
            let s2 = spec_skip_lt(toks, s + 1);
            if !(s2 < toks.len() && toks[s2].kind == TokenKind::Punctuator(
                Punctuator::CloseParen,
            )) {
                lemma_args_element_progress(toks, s + 1, acc);
            }
        }
    } else {
        if acc.len() == 0 {
            lemma_args_element_progress(toks, s, acc);
        }
    }
}

/// Position bounds of [`spec_args_element`].
pub proof fn lemma_args_element_progress(toks: Seq<Token>, pos: int, acc: Seq<NodeV>)
    requires
        0 <= pos <= toks.len(),
    ensures
        ({
            let (r, p) = spec_args_element(toks, pos, acc);
            &&& pos <= p <= toks.len()
            &&& r is Ok ==> pos < p
        }),
    decreases toks.len() - pos, 2int,
{
    lemma_skip_lt(toks, pos);
    let s = spec_skip_lt(toks, pos);
    if s < toks.len() && toks[s].kind == TokenKind::Punctuator(Punctuator::Spread) {
        lemma_expression_progress(toks, s + 1);
        let (r1, p1) = spec_parse_expression(toks, s + 1);
        if r1 is Ok && s + 1 < p1 <= toks.len() {
            lemma_arguments_progress(toks, p1, acc.push(NodeV::Spread(Box::new(r1->Ok_0))));
        }
    } else {
        lemma_expression_progress(toks, pos);
        let (r1, p1) = spec_parse_expression(toks, pos);
        if r1 is Ok && pos < p1 <= toks.len() {
            lemma_arguments_progress(toks, p1, acc.push(r1->Ok_0));
        }
    }
}

/// Relates an executable argument-list result to its spec-level counterpart.
pub open spec fn args_res_matches(
    r: Result<Vec<Node>, ParseError>,
    res: Result<Seq<NodeV>, ParseErrorV>,
) -> bool {
    match (r, res) {
        (Ok(v), Ok(sv)) => nodes_view(v@) == sv,
        (Err(e), Err(ev)) => e@ == ev,
        _ => false,
    }
}

/// Parses one expression at the cursor's position.
pub fn parse_expression(cursor: &mut Cursor) -> (r: Result<Node, ParseError>)
    requires
        old(cursor).wf(),
    ensures
        final(cursor).toks() == old(cursor).toks(),
        final(cursor).wf(),
        ({
            let (res, p) = spec_parse_expression(old(cursor).toks(), old(cursor).pos());
            &&& final(cursor).pos() == p
            &&& res_matches(r, res)
        }),
    decreases old(cursor).toks().len() - old(cursor).pos(), 1int,
{
    proof {
        lemma_skip_lt(old(cursor).toks(), old(cursor).pos());
    }
    let tok = match cursor.next_skip_lineterminator() {
        None => {
            return Err(ParseError::AbruptEnd);
        },
        Some(t) => t,
    };
    match tok.kind {
        TokenKind::NumericLiteral(n) => Ok(Node::Const(Const::Num(n))),
        TokenKind::StringLiteral(sym) => Ok(Node::Const(Const::Str(sym))),
        TokenKind::Identifier(sym) => Ok(Node::Local(sym)),
        TokenKind::Punctuator(Punctuator::OpenBracket) => {
            cursor.back();
            parse_array(cursor)
        },
        _ => {
            let mut expected: Vec<TokenClass> = Vec::new();
            expected.push(TokenClass::Identifier);
            proof {
                assert(expected@ =~= seq![TokenClass::Identifier]);
            }
            Err(
                ParseError::Expected {
                    expected,
                    found: tok.kind,
                    pos: tok.pos,
                    production: Production::Expression,
                },
            )
        },
    }
}

/// Parses an array literal, including its opening bracket, at the cursor's
/// position.
pub fn parse_array(cursor: &mut Cursor) -> (r: Result<Node, ParseError>)
    requires
        old(cursor).wf(),
    ensures
        final(cursor).toks() == old(cursor).toks(),
        final(cursor).wf(),
        ({
            let (res, p) = spec_parse_array(old(cursor).toks(), old(cursor).pos());
            &&& final(cursor).pos() == p
            &&& res_matches(r, res)
        }),
    decreases old(cursor).toks().len() - old(cursor).pos(), 0int,
{
    proof {
        lemma_skip_lt(old(cursor).toks(), old(cursor).pos());
    }
    if let Err(e) = cursor.expect(
        TokenKind::Punctuator(Punctuator::OpenBracket),
        Production::ArrayLiteral,
    ) {
        return Err(e);
    }
    parse_array_items(cursor, Vec::new())
}

/// Parses array-literal elements after the opening bracket, extending
/// `elements`.
pub fn parse_array_items(cursor: &mut Cursor, elements: Vec<Node>) -> (r: Result<Node, ParseError>)
    requires
        old(cursor).wf(),
    ensures
        final(cursor).toks() == old(cursor).toks(),
        final(cursor).wf(),
        ({
            let (res, p) = spec_parse_array_items(
                old(cursor).toks(),
                old(cursor).pos(),
                nodes_view(elements@),
            );
            &&& final(cursor).pos() == p
            &&& res_matches(r, res)
        }),
    decreases old(cursor).toks().len() - old(cursor).pos(), 2int,
{
    let ghost toks = cursor.toks();
    let ghost pos0 = cursor.pos();
    proof {
        lemma_skip_lt(toks, pos0);
    }
    let mut elements = elements;
    if cursor.next_if_skip_lineterminator(TokenKind::Punctuator(Punctuator::Comma)).is_some() {
        proof {
            lemma_nodes_view_push(elements@, Node::Const(Const::Undefined));
        }
        elements.push(Node::Const(Const::Undefined));
        return parse_array_items(cursor, elements);
    }
    if cursor.next_if_skip_lineterminator(
        TokenKind::Punctuator(Punctuator::CloseBracket),
    ).is_some() {
        return Ok(Node::ArrayDecl(elements));
    }
    if cursor.peek().is_none() {
        return Err(ParseError::AbruptEnd);
    }
    if cursor.next_if_skip_lineterminator(TokenKind::Punctuator(Punctuator::Spread)).is_some() {
        let ghost p_inner = cursor.pos();
        let inner = match parse_expression(cursor) {
            Err(e) => {
                return Err(e);
            },
            Ok(n) => n,
        };
        proof {
            lemma_expression_progress(toks, p_inner);
            lemma_nodes_view_push(elements@, Node::Spread(Box::new(inner)));
        }
        elements.push(Node::Spread(Box::new(inner)));
        return parse_array_after_element(cursor, elements);
    }
    let n = match parse_expression(cursor) {
        Err(e) => {
            return Err(e);
        },
        Ok(n) => n,
    };
    proof {
        lemma_expression_progress(toks, pos0);
        lemma_nodes_view_push(elements@, n);
    }
    elements.push(n);
    parse_array_after_element(cursor, elements)
}

/// Consumes an element-separator comma, if present, and continues with the
/// remaining array-literal elements.
pub fn parse_array_after_element(cursor: &mut Cursor, elements: Vec<Node>) -> (r: Result<
    Node,
    ParseError,
>)
    requires
        old(cursor).wf(),
    ensures
        final(cursor).toks() == old(cursor).toks(),
        final(cursor).wf(),
        ({
            let (res, p) = spec_array_after_element(
                old(cursor).toks(),
                old(cursor).pos(),
                nodes_view(elements@),
            );
            &&& final(cursor).pos() == p
            &&& res_matches(r, res)
        }),
    decreases old(cursor).toks().len() - old(cursor).pos(), 3int,
{
    proof {
        lemma_skip_lt(old(cursor).toks(), old(cursor).pos());
    }
    let _ = cursor.next_if_skip_lineterminator(TokenKind::Punctuator(Punctuator::Comma));
    parse_array_items(cursor, elements)
}

/// Parses an argument list after the opening parenthesis, extending `args`.
pub fn parse_arguments_rec(cursor: &mut Cursor, args: Vec<Node>) -> (r: Result<
    Vec<Node>,
    ParseError,
>)
    requires
        old(cursor).wf(),
    ensures
        final(cursor).toks() == old(cursor).toks(),
        final(cursor).wf(),
        ({
            let (res, p) = spec_parse_arguments(
                old(cursor).toks(),
                old(cursor).pos(),
                nodes_view(args@),
            );
            &&& final(cursor).pos() == p
            &&& args_res_matches(r, res)
        }),
    decreases old(cursor).toks().len() - old(cursor).pos(), 3int,
{
    let ghost toks = cursor.toks();
    let ghost pos0 = cursor.pos();
    proof {
        lemma_skip_lt(toks, pos0);
    }
    let tok = match cursor.next_skip_lineterminator() {
        None => {
            return Err(ParseError::AbruptEnd);
        },
        Some(t) => t,
    };
    match tok.kind {
        TokenKind::Punctuator(Punctuator::CloseParen) => Ok(args),
        TokenKind::Punctuator(Punctuator::Comma) => {
            if args.len() == 0 {
                let mut expected: Vec<TokenClass> = Vec::new();
                expected.push(TokenClass::Punc(Punctuator::CloseParen));
                proof {
                    assert(expected@ =~= seq![TokenClass::Punc(Punctuator::CloseParen)]);
                    assert(nodes_view(args@).len() == 0) by {
                        crate::ast::lemma_nodes_view(args@);
                    }
                }
                return Err(
                    ParseError::Expected {
                        expected,
                        found: tok.kind,
                        pos: tok.pos,
                        production: Production::ArgumentList,
                    },
                );
            }
            proof {
                assert(nodes_view(args@).len() == args@.len()) by {
                    crate::ast::lemma_nodes_view(args@);
                }
            }
            if cursor.next_if_skip_lineterminator(
                TokenKind::Punctuator(Punctuator::CloseParen),
            ).is_some() {
                return Ok(args);
            }
            parse_args_element(cursor, args)
        },
        _ => {
            if args.len() > 0 {
                proof {
                    assert(nodes_view(args@).len() == args@.len()) by {
                        crate::ast::lemma_nodes_view(args@);
                    }
                }
                let mut expected: Vec<TokenClass> = Vec::new();
                expected.push(TokenClass::Punc(Punctuator::Comma));
                expected.push(TokenClass::Punc(Punctuator::CloseParen));
                proof {
                    assert(expected@ =~= seq![
                        TokenClass::Punc(Punctuator::Comma),
                        TokenClass::Punc(Punctuator::CloseParen),
                    ]);
                }
                return Err(
                    ParseError::Expected {
                        expected,
                        found: tok.kind,
                        pos: tok.pos,
                        production: Production::ArgumentList,
                    },
                );
            }
            proof {
                assert(nodes_view(args@).len() == args@.len()) by {
                    crate::ast::lemma_nodes_view(args@);
                }
            }
            cursor.back();
            parse_args_element(cursor, args)
        },
    }
}

/// Parses one argument (a spread element or a plain expression) and then the
/// rest of the argument list.
pub fn parse_args_element(cursor: &mut Cursor, args: Vec<Node>) -> (r: Result<
    Vec<Node>,
    ParseError,
>)
    requires
        old(cursor).wf(),
    ensures
        final(cursor).toks() == old(cursor).toks(),
        final(cursor).wf(),
        ({
            let (res, p) = spec_args_element(
                old(cursor).toks(),
                old(cursor).pos(),
                nodes_view(args@),
            );
            &&& final(cursor).pos() == p
            &&& args_res_matches(r, res)
        }),
    decreases old(cursor).toks().len() - old(cursor).pos(), 2int,
{
    let ghost toks = cursor.toks();
    let ghost pos0 = cursor.pos();
    proof {
        lemma_skip_lt(toks, pos0);
    }
    let mut args = args;
    if cursor.next_if_skip_lineterminator(TokenKind::Punctuator(Punctuator::Spread)).is_some() {
        let ghost p_inner = cursor.pos();
        match parse_expression(cursor) {
            Err(e) => Err(e),
            Ok(n) => {
                proof {
                    lemma_expression_progress(toks, p_inner);
                    lemma_nodes_view_push(args@, Node::Spread(Box::new(n)));
                }
                args.push(Node::Spread(Box::new(n)));
                parse_arguments_rec(cursor, args)
            },
        }
    } else {
        match parse_expression(cursor) {
            Err(e) => Err(e),
            Ok(n) => {
                proof {
                    lemma_expression_progress(toks, pos0);
                    lemma_nodes_view_push(args@, n);
                }
                args.push(n);
                parse_arguments_rec(cursor, args)
            },
        }
    }
}

/// Expression parser unit.
pub struct Expression {
    allow_yield: bool,
    allow_await: bool,
}

impl Expression {
    /// Creates a new `Expression` parser with the given grammar context:
    /// whether `yield` and `await` are currently permitted. The context is
    /// carried for the surrounding grammar's sake; the productions of this
    /// core do not consult it.
    pub fn new(allow_yield: bool, allow_await: bool) -> Self {
        Expression { allow_yield, allow_await }
    }

    /// Parses one expression at the cursor's position.
    pub fn parse(self, cursor: &mut Cursor) -> (r: Result<Node, ParseError>)
        requires
            old(cursor).wf(),
        ensures
            final(cursor).toks() == old(cursor).toks(),
            final(cursor).wf(),
            ({
                let (res, p) = spec_parse_expression(old(cursor).toks(), old(cursor).pos());
                &&& final(cursor).pos() == p
                &&& res_matches(r, res)
            }),
    {
        parse_expression(cursor)
    }
}

/// Argument-list parser unit, entered after the opening parenthesis has been
/// consumed.
pub struct Arguments {
    allow_yield: bool,
    allow_await: bool,
}

impl Arguments {
    /// Creates a new `Arguments` parser with the given grammar context.
    pub fn new(allow_yield: bool, allow_await: bool) -> Self {
        Arguments { allow_yield, allow_await }
    }

    /// Parses the argument list at the cursor's position, up to and
    /// including the closing parenthesis.
    pub fn parse(self, cursor: &mut Cursor) -> (r: Result<Vec<Node>, ParseError>)
        requires
            old(cursor).wf(),
        ensures
            final(cursor).toks() == old(cursor).toks(),
            final(cursor).wf(),
            ({
                let (res, p) = spec_parse_arguments(
                    old(cursor).toks(),
                    old(cursor).pos(),
                    Seq::empty(),
                );
                &&& final(cursor).pos() == p
                &&& args_res_matches(r, res)
            }),
    {
        parse_arguments_rec(cursor, Vec::new())
    }
}

} // verus!
