//! Token cursor: a repositionable view over a token sequence, giving every
//! parser unit controlled lookahead, consumption, and one-step pushback.

use vstd::prelude::*;
use crate::parse_error::{ParseError, ParseErrorV, Production, TokenClass};
use crate::token::{Keyword, Punctuator, Token, TokenKind};

verus! {

/// First index at or after `pos` whose token is not a line terminator, or the
/// stream length if only line terminators remain.
pub open spec fn spec_skip_lt(toks: Seq<Token>, pos: int) -> int
    decreases toks.len() - pos,
{
    if pos >= toks.len() {
        toks.len() as int
    } else if toks[pos].kind == TokenKind::LineTerminator {
        spec_skip_lt(toks, pos + 1)
    } else {
        pos
    }
}

/// Basic bounds of `spec_skip_lt`: it never moves backwards and stops at the
/// first token that is not a line terminator.
pub proof fn lemma_skip_lt(toks: Seq<Token>, pos: int)
    requires
        0 <= pos <= toks.len(),
    ensures
        pos <= spec_skip_lt(toks, pos),
        spec_skip_lt(toks, pos) <= toks.len(),
        spec_skip_lt(toks, pos) < toks.len() ==> toks[spec_skip_lt(toks, pos)].kind
            != TokenKind::LineTerminator,
    decreases toks.len() - pos,
{
    if pos < toks.len() && toks[pos].kind == TokenKind::LineTerminator {
        lemma_skip_lt(toks, pos + 1);
    }
}

/// The description under which a token kind is reported in an `Expected`
/// failure raised by [`Cursor::expect`].
pub open spec fn spec_class_of(kind: TokenKind) -> TokenClass {
    match kind {
        TokenKind::Punctuator(p) => TokenClass::Punc(p),
        TokenKind::Keyword(kw) => TokenClass::Kw(kw),
        TokenKind::LineTerminator => TokenClass::LineTerminator,
        _ => TokenClass::Identifier,
    }
}

/// Outcome of [`Cursor::expect`], as a function of the token sequence: the
/// consumed token or the failure, and the position after the call.
pub open spec fn spec_expect(
    toks: Seq<Token>,
    pos: int,
    kind: TokenKind,
    production: Production,
) -> (Result<Token, ParseErrorV>, int) {
    let s = spec_skip_lt(toks, pos);
    if s >= toks.len() {
        (Err(ParseErrorV::AbruptEnd), toks.len() as int)
    } else if toks[s].kind == kind {
        (Ok(toks[s]), s + 1)
    } else {
        (
            Err(
                ParseErrorV::Expected {
                    expected: seq![spec_class_of(kind)],
                    found: toks[s].kind,
                    pos: toks[s].pos,
                    production,
                },
            ),
            s + 1,
        )
    }
}

/// A cursor over a token sequence: an index plus the sequence itself. Owned
/// exclusively by the parse invocation in progress.
pub struct Cursor {
    tokens: Vec<Token>,
    pos: usize,
}

impl Cursor {
    /// The token sequence under the cursor.
    pub closed spec fn toks(&self) -> Seq<Token> {
        self.tokens@
    }

    /// The current position.
    pub closed spec fn pos(&self) -> int {
        self.pos as int
    }

    /// The position never runs past the end of the token sequence.
    pub open spec fn wf(&self) -> bool {
        0 <= self.pos() <= self.toks().len()
    }

    /// Creates a cursor at the start of `tokens`.
    pub fn new(tokens: Vec<Token>) -> (r: Cursor)
        ensures
            r.toks() == tokens@,
            r.pos() == 0,
            r.wf(),
    {
        Cursor { tokens, pos: 0 }
    }

    /// Non-consuming lookahead at the current position.
    pub fn peek(&self) -> (r: Option<Token>)
        ensures
            self.pos() < self.toks().len() ==> r == Some(self.toks()[self.pos()]),
            self.pos() >= self.toks().len() ==> r is None,
    {
        if self.pos < self.tokens.len() {
            Some(self.tokens[self.pos])
        } else {
            None
        }
    }

    /// Consumes and returns the next token; the position does not move past
    /// the end of the stream.
    pub fn next(&mut self) -> (r: Option<Token>)
        ensures
            final(self).toks() == old(self).toks(),
            old(self).wf() ==> final(self).wf(),
            old(self).pos() < old(self).toks().len() ==> r == Some(
                old(self).toks()[old(self).pos()],
            ) && final(self).pos() == old(self).pos() + 1,
            old(self).pos() >= old(self).toks().len() ==> r is None && final(self).pos() == old(self).pos(),
    {
        if self.pos < self.tokens.len() {
            let t = self.tokens[self.pos];
            self.pos = self.pos + 1;
            Some(t)
        } else {
            None
        }
    }

    /// Pushes the last consumed token back, at most one step deep.
    pub fn back(&mut self)
        requires
            old(self).pos() >= 1,
        ensures
            old(self).wf() ==> final(self).wf(),
            final(self).toks() == old(self).toks(),
            final(self).pos() == old(self).pos() - 1,
    {
        self.pos = self.pos - 1;
    }

    /// Non-consuming lookahead that skips line terminators.
    pub fn peek_skip_lineterminator(&self) -> (r: Option<Token>)
        requires
            self.wf(),
        ensures
            ({
                let s = spec_skip_lt(self.toks(), self.pos());
                &&& s < self.toks().len() ==> r == Some(self.toks()[s])
                &&& s >= self.toks().len() ==> r is None
            }),
    {
        let mut i = self.pos;
        proof {
            lemma_skip_lt(self.toks(), self.pos());
        }
        while i < self.tokens.len() && matches!(self.tokens[i].kind, TokenKind::LineTerminator)
            invariant
                self.pos() <= i <= self.toks().len(),
                spec_skip_lt(self.toks(), self.pos()) == spec_skip_lt(self.toks(), i as int),
            decreases self.toks().len() - i,
        {
            i = i + 1;
        }
        if i < self.tokens.len() {
            Some(self.tokens[i])
        } else {
            None
        }
    }

    /// Consumes tokens up to and including the next one that is not a line
    /// terminator, and returns it; returns nothing if only line terminators
    /// remain, with the stream then exhausted.
    pub fn next_skip_lineterminator(&mut self) -> (r: Option<Token>)
        requires
            old(self).wf(),
        ensures
            final(self).toks() == old(self).toks(),
            final(self).wf(),
            ({
                let s = spec_skip_lt(old(self).toks(), old(self).pos());
                &&& s < old(self).toks().len() ==> r == Some(old(self).toks()[s]) && final(self).pos() == s + 1
                &&& s >= old(self).toks().len() ==> r is None && final(self).pos() == old(self).toks().len()
            }),
    {
        proof {
            lemma_skip_lt(self.toks(), self.pos());
        }
        while self.pos < self.tokens.len() && matches!(
            self.tokens[self.pos].kind,
            TokenKind::LineTerminator,
        )
            invariant
                self.toks() == old(self).toks(),
                old(self).pos() <= self.pos() <= self.toks().len(),
                spec_skip_lt(self.toks(), old(self).pos()) == spec_skip_lt(
                    self.toks(),
                    self.pos(),
                ),
            decreases self.toks().len() - self.pos(),
        {
            self.pos = self.pos + 1;
        }
        if self.pos < self.tokens.len() {
            let t = self.tokens[self.pos];
            self.pos = self.pos + 1;
            Some(t)
        } else {
            None
        }
    }

    /// Consumes through the next non-line-terminator token if it has the
    /// given kind; otherwise moves nothing.
    pub fn next_if_skip_lineterminator(&mut self, kind: TokenKind) -> (r: Option<Token>)
        requires
            old(self).wf(),
        ensures
            final(self).toks() == old(self).toks(),
            final(self).wf(),
            ({
                let s = spec_skip_lt(old(self).toks(), old(self).pos());
                if s < old(self).toks().len() && old(self).toks()[s].kind == kind {
                    r == Some(old(self).toks()[s]) && final(self).pos() == s + 1
                } else {
                    r is None && final(self).pos() == old(self).pos()
                }
            }),
    {
        match self.peek_skip_lineterminator() {
            Some(t) => {
                if t.kind == kind {
                    self.next_skip_lineterminator()
                } else {
                    None
                }
            },
            None => None,
        }
    }

    /// Consumes the next non-line-terminator token and requires it to have
    /// the given kind: the consume-or-fail operation of the grammar units.
    pub fn expect(&mut self, kind: TokenKind, production: Production) -> (r: Result<
        Token,
        ParseError,
    >)
        requires
            old(self).wf(),
        ensures
            final(self).toks() == old(self).toks(),
            final(self).wf(),
            ({
                let (res, p) = spec_expect(old(self).toks(), old(self).pos(), kind, production);
                &&& final(self).pos() == p
                &&& match (r, res) {
                    (Ok(t), Ok(t2)) => t == t2,
                    (Err(e), Err(e2)) => e@ == e2,
                    _ => false,
                }
            }),
    {
        match self.next_skip_lineterminator() {
            None => Err(ParseError::AbruptEnd),
            Some(t) => {
                if t.kind == kind {
                    Ok(t)
                } else {
                    let mut expected: Vec<TokenClass> = Vec::new();
                    expected.push(class_of(kind));
                    proof {
                        assert(expected@ =~= seq![spec_class_of(kind)]);
                    }
                    Err(
                        ParseError::Expected {
                            expected,
                            found: t.kind,
                            pos: t.pos,
                            production,
                        },
                    )
                }
            },
        }
    }
}

/// Executable counterpart of [`spec_class_of`].
pub fn class_of(kind: TokenKind) -> (r: TokenClass)
    ensures
        r == spec_class_of(kind),
{
    match kind {
        TokenKind::Punctuator(p) => TokenClass::Punc(p),
        TokenKind::Keyword(kw) => TokenClass::Kw(kw),
        TokenKind::LineTerminator => TokenClass::LineTerminator,
        _ => TokenClass::Identifier,
    }
}

} // verus!
