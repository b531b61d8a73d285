use boa::ast::{Const, Node};
use boa::break_statement::BreakStatement;
use boa::call_expression::CallExpression;
use boa::cursor::Cursor;
use boa::expression::Expression;
use boa::interner::Interner;
use boa::parse_error::{ParseError, Production, TokenClass};
use boa::token::{Keyword, Position, Punctuator, Token, TokenKind};

fn punc(p: Punctuator, pos: Position) -> Token {
    Token { kind: TokenKind::Punctuator(p), pos }
}

/// A minimal tokenizer for the test sources; the real lexer is an external
/// collaborator of the library.
fn tokenize(src: &str, interner: &mut Interner) -> Vec<Token> {
    let bytes = src.as_bytes();
    let mut toks = Vec::new();
    let mut i = 0usize;
    let mut line = 1usize;
    let mut col = 1usize;
    while i < bytes.len() {
        let pos = Position { line, column: col };
        let b = bytes[i];
        match b {
            b' ' | b'\t' => {
                i += 1;
                col += 1;
            }
            b'\n' => {
                toks.push(Token {
                    kind: TokenKind::LineTerminator,
                    pos,
                });
                i += 1;
                line += 1;
                col = 1;
            }
            b'[' => {
                toks.push(punc(Punctuator::OpenBracket, pos));
                i += 1;
                col += 1;
            }
            b']' => {
                toks.push(punc(Punctuator::CloseBracket, pos));
                i += 1;
                col += 1;
            }
            b'(' => {
                toks.push(punc(Punctuator::OpenParen, pos));
                i += 1;
                col += 1;
            }
            b')' => {
                toks.push(punc(Punctuator::CloseParen, pos));
                i += 1;
                col += 1;
            }
            b'{' => {
                toks.push(punc(Punctuator::OpenBlock, pos));
                i += 1;
                col += 1;
            }
            b'}' => {
                toks.push(punc(Punctuator::CloseBlock, pos));
                i += 1;
                col += 1;
            }
            b',' => {
                toks.push(punc(Punctuator::Comma, pos));
                i += 1;
                col += 1;
            }
            b';' => {
                toks.push(punc(Punctuator::Semicolon, pos));
                i += 1;
                col += 1;
            }
            b'.' => {
                if bytes[i..].starts_with(b"...") {
                    toks.push(punc(Punctuator::Spread, pos));
                    i += 3;
                    col += 3;
                } else {
                    toks.push(punc(Punctuator::Dot, pos));
                    i += 1;
                    col += 1;
                }
            }
            b'"' => {
                let start = i + 1;
                let mut j = start;
                while j < bytes.len() && bytes[j] != b'"' {
                    j += 1;
                }
                let text: Vec<u8> = bytes[start..j].to_vec();
                let sym = interner.get_or_intern(&text);
                toks.push(Token {
                    kind: TokenKind::StringLiteral(sym),
                    pos,
                });
                col += j + 1 - i + 1;
                i = j + 1;
            }
            b'0'..=b'9' => {
                let start = i;
                let mut j = i;
                while j < bytes.len() && bytes[j].is_ascii_digit() {
                    j += 1;
                }
                let n: i64 = src[start..j].parse().unwrap();
                toks.push(Token {
                    kind: TokenKind::NumericLiteral(n),
                    pos,
                });
                col += j - start;
                i = j;
            }
            _ => {
                assert!(b.is_ascii_alphabetic() || b == b'_' || b == b'$');
                let start = i;
                let mut j = i;
                while j < bytes.len()
                    && (bytes[j].is_ascii_alphanumeric() || bytes[j] == b'_' || bytes[j] == b'$')
                {
                    j += 1;
                }
                let word = &src[start..j];
                let kind = match word {
                    "break" => TokenKind::Keyword(Keyword::Break),
                    "new" => TokenKind::Keyword(Keyword::New),
                    "return" => TokenKind::Keyword(Keyword::Return),
                    _ => {
                        let text: Vec<u8> = word.as_bytes().to_vec();
                        TokenKind::Identifier(interner.get_or_intern(&text))
                    }
                };
                toks.push(Token { kind, pos });
                col += j - start;
                i = j;
            }
        }
    }
    toks
}

fn check_parser(src: &str, expected: &[Node], mut interner: Interner) {
    let toks = tokenize(src, &mut interner);
    let mut cursor = Cursor::new(toks);
    let node = Expression::new(false, false)
        .parse(&mut cursor)
        .expect("parse failed");
    assert_eq!(&[node][..], expected);
}

fn intern(interner: &mut Interner, text: &str) -> usize {
    interner.get_or_intern(&text.as_bytes().to_vec())
}

#[test]
fn check_empty() {
    check_parser("[]", &[Node::ArrayDecl(Vec::new())], Interner::new());
}

#[test]
fn check_empty_slot() {
    check_parser(
        "[,]",
        &[Node::ArrayDecl(vec![Node::Const(Const::Undefined)])],
        Interner::new(),
    );
}

#[test]
fn check_numeric_array() {
    check_parser(
        "[1, 2, 3]",
        &[Node::ArrayDecl(vec![
            Node::Const(Const::Num(1)),
            Node::Const(Const::Num(2)),
            Node::Const(Const::Num(3)),
        ])],
        Interner::new(),
    );
}

#[test]
fn check_numeric_array_trailing() {
    check_parser(
        "[1, 2, 3,]",
        &[Node::ArrayDecl(vec![
            Node::Const(Const::Num(1)),
            Node::Const(Const::Num(2)),
            Node::Const(Const::Num(3)),
        ])],
        Interner::new(),
    );
}

#[test]
fn check_numeric_array_elision() {
    check_parser(
        "[1, 2, , 3]",
        &[Node::ArrayDecl(vec![
            Node::Const(Const::Num(1)),
            Node::Const(Const::Num(2)),
            Node::Const(Const::Undefined),
            Node::Const(Const::Num(3)),
        ])],
        Interner::new(),
    );
}

#[test]
fn check_numeric_array_repeated_elision() {
    check_parser(
        "[1, 2, ,, 3]",
        &[Node::ArrayDecl(vec![
            Node::Const(Const::Num(1)),
            Node::Const(Const::Num(2)),
            Node::Const(Const::Undefined),
            Node::Const(Const::Undefined),
            Node::Const(Const::Num(3)),
        ])],
        Interner::new(),
    );
}

#[test]
fn check_combined() {
    let mut int = Interner::new();
    let a = intern(&mut int, "a");
    check_parser(
        "[1, \"a\", 2]",
        &[Node::ArrayDecl(vec![
            Node::Const(Const::Num(1)),
            Node::Const(Const::Str(a)),
            Node::Const(Const::Num(2)),
        ])],
        int,
    );
}

#[test]
fn check_combined_empty_str() {
    let mut int = Interner::new();
    let s = intern(&mut int, "");
    check_parser(
        "[1, \"\", 2]",
        &[Node::ArrayDecl(vec![
            Node::Const(Const::Num(1)),
            Node::Const(Const::Str(s)),
            Node::Const(Const::Num(2)),
        ])],
        int,
    );
}

#[test]
fn break_unlabeled() {
    let mut int = Interner::new();
    let toks = tokenize("break;", &mut int);
    let mut cursor = Cursor::new(toks);
    let node = BreakStatement::new(false, false).parse(&mut cursor).unwrap();
    assert_eq!(node, Node::Break(None));
}

#[test]
fn break_labeled() {
    let mut int = Interner::new();
    let toks = tokenize("break label;", &mut int);
    let mut cursor = Cursor::new(toks);
    let node = BreakStatement::new(false, false).parse(&mut cursor).unwrap();
    let label = intern(&mut int, "label");
    assert_eq!(node, Node::Break(Some(label)));
}

#[test]
fn break_line_terminator() {
    let mut int = Interner::new();
    let toks = tokenize("break\n", &mut int);
    let mut cursor = Cursor::new(toks);
    let node = BreakStatement::new(false, false).parse(&mut cursor).unwrap();
    assert_eq!(node, Node::Break(None));
}

#[test]
fn break_bad_token() {
    let mut int = Interner::new();
    let toks = tokenize("break 5;", &mut int);
    let mut cursor = Cursor::new(toks);
    let err = BreakStatement::new(false, false)
        .parse(&mut cursor)
        .unwrap_err();
    match err {
        ParseError::Expected {
            expected,
            found,
            production,
            ..
        } => {
            assert_eq!(
                expected,
                vec![
                    TokenClass::Punc(Punctuator::Semicolon),
                    TokenClass::Punc(Punctuator::CloseBlock),
                    TokenClass::LineTerminator,
                    TokenClass::Identifier,
                ]
            );
            assert_eq!(found, TokenKind::NumericLiteral(5));
            assert_eq!(production, Production::BreakStatement);
        }
        other => panic!("unexpected error: {:?}", other),
    }
}

#[test]
fn call_basic_arguments() {
    let mut int = Interner::new();
    let f = intern(&mut int, "f");
    let toks = tokenize("(1, 2)", &mut int);
    let mut cursor = Cursor::new(toks);
    let node = CallExpression::new(false, false, Node::Local(f))
        .parse(&mut cursor, &mut int)
        .unwrap();
    assert_eq!(
        node,
        Node::Call(
            Box::new(Node::Local(f)),
            vec![Node::Const(Const::Num(1)), Node::Const(Const::Num(2))]
        )
    );
}

#[test]
fn call_trailing_comma() {
    let mut int = Interner::new();
    let f = intern(&mut int, "f");
    let toks = tokenize("(1, 2,)", &mut int);
    let mut cursor = Cursor::new(toks);
    let node = CallExpression::new(false, false, Node::Local(f))
        .parse(&mut cursor, &mut int)
        .unwrap();
    assert_eq!(
        node,
        Node::Call(
            Box::new(Node::Local(f)),
            vec![Node::Const(Const::Num(1)), Node::Const(Const::Num(2))]
        )
    );
}

#[test]
fn call_spread_argument_kept_in_tree() {
    let mut int = Interner::new();
    let f = intern(&mut int, "f");
    let toks = tokenize("(...arr, 1)", &mut int);
    let arr = intern(&mut int, "arr");
    let mut cursor = Cursor::new(toks);
    let node = CallExpression::new(false, false, Node::Local(f))
        .parse(&mut cursor, &mut int)
        .unwrap();
    assert_eq!(
        node,
        Node::Call(
            Box::new(Node::Local(f)),
            vec![
                Node::Spread(Box::new(Node::Local(arr))),
                Node::Const(Const::Num(1))
            ]
        )
    );
}

#[test]
fn call_member_continuations() {
    let mut int = Interner::new();
    let f = intern(&mut int, "f");
    let toks = tokenize("().b()[1]", &mut int);
    let b = intern(&mut int, "b");
    let mut cursor = Cursor::new(toks);
    let node = CallExpression::new(false, false, Node::Local(f))
        .parse(&mut cursor, &mut int)
        .unwrap();
    assert_eq!(
        node,
        Node::GetField(
            Box::new(Node::Call(
                Box::new(Node::GetConstField(
                    Box::new(Node::Call(Box::new(Node::Local(f)), vec![])),
                    b
                )),
                vec![]
            )),
            Box::new(Node::Const(Const::Num(1)))
        )
    );
}

#[test]
fn call_keyword_as_field_is_interned() {
    let mut int = Interner::new();
    let f = intern(&mut int, "f");
    let toks = tokenize("().new", &mut int);
    let mut cursor = Cursor::new(toks);
    let node = CallExpression::new(false, false, Node::Local(f))
        .parse(&mut cursor, &mut int)
        .unwrap();
    let new_sym = intern(&mut int, "new");
    assert_eq!(
        node,
        Node::GetConstField(
            Box::new(Node::Call(Box::new(Node::Local(f)), vec![])),
            new_sym
        )
    );
}

#[test]
fn call_missing_open_paren() {
    let mut int = Interner::new();
    let f = intern(&mut int, "f");
    let toks = tokenize("]", &mut int);
    let mut cursor = Cursor::new(toks);
    let err = CallExpression::new(false, false, Node::Local(f))
        .parse(&mut cursor, &mut int)
        .unwrap_err();
    match err {
        ParseError::Expected {
            expected,
            found,
            production,
            ..
        } => {
            assert_eq!(expected, vec![TokenClass::Punc(Punctuator::OpenParen)]);
            assert_eq!(found, TokenKind::Punctuator(Punctuator::CloseBracket));
            assert_eq!(production, Production::CallExpression);
        }
        other => panic!("unexpected error: {:?}", other),
    }
}

#[test]
fn call_abrupt_end() {
    let mut int = Interner::new();
    let f = intern(&mut int, "f");
    let toks = tokenize("(", &mut int);
    let mut cursor = Cursor::new(toks);
    let err = CallExpression::new(false, false, Node::Local(f))
        .parse(&mut cursor, &mut int)
        .unwrap_err();
    assert_eq!(err, ParseError::AbruptEnd);
}

#[test]
fn arguments_leading_comma_rejected() {
    let mut int = Interner::new();
    let f = intern(&mut int, "f");
    let toks = tokenize("(,1)", &mut int);
    let mut cursor = Cursor::new(toks);
    let err = CallExpression::new(false, false, Node::Local(f))
        .parse(&mut cursor, &mut int)
        .unwrap_err();
    match err {
        ParseError::Expected {
            expected,
            found,
            production,
            ..
        } => {
            assert_eq!(expected, vec![TokenClass::Punc(Punctuator::CloseParen)]);
            assert_eq!(found, TokenKind::Punctuator(Punctuator::Comma));
            assert_eq!(production, Production::ArgumentList);
        }
        other => panic!("unexpected error: {:?}", other),
    }
}

#[test]
fn parse_twice_fresh_interners_identical_trees() {
    let src = "[1, [2, , \"x\"], name]";
    let mut int1 = Interner::new();
    let toks1 = tokenize(src, &mut int1);
    let mut cursor1 = Cursor::new(toks1);
    let node1 = Expression::new(false, false).parse(&mut cursor1).unwrap();

    let mut int2 = Interner::new();
    let toks2 = tokenize(src, &mut int2);
    let mut cursor2 = Cursor::new(toks2);
    let node2 = Expression::new(false, false).parse(&mut cursor2).unwrap();

    assert_eq!(node1, node2);
}

#[test]
fn cursor_back_restores_token() {
    let mut int = Interner::new();
    let toks = tokenize("1 2", &mut int);
    let mut cursor = Cursor::new(toks);
    let first = cursor.next().unwrap();
    assert_eq!(first.kind, TokenKind::NumericLiteral(1));
    cursor.back();
    let again = cursor.next().unwrap();
    assert_eq!(again.kind, TokenKind::NumericLiteral(1));
}

#[test]
fn interner_handles_are_stable() {
    let mut int = Interner::new();
    let a1 = intern(&mut int, "alpha");
    let b = intern(&mut int, "beta");
    let a2 = intern(&mut int, "alpha");
    assert_eq!(a1, a2);
    assert_ne!(a1, b);
    assert_eq!(int.resolve(a1).unwrap().as_slice(), b"alpha");
    assert!(int.resolve(999).is_none());
}

#[test]
fn expression_rejects_stray_punctuator() {
    let mut int = Interner::new();
    let toks = tokenize(")", &mut int);
    let mut cursor = Cursor::new(toks);
    let err = Expression::new(false, false).parse(&mut cursor).unwrap_err();
    match err {
        ParseError::Expected {
            expected,
            found,
            production,
            ..
        } => {
            assert_eq!(expected, vec![TokenClass::Identifier]);
            assert_eq!(found, TokenKind::Punctuator(Punctuator::CloseParen));
            assert_eq!(production, Production::Expression);
        }
        other => panic!("unexpected error: {:?}", other),
    }
}

#[test]
fn unterminated_array_is_abrupt_end() {
    let mut int = Interner::new();
    let toks = tokenize("[1,", &mut int);
    let mut cursor = Cursor::new(toks);
    let err = Expression::new(false, false).parse(&mut cursor).unwrap_err();
    assert_eq!(err, ParseError::AbruptEnd);
}

#[test]
fn line_terminators_are_skipped_between_elements() {
    let mut int = Interner::new();
    let toks = tokenize("[1,\n2]", &mut int);
    let mut cursor = Cursor::new(toks);
    let node = Expression::new(false, false).parse(&mut cursor).unwrap();
    assert_eq!(
        node,
        Node::ArrayDecl(vec![Node::Const(Const::Num(1)), Node::Const(Const::Num(2))])
    );
}

#[test]
fn call_bad_token_after_dot_reports_that_token() {
    let mut int = Interner::new();
    let f = intern(&mut int, "f");
    let toks = tokenize("().7", &mut int);
    let mut cursor = Cursor::new(toks);
    let err = CallExpression::new(false, false, Node::Local(f))
        .parse(&mut cursor, &mut int)
        .unwrap_err();
    match err {
        ParseError::Expected {
            expected,
            found,
            pos,
            production,
        } => {
            assert_eq!(expected, vec![TokenClass::Identifier]);
            assert_eq!(found, TokenKind::NumericLiteral(7));
            assert_eq!(pos, Position { line: 1, column: 4 });
            assert_eq!(production, Production::CallExpression);
        }
        other => panic!("unexpected error: {:?}", other),
    }
}

#[test]
fn parser_units_capture_their_context() {
    let unit = BreakStatement::new(true, false);
    assert!(unit.allow_yield);
    assert!(!unit.allow_await);
    let call = CallExpression::new(false, true, Node::Const(Const::Num(1)));
    assert!(!call.allow_yield);
    assert!(call.allow_await);
    assert_eq!(call.first_member_expr, Node::Const(Const::Num(1)));
}
