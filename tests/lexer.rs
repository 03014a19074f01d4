use skrc::lexer::{lex_token_trees, LexError, Lexer};
use skrc::token::{
    Delimiter, Identifier, Literal, LiteralKind, Position, Span, Token, TokenKind, TokenStream,
    TokenTree,
};

#[test]
fn test_lexer_next_token() {
    let code = "let x = 42;";
    let mut lexer = Lexer::new(code);
    let token = lexer.next_token();
    assert_eq!(
        token,
        Ok(Token::new(
            TokenKind::Identifier(Identifier {
                value: "let".to_string()
            }),
            Span::from_positions(Position::from_u32(0), Position::from_u32(3))
        ))
    );
    let token = lexer.next_token();
    assert_eq!(
        token,
        Ok(Token::new(
            TokenKind::Identifier(Identifier {
                value: "x".to_string()
            }),
            Span::from_positions(Position::from_u32(4), Position::from_u32(5))
        ))
    );
    let token = lexer.next_token();
    assert_eq!(
        token,
        Ok(Token::new(
            TokenKind::Equals,
            Span::from_positions(Position::from_u32(6), Position::from_u32(7))
        ))
    );
    let token = lexer.next_token();
    assert_eq!(
        token,
        Ok(Token::new(
            TokenKind::Literal(Literal {
                kind: LiteralKind::Integer,
                value: "42".to_string()
            }),
            Span::from_positions(Position::from_u32(8), Position::from_u32(10))
        ))
    );
    let token = lexer.next_token();
    assert_eq!(
        token,
        Ok(Token::new(
            TokenKind::Semicolon,
            Span::from_positions(Position::from_u32(10), Position::from_u32(11))
        ))
    );
    let token = lexer.next_token();
    assert_eq!(
        token,
        Ok(Token::new(
            TokenKind::Eof,
            Span::from_positions(Position::from_u32(11), Position::from_u32(11))
        ))
    );
}

#[test]
fn test_lex_token_trees() {
    let code = "let x = 42;";
    let token_stream = lex_token_trees(code);
    assert_eq!(
        token_stream,
        Ok(TokenStream::new(vec![
            TokenTree::Token(Token::new(
                TokenKind::Identifier(Identifier {
                    value: "let".to_string()
                }),
                Span::from_positions(Position::from_u32(0), Position::from_u32(3))
            )),
            TokenTree::Token(Token::new(
                TokenKind::Identifier(Identifier {
                    value: "x".to_string()
                }),
                Span::from_positions(Position::from_u32(4), Position::from_u32(5))
            )),
            TokenTree::Token(Token::new(
                TokenKind::Equals,
                Span::from_positions(Position::from_u32(6), Position::from_u32(7))
            )),
            TokenTree::Token(Token::new(
                TokenKind::Literal(Literal {
                    kind: LiteralKind::Integer,
                    value: "42".to_string()
                }),
                Span::from_positions(Position::from_u32(8), Position::from_u32(10))
            )),
            TokenTree::Token(Token::new(
                TokenKind::Semicolon,
                Span::from_positions(Position::from_u32(10), Position::from_u32(11))
            )),
        ]))
    );
}

#[test]
fn test_lex_token_trees_nested() {
    let code = "let x = (40 + 2);";
    let token_stream = lex_token_trees(code);
    assert_eq!(
        token_stream,
        Ok(TokenStream::new(vec![
            TokenTree::Token(Token::new(
                TokenKind::Identifier(Identifier {
                    value: "let".to_string()
                }),
                Span::from_positions(Position::from_u32(0), Position::from_u32(3))
            )),
            TokenTree::Token(Token::new(
                TokenKind::Identifier(Identifier {
                    value: "x".to_string()
                }),
                Span::from_positions(Position::from_u32(4), Position::from_u32(5))
            )),
            TokenTree::Token(Token::new(
                TokenKind::Equals,
                Span::from_positions(Position::from_u32(6), Position::from_u32(7))
            )),
            TokenTree::Group(
                Delimiter::Parenthesis,
                vec![
                    TokenTree::Token(Token::new(
                        TokenKind::Literal(Literal {
                            kind: LiteralKind::Integer,
                            value: "40".to_string()
                        }),
                        Span::from_positions(Position::from_u32(9), Position::from_u32(11))
                    )),
                    TokenTree::Token(Token::new(
                        TokenKind::Plus,
                        Span::from_positions(Position::from_u32(12), Position::from_u32(13))
                    )),
                    TokenTree::Token(Token::new(
                        TokenKind::Literal(Literal {
                            kind: LiteralKind::Integer,
                            value: "2".to_string()
                        }),
                        Span::from_positions(Position::from_u32(14), Position::from_u32(15))
                    )),
                ]
            ),
            TokenTree::Token(Token::new(
                TokenKind::Semicolon,
                Span::from_positions(Position::from_u32(16), Position::from_u32(17))
            )),
        ]))
    );
}

#[test]
fn test_lex_token_trees_nested2() {
    let code = "{([])[{}]}()[]";
    let token_stream = lex_token_trees(code);
    assert_eq!(
        token_stream,
        Ok(TokenStream::new(vec![
            TokenTree::Group(
                Delimiter::Brace,
                vec![
                    TokenTree::Group(
                        Delimiter::Parenthesis,
                        vec![TokenTree::Group(Delimiter::Bracket, vec![]),]
                    ),
                    TokenTree::Group(
                        Delimiter::Bracket,
                        vec![TokenTree::Group(Delimiter::Brace, vec![]),]
                    ),
                ]
            ),
            TokenTree::Group(Delimiter::Parenthesis, vec![]),
            TokenTree::Group(Delimiter::Bracket, vec![]),
        ]))
    );
}

fn span(start: u32, end: u32) -> Span {
    Span::from_positions(Position::from_u32(start), Position::from_u32(end))
}

#[test]
fn mismatched_close_names_both_delimiters() {
    assert_eq!(
        lex_token_trees("(]"),
        Err(LexError::UnmatchedDelimiter {
            expected: Some(Delimiter::Parenthesis),
            found: Delimiter::Bracket,
            position: Position::from_u32(1),
        })
    );
}

#[test]
fn close_with_nothing_open() {
    assert_eq!(
        lex_token_trees("a )"),
        Err(LexError::UnmatchedDelimiter {
            expected: None,
            found: Delimiter::Parenthesis,
            position: Position::from_u32(2),
        })
    );
}

#[test]
fn unclosed_parenthesis_names_its_position() {
    assert_eq!(
        lex_token_trees("("),
        Err(LexError::UnclosedDelimiter {
            open_positions: vec![Position::from_u32(0)],
        })
    );
}

#[test]
fn unclosed_delimiters_listed_outermost_first() {
    assert_eq!(
        lex_token_trees("x { [ ( ) "),
        Err(LexError::UnclosedDelimiter {
            open_positions: vec![Position::from_u32(2), Position::from_u32(4)],
        })
    );
}

#[test]
fn unexpected_character_is_reported() {
    assert_eq!(
        lex_token_trees("let $x"),
        Err(LexError::UnexpectedCharacter {
            position: Position::from_u32(4),
        })
    );
}

#[test]
fn first_error_in_scan_order_wins() {
    assert_eq!(
        lex_token_trees("(] $"),
        Err(LexError::UnmatchedDelimiter {
            expected: Some(Delimiter::Parenthesis),
            found: Delimiter::Bracket,
            position: Position::from_u32(1),
        })
    );
    assert_eq!(
        lex_token_trees("$ (]"),
        Err(LexError::UnexpectedCharacter {
            position: Position::from_u32(0),
        })
    );
}

#[test]
fn empty_and_blank_input() {
    assert_eq!(lex_token_trees(""), Ok(TokenStream::new(vec![])));
    assert_eq!(lex_token_trees(" \t\r\n "), Ok(TokenStream::new(vec![])));
    let mut lexer = Lexer::new("   ");
    assert_eq!(lexer.next_token(), Ok(Token::new(TokenKind::Eof, span(3, 3))));
    assert_eq!(lexer.next_token(), Ok(Token::new(TokenKind::Eof, span(3, 3))));
}

#[test]
fn literals_keep_their_text() {
    let mut lexer = Lexer::new("'a' \"b c\" 1.5 x_1");
    assert_eq!(
        lexer.next_token(),
        Ok(Token::new(
            TokenKind::Literal(Literal {
                kind: LiteralKind::Char,
                value: "'a'".to_string()
            }),
            span(0, 3)
        ))
    );
    assert_eq!(
        lexer.next_token(),
        Ok(Token::new(
            TokenKind::Literal(Literal {
                kind: LiteralKind::String,
                value: "\"b c\"".to_string()
            }),
            span(4, 9)
        ))
    );
    assert_eq!(
        lexer.next_token(),
        Ok(Token::new(
            TokenKind::Literal(Literal {
                kind: LiteralKind::Decimal,
                value: "1.5".to_string()
            }),
            span(10, 13)
        ))
    );
    assert_eq!(
        lexer.next_token(),
        Ok(Token::new(
            TokenKind::Identifier(Identifier {
                value: "x_1".to_string()
            }),
            span(14, 17)
        ))
    );
    assert_eq!(lexer.next_token(), Ok(Token::new(TokenKind::Eof, span(17, 17))));
}

#[test]
fn lexer_method_groups_the_rest() {
    let mut lexer = Lexer::new("[a]");
    assert_eq!(
        lexer.lex_token_trees(),
        Ok(TokenStream::new(vec![TokenTree::Group(
            Delimiter::Bracket,
            vec![TokenTree::Token(Token::new(
                TokenKind::Identifier(Identifier {
                    value: "a".to_string()
                }),
                span(1, 2)
            ))]
        )]))
    );
}

#[test]
fn relexing_gives_equal_streams() {
    let code = "f(a, [b]) { c; }";
    assert_eq!(lex_token_trees(code), lex_token_trees(code));
    assert!(lex_token_trees(code).is_ok());
}

#[test]
fn balanced_input_leaves_match_flat_tokens() {
    let code = "(a [b] c)";
    let mut lexer = Lexer::new(code);
    let mut leaves = Vec::new();
    loop {
        let token = lexer.next_token().unwrap();
        match token.kind {
            TokenKind::Eof => break,
            TokenKind::OpenDelimiter(_) | TokenKind::CloseDelimiter(_) => {}
            _ => leaves.push(token),
        }
    }
    let stream = lex_token_trees(code).unwrap();
    let expected = TokenStream::new(vec![TokenTree::Group(
        Delimiter::Parenthesis,
        vec![
            TokenTree::Token(leaves[0].clone()),
            TokenTree::Group(Delimiter::Bracket, vec![TokenTree::Token(leaves[1].clone())]),
            TokenTree::Token(leaves[2].clone()),
        ],
    )]);
    assert_eq!(stream, expected);
    assert_eq!(leaves.len(), 3);
}

#[test]
fn next_token_reports_unknown_character() {
    let mut lexer = Lexer::new("a @");
    assert_eq!(
        lexer.next_token(),
        Ok(Token::new(
            TokenKind::Identifier(Identifier {
                value: "a".to_string()
            }),
            span(0, 1)
        ))
    );
    assert_eq!(
        lexer.next_token(),
        Err(LexError::UnexpectedCharacter {
            position: Position::from_u32(2),
        })
    );
}

#[test]
fn every_symbol_becomes_its_token() {
    let mut lexer = Lexer::new("=<>+-*/%^&|.,;");
    let expected = [
        TokenKind::Equals,
        TokenKind::LessThan,
        TokenKind::GreaterThan,
        TokenKind::Plus,
        TokenKind::Minus,
        TokenKind::Star,
        TokenKind::Slash,
        TokenKind::Percent,
        TokenKind::Caret,
        TokenKind::And,
        TokenKind::Or,
        TokenKind::Dot,
        TokenKind::Comma,
        TokenKind::Semicolon,
    ];
    for (i, kind) in expected.iter().enumerate() {
        let at = i as u32;
        assert_eq!(
            lexer.next_token(),
            Ok(Token::new(kind.clone(), span(at, at + 1)))
        );
    }
    assert_eq!(lexer.next_token(), Ok(Token::new(TokenKind::Eof, span(14, 14))));
}

#[test]
fn position_and_span_round_trip() {
    assert_eq!(Position::from_u32(7).to_u32(), 7);
    let s = span(3, 9);
    assert_eq!(s.start_position(), Position::from_u32(3));
    assert_eq!(s, span(3, 9));
    assert_ne!(s, span(3, 8));
}

#[test]
fn spans_and_whitespace_rebuild_the_source() {
    let code = "  let é=(1 + 2.5)\n\t;'c' \"s € t\"  ";
    let mut lexer = Lexer::new(code);
    let mut rebuilt = String::new();
    let mut previous_end = 0usize;
    loop {
        let token = lexer.next_token().unwrap();
        let start = token.span.start_position().to_u32() as usize;
        let end = token.span.end_position().to_u32() as usize;
        assert!(previous_end <= start && start <= end);
        let gap = &code[previous_end..start];
        assert!(gap.chars().all(|c| c == ' ' || c == '\t' || c == '\n' || c == '\r'));
        rebuilt.push_str(gap);
        let slice = &code[start..end];
        match &token.kind {
            TokenKind::Identifier(id) => assert_eq!(id.value, slice),
            TokenKind::Literal(lit) => assert_eq!(lit.value, slice),
            _ => {}
        }
        rebuilt.push_str(slice);
        previous_end = end;
        if token.kind == TokenKind::Eof {
            assert_eq!(start, code.len());
            break;
        }
    }
    assert_eq!(rebuilt, code);
}

#[test]
fn spans_are_byte_offsets() {
    let code = "\"€\" é;";
    let mut lexer = Lexer::new(code);
    assert_eq!(
        lexer.next_token(),
        Ok(Token::new(
            TokenKind::Literal(Literal {
                kind: LiteralKind::String,
                value: "\"€\"".to_string()
            }),
            span(0, 5)
        ))
    );
    assert_eq!(
        lexer.next_token(),
        Ok(Token::new(
            TokenKind::Identifier(Identifier {
                value: "é".to_string()
            }),
            span(6, 8)
        ))
    );
    assert_eq!(lexer.next_token(), Ok(Token::new(TokenKind::Semicolon, span(8, 9))));
    assert_eq!(lexer.next_token(), Ok(Token::new(TokenKind::Eof, span(9, 9))));
    assert_eq!(
        lex_token_trees("é €"),
        Err(LexError::UnexpectedCharacter {
            position: Position::from_u32(3),
        })
    );
}
