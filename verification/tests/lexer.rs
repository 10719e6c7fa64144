use lang_frontend::lex::{
    is_digit, is_reserved, InvalidChar, LexError, Lexer, MalformedInput, Token, TokenKind,
    LOOKAHEAD,
};

fn tokens_of(text: &str) -> Vec<Token> {
    Lexer::new(text.as_bytes()).unwrap().collect().unwrap()
}

fn kinds_of(text: &str) -> Vec<TokenKind> {
    tokens_of(text).into_iter().map(|token| token.kind).collect()
}

fn token(kind: TokenKind, row: usize, col: usize) -> Token {
    Token { kind, row, col }
}

fn ident(text: &str) -> TokenKind {
    TokenKind::Identifier(text.to_string())
}

fn num(text: &str) -> TokenKind {
    TokenKind::NumberLiteral(text.to_string())
}

fn string(text: &str) -> TokenKind {
    TokenKind::StringLiteral(text.to_string())
}

#[test]
fn number() {
    let source = "123".as_bytes();
    let mut lexer = Lexer::new(source).unwrap();

    assert_eq!(
        lexer.collect().unwrap(),
        vec![Token {
            kind: TokenKind::NumberLiteral("123".into()),
            row: 1,
            col: 1
        }],
    );
}

#[test]
fn test_basic() {
    let source = "test = 1 + 278".as_bytes();
    let mut lexer = Lexer::new(source).unwrap();
    assert_eq!(
        lexer.collect().unwrap(),
        vec![
            Token {
                kind: TokenKind::Identifier("test".to_string()),
                row: 1,
                col: 1
            },
            Token {
                kind: TokenKind::Equals,
                row: 1,
                col: 6
            },
            Token {
                kind: TokenKind::NumberLiteral("1".to_string()),
                row: 1,
                col: 8
            },
            Token {
                kind: TokenKind::Plus,
                row: 1,
                col: 10
            },
            Token {
                kind: TokenKind::NumberLiteral("278".to_string()),
                row: 1,
                col: 12
            },
        ]
    );
}

#[test]
fn lex_str() {
    let source = "let x = \"hello world\"".as_bytes();
    let lexer = &mut Lexer::new(source).unwrap();
    assert_eq!(
        lexer.collect().unwrap(),
        vec![
            Token {
                kind: TokenKind::Identifier("let".to_string()),
                row: 1,
                col: 1
            },
            Token {
                kind: TokenKind::Identifier("x".to_string()),
                row: 1,
                col: 5
            },
            Token {
                kind: TokenKind::Equals,
                row: 1,
                col: 7
            },
            Token {
                kind: TokenKind::StringLiteral("hello world".to_string()),
                row: 1,
                col: 9
            },
        ]
    );
}

#[test]
fn test_greater_than() {
    let source = "test = 1 > 278".as_bytes();
    let mut lexer = Lexer::new(source).unwrap();
    assert_eq!(
        lexer.collect().unwrap(),
        vec![
            Token {
                kind: TokenKind::Identifier("test".to_string()),
                row: 1,
                col: 1
            },
            Token {
                kind: TokenKind::Equals,
                row: 1,
                col: 6
            },
            Token {
                kind: TokenKind::NumberLiteral("1".to_string()),
                row: 1,
                col: 8
            },
            Token {
                kind: TokenKind::GreaterThan,
                row: 1,
                col: 10
            },
            Token {
                kind: TokenKind::NumberLiteral("278".to_string()),
                row: 1,
                col: 12
            },
        ]
    );
}

#[test]
fn test_multiline() {
    let source = "test = 1 + 278\n2 + 3".as_bytes();
    let mut lexer = Lexer::new(source).unwrap();
    assert_eq!(
        lexer.collect().unwrap(),
        vec![
            Token {
                kind: TokenKind::Identifier("test".to_string()),
                row: 1,
                col: 1
            },
            Token {
                kind: TokenKind::Equals,
                row: 1,
                col: 6
            },
            Token {
                kind: TokenKind::NumberLiteral("1".to_string()),
                row: 1,
                col: 8
            },
            Token {
                kind: TokenKind::Plus,
                row: 1,
                col: 10
            },
            Token {
                kind: TokenKind::NumberLiteral("278".to_string()),
                row: 1,
                col: 12
            },
            Token {
                kind: TokenKind::NumberLiteral("2".to_string()),
                row: 2,
                col: 1
            },
            Token {
                kind: TokenKind::Plus,
                row: 2,
                col: 3
            },
            Token {
                kind: TokenKind::NumberLiteral("3".to_string()),
                row: 2,
                col: 5
            },
        ]
    );
}

#[test]
fn pipe_test() {
    let source = "test = 1 + 278 >> 2 + 3".as_bytes();
    let mut lexer = Lexer::new(source).unwrap();
    assert_eq!(
        lexer.collect().unwrap(),
        vec![
            Token {
                kind: TokenKind::Identifier("test".to_string()),
                row: 1,
                col: 1
            },
            Token {
                kind: TokenKind::Equals,
                row: 1,
                col: 6
            },
            Token {
                kind: TokenKind::NumberLiteral("1".to_string()),
                row: 1,
                col: 8
            },
            Token {
                kind: TokenKind::Plus,
                row: 1,
                col: 10
            },
            Token {
                kind: TokenKind::NumberLiteral("278".to_string()),
                row: 1,
                col: 12
            },
            Token {
                kind: TokenKind::Pipe,
                row: 1,
                col: 16
            },
            Token {
                kind: TokenKind::NumberLiteral("2".to_string()),
                row: 1,
                col: 19
            },
            Token {
                kind: TokenKind::Plus,
                row: 1,
                col: 21
            },
            Token {
                kind: TokenKind::NumberLiteral("3".to_string()),
                row: 1,
                col: 23
            },
        ]
    );
}

#[test]
fn basic_stream_ends_in_end() {
    let mut lexer = Lexer::new("test = 1 + 278".as_bytes()).unwrap();
    assert_eq!(lexer.next_token().unwrap(), token(ident("test"), 1, 1));
    assert_eq!(lexer.next_token().unwrap(), token(TokenKind::Equals, 1, 6));
    assert_eq!(lexer.next_token().unwrap(), token(num("1"), 1, 8));
    assert_eq!(lexer.next_token().unwrap(), token(TokenKind::Plus, 1, 10));
    assert_eq!(lexer.next_token().unwrap(), token(num("278"), 1, 12));
    assert_eq!(lexer.next_token().unwrap(), token(TokenKind::End, 1, 15));
}

#[test]
fn pipe_is_one_token() {
    let mut lexer = Lexer::new("1 >> 2".as_bytes()).unwrap();
    assert_eq!(lexer.next_token().unwrap(), token(num("1"), 1, 1));
    assert_eq!(lexer.next_token().unwrap(), token(TokenKind::Pipe, 1, 3));
    assert_eq!(lexer.next_token().unwrap(), token(num("2"), 1, 6));
    assert_eq!(lexer.next_token().unwrap().kind, TokenKind::End);
}

#[test]
fn greater_than_signs_apart_are_two_tokens() {
    assert_eq!(
        tokens_of("> >"),
        vec![token(TokenKind::GreaterThan, 1, 1), token(TokenKind::GreaterThan, 1, 3)]
    );
    assert_eq!(
        tokens_of(">>>"),
        vec![token(TokenKind::Pipe, 1, 1), token(TokenKind::GreaterThan, 1, 3)]
    );
    assert_eq!(tokens_of(">"), vec![token(TokenKind::GreaterThan, 1, 1)]);
    assert_eq!(
        tokens_of(">\n>"),
        vec![token(TokenKind::GreaterThan, 1, 1), token(TokenKind::GreaterThan, 2, 1)]
    );
}

#[test]
fn every_symbol_is_recognised() {
    assert_eq!(
        kinds_of("= + - * / % ^ & ; < > >> ( ) { }"),
        vec![
            TokenKind::Equals,
            TokenKind::Plus,
            TokenKind::Minus,
            TokenKind::Star,
            TokenKind::Slash,
            TokenKind::Percent,
            TokenKind::Caret,
            TokenKind::Ampersand,
            TokenKind::Semicolon,
            TokenKind::LessThan,
            TokenKind::GreaterThan,
            TokenKind::Pipe,
            TokenKind::LParen,
            TokenKind::RParen,
            TokenKind::LBrace,
            TokenKind::RBrace,
        ]
    );
}

#[test]
fn tokens_need_no_blanks_between_them() {
    assert_eq!(
        tokens_of("x=(12+y3)*\"s\";"),
        vec![
            token(ident("x"), 1, 1),
            token(TokenKind::Equals, 1, 2),
            token(TokenKind::LParen, 1, 3),
            token(num("12"), 1, 4),
            token(TokenKind::Plus, 1, 6),
            token(ident("y3"), 1, 7),
            token(TokenKind::RParen, 1, 9),
            token(TokenKind::Star, 1, 10),
            token(string("s"), 1, 11),
            token(TokenKind::Semicolon, 1, 14),
        ]
    );
}

#[test]
fn digits_then_letters_are_a_number_and_an_identifier() {
    assert_eq!(tokens_of("12ab"), vec![token(num("12"), 1, 1), token(ident("ab"), 1, 3)]);
    assert_eq!(tokens_of("ab12"), vec![token(ident("ab12"), 1, 1)]);
}

#[test]
fn identifiers_may_hold_letters_of_any_script() {
    assert_eq!(
        tokens_of("\u{3bb}x = \u{e9}t\u{e9}2"),
        vec![
            token(ident("\u{3bb}x"), 1, 1),
            token(TokenKind::Equals, 1, 4),
            token(ident("\u{e9}t\u{e9}2"), 1, 6),
        ]
    );
}

#[test]
fn tabs_spaces_and_newlines_are_skipped() {
    assert_eq!(
        tokens_of("\t a\n\n \tb\n"),
        vec![token(ident("a"), 1, 3), token(ident("b"), 3, 3)]
    );
    assert_eq!(tokens_of(" \n\t "), vec![]);
    assert_eq!(tokens_of(""), vec![]);
}

#[test]
fn end_stands_behind_the_last_character() {
    let mut lexer = Lexer::new("".as_bytes()).unwrap();
    assert_eq!(lexer.next_token().unwrap(), token(TokenKind::End, 1, 1));
    let mut lexer = Lexer::new("ab".as_bytes()).unwrap();
    assert_eq!(lexer.next_token().unwrap(), token(ident("ab"), 1, 1));
    assert_eq!(lexer.next_token().unwrap(), token(TokenKind::End, 1, 3));
    let mut lexer = Lexer::new("a\n".as_bytes()).unwrap();
    assert_eq!(lexer.next_token().unwrap(), token(ident("a"), 1, 1));
    assert_eq!(lexer.next_token().unwrap(), token(TokenKind::End, 2, 1));
}

#[test]
fn end_repeats_for_ever() {
    let mut lexer = Lexer::new("1".as_bytes()).unwrap();
    assert_eq!(lexer.next_token().unwrap(), token(num("1"), 1, 1));
    for _ in 0..5 {
        assert_eq!(lexer.peek_token().unwrap(), &token(TokenKind::End, 1, 2));
        assert_eq!(lexer.next_token().unwrap(), token(TokenKind::End, 1, 2));
        assert_eq!(lexer.next().unwrap(), None);
    }
    assert_eq!(lexer.collect().unwrap(), vec![]);
}

#[test]
fn peek_token_is_idempotent() {
    let mut lexer = Lexer::new("alpha + 2".as_bytes()).unwrap();
    for _ in 0..4 {
        assert_eq!(lexer.peek_token().unwrap(), &token(ident("alpha"), 1, 1));
    }
    assert_eq!(lexer.next_token().unwrap(), token(ident("alpha"), 1, 1));
    for _ in 0..4 {
        assert_eq!(lexer.peek_token().unwrap(), &token(TokenKind::Plus, 1, 7));
    }
    assert_eq!(lexer.next().unwrap(), Some(token(TokenKind::Plus, 1, 7)));
    assert_eq!(lexer.peek_token().unwrap(), &token(num("2"), 1, 9));
    assert_eq!(lexer.collect().unwrap(), vec![token(num("2"), 1, 9)]);
}

#[test]
fn next_never_hands_out_end() {
    let mut lexer = Lexer::new("a b".as_bytes()).unwrap();
    assert_eq!(lexer.next().unwrap(), Some(token(ident("a"), 1, 1)));
    assert_eq!(lexer.next().unwrap(), Some(token(ident("b"), 1, 3)));
    assert_eq!(lexer.next().unwrap(), None);
    assert_eq!(lexer.next().unwrap(), None);
}

#[test]
fn string_literals_keep_their_text_raw() {
    assert_eq!(tokens_of("\"\""), vec![token(string(""), 1, 1)]);
    assert_eq!(
        tokens_of("\"a\\n b\" x"),
        vec![token(string("a\\n b"), 1, 1), token(ident("x"), 1, 9)]
    );
    assert_eq!(tokens_of("\"1 + #\""), vec![token(string("1 + #"), 1, 1)]);
}

#[test]
fn string_literal_over_two_rows_starts_where_its_quote_stands() {
    assert_eq!(
        tokens_of(" \"ab\ncd\" x"),
        vec![token(string("ab\ncd"), 1, 2), token(ident("x"), 2, 5)]
    );
}

#[test]
fn unterminated_string_runs_to_the_end() {
    assert_eq!(tokens_of("x \"abc d"), vec![token(ident("x"), 1, 1), token(string("abc d"), 1, 3)]);
    let mut lexer = Lexer::new("\"ab".as_bytes()).unwrap();
    assert_eq!(lexer.next_token().unwrap(), token(string("ab"), 1, 1));
    assert_eq!(lexer.next_token().unwrap(), token(TokenKind::End, 1, 4));
}

#[test]
fn unrecognised_character_is_fatal() {
    let mut lexer = Lexer::new("a # b".as_bytes()).unwrap();
    assert_eq!(lexer.next_token().unwrap(), token(ident("a"), 1, 1));
    for _ in 0..3 {
        assert_eq!(lexer.peek_token().unwrap_err(), LexError::Invalid(InvalidChar));
        assert_eq!(lexer.next_token().unwrap_err(), LexError::Invalid(InvalidChar));
        assert_eq!(lexer.next().unwrap_err(), LexError::Invalid(InvalidChar));
    }
    assert_eq!(lexer.collect().unwrap_err(), LexError::Invalid(InvalidChar));
}

#[test]
fn characters_outside_the_table_are_rejected() {
    for text in ["#", "@", "!", "'", "\r", ".", ",", "\u{b2}", "\u{663}", "_"] {
        let mut lexer = Lexer::new(text.as_bytes()).unwrap();
        assert_eq!(lexer.next_token().unwrap_err(), LexError::Invalid(InvalidChar), "{:?}", text);
    }
}

#[test]
fn collect_fails_where_the_text_cannot_be_lexed() {
    let mut lexer = Lexer::new("1 + ?".as_bytes()).unwrap();
    assert_eq!(lexer.collect().unwrap_err(), LexError::Invalid(InvalidChar));
}

#[test]
fn malformed_bytes_at_the_start_fail_the_lexer() {
    assert_eq!(
        Lexer::new(b"ab \xff").err(),
        Some(LexError::Malformed(MalformedInput))
    );
    assert_eq!(Lexer::new(b"\xc0\x80").err(), Some(LexError::Malformed(MalformedInput)));
}

#[test]
fn malformed_bytes_further_on_fail_when_reached() {
    let mut lexer = Lexer::new(b"alpha = beta \xff gamma").unwrap();
    assert_eq!(lexer.next_token().unwrap(), token(ident("alpha"), 1, 1));
    assert_eq!(lexer.next_token().unwrap(), token(TokenKind::Equals, 1, 7));
    assert_eq!(lexer.next_token().unwrap(), token(ident("beta"), 1, 9));
    for _ in 0..3 {
        assert_eq!(lexer.peek_token().unwrap_err(), LexError::Malformed(MalformedInput));
        assert_eq!(lexer.next_token().unwrap_err(), LexError::Malformed(MalformedInput));
    }
}

#[test]
fn malformed_bytes_inside_a_token_fail_the_token() {
    let mut lexer = Lexer::new(b"alpha = 1234567\xff").unwrap();
    assert_eq!(lexer.next_token().unwrap(), token(ident("alpha"), 1, 1));
    assert_eq!(lexer.next_token().unwrap(), token(TokenKind::Equals, 1, 7));
    assert_eq!(lexer.next_token().unwrap_err(), LexError::Malformed(MalformedInput));
    assert_eq!(lexer.next_token().unwrap_err(), LexError::Malformed(MalformedInput));

    let mut lexer = Lexer::new(b"0123456789 \"abc\xff").unwrap();
    assert_eq!(lexer.next_token().unwrap(), token(num("0123456789"), 1, 1));
    assert_eq!(lexer.next_token().unwrap_err(), LexError::Malformed(MalformedInput));

    let mut lexer = Lexer::new(b"0123456789 >\xff").unwrap();
    assert_eq!(lexer.next_token().unwrap(), token(num("0123456789"), 1, 1));
    assert_eq!(lexer.next_token().unwrap_err(), LexError::Malformed(MalformedInput));
}

#[test]
fn positions_never_go_back() {
    let tokens = tokens_of("let a = 1;\nlet bb = (a + 2) * 3;\n\n  let c = \"x\ny\" >> bb;");
    assert_eq!(tokens.len(), 23);
    for pair in tokens.windows(2) {
        assert!((pair[0].row, pair[0].col) < (pair[1].row, pair[1].col));
    }
}

#[test]
fn long_text_is_lexed_through() {
    let text = "let name = 12345 + other;\n".repeat(400);
    let tokens = tokens_of(&text);
    assert_eq!(tokens.len(), 400 * 7);
    assert_eq!(tokens[7 * 399], token(ident("let"), 400, 1));
    assert_eq!(tokens[7 * 399 + 6], token(TokenKind::Semicolon, 400, 25));
}

#[test]
fn token_kinds_compare_by_variant_and_text() {
    assert!(ident("a").same(&ident("a")));
    assert!(!ident("a").same(&ident("b")));
    assert!(!ident("1").same(&num("1")));
    assert!(num("1").same(&num("1")));
    assert!(string("").same(&string("")));
    assert!(TokenKind::Pipe.same(&TokenKind::Pipe));
    assert!(!TokenKind::Pipe.same(&TokenKind::GreaterThan));
    assert!(TokenKind::End.same(&TokenKind::End));
    let first = token(string("text"), 3, 4);
    assert_eq!(first.clone(), first);
}

#[test]
fn identifier_ends_at_the_first_character_that_is_not_alphanumeric() {
    let mut lexer = Lexer::new("ab#".as_bytes()).unwrap();
    assert_eq!(lexer.next_token().unwrap(), token(ident("ab"), 1, 1));
    assert_eq!(lexer.next_token().unwrap_err(), LexError::Invalid(InvalidChar));
    assert_eq!(tokens_of("ab\"c\""), vec![token(ident("ab"), 1, 1), token(string("c"), 1, 3)]);
    assert_eq!(tokens_of("ab>c"), vec![
        token(ident("ab"), 1, 1),
        token(TokenKind::GreaterThan, 1, 3),
        token(ident("c"), 1, 4),
    ]);
}

#[test]
fn identifier_may_go_on_with_numeric_characters_of_any_script() {
    assert_eq!(tokens_of("x\u{b2} y\u{663}"), vec![
        token(ident("x\u{b2}"), 1, 1),
        token(ident("y\u{663}"), 1, 4),
    ]);
}

#[test]
fn number_ends_at_the_first_character_that_is_no_digit() {
    let mut lexer = Lexer::new("12\u{663}x".as_bytes()).unwrap();
    assert_eq!(lexer.next_token().unwrap(), token(num("12"), 1, 1));
    assert_eq!(lexer.next_token().unwrap_err(), LexError::Invalid(InvalidChar));
    assert_eq!(tokens_of("12 34"), vec![token(num("12"), 1, 1), token(num("34"), 1, 4)]);
}

#[test]
fn digits_are_the_ten_of_ascii() {
    for c in '0'..='9' {
        assert!(is_digit(c));
    }
    for c in ['/', ':', 'a', ' ', '\u{663}', '\u{b2}', '\u{ff11}'] {
        assert!(!is_digit(c), "{:?}", c);
    }
}

#[test]
fn reserved_characters_are_those_of_the_table() {
    for c in "=+-*/%^&;{}()<>\"\t \n".chars() {
        assert!(is_reserved(c), "{:?}", c);
    }
    for c in ['a', '0', '#', '\r', '_', '\'', '.', '\u{3bb}'] {
        assert!(!is_reserved(c), "{:?}", c);
    }
}

#[test]
fn lexer_looks_ten_characters_ahead() {
    assert_eq!(LOOKAHEAD, 10);
    assert!(Lexer::new(b"012345678\xff").is_err());
    assert!(Lexer::new(b"0123456789\xff").is_ok());
}

#[test]
fn invalid_char_has_a_message() {
    assert_eq!(InvalidChar.message(), "Invalid character");
}

#[test]
fn written_tokens_read_back() {
    let kinds = vec![
        ident("let"),
        ident("total"),
        TokenKind::Equals,
        TokenKind::LParen,
        num("12"),
        TokenKind::Pipe,
        string("a b"),
        TokenKind::RParen,
        TokenKind::GreaterThan,
        TokenKind::GreaterThan,
        num("0"),
        TokenKind::Semicolon,
    ];
    let text = "let total = ( 12 >> \"a b\" ) > > 0 ; ";
    assert_eq!(kinds_of(text), kinds);
    let mut lexer = Lexer::new(text.as_bytes()).unwrap();
    for _ in 0..kinds.len() {
        assert_ne!(lexer.next_token().unwrap().kind, TokenKind::End);
    }
    assert_eq!(lexer.next_token().unwrap().kind, TokenKind::End);
}
