use lang_frontend::ast::{BinaryOp, Expr, ExprKind, LetDecl, SourceFile, Stmt, StmtKind};
use lang_frontend::lex::{InvalidChar, LexError, Lexer, MalformedInput, TokenKind};
use lang_frontend::parse::{
    expect_token, is_let, parse, parse_expr, parse_factor, parse_let, parse_primary,
    parse_program, parse_term, ExpectedTokenError, ParseError,
};

fn num(digits: &str) -> Expr {
    Expr { kind: ExprKind::NumLit(digits.to_string()) }
}

fn text(value: &str) -> Expr {
    Expr { kind: ExprKind::StrLit(value.to_string()) }
}

fn name(value: &str) -> Expr {
    Expr { kind: ExprKind::Reference(value.to_string()) }
}

fn group(inner: Expr) -> Expr {
    Expr { kind: ExprKind::Group(Box::new(inner)) }
}

fn binary(op: BinaryOp, left: Expr, right: Expr) -> Expr {
    Expr { kind: ExprKind::Binary(op, Box::new(left), Box::new(right)) }
}

fn let_stmt(bound: &str, value: Expr) -> Stmt {
    Stmt {
        kind: StmtKind::LetDecl(Box::new(LetDecl {
            name: bound.to_string(),
            value: Box::new(value),
        })),
    }
}

fn expected(expected: TokenKind, found: TokenKind) -> ParseError {
    ParseError::Expected(ExpectedTokenError::new(expected, found))
}

fn ident(value: &str) -> TokenKind {
    TokenKind::Identifier(value.to_string())
}

/// The number that the digits of a numeric literal stand for.
fn value_of(expr: &Expr) -> f64 {
    match &expr.kind {
        ExprKind::NumLit(digits) => digits.parse().unwrap(),
        other => panic!("not a number: {:?}", other),
    }
}

fn expr_of(source: &str) -> Result<Expr, ParseError> {
    parse_expr(&mut Lexer::new(source.as_bytes()).unwrap())
}

#[test]
fn basic_decl() {
    let ast = parse("let x = 1;".as_bytes()).unwrap();

    assert_eq!(ast, SourceFile { stmts: vec![let_stmt("x", num("1"))] });
}

#[test]
fn binary_plus() {
    let ast = parse("let x = 1 + 2;".as_bytes()).unwrap();

    assert_eq!(
        ast,
        SourceFile { stmts: vec![let_stmt("x", binary(BinaryOp::Add, num("1"), num("2")))] }
    );
}

#[test]
fn binary_minus() {
    let ast = parse("let x = 1 - 2;".as_bytes()).unwrap();

    assert_eq!(
        ast,
        SourceFile { stmts: vec![let_stmt("x", binary(BinaryOp::Subtract, num("1"), num("2")))] }
    );
}

#[test]
fn multiline() {
    let ast = parse("let x = 1;\nlet y = 2 + 2;".as_bytes()).unwrap();

    assert_eq!(
        ast,
        SourceFile {
            stmts: vec![
                let_stmt("x", num("1")),
                let_stmt("y", binary(BinaryOp::Add, num("2"), num("2"))),
            ]
        }
    );
}

#[test]
fn multiline_second_statement_is_on_row_two() {
    let mut lexer = Lexer::new("let x = 1;\nlet y = 2 + 2;".as_bytes()).unwrap();
    assert_eq!(lexer.next_token().unwrap().kind, ident("let"));
    assert_eq!(parse_let(&mut lexer).unwrap(), let_stmt("x", num("1")));
    let rest = lexer.collect().unwrap();
    let places: Vec<(usize, usize)> = rest.iter().map(|token| (token.row, token.col)).collect();
    assert_eq!(places, vec![(2, 1), (2, 5), (2, 7), (2, 9), (2, 11), (2, 13), (2, 14)]);
}

#[test]
fn precedence() {
    let ast = parse("let x = 1 + 2 * 3;".as_bytes()).unwrap();

    let expected_value =
        binary(BinaryOp::Add, num("1"), binary(BinaryOp::Multiply, num("2"), num("3")));
    assert_eq!(ast, SourceFile { stmts: vec![let_stmt("x", expected_value)] });

    let StmtKind::LetDecl(decl) = &ast.stmts[0].kind else {
        panic!("not a declaration");
    };
    let ExprKind::Binary(BinaryOp::Add, left, right) = &decl.value.kind else {
        panic!("not a sum");
    };
    assert_eq!(value_of(left), 1.0);
    let ExprKind::Binary(BinaryOp::Multiply, second, third) = &right.kind else {
        panic!("not a product");
    };
    assert_eq!(value_of(second), 2.0);
    assert_eq!(value_of(third), 3.0);
}

#[test]
fn missing_semicolon() {
    assert_eq!(
        parse("let x = 1".as_bytes()).unwrap_err(),
        expected(TokenKind::Semicolon, TokenKind::End)
    );
}

#[test]
fn missing_closing_paren() {
    assert_eq!(
        parse("let x = (1 + 2".as_bytes()).unwrap_err(),
        expected(TokenKind::RParen, TokenKind::End)
    );
    assert_eq!(
        parse("let x = (1 + 2;".as_bytes()).unwrap_err(),
        expected(TokenKind::RParen, TokenKind::Semicolon)
    );
}

#[test]
fn missing_equals() {
    assert_eq!(
        parse("let x 1;".as_bytes()).unwrap_err(),
        expected(TokenKind::Equals, TokenKind::NumberLiteral("1".to_string()))
    );
}

#[test]
fn missing_name() {
    assert_eq!(
        parse("let = 1;".as_bytes()).unwrap_err(),
        expected(ident(""), TokenKind::Equals)
    );
    assert_eq!(parse("let".as_bytes()).unwrap_err(), expected(ident(""), TokenKind::End));
}

#[test]
fn empty_program() {
    assert_eq!(parse("".as_bytes()).unwrap(), SourceFile { stmts: vec![] });
    assert_eq!(parse(" \n\t\n".as_bytes()).unwrap(), SourceFile { stmts: vec![] });
}

#[test]
fn statement_must_begin_with_let() {
    assert_eq!(parse("x = 1;".as_bytes()).unwrap_err(), ParseError::Unexpected(ident("x")));
    assert_eq!(parse("lets x = 1;".as_bytes()).unwrap_err(), ParseError::Unexpected(ident("lets")));
    assert_eq!(
        parse("1;".as_bytes()).unwrap_err(),
        ParseError::Unexpected(TokenKind::NumberLiteral("1".to_string()))
    );
    assert_eq!(
        parse("\"let\" x = 1;".as_bytes()).unwrap_err(),
        ParseError::Unexpected(TokenKind::StringLiteral("let".to_string()))
    );
    assert_eq!(
        parse("let x = 1; ;".as_bytes()).unwrap_err(),
        ParseError::Unexpected(TokenKind::Semicolon)
    );
}

#[test]
fn primary_must_be_an_atom_or_a_group() {
    assert_eq!(
        parse("let x = ;".as_bytes()).unwrap_err(),
        ParseError::Unexpected(TokenKind::Semicolon)
    );
    assert_eq!(
        parse("let x = 1 + * 2;".as_bytes()).unwrap_err(),
        ParseError::Unexpected(TokenKind::Star)
    );
    assert_eq!(parse("let x = (".as_bytes()).unwrap_err(), ParseError::Unexpected(TokenKind::End));
    assert_eq!(
        parse("let x = ();".as_bytes()).unwrap_err(),
        ParseError::Unexpected(TokenKind::RParen)
    );
    assert_eq!(expr_of("-1").unwrap_err(), ParseError::Unexpected(TokenKind::Minus));
}

#[test]
fn pipe_is_no_operator_of_the_grammar() {
    assert_eq!(
        parse("let x = 1 >> 2;".as_bytes()).unwrap_err(),
        expected(TokenKind::Semicolon, TokenKind::Pipe)
    );
}

#[test]
fn lexical_errors_come_through_the_parser() {
    assert_eq!(
        parse("let x = 1 # 2;".as_bytes()).unwrap_err(),
        ParseError::Lex(LexError::Invalid(InvalidChar))
    );
    assert_eq!(
        parse("let x = $;".as_bytes()).unwrap_err(),
        ParseError::Lex(LexError::Invalid(InvalidChar))
    );
    assert_eq!(parse("?".as_bytes()).unwrap_err(), ParseError::Lex(LexError::Invalid(InvalidChar)));
    assert_eq!(
        parse(b"let x\xff = 1;").unwrap_err(),
        ParseError::Lex(LexError::Malformed(MalformedInput))
    );
    assert_eq!(
        parse(b"let x = 1; let y = \xc3(").unwrap_err(),
        ParseError::Lex(LexError::Malformed(MalformedInput))
    );
    assert_eq!(
        parse(b"let xyz = 12345 \xff").unwrap_err(),
        ParseError::Lex(LexError::Malformed(MalformedInput))
    );
}

#[test]
fn first_error_wins() {
    assert_eq!(
        parse("let x = 1 let # y".as_bytes()).unwrap_err(),
        expected(TokenKind::Semicolon, ident("let"))
    );
    assert_eq!(
        parse(b"oops = 1; let y = 2345 \xff").unwrap_err(),
        ParseError::Unexpected(ident("oops"))
    );
}

#[test]
fn atoms() {
    assert_eq!(expr_of("42").unwrap(), num("42"));
    assert_eq!(expr_of("\"hello world\"").unwrap(), text("hello world"));
    assert_eq!(expr_of("total").unwrap(), name("total"));
    assert_eq!(expr_of("let").unwrap(), name("let"));
    assert_eq!(expr_of("(7)").unwrap(), group(num("7")));
    assert_eq!(expr_of("((x))").unwrap(), group(group(name("x"))));
}

#[test]
fn numbers_keep_their_digits() {
    let parsed = expr_of("007").unwrap();
    assert_eq!(parsed, num("007"));
    assert_eq!(value_of(&parsed), 7.0);
    let long = "123456789012345678901234567890";
    let parsed = expr_of(long).unwrap();
    assert_eq!(parsed, num(long));
    assert_eq!(value_of(&parsed), 123456789012345678901234567890.0);
}

#[test]
fn sums_associate_to_the_left() {
    assert_eq!(
        expr_of("1 - 2 + 3 - 4").unwrap(),
        binary(
            BinaryOp::Subtract,
            binary(BinaryOp::Add, binary(BinaryOp::Subtract, num("1"), num("2")), num("3")),
            num("4")
        )
    );
}

#[test]
fn products_associate_to_the_left() {
    assert_eq!(
        expr_of("8 / 4 * 2 / 1").unwrap(),
        binary(
            BinaryOp::Divide,
            binary(BinaryOp::Multiply, binary(BinaryOp::Divide, num("8"), num("4")), num("2")),
            num("1")
        )
    );
}

#[test]
fn products_bind_tighter_than_sums() {
    assert_eq!(
        expr_of("a * b + c / d - e").unwrap(),
        binary(
            BinaryOp::Subtract,
            binary(
                BinaryOp::Add,
                binary(BinaryOp::Multiply, name("a"), name("b")),
                binary(BinaryOp::Divide, name("c"), name("d"))
            ),
            name("e")
        )
    );
}

#[test]
fn groups_reset_precedence() {
    assert_eq!(
        expr_of("(1 + 2) * 3").unwrap(),
        binary(BinaryOp::Multiply, group(binary(BinaryOp::Add, num("1"), num("2"))), num("3"))
    );
    assert_eq!(
        expr_of("2 * (3 - (4 + \"s\"))").unwrap(),
        binary(
            BinaryOp::Multiply,
            num("2"),
            group(binary(
                BinaryOp::Subtract,
                num("3"),
                group(binary(BinaryOp::Add, num("4"), text("s")))
            ))
        )
    );
}

#[test]
fn rules_take_what_is_theirs_and_no_more() {
    let mut lexer = Lexer::new("1 * 2 + 3 * 4 ; rest".as_bytes()).unwrap();
    assert_eq!(parse_primary(&mut lexer).unwrap(), num("1"));
    assert_eq!(lexer.peek_token().unwrap().kind, TokenKind::Star);

    let mut lexer = Lexer::new("1 * 2 + 3 * 4 ; rest".as_bytes()).unwrap();
    assert_eq!(parse_factor(&mut lexer).unwrap(), binary(BinaryOp::Multiply, num("1"), num("2")));
    assert_eq!(lexer.peek_token().unwrap().kind, TokenKind::Plus);

    let mut lexer = Lexer::new("1 * 2 + 3 * 4 ; rest".as_bytes()).unwrap();
    assert_eq!(
        parse_term(&mut lexer).unwrap(),
        binary(
            BinaryOp::Add,
            binary(BinaryOp::Multiply, num("1"), num("2")),
            binary(BinaryOp::Multiply, num("3"), num("4"))
        )
    );
    assert_eq!(lexer.next_token().unwrap().kind, TokenKind::Semicolon);
    assert_eq!(lexer.next_token().unwrap().kind, ident("rest"));
    assert_eq!(lexer.next_token().unwrap().kind, TokenKind::End);
}

#[test]
fn a_failed_rule_leaves_the_offending_token() {
    let mut lexer = Lexer::new("(1 + 2 ; 3".as_bytes()).unwrap();
    assert_eq!(
        parse_primary(&mut lexer).unwrap_err(),
        expected(TokenKind::RParen, TokenKind::Semicolon)
    );
    assert_eq!(lexer.next_token().unwrap().kind, TokenKind::Semicolon);

    let mut lexer = Lexer::new("* 3".as_bytes()).unwrap();
    assert_eq!(parse_expr(&mut lexer).unwrap_err(), ParseError::Unexpected(TokenKind::Star));
    assert_eq!(lexer.next_token().unwrap().kind, TokenKind::Star);
}

#[test]
fn let_declaration_behind_its_keyword() {
    let mut lexer = Lexer::new("total = (a + 1) * 2; let".as_bytes()).unwrap();
    assert_eq!(
        parse_let(&mut lexer).unwrap(),
        let_stmt(
            "total",
            binary(
                BinaryOp::Multiply,
                group(binary(BinaryOp::Add, name("a"), num("1"))),
                num("2")
            )
        )
    );
    assert_eq!(lexer.next_token().unwrap().kind, ident("let"));
}

#[test]
fn program_stops_at_the_end_without_taking_it() {
    let mut lexer = Lexer::new("let a = 1; let b = a;".as_bytes()).unwrap();
    assert_eq!(
        parse_program(&mut lexer).unwrap(),
        SourceFile { stmts: vec![let_stmt("a", num("1")), let_stmt("b", name("a"))] }
    );
    assert_eq!(lexer.next_token().unwrap().kind, TokenKind::End);
}

#[test]
fn many_statements_keep_their_order() {
    let source: String =
        (0..200).map(|i| format!("let v{} = {} * (v + {});\n", i, i, i + 1)).collect();
    let file = parse(source.as_bytes()).unwrap();
    assert_eq!(file.stmts.len(), 200);
    for (i, stmt) in file.stmts.iter().enumerate() {
        let wanted = let_stmt(
            &format!("v{}", i),
            binary(
                BinaryOp::Multiply,
                num(&i.to_string()),
                group(binary(BinaryOp::Add, name("v"), num(&(i + 1).to_string()))),
            ),
        );
        assert_eq!(stmt, &wanted);
    }
}

#[test]
fn expected_token_error_holds_both_kinds() {
    let error = ExpectedTokenError::new(TokenKind::Semicolon, TokenKind::End);
    assert_eq!(error.expected, TokenKind::Semicolon);
    assert_eq!(error.found, TokenKind::End);
}

#[test]
fn expected_token_is_taken_and_another_is_left() {
    let mut lexer = Lexer::new("= ;".as_bytes()).unwrap();
    assert_eq!(
        expect_token(&mut lexer, TokenKind::Semicolon).unwrap_err(),
        expected(TokenKind::Semicolon, TokenKind::Equals)
    );
    assert_eq!(expect_token(&mut lexer, TokenKind::Equals), Ok(()));
    assert_eq!(expect_token(&mut lexer, TokenKind::Semicolon), Ok(()));
    assert_eq!(
        expect_token(&mut lexer, TokenKind::Semicolon).unwrap_err(),
        expected(TokenKind::Semicolon, TokenKind::End)
    );
    assert_eq!(expect_token(&mut lexer, TokenKind::End), Ok(()));
    assert_eq!(expect_token(&mut lexer, TokenKind::End), Ok(()));

    let mut lexer = Lexer::new("abc #".as_bytes()).unwrap();
    assert_eq!(expect_token(&mut lexer, ident("abc")), Ok(()));
    assert_eq!(
        expect_token(&mut lexer, TokenKind::Semicolon).unwrap_err(),
        ParseError::Lex(LexError::Invalid(InvalidChar))
    );
}

#[test]
fn only_let_is_the_reserved_word() {
    assert!(is_let(&"let".to_string()));
    for word in ["", "le", "lets", "Let", "LET", " let", "l\u{435}t"] {
        assert!(!is_let(&word.to_string()), "{:?}", word);
    }
}

#[test]
fn a_parsed_text_spells_its_tokens() {
    let text = "let a = (1 + b) * \"s\" / 2;\nlet c = a - 3 - (4);";
    let file = parse(text.as_bytes()).unwrap();

    fn spell(expr: &Expr, out: &mut Vec<TokenKind>) {
        match &expr.kind {
            ExprKind::NumLit(digits) => out.push(TokenKind::NumberLiteral(digits.clone())),
            ExprKind::StrLit(value) => out.push(TokenKind::StringLiteral(value.clone())),
            ExprKind::Reference(value) => out.push(TokenKind::Identifier(value.clone())),
            ExprKind::Group(inner) => {
                out.push(TokenKind::LParen);
                spell(inner, out);
                out.push(TokenKind::RParen);
            }
            ExprKind::Binary(op, left, right) => {
                spell(left, out);
                out.push(match op {
                    BinaryOp::Add => TokenKind::Plus,
                    BinaryOp::Subtract => TokenKind::Minus,
                    BinaryOp::Multiply => TokenKind::Star,
                    BinaryOp::Divide => TokenKind::Slash,
                    BinaryOp::Pipe => TokenKind::Pipe,
                });
                spell(right, out);
            }
            other => panic!("no rule gives {:?}", other),
        }
    }

    let mut spelled = Vec::new();
    for stmt in &file.stmts {
        let StmtKind::LetDecl(decl) = &stmt.kind else {
            panic!("not a declaration");
        };
        spelled.push(ident("let"));
        spelled.push(ident(&decl.name));
        spelled.push(TokenKind::Equals);
        spell(&decl.value, &mut spelled);
        spelled.push(TokenKind::Semicolon);
    }
    let tokens: Vec<TokenKind> = Lexer::new(text.as_bytes())
        .unwrap()
        .collect()
        .unwrap()
        .into_iter()
        .map(|token| token.kind)
        .collect();
    assert_eq!(spelled, tokens);
}

#[test]
fn every_parsed_number_has_a_value() {
    let file = parse("let a = 0 + 00012 * (345678901234567890123 - 9) / 1;".as_bytes()).unwrap();

    fn values(expr: &Expr, out: &mut Vec<f64>) {
        match &expr.kind {
            ExprKind::NumLit(digits) => out.push(digits.parse().unwrap()),
            ExprKind::Group(inner) => values(inner, out),
            ExprKind::Binary(_, left, right) => {
                values(left, out);
                values(right, out);
            }
            _ => {}
        }
    }

    let StmtKind::LetDecl(decl) = &file.stmts[0].kind else {
        panic!("not a declaration");
    };
    let mut found = Vec::new();
    values(&decl.value, &mut found);
    assert_eq!(found, vec![0.0, 12.0, 345678901234567890123.0, 9.0, 1.0]);
}
