//! The recursive-descent parser.
//!
//! One function stands for each rule of the grammar.  Each takes the lexer,
//! decides by the next token alone, and gives exactly what the rule of the
//! same name in [`super::grammar`] gives on the lexer's token stream.

use super::error::{ExpectedTokenError, ParseError, ParseErrorView};
use super::grammar::{
    expect, expr, extended, factor, factor_rest, lemma_expr, lemma_factor, lemma_factor_rest,
    lemma_primary, lemma_program_start, lemma_program_step, lemma_term, lemma_term_rest, let_decl,
    let_word, primary, program, term, term_rest, Parsed,
};
use crate::ast::{
    BinaryOp, Expr, ExprKind, ExprView, LetDecl, SourceFile, Stmt, StmtKind, StmtView,
};
use crate::lex::lexer::Lexer;
use crate::lex::scan::{lemma_drop_drop, lemma_drop_none, TokenStream};
use crate::lex::token::TokenKind;
use vstd::prelude::*;

verus! {

/// The outcome of parsing an expression, as a mathematical value.
pub open spec fn expr_outcome(r: Result<Expr, ParseError>) -> Result<ExprView, ParseErrorView> {
    match r {
        Ok(tree) => Ok(tree@),
        Err(e) => Err(e@),
    }
}

/// The outcome of parsing a statement, as a mathematical value.
pub open spec fn stmt_outcome(r: Result<Stmt, ParseError>) -> Result<StmtView, ParseErrorView> {
    match r {
        Ok(tree) => Ok(tree@),
        Err(e) => Err(e@),
    }
}

/// The outcome of parsing a source text, as a mathematical value.
pub open spec fn file_outcome(r: Result<SourceFile, ParseError>) -> Result<
    Seq<StmtView>,
    ParseErrorView,
> {
    match r {
        Ok(file) => Ok(file@),
        Err(e) => Err(e@),
    }
}

/// The outcome of taking a required token, as a mathematical value.
pub open spec fn unit_outcome(r: Result<(), ParseError>) -> Result<(), ParseErrorView> {
    match r {
        Ok(_) => Ok(()),
        Err(e) => Err(e@),
    }
}

/// A parsing function did what a rule says: it gave the rule's result, and
/// it left the lexer behind the tokens that the rule takes, with all others
/// still to come.
pub open spec fn follows<T>(
    before: TokenStream,
    after: TokenStream,
    outcome: Result<T, ParseErrorView>,
    rule: Parsed<T>,
) -> bool {
    outcome == rule.result && after == before.drop(rule.used)
}

/// The kind of the next token, which stays where it is.
fn look(lexer: &mut Lexer) -> (r: Result<TokenKind, ParseError>)
    requires
        old(lexer).wf(),
    ensures
        final(lexer).wf(),
        final(lexer)@.stream() == old(lexer)@.stream(),
        match r {
            Ok(kind) => old(lexer)@.stream().head() matches Ok(token) && token.kind == kind@,
            Err(e) => old(lexer)@.stream().head() matches Err(cause) && e@ == ParseErrorView::Lex(
                cause,
            ),
        },
{
    match lexer.peek_token() {
        Err(e) => Err(ParseError::Lex(e)),
        Ok(token) => Ok(token.kind.clone()),
    }
}

/// Moves the lexer behind the next token.
fn skip(lexer: &mut Lexer) -> (r: Result<(), ParseError>)
    requires
        old(lexer).wf(),
    ensures
        final(lexer).wf(),
        final(lexer)@.stream() == old(lexer)@.stream().tail(),
        match r {
            Ok(_) => old(lexer)@.stream().head() is Ok,
            Err(e) => old(lexer)@.stream().head() matches Err(cause) && e@ == ParseErrorView::Lex(
                cause,
            ),
        },
{
    match lexer.next_token() {
        Err(e) => Err(ParseError::Lex(e)),
        Ok(_) => Ok(()),
    }
}

/// Takes the next token where it is of the kind `expected`, and fails
/// without taking it where it is not.
pub fn expect_token(lexer: &mut Lexer, expected: TokenKind) -> (r: Result<(), ParseError>)
    requires
        old(lexer).wf(),
    ensures
        final(lexer).wf(),
        follows(
            old(lexer)@.stream(),
            final(lexer)@.stream(),
            unit_outcome(r),
            expect(old(lexer)@.stream(), expected@),
        ),
{
    proof {
        lemma_drop_none(lexer@.stream());
    }
    let found = look(lexer)?;
    if found.same(&expected) {
        skip(lexer)
    } else {
        Err(ParseError::Expected(ExpectedTokenError::new(expected, found)))
    }
}

/// `Primary := NumberLiteral | StringLiteral | Identifier | "(" Expr ")"`
pub fn parse_primary(lexer: &mut Lexer) -> (r: Result<Expr, ParseError>)
    requires
        old(lexer).wf(),
    ensures
        final(lexer).wf(),
        follows(
            old(lexer)@.stream(),
            final(lexer)@.stream(),
            expr_outcome(r),
            primary(old(lexer)@.stream()),
        ),
    decreases old(lexer)@.stream().tokens.len(), 0nat,
{
    let ghost start = lexer@.stream();
    proof {
        lemma_primary(start);
        lemma_drop_none(start);
    }
    match look(lexer)? {
        TokenKind::NumberLiteral(digits) => {
            skip(lexer)?;
            Ok(Expr { kind: ExprKind::NumLit(digits) })
        },
        TokenKind::StringLiteral(text) => {
            skip(lexer)?;
            Ok(Expr { kind: ExprKind::StrLit(text) })
        },
        TokenKind::Identifier(name) => {
            skip(lexer)?;
            Ok(Expr { kind: ExprKind::Reference(name) })
        },
        TokenKind::LParen => {
            // Consume the left paren
            skip(lexer)?;
            // Parse the expression within the parens
            let inner = parse_expr(lexer);
            proof {
                lemma_drop_drop(start, 1, expr(start.tail()).used);
            }
            let inner = inner?;
            // Check for the closing paren and consume it
            let closed = expect_token(lexer, TokenKind::RParen);
            proof {
                lemma_drop_drop(start, expr(start.tail()).used + 1, 0);
                lemma_drop_drop(start, expr(start.tail()).used + 1, 1);
            }
            closed?;
            Ok(Expr { kind: ExprKind::Group(Box::new(inner)) })
        },
        other => Err(ParseError::Unexpected(other)),
    }
}

/// `Factor := Primary ( ("*" | "/") Primary )*`
pub fn parse_factor(lexer: &mut Lexer) -> (r: Result<Expr, ParseError>)
    requires
        old(lexer).wf(),
    ensures
        final(lexer).wf(),
        follows(
            old(lexer)@.stream(),
            final(lexer)@.stream(),
            expr_outcome(r),
            factor(old(lexer)@.stream()),
        ),
    decreases old(lexer)@.stream().tokens.len(), 1nat,
{
    let ghost start = lexer@.stream();
    proof {
        lemma_factor(start);
    }
    let mut left = parse_primary(lexer)?;
    let ghost mut used: nat = primary(start).used;
    loop
        invariant
            lexer.wf(),
            start == old(lexer)@.stream(),
            lexer@.stream() == start.drop(used),
            factor(start) == factor_rest(left@, start.drop(used)).after(used),
        decreases lexer@.stream().tokens.len(),
    {
        let ghost here = lexer@.stream();
        proof {
            lemma_factor_rest(left@, here);
            lemma_drop_none(here);
            lemma_drop_drop(start, used, 0);
        }
        let op = match look(lexer)? {
            TokenKind::Star => BinaryOp::Multiply,
            TokenKind::Slash => BinaryOp::Divide,
            _ => {
                return Ok(left);
            },
        };
        skip(lexer)?;
        let right = parse_primary(lexer);
        proof {
            let n = primary(here.tail()).used;
            lemma_drop_drop(here, 1, n);
            lemma_drop_drop(start, used, n + 1);
        }
        let right = right?;
        left = Expr { kind: ExprKind::Binary(op, Box::new(left), Box::new(right)) };
        proof {
            used = used + primary(here.tail()).used + 1;
        }
    }
}

/// `Term := Factor ( ("+" | "-") Factor )*`
pub fn parse_term(lexer: &mut Lexer) -> (r: Result<Expr, ParseError>)
    requires
        old(lexer).wf(),
    ensures
        final(lexer).wf(),
        follows(
            old(lexer)@.stream(),
            final(lexer)@.stream(),
            expr_outcome(r),
            term(old(lexer)@.stream()),
        ),
    decreases old(lexer)@.stream().tokens.len(), 3nat,
{
    let ghost start = lexer@.stream();
    proof {
        lemma_term(start);
    }
    let mut left = parse_factor(lexer)?;
    let ghost mut used: nat = factor(start).used;
    loop
        invariant
            lexer.wf(),
            start == old(lexer)@.stream(),
            lexer@.stream() == start.drop(used),
            term(start) == term_rest(left@, start.drop(used)).after(used),
        decreases lexer@.stream().tokens.len(),
    {
        let ghost here = lexer@.stream();
        proof {
            lemma_term_rest(left@, here);
            lemma_drop_none(here);
            lemma_drop_drop(start, used, 0);
        }
        let op = match look(lexer)? {
            TokenKind::Plus => BinaryOp::Add,
            TokenKind::Minus => BinaryOp::Subtract,
            _ => {
                return Ok(left);
            },
        };
        skip(lexer)?;
        let right = parse_factor(lexer);
        proof {
            let n = factor(here.tail()).used;
            lemma_drop_drop(here, 1, n);
            lemma_drop_drop(start, used, n + 1);
        }
        let right = right?;
        left = Expr { kind: ExprKind::Binary(op, Box::new(left), Box::new(right)) };
        proof {
            used = used + factor(here.tail()).used + 1;
        }
    }
}

/// `Expr := Term`
pub fn parse_expr(lexer: &mut Lexer) -> (r: Result<Expr, ParseError>)
    requires
        old(lexer).wf(),
    ensures
        final(lexer).wf(),
        follows(
            old(lexer)@.stream(),
            final(lexer)@.stream(),
            expr_outcome(r),
            expr(old(lexer)@.stream()),
        ),
    decreases old(lexer)@.stream().tokens.len(), 4nat,
{
    proof {
        lemma_expr(lexer@.stream());
    }
    parse_term(lexer)
}

/// `Identifier "=" Expr ";"`: parses a declaration whose `let` has been
/// taken.
pub fn parse_let(lexer: &mut Lexer) -> (r: Result<Stmt, ParseError>)
    requires
        old(lexer).wf(),
    ensures
        final(lexer).wf(),
        follows(
            old(lexer)@.stream(),
            final(lexer)@.stream(),
            stmt_outcome(r),
            let_decl(old(lexer)@.stream()),
        ),
{
    let ghost start = lexer@.stream();
    proof {
        reveal(let_decl);
        lemma_drop_none(start);
    }
    let name = match look(lexer)? {
        TokenKind::Identifier(name) => name,
        other => {
            return Err(
                ParseError::Expected(
                    ExpectedTokenError::new(TokenKind::Identifier(String::new()), other),
                ),
            );
        },
    };
    skip(lexer)?;
    let equals = expect_token(lexer, TokenKind::Equals);
    proof {
        lemma_drop_drop(start, 1, 0);
        lemma_drop_drop(start, 1, 1);
    }
    equals?;
    let value = parse_expr(lexer);
    proof {
        lemma_drop_drop(start, 2, expr(start.drop(2)).used);
    }
    let value = value?;
    let semicolon = expect_token(lexer, TokenKind::Semicolon);
    proof {
        lemma_drop_drop(start, expr(start.drop(2)).used + 2, 0);
        lemma_drop_drop(start, expr(start.drop(2)).used + 2, 1);
    }
    semicolon?;
    let decl = Box::new(LetDecl { name, value: Box::new(value) });
    Ok(Stmt { kind: StmtKind::LetDecl(decl) })
}

/// Whether `name` is the reserved word `let`.
pub fn is_let(name: &String) -> (r: bool)
    ensures
        r == (name@ == let_word()),
{
    proof {
        reveal_strlit("let");
        assert("let"@ =~= let_word());
    }
    *name == String::from_str("let")
}

/// `Program := Stmt* End`: parses the statements up to the end of the text.
pub fn parse_program(lexer: &mut Lexer) -> (r: Result<SourceFile, ParseError>)
    requires
        old(lexer).wf(),
    ensures
        final(lexer).wf(),
        follows(
            old(lexer)@.stream(),
            final(lexer)@.stream(),
            file_outcome(r),
            program(old(lexer)@.stream()),
        ),
{
    let ghost start = lexer@.stream();
    let mut root = SourceFile { stmts: Vec::new() };
    let ghost mut used: nat = 0;
    proof {
        lemma_drop_none(start);
        lemma_program_start(start);
        assert(root@ =~= Seq::<StmtView>::empty());
    }
    loop
        invariant
            lexer.wf(),
            start == old(lexer)@.stream(),
            lexer@.stream() == start.drop(used),
            program(start) == extended(root@, used, program(start.drop(used))),
        decreases lexer@.stream().tokens.len(),
    {
        let ghost here = lexer@.stream();
        let ghost so_far = root@;
        proof {
            lemma_program_step(so_far, used, here);
        }
        match look(lexer)? {
            TokenKind::End => {
                return Ok(root);
            },
            TokenKind::Identifier(name) => {
                if !is_let(&name) {
                    return Err(ParseError::Unexpected(TokenKind::Identifier(name)));
                }
                skip(lexer)?;
                let stmt = parse_let(lexer);
                proof {
                    let n = let_decl(here.tail()).used;
                    lemma_drop_drop(here, 1, n);
                    lemma_drop_drop(start, used, n + 1);
                }
                let stmt = stmt?;
                let ghost added = stmt@;
                root.stmts.push(stmt);
                proof {
                    assert(root@ =~= so_far.push(added));
                    used = used + let_decl(here.tail()).used + 1;
                }
            },
            other => {
                return Err(ParseError::Unexpected(other));
            },
        }
    }
}

/// What parsing the bytes of a source text gives: the statements of the
/// program that they spell, or the first error on the way.
pub open spec fn parse_of(src: Seq<u8>) -> Result<Seq<StmtView>, ParseErrorView> {
    match Lexer::opening(src) {
        Err(e) => Err(ParseErrorView::Lex(e)),
        Ok(stream) => program(stream).result,
    }
}

/// Parses a source text.
pub fn parse(src: &[u8]) -> (r: Result<SourceFile, ParseError>)
    requires
        src@.len() < usize::MAX,
    ensures
        file_outcome(r) == parse_of(src@),
{
    let mut lexer = match Lexer::new(src) {
        Err(e) => {
            return Err(ParseError::Lex(e));
        },
        Ok(lexer) => lexer,
    };
    parse_program(&mut lexer)
}

} // verus!
