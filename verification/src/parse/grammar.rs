//! The grammar, as mathematics.
//!
//! ```text
//! Program   := Stmt* End
//! Stmt      := LetDecl
//! LetDecl   := "let" Identifier "=" Expr ";"
//! Expr      := Term
//! Term      := Factor ( ("+" | "-") Factor )*
//! Factor    := Primary ( ("*" | "/") Primary )*
//! Primary   := NumberLiteral | StringLiteral | Identifier | "(" Expr ")"
//! ```
//!
//! Each rule is a function from a token stream to what the rule gives there
//! and how many tokens it takes.  Every rule decides by the next token alone.
//! An error ends the parse where it is met: the token that caused it is not
//! taken.

use super::error::ParseErrorView;
use crate::ast::{BinaryOp, ExprView, StmtView};
use crate::lex::scan::TokenStream;
use crate::lex::token::KindView;
use vstd::prelude::*;

verus! {

/// What a rule gives on a token stream.
pub ghost struct Parsed<T> {
    /// The tree, or the error that ended the parse.
    pub result: Result<T, ParseErrorView>,
    /// How many tokens were taken from the stream.
    pub used: nat,
}

impl<T> Parsed<T> {
    /// The same outcome behind `n` tokens that were taken before.
    pub open spec fn after(self, n: nat) -> Parsed<T> {
        Parsed { result: self.result, used: self.used + n }
    }
}

/// A successful parse.
pub open spec fn done<T>(tree: T, used: nat) -> Parsed<T> {
    Parsed { result: Ok(tree), used }
}

/// A failed parse.
pub open spec fn failed<T>(error: ParseErrorView, used: nat) -> Parsed<T> {
    Parsed { result: Err(error), used }
}

/// The text of the reserved word that begins a declaration.
pub open spec fn let_word() -> Seq<char> {
    seq!['l', 'e', 't']
}

/// A token of kind `kind` is required next: it is taken where it stands
/// there.
pub open spec fn expect(s: TokenStream, kind: KindView) -> Parsed<()> {
    match s.head() {
        Err(e) => failed(ParseErrorView::Lex(e), 0),
        Ok(token) => if token.kind == kind {
            done((), 1)
        } else {
            failed(ParseErrorView::Expected { expected: kind, found: token.kind }, 0)
        },
    }
}

/// The operation that a token stands for between two factors.
pub open spec fn additive(kind: KindView) -> Option<BinaryOp> {
    match kind {
        KindView::Plus => Some(BinaryOp::Add),
        KindView::Minus => Some(BinaryOp::Subtract),
        _ => None,
    }
}

/// The operation that a token stands for between two primaries.
pub open spec fn multiplicative(kind: KindView) -> Option<BinaryOp> {
    match kind {
        KindView::Star => Some(BinaryOp::Multiply),
        KindView::Slash => Some(BinaryOp::Divide),
        _ => None,
    }
}

/// `Expr := Term`
#[verifier::opaque]
pub open spec fn expr(s: TokenStream) -> Parsed<ExprView>
    decreases s.tokens.len(), 4nat,
{
    term(s)
}

/// `Term := Factor ( ("+" | "-") Factor )*`
#[verifier::opaque]
pub open spec fn term(s: TokenStream) -> Parsed<ExprView>
    decreases s.tokens.len(), 3nat,
{
    let first = factor(s);
    match first.result {
        Err(_) => first,
        Ok(left) => term_rest(left, s.drop(first.used)).after(first.used),
    }
}

/// The rest of a term behind its first factors, which make up `left`: the
/// operators associate to the left.
#[verifier::opaque]
pub open spec fn term_rest(left: ExprView, s: TokenStream) -> Parsed<ExprView>
    decreases s.tokens.len(), 2nat,
{
    match s.head() {
        Err(e) => failed(ParseErrorView::Lex(e), 0),
        Ok(token) => match additive(token.kind) {
            None => done(left, 0),
            Some(op) => {
                let right = factor(s.tail());
                match right.result {
                    Err(_) => right.after(1),
                    Ok(operand) => term_rest(
                        ExprView::Binary(op, Box::new(left), Box::new(operand)),
                        s.drop(right.used + 1),
                    ).after(right.used + 1),
                }
            },
        },
    }
}

/// `Factor := Primary ( ("*" | "/") Primary )*`
#[verifier::opaque]
pub open spec fn factor(s: TokenStream) -> Parsed<ExprView>
    decreases s.tokens.len(), 1nat,
{
    let first = primary(s);
    match first.result {
        Err(_) => first,
        Ok(left) => factor_rest(left, s.drop(first.used)).after(first.used),
    }
}

/// The rest of a factor behind its first primaries, which make up `left`:
/// the operators associate to the left.
#[verifier::opaque]
pub open spec fn factor_rest(left: ExprView, s: TokenStream) -> Parsed<ExprView>
    decreases s.tokens.len(), 0nat,
{
    match s.head() {
        Err(e) => failed(ParseErrorView::Lex(e), 0),
        Ok(token) => match multiplicative(token.kind) {
            None => done(left, 0),
            Some(op) => {
                let right = primary(s.tail());
                match right.result {
                    Err(_) => right.after(1),
                    Ok(operand) => factor_rest(
                        ExprView::Binary(op, Box::new(left), Box::new(operand)),
                        s.drop(right.used + 1),
                    ).after(right.used + 1),
                }
            },
        },
    }
}

/// `Primary := NumberLiteral | StringLiteral | Identifier | "(" Expr ")"`
///
/// A number keeps the digits that were written.
#[verifier::opaque]
pub open spec fn primary(s: TokenStream) -> Parsed<ExprView>
    decreases s.tokens.len(), 0nat,
{
    match s.head() {
        Err(e) => failed(ParseErrorView::Lex(e), 0),
        Ok(token) => match token.kind {
            KindView::NumberLiteral(digits) => done(ExprView::NumLit(digits), 1),
            KindView::StringLiteral(text) => done(ExprView::StrLit(text), 1),
            KindView::Identifier(name) => done(ExprView::Reference(name), 1),
            KindView::LParen => {
                let inner = expr(s.tail());
                match inner.result {
                    Err(_) => inner.after(1),
                    Ok(tree) => {
                        let close = expect(s.drop(inner.used + 1), KindView::RParen);
                        match close.result {
                            Err(e) => failed(e, inner.used + 1),
                            Ok(_) => done(ExprView::Group(Box::new(tree)), inner.used + 2),
                        }
                    },
                }
            },
            other => failed(ParseErrorView::Unexpected(other), 0),
        },
    }
}

/// `Identifier "=" Expr ";"`: a declaration behind its `let`.
#[verifier::opaque]
pub open spec fn let_decl(s: TokenStream) -> Parsed<StmtView> {
    match s.head() {
        Err(e) => failed(ParseErrorView::Lex(e), 0),
        Ok(token) => match token.kind {
            KindView::Identifier(name) => {
                let equals = expect(s.drop(1), KindView::Equals);
                match equals.result {
                    Err(e) => failed(e, 1),
                    Ok(_) => {
                        let value = expr(s.drop(2));
                        match value.result {
                            Err(e) => failed(e, value.used + 2),
                            Ok(tree) => {
                                let semicolon = expect(
                                    s.drop(value.used + 2),
                                    KindView::Semicolon,
                                );
                                match semicolon.result {
                                    Err(e) => failed(e, value.used + 2),
                                    Ok(_) => done(
                                        StmtView::LetDecl { name, value: tree },
                                        value.used + 3,
                                    ),
                                }
                            },
                        }
                    },
                }
            },
            other => failed(
                ParseErrorView::Expected {
                    expected: KindView::Identifier(Seq::empty()),
                    found: other,
                },
                0,
            ),
        },
    }
}

/// `Program := Stmt* End`, where a statement is a declaration that the
/// identifier `let` begins.  `End` is looked at and not taken.
#[verifier::opaque]
pub open spec fn program(s: TokenStream) -> Parsed<Seq<StmtView>>
    decreases s.tokens.len(),
{
    match s.head() {
        Err(e) => failed(ParseErrorView::Lex(e), 0),
        Ok(token) => if token.kind is End {
            done(Seq::empty(), 0)
        } else if token.kind == KindView::Identifier(let_word()) {
            let first = let_decl(s.tail());
            match first.result {
                Err(e) => failed(e, first.used + 1),
                Ok(stmt) => {
                    let rest = program(s.drop(first.used + 1));
                    match rest.result {
                        Err(e) => failed(e, rest.used + first.used + 1),
                        Ok(stmts) => done(seq![stmt] + stmts, rest.used + first.used + 1),
                    }
                },
            }
        } else {
            failed(ParseErrorView::Unexpected(token.kind), 0)
        },
    }
}

/// A program behind statements that were parsed before: `before` holds them,
/// and `used` tokens were taken for them.
pub open spec fn extended(before: Seq<StmtView>, used: nat, rest: Parsed<Seq<StmtView>>) -> Parsed<
    Seq<StmtView>,
> {
    Parsed {
        result: match rest.result {
            Ok(more) => Ok(before + more),
            Err(e) => Err(e),
        },
        used: rest.used + used,
    }
}

/// A program is what it is behind no statement.
pub proof fn lemma_program_start(s: TokenStream)
    ensures
        program(s) == extended(Seq::empty(), 0, program(s)),
{
    match program(s).result {
        Ok(more) => {
            assert(Seq::<StmtView>::empty() + more =~= more);
        },
        Err(_) => {},
    }
}

/// One round of `Stmt*`: what a program is, by its next token and by the
/// declaration that follows a `let`.
pub proof fn lemma_program_step(before: Seq<StmtView>, used: nat, s: TokenStream)
    ensures
        match s.head() {
            Err(e) => extended(before, used, program(s)) == failed::<Seq<StmtView>>(
                ParseErrorView::Lex(e),
                used,
            ),
            Ok(token) => if token.kind is End {
                extended(before, used, program(s)) == done::<Seq<StmtView>>(before, used)
            } else if token.kind == KindView::Identifier(let_word()) {
                let first = let_decl(s.tail());
                match first.result {
                    Err(e) => extended(before, used, program(s)) == failed::<Seq<StmtView>>(
                        e,
                        used + first.used + 1,
                    ),
                    Ok(stmt) => extended(before, used, program(s)) == extended(
                        before.push(stmt),
                        used + first.used + 1,
                        program(s.drop(first.used + 1)),
                    ),
                }
            } else {
                extended(before, used, program(s)) == failed::<Seq<StmtView>>(
                    ParseErrorView::Unexpected(token.kind),
                    used,
                )
            },
        },
{
    reveal(program);
    match s.head() {
        Err(e) => {},
        Ok(token) => {
            if token.kind is End {
                assert(before + Seq::<StmtView>::empty() =~= before);
            } else if token.kind == KindView::Identifier(let_word()) {
                let first = let_decl(s.tail());
                match first.result {
                    Err(e) => {},
                    Ok(stmt) => {
                        match program(s.drop(first.used + 1)).result {
                            Ok(more) => {
                                assert(before.push(stmt) + more =~= before + (seq![stmt] + more));
                            },
                            Err(_) => {},
                        }
                    },
                }
            }
        },
    }
}

/// `Expr := Term`, unfolded once.
pub proof fn lemma_expr(s: TokenStream)
    ensures
        expr(s) == term(s),
{
    reveal(expr);
    reveal(term);
}

/// `Term`, unfolded once: a factor, and what follows it.
pub proof fn lemma_term(s: TokenStream)
    ensures
        term(s) == match factor(s).result {
            Err(_) => factor(s),
            Ok(left) => term_rest(left, s.drop(factor(s).used)).after(factor(s).used),
        },
{
    reveal(term);
    reveal(term_rest);
    reveal(factor);
}

/// One round of `( ("+" | "-") Factor )*`.
pub proof fn lemma_term_rest(left: ExprView, s: TokenStream)
    ensures
        term_rest(left, s) == match s.head() {
            Err(e) => failed::<ExprView>(ParseErrorView::Lex(e), 0),
            Ok(token) => match additive(token.kind) {
                None => done(left, 0),
                Some(op) => {
                    let right = factor(s.tail());
                    match right.result {
                        Err(_) => right.after(1),
                        Ok(operand) => term_rest(
                            ExprView::Binary(op, Box::new(left), Box::new(operand)),
                            s.drop(right.used + 1),
                        ).after(right.used + 1),
                    }
                },
            },
        },
{
    reveal(term_rest);
    reveal(factor);
}

/// `Factor`, unfolded once: a primary, and what follows it.
pub proof fn lemma_factor(s: TokenStream)
    ensures
        factor(s) == match primary(s).result {
            Err(_) => primary(s),
            Ok(left) => factor_rest(left, s.drop(primary(s).used)).after(primary(s).used),
        },
{
    reveal(factor);
    reveal(factor_rest);
    reveal(primary);
}

/// One round of `( ("*" | "/") Primary )*`.
pub proof fn lemma_factor_rest(left: ExprView, s: TokenStream)
    ensures
        factor_rest(left, s) == match s.head() {
            Err(e) => failed::<ExprView>(ParseErrorView::Lex(e), 0),
            Ok(token) => match multiplicative(token.kind) {
                None => done(left, 0),
                Some(op) => {
                    let right = primary(s.tail());
                    match right.result {
                        Err(_) => right.after(1),
                        Ok(operand) => factor_rest(
                            ExprView::Binary(op, Box::new(left), Box::new(operand)),
                            s.drop(right.used + 1),
                        ).after(right.used + 1),
                    }
                },
            },
        },
{
    reveal(factor_rest);
    reveal(primary);
}

/// `Primary`, unfolded once.
pub proof fn lemma_primary(s: TokenStream)
    ensures
        primary(s) == match s.head() {
            Err(e) => failed::<ExprView>(ParseErrorView::Lex(e), 0),
            Ok(token) => match token.kind {
                KindView::NumberLiteral(digits) => done(ExprView::NumLit(digits), 1),
                KindView::StringLiteral(text) => done(ExprView::StrLit(text), 1),
                KindView::Identifier(name) => done(ExprView::Reference(name), 1),
                KindView::LParen => {
                    let inner = expr(s.tail());
                    match inner.result {
                        Err(_) => inner.after(1),
                        Ok(tree) => {
                            let close = expect(s.drop(inner.used + 1), KindView::RParen);
                            match close.result {
                                Err(e) => failed(e, inner.used + 1),
                                Ok(_) => done(ExprView::Group(Box::new(tree)), inner.used + 2),
                            }
                        },
                    }
                },
                other => failed(ParseErrorView::Unexpected(other), 0),
            },
        },
{
    reveal(primary);
    reveal(expr);
}

} // verus!
