//! What holds of every parse.
//!
//! A tree that the parser gives spells the tokens that were taken for it:
//! written out token by token, it is those tokens again, none lost, none
//! added and none moved.

use super::grammar::{
    additive, expr, factor, factor_rest, lemma_expr, lemma_factor, lemma_factor_rest,
    lemma_primary, lemma_term, lemma_term_rest, let_decl, let_word, multiplicative, primary,
    program, term, term_rest, Parsed,
};
use super::parser::parse_of;
use crate::ast::{BinaryOp, ExprView, StmtView};
use crate::lex::buffered_char_reader::{decoded, malformed};
use crate::lex::laws::{kinds_of, lemma_stream_in_order, lemma_tokens_are_writable, writable};
use crate::lex::scan::{digit, lemma_drop_drop, tokenize, Cursor, TokenStream};
use crate::lex::token::KindView;
use vstd::prelude::*;

verus! {

/// The token that stands for an operation.
pub open spec fn operator(op: BinaryOp) -> KindView {
    match op {
        BinaryOp::Add => KindView::Plus,
        BinaryOp::Subtract => KindView::Minus,
        BinaryOp::Multiply => KindView::Star,
        BinaryOp::Divide => KindView::Slash,
        BinaryOp::Pipe => KindView::Pipe,
    }
}

/// The tokens that spell an expression.  The shapes that no rule of the
/// grammar gives are spelled by nothing.
pub open spec fn expr_tokens(tree: ExprView) -> Seq<KindView>
    decreases tree,
{
    match tree {
        ExprView::NumLit(digits) => seq![KindView::NumberLiteral(digits)],
        ExprView::StrLit(text) => seq![KindView::StringLiteral(text)],
        ExprView::Reference(name) => seq![KindView::Identifier(name)],
        ExprView::Group(inner) => seq![KindView::LParen] + expr_tokens(*inner) + seq![
            KindView::RParen,
        ],
        ExprView::Binary(op, left, right) => expr_tokens(*left) + seq![operator(op)] + expr_tokens(
            *right,
        ),
        _ => Seq::empty(),
    }
}

/// The tokens that spell a statement.
pub open spec fn stmt_tokens(stmt: StmtView) -> Seq<KindView> {
    match stmt {
        StmtView::LetDecl { name, value } => seq![
            KindView::Identifier(let_word()),
            KindView::Identifier(name),
            KindView::Equals,
        ] + expr_tokens(value) + seq![KindView::Semicolon],
        StmtView::BlockDecl(_) => Seq::empty(),
    }
}

/// The tokens that spell the statements of a program, one after the other.
pub open spec fn program_tokens(stmts: Seq<StmtView>) -> Seq<KindView>
    decreases stmts.len(),
{
    if stmts.len() == 0 {
        Seq::empty()
    } else {
        stmt_tokens(stmts[0]) + program_tokens(stmts.skip(1))
    }
}

/// The kinds of the first `n` tokens of a stream.
pub open spec fn taken(s: TokenStream, n: nat) -> Seq<KindView> {
    kinds_of(s.tokens.take(n as int))
}

/// A rule that succeeded took tokens that stand in the stream, and its tree
/// spells them behind what `before` spells.
pub open spec fn spells<T>(
    s: TokenStream,
    rule: Parsed<T>,
    before: Seq<KindView>,
    written: spec_fn(T) -> Seq<KindView>,
) -> bool {
    rule.result matches Ok(tree) ==> rule.used <= s.tokens.len() && written(tree) == before
        + taken(s, rule.used)
}

/// What was taken in two goes is what was taken in one.
proof fn lemma_taken_twice(s: TokenStream, a: nat, b: nat)
    requires
        a + b <= s.tokens.len(),
    ensures
        taken(s, a + b) == taken(s, a) + taken(s.drop(a), b),
{
    assert(taken(s, a + b) =~= taken(s, a) + taken(s.drop(a), b));
}

/// A token that a rule can take stands in the stream.
proof fn lemma_taken_one(s: TokenStream)
    requires
        s.head() matches Ok(token) && !(token.kind is End),
    ensures
        s.tokens.len() > 0,
        taken(s, 1) == seq![s.tokens[0].kind],
        taken(s, 0) == Seq::<KindView>::empty(),
{
    assert(taken(s, 1) =~= seq![s.tokens[0].kind]);
    assert(taken(s, 0) =~= Seq::<KindView>::empty());
}

/// The tree of a primary spells the tokens that were taken for it.
pub proof fn lemma_primary_spells(s: TokenStream)
    ensures
        spells(s, primary(s), Seq::empty(), |tree: ExprView| expr_tokens(tree)),
    decreases s.tokens.len(), 0nat,
{
    lemma_primary(s);
    if let Ok(tree) = primary(s).result {
        let token = s.head()->Ok_0;
        lemma_taken_one(s);
        match token.kind {
            KindView::LParen => {
                let inner = expr(s.tail());
                lemma_expr_spells(s.tail());
                let n = inner.used;
                let close = s.drop(n + 1);
                lemma_drop_drop(s, 1, n);
                assert(close.tokens.len() > 0);
                lemma_taken_one(close);
                lemma_taken_twice(s, 1, n);
                lemma_taken_twice(s, n + 1, 1);
                assert(expr_tokens(tree) =~= Seq::<KindView>::empty() + taken(s, n + 2));
            },
            _ => {
                assert(expr_tokens(tree) =~= Seq::<KindView>::empty() + taken(s, 1));
            },
        }
    }
}

/// The tree of further factors spells what `left` spells and then the tokens
/// that were taken.
pub proof fn lemma_factor_rest_spells(left: ExprView, s: TokenStream)
    ensures
        spells(s, factor_rest(left, s), expr_tokens(left), |tree: ExprView| expr_tokens(tree)),
    decreases s.tokens.len(), 0nat,
{
    lemma_factor_rest(left, s);
    if let Ok(tree) = factor_rest(left, s).result {
        let token = s.head()->Ok_0;
        match multiplicative(token.kind) {
            None => {
                assert(taken(s, 0) =~= Seq::<KindView>::empty());
                assert(expr_tokens(left) + taken(s, 0) =~= expr_tokens(left));
            },
            Some(op) => {
                lemma_taken_one(s);
                let right = primary(s.tail());
                lemma_primary_spells(s.tail());
                let operand = right.result->Ok_0;
                let n = right.used;
                let joined = ExprView::Binary(op, Box::new(left), Box::new(operand));
                let more = factor_rest(joined, s.drop(n + 1));
                lemma_factor_rest_spells(joined, s.drop(n + 1));
                lemma_taken_twice(s, 1, n);
                lemma_taken_twice(s, n + 1, more.used);
                assert(expr_tokens(joined) =~= expr_tokens(left) + taken(s, n + 1));
                assert(expr_tokens(tree) =~= expr_tokens(left) + taken(s, more.used + n + 1));
            },
        }
    }
}

/// The tree of a factor spells the tokens that were taken for it.
pub proof fn lemma_factor_spells(s: TokenStream)
    ensures
        spells(s, factor(s), Seq::empty(), |tree: ExprView| expr_tokens(tree)),
    decreases s.tokens.len(), 1nat,
{
    lemma_factor(s);
    if let Ok(tree) = factor(s).result {
        let first = primary(s);
        lemma_primary_spells(s);
        let left = first.result->Ok_0;
        let more = factor_rest(left, s.drop(first.used));
        lemma_factor_rest_spells(left, s.drop(first.used));
        lemma_taken_twice(s, first.used, more.used);
        assert(expr_tokens(tree) =~= Seq::<KindView>::empty() + taken(s, more.used + first.used));
    }
}

/// The tree of further terms spells what `left` spells and then the tokens
/// that were taken.
pub proof fn lemma_term_rest_spells(left: ExprView, s: TokenStream)
    ensures
        spells(s, term_rest(left, s), expr_tokens(left), |tree: ExprView| expr_tokens(tree)),
    decreases s.tokens.len(), 2nat,
{
    lemma_term_rest(left, s);
    if let Ok(tree) = term_rest(left, s).result {
        let token = s.head()->Ok_0;
        match additive(token.kind) {
            None => {
                assert(taken(s, 0) =~= Seq::<KindView>::empty());
                assert(expr_tokens(left) + taken(s, 0) =~= expr_tokens(left));
            },
            Some(op) => {
                lemma_taken_one(s);
                let right = factor(s.tail());
                lemma_factor_spells(s.tail());
                let operand = right.result->Ok_0;
                let n = right.used;
                let joined = ExprView::Binary(op, Box::new(left), Box::new(operand));
                let more = term_rest(joined, s.drop(n + 1));
                lemma_term_rest_spells(joined, s.drop(n + 1));
                lemma_taken_twice(s, 1, n);
                lemma_taken_twice(s, n + 1, more.used);
                assert(expr_tokens(joined) =~= expr_tokens(left) + taken(s, n + 1));
                assert(expr_tokens(tree) =~= expr_tokens(left) + taken(s, more.used + n + 1));
            },
        }
    }
}

/// The tree of a term spells the tokens that were taken for it.
pub proof fn lemma_term_spells(s: TokenStream)
    ensures
        spells(s, term(s), Seq::empty(), |tree: ExprView| expr_tokens(tree)),
    decreases s.tokens.len(), 3nat,
{
    lemma_term(s);
    if let Ok(tree) = term(s).result {
        let first = factor(s);
        lemma_factor_spells(s);
        let left = first.result->Ok_0;
        let more = term_rest(left, s.drop(first.used));
        lemma_term_rest_spells(left, s.drop(first.used));
        lemma_taken_twice(s, first.used, more.used);
        assert(expr_tokens(tree) =~= Seq::<KindView>::empty() + taken(s, more.used + first.used));
    }
}

/// The tree of an expression spells the tokens that were taken for it.
pub proof fn lemma_expr_spells(s: TokenStream)
    ensures
        spells(s, expr(s), Seq::empty(), |tree: ExprView| expr_tokens(tree)),
    decreases s.tokens.len(), 4nat,
{
    lemma_expr(s);
    lemma_term_spells(s);
}

/// The statement of a declaration spells `let` and then the tokens that were
/// taken behind it.
pub proof fn lemma_let_spells(s: TokenStream)
    ensures
        spells(
            s,
            let_decl(s),
            seq![KindView::Identifier(let_word())],
            |stmt: StmtView| stmt_tokens(stmt),
        ),
{
    reveal(let_decl);
    if let Ok(stmt) = let_decl(s).result {
        lemma_taken_one(s);
        lemma_taken_one(s.drop(1));
        let value = expr(s.drop(2));
        lemma_expr_spells(s.drop(2));
        let n = value.used;
        lemma_drop_drop(s, 1, 1);
        assert(s.drop(n + 2).tokens.len() > 0);
        lemma_taken_one(s.drop(n + 2));
        lemma_taken_twice(s, 1, 1);
        lemma_taken_twice(s, 2, n);
        lemma_taken_twice(s, n + 2, 1);
        assert(stmt_tokens(stmt) =~= seq![KindView::Identifier(let_word())] + taken(s, n + 3));
    }
}

/// The statements of a program spell the tokens that were taken for them,
/// and `End` is what comes behind them.
pub proof fn lemma_program_spells(s: TokenStream)
    ensures
        spells(s, program(s), Seq::empty(), |stmts: Seq<StmtView>| program_tokens(stmts)),
        program(s).result is Ok ==> (s.drop(program(s).used).head() matches Ok(token)
            && token.kind is End),
    decreases s.tokens.len(),
{
    reveal(program);
    if let Ok(stmts) = program(s).result {
        let token = s.head()->Ok_0;
        if token.kind is End {
            assert(s.drop(0).tokens =~= s.tokens);
            assert(program_tokens(stmts) =~= Seq::<KindView>::empty() + taken(s, 0));
        } else {
            lemma_taken_one(s);
            let first = let_decl(s.tail());
            lemma_let_spells(s.tail());
            let n = first.used;
            let rest = program(s.drop(n + 1));
            lemma_program_spells(s.drop(n + 1));
            lemma_drop_drop(s, n + 1, rest.used);
            lemma_taken_twice(s, 1, n);
            lemma_taken_twice(s, n + 1, rest.used);
            let stmt = first.result->Ok_0;
            let more = rest.result->Ok_0;
            assert(stmts.skip(1) =~= more);
            assert(program_tokens(stmts) =~= Seq::<KindView>::empty() + taken(
                s,
                rest.used + n + 1,
            ));
        }
    }
}

/// A text that parses is parsed whole: the statements spell every token of
/// the text, in order, and the text ends without an error.
pub proof fn lemma_parse_spells(src: Seq<u8>)
    ensures
        parse_of(src) matches Ok(stmts) ==> {
            &&& tokenize(decoded(src), malformed(src)).end is End
            &&& program_tokens(stmts) == kinds_of(tokenize(decoded(src), malformed(src)).tokens)
        },
{
    if let Ok(stmts) = parse_of(src) {
        let at = Cursor::start(decoded(src), malformed(src));
        let s = tokenize(decoded(src), malformed(src));
        lemma_program_spells(s);
        lemma_stream_in_order(at);
        let used = program(s).used;
        if used < s.tokens.len() {
            assert(s.drop(used).tokens[0] == s.tokens[used as int]);
        }
        assert(s.tokens.take(used as int) =~= s.tokens);
        assert(program_tokens(stmts) =~= Seq::<KindView>::empty() + taken(s, used));
    }
}

/// Whether every number in an expression is made of digits and of at least
/// one.  Only the shapes that the grammar gives are looked into.
pub open spec fn numbers_are_digits(tree: ExprView) -> bool
    decreases tree,
{
    match tree {
        ExprView::NumLit(digits) => digits.len() > 0 && forall|i: int|
            0 <= i < digits.len() ==> digit(#[trigger] digits[i]),
        ExprView::Group(inner) => numbers_are_digits(*inner),
        ExprView::Binary(_, left, right) => numbers_are_digits(*left) && numbers_are_digits(
            *right,
        ),
        _ => true,
    }
}

/// Where every token that an expression spells can be written, its numbers
/// are made of digits.
pub proof fn lemma_numbers_of_written(tree: ExprView)
    requires
        forall|i: int|
            0 <= i < expr_tokens(tree).len() ==> writable(#[trigger] expr_tokens(tree)[i]),
    ensures
        numbers_are_digits(tree),
    decreases tree,
{
    let all = expr_tokens(tree);
    match tree {
        ExprView::NumLit(digits) => {
            assert(writable(all[0]));
        },
        ExprView::Group(inner) => {
            let part = expr_tokens(*inner);
            assert forall|i: int| 0 <= i < part.len() implies writable(#[trigger] part[i]) by {
                assert(part[i] == all[i + 1]);
            }
            lemma_numbers_of_written(*inner);
        },
        ExprView::Binary(op, left, right) => {
            let first = expr_tokens(*left);
            let second = expr_tokens(*right);
            assert forall|i: int| 0 <= i < first.len() implies writable(#[trigger] first[i]) by {
                assert(first[i] == all[i]);
            }
            assert forall|i: int| 0 <= i < second.len() implies writable(#[trigger] second[i]) by {
                assert(second[i] == all[first.len() + 1 + i]);
            }
            lemma_numbers_of_written(*left);
            lemma_numbers_of_written(*right);
        },
        _ => {},
    }
}

/// The tokens that the statements from `from` on spell are among those that
/// the whole program spells.
proof fn lemma_program_tokens_hold(stmts: Seq<StmtView>, k: int, i: int)
    requires
        0 <= k < stmts.len(),
        0 <= i < stmt_tokens(stmts[k]).len(),
    ensures
        exists|j: int|
            0 <= j < program_tokens(stmts).len() && program_tokens(stmts)[j] == stmt_tokens(
                stmts[k],
            )[i],
    decreases stmts.len(),
{
    let head = stmt_tokens(stmts[0]);
    let rest = program_tokens(stmts.skip(1));
    if k == 0 {
        assert(program_tokens(stmts)[i] == head[i]);
    } else {
        assert(stmts.skip(1)[k - 1] == stmts[k]);
        lemma_program_tokens_hold(stmts.skip(1), k - 1, i);
        let j = choose|j: int| 0 <= j < rest.len() && rest[j] == stmt_tokens(stmts[k])[i];
        assert(program_tokens(stmts)[head.len() + j] == rest[j]);
    }
}

/// In a parsed text every number is made of digits, and of at least one: to
/// read its value cannot fail.
pub proof fn lemma_parsed_numbers_are_digits(src: Seq<u8>, k: int)
    requires
        parse_of(src) is Ok,
        0 <= k < parse_of(src)->Ok_0.len(),
    ensures
        parse_of(src)->Ok_0[k] matches StmtView::LetDecl { value, .. } ==> numbers_are_digits(
            value,
        ),
{
    let stmts = parse_of(src)->Ok_0;
    let at = Cursor::start(decoded(src), malformed(src));
    let tokens = tokenize(decoded(src), malformed(src)).tokens;
    lemma_parse_spells(src);
    lemma_tokens_are_writable(at);
    match stmts[k] {
        StmtView::LetDecl { name, value } => {
            let part = expr_tokens(value);
            let whole = stmt_tokens(stmts[k]);
            assert forall|i: int| 0 <= i < part.len() implies writable(#[trigger] part[i]) by {
                assert(whole[i + 3] == part[i]);
                lemma_program_tokens_hold(stmts, k, i + 3);
                let j = choose|j: int|
                    0 <= j < program_tokens(stmts).len() && program_tokens(stmts)[j] == whole[i
                        + 3];
                assert(kinds_of(tokens)[j] == tokens[j].kind);
            }
            lemma_numbers_of_written(value);
        },
        StmtView::BlockDecl(_) => {},
    }
}

} // verus!
