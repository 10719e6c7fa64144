//! What holds of every token stream.

use super::error::LexError;
use super::scan::{
    blank, classify, digit, in_string, in_word, lemma_bump_by, lemma_run_len, lemma_scan_consumes,
    run, scan, stream_of, symbol, tokenize, Class, Cursor, StreamEnd,
};
use super::token::{KindView, TokenView};
use vstd::prelude::*;

verus! {

/// The first place stands in the text before the second one.
pub open spec fn before(row: nat, col: nat, later_row: nat, later_col: nat) -> bool {
    row < later_row || (row == later_row && col < later_col)
}

/// The first place stands in the text before the second one, or they are the
/// same place.
pub open spec fn up_to(row: nat, col: nat, later_row: nat, later_col: nat) -> bool {
    row < later_row || (row == later_row && col <= later_col)
}

/// Moving over characters never leads back, and moving over at least one
/// leads on.
pub proof fn lemma_bump_by_leads_on(at: Cursor, n: nat)
    ensures
        up_to(at.row, at.col, at.bump_by(n).row, at.bump_by(n).col),
        n > 0 && at.chars.len() > 0 ==> before(
            at.row,
            at.col,
            at.bump_by(n).row,
            at.bump_by(n).col,
        ),
    decreases n,
{
    if n > 0 {
        lemma_bump_by_leads_on(at, (n - 1) as nat);
        if n == 1 {
            assert(at.bump_by(0) == at);
        }
    }
}

/// A token starts at the cursor or behind it; the cursor behind the token
/// stands behind its start, and for the `End` token at its start.
pub proof fn lemma_scan_leads_on(at: Cursor)
    ensures
        scan(at).outcome matches Ok(token) ==> {
            &&& up_to(at.row, at.col, token.row, token.col)
            &&& up_to(token.row, token.col, scan(at).rest.row, scan(at).rest.col)
            &&& !(token.kind is End) ==> before(
                token.row,
                token.col,
                scan(at).rest.row,
                scan(at).rest.col,
            )
        },
    decreases at.chars.len(),
{
    if at.chars.len() > 0 {
        let body = at.chars.skip(1);
        assert(at.bump_by(1) == at.bump_by(0).bump());
        match classify(at.chars[0]) {
            Class::Symbol(kind) => {},
            Class::Angle => {},
            Class::Quote => {
                let n = run(body, |c: char| in_string(c));
                lemma_bump_by_leads_on(at, n + 1);
                lemma_bump_by_leads_on(at, n + 2);
            },
            Class::Letter => {
                lemma_bump_by_leads_on(at, 1 + run(body, |c: char| in_word(c)));
            },
            Class::Digit => {
                lemma_bump_by_leads_on(at, 1 + run(body, |c: char| digit(c)));
            },
            Class::Blank => {
                lemma_scan_leads_on(at.bump());
            },
            Class::Other => {},
        }
    }
}

/// The tokens of a stream stand in the order of the text: none starts
/// before the cursor, each starts before the next one, and the end comes
/// behind them all.  None of them is `End`.
pub proof fn lemma_stream_in_order(at: Cursor)
    ensures
        forall|i: int|
            0 <= i < stream_of(at).tokens.len() ==> up_to(
                at.row,
                at.col,
                (#[trigger] stream_of(at).tokens[i]).row,
                stream_of(at).tokens[i].col,
            ),
        forall|i: int, j: int|
            0 <= i < j < stream_of(at).tokens.len() ==> before(
                (#[trigger] stream_of(at).tokens[i]).row,
                stream_of(at).tokens[i].col,
                (#[trigger] stream_of(at).tokens[j]).row,
                stream_of(at).tokens[j].col,
            ),
        forall|i: int|
            0 <= i < stream_of(at).tokens.len() ==> !((#[trigger] stream_of(at).tokens[i]).kind
                is End),
        stream_of(at).end matches StreamEnd::End { row, col } ==> {
            &&& up_to(at.row, at.col, row, col)
            &&& forall|i: int|
                0 <= i < stream_of(at).tokens.len() ==> before(
                    (#[trigger] stream_of(at).tokens[i]).row,
                    stream_of(at).tokens[i].col,
                    row,
                    col,
                )
        },
    decreases at.chars.len(),
{
    let step = scan(at);
    lemma_scan_leads_on(at);
    lemma_scan_consumes(at);
    match step.outcome {
        Err(_) => {},
        Ok(token) => {
            if !(token.kind is End) {
                let rest = stream_of(step.rest);
                let all = stream_of(at);
                lemma_stream_in_order(step.rest);
                assert(all.tokens =~= seq![token] + rest.tokens);
                assert forall|i: int| 0 <= i < all.tokens.len() implies up_to(
                    at.row,
                    at.col,
                    (#[trigger] all.tokens[i]).row,
                    all.tokens[i].col,
                ) && !(all.tokens[i].kind is End) by {
                    if i > 0 {
                        assert(all.tokens[i] == rest.tokens[i - 1]);
                    }
                }
                assert forall|i: int, j: int| 0 <= i < j < all.tokens.len() implies before(
                    (#[trigger] all.tokens[i]).row,
                    all.tokens[i].col,
                    (#[trigger] all.tokens[j]).row,
                    all.tokens[j].col,
                ) by {
                    assert(all.tokens[j] == rest.tokens[j - 1]);
                    if i > 0 {
                        assert(all.tokens[i] == rest.tokens[i - 1]);
                    }
                }
                match all.end {
                    StreamEnd::End { row, col } => {
                        assert forall|i: int| 0 <= i < all.tokens.len() implies before(
                            (#[trigger] all.tokens[i]).row,
                            all.tokens[i].col,
                            row,
                            col,
                        ) by {
                            if i > 0 {
                                assert(all.tokens[i] == rest.tokens[i - 1]);
                            }
                        }
                    },
                    StreamEnd::Failed(_) => {},
                }
            }
        },
    }
}

/// The characters that spell a token of the given kind.
pub open spec fn spelling(kind: KindView) -> Seq<char> {
    match kind {
        KindView::Equals => seq!['='],
        KindView::Plus => seq!['+'],
        KindView::Minus => seq!['-'],
        KindView::Star => seq!['*'],
        KindView::Slash => seq!['/'],
        KindView::Percent => seq!['%'],
        KindView::Caret => seq!['^'],
        KindView::Ampersand => seq!['&'],
        KindView::Identifier(text) => text,
        KindView::NumberLiteral(text) => text,
        KindView::StringLiteral(text) => seq!['"'] + text + seq!['"'],
        KindView::End => Seq::empty(),
        KindView::Semicolon => seq![';'],
        KindView::LessThan => seq!['<'],
        KindView::GreaterThan => seq!['>'],
        KindView::Pipe => seq!['>', '>'],
        KindView::LBrace => seq!['{'],
        KindView::RBrace => seq!['}'],
        KindView::LParen => seq!['('],
        KindView::RParen => seq![')'],
    }
}

/// Whether a token of the given kind can stand in a text: an identifier is
/// a letter and then characters that continue it, a number is one digit or
/// more, a string holds no double quote.  `End` stands in no text.
pub open spec fn writable(kind: KindView) -> bool {
    match kind {
        KindView::Identifier(text) => {
            &&& text.len() > 0
            &&& classify(text[0]) is Letter
            &&& forall|i: int| 1 <= i < text.len() ==> in_word(#[trigger] text[i])
        },
        KindView::NumberLiteral(text) => {
            &&& text.len() > 0
            &&& forall|i: int| 0 <= i < text.len() ==> digit(#[trigger] text[i])
        },
        KindView::StringLiteral(text) => forall|i: int|
            0 <= i < text.len() ==> in_string(#[trigger] text[i]),
        KindView::End => false,
        _ => true,
    }
}

/// Whether the character `c`, standing right behind a token of the given
/// kind, leaves the token as it is: it does not continue an identifier or a
/// number, and it does not make a pipe of a greater-than sign.
pub open spec fn ends(kind: KindView, c: char) -> bool {
    match kind {
        KindView::Identifier(_) => !in_word(c),
        KindView::NumberLiteral(_) => !digit(c),
        KindView::GreaterThan => c != '>',
        _ => true,
    }
}

/// Whether `text` is made of tokens of the given kinds and of nothing else
/// but blanks before, between and behind them.  Each token is written as
/// [`spelling`] has it, and what follows it at once [`ends`] it.
pub open spec fn made_of(text: Seq<char>, kinds: Seq<KindView>) -> bool
    decreases kinds.len(), text.len(),
{
    if text.len() > 0 && blank(text[0]) {
        made_of(text.skip(1), kinds)
    } else if kinds.len() == 0 {
        text.len() == 0
    } else {
        let word = spelling(kinds[0]);
        let behind = text.skip(word.len() as int);
        &&& writable(kinds[0])
        &&& word.len() <= text.len()
        &&& text.take(word.len() as int) == word
        &&& behind.len() > 0 ==> ends(kinds[0], behind[0])
        &&& made_of(behind, kinds.skip(1))
    }
}

/// The text that spells the given kinds one after the other, with a space
/// behind each.
pub open spec fn written(kinds: Seq<KindView>) -> Seq<char>
    decreases kinds.len(),
{
    if kinds.len() == 0 {
        Seq::empty()
    } else {
        spelling(kinds[0]) + seq![' '] + written(kinds.skip(1))
    }
}

/// The kinds of the tokens of a sequence, in its order.
pub open spec fn kinds_of(tokens: Seq<TokenView>) -> Seq<KindView> {
    tokens.map_values(|token: TokenView| token.kind)
}

/// A run ends where the first character stands that is not accepted.
pub proof fn lemma_run_ends(chars: Seq<char>, accepts: spec_fn(char) -> bool, n: nat)
    requires
        n <= chars.len(),
        forall|i: int| 0 <= i < n ==> accepts(#[trigger] chars[i]),
        n < chars.len() ==> !accepts(chars[n as int]),
    ensures
        run(chars, accepts) == n,
    decreases n,
{
    if n > 0 {
        let rest = chars.skip(1);
        assert forall|i: int| 0 <= i < n - 1 implies accepts(#[trigger] rest[i]) by {
            assert(rest[i] == chars[i + 1]);
        }
        lemma_run_ends(rest, accepts, (n - 1) as nat);
    }
}

/// One written token reads back as itself, and the cursor stands behind it.
proof fn lemma_token_reads_back(kind: KindView, behind: Seq<char>, at: Cursor)
    requires
        writable(kind),
        at.chars == spelling(kind) + behind,
        behind.len() > 0 ==> ends(kind, behind[0]),
        !at.tainted,
    ensures
        scan(at).outcome == Ok::<TokenView, LexError>(at.token(kind)),
        scan(at).rest.chars == behind,
        !scan(at).rest.tainted,
{
    let word = spelling(kind);
    let n = word.len();
    assert(at.chars.len() == n + behind.len());
    assert forall|i: int| 0 <= i < n implies at.chars[i] == word[i] by {}
    if behind.len() > 0 {
        assert(at.chars[n as int] == behind[0]);
    }
    assert(at.chars.skip(n as int) =~= behind);
    assert(at.chars.take(n as int) =~= word);
    assert(at.bump_by(1) == at.bump_by(0).bump());
    assert(at.bump_by(2) == at.bump_by(1).bump());
    match kind {
        KindView::Identifier(text) => {
            let body = at.chars.skip(1);
            let accepts = |c: char| in_word(c);
            assert forall|i: int| 0 <= i < n - 1 implies accepts(#[trigger] body[i]) by {
                assert(body[i] == text[i + 1]);
            }
            if behind.len() > 0 {
                assert(body[n - 1] == behind[0]);
            }
            lemma_run_ends(body, accepts, (n - 1) as nat);
            lemma_bump_by(at, n);
        },
        KindView::NumberLiteral(text) => {
            let body = at.chars.skip(1);
            let accepts = |c: char| digit(c);
            assert(digit(text[0]));
            assert forall|i: int| 0 <= i < n - 1 implies accepts(#[trigger] body[i]) by {
                assert(body[i] == text[i + 1]);
            }
            if behind.len() > 0 {
                assert(body[n - 1] == behind[0]);
            }
            lemma_run_ends(body, accepts, (n - 1) as nat);
            lemma_bump_by(at, n);
        },
        KindView::StringLiteral(text) => {
            let body = at.chars.skip(1);
            let accepts = |c: char| in_string(c);
            assert(word[0] == '"');
            assert(n == text.len() + 2);
            assert forall|i: int| 0 <= i < text.len() implies accepts(#[trigger] body[i]) by {
                assert(body[i] == word[i + 1]);
                assert(word[i + 1] == text[i]);
            }
            assert(body[text.len() as int] == word[text.len() as int + 1]);
            assert(word[text.len() as int + 1] == '"');
            lemma_run_ends(body, accepts, text.len());
            lemma_bump_by(at, n);
            assert(body.take(text.len() as int) =~= text);
        },
        KindView::Pipe => {
            assert(at.chars[0] == '>');
            assert(at.chars[1] == '>');
            lemma_bump_by(at, 1);
            lemma_bump_by(at, 2);
        },
        KindView::GreaterThan => {
            assert(at.chars[0] == '>');
            lemma_bump_by(at, 1);
        },
        KindView::End => {},
        _ => {
            assert(symbol(at.chars[0]) == Some(kind));
            lemma_bump_by(at, 1);
        },
    }
}

/// A text made of tokens reads back from any cursor.
proof fn lemma_made_of_from(text: Seq<char>, kinds: Seq<KindView>, at: Cursor)
    requires
        made_of(text, kinds),
        at.chars == text,
        !at.tainted,
    ensures
        stream_of(at).end is End,
        kinds_of(stream_of(at).tokens) == kinds,
    decreases kinds.len(), text.len(),
{
    if text.len() > 0 && blank(text[0]) {
        assert(scan(at) == scan(at.bump()));
        lemma_made_of_from(text.skip(1), kinds, at.bump());
    } else if kinds.len() == 0 {
        assert(kinds_of(stream_of(at).tokens) =~= kinds);
    } else {
        let first = kinds[0];
        let others = kinds.skip(1);
        let word = spelling(first);
        let behind = text.skip(word.len() as int);
        assert(text =~= word + behind);
        lemma_token_reads_back(first, behind, at);
        let next = scan(at).rest;
        lemma_made_of_from(behind, others, next);
        let token = at.token(first);
        assert(stream_of(at) == stream_of(next).after(token));
        assert(kinds_of(stream_of(at).tokens) =~= seq![first] + kinds_of(stream_of(next).tokens));
        assert(seq![first] + others =~= kinds);
    }
}

/// A text that is made of tokens and blanks reads back as those tokens: the
/// lexer gives them in the order in which they stand in the text, each as it
/// was written, and then the end of the text, once, and no error.
pub proof fn lemma_tokens_read_back(text: Seq<char>, kinds: Seq<KindView>)
    requires
        made_of(text, kinds),
    ensures
        tokenize(text, false).end is End,
        kinds_of(tokenize(text, false).tokens) == kinds,
{
    lemma_made_of_from(text, kinds, Cursor::start(text, false));
}

/// Tokens that can be written make a text when a space is put behind each.
pub proof fn lemma_written_is_made_of(kinds: Seq<KindView>)
    requires
        forall|i: int| 0 <= i < kinds.len() ==> writable(#[trigger] kinds[i]),
    ensures
        made_of(written(kinds), kinds),
    decreases kinds.len(),
{
    if kinds.len() > 0 {
        let first = kinds[0];
        let others = kinds.skip(1);
        let word = spelling(first);
        let text = written(kinds);
        let behind = seq![' '] + written(others);
        assert(writable(first));
        assert(word.len() > 0);
        assert(text =~= word + behind);
        assert(text[0] == word[0]);
        assert(!blank(word[0]));
        assert(text.take(word.len() as int) =~= word);
        assert(text.skip(word.len() as int) =~= behind);
        assert(behind[0] == ' ');
        assert(behind.skip(1) =~= written(others));
        assert forall|i: int| 0 <= i < others.len() implies writable(#[trigger] others[i]) by {
            assert(others[i] == kinds[i + 1]);
        }
        lemma_written_is_made_of(others);
        assert(made_of(behind, others));
    }
}

/// Tokens written one after the other, with a space behind each, read back
/// as they were written.
pub proof fn lemma_written_text_reads_back(kinds: Seq<KindView>)
    requires
        forall|i: int| 0 <= i < kinds.len() ==> writable(#[trigger] kinds[i]),
    ensures
        tokenize(written(kinds), false).end is End,
        kinds_of(tokenize(written(kinds), false).tokens) == kinds,
{
    lemma_written_is_made_of(kinds);
    lemma_tokens_read_back(written(kinds), kinds);
}

/// Every character of a run is accepted.
pub proof fn lemma_run_accepts(chars: Seq<char>, accepts: spec_fn(char) -> bool)
    ensures
        run(chars, accepts) <= chars.len(),
        forall|i: int| 0 <= i < run(chars, accepts) ==> accepts(#[trigger] chars[i]),
    decreases chars.len(),
{
    if chars.len() > 0 && accepts(chars[0]) {
        let rest = chars.skip(1);
        lemma_run_accepts(rest, accepts);
        lemma_run_len(rest, accepts);
        assert forall|i: int| 0 <= i < run(chars, accepts) implies accepts(#[trigger] chars[i]) by {
            if i > 0 {
                assert(chars[i] == rest[i - 1]);
            }
        }
    }
}

/// What a step gives can be written.
pub proof fn lemma_scan_gives_writable(at: Cursor)
    ensures
        scan(at).outcome matches Ok(token) ==> token.kind is End || writable(token.kind),
    decreases at.chars.len(),
{
    if at.chars.len() > 0 {
        let body = at.chars.skip(1);
        match classify(at.chars[0]) {
            Class::Quote => {
                let n = run(body, |c: char| in_string(c));
                lemma_run_len(body, |c: char| in_string(c));
                lemma_run_accepts(body, |c: char| in_string(c));
            },
            Class::Letter => {
                let n = run(body, |c: char| in_word(c));
                lemma_run_len(body, |c: char| in_word(c));
                lemma_run_accepts(body, |c: char| in_word(c));
                let text = at.chars.take(n as int + 1);
                assert forall|i: int| 1 <= i < text.len() implies in_word(#[trigger] text[i]) by {
                    assert(text[i] == body[i - 1]);
                }
            },
            Class::Digit => {
                let n = run(body, |c: char| digit(c));
                lemma_run_len(body, |c: char| digit(c));
                lemma_run_accepts(body, |c: char| digit(c));
                let text = at.chars.take(n as int + 1);
                assert forall|i: int| 0 <= i < text.len() implies digit(#[trigger] text[i]) by {
                    if i > 0 {
                        assert(text[i] == body[i - 1]);
                    }
                }
            },
            Class::Blank => {
                lemma_scan_gives_writable(at.bump());
            },
            _ => {},
        }
    }
}

/// The lexer gives no token that could not be written: every identifier is
/// a letter and what continues it, every number is digits and at least one,
/// and no string holds a double quote.
pub proof fn lemma_tokens_are_writable(at: Cursor)
    ensures
        forall|i: int|
            0 <= i < stream_of(at).tokens.len() ==> writable(
                (#[trigger] stream_of(at).tokens[i]).kind,
            ),
    decreases at.chars.len(),
{
    let step = scan(at);
    lemma_scan_gives_writable(at);
    lemma_scan_consumes(at);
    match step.outcome {
        Err(_) => {},
        Ok(token) => {
            if !(token.kind is End) {
                let rest = stream_of(step.rest);
                let all = stream_of(at);
                lemma_tokens_are_writable(step.rest);
                assert(all.tokens =~= seq![token] + rest.tokens);
                assert forall|i: int| 0 <= i < all.tokens.len() implies writable(
                    (#[trigger] all.tokens[i]).kind,
                ) by {
                    if i > 0 {
                        assert(all.tokens[i] == rest.tokens[i - 1]);
                    }
                }
            }
        },
    }
}

} // verus!
