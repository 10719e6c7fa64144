//! The lexical rules, as mathematics.
//!
//! A [`Cursor`] stands in the text at a row and a column.  [`scan`] says
//! which token comes next at a cursor and where the cursor stands behind it;
//! [`stream_of`] says which tokens a cursor has before it, one after the
//! other, and how they end.

use super::error::{InvalidChar, LexError, MalformedInput};
use super::token::{KindView, TokenView};
use vstd::prelude::*;

verus! {

/// Whether `c` is alphabetic as `char::is_alphabetic` has it.
pub uninterp spec fn alphabetic(c: char) -> bool;

/// Whether `c` is alphabetic or numeric as `char::is_alphanumeric` has it.
pub uninterp spec fn alphanumeric(c: char) -> bool;

/// Assumed of `char::is_alphabetic`: what it returns depends on the character
/// alone.  That value is called [`alphabetic`]; which characters have it is
/// left to the function.
pub assume_specification[ char::is_alphabetic ](c: char) -> (r: bool)
    ensures
        r == alphabetic(c),
;

/// Assumed of `char::is_alphanumeric`: what it returns depends on the
/// character alone.  That value is called [`alphanumeric`]; which characters
/// have it is left to the function.
pub assume_specification[ char::is_alphanumeric ](c: char) -> (r: bool)
    ensures
        r == alphanumeric(c),
;

/// The token that the single character `c` spells, if it spells one.
pub open spec fn symbol(c: char) -> Option<KindView> {
    if c == '=' {
        Some(KindView::Equals)
    } else if c == '+' {
        Some(KindView::Plus)
    } else if c == '-' {
        Some(KindView::Minus)
    } else if c == '*' {
        Some(KindView::Star)
    } else if c == '/' {
        Some(KindView::Slash)
    } else if c == '%' {
        Some(KindView::Percent)
    } else if c == '^' {
        Some(KindView::Caret)
    } else if c == '&' {
        Some(KindView::Ampersand)
    } else if c == ';' {
        Some(KindView::Semicolon)
    } else if c == '{' {
        Some(KindView::LBrace)
    } else if c == '}' {
        Some(KindView::RBrace)
    } else if c == '(' {
        Some(KindView::LParen)
    } else if c == ')' {
        Some(KindView::RParen)
    } else if c == '<' {
        Some(KindView::LessThan)
    } else {
        None
    }
}

/// A decimal digit, `0` to `9`.
pub open spec fn digit(c: char) -> bool {
    '0' <= c && c <= '9'
}

/// A character that continues a string literal: any but the double quote.
pub open spec fn in_string(c: char) -> bool {
    c != '"'
}

/// A tab, a space or a newline.
pub open spec fn blank(c: char) -> bool {
    c == '\t' || c == ' ' || c == '\n'
}

/// A character with a meaning of its own in the text: a symbol, `>`, the
/// double quote or a blank.
pub open spec fn reserved(c: char) -> bool {
    symbol(c) is Some || c == '>' || c == '"' || blank(c)
}

/// A character that continues an identifier: an alphanumeric one.  A
/// reserved character never does, whatever `char::is_alphanumeric` makes of
/// it.
pub open spec fn in_word(c: char) -> bool {
    alphanumeric(c) && !reserved(c)
}

/// How a character is treated where a token may start.  The classes are
/// tried in the order in which they stand here.
pub ghost enum Class {
    /// The character is a token by itself.
    Symbol(KindView),
    /// `>`: a greater-than sign, or the first half of a pipe.
    Angle,
    /// `"`: a string literal begins.
    Quote,
    /// A number begins.
    Digit,
    /// The character is skipped.
    Blank,
    /// An identifier begins.
    Letter,
    /// No token begins with the character.
    Other,
}

/// The class of `c`.
pub open spec fn classify(c: char) -> Class {
    if symbol(c) is Some {
        Class::Symbol(symbol(c)->0)
    } else if c == '>' {
        Class::Angle
    } else if c == '"' {
        Class::Quote
    } else if digit(c) {
        Class::Digit
    } else if blank(c) {
        Class::Blank
    } else if alphabetic(c) {
        Class::Letter
    } else {
        Class::Other
    }
}

/// The length of the longest prefix of `chars` whose characters all satisfy
/// `accepts`.
pub open spec fn run(chars: Seq<char>, accepts: spec_fn(char) -> bool) -> nat
    decreases chars.len(),
{
    if chars.len() > 0 && accepts(chars[0]) {
        1 + run(chars.skip(1), accepts)
    } else {
        0
    }
}

/// A place in the text: what is still to be read, and the row and column of
/// its first character.  Rows and columns count from 1.
pub ghost struct Cursor {
    /// The characters to come.
    pub chars: Seq<char>,
    /// Whether malformed bytes follow the last of `chars`.
    pub tainted: bool,
    /// The row of the next character.
    pub row: nat,
    /// The column of the next character.
    pub col: nat,
}

impl Cursor {
    /// The cursor at the start of a text.
    pub open spec fn start(chars: Seq<char>, tainted: bool) -> Cursor {
        Cursor { chars, tainted, row: 1, col: 1 }
    }

    /// The cursor behind the next character: a newline leads to the first
    /// column of the next row, any other character to the next column.  At
    /// the end of the text the cursor stays.
    pub open spec fn bump(self) -> Cursor {
        if self.chars.len() == 0 {
            self
        } else if self.chars[0] == '\n' {
            Cursor { chars: self.chars.skip(1), row: self.row + 1, col: 1, ..self }
        } else {
            Cursor { chars: self.chars.skip(1), col: self.col + 1, ..self }
        }
    }

    /// The cursor behind the next `n` characters.
    pub open spec fn bump_by(self, n: nat) -> Cursor
        decreases n,
    {
        if n == 0 {
            self
        } else {
            self.bump_by((n - 1) as nat).bump()
        }
    }

    /// Whether the text ends here because of malformed bytes.
    pub open spec fn broken(self) -> bool {
        self.chars.len() == 0 && self.tainted
    }

    /// The token of the given kind that starts here.
    pub open spec fn token(self, kind: KindView) -> TokenView {
        TokenView { kind, row: self.row, col: self.col }
    }
}

/// One step of the lexer: the token that was recognised, or the error, and
/// the cursor behind what was consumed for it.
pub ghost struct Scan {
    pub outcome: Result<TokenView, LexError>,
    pub rest: Cursor,
}

/// The outcome that the malformed bytes at `rest` give.
pub open spec fn malformed_at(rest: Cursor) -> Scan {
    Scan { outcome: Err(LexError::Malformed(MalformedInput)), rest }
}

/// At a `>`: a pipe where a second `>` follows at once, else a greater-than
/// sign.
pub open spec fn scan_angle(at: Cursor) -> Scan {
    let rest = at.bump();
    if rest.broken() {
        malformed_at(rest)
    } else if rest.chars.len() > 0 && rest.chars[0] == '>' {
        Scan { outcome: Ok(at.token(KindView::Pipe)), rest: rest.bump() }
    } else {
        Scan { outcome: Ok(at.token(KindView::GreaterThan)), rest }
    }
}

/// At an alphabetic character: the identifier made of it and of the
/// alphanumeric characters that follow it.
pub open spec fn scan_word(at: Cursor) -> Scan {
    let n = 1 + run(at.chars.skip(1), |c: char| in_word(c));
    let rest = at.bump_by(n);
    if rest.broken() {
        malformed_at(rest)
    } else {
        Scan { outcome: Ok(at.token(KindView::Identifier(at.chars.take(n as int)))), rest }
    }
}

/// At a digit: the number made of it and of the digits that follow it, as
/// text.
pub open spec fn scan_number(at: Cursor) -> Scan {
    let n = 1 + run(at.chars.skip(1), |c: char| digit(c));
    let rest = at.bump_by(n);
    if rest.broken() {
        malformed_at(rest)
    } else {
        Scan { outcome: Ok(at.token(KindView::NumberLiteral(at.chars.take(n as int)))), rest }
    }
}

/// At a double quote: the string literal that holds the characters up to the
/// next double quote, which is consumed too.  Nothing in it is an escape.
/// Where the text ends before a closing quote, the literal holds all that was
/// left.
pub open spec fn scan_string(at: Cursor) -> Scan {
    let body = at.chars.skip(1);
    let n = run(body, |c: char| in_string(c));
    if n < body.len() {
        Scan {
            outcome: Ok(at.token(KindView::StringLiteral(body.take(n as int)))),
            rest: at.bump_by(n + 2),
        }
    } else if at.tainted {
        malformed_at(at.bump_by(n + 1))
    } else {
        Scan { outcome: Ok(at.token(KindView::StringLiteral(body))), rest: at.bump_by(n + 1) }
    }
}

/// The next token at a cursor.
///
/// Blanks are skipped.  At the end of the text the token is `End`, at the
/// cursor's own position and with the cursor left where it is; where the text
/// ends in malformed bytes, the outcome is that error instead.  A character
/// that begins no token is an error and is not consumed.
pub open spec fn scan(at: Cursor) -> Scan
    decreases at.chars.len(),
{
    if at.chars.len() == 0 {
        if at.tainted {
            malformed_at(at)
        } else {
            Scan { outcome: Ok(at.token(KindView::End)), rest: at }
        }
    } else {
        match classify(at.chars[0]) {
            Class::Symbol(kind) => Scan { outcome: Ok(at.token(kind)), rest: at.bump() },
            Class::Angle => scan_angle(at),
            Class::Quote => scan_string(at),
            Class::Letter => scan_word(at),
            Class::Digit => scan_number(at),
            Class::Blank => scan(at.bump()),
            Class::Other => Scan { outcome: Err(LexError::Invalid(InvalidChar)), rest: at },
        }
    }
}

/// How a token stream ends.
pub ghost enum StreamEnd {
    /// The text is exhausted: every further request gives `End` at this
    /// position.
    End { row: nat, col: nat },
    /// A fatal error: every further request gives it again.
    Failed(LexError),
}

/// The tokens that a lexer has before it: those that stand in the text, none
/// of them `End`, and what comes behind the last of them for ever.
pub ghost struct TokenStream {
    pub tokens: Seq<TokenView>,
    pub end: StreamEnd,
}

impl TokenStream {
    /// What the next request gives.
    pub open spec fn head(self) -> Result<TokenView, LexError> {
        if self.tokens.len() > 0 {
            Ok(self.tokens[0])
        } else {
            match self.end {
                StreamEnd::End { row, col } => Ok(TokenView { kind: KindView::End, row, col }),
                StreamEnd::Failed(e) => Err(e),
            }
        }
    }

    /// The stream behind its next token.  A stream that has ended stays as it
    /// is.
    pub open spec fn tail(self) -> TokenStream {
        self.drop(1)
    }

    /// The stream behind its next `n` tokens, or at its end where it has
    /// fewer.
    pub open spec fn drop(self, n: nat) -> TokenStream {
        if n <= self.tokens.len() {
            TokenStream { tokens: self.tokens.skip(n as int), end: self.end }
        } else {
            TokenStream { tokens: Seq::empty(), end: self.end }
        }
    }

    /// The stream with one more token before it.
    pub open spec fn after(self, token: TokenView) -> TokenStream {
        TokenStream { tokens: seq![token] + self.tokens, end: self.end }
    }
}

/// The token stream that begins at a cursor.
pub open spec fn stream_of(at: Cursor) -> TokenStream
    decreases at.chars.len(),
    via stream_of_decreases
{
    let step = scan(at);
    match step.outcome {
        Err(e) => TokenStream { tokens: Seq::empty(), end: StreamEnd::Failed(e) },
        Ok(token) => if token.kind is End {
            TokenStream {
                tokens: Seq::empty(),
                end: StreamEnd::End { row: token.row, col: token.col },
            }
        } else {
            stream_of(step.rest).after(token)
        },
    }
}

#[via_fn]
proof fn stream_of_decreases(at: Cursor) {
    lemma_scan_consumes(at);
}

/// The token stream of a whole text.
pub open spec fn tokenize(chars: Seq<char>, tainted: bool) -> TokenStream {
    stream_of(Cursor::start(chars, tainted))
}

/// A run is no longer than the text it is taken from.
pub proof fn lemma_run_len(chars: Seq<char>, accepts: spec_fn(char) -> bool)
    ensures
        run(chars, accepts) <= chars.len(),
    decreases chars.len(),
{
    if chars.len() > 0 && accepts(chars[0]) {
        lemma_run_len(chars.skip(1), accepts);
    }
}

/// Behind `n` characters the cursor has `n` characters fewer before it, and
/// is tainted as before.
pub proof fn lemma_bump_by(at: Cursor, n: nat)
    requires
        n <= at.chars.len(),
    ensures
        at.bump_by(n).chars == at.chars.skip(n as int),
        at.bump_by(n).tainted == at.tainted,
    decreases n,
{
    if n == 0 {
        assert(at.chars.skip(0) =~= at.chars);
    } else {
        lemma_bump_by(at, (n - 1) as nat);
        assert(at.chars.skip(n - 1).skip(1) =~= at.chars.skip(n as int));
    }
}

/// A step never lengthens the text, leaves its taint alone, and shortens the
/// text wherever it gives a token other than `End`.
pub proof fn lemma_scan_consumes(at: Cursor)
    ensures
        scan(at).rest.chars.len() <= at.chars.len(),
        scan(at).rest.tainted == at.tainted,
        scan(at).outcome matches Ok(token) && !(token.kind is End) ==> scan(at).rest.chars.len()
            < at.chars.len(),
    decreases at.chars.len(),
{
    if at.chars.len() > 0 {
        let body = at.chars.skip(1);
        match classify(at.chars[0]) {
            Class::Symbol(kind) => {},
            Class::Angle => {},
            Class::Quote => {
                let n = run(body, |c: char| in_string(c));
                lemma_run_len(body, |c: char| in_string(c));
                if n < body.len() {
                    lemma_bump_by(at, n + 2);
                } else {
                    lemma_bump_by(at, n + 1);
                }
            },
            Class::Letter => {
                let n = 1 + run(body, |c: char| in_word(c));
                lemma_run_len(body, |c: char| in_word(c));
                lemma_bump_by(at, n);
            },
            Class::Digit => {
                let n = 1 + run(body, |c: char| digit(c));
                lemma_run_len(body, |c: char| digit(c));
                lemma_bump_by(at, n);
            },
            Class::Blank => {
                lemma_scan_consumes(at.bump());
            },
            Class::Other => {},
        }
    }
}

/// Dropping tokens in two goes is dropping them in one.
pub proof fn lemma_drop_drop(s: TokenStream, a: nat, b: nat)
    ensures
        s.drop(a).drop(b) == s.drop(a + b),
{
    if a + b <= s.tokens.len() {
        assert(s.tokens.skip(a as int).skip(b as int) =~= s.tokens.skip((a + b) as int));
    } else if a <= s.tokens.len() {
        assert(s.drop(a).drop(b).tokens =~= Seq::<TokenView>::empty());
    } else {
        assert(s.drop(a).drop(b).tokens =~= Seq::<TokenView>::empty());
    }
}

/// Dropping no token leaves the stream as it is.
pub proof fn lemma_drop_none(s: TokenStream)
    ensures
        s.drop(0) == s,
{
    assert(s.tokens.skip(0) =~= s.tokens);
}

} // verus!
