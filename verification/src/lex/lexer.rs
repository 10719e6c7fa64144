//! The lexer: tokens from characters, with one token of lookahead.

use super::buffered_char_reader::{
    decoded, lemma_decoded_len, lemma_decoded_of_text, malformed, BufCharacterReader,
};
use super::error::{InvalidChar, LexError, MalformedInput};
use super::scan::{
    classify, digit, in_string, in_word, lemma_bump_by, lemma_run_len, reserved, run, scan,
    scan_angle, scan_number, scan_string, scan_word, stream_of, tokenize, Class, Cursor,
    StreamEnd, TokenStream,
};
use super::token::{KindView, Token, TokenKind, TokenView};
use vstd::prelude::*;

verus! {

/// Assumed of `String::push`: it appends the character to the end of the
/// string and changes nothing else of it.
pub assume_specification[ String::push ](text: &mut String, c: char)
    ensures
        final(text)@ == old(text)@.push(c),
;

/// The number of characters that a new lexer can look ahead.
pub const LOOKAHEAD: usize = 10;

/// What a lexer is, as a mathematical value: the token it holds in its
/// lookahead slot, if any, and the cursor behind all it has consumed.
pub ghost struct LexState {
    pub held: Option<TokenView>,
    pub cursor: Cursor,
}

impl LexState {
    /// A held `End` was found at the clean end of the text, where the cursor
    /// still stands.
    pub open spec fn consistent(self) -> bool {
        match self.held {
            Some(token) => token.kind is End ==> self.cursor.chars.len() == 0
                && !self.cursor.tainted && token.row == self.cursor.row && token.col
                == self.cursor.col,
            None => true,
        }
    }

    /// What the next request for a token gives.
    pub open spec fn upcoming(self) -> Result<TokenView, LexError> {
        match self.held {
            Some(token) => Ok(token),
            None => scan(self.cursor).outcome,
        }
    }

    /// The state after a look at the next token: the token is held, unless
    /// the look failed.
    pub open spec fn peeked(self) -> LexState {
        match self.held {
            Some(_) => self,
            None => LexState {
                held: match scan(self.cursor).outcome {
                    Ok(token) => Some(token),
                    Err(_) => None,
                },
                cursor: scan(self.cursor).rest,
            },
        }
    }

    /// The state after the next token has been taken: nothing is held.
    pub open spec fn advanced(self) -> LexState {
        match self.held {
            Some(_) => LexState { held: None, cursor: self.cursor },
            None => LexState { held: None, cursor: scan(self.cursor).rest },
        }
    }

    /// The tokens to come, the held one first.
    pub open spec fn stream(self) -> TokenStream {
        match self.held {
            Some(token) => if token.kind is End {
                TokenStream {
                    tokens: Seq::empty(),
                    end: StreamEnd::End { row: token.row, col: token.col },
                }
            } else {
                stream_of(self.cursor).after(token)
            },
            None => stream_of(self.cursor),
        }
    }
}

/// The outcome of a request for a token, as a mathematical value.
pub open spec fn outcome_view(r: Result<Token, LexError>) -> Result<TokenView, LexError> {
    match r {
        Ok(token) => Ok(token@),
        Err(e) => Err(e),
    }
}

/// A lexer for the language.  It allows looking ahead one token.
pub struct Lexer<'a> {
    reader: BufCharacterReader<'a>,
    col: usize,
    row: usize,
    next_token: Option<Token>,
}

impl<'a> View for Lexer<'a> {
    type V = LexState;

    closed spec fn view(&self) -> LexState {
        LexState {
            held: match self.next_token {
                Some(token) => Some(token@),
                None => None,
            },
            cursor: Cursor {
                chars: self.reader@.chars,
                tainted: self.reader@.tainted,
                row: self.row as nat,
                col: self.col as nat,
            },
        }
    }
}

impl<'a> Lexer<'a> {
    /// The character source is in order, and the position can be advanced
    /// over all that is left without leaving `usize`.
    pub closed spec fn bounded(&self) -> bool {
        &&& self.reader.wf()
        &&& self.row >= 1
        &&& self.col >= 1
        &&& self.row + self.reader@.chars.len() <= usize::MAX
        &&& self.col + self.reader@.chars.len() <= usize::MAX
    }

    /// The invariant of the lexer.
    pub open spec fn wf(&self) -> bool {
        self.bounded() && self@.consistent()
    }

    /// In order and with nothing held: the state in which tokens are read.
    spec fn scanning(&self) -> bool {
        self.bounded() && self.next_token is None
    }

    /// What a lexer over `input` begins with: the token stream of the text
    /// that the bytes spell, or an error where malformed bytes stand within
    /// the first [`LOOKAHEAD`] characters.
    pub open spec fn opening(input: Seq<u8>) -> Result<TokenStream, LexError> {
        if malformed(input) && decoded(input).len() < LOOKAHEAD {
            Err(LexError::Malformed(MalformedInput))
        } else {
            Ok(tokenize(decoded(input), malformed(input)))
        }
    }

    /// Creates a new `Lexer` over the bytes of a source text.
    pub fn new(src: &'a [u8]) -> (r: Result<Lexer<'a>, LexError>)
        requires
            src@.len() < usize::MAX,
        ensures
            r is Err <==> Self::opening(src@) is Err,
            r matches Err(e) ==> Self::opening(src@) == Err::<TokenStream, LexError>(e),
            r matches Ok(lexer) ==> lexer.wf() && lexer@ == (LexState {
                held: None,
                cursor: Cursor::start(decoded(src@), malformed(src@)),
            }) && Self::opening(src@) == Ok::<TokenStream, LexError>(lexer@.stream()),
    {
        proof {
            lemma_decoded_len(src@);
        }
        match BufCharacterReader::new(src, LOOKAHEAD) {
            Err(e) => Err(LexError::Malformed(e)),
            Ok(reader) => Ok(Lexer { reader, col: 1, row: 1, next_token: None }),
        }
    }

    /// Moves the lexer over the next character and returns it.
    fn advance(&mut self) -> (r: Result<Option<char>, LexError>)
        requires
            old(self).scanning(),
        ensures
            final(self).scanning(),
            final(self)@.cursor == old(self)@.cursor.bump(),
            r == (if old(self)@.cursor.chars.len() > 0 {
                Ok::<Option<char>, LexError>(Some(old(self)@.cursor.chars[0]))
            } else if old(self)@.cursor.tainted {
                Err::<Option<char>, LexError>(LexError::Malformed(MalformedInput))
            } else {
                Ok::<Option<char>, LexError>(None)
            }),
    {
        match self.reader.next() {
            Err(e) => Err(LexError::Malformed(e)),
            Ok(None) => Ok(None),
            Ok(Some(c)) => {
                if c == '\n' {
                    self.row = self.row + 1;
                    self.col = 1;
                } else {
                    self.col = self.col + 1;
                }
                Ok(Some(c))
            },
        }
    }

    /// Looks at the next character without moving over it.
    fn peek_char(&mut self) -> (r: Result<Option<char>, LexError>)
        requires
            old(self).scanning(),
        ensures
            final(self).scanning(),
            final(self)@ == old(self)@,
            r == (if old(self)@.cursor.chars.len() > 0 {
                Ok::<Option<char>, LexError>(Some(old(self)@.cursor.chars[0]))
            } else if old(self)@.cursor.tainted {
                Err::<Option<char>, LexError>(LexError::Malformed(MalformedInput))
            } else {
                Ok::<Option<char>, LexError>(None)
            }),
    {
        match self.reader.peek() {
            Err(e) => Err(LexError::Malformed(e)),
            Ok(None) => Ok(None),
            Ok(Some(c)) => Ok(Some(*c)),
        }
    }

    /// Yields the end-of-input token at the lexer's position.
    fn return_end_of_input_token(&mut self) -> (r: Result<Token, LexError>)
        requires
            old(self).scanning(),
        ensures
            final(self).scanning(),
            final(self)@ == old(self)@,
            outcome_view(r) == Ok::<TokenView, LexError>(old(self)@.cursor.token(KindView::End)),
    {
        Ok(Token { kind: TokenKind::End, row: self.row, col: self.col })
    }

    /// Lexes `>` or `>>`.
    fn lex_greater_than_or_pipe(&mut self) -> (r: Result<Token, LexError>)
        requires
            old(self).scanning(),
            old(self)@.cursor.chars.len() > 0,
        ensures
            final(self).scanning(),
            outcome_view(r) == scan_angle(old(self)@.cursor).outcome,
            final(self)@.cursor == scan_angle(old(self)@.cursor).rest,
    {
        let row = self.row;
        let col = self.col;
        self.advance()?;
        match self.peek_char()? {
            Some('>') => {
                self.advance()?;
                Ok(Token { kind: TokenKind::Pipe, row, col })
            },
            _ => Ok(Token { kind: TokenKind::GreaterThan, row, col }),
        }
    }

    /// Lexes a token that is one character long.
    fn lex_symbol(&mut self, kind: TokenKind) -> (r: Result<Token, LexError>)
        requires
            old(self).scanning(),
            old(self)@.cursor.chars.len() > 0,
        ensures
            final(self).scanning(),
            outcome_view(r) == Ok::<TokenView, LexError>(old(self)@.cursor.token(kind@)),
            final(self)@.cursor == old(self)@.cursor.bump(),
    {
        let row = self.row;
        let col = self.col;
        self.advance()?;
        Ok(Token { kind, row, col })
    }

    /// Lexes an identifier.
    fn lex_id(&mut self) -> (r: Result<Token, LexError>)
        requires
            old(self).scanning(),
            old(self)@.cursor.chars.len() > 0,
        ensures
            final(self).scanning(),
            outcome_view(r) == scan_word(old(self)@.cursor).outcome,
            final(self)@.cursor == scan_word(old(self)@.cursor).rest,
    {
        let row = self.row;
        let col = self.col;
        let ghost start = self@.cursor;
        let ghost body = start.chars.skip(1);
        let ghost accepts = |c: char| in_word(c);
        let mut ident = String::new();
        if let Some(first) = self.advance()? {
            ident.push(first);
        }
        let ghost mut k: int = 0;
        proof {
            assert(ident@ =~= start.chars.take(1));
            assert(body.skip(0) =~= body);
            assert(start.bump_by(1) == start.bump_by(0).bump());
        }
        loop
            invariant
                self.scanning(),
                0 <= k <= body.len(),
                self@.cursor == start.bump_by((1 + k) as nat),
                self@.cursor.chars == body.skip(k),
                ident@ == start.chars.take(1 + k),
                k + run(body.skip(k), accepts) == run(body, accepts),
                start == old(self)@.cursor,
                start.chars.len() > 0,
                body == start.chars.skip(1),
                accepts == |c: char| in_word(c),
            ensures
                self.scanning(),
                self@.cursor == start.bump_by(1 + run(body, accepts)),
                ident@ == start.chars.take(1 + run(body, accepts) as int),
                !self@.cursor.broken(),
            decreases body.len() - k,
        {
            match self.peek_char()? {
                Some(ch) if ch.is_alphanumeric() && !is_reserved(ch) => {
                    ident.push(ch);
                    self.advance()?;
                    proof {
                        assert(body.skip(k).skip(1) =~= body.skip(k + 1));
                        assert(start.chars.take(1 + k).push(ch) =~= start.chars.take(2 + k));
                        k = k + 1;
                    }
                },
                _ => {
                    break ;
                },
            }
        }
        Ok(Token { kind: TokenKind::Identifier(ident), row, col })
    }

    /// Lexes a number: a run of digits, kept as text.
    fn lex_number(&mut self) -> (r: Result<Token, LexError>)
        requires
            old(self).scanning(),
            old(self)@.cursor.chars.len() > 0,
        ensures
            final(self).scanning(),
            outcome_view(r) == scan_number(old(self)@.cursor).outcome,
            final(self)@.cursor == scan_number(old(self)@.cursor).rest,
    {
        let row = self.row;
        let col = self.col;
        let ghost start = self@.cursor;
        let ghost body = start.chars.skip(1);
        let ghost accepts = |c: char| digit(c);
        let mut number = String::new();
        if let Some(first) = self.advance()? {
            number.push(first);
        }
        let ghost mut k: int = 0;
        proof {
            assert(number@ =~= start.chars.take(1));
            assert(body.skip(0) =~= body);
            assert(start.bump_by(1) == start.bump_by(0).bump());
        }
        loop
            invariant
                self.scanning(),
                0 <= k <= body.len(),
                self@.cursor == start.bump_by((1 + k) as nat),
                self@.cursor.chars == body.skip(k),
                number@ == start.chars.take(1 + k),
                k + run(body.skip(k), accepts) == run(body, accepts),
                start == old(self)@.cursor,
                start.chars.len() > 0,
                body == start.chars.skip(1),
                accepts == |c: char| digit(c),
            ensures
                self.scanning(),
                self@.cursor == start.bump_by(1 + run(body, accepts)),
                number@ == start.chars.take(1 + run(body, accepts) as int),
                !self@.cursor.broken(),
            decreases body.len() - k,
        {
            match self.peek_char()? {
                Some(ch) if is_digit(ch) => {
                    number.push(ch);
                    self.advance()?;
                    proof {
                        assert(body.skip(k).skip(1) =~= body.skip(k + 1));
                        assert(start.chars.take(1 + k).push(ch) =~= start.chars.take(2 + k));
                        k = k + 1;
                    }
                },
                _ => {
                    break ;
                },
            }
        }
        Ok(Token { kind: TokenKind::NumberLiteral(number), row, col })
    }

    /// Lexes a string literal.
    fn lex_str(&mut self) -> (r: Result<Token, LexError>)
        requires
            old(self).scanning(),
            old(self)@.cursor.chars.len() > 0,
        ensures
            final(self).scanning(),
            outcome_view(r) == scan_string(old(self)@.cursor).outcome,
            final(self)@.cursor == scan_string(old(self)@.cursor).rest,
    {
        let row = self.row;
        let col = self.col;
        let ghost start = self@.cursor;
        let ghost body = start.chars.skip(1);
        let ghost accepts = |c: char| in_string(c);
        // Eat the opening quote
        self.advance()?;
        let mut string = String::new();
        let ghost mut k: int = 0;
        proof {
            assert(string@ =~= body.take(0));
            assert(body.skip(0) =~= body);
            assert(start.bump_by(1) == start.bump_by(0).bump());
        }
        loop
            invariant_except_break
                self.scanning(),
                0 <= k <= body.len(),
                self@.cursor == start.bump_by((1 + k) as nat),
                self@.cursor.chars == body.skip(k),
                self@.cursor.tainted == start.tainted,
                string@ == body.take(k),
                k + run(body.skip(k), accepts) == run(body, accepts),
                start == old(self)@.cursor,
                start.chars.len() > 0,
                body == start.chars.skip(1),
                accepts == |c: char| in_string(c),
            ensures
                self.scanning(),
                self@.cursor == scan_string(start).rest,
                scan_string(start).outcome == Ok::<TokenView, LexError>(
                    start.token(KindView::StringLiteral(string@)),
                ),
            decreases body.len() - k,
        {
            match self.peek_char()? {
                None => {
                    proof {
                        assert(body.take(k) =~= body);
                    }
                    break ;
                },
                Some(ch) => {
                    // Eat the closing quote
                    if ch == '"' {
                        self.advance()?;
                        assert(start.bump_by((2 + k) as nat) == start.bump_by(
                            (1 + k) as nat,
                        ).bump());
                        break ;
                    }
                    string.push(ch);
                    self.advance()?;
                    proof {
                        assert(body.skip(k).skip(1) =~= body.skip(k + 1));
                        assert(body.take(k).push(ch) =~= body.take(k + 1));
                        k = k + 1;
                    }
                },
            }
        }
        Ok(Token { kind: TokenKind::StringLiteral(string), row, col })
    }

    /// Gets the next token and moves behind it.
    ///
    /// A token that an earlier look has put aside is handed out first.  At
    /// the end of the text the token is `End`, as often as it is asked for.
    /// An error is fatal: it comes again on every later request.
    pub fn next_token(&mut self) -> (r: Result<Token, LexError>)
        requires
            old(self).wf(),
        ensures
            final(self).wf(),
            final(self)@ == old(self)@.advanced(),
            outcome_view(r) == old(self)@.upcoming(),
            outcome_view(r) == old(self)@.stream().head(),
            final(self)@.stream() == old(self)@.stream().tail(),
    {
        proof {
            lemma_step(self@);
        }
        if let Some(token) = self.next_token.take() {
            return Ok(token);
        }
        loop
            invariant
                self.scanning(),
                scan(self@.cursor) == scan(old(self)@.cursor),
                old(self)@.held is None,
            decreases self@.cursor.chars.len(),
        {
            proof {
                lemma_step(old(self)@);
            }
            let ch = match self.peek_char()? {
                None => {
                    return self.return_end_of_input_token();
                },
                Some(ch) => ch,
            };
            let token = match ch {
                '=' => self.lex_symbol(TokenKind::Equals),
                '+' => self.lex_symbol(TokenKind::Plus),
                '-' => self.lex_symbol(TokenKind::Minus),
                '*' => self.lex_symbol(TokenKind::Star),
                '/' => self.lex_symbol(TokenKind::Slash),
                '%' => self.lex_symbol(TokenKind::Percent),
                '^' => self.lex_symbol(TokenKind::Caret),
                '&' => self.lex_symbol(TokenKind::Ampersand),
                ';' => self.lex_symbol(TokenKind::Semicolon),
                '{' => self.lex_symbol(TokenKind::LBrace),
                '}' => self.lex_symbol(TokenKind::RBrace),
                '(' => self.lex_symbol(TokenKind::LParen),
                ')' => self.lex_symbol(TokenKind::RParen),
                '<' => self.lex_symbol(TokenKind::LessThan),
                '>' => self.lex_greater_than_or_pipe(),
                '"' => self.lex_str(),
                '\t' | ' ' | '\n' => {
                    self.advance()?;
                    continue ;
                },
                ch if is_digit(ch) => self.lex_number(),
                ch if ch.is_alphabetic() => self.lex_id(),
                _ => Err(LexError::Invalid(InvalidChar)),
            };
            return token;
        }
    }

    /// Returns the next token in the input stream, without consuming it.
    ///
    /// The token is put aside for the next request.  Looking again changes
    /// nothing and shows the same token.
    pub fn peek_token(&mut self) -> (r: Result<&Token, LexError>)
        requires
            old(self).wf(),
        ensures
            final(self).wf(),
            final(self)@ == old(self)@.peeked(),
            final(self)@.stream() == old(self)@.stream(),
            match r {
                Ok(token) => old(self)@.upcoming() == Ok::<TokenView, LexError>(token@),
                Err(e) => old(self)@.upcoming() == Err::<TokenView, LexError>(e),
            },
            old(self)@.upcoming() == old(self)@.stream().head(),
    {
        proof {
            lemma_step(self@);
        }
        if self.next_token.is_none() {
            let token = self.next_token()?;
            self.next_token = Some(token);
        }
        Ok(self.next_token.as_ref().unwrap())
    }

    /// Gets the next token as an iteration does: `None` stands for the end
    /// of the text, and `End` itself is never handed out.
    pub fn next(&mut self) -> (r: Result<Option<Token>, LexError>)
        requires
            old(self).wf(),
        ensures
            final(self).wf(),
            final(self)@ == (match old(self)@.upcoming() {
                Ok(token) if !(token.kind is End) => old(self)@.advanced(),
                _ => old(self)@.peeked(),
            }),
            final(self)@.stream() == old(self)@.stream().tail(),
            match r {
                Ok(Some(token)) => old(self)@.stream().tokens.len() > 0 && token@ == old(
                    self,
                )@.stream().tokens[0],
                Ok(None) => old(self)@.stream().tokens.len() == 0 && old(self)@.stream().end
                    is End,
                Err(e) => old(self)@.stream().tokens.len() == 0 && old(self)@.stream().end
                    == StreamEnd::Failed(e),
            },
    {
        proof {
            lemma_stream_tokens(self@);
        }
        let at_end = match self.peek_token()? {
            Token { kind: TokenKind::End, .. } => true,
            _ => false,
        };
        if at_end {
            Ok(None)
        } else {
            Ok(Some(self.next_token()?))
        }
    }

    /// Gets all the tokens that are left, up to the end of the text; `End`
    /// is not among them.  Fails where the stream ends in an error.
    pub fn collect(&mut self) -> (r: Result<Vec<Token>, LexError>)
        requires
            old(self).wf(),
        ensures
            final(self).wf(),
            match r {
                Ok(tokens) => {
                    &&& old(self)@.stream().end is End
                    &&& token_views(tokens@) == old(self)@.stream().tokens
                    &&& final(self)@.stream() == old(self)@.stream().drop(tokens@.len())
                },
                Err(e) => old(self)@.stream().end == StreamEnd::Failed(e),
            },
    {
        let mut tokens: Vec<Token> = Vec::new();
        proof {
            assert(token_views(tokens@) + self@.stream().tokens =~= self@.stream().tokens);
        }
        loop
            invariant
                self.wf(),
                token_views(tokens@) + self@.stream().tokens == old(self)@.stream().tokens,
                self@.stream().end == old(self)@.stream().end,
            decreases self@.stream().tokens.len(),
        {
            let ghost before = self@.stream();
            match self.next()? {
                None => {
                    proof {
                        assert(token_views(tokens@) =~= old(self)@.stream().tokens);
                        assert(self@.stream().tokens =~= old(self)@.stream().drop(
                            tokens@.len(),
                        ).tokens);
                    }
                    return Ok(tokens);
                },
                Some(token) => {
                    let ghost so_far = tokens@;
                    tokens.push(token);
                    proof {
                        assert(token_views(tokens@) =~= token_views(so_far).push(token@));
                        assert(token_views(so_far).push(token@) + before.tokens.skip(1)
                            =~= token_views(so_far) + before.tokens);
                    }
                },
            }
        }
    }
}

/// The tokens of a vector as mathematical values.
pub open spec fn token_views(tokens: Seq<Token>) -> Seq<TokenView> {
    tokens.map_values(|token: Token| token@)
}

/// Whether `c` has a meaning of its own in the text, so that it can be no
/// part of an identifier.
pub fn is_reserved(c: char) -> (r: bool)
    ensures
        r == reserved(c),
{
    match c {
        '=' | '+' | '-' | '*' | '/' | '%' | '^' | '&' | ';' | '{' | '}' | '(' | ')' | '<' => true,
        '>' | '"' => true,
        '\t' | ' ' | '\n' => true,
        _ => false,
    }
}

/// Whether `c` is a decimal digit.
pub fn is_digit(c: char) -> (r: bool)
    ensures
        r == digit(c),
{
    '0' <= c && c <= '9'
}

/// A step that fails will fail again in the same way, without moving; a step
/// that finds the end of the text stands there, and finds it again.
pub proof fn lemma_scan_settles(at: Cursor)
    ensures
        scan(at).outcome is Err ==> scan(scan(at).rest) == scan(at),
        scan(at).outcome matches Ok(token) && token.kind is End ==> {
            &&& scan(at).rest.chars.len() == 0
            &&& !scan(at).rest.tainted
            &&& scan(at).outcome == Ok::<TokenView, LexError>(scan(at).rest.token(KindView::End))
            &&& scan(scan(at).rest) == scan(at)
        },
    decreases at.chars.len(),
{
    if at.chars.len() > 0 {
        let body = at.chars.skip(1);
        match classify(at.chars[0]) {
            Class::Quote => {
                let n = run(body, |c: char| in_string(c));
                lemma_run_len(body, |c: char| in_string(c));
                if n >= body.len() {
                    lemma_bump_by(at, n + 1);
                }
            },
            Class::Blank => {
                lemma_scan_settles(at.bump());
            },
            _ => {},
        }
    }
}

/// How the states of a lexer and its token stream go together: the next token
/// is the head of the stream, taking it leaves the tail, and looking at it
/// leaves the stream as it is.
pub proof fn lemma_step(state: LexState)
    requires
        state.consistent(),
    ensures
        state.upcoming() == state.stream().head(),
        state.advanced().stream() == state.stream().tail(),
        state.advanced().consistent(),
        state.peeked().stream() == state.stream(),
        state.peeked().consistent(),
{
    let step = scan(state.cursor);
    lemma_scan_settles(state.cursor);
    match state.held {
        Some(token) => {
            if token.kind is End {
                assert(state.cursor.token(KindView::End) == token);
            } else {
                assert(stream_of(state.cursor).after(token).tail().tokens =~= stream_of(
                    state.cursor,
                ).tokens);
            }
        },
        None => {
            match step.outcome {
                Ok(token) => {
                    if !(token.kind is End) {
                        assert(stream_of(step.rest).after(token).tail().tokens =~= stream_of(
                            step.rest,
                        ).tokens);
                    }
                },
                Err(e) => {},
            }
        },
    }
}

/// A lexer over the bytes of a text begins with the token stream of the
/// text.
pub proof fn lemma_opening_of_text(chars: Seq<char>)
    ensures
        Lexer::opening(vstd::utf8::encode_utf8(chars)) == Ok::<TokenStream, LexError>(
            tokenize(chars, false),
        ),
{
    lemma_decoded_of_text(chars);
}

/// Looking at the next token any number of times is looking at it once: the
/// second look leaves the lexer as the first one left it, position and held
/// token, and shows the same token.
pub proof fn lemma_peek_settles(state: LexState)
    requires
        state.consistent(),
    ensures
        state.peeked().peeked() == state.peeked(),
        state.peeked().upcoming() == state.upcoming(),
        state.peeked().stream() == state.stream(),
{
    lemma_scan_settles(state.cursor);
    lemma_step(state);
}

/// The end is for ever: once `End` or an error is what comes next, it is
/// what comes next after every further request, and the lexer moves no more.
pub proof fn lemma_end_repeats(state: LexState)
    requires
        state.consistent(),
        state.upcoming() is Err || (state.upcoming() matches Ok(token) && token.kind is End),
    ensures
        state.advanced().upcoming() == state.upcoming(),
        state.advanced().advanced() == state.advanced(),
        state.advanced().cursor == state.peeked().cursor,
{
    lemma_scan_settles(state.cursor);
}

/// A stream never begins with `End` as one of its tokens: where `End` is what
/// comes next, the stream has no token left.
pub proof fn lemma_stream_tokens(state: LexState)
    requires
        state.consistent(),
    ensures
        state.stream().tokens.len() > 0 ==> !(state.stream().tokens[0].kind is End),
        state.upcoming() matches Ok(token) && token.kind is End ==> state.stream().tokens.len()
            == 0,
{
    lemma_step(state);
}

} // verus!
