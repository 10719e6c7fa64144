//! Tokens and their mathematical views.

use vstd::prelude::*;

verus! {

/// What a token is.  The three literal kinds carry the raw text that the
/// lexer collected; nothing is interpreted at this level.
#[derive(Debug, PartialEq, Eq)]
pub enum TokenKind {
    Equals,
    Plus,
    Minus,
    Star,
    Slash,
    Percent,
    Caret,
    Ampersand,
    Identifier(String),
    NumberLiteral(String),
    StringLiteral(String),
    End,
    Semicolon,
    LessThan,
    GreaterThan,
    Pipe,
    LBrace,
    RBrace,
    LParen,
    RParen,
}

/// A token kind as a mathematical value: the payloads are character sequences.
pub ghost enum KindView {
    Equals,
    Plus,
    Minus,
    Star,
    Slash,
    Percent,
    Caret,
    Ampersand,
    Identifier(Seq<char>),
    NumberLiteral(Seq<char>),
    StringLiteral(Seq<char>),
    End,
    Semicolon,
    LessThan,
    GreaterThan,
    Pipe,
    LBrace,
    RBrace,
    LParen,
    RParen,
}

impl View for TokenKind {
    type V = KindView;

    open spec fn view(&self) -> KindView {
        match self {
            TokenKind::Equals => KindView::Equals,
            TokenKind::Plus => KindView::Plus,
            TokenKind::Minus => KindView::Minus,
            TokenKind::Star => KindView::Star,
            TokenKind::Slash => KindView::Slash,
            TokenKind::Percent => KindView::Percent,
            TokenKind::Caret => KindView::Caret,
            TokenKind::Ampersand => KindView::Ampersand,
            TokenKind::Identifier(s) => KindView::Identifier(s@),
            TokenKind::NumberLiteral(s) => KindView::NumberLiteral(s@),
            TokenKind::StringLiteral(s) => KindView::StringLiteral(s@),
            TokenKind::End => KindView::End,
            TokenKind::Semicolon => KindView::Semicolon,
            TokenKind::LessThan => KindView::LessThan,
            TokenKind::GreaterThan => KindView::GreaterThan,
            TokenKind::Pipe => KindView::Pipe,
            TokenKind::LBrace => KindView::LBrace,
            TokenKind::RBrace => KindView::RBrace,
            TokenKind::LParen => KindView::LParen,
            TokenKind::RParen => KindView::RParen,
        }
    }
}

/// A token: its kind and the position of its first character.
#[derive(Debug, PartialEq, Eq)]
pub struct Token {
    pub kind: TokenKind,
    pub row: usize,
    pub col: usize,
}

/// A token as a mathematical value.
pub ghost struct TokenView {
    pub kind: KindView,
    pub row: nat,
    pub col: nat,
}

impl View for Token {
    type V = TokenView;

    open spec fn view(&self) -> TokenView {
        TokenView { kind: self.kind@, row: self.row as nat, col: self.col as nat }
    }
}

impl Clone for TokenKind {
    fn clone(&self) -> (r: Self)
        ensures
            r@ == self@,
    {
        match self {
            TokenKind::Equals => TokenKind::Equals,
            TokenKind::Plus => TokenKind::Plus,
            TokenKind::Minus => TokenKind::Minus,
            TokenKind::Star => TokenKind::Star,
            TokenKind::Slash => TokenKind::Slash,
            TokenKind::Percent => TokenKind::Percent,
            TokenKind::Caret => TokenKind::Caret,
            TokenKind::Ampersand => TokenKind::Ampersand,
            TokenKind::Identifier(s) => TokenKind::Identifier(s.clone()),
            TokenKind::NumberLiteral(s) => TokenKind::NumberLiteral(s.clone()),
            TokenKind::StringLiteral(s) => TokenKind::StringLiteral(s.clone()),
            TokenKind::End => TokenKind::End,
            TokenKind::Semicolon => TokenKind::Semicolon,
            TokenKind::LessThan => TokenKind::LessThan,
            TokenKind::GreaterThan => TokenKind::GreaterThan,
            TokenKind::Pipe => TokenKind::Pipe,
            TokenKind::LBrace => TokenKind::LBrace,
            TokenKind::RBrace => TokenKind::RBrace,
            TokenKind::LParen => TokenKind::LParen,
            TokenKind::RParen => TokenKind::RParen,
        }
    }
}

impl TokenKind {
    /// Whether two kinds are the same: the same variant, and for a literal
    /// or an identifier the same text.
    pub fn same(&self, other: &TokenKind) -> (r: bool)
        ensures
            r == (self@ == other@),
    {
        match (self, other) {
            (TokenKind::Equals, TokenKind::Equals) => true,
            (TokenKind::Plus, TokenKind::Plus) => true,
            (TokenKind::Minus, TokenKind::Minus) => true,
            (TokenKind::Star, TokenKind::Star) => true,
            (TokenKind::Slash, TokenKind::Slash) => true,
            (TokenKind::Percent, TokenKind::Percent) => true,
            (TokenKind::Caret, TokenKind::Caret) => true,
            (TokenKind::Ampersand, TokenKind::Ampersand) => true,
            (TokenKind::Identifier(a), TokenKind::Identifier(b)) => *a == *b,
            (TokenKind::NumberLiteral(a), TokenKind::NumberLiteral(b)) => *a == *b,
            (TokenKind::StringLiteral(a), TokenKind::StringLiteral(b)) => *a == *b,
            (TokenKind::End, TokenKind::End) => true,
            (TokenKind::Semicolon, TokenKind::Semicolon) => true,
            (TokenKind::LessThan, TokenKind::LessThan) => true,
            (TokenKind::GreaterThan, TokenKind::GreaterThan) => true,
            (TokenKind::Pipe, TokenKind::Pipe) => true,
            (TokenKind::LBrace, TokenKind::LBrace) => true,
            (TokenKind::RBrace, TokenKind::RBrace) => true,
            (TokenKind::LParen, TokenKind::LParen) => true,
            (TokenKind::RParen, TokenKind::RParen) => true,
            _ => false,
        }
    }
}

impl Clone for Token {
    fn clone(&self) -> (r: Self)
        ensures
            r@ == self@,
    {
        Token { kind: self.kind.clone(), row: self.row, col: self.col }
    }
}

} // verus!
