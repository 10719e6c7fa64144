//! What can go wrong in the parser.

use crate::lex::error::LexError;
use crate::lex::token::{KindView, TokenKind};
use vstd::prelude::*;

verus! {

/// The grammar asked for one kind of token and another one stood there.
#[derive(Debug, PartialEq)]
pub struct ExpectedTokenError {
    pub expected: TokenKind,
    pub found: TokenKind,
}

impl ExpectedTokenError {
    pub fn new(expected: TokenKind, found: TokenKind) -> (r: Self)
        ensures
            r.expected == expected,
            r.found == found,
    {
        Self { expected, found }
    }
}

/// A fatal error of the parser.  The parse that met it is over; nothing is
/// recovered.
#[derive(Debug, PartialEq)]
pub enum ParseError {
    /// The lexer failed.
    Lex(LexError),
    /// A token of one kind was required and another one was found.  Where an
    /// identifier was required, `expected` is an identifier without text.
    Expected(ExpectedTokenError),
    /// No rule of the grammar begins with the token that was found.
    Unexpected(TokenKind),
}

/// A parser error as a mathematical value.
pub ghost enum ParseErrorView {
    Lex(LexError),
    Expected { expected: KindView, found: KindView },
    Unexpected(KindView),
}

impl View for ParseError {
    type V = ParseErrorView;

    open spec fn view(&self) -> ParseErrorView {
        match self {
            ParseError::Lex(e) => ParseErrorView::Lex(*e),
            ParseError::Expected(e) => ParseErrorView::Expected {
                expected: e.expected@,
                found: e.found@,
            },
            ParseError::Unexpected(kind) => ParseErrorView::Unexpected(kind@),
        }
    }
}

} // verus!
