//! The front end of a small expression language: a buffered character
//! source, a lexer with one token of lookahead, and a recursive-descent
//! parser that builds the syntax tree.
//!
//! Source text flows one way: bytes are decoded to characters
//! ([`lex::BufCharacterReader`]), characters are grouped into tokens that know
//! their row and column ([`lex::Lexer`]), and tokens are parsed into statements
//! ([`parse::parse`]).  What each step gives is stated over mathematical
//! models: the lexical rules in [`lex::scan`], the grammar in
//! [`parse::grammar`].  What holds of every text is proved in [`lex::laws`] and
//! [`parse::laws`].
//!
//! A numeric literal is kept as the digits that were written; the parser
//! proves that they are digits, and leaves their value to the caller.

pub mod ast;
pub mod lex;
pub mod parse;
