//! Lexical analysis: characters in, position-tagged tokens out.

pub mod buffered_char_reader;
pub mod error;
pub mod laws;
pub mod lexer;
pub mod scan;
pub mod token;

pub use buffered_char_reader::{BufCharacterReader, CharStream};
pub use error::{InvalidChar, LexError, MalformedInput};
pub use lexer::{is_digit, is_reserved, LexState, Lexer, LOOKAHEAD};
pub use scan::{Cursor, StreamEnd, TokenStream};
pub use token::{KindView, Token, TokenKind, TokenView};
