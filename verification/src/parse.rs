//! Syntactic analysis: tokens in, a syntax tree out.

pub mod error;
pub mod grammar;
pub mod laws;
pub mod parser;

pub use error::{ExpectedTokenError, ParseError, ParseErrorView};
pub use parser::{
    expect_token, is_let, parse, parse_expr, parse_factor, parse_let, parse_primary, parse_program,
    parse_term,
};
