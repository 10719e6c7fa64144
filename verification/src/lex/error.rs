//! What can go wrong below the parser.

use vstd::prelude::*;

verus! {

/// The input bytes stop being well-formed UTF-8 at the point that was reached.
#[derive(Debug, PartialEq, Eq, Clone, Copy)]
pub struct MalformedInput;

/// A character that can begin no token stands where a token must start.
#[derive(Debug, PartialEq, Eq, Clone, Copy)]
pub struct InvalidChar;

impl InvalidChar {
    /// What to tell the user.
    pub fn message(&self) -> (r: String)
        ensures
            r@ == "Invalid character"@,
    {
        String::from_str("Invalid character")
    }
}

/// A fatal lexical error.  Once the lexer has reported one it reports it again
/// on every later request: there is no way past it.
#[derive(Debug, PartialEq, Eq, Clone, Copy)]
pub enum LexError {
    /// The character source met bytes that are not UTF-8.
    Malformed(MalformedInput),
    /// No token starts with the character that comes next.
    Invalid(InvalidChar),
}

} // verus!
