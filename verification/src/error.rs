//! The one error of the library: text that is not a UUID.

use vstd::prelude::*;

verus! {

/// Why a text was refused: the text itself, and the parser's description of
/// what is wrong with it.
#[derive(Debug, Clone, PartialEq, Eq)]
pub struct ParseError {
    pub input: String,
    pub reason: String,
}

impl ParseError {
    /// The text that was refused.
    pub fn input(&self) -> (r: &str)
        ensures
            r@ == self.input@,
    {
        self.input.as_str()
    }

    /// The parser's description of the fault.
    pub fn reason(&self) -> (r: &str)
        ensures
            r@ == self.reason@,
    {
        self.reason.as_str()
    }
}

} // verus!
