//! A recursive-descent parser for the C1 language, with its lexer.
pub mod grammar;
pub mod laws;
pub mod lexer;
pub mod parser;
pub mod rule_laws;

use vstd::prelude::*;

verus! {

/// The outcome of parsing: nothing on success, a message on failure.
pub type ParseResult = Result<(), String>;

} // verus!
