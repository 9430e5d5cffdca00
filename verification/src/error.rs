//! The error type shared by the lexer, the parser and the runtime.
use vstd::prelude::*;
use crate::tokens::Position;

verus! {

#[derive(Debug)]
pub struct RaccoonError {
    pub message: String,
    pub position: Position,
    pub file: Option<String>,
}

/// The view of an optional file name.
pub open spec fn opt_str_view(f: Option<String>) -> Option<Seq<char>> {
    match f {
        Some(s) => Some(s@),
        None => None,
    }
}

impl RaccoonError {
    pub fn new(message: &str, position: Position, file: Option<String>) -> (e: RaccoonError)
        ensures
            e.message@ == message@,
            e.position == position,
            opt_str_view(e.file) == opt_str_view(file),
    {
        RaccoonError { message: String::from_str(message), position, file }
    }
}

} // verus!
