//! The token cursor that all parsing functions share.
use vstd::prelude::*;
use crate::tokens::{Position, Token, TokenType};

verus! {

/// A list of tokens, the file they came from, and the index of the next token to read.
pub struct ParserState {
    pub tokens: Vec<Token>,
    pub file: Option<String>,
    pub current: usize,
}

impl ParserState {
    /// A state is ready for parsing when its tokens end with `Eof` and the cursor stands on
    /// one of them.
    pub open spec fn wf(&self) -> bool {
        &&& self.tokens@.len() > 0
        &&& self.tokens@.last().token_type == TokenType::Eof
        &&& self.current < self.tokens@.len()
    }

    /// The number of tokens from the cursor to the end.
    pub open spec fn remaining(&self) -> int {
        self.tokens@.len() - self.current
    }

    /// The kind of the token under the cursor.
    pub open spec fn cur_kind(&self) -> TokenType {
        self.tokens@[self.current as int].token_type
    }

    /// The kind of the token `k` places after the cursor, if there is one.
    pub open spec fn kind_ahead(&self, k: int) -> Option<TokenType> {
        if self.current + k < self.tokens@.len() {
            Some(self.tokens@[self.current + k].token_type)
        } else {
            None
        }
    }

    /// Whether the cursor stands past the tokens or on `Eof`.
    pub open spec fn at_end(&self) -> bool {
        self.current >= self.tokens@.len() || self.tokens@[self.current as int].token_type
            == TokenType::Eof
    }

    /// Two states read the same tokens from the same file.
    pub open spec fn same_input(&self, other: &ParserState) -> bool {
        &&& self.tokens@ == other.tokens@
        &&& self.file == other.file
    }

    /// The position of the token under the cursor, else of the one before it, else `(0, 0)`.
    pub open spec fn position_spec(&self) -> Position {
        if self.current < self.tokens@.len() {
            self.tokens@[self.current as int].position
        } else if 0 < self.current <= self.tokens@.len() {
            self.tokens@[self.current - 1].position
        } else {
            (0, 0)
        }
    }

    pub fn new(tokens: Vec<Token>, file: Option<String>) -> (s: ParserState)
        ensures
            s.tokens@ == tokens@,
            s.file == file,
            s.current == 0,
    {
        ParserState { tokens, file, current: 0 }
    }

    pub fn peek(&self) -> (t: Option<&Token>)
        ensures
            t == (if self.current < self.tokens@.len() {
                Some(&self.tokens@[self.current as int])
            } else {
                None
            }),
    {
        if self.current < self.tokens.len() {
            Some(&self.tokens[self.current])
        } else {
            None
        }
    }

    pub fn previous(&self) -> (t: Option<&Token>)
        ensures
            t == (if 0 < self.current <= self.tokens@.len() {
                Some(&self.tokens@[self.current - 1])
            } else {
                None
            }),
    {
        if self.current > 0 && self.current - 1 < self.tokens.len() {
            Some(&self.tokens[self.current - 1])
        } else {
            None
        }
    }

    pub fn is_at_end(&self) -> (b: bool)
        ensures
            b == self.at_end(),
    {
        match self.peek() {
            Some(t) => t.token_type == TokenType::Eof,
            None => true,
        }
    }

    /// Moves past the token under the cursor unless at the end, and returns the token
    /// before the cursor.
    pub fn advance(&mut self) -> (t: Option<&Token>)
        ensures
            final(self).same_input(old(self)),
            old(self).at_end() ==> final(self).current == old(self).current,
            !old(self).at_end() ==> final(self).current == old(self).current + 1,
            t == (if 0 < final(self).current <= final(self).tokens@.len() {
                Some(&final(self).tokens@[final(self).current - 1])
            } else {
                None
            }),
    {
        if !self.is_at_end() && self.current < self.tokens.len() {
            self.current = self.current + 1;
        }
        self.previous()
    }

    pub fn check(&self, token_type: &TokenType) -> (b: bool)
        ensures
            b == (self.current < self.tokens@.len() && self.tokens@[self.current as int].token_type
                == *token_type),
    {
        match self.peek() {
            Some(t) => t.token_type == *token_type,
            None => false,
        }
    }

    pub fn current_position(&self) -> (p: Position)
        ensures
            p == self.position_spec(),
    {
        match self.peek() {
            Some(t) => t.position,
            None => match self.previous() {
                Some(t) => t.position,
                None => (0, 0),
            },
        }
    }
}

} // verus!

verus! {

/// `new` continues `old`: same tokens and file, a well-formed state, and a cursor that did
/// not move back.
pub open spec fn steps(old_s: ParserState, new_s: ParserState) -> bool {
    &&& new_s.wf()
    &&& new_s.same_input(&old_s)
    &&& new_s.current >= old_s.current
}

} // verus!

verus! {

/// A parse that must begin with a token of kind `k`: where the token under the cursor is of
/// another kind, it fails with `msg` at that token and reads nothing.
pub open spec fn expects_first<T>(
    old_s: ParserState,
    new_s: ParserState,
    k: TokenType,
    msg: Seq<char>,
    r: Result<T, crate::error::RaccoonError>,
) -> bool {
    old_s.cur_kind() != k ==> {
        &&& new_s.current == old_s.current
        &&& r matches Err(e) && e.message@ == msg && e.position == old_s.tokens@[old_s.current as int].position
    }
}

/// What every parsing function promises: `new` continues `old`, and a success consumed at
/// least one token.
pub open spec fn parsed<T>(old_s: ParserState, new_s: ParserState, r: Result<T, crate::error::RaccoonError>) -> bool {
    &&& steps(old_s, new_s)
    &&& r is Ok ==> new_s.current > old_s.current
}

} // verus!
