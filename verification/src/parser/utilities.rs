//! Token-level helpers shared by the parsing functions.
use vstd::prelude::*;
use crate::error::RaccoonError;
use crate::parser::state::ParserState;
use crate::text::copy_opt_string;
use crate::tokens::{Token, TokenType};

verus! {

/// Helpers that look at and consume tokens of a [`ParserState`].
pub struct Parser;

/// The token kinds that may stand as a property name after `.` or `?.`.
pub open spec fn is_property_name_kind(t: TokenType) -> bool {
    t == TokenType::Identifier || t == TokenType::Get || t == TokenType::SetKw
        || t == TokenType::Static || t == TokenType::Public || t == TokenType::Private
        || t == TokenType::Protected || t == TokenType::Async || t == TokenType::Constructor
        || t == TokenType::Default || t == TokenType::TypeAlias || t == TokenType::Typeof
        || t == TokenType::Instanceof || t == TokenType::Await || t == TokenType::New
        || t == TokenType::This || t == TokenType::Super || t == TokenType::Catch
        || t == TokenType::Finally || t == TokenType::Try || t == TokenType::Throw
        || t == TokenType::Return || t == TokenType::Break || t == TokenType::Continue
        || t == TokenType::If || t == TokenType::Else || t == TokenType::While
        || t == TokenType::For || t == TokenType::Import || t == TokenType::Export
        || t == TokenType::From || t == TokenType::As
}

/// The token kinds at which error recovery stops: those that begin a declaration or a
/// statement.
pub open spec fn is_sync_kind(t: TokenType) -> bool {
    t == TokenType::Let || t == TokenType::Const || t == TokenType::Fn || t == TokenType::Class
        || t == TokenType::Interface || t == TokenType::Enum || t == TokenType::TypeAlias
        || t == TokenType::If || t == TokenType::While || t == TokenType::For
        || t == TokenType::Return
}

/// The state that `match_token` leaves: one token further when the kind under the cursor is
/// among `types` and the cursor is not at the end.
pub open spec fn matched(old_s: ParserState, new_s: ParserState, types: Seq<TokenType>, r: bool) -> bool {
    &&& new_s.same_input(&old_s)
    &&& r == (old_s.current < old_s.tokens@.len() && types.contains(old_s.cur_kind()))
    &&& new_s.current == (if r && !old_s.at_end() { old_s.current + 1 } else { old_s.current as int })
}

impl Parser {
    /// Consumes a `;` if one stands under the cursor.
    pub fn optional_semicolon(state: &mut ParserState)
        requires
            old(state).wf(),
        ensures
            final(state).wf(),
            final(state).same_input(old(state)),
            final(state).current == (if old(state).cur_kind() == TokenType::Semicolon {
                old(state).current + 1
            } else {
                old(state).current as int
            }),
    {
        if Self::match_token(state, &[TokenType::Semicolon]) || Self::can_insert_semicolon(state) {
            return;
        }
    }

    /// A statement may end here without a `;`: before `}`, at the end, or at a line break.
    pub fn can_insert_semicolon(state: &ParserState) -> (b: bool)
        ensures
            b == ((state.current < state.tokens@.len() && state.cur_kind() == TokenType::RightBrace)
                || state.at_end() || (0 < state.current < state.tokens@.len()
                && state.tokens@[state.current as int].position.0 > state.tokens@[state.current
                - 1].position.0)),
    {
        state.check(&TokenType::RightBrace) || state.is_at_end()
            || Self::previous_token_on_different_line(state)
    }

    /// The token under the cursor stands on a later line than the one before it.
    pub fn previous_token_on_different_line(state: &ParserState) -> (b: bool)
        ensures
            b == (0 < state.current < state.tokens@.len() && state.tokens@[state.current as int].position.0
                > state.tokens@[state.current - 1].position.0),
    {
        if state.current == 0 || state.current >= state.tokens.len() {
            return false;
        }
        state.tokens[state.current].position.0 > state.tokens[state.current - 1].position.0
    }

    /// Consumes the token under the cursor if its kind is one of `types`.
    pub fn match_token(state: &mut ParserState, types: &[TokenType]) -> (r: bool)
        ensures
            matched(*old(state), *final(state), types@, r),
    {
        let mut i: usize = 0;
        while i < types.len()
            invariant
                *state == *old(state),
                i <= types@.len(),
                forall|j: int| 0 <= j < i ==> !(state.current < state.tokens@.len() && state.cur_kind() == #[trigger] types@[j]),
            decreases types@.len() - i,
        {
            if state.check(&types[i]) {
                assert(types@[i as int] == state.cur_kind());
                state.advance();
                return true;
            }
            i = i + 1;
        }
        false
    }

    /// The kind of the token after the cursor is one of `types`.
    pub fn check_next(state: &ParserState, types: &[TokenType]) -> (b: bool)
        ensures
            b == (state.current + 1 < state.tokens@.len() && types@.contains(
                state.tokens@[state.current + 1].token_type,
            )),
    {
        if state.current >= state.tokens.len() || state.current + 1 >= state.tokens.len() {
            return false;
        }
        kinds_contain(types, state.tokens[state.current + 1].token_type)
    }

    /// The kind of the token two places after the cursor is one of `types`.
    pub fn check_next_next(state: &ParserState, types: &[TokenType]) -> (b: bool)
        ensures
            b == (state.current + 2 < state.tokens@.len() && types@.contains(
                state.tokens@[state.current + 2].token_type,
            )),
    {
        if state.current >= state.tokens.len() || state.current + 1 >= state.tokens.len()
            || state.current + 2 >= state.tokens.len() {
            return false;
        }
        kinds_contain(types, state.tokens[state.current + 2].token_type)
    }

    /// Consumes a token of the given kind, or fails with `message` at the current position.
    pub fn consume<'a>(state: &'a mut ParserState, token_type: TokenType, message: &str) -> (r: Result<
        &'a Token,
        RaccoonError,
    >)
        requires
            old(state).wf(),
            token_type != TokenType::Eof,
        ensures
            final(state).wf(),
            final(state).same_input(old(state)),
            old(state).cur_kind() == token_type ==> {
                &&& final(state).current == old(state).current + 1
                &&& r matches Ok(t) && *t == old(state).tokens@[old(state).current as int]
            },
            old(state).cur_kind() != token_type ==> {
                &&& final(state).current == old(state).current
                &&& r matches Err(e) && e.message@ == message@ && e.position
                    == old(state).tokens@[old(state).current as int].position && crate::error::opt_str_view(e.file)
                    == crate::error::opt_str_view(old(state).file)
            },
    {
        if state.check(&token_type) {
            let n: usize = state.tokens.len();
            assert(state.current < n);
            state.current = state.current + 1;
            let frozen: &'a ParserState = state;
            return Ok(&frozen.tokens[frozen.current - 1]);
        }
        Err(RaccoonError::new(message, state.current_position(), copy_opt_string(&state.file)))
    }
}

/// Error recovery stops at index `k`: past the tokens or on `Eof`, right after a `;`, or on a
/// token that begins a declaration or statement.
pub open spec fn sync_stop(tokens: Seq<Token>, k: int) -> bool {
    ||| k >= tokens.len()
    ||| tokens[k].token_type == TokenType::Eof
    ||| (k > 0 && tokens[k - 1].token_type == TokenType::Semicolon)
    ||| is_sync_kind(tokens[k].token_type)
}

impl Parser {
    /// Skips tokens after an error: one token, then on to the first place where a new
    /// statement may begin.
    pub fn synchronize(state: &mut ParserState)
        requires
            old(state).wf(),
        ensures
            final(state).wf(),
            final(state).same_input(old(state)),
            old(state).at_end() ==> final(state).current == old(state).current,
            !old(state).at_end() ==> {
                &&& final(state).current > old(state).current
                &&& sync_stop(final(state).tokens@, final(state).current as int)
                &&& forall|k: int| old(state).current < k < final(state).current ==> !sync_stop(
                    final(state).tokens@,
                    k,
                )
            },
    {
        state.advance();
        while !state.is_at_end()
            invariant
                state.wf(),
                state.same_input(old(state)),
                old(state).at_end() ==> state.current == old(state).current,
                !old(state).at_end() ==> state.current > old(state).current,
                forall|k: int| old(state).current < k < state.current ==> !sync_stop(state.tokens@, k),
            decreases state.tokens@.len() - state.current,
        {
            if state.previous().unwrap().token_type == TokenType::Semicolon {
                return;
            }
            let kind = state.peek().unwrap().token_type;
            match kind {
                TokenType::Let | TokenType::Const | TokenType::Fn | TokenType::Class
                | TokenType::Interface | TokenType::Enum | TokenType::TypeAlias | TokenType::If
                | TokenType::While | TokenType::For | TokenType::Return => return,
                _ => {},
            }
            state.advance();
        }
    }

    /// Consumes a token that may serve as a property name and returns its text.
    pub fn consume_property_name(state: &mut ParserState) -> (r: Result<String, RaccoonError>)
        requires
            old(state).wf(),
        ensures
            final(state).wf(),
            final(state).same_input(old(state)),
            is_property_name_kind(old(state).cur_kind()) ==> {
                &&& final(state).current == old(state).current + 1
                &&& r matches Ok(name) && name@ == old(state).tokens@[old(state).current as int].value@
            },
            !is_property_name_kind(old(state).cur_kind()) ==> {
                &&& final(state).current == old(state).current
                &&& r matches Err(e) && e.message@ == "Expected property name after '.'"@
                    && e.position == old(state).tokens@[old(state).current as int].position
            },
    {
        let token = state.peek().unwrap();
        match token.token_type {
            TokenType::Identifier | TokenType::Get | TokenType::SetKw | TokenType::Static
            | TokenType::Public | TokenType::Private | TokenType::Protected | TokenType::Async
            | TokenType::Constructor | TokenType::Default | TokenType::TypeAlias
            | TokenType::Typeof | TokenType::Instanceof | TokenType::Await | TokenType::New
            | TokenType::This | TokenType::Super | TokenType::Catch | TokenType::Finally
            | TokenType::Try | TokenType::Throw | TokenType::Return | TokenType::Break
            | TokenType::Continue | TokenType::If | TokenType::Else | TokenType::While
            | TokenType::For | TokenType::Import | TokenType::Export | TokenType::From
            | TokenType::As => {
                let name = state.advance().unwrap().value.clone();
                Ok(name)
            },
            _ => Err(RaccoonError::new(
                "Expected property name after '.'",
                token.position,
                copy_opt_string(&state.file),
            )),
        }
    }
}

/// Whether a list of token kinds holds the given kind.
fn kinds_contain(types: &[TokenType], t: TokenType) -> (b: bool)
    ensures
        b == types@.contains(t),
{
    let mut i: usize = 0;
    while i < types.len()
        invariant
            i <= types@.len(),
            forall|j: int| 0 <= j < i ==> #[trigger] types@[j] != t,
        decreases types@.len() - i,
    {
        if types[i] == t {
            return true;
        }
        i = i + 1;
    }
    false
}

} // verus!
