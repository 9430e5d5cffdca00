//! Parsing of token lists into syntax trees.
pub mod state;
pub mod utilities;
pub mod types;
pub mod literals;
pub mod expressions;
pub mod declarations;
pub mod statements;

use vstd::prelude::*;
use crate::ast::{Program, Stmt};
use crate::error::RaccoonError;
use crate::tokens::{Token, TokenType};
use self::expressions::{atom_kind, atom_of};
use self::declarations::Declarations;
use self::state::ParserState;

verus! {

/// From index `i`: `n` statements `x;`, each a name or literal and `;`, then `Eof`.
pub open spec fn simple_stmts_at(t: Seq<Token>, i: int, n: int) -> bool {
    &&& 0 <= n
    &&& 0 <= i
    &&& i + 2 * n < t.len()
    &&& forall|k: int| 0 <= k < n ==> atom_kind(#[trigger] t[i + 2 * k].token_type)
    &&& forall|k: int| 0 <= k < n ==> (#[trigger] t[i + 2 * k + 1]).token_type == TokenType::Semicolon
    &&& t[i + 2 * n].token_type == TokenType::Eof
}

/// `st` is the expression statement of the name or literal at index `i`.
pub open spec fn expr_stmt_at(t: Seq<Token>, i: int, st: Stmt) -> bool {
    st matches Stmt::ExprStmt { expression, position } && atom_of(t[i], expression) && position == t[i].position
}

/// A parser over a whole token list that collects the errors it recovers from.
pub struct Parser {
    state: ParserState,
    errors: Vec<RaccoonError>,
}

impl Parser {
    /// The tokens end with `Eof` and the cursor stands on one of them.
    pub closed spec fn wf(&self) -> bool {
        self.state.wf()
    }

    /// The cursor stands on `Eof`.
    pub closed spec fn finished(&self) -> bool {
        self.state.at_end()
    }

    pub closed spec fn tokens_view(&self) -> Seq<Token> {
        self.state.tokens@
    }

    pub closed spec fn cursor(&self) -> int {
        self.state.current as int
    }

    pub closed spec fn errors_view(&self) -> Seq<RaccoonError> {
        self.errors@
    }

    pub fn new(tokens: Vec<Token>, file: Option<String>) -> (p: Parser)
        ensures
            p.tokens_view() == tokens@,
            p.cursor() == 0,
            p.errors_view().len() == 0,
            p.wf() <==> (tokens@.len() > 0 && tokens@.last().token_type == crate::tokens::TokenType::Eof),
    {
        Parser { state: ParserState::new(tokens, file), errors: Vec::new() }
    }

    /// Parses declarations until the end of the tokens. A declaration that fails is
    /// recorded among the errors, and parsing resumes after the next statement boundary.
    pub fn parse(&mut self) -> (r: Result<Program, RaccoonError>)
        requires
            old(self).wf(),
        ensures
            final(self).wf(),
            final(self).tokens_view() == old(self).tokens_view(),
            final(self).finished(),
            final(self).errors_view().len() >= old(self).errors_view().len(),
            r matches Ok(p) && p.position == (1usize, 1usize),
            forall|n: int| #[trigger] simple_stmts_at(old(self).tokens_view(), old(self).cursor(), n) ==> (r matches Ok(p)
                && p.stmts@.len() == n && final(self).errors_view() == old(self).errors_view() && forall|k: int| 0 <= k < n
                ==> expr_stmt_at(old(self).tokens_view(), old(self).cursor() + 2 * k, #[trigger] p.stmts@[k])),
    {
        let mut statements: Vec<Stmt> = Vec::new();
        while !self.state.is_at_end()
            invariant
                self.wf(),
                self.state.tokens@ == old(self).state.tokens@,
                self.errors@.len() >= old(self).errors@.len(),
                forall|n: int| #[trigger] simple_stmts_at(old(self).tokens_view(), old(self).cursor(), n) ==> (
                    statements@.len() <= n && self.state.current == old(self).cursor() + 2 * statements@.len()
                    && self.errors@ == old(self).errors@ && forall|k: int| 0 <= k < statements@.len() ==> expr_stmt_at(
                    old(self).tokens_view(),
                    old(self).cursor() + 2 * k,
                    #[trigger] statements@[k],
                )),
            decreases self.state.remaining(),
        {
            let ghost start = self.state.current;
            let ghost before = statements@;
            let ghost s0 = self.state;
            match Declarations::declaration(&mut self.state) {
                Ok(stmt) => {
                    statements.push(stmt);
                    proof {
                        assert forall|n: int| #[trigger] simple_stmts_at(old(self).tokens_view(), old(self).cursor(), n) implies (
                            statements@.len() <= n && self.state.current == old(self).cursor() + 2 * statements@.len()
                            && forall|k: int| 0 <= k < statements@.len() ==> expr_stmt_at(
                            old(self).tokens_view(),
                            old(self).cursor() + 2 * k,
                            #[trigger] statements@[k],
                        )) by {
                            let k0 = before.len() as int;
                            assert(k0 < n) by {
                                if k0 == n {
                                    assert(s0.tokens@[s0.current as int].token_type == TokenType::Eof);
                                }
                            }
                            assert(atom_kind(old(self).tokens_view()[old(self).cursor() + 2 * k0].token_type));
                            assert(old(self).tokens_view()[old(self).cursor() + 2 * k0 + 1].token_type == TokenType::Semicolon);
                            assert forall|k: int| 0 <= k < statements@.len() implies expr_stmt_at(
                                old(self).tokens_view(),
                                old(self).cursor() + 2 * k,
                                #[trigger] statements@[k],
                            ) by {
                                if k < k0 {
                                    assert(statements@[k] == before[k]);
                                }
                            }
                        }
                    }
                },
                Err(e) => {
                    self.errors.push(e);
                    crate::parser::utilities::Parser::synchronize(&mut self.state);
                },
            }
        }
        Ok(Program { stmts: statements, position: (1, 1) })
    }

    /// The errors recorded by [`Parser::parse`], in order.
    pub fn errors(&self) -> (e: &Vec<RaccoonError>)
        ensures
            e@ == self.errors_view(),
    {
        &self.errors
    }
}

} // verus!
