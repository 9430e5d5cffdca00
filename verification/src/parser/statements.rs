//! Parsing of statements: blocks, control flow, `return`, `try`, `throw` and expression
//! statements.
use vstd::prelude::*;
use crate::ast::{Block, CatchClause, Expr, PrimitiveKind, Stmt, SwitchCase, Type, VarPattern};
use crate::error::RaccoonError;
use crate::parser::declarations::Declarations;
use crate::parser::expressions::{atom_kind, atom_of, single_before, Expressions};
use crate::parser::state::{expects_first, parsed, steps, ParserState};
use crate::parser::types::Types;
use crate::parser::utilities::Parser;
use crate::text::copy_opt_string;
use crate::tokens::TokenType;

verus! {

/// The cursor stands on `{ }`.
pub open spec fn empty_block_at(s: ParserState) -> bool {
    &&& s.current + 1 < s.tokens@.len()
    &&& s.cur_kind() == TokenType::LeftBrace
    &&& s.tokens@[s.current + 1].token_type == TokenType::RightBrace
}

/// After `do`, the cursor stands on `{ } while (x);` with `x` a name or literal.
pub open spec fn simple_do_while_at(s: ParserState) -> bool {
    let c = s.current as int;
    &&& c + 6 < s.tokens@.len()
    &&& empty_block_at(s)
    &&& s.tokens@[c + 2].token_type == TokenType::While
    &&& s.tokens@[c + 3].token_type == TokenType::LeftParen
    &&& atom_kind(s.tokens@[c + 4].token_type)
    &&& s.tokens@[c + 5].token_type == TokenType::RightParen
    &&& s.tokens@[c + 6].token_type == TokenType::Semicolon
}

/// `st` is the expression statement of the name or literal under the cursor of `s`.
pub open spec fn expr_stmt_of(s: ParserState, st: Stmt) -> bool {
    st matches Stmt::ExprStmt { expression, position } && atom_of(s.tokens@[s.current as int], expression)
        && position == s.tokens@[s.current as int].position
}

/// The cursor stands on `x; }` with `x` a name or literal.
pub open spec fn one_stmt_block_at(s: ParserState) -> bool {
    &&& single_before(s, TokenType::Semicolon)
    &&& s.current + 2 < s.tokens@.len()
    &&& s.tokens@[s.current + 2].token_type == TokenType::RightBrace
}

/// The token kinds that end the statements of a `case` or `default` clause.
pub open spec fn clause_end_kind(k: TokenType) -> bool {
    k == TokenType::Case || k == TokenType::Default || k == TokenType::RightBrace || k == TokenType::Eof
}

/// Parsing functions for statements.
pub struct Statements;

impl Statements {
    /// A block, `if`, `while`, `do`, `for`, `switch`, `return`, `try`, `throw`, `break`,
    /// `continue`, or else an expression statement.
    pub fn statement(state: &mut ParserState) -> (r: Result<Stmt, RaccoonError>)
        requires
            old(state).wf(),
        ensures
            parsed(*old(state), *final(state), r),
            old(state).cur_kind() == TokenType::Break ==> (r matches Ok(s) && s is BreakStmt),
            old(state).cur_kind() == TokenType::Continue ==> (r matches Ok(s) && s is ContinueStmt),
            old(state).cur_kind() == TokenType::LeftBrace ==> (r matches Ok(s) ==> s is Block),
            old(state).cur_kind() == TokenType::If ==> (r matches Ok(s) ==> s is IfStmt),
            old(state).cur_kind() == TokenType::While ==> (r matches Ok(s) ==> s is WhileStmt),
            old(state).cur_kind() == TokenType::Return ==> (r matches Ok(s) ==> s is ReturnStmt),
            single_before(*old(state), TokenType::Semicolon) ==> final(state).current == old(state).current + 2
                && (r matches Ok(st) && expr_stmt_of(*old(state), st)),
            empty_block_at(*old(state)) ==> final(state).current == old(state).current + 2 && (r matches Ok(
                Stmt::Block { statements, position },
            ) && statements@.len() == 0 && position == old(state).tokens@[old(state).current + 1].position),
        decreases old(state).remaining(), 38nat,
    {
        if Parser::match_token(state, &[TokenType::LeftBrace]) {
            let statements = Self::block_statements(state)?;
            return Ok(Stmt::Block { statements, position: state.previous().unwrap().position });
        }
        if Parser::match_token(state, &[TokenType::If]) {
            return Self::if_statement(state);
        }
        if Parser::match_token(state, &[TokenType::While]) {
            return Self::while_statement(state);
        }
        if Parser::match_token(state, &[TokenType::Do]) {
            return Self::do_while_statement(state);
        }
        if Parser::match_token(state, &[TokenType::For]) {
            return Self::for_statement(state);
        }
        if Parser::match_token(state, &[TokenType::Switch]) {
            return Self::switch_statement(state);
        }
        if Parser::match_token(state, &[TokenType::Return]) {
            return Self::return_statement(state);
        }
        if Parser::match_token(state, &[TokenType::Try]) {
            return Self::try_statement(state);
        }
        if Parser::match_token(state, &[TokenType::Throw]) {
            return Self::throw_statement(state);
        }
        if Parser::match_token(state, &[TokenType::Break]) {
            let stmt = Stmt::BreakStmt { position: state.previous().unwrap().position };
            Parser::optional_semicolon(state);
            return Ok(stmt);
        }
        if Parser::match_token(state, &[TokenType::Continue]) {
            let stmt = Stmt::ContinueStmt { position: state.previous().unwrap().position };
            Parser::optional_semicolon(state);
            return Ok(stmt);
        }
        Self::expression_statement(state)
    }

    /// `try { } catch (e: T) { } finally { }`, after `try`; at least one `catch` or a
    /// `finally` is needed.
    pub fn try_statement(state: &mut ParserState) -> (r: Result<Stmt, RaccoonError>)
        requires
            old(state).wf(),
            old(state).current > 0,
        ensures
            parsed(*old(state), *final(state), r),
            expects_first(*old(state), *final(state), TokenType::LeftBrace, "Expected '{' after 'try'"@, r),
            r matches Ok(s) ==> s matches Stmt::TryStmt { catch_clauses, finally_block, .. }
                && (catch_clauses@.len() > 0 || finally_block is Some),
        decreases old(state).remaining(), 45nat,
    {
        let position = state.previous().unwrap().position;
        Parser::consume(state, TokenType::LeftBrace, "Expected '{' after 'try'")?;
        let try_block = Block { statements: Self::block_statements(state)?, position };
        let mut catch_clauses: Vec<CatchClause> = Vec::new();
        while Parser::match_token(state, &[TokenType::Catch])
            invariant
                steps(*old(state), *state),
                old(state).cur_kind() == TokenType::LeftBrace,
                state.current > old(state).current,
            decreases state.remaining(),
        {
            let catch_pos = state.previous().unwrap().position;
            Parser::consume(state, TokenType::LeftParen, "Expected '(' after 'catch'")?;
            let error_var = Parser::consume(state, TokenType::Identifier, "Expected error variable name")?.value.clone();
            let mut error_type: Option<Type> = None;
            if Parser::match_token(state, &[TokenType::Colon]) {
                error_type = Some(Types::parse_type(state)?);
            }
            Parser::consume(state, TokenType::RightParen, "Expected ')' after catch parameter")?;
            Parser::consume(state, TokenType::LeftBrace, "Expected '{' after catch clause")?;
            let body = Block { statements: Self::block_statements(state)?, position: catch_pos };
            catch_clauses.push(CatchClause { error_var, error_type, body, position: catch_pos });
        }
        let mut finally_block: Option<Block> = None;
        if Parser::match_token(state, &[TokenType::Finally]) {
            Parser::consume(state, TokenType::LeftBrace, "Expected '{' after 'finally'")?;
            let statements = Self::block_statements(state)?;
            finally_block = Some(Block { statements, position: state.previous().unwrap().position });
        }
        if catch_clauses.len() == 0 && finally_block.is_none() {
            return Err(RaccoonError::new(
                "Try statement must have at least one catch or finally block",
                position,
                copy_opt_string(&state.file),
            ));
        }
        Ok(Stmt::TryStmt { try_block, catch_clauses, finally_block, position })
    }

    /// `throw expr;`, after `throw`.
    pub fn throw_statement(state: &mut ParserState) -> (r: Result<Stmt, RaccoonError>)
        requires
            old(state).wf(),
            old(state).current > 0,
        ensures
            parsed(*old(state), *final(state), r),
            r matches Ok(s) ==> s is ThrowStmt,
            single_before(*old(state), TokenType::Semicolon) ==> final(state).current == old(state).current + 2
                && (r matches Ok(Stmt::ThrowStmt { value, position }) && atom_of(
                old(state).tokens@[old(state).current as int],
                value,
            ) && position == old(state).tokens@[old(state).current - 1].position),
        decreases old(state).remaining(), 45nat,
    {
        let position = state.previous().unwrap().position;
        let value = Expressions::expression(state)?;
        Parser::optional_semicolon(state);
        Ok(Stmt::ThrowStmt { value, position })
    }

    /// Declarations up to and including the closing `}`.
    pub fn block_statements(state: &mut ParserState) -> (r: Result<Vec<Stmt>, RaccoonError>)
        requires
            old(state).wf(),
        ensures
            parsed(*old(state), *final(state), r),
            r is Ok ==> final(state).tokens@[final(state).current - 1].token_type == TokenType::RightBrace,
            old(state).cur_kind() == TokenType::RightBrace ==> final(state).current == old(state).current + 1
                && (r matches Ok(v) && v@.len() == 0),
            one_stmt_block_at(*old(state)) ==> final(state).current == old(state).current + 3
                && (r matches Ok(v) && v@.len() == 1 && expr_stmt_of(*old(state), v@[0])),
        decreases old(state).remaining(), 40nat,
    {
        let mut statements: Vec<Stmt> = Vec::new();
        while !state.check(&TokenType::RightBrace) && !state.is_at_end()
            invariant
                steps(*old(state), *state),
                old(state).cur_kind() == TokenType::RightBrace ==> state.current == old(state).current
                    && statements@.len() == 0,
                one_stmt_block_at(*old(state)) ==> (state.current == old(state).current && statements@.len() == 0)
                    || (state.current == old(state).current + 2 && statements@.len() == 1 && expr_stmt_of(
                    *old(state),
                    statements@[0],
                )),
            decreases state.remaining(),
        {
            statements.push(Declarations::declaration(state)?);
        }
        Parser::consume(state, TokenType::RightBrace, "Expected '}'")?;
        Ok(statements)
    }

    /// `if (cond) stmt else stmt`, after `if`.
    pub fn if_statement(state: &mut ParserState) -> (r: Result<Stmt, RaccoonError>)
        requires
            old(state).wf(),
            old(state).current > 0,
        ensures
            parsed(*old(state), *final(state), r),
            expects_first(*old(state), *final(state), TokenType::LeftParen, "Expected '(' after 'if'"@, r),
            r matches Ok(s) ==> s is IfStmt,
        decreases old(state).remaining(), 45nat,
    {
        let position = state.previous().unwrap().position;
        Parser::consume(state, TokenType::LeftParen, "Expected '(' after 'if'")?;
        let condition = Expressions::expression(state)?;
        Parser::consume(state, TokenType::RightParen, "Expected ')' after condition")?;
        let then_branch = Box::new(Self::statement(state)?);
        let mut else_branch: Option<Box<Stmt>> = None;
        if Parser::match_token(state, &[TokenType::Else]) {
            else_branch = Some(Box::new(Self::statement(state)?));
        }
        Ok(Stmt::IfStmt { condition, then_branch, else_branch, position })
    }

    /// `while (cond) stmt`, after `while`.
    pub fn while_statement(state: &mut ParserState) -> (r: Result<Stmt, RaccoonError>)
        requires
            old(state).wf(),
            old(state).current > 0,
        ensures
            parsed(*old(state), *final(state), r),
            expects_first(*old(state), *final(state), TokenType::LeftParen, "Expected '(' after 'while'"@, r),
            r matches Ok(s) ==> s is WhileStmt,
        decreases old(state).remaining(), 45nat,
    {
        let position = state.previous().unwrap().position;
        Parser::consume(state, TokenType::LeftParen, "Expected '(' after 'while'")?;
        let condition = Expressions::expression(state)?;
        Parser::consume(state, TokenType::RightParen, "Expected ')' after condition")?;
        let body = Box::new(Self::statement(state)?);
        Ok(Stmt::WhileStmt { condition, body, position })
    }

    /// `for (let x in e) stmt`, `for (let x of e) stmt`, `for (let x = e; cond; inc) stmt` or
    /// `for (init; cond; inc) stmt`, after `for`.
    pub fn for_statement(state: &mut ParserState) -> (r: Result<Stmt, RaccoonError>)
        requires
            old(state).wf(),
            old(state).current > 0,
        ensures
            parsed(*old(state), *final(state), r),
            expects_first(*old(state), *final(state), TokenType::LeftParen, "Expected '(' after 'for'"@, r),
            r matches Ok(s) ==> (s is ForStmt || s is ForInStmt || s is ForOfStmt),
        decreases old(state).remaining(), 45nat,
    {
        let position = state.previous().unwrap().position;
        Parser::consume(state, TokenType::LeftParen, "Expected '(' after 'for'")?;
        if Parser::match_token(state, &[TokenType::Let, TokenType::Const]) {
            let is_const = state.previous().unwrap().token_type == TokenType::Const;
            let var_name = Parser::consume(state, TokenType::Identifier, "Expected variable name")?.value.clone();
            let mut type_annotation: Option<Type> = None;
            if Parser::match_token(state, &[TokenType::Colon]) {
                type_annotation = Some(Types::parse_type(state)?);
            }
            if Parser::match_token(state, &[TokenType::In]) {
                let iterable = Expressions::expression(state)?;
                Parser::consume(state, TokenType::RightParen, "Expected ')' after iterable")?;
                let body = Box::new(Self::statement(state)?);
                return Ok(Stmt::ForInStmt { variable: var_name, is_const, type_annotation, iterable, body, position });
            }
            if Parser::match_token(state, &[TokenType::Of]) {
                let iterable = Expressions::expression(state)?;
                Parser::consume(state, TokenType::RightParen, "Expected ')' after iterable")?;
                let body = Box::new(Self::statement(state)?);
                return Ok(Stmt::ForOfStmt { variable: var_name, is_const, type_annotation, iterable, body, position });
            }
            Parser::consume(state, TokenType::Assign, "Expected '=' in variable declaration")?;
            let init_value = Expressions::expression(state)?;
            let annotation = match type_annotation {
                Some(t) => t,
                None => Type::Primitive(PrimitiveKind::Any),
            };
            let var_decl = Box::new(Stmt::VarDecl {
                pattern: VarPattern::Identifier(var_name),
                type_annotation: annotation,
                initializer: Some(init_value),
                is_constant: is_const,
                position,
            });
            Parser::optional_semicolon(state);
            let mut condition: Option<Expr> = None;
            if !state.check(&TokenType::Semicolon) {
                condition = Some(Expressions::expression(state)?);
            }
            Parser::optional_semicolon(state);
            let mut increment: Option<Expr> = None;
            if !state.check(&TokenType::RightParen) {
                increment = Some(Expressions::expression(state)?);
            }
            Parser::consume(state, TokenType::RightParen, "Expected ')' after for clauses")?;
            let body = Box::new(Self::statement(state)?);
            return Ok(Stmt::ForStmt { initializer: Some(var_decl), condition, increment, body, position });
        }
        let mut initializer: Option<Box<Stmt>> = None;
        if !Parser::match_token(state, &[TokenType::Semicolon]) {
            initializer = Some(Box::new(Self::expression_statement(state)?));
        }
        let mut condition: Option<Expr> = None;
        if !state.check(&TokenType::Semicolon) {
            condition = Some(Expressions::expression(state)?);
        }
        Parser::optional_semicolon(state);
        let mut increment: Option<Expr> = None;
        if !state.check(&TokenType::RightParen) {
            increment = Some(Expressions::expression(state)?);
        }
        Parser::consume(state, TokenType::RightParen, "Expected ')' after for clauses")?;
        let body = Box::new(Self::statement(state)?);
        Ok(Stmt::ForStmt { initializer, condition, increment, body, position })
    }

    /// `do stmt while (cond);`, after `do`.
    pub fn do_while_statement(state: &mut ParserState) -> (r: Result<Stmt, RaccoonError>)
        requires
            old(state).wf(),
            old(state).current > 0,
        ensures
            parsed(*old(state), *final(state), r),
            r matches Ok(s) ==> s is DoWhileStmt,
            simple_do_while_at(*old(state)) ==> final(state).current == old(state).current + 7 && (r matches Ok(
                Stmt::DoWhileStmt { body, condition, position },
            ) && (*body matches Stmt::Block { statements, .. } && statements@.len() == 0) && atom_of(
                old(state).tokens@[old(state).current + 4],
                condition,
            ) && position == old(state).tokens@[old(state).current - 1].position),
        decreases old(state).remaining(), 45nat,
    {
        let position = state.previous().unwrap().position;
        let body = Box::new(Self::statement(state)?);
        Parser::consume(state, TokenType::While, "Expected 'while' after do-while body")?;
        Parser::consume(state, TokenType::LeftParen, "Expected '(' after 'while'")?;
        let condition = Expressions::expression(state)?;
        Parser::consume(state, TokenType::RightParen, "Expected ')' after condition")?;
        Parser::optional_semicolon(state);
        Ok(Stmt::DoWhileStmt { body, condition, position })
    }

    /// The statements of a `case` or `default` clause, up to the next clause or `}`.
    fn case_consequent(state: &mut ParserState) -> (r: Result<Vec<Stmt>, RaccoonError>)
        requires
            old(state).wf(),
        ensures
            steps(*old(state), *final(state)),
            clause_end_kind(old(state).cur_kind()) ==> final(state).current == old(state).current
                && (r matches Ok(v) && v@.len() == 0),
        decreases old(state).remaining(), 45nat,
    {
        let mut consequent: Vec<Stmt> = Vec::new();
        while !state.check(&TokenType::Case) && !state.check(&TokenType::Default)
            && !state.check(&TokenType::RightBrace) && !state.is_at_end()
            invariant
                steps(*old(state), *state),
                clause_end_kind(old(state).cur_kind()) ==> state.current == old(state).current
                    && consequent@.len() == 0,
            decreases state.remaining(),
        {
            consequent.push(Self::statement(state)?);
        }
        Ok(consequent)
    }

    /// `switch (d) { case v: stmts default: stmts }`, after `switch`.
    pub fn switch_statement(state: &mut ParserState) -> (r: Result<Stmt, RaccoonError>)
        requires
            old(state).wf(),
            old(state).current > 0,
        ensures
            parsed(*old(state), *final(state), r),
            expects_first(*old(state), *final(state), TokenType::LeftParen, "Expected '(' after 'switch'"@, r),
            r matches Ok(s) ==> s is SwitchStmt,
        decreases old(state).remaining(), 45nat,
    {
        let position = state.previous().unwrap().position;
        Parser::consume(state, TokenType::LeftParen, "Expected '(' after 'switch'")?;
        let discriminant = Expressions::expression(state)?;
        Parser::consume(state, TokenType::RightParen, "Expected ')' after discriminant")?;
        Parser::consume(state, TokenType::LeftBrace, "Expected '{' to start switch body")?;
        let mut cases: Vec<SwitchCase> = Vec::new();
        while !state.check(&TokenType::RightBrace) && !state.is_at_end()
            invariant
                steps(*old(state), *state),
                old(state).cur_kind() == TokenType::LeftParen,
                state.current > old(state).current,
            decreases state.remaining(),
        {
            if Parser::match_token(state, &[TokenType::Case]) {
                let test = Some(Expressions::expression(state)?);
                Parser::consume(state, TokenType::Colon, "Expected ':' after case value")?;
                let consequent = Self::case_consequent(state)?;
                cases.push(SwitchCase { test, consequent });
            } else if Parser::match_token(state, &[TokenType::Default]) {
                Parser::consume(state, TokenType::Colon, "Expected ':' after 'default'")?;
                let consequent = Self::case_consequent(state)?;
                cases.push(SwitchCase { test: None, consequent });
            } else {
                return Err(RaccoonError::new(
                    "Expected 'case' or 'default' in switch statement",
                    state.peek().unwrap().position,
                    copy_opt_string(&state.file),
                ));
            }
        }
        Parser::consume(state, TokenType::RightBrace, "Expected '}' after switch body")?;
        Ok(Stmt::SwitchStmt { discriminant, cases, position })
    }

    /// `return [expr];`, after `return`; a value is read unless `;`, `}`, the end or a line
    /// break follows.
    pub fn return_statement(state: &mut ParserState) -> (r: Result<Stmt, RaccoonError>)
        requires
            old(state).wf(),
            old(state).current > 0,
        ensures
            steps(*old(state), *final(state)),
            r matches Ok(s) ==> s matches Stmt::ReturnStmt { value, position }
                && position == old(state).tokens@[old(state).current - 1].position,
            old(state).cur_kind() == TokenType::Semicolon ==> final(state).current == old(state).current + 1
                && (r matches Ok(Stmt::ReturnStmt { value, .. }) && value is None),
            single_before(*old(state), TokenType::Semicolon) && old(state).tokens@[old(state).current as int].position.0
                <= old(state).tokens@[old(state).current - 1].position.0 ==> final(state).current == old(state).current + 2
                && (r matches Ok(Stmt::ReturnStmt { value, .. }) && (value matches Some(e) && atom_of(
                old(state).tokens@[old(state).current as int],
                e,
            ))),
        decreases old(state).remaining(), 45nat,
    {
        let position = state.previous().unwrap().position;
        let mut value: Option<Expr> = None;
        if !state.check(&TokenType::Semicolon) && !Parser::can_insert_semicolon(state) {
            value = Some(Expressions::expression(state)?);
        }
        Parser::optional_semicolon(state);
        Ok(Stmt::ReturnStmt { value, position })
    }

    /// An expression followed by an optional `;`.
    pub fn expression_statement(state: &mut ParserState) -> (r: Result<Stmt, RaccoonError>)
        requires
            old(state).wf(),
        ensures
            parsed(*old(state), *final(state), r),
            r matches Ok(s) ==> s is ExprStmt,
            single_before(*old(state), TokenType::Semicolon) ==> final(state).current == old(state).current + 2
                && (r matches Ok(st) && expr_stmt_of(*old(state), st)),
        decreases old(state).remaining(), 37nat,
    {
        let expr = Expressions::expression(state)?;
        let position = expr.position();
        Parser::optional_semicolon(state);
        Ok(Stmt::ExprStmt { expression: expr, position })
    }
}

} // verus!
