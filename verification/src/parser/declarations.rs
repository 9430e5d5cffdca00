//! Parsing of declarations: variables, functions, classes, interfaces, enums, type
//! aliases, imports and exports.
use vstd::prelude::*;
use crate::ast::{
    AccessorKind, ArrayPattern, ArrayPatternElement, ClassBody, ClassMethod, ClassProperty,
    ConstructorDecl, DecoratorDecl, DestructuringPattern, EnumMember, ExportSpecifier, Expr,
    FnParam, ImportSpecifier, InterfaceProperty, ObjectPattern, ObjectPatternProperty,
    ObjectPatternValue, PatternName, PrimitiveKind, PropertyAccessor, Stmt, Type, TypeParameter,
    VarPattern,
};
use crate::error::RaccoonError;
use crate::parser::expressions::{atom_kind, atom_of, one_name_between, single_before, Expressions};
use crate::parser::state::{expects_first, parsed, steps, ParserState};
use crate::parser::statements::{expr_stmt_of, Statements};
use crate::parser::types::{builtin_at, is_builtin_at, simple_type_of, Types};
use crate::parser::utilities::Parser;
use crate::text::copy_opt_string;
use crate::tokens::{AccessModifier, Token, TokenType};

verus! {

/// Parsing functions for declarations.
pub struct Declarations;

/// The type `any`.
pub open spec fn is_any_type(t: Type) -> bool {
    t matches Type::Primitive(PrimitiveKind::Any)
}

fn type_is_any(t: &Type) -> (b: bool)
    ensures
        b == is_any_type(*t),
{
    match t {
        Type::Primitive(PrimitiveKind::Any) => true,
        _ => false,
    }
}

/// The token at `c` begins `name = x;` with `x` a name or literal.
pub open spec fn simple_var_at(s: ParserState, c: int) -> bool {
    &&& 0 <= c
    &&& c + 3 < s.tokens@.len()
    &&& s.tokens@[c].token_type == TokenType::Identifier
    &&& s.tokens@[c + 1].token_type == TokenType::Assign
    &&& atom_kind(s.tokens@[c + 2].token_type)
    &&& s.tokens@[c + 3].token_type == TokenType::Semicolon
}

/// `st` declares the name at `c` with type `any` and the atom at `c + 2` as its value,
/// constant or not, at the position of the `;`.
pub open spec fn simple_var_parsed(s: ParserState, c: int, is_constant: bool, st: Stmt) -> bool {
    st matches Stmt::VarDecl { pattern, type_annotation, initializer, is_constant: k, position }
        && (pattern matches VarPattern::Identifier(n) && n@ == s.tokens@[c].value@)
        && type_annotation == Type::Primitive(PrimitiveKind::Any)
        && (initializer matches Some(e) && atom_of(s.tokens@[c + 2], e))
        && k == is_constant && position == s.tokens@[c + 3].position
}

/// The cursor stands on a name followed by `;`.
pub open spec fn bare_name_at(s: ParserState) -> bool {
    &&& s.current + 1 < s.tokens@.len()
    &&& s.cur_kind() == TokenType::Identifier
    &&& s.tokens@[s.current + 1].token_type == TokenType::Semicolon
}

/// The token at `c` begins `name() {}`.
pub open spec fn bare_callable_at(s: ParserState, c: int) -> bool {
    &&& 0 <= c
    &&& c + 4 < s.tokens@.len()
    &&& s.tokens@[c].token_type == TokenType::Identifier
    &&& s.tokens@[c + 1].token_type == TokenType::LeftParen
    &&& s.tokens@[c + 2].token_type == TokenType::RightParen
    &&& s.tokens@[c + 3].token_type == TokenType::LeftBrace
    &&& s.tokens@[c + 4].token_type == TokenType::RightBrace
}

/// The cursor stands on `name: T)` with `T` a built-in type name.
pub open spec fn one_typed_param_at(s: ParserState) -> bool {
    &&& s.current + 3 < s.tokens@.len()
    &&& s.cur_kind() == TokenType::Identifier
    &&& s.tokens@[s.current + 1].token_type == TokenType::Colon
    &&& is_builtin_at(s, 2)
    &&& s.tokens@[s.current + 3].token_type == TokenType::RightParen
}

/// `p` is the parameter `name: T` under the cursor of `s`: neither rest nor optional, and
/// without default value.
pub open spec fn one_typed_param(s: ParserState, p: FnParam) -> bool {
    &&& p.pattern matches VarPattern::Identifier(n) && n@ == s.tokens@[s.current as int].value@
    &&& p.param_type == builtin_at(s, 2)
    &&& p.default_value is None
    &&& !p.is_rest
    &&& !p.is_optional
}

/// The cursor stands on a name followed by a token of kind `close`.
pub open spec fn one_name_before(s: ParserState, close: TokenType) -> bool {
    &&& s.current + 1 < s.tokens@.len()
    &&& s.cur_kind() == TokenType::Identifier
    &&& s.tokens@[s.current + 1].token_type == close
}

/// From index `i`: `x0, x1, ..., x(n-1))`, one or more names or literals separated by commas,
/// then `)`.
pub open spec fn atom_args_at(s: ParserState, i: int, n: int) -> bool {
    &&& 1 <= n
    &&& 0 <= i
    &&& i + 2 * n - 1 < s.tokens@.len()
    &&& forall|k: int| 0 <= k < n ==> atom_kind(#[trigger] s.tokens@[i + 2 * k].token_type)
    &&& forall|k: int| 0 <= k < n - 1 ==> (#[trigger] s.tokens@[i + 2 * k + 1]).token_type == TokenType::Comma
    &&& s.tokens@[i + 2 * n - 1].token_type == TokenType::RightParen
}

/// The type parameter at index `i`: a name, or a name, `extends` and a type name followed by
/// `,` or `>`. `Some` of the index after it.
pub open spec fn tparam_end(s: Seq<Token>, i: int) -> Option<int> {
    if 0 <= i && i + 1 < s.len() && s[i].token_type == TokenType::Identifier {
        if s[i + 1].token_type == TokenType::Extends {
            if i + 3 < s.len() && s[i + 2].token_type == TokenType::Identifier && (s[i + 3].token_type
                == TokenType::Comma || s[i + 3].token_type == TokenType::Gt) {
                Some(i + 3)
            } else {
                None
            }
        } else {
            Some(i + 1)
        }
    } else {
        None
    }
}

/// From index `i`, type parameters separated by commas and closed by `>`: the indices where
/// each begins.
pub open spec fn tparam_starts(s: Seq<Token>, i: int) -> Option<Seq<int>>
    decreases s.len() - i,
{
    match tparam_end(s, i) {
        Some(j) => if s[j].token_type == TokenType::Gt {
            Some(seq![i])
        } else if s[j].token_type == TokenType::Comma && i < j + 1 <= s.len() {
            match tparam_starts(s, j + 1) {
                Some(rest) => Some(seq![i] + rest),
                None => None,
            }
        } else {
            None
        },
        None => None,
    }
}

/// The starts `st` are a list of type parameters: each followed by `,` and the next one, the
/// last by `>`.
pub open spec fn tparam_list(s: ParserState, st: Seq<int>) -> bool {
    &&& st.len() >= 1
    &&& forall|k: int| 0 <= k < st.len() ==> (#[trigger] tparam_end(s.tokens@, st[k])) is Some
    &&& forall|k: int| 0 <= k < st.len() - 1 ==> s.tokens@[tparam_end(s.tokens@, #[trigger] st[k])->Some_0].token_type
        == TokenType::Comma && st[k + 1] == tparam_end(s.tokens@, st[k])->Some_0 + 1
    &&& s.tokens@[tparam_end(s.tokens@, st.last())->Some_0].token_type == TokenType::Gt
}

/// `p` is the type parameter that begins at index `i`: its name, and the type after `extends`
/// as its constraint, if there is one.
pub open spec fn tparam_is(s: ParserState, i: int, p: TypeParameter) -> bool {
    &&& p.name@ == s.tokens@[i].value@
    &&& if s.tokens@[i + 1].token_type == TokenType::Extends {
        p.constraint matches Some(ty) && simple_type_of(s, s.tokens@[i + 2], ty)
    } else {
        p.constraint is None
    }
}

proof fn lemma_tparam_starts(s: ParserState, i: int)
    requires
        tparam_starts(s.tokens@, i) is Some,
    ensures
        tparam_list(s, tparam_starts(s.tokens@, i)->Some_0),
        tparam_starts(s.tokens@, i)->Some_0[0] == i,
    decreases s.tokens@.len() - i,
{
    let t = s.tokens@;
    let st = tparam_starts(t, i)->Some_0;
    let j = tparam_end(t, i)->Some_0;
    if t[j].token_type == TokenType::Gt {
    } else {
        lemma_tparam_starts(s, j + 1);
        let rest = tparam_starts(t, j + 1)->Some_0;
        assert(st == seq![i] + rest);
        assert forall|k: int| 0 <= k < st.len() implies (#[trigger] tparam_end(t, st[k])) is Some by {
            if k > 0 { assert(st[k] == rest[k - 1]); }
        }
        assert forall|k: int| 0 <= k < st.len() - 1 implies t[tparam_end(t, #[trigger] st[k])->Some_0].token_type
            == TokenType::Comma && st[k + 1] == tparam_end(t, st[k])->Some_0 + 1 by {
            if k > 0 {
                assert(st[k] == rest[k - 1]);
                assert(st[k + 1] == rest[k]);
            } else {
                assert(st[1] == rest[0]);
            }
        }
        assert(st.last() == rest.last());
    }
}

/// From index `i`: `() {}`.
pub open spec fn empty_ctor_rest_at(s: ParserState, i: int) -> bool {
    &&& 0 <= i
    &&& i + 3 < s.tokens@.len()
    &&& s.tokens@[i].token_type == TokenType::LeftParen
    &&& s.tokens@[i + 1].token_type == TokenType::RightParen
    &&& s.tokens@[i + 2].token_type == TokenType::LeftBrace
    &&& s.tokens@[i + 3].token_type == TokenType::RightBrace
}

/// From index `i`: `constructor() {}`.
pub open spec fn ctor_at(s: ParserState, i: int) -> bool {
    &&& 0 <= i
    &&& i < s.tokens@.len()
    &&& s.tokens@[i].token_type == TokenType::Constructor
    &&& empty_ctor_rest_at(s, i + 1)
}

/// From index `i`: `name: T;` with `T` a type name.
pub open spec fn typed_prop_at(s: ParserState, i: int) -> bool {
    &&& 0 <= i
    &&& i + 3 < s.tokens@.len()
    &&& s.tokens@[i].token_type == TokenType::Identifier
    &&& s.tokens@[i + 1].token_type == TokenType::Colon
    &&& s.tokens@[i + 2].token_type == TokenType::Identifier
    &&& s.tokens@[i + 3].token_type == TokenType::Semicolon
}

/// From index `c`: one member followed by `}`: `constructor() {}`, `name() {}` or
/// `name: T;`.
pub open spec fn one_member_at(s: ParserState, c: int) -> bool {
    ||| ctor_at(s, c) && c + 5 < s.tokens@.len() && s.tokens@[c + 5].token_type == TokenType::RightBrace
    ||| bare_callable_at(s, c) && c + 5 < s.tokens@.len() && s.tokens@[c + 5].token_type == TokenType::RightBrace
    ||| typed_prop_at(s, c) && c + 4 < s.tokens@.len() && s.tokens@[c + 4].token_type == TokenType::RightBrace
}

/// The index of the `}` after the one member of `one_member_at(s, c)`.
pub open spec fn member_end(s: ParserState, c: int) -> int {
    if typed_prop_at(s, c) { c + 4 } else { c + 5 }
}

/// `b` holds the one member of `one_member_at(s, c)` and nothing else: the constructor without
/// parameters or body; the public, non-static, non-async method of that name without
/// parameters, return type or body; or the public property of that name and type without
/// initializer.
pub open spec fn one_member_body(s: ParserState, c: int, b: ClassBody) -> bool {
    if ctor_at(s, c) {
        &&& b.constructor matches Some(k) && k.parameters@.len() == 0 && k.body@.len() == 0
        &&& b.properties@.len() == 0 && b.methods@.len() == 0 && b.accessors@.len() == 0
    } else if bare_callable_at(s, c) {
        &&& b.methods@.len() == 1
        &&& b.methods@[0].name@ == s.tokens@[c].value@ && b.methods@[0].parameters@.len() == 0
        &&& b.methods@[0].return_type is None && b.methods@[0].body@.len() == 0
        &&& !b.methods@[0].is_static && !b.methods@[0].is_async && b.methods@[0].access_modifier == AccessModifier::Public
        &&& b.constructor is None && b.properties@.len() == 0 && b.accessors@.len() == 0
    } else {
        &&& b.properties@.len() == 1
        &&& b.properties@[0].name@ == s.tokens@[c].value@ && simple_type_of(s, s.tokens@[c + 2], b.properties@[0].property_type)
        &&& b.properties@[0].initializer is None && b.properties@[0].access_modifier == AccessModifier::Public
        &&& b.constructor is None && b.methods@.len() == 0 && b.accessors@.len() == 0
    }
}

/// A class body without members.
pub open spec fn empty_class_body(b: ClassBody) -> bool {
    &&& b.properties@.len() == 0
    &&& b.constructor is None
    &&& b.methods@.len() == 0
    &&& b.accessors@.len() == 0
}

/// After `import`, the cursor stands on `* as ns from "m";`.
pub open spec fn namespace_import_at(s: ParserState) -> bool {
    let c = s.current as int;
    &&& c + 5 < s.tokens@.len()
    &&& s.tokens@[c].token_type == TokenType::Multiply
    &&& s.tokens@[c + 1].token_type == TokenType::As
    &&& s.tokens@[c + 2].token_type == TokenType::Identifier
    &&& s.tokens@[c + 3].token_type == TokenType::From
    &&& s.tokens@[c + 4].token_type == TokenType::StrLiteral
    &&& s.tokens@[c + 5].token_type == TokenType::Semicolon
}

/// After `import`, the cursor stands on `name from "m";`.
pub open spec fn default_import_at(s: ParserState) -> bool {
    let c = s.current as int;
    &&& c + 3 < s.tokens@.len()
    &&& s.tokens@[c].token_type == TokenType::Identifier
    &&& s.tokens@[c + 1].token_type == TokenType::From
    &&& s.tokens@[c + 2].token_type == TokenType::StrLiteral
    &&& s.tokens@[c + 3].token_type == TokenType::Semicolon
}

/// The cursor stands on `name: T` with `T` a built-in type name, followed by a token that
/// neither continues the type nor begins an initializer.
pub open spec fn typed_name_at(s: ParserState) -> bool {
    &&& s.current + 3 < s.tokens@.len()
    &&& s.cur_kind() == TokenType::Identifier
    &&& s.tokens@[s.current + 1].token_type == TokenType::Colon
    &&& is_builtin_at(s, 2)
    &&& !seq![TokenType::Assign, TokenType::Question, TokenType::LeftBracket, TokenType::Ampersand, TokenType::BitwiseOr]
        .contains(s.tokens@[s.current + 3].token_type)
}

/// Where a declaration `name: T` ends: after a `;` that follows, else after `T`.
pub open spec fn typed_end(s: ParserState) -> int {
    if s.tokens@[s.current + 3].token_type == TokenType::Semicolon { s.current + 4 } else { s.current + 3 }
}

/// After `import`, the cursor stands on `{ name } from "m";`.
pub open spec fn named_import_at(s: ParserState) -> bool {
    let c = s.current as int;
    &&& c + 5 < s.tokens@.len()
    &&& s.tokens@[c].token_type == TokenType::LeftBrace
    &&& s.tokens@[c + 1].token_type == TokenType::Identifier
    &&& s.tokens@[c + 2].token_type == TokenType::RightBrace
    &&& s.tokens@[c + 3].token_type == TokenType::From
    &&& s.tokens@[c + 4].token_type == TokenType::StrLiteral
    &&& s.tokens@[c + 5].token_type == TokenType::Semicolon
}

/// The cursor stands on a name followed by neither `as` nor `,`.
pub open spec fn one_import_at(s: ParserState) -> bool {
    &&& s.current + 1 < s.tokens@.len()
    &&& s.cur_kind() == TokenType::Identifier
    &&& s.tokens@[s.current + 1].token_type != TokenType::As
    &&& s.tokens@[s.current + 1].token_type != TokenType::Comma
}

/// After `export`, the cursor stands on `{ name };`.
pub open spec fn one_export_at(s: ParserState) -> bool {
    let c = s.current as int;
    &&& c + 3 < s.tokens@.len()
    &&& s.tokens@[c].token_type == TokenType::LeftBrace
    &&& s.tokens@[c + 1].token_type == TokenType::Identifier
    &&& s.tokens@[c + 2].token_type == TokenType::RightBrace
    &&& s.tokens@[c + 3].token_type == TokenType::Semicolon
}

impl Declarations {
    /// Decorators, then an import, export, variable, function, class, interface, enum or
    /// type alias declaration; anything else is a statement.
    pub fn declaration(state: &mut ParserState) -> (r: Result<Stmt, RaccoonError>)
        requires
            old(state).wf(),
        ensures
            parsed(*old(state), *final(state), r),
            single_before(*old(state), TokenType::Semicolon) ==> final(state).current == old(state).current + 2
                && (r matches Ok(st) && expr_stmt_of(*old(state), st)),
            (old(state).cur_kind() == TokenType::Let || old(state).cur_kind() == TokenType::Const) && simple_var_at(
                *old(state),
                old(state).current + 1,
            ) ==> final(state).current == old(state).current + 5 && (r matches Ok(st) && simple_var_parsed(
                *old(state),
                old(state).current + 1,
                old(state).cur_kind() == TokenType::Const,
                st,
            )),
            old(state).cur_kind() == TokenType::Fn && bare_callable_at(*old(state), old(state).current + 1)
                ==> final(state).current == old(state).current + 6 && (r matches Ok(Stmt::FnDecl {
                name,
                type_parameters,
                parameters,
                return_type,
                body,
                is_async,
                is_declare,
                decorators,
                position,
            }) && name@ == old(state).tokens@[old(state).current + 1].value@ && type_parameters@.len() == 0
                && parameters@.len() == 0 && return_type is None && body@.len() == 0 && !is_async && !is_declare
                && decorators@.len() == 0 && position == old(state).tokens@[old(state).current + 1].position),
        decreases old(state).remaining(), 39nat,
    {
        let mut decorators: Vec<DecoratorDecl> = Vec::new();
        while Parser::match_token(state, &[TokenType::At])
            invariant
                steps(*old(state), *state),
                decorators@.len() > 0 ==> state.current > old(state).current,
                old(state).cur_kind() != TokenType::At ==> state.current == old(state).current,
            decreases state.remaining(),
        {
            decorators.push(Self::parse_decorator(state)?);
        }
        if Parser::match_token(state, &[TokenType::Import]) {
            return Self::import_declaration(state);
        }
        if Parser::match_token(state, &[TokenType::Export]) {
            return Self::export_declaration(state);
        }
        if Parser::match_token(state, &[TokenType::Let, TokenType::Const]) {
            return Self::var_declaration(state);
        }
        if Parser::match_token(state, &[TokenType::Declare]) {
            return Self::function_declaration(state, decorators, true);
        }
        if Parser::match_token(state, &[TokenType::Async]) {
            return Self::function_declaration(state, decorators, false);
        }
        if Parser::match_token(state, &[TokenType::Fn]) {
            return Self::function_declaration(state, decorators, false);
        }
        if Parser::match_token(state, &[TokenType::Class]) {
            return Self::class_declaration(state, decorators);
        }
        if Parser::match_token(state, &[TokenType::Interface]) {
            return Self::interface_declaration(state);
        }
        if Parser::match_token(state, &[TokenType::Enum]) {
            return Self::enum_declaration(state);
        }
        if Parser::match_token(state, &[TokenType::TypeAlias]) {
            return Self::type_alias_declaration(state);
        }
        if decorators.len() > 0 {
            return Err(RaccoonError::new(
                "Decorators can only be applied to classes and functions",
                decorators[0].position,
                copy_opt_string(&state.file),
            ));
        }
        Statements::statement(state)
    }

    /// `let`/`const` name or pattern, optional `: Type`, optional `= init`, after the keyword.
    pub fn var_declaration(state: &mut ParserState) -> (r: Result<Stmt, RaccoonError>)
        requires
            old(state).wf(),
            old(state).current > 0,
        ensures
            parsed(*old(state), *final(state), r),
            r matches Ok(s) ==> s matches Stmt::VarDecl { is_constant, .. } && is_constant == (
                old(state).tokens@[old(state).current - 1].token_type == TokenType::Const),
            simple_var_at(*old(state), old(state).current as int) ==> final(state).current == old(state).current + 4
                && (r matches Ok(st) && simple_var_parsed(
                *old(state),
                old(state).current as int,
                old(state).tokens@[old(state).current - 1].token_type == TokenType::Const,
                st,
            )),
            typed_name_at(*old(state)) ==> (if old(state).tokens@[old(state).current - 1].token_type == TokenType::Const {
                final(state).current == old(state).current + 3 && (r matches Err(e) && e.message@
                    == "Constants must be initialized"@)
            } else if builtin_at(*old(state), 2) == Type::Primitive(PrimitiveKind::Any) {
                final(state).current == old(state).current + 3 && (r matches Err(e) && e.message@
                    == "Variable declaration must have either a type annotation or an initializer"@)
            } else {
                final(state).current == typed_end(*old(state)) && (r matches Ok(Stmt::VarDecl {
                    pattern,
                    type_annotation,
                    initializer,
                    is_constant,
                    position,
                }) && (pattern matches VarPattern::Identifier(n) && n@ == old(state).tokens@[old(state).current as int].value@)
                    && type_annotation == builtin_at(*old(state), 2) && initializer is None && !is_constant
                    && position == old(state).tokens@[typed_end(*old(state)) - 1].position)
            }),
            bare_name_at(*old(state)) ==> final(state).current == old(state).current + 1 && (r matches Err(e)
                && e.message@ == (if old(state).tokens@[old(state).current - 1].token_type == TokenType::Const {
                "Constants must be initialized"@
            } else {
                "Variable declaration must have either a type annotation or an initializer"@
            })),
        decreases old(state).remaining(), 45nat,
    {
        let is_constant = state.previous().unwrap().token_type == TokenType::Const;
        let pattern = if state.check(&TokenType::LeftBracket) || state.check(&TokenType::LeftBrace) {
            VarPattern::Destructuring(Self::parse_destructuring_pattern(state)?)
        } else {
            VarPattern::Identifier(Parser::consume(state, TokenType::Identifier, "Expected variable name")?.value.clone())
        };
        let mut type_annotation = Type::Primitive(PrimitiveKind::Any);
        if Parser::match_token(state, &[TokenType::Colon]) {
            type_annotation = Types::parse_type(state)?;
        }
        let mut initializer: Option<Expr> = None;
        if Parser::match_token(state, &[TokenType::Assign]) {
            initializer = Some(Expressions::expression(state)?);
        } else if is_constant {
            return Err(RaccoonError::new(
                "Constants must be initialized",
                state.previous().unwrap().position,
                copy_opt_string(&state.file),
            ));
        } else if type_is_any(&type_annotation) {
            return Err(RaccoonError::new(
                "Variable declaration must have either a type annotation or an initializer",
                state.previous().unwrap().position,
                copy_opt_string(&state.file),
            ));
        }
        Parser::optional_semicolon(state);
        Ok(Stmt::VarDecl {
            pattern,
            type_annotation,
            initializer,
            is_constant,
            position: state.previous().unwrap().position,
        })
    }

    /// `[declare] [async] fn name<T>(params): RetType { body }`; a declared function has no
    /// body.
    pub fn function_declaration(state: &mut ParserState, decorators: Vec<DecoratorDecl>, is_declare: bool) -> (r: Result<Stmt, RaccoonError>)
        requires
            old(state).wf(),
            !is_declare ==> old(state).current > 0,
        ensures
            parsed(*old(state), *final(state), r),
            r matches Ok(s) ==> s matches Stmt::FnDecl { is_declare: d, .. } && d == is_declare,
            !is_declare && old(state).tokens@[old(state).current - 1].token_type == TokenType::Fn && bare_callable_at(
                *old(state),
                old(state).current as int,
            ) ==> final(state).current == old(state).current + 5 && (r matches Ok(Stmt::FnDecl {
                name,
                type_parameters,
                parameters,
                return_type,
                body,
                is_async,
                is_declare: d,
                decorators: ds,
                position,
            }) && name@ == old(state).tokens@[old(state).current as int].value@ && type_parameters@.len() == 0
                && parameters@.len() == 0 && return_type is None && body@.len() == 0 && !is_async && !d
                && ds == decorators && position == old(state).tokens@[old(state).current as int].position),
        decreases old(state).remaining(), 45nat,
    {
        let is_async = if is_declare {
            Parser::match_token(state, &[TokenType::Async])
        } else {
            state.previous().unwrap().token_type == TokenType::Async
        };
        if is_declare || is_async {
            Parser::consume(state, TokenType::Fn, "Expected 'fn' after 'declare' or 'async'")?;
        }
        let name = Parser::consume(state, TokenType::Identifier, "Expected function name")?.value.clone();
        let position = state.previous().unwrap().position;
        let type_parameters = Self::parse_type_parameters(state)?;
        Parser::consume(state, TokenType::LeftParen, "Expected '(' after function name")?;
        let parameters = Self::function_parameters(state)?;
        Parser::consume(state, TokenType::RightParen, "Expected ')' after parameters")?;
        let return_type = if Parser::match_token(state, &[TokenType::Colon]) {
            Some(Types::parse_type(state)?)
        } else {
            None
        };
        let body = if is_declare {
            Parser::optional_semicolon(state);
            Vec::new()
        } else {
            Parser::consume(state, TokenType::LeftBrace, "Expected '{' before function body")?;
            Statements::block_statements(state)?
        };
        Ok(Stmt::FnDecl {
            name,
            type_parameters,
            parameters,
            return_type,
            body,
            is_async,
            is_declare,
            decorators,
            position,
        })
    }

    /// `<T, U extends Base>`, if a `<` follows.
    pub fn parse_type_parameters(state: &mut ParserState) -> (r: Result<Vec<TypeParameter>, RaccoonError>)
        requires
            old(state).wf(),
        ensures
            steps(*old(state), *final(state)),
            old(state).cur_kind() != TokenType::Lt ==> (r matches Ok(v) && v@.len() == 0
                && final(state).current == old(state).current),
            old(state).cur_kind() == TokenType::Lt && old(state).kind_ahead(1) != Some(TokenType::Identifier)
                ==> final(state).current == old(state).current + 1 && (r matches Err(e) && e.message@
                == "Expected type parameter name"@),
            old(state).cur_kind() == TokenType::Lt && tparam_starts(old(state).tokens@, old(state).current + 1) is Some
                ==> ({
                let st = tparam_starts(old(state).tokens@, old(state).current + 1)->Some_0;
                &&& final(state).current == tparam_end(old(state).tokens@, st.last())->Some_0 + 1
                &&& r matches Ok(v) && v@.len() == st.len() && forall|k: int| 0 <= k < st.len() ==> tparam_is(
                    *old(state),
                    st[k],
                    #[trigger] v@[k],
                )
            }),
    {
        let mut type_params: Vec<TypeParameter> = Vec::new();
        if !state.check(&TokenType::Lt) {
            return Ok(type_params);
        }
        state.advance();
        let ghost toks = old(state).tokens@;
        let ghost c1 = old(state).current + 1;
        proof {
            if tparam_starts(toks, c1) is Some {
                lemma_tparam_starts(*old(state), c1);
            }
        }
        loop
            invariant_except_break
                tparam_starts(toks, c1) matches Some(st) ==> type_params@.len() < st.len() && state.current
                    == st[type_params@.len() as int],
            invariant
                steps(*old(state), *state),
                toks == old(state).tokens@,
                c1 == old(state).current + 1,
                old(state).cur_kind() == TokenType::Lt,
                old(state).kind_ahead(1) != Some(TokenType::Identifier) ==> state.current == old(state).current + 1,
                tparam_starts(toks, c1) is Some ==> tparam_list(*old(state), tparam_starts(toks, c1)->Some_0),
                tparam_starts(toks, c1) matches Some(st) ==> forall|k: int| 0 <= k < type_params@.len() ==> tparam_is(
                    *old(state),
                    st[k],
                    #[trigger] type_params@[k],
                ),
            ensures
                steps(*old(state), *state),
                old(state).cur_kind() == TokenType::Lt,
                old(state).kind_ahead(1) == Some(TokenType::Identifier),
                tparam_starts(toks, c1) matches Some(st) ==> type_params@.len() == st.len() && state.current
                    == tparam_end(toks, st.last())->Some_0 && forall|k: int| 0 <= k < type_params@.len() ==> tparam_is(
                    *old(state),
                    st[k],
                    #[trigger] type_params@[k],
                ),
            decreases state.remaining(),
        {
            let ghost before = type_params@;
            let param_name = Parser::consume(state, TokenType::Identifier, "Expected type parameter name")?.value.clone();
            let mut constraint: Option<Type> = None;
            if Parser::match_token(state, &[TokenType::Extends]) {
                constraint = Some(Types::parse_type(state)?);
            }
            type_params.push(TypeParameter { name: param_name, constraint });
            proof {
                if let Some(st) = tparam_starts(toks, c1) {
                    assert forall|k: int| 0 <= k < type_params@.len() implies tparam_is(
                        *old(state),
                        st[k],
                        #[trigger] type_params@[k],
                    ) by {
                        if k < before.len() {
                            assert(type_params@[k] == before[k]);
                        }
                    }
                }
            }
            if !Parser::match_token(state, &[TokenType::Comma]) {
                break;
            }
        }
        Parser::consume(state, TokenType::Gt, "Expected '>' after type parameters")?;
        Ok(type_params)
    }

    /// The token after the cursor is `class` or `interface`.
    pub fn lookahead_is_class_or_interface(state: &ParserState) -> (b: bool)
        ensures
            b == (state.current + 1 < state.tokens@.len() && (state.tokens@[state.current
                + 1].token_type == TokenType::Class || state.tokens@[state.current + 1].token_type
                == TokenType::Interface)),
    {
        if state.current >= state.tokens.len() || state.current + 1 >= state.tokens.len() {
            return false;
        }
        let next_token_type = state.tokens[state.current + 1].token_type;
        next_token_type == TokenType::Class || next_token_type == TokenType::Interface
    }

    /// `class Name<T> extends Base implements I, J { members }`, after `class`.
    pub fn class_declaration(state: &mut ParserState, decorators: Vec<DecoratorDecl>) -> (r: Result<Stmt, RaccoonError>)
        requires
            old(state).wf(),
        ensures
            parsed(*old(state), *final(state), r),
            expects_first(*old(state), *final(state), TokenType::Identifier, "Expected class name"@, r),
            r matches Ok(s) ==> (s matches Stmt::ClassDecl { name, position, decorators: d, .. } && name@
                == old(state).tokens@[old(state).current as int].value@ && position == old(state).tokens@[old(state).current as int].position && d == decorators),
            r matches Ok(s) ==> s is ClassDecl,
            old(state).cur_kind() == TokenType::Identifier && old(state).kind_ahead(1) == Some(TokenType::LeftBrace)
                && ctor_at(*old(state), old(state).current + 2) && ctor_at(*old(state), old(state).current + 7) ==> (r matches Err(e) && e.message@
                == "Class cannot have multiple constructors"@),
            old(state).cur_kind() == TokenType::Identifier && old(state).kind_ahead(1) == Some(TokenType::LeftBrace)
                && old(state).kind_ahead(2) == Some(TokenType::RightBrace) ==> final(state).current
                == old(state).current + 3 && (r matches Ok(Stmt::ClassDecl { type_parameters, superclass, body, .. })
                && type_parameters@.len() == 0 && superclass is None && empty_class_body(body)),
            old(state).cur_kind() == TokenType::Identifier && old(state).kind_ahead(1) == Some(TokenType::LeftBrace)
                && one_member_at(*old(state), old(state).current + 2) ==> final(state).current == member_end(
                *old(state),
                old(state).current + 2,
            ) + 1 && (r matches Ok(Stmt::ClassDecl { type_parameters, superclass, body, .. }) && type_parameters@.len()
                == 0 && superclass is None && one_member_body(*old(state), old(state).current + 2, body)),
        decreases old(state).remaining(), 45nat,
    {
        let name = Parser::consume(state, TokenType::Identifier, "Expected class name")?.value.clone();
        let position = state.previous().unwrap().position;
        let type_parameters = Self::parse_type_parameters(state)?;
        let mut superclass: Option<String> = None;
        if Parser::match_token(state, &[TokenType::Extends]) {
            superclass = Some(Parser::consume(state, TokenType::Identifier, "Expected superclass name")?.value.clone());
        }
        if Parser::match_token(state, &[TokenType::Implements]) {
            loop
                invariant
                    old(state).kind_ahead(1) != Some(TokenType::LeftBrace),
                    steps(*old(state), *state),
                    old(state).cur_kind() == TokenType::Identifier,
                    state.current > old(state).current,
                ensures
                    old(state).kind_ahead(1) != Some(TokenType::LeftBrace),
                    steps(*old(state), *state),
                    old(state).cur_kind() == TokenType::Identifier,
                    state.current > old(state).current,
                decreases state.remaining(),
            {
                Parser::consume(state, TokenType::Identifier, "Expected interface name")?;
                if !Parser::match_token(state, &[TokenType::Comma]) {
                    break;
                }
            }
        }
        Parser::consume(state, TokenType::LeftBrace, "Expected '{' after class name")?;
        let body = Self::class_members(state)?;
        Parser::consume(state, TokenType::RightBrace, "Expected '}' after class body")?;
        Ok(Stmt::ClassDecl { name, type_parameters, superclass, body, decorators, position })
    }

    /// The members of a class body, up to its `}`: decorators and modifiers, then a
    /// constructor, an accessor, a method or a property.
    #[verifier::rlimit(40)]
    pub fn class_members(state: &mut ParserState) -> (r: Result<ClassBody, RaccoonError>)
        requires
            old(state).wf(),
        ensures
            steps(*old(state), *final(state)),
            r is Ok ==> final(state).at_end() || final(state).cur_kind() == TokenType::RightBrace,
            old(state).cur_kind() == TokenType::RightBrace ==> final(state).current == old(state).current
                && (r matches Ok(b) && empty_class_body(b)),
            ctor_at(*old(state), old(state).current as int) && ctor_at(*old(state), old(state).current + 5)
                ==> (r matches Err(e) && e.message@ == "Class cannot have multiple constructors"@),
            one_member_at(*old(state), old(state).current as int) ==> final(state).current == member_end(*old(state), old(state).current as int) && (r matches Ok(b)
                && one_member_body(*old(state), old(state).current as int, b)),
        decreases old(state).remaining(), 46nat,
    {
        let mut properties: Vec<ClassProperty> = Vec::new();
        let mut methods: Vec<ClassMethod> = Vec::new();
        let mut accessors: Vec<PropertyAccessor> = Vec::new();
        let mut constructor: Option<ConstructorDecl> = None;
        while !state.check(&TokenType::RightBrace) && !state.is_at_end()
            invariant
                steps(*old(state), *state),
                old(state).cur_kind() == TokenType::RightBrace ==> state.current == old(state).current
                    && properties@.len() == 0 && constructor is None && methods@.len() == 0 && accessors@.len() == 0,
                (one_member_at(*old(state), old(state).current as int) || (ctor_at(*old(state), old(state).current as int) && ctor_at(
                    *old(state),
                    old(state).current + 5,
                ))) ==> ((state.current == old(state).current && properties@.len() == 0 && constructor is None
                    && methods@.len() == 0 && accessors@.len() == 0) || (state.current == member_end(*old(state), old(state).current as int)
                    && one_member_body(*old(state), old(state).current as int, ClassBody { properties, constructor, methods, accessors }))),
            decreases state.remaining(),
        {
            let ghost iter_start = state.current;
            assert(old(state).cur_kind() != TokenType::RightBrace);
            let mut member_decorators: Vec<DecoratorDecl> = Vec::new();
            while Parser::match_token(state, &[TokenType::At])
                invariant
                    steps(*old(state), *state),
                    old(state).cur_kind() != TokenType::RightBrace,
                    state.current >= iter_start,
                    old(state).tokens@[iter_start as int].token_type != TokenType::At ==> state.current == iter_start
                        && member_decorators@.len() == 0,
                    (one_member_at(*old(state), old(state).current as int) || (ctor_at(*old(state), old(state).current as int) && ctor_at(
                        *old(state),
                        old(state).current + 5,
                    ))) ==> (iter_start == old(state).current || iter_start == member_end(*old(state), old(state).current as int)),
                decreases state.remaining(),
            {
                member_decorators.push(Self::parse_decorator(state)?);
            }
            let mut is_static = false;
            let mut access_modifier = AccessModifier::Public;
            if Parser::match_token(state, &[TokenType::Static]) {
                is_static = true;
            }
            if Parser::match_token(state, &[TokenType::Public]) {
                access_modifier = AccessModifier::Public;
            } else if Parser::match_token(state, &[TokenType::Private]) {
                access_modifier = AccessModifier::Private;
            } else if Parser::match_token(state, &[TokenType::Protected]) {
                access_modifier = AccessModifier::Protected;
            }
            if !is_static && Parser::match_token(state, &[TokenType::Static]) {
                is_static = true;
            }
            let mut is_async = false;
            if Parser::match_token(state, &[TokenType::Async]) {
                is_async = true;
            }
            if Parser::match_token(state, &[TokenType::Constructor]) {
                if constructor.is_some() {
                    return Err(RaccoonError::new(
                        "Class cannot have multiple constructors",
                        state.previous().unwrap().position,
                        copy_opt_string(&state.file),
                    ));
                }
                constructor = Some(Self::parse_constructor(state)?);
            } else if !is_static && !is_async && state.check(&TokenType::Get)
                && Parser::check_next(state, &[TokenType::Identifier])
                && Self::check_next_next(state, &[TokenType::LeftParen]) {
                accessors.push(Self::parse_accessor(state, AccessorKind::Getter, member_decorators, access_modifier)?);
            } else if !is_static && !is_async && state.check(&TokenType::SetKw)
                && Parser::check_next(state, &[TokenType::Identifier])
                && Self::check_next_next(state, &[TokenType::LeftParen]) {
                accessors.push(Self::parse_accessor(state, AccessorKind::Setter, member_decorators, access_modifier)?);
            } else if (state.check(&TokenType::Identifier) || (is_static || is_async) && (state.check(&TokenType::Get)
                || state.check(&TokenType::SetKw))) && Parser::check_next(state, &[TokenType::LeftParen]) {
                methods.push(Self::parse_method(state, member_decorators, access_modifier, is_static, is_async)?);
            } else {
                properties.push(Self::parse_class_property(state, member_decorators, access_modifier)?);
            }
        }
        Ok(ClassBody { properties, constructor, methods, accessors })
    }

    /// `name: Type = init;`
    pub fn parse_class_property(state: &mut ParserState, decorators: Vec<DecoratorDecl>, access_modifier: AccessModifier) -> (r: Result<ClassProperty, RaccoonError>)
        requires
            old(state).wf(),
        ensures
            parsed(*old(state), *final(state), r),
            expects_first(*old(state), *final(state), TokenType::Identifier, "Expected property name"@, r),
            r matches Ok(p) ==> p.access_modifier == access_modifier,
            typed_prop_at(*old(state), old(state).current as int) ==> final(state).current == old(state).current + 4
                && (r matches Ok(p) && p.name@ == old(state).tokens@[old(state).current as int].value@ && simple_type_of(
                *old(state),
                old(state).tokens@[old(state).current + 2],
                p.property_type,
            ) && p.initializer is None && p.decorators == decorators),
        decreases old(state).remaining(), 45nat,
    {
        let name = Parser::consume(state, TokenType::Identifier, "Expected property name")?.value.clone();
        Parser::consume(state, TokenType::Colon, "Expected ':' after property name")?;
        let property_type = Types::parse_type(state)?;
        let mut initializer: Option<Expr> = None;
        if Parser::match_token(state, &[TokenType::Assign]) {
            initializer = Some(Expressions::expression(state)?);
        }
        Parser::optional_semicolon(state);
        Ok(ClassProperty { name, property_type, initializer, decorators, access_modifier })
    }

    /// `(params) { body }`, after `constructor`.
    pub fn parse_constructor(state: &mut ParserState) -> (r: Result<ConstructorDecl, RaccoonError>)
        requires
            old(state).wf(),
            old(state).current > 0,
        ensures
            parsed(*old(state), *final(state), r),
            expects_first(*old(state), *final(state), TokenType::LeftParen, "Expected '(' after constructor"@, r),
            empty_ctor_rest_at(*old(state), old(state).current as int) ==> final(state).current == old(state).current + 4
                && (r matches Ok(k) && k.parameters@.len() == 0 && k.body@.len() == 0),
        decreases old(state).remaining(), 45nat,
    {
        let position = state.previous().unwrap().position;
        Parser::consume(state, TokenType::LeftParen, "Expected '(' after constructor")?;
        let parameters = Self::function_parameters(state)?;
        Parser::consume(state, TokenType::RightParen, "Expected ')' after parameters")?;
        Parser::consume(state, TokenType::LeftBrace, "Expected '{' before constructor body")?;
        let body = Statements::block_statements(state)?;
        Ok(ConstructorDecl { parameters, body, position })
    }

    /// `name(params): RetType { body }`; `get` and `set` may serve as names.
    pub fn parse_method(
        state: &mut ParserState,
        decorators: Vec<DecoratorDecl>,
        access_modifier: AccessModifier,
        is_static: bool,
        is_async: bool,
    ) -> (r: Result<ClassMethod, RaccoonError>)
        requires
            old(state).wf(),
        ensures
            parsed(*old(state), *final(state), r),
            r matches Ok(m) ==> m.is_static == is_static && m.is_async == is_async
                && m.access_modifier == access_modifier,
            bare_callable_at(*old(state), old(state).current as int) ==> final(state).current == old(state).current + 5
                && (r matches Ok(m) && m.name@ == old(state).tokens@[old(state).current as int].value@
                && m.parameters@.len() == 0 && m.return_type is None && m.body@.len() == 0 && m.decorators == decorators),
        decreases old(state).remaining(), 45nat,
    {
        let name = if (state.check(&TokenType::Get) || state.check(&TokenType::SetKw))
            && Parser::check_next(state, &[TokenType::LeftParen]) {
            state.advance().unwrap().value.clone()
        } else {
            Parser::consume(state, TokenType::Identifier, "Expected method name")?.value.clone()
        };
        Parser::consume(state, TokenType::LeftParen, "Expected '(' after method name")?;
        let parameters = Self::function_parameters(state)?;
        Parser::consume(state, TokenType::RightParen, "Expected ')' after parameters")?;
        let return_type = if Parser::match_token(state, &[TokenType::Colon]) {
            Some(Types::parse_type(state)?)
        } else {
            None
        };
        Parser::consume(state, TokenType::LeftBrace, "Expected '{' before method body")?;
        let body = Statements::block_statements(state)?;
        Ok(ClassMethod { name, parameters, return_type, body, is_async, decorators, access_modifier, is_static })
    }

    /// `get name(): T { body }` or `set name(v: T) { body }`; a getter takes no parameter and a
    /// setter exactly one.
    pub fn parse_accessor(
        state: &mut ParserState,
        kind: AccessorKind,
        decorators: Vec<DecoratorDecl>,
        access_modifier: AccessModifier,
    ) -> (r: Result<PropertyAccessor, RaccoonError>)
        requires
            old(state).wf(),
            old(state).current > 0 || !old(state).at_end(),
        ensures
            parsed(*old(state), *final(state), r),
            r matches Ok(a) ==> a.kind == kind && a.access_modifier == access_modifier
                && (kind == AccessorKind::Getter ==> a.parameters@.len() == 0)
                && (kind == AccessorKind::Setter ==> a.parameters@.len() == 1),
            kind == AccessorKind::Getter && !old(state).at_end() && bare_callable_at(*old(state), old(state).current + 1)
                ==> final(state).current == old(state).current + 6 && (r matches Ok(a) && a.name@
                == old(state).tokens@[old(state).current + 1].value@ && a.parameters@.len() == 0
                && a.return_type is None && a.body@.len() == 0 && a.position
                == old(state).tokens@[old(state).current as int].position),
            kind == AccessorKind::Setter && !old(state).at_end() && bare_callable_at(*old(state), old(state).current + 1)
                ==> final(state).current == old(state).current + 4 && (r matches Err(e) && e.message@
                == "Setter must have exactly one parameter"@),
        decreases old(state).remaining(), 45nat,
    {
        state.advance();
        let position = state.previous().unwrap().position;
        let name = Parser::consume(state, TokenType::Identifier, "Expected accessor name")?.value.clone();
        Parser::consume(state, TokenType::LeftParen, "Expected '(' after accessor name")?;
        let parameters = Self::function_parameters(state)?;
        Parser::consume(state, TokenType::RightParen, "Expected ')' after parameters")?;
        if kind == AccessorKind::Getter && parameters.len() > 0 {
            return Err(RaccoonError::new("Getter cannot have parameters", position, copy_opt_string(&state.file)));
        }
        if kind == AccessorKind::Setter && parameters.len() != 1 {
            return Err(RaccoonError::new("Setter must have exactly one parameter", position, copy_opt_string(&state.file)));
        }
        let return_type = if Parser::match_token(state, &[TokenType::Colon]) {
            Some(Types::parse_type(state)?)
        } else {
            None
        };
        Parser::consume(state, TokenType::LeftBrace, "Expected '{' before accessor body")?;
        let body = Statements::block_statements(state)?;
        Ok(PropertyAccessor { name, kind, parameters, return_type, body, access_modifier, position })
    }

    /// `name` or `name(args)`, after `@`.
    pub fn parse_decorator(state: &mut ParserState) -> (r: Result<DecoratorDecl, RaccoonError>)
        requires
            old(state).wf(),
            old(state).current > 0,
        ensures
            parsed(*old(state), *final(state), r),
            expects_first(*old(state), *final(state), TokenType::Identifier, "Expected decorator name"@, r),
            r matches Ok(d) ==> d.position == old(state).tokens@[old(state).current - 1].position,
            r matches Ok(d) ==> d.name@ == old(state).tokens@[old(state).current as int].value@,
            old(state).cur_kind() == TokenType::Identifier && old(state).kind_ahead(1) != Some(TokenType::LeftParen)
                ==> final(state).current == old(state).current + 1 && (r matches Ok(d) && d.args@.len() == 0),
            old(state).cur_kind() == TokenType::Identifier && old(state).kind_ahead(1) == Some(TokenType::LeftParen)
                && old(state).kind_ahead(2) == Some(TokenType::RightParen) ==> final(state).current
                == old(state).current + 3 && (r matches Ok(d) && d.args@.len() == 0),
            forall|n: int| old(state).cur_kind() == TokenType::Identifier && old(state).kind_ahead(1) == Some(
                TokenType::LeftParen,
            ) && #[trigger] atom_args_at(*old(state), old(state).current + 2, n) ==> final(state).current
                == old(state).current + 2 + 2 * n && (r matches Ok(d) && d.args@.len() == n && forall|k: int|
                0 <= k < n ==> atom_of(old(state).tokens@[old(state).current + 2 + 2 * k], #[trigger] d.args@[k])),
        decreases old(state).remaining(), 45nat,
    {
        let position = state.previous().unwrap().position;
        let name = Parser::consume(state, TokenType::Identifier, "Expected decorator name")?.value.clone();
        let mut args: Vec<Expr> = Vec::new();
        if Parser::match_token(state, &[TokenType::LeftParen]) {
            if !state.check(&TokenType::RightParen) {
                loop
                    invariant_except_break
                        forall|n: int| #[trigger] atom_args_at(*old(state), old(state).current + 2, n) ==> args@.len() < n
                            && state.current == old(state).current + 2 + 2 * args@.len(),
                    invariant
                        old(state).kind_ahead(1) == Some(TokenType::LeftParen),
                        old(state).kind_ahead(2) != Some(TokenType::RightParen),
                        steps(*old(state), *state),
                        old(state).cur_kind() == TokenType::Identifier,
                        state.current > old(state).current,
                        forall|n: int| #[trigger] atom_args_at(*old(state), old(state).current + 2, n) ==> forall|k: int|
                            0 <= k < args@.len() ==> atom_of(old(state).tokens@[old(state).current + 2 + 2 * k], #[trigger] args@[k]),
                    ensures
                        old(state).kind_ahead(1) == Some(TokenType::LeftParen),
                        old(state).kind_ahead(2) != Some(TokenType::RightParen),
                        steps(*old(state), *state),
                        old(state).cur_kind() == TokenType::Identifier,
                        state.current > old(state).current,
                        forall|n: int| #[trigger] atom_args_at(*old(state), old(state).current + 2, n) ==> args@.len() == n
                            && state.current == old(state).current + 1 + 2 * n && forall|k: int| 0 <= k < args@.len()
                            ==> atom_of(old(state).tokens@[old(state).current + 2 + 2 * k], #[trigger] args@[k]),
                    decreases state.remaining(),
                {
                    let ghost before = args@;
                    args.push(Expressions::expression(state)?);
                    proof {
                        assert forall|n: int| #[trigger] atom_args_at(*old(state), old(state).current + 2, n) implies forall|k: int|
                            0 <= k < args@.len() ==> atom_of(old(state).tokens@[old(state).current + 2 + 2 * k], #[trigger] args@[k]) by {
                            assert forall|k: int| 0 <= k < args@.len() implies atom_of(
                                old(state).tokens@[old(state).current + 2 + 2 * k],
                                #[trigger] args@[k],
                            ) by {
                                if k < before.len() {
                                    assert(args@[k] == before[k]);
                                }
                            }
                        }
                    }
                    if !Parser::match_token(state, &[TokenType::Comma]) {
                        break;
                    }
                }
            }
            Parser::consume(state, TokenType::RightParen, "Expected ')' after decorator arguments")?;
        }
        Ok(DecoratorDecl { name, args, position })
    }

    /// `(name: Type, name2?: Type = default, [a, b]: Type, ...rest: Type)` without the
    /// parentheses.
    pub fn function_parameters(state: &mut ParserState) -> (r: Result<Vec<FnParam>, RaccoonError>)
        requires
            old(state).wf(),
        ensures
            steps(*old(state), *final(state)),
            old(state).cur_kind() == TokenType::RightParen ==> final(state).current == old(state).current
                && (r matches Ok(v) && v@.len() == 0),
            !(old(state).cur_kind() == TokenType::RightParen || old(state).cur_kind() == TokenType::Spread
                || old(state).cur_kind() == TokenType::LeftBracket || old(state).cur_kind() == TokenType::LeftBrace
                || old(state).cur_kind() == TokenType::Identifier) ==> final(state).current == old(state).current
                && (r matches Err(e) && e.message@ == "Expected parameter name"@),
            one_typed_param_at(*old(state)) ==> final(state).current == old(state).current + 3
                && (r matches Ok(v) && v@.len() == 1 && one_typed_param(*old(state), v@[0])),
        decreases old(state).remaining(), 45nat,
    {
        let mut params: Vec<FnParam> = Vec::new();
        let mut has_optional = false;
        if !state.check(&TokenType::RightParen) {
            loop
                invariant_except_break
                    one_typed_param_at(*old(state)) ==> state.current == old(state).current && params@.len() == 0
                        && !has_optional,
                invariant
                    steps(*old(state), *state),
                    old(state).cur_kind() != TokenType::RightParen,
                    !(old(state).cur_kind() == TokenType::Spread || old(state).cur_kind() == TokenType::LeftBracket
                        || old(state).cur_kind() == TokenType::LeftBrace || old(state).cur_kind() == TokenType::Identifier)
                        ==> state.current == old(state).current,
                ensures
                    one_typed_param_at(*old(state)) ==> state.current == old(state).current + 3 && params@.len() == 1
                        && one_typed_param(*old(state), params@[0]),
                    steps(*old(state), *state),
                    old(state).cur_kind() == TokenType::Spread || old(state).cur_kind() == TokenType::LeftBracket
                        || old(state).cur_kind() == TokenType::LeftBrace || old(state).cur_kind() == TokenType::Identifier,
                decreases state.remaining(),
            {
                let is_rest = Parser::match_token(state, &[TokenType::Spread]);
                if state.check(&TokenType::LeftBracket) || state.check(&TokenType::LeftBrace) {
                    let pattern = VarPattern::Destructuring(Self::parse_destructuring_pattern(state)?);
                    Parser::consume(state, TokenType::Colon, "Expected ':' after destructuring pattern")?;
                    let param_type = Types::parse_type(state)?;
                    let is_optional = Parser::match_token(state, &[TokenType::Question]);
                    if let Some(e) = check_param_order(state, is_rest, is_optional, &mut has_optional) {
                        return Err(e);
                    }
                    params.push(FnParam { pattern, param_type, default_value: None, is_rest, is_optional });
                } else {
                    let name = Parser::consume(state, TokenType::Identifier, "Expected parameter name")?.value.clone();
                    let is_optional = Parser::match_token(state, &[TokenType::Question]);
                    Parser::consume(state, TokenType::Colon, "Expected ':' after parameter name")?;
                    let param_type = Types::parse_type(state)?;
                    if let Some(e) = check_param_order(state, is_rest, is_optional, &mut has_optional) {
                        return Err(e);
                    }
                    let mut default_value: Option<Expr> = None;
                    if Parser::match_token(state, &[TokenType::Assign]) {
                        default_value = Some(Expressions::expression(state)?);
                    }
                    params.push(FnParam {
                        pattern: VarPattern::Identifier(name),
                        param_type,
                        default_value,
                        is_rest,
                        is_optional,
                    });
                }
                if is_rest {
                    break;
                }
                if !Parser::match_token(state, &[TokenType::Comma]) {
                    break;
                }
            }
        }
        Ok(params)
    }

    /// `[...]` or `{...}`.
    pub fn parse_destructuring_pattern(state: &mut ParserState) -> (r: Result<DestructuringPattern, RaccoonError>)
        requires
            old(state).wf(),
        ensures
            parsed(*old(state), *final(state), r),
            old(state).cur_kind() == TokenType::LeftBracket && old(state).kind_ahead(1) == Some(TokenType::RightBracket)
                ==> final(state).current == old(state).current + 2 && (r matches Ok(DestructuringPattern::Array(p))
                && p.elements@.len() == 0 && p.rest is None && p.position == old(state).tokens@[old(state).current as int].position),
            old(state).cur_kind() == TokenType::LeftBrace && old(state).kind_ahead(1) == Some(TokenType::RightBrace)
                ==> final(state).current == old(state).current + 2 && (r matches Ok(DestructuringPattern::Object(p))
                && p.properties@.len() == 0 && p.rest is None && p.position == old(state).tokens@[old(state).current as int].position),
            !(old(state).cur_kind() == TokenType::LeftBracket || old(state).cur_kind() == TokenType::LeftBrace)
                ==> final(state).current == old(state).current && (r matches Err(e) && e.message@
                == "Expected destructuring pattern"@),
    {
        if Parser::match_token(state, &[TokenType::LeftBracket]) {
            return Ok(DestructuringPattern::Array(Self::parse_array_pattern(state)?));
        }
        if Parser::match_token(state, &[TokenType::LeftBrace]) {
            return Ok(DestructuringPattern::Object(Self::parse_object_pattern(state)?));
        }
        Err(RaccoonError::new("Expected destructuring pattern", state.peek().unwrap().position, copy_opt_string(&state.file)))
    }

    /// `[a, , [b], {c}, ...rest]`, after `[`.
    pub fn parse_array_pattern(state: &mut ParserState) -> (r: Result<ArrayPattern, RaccoonError>)
        requires
            old(state).wf(),
            old(state).current > 0,
        ensures
            parsed(*old(state), *final(state), r),
            old(state).cur_kind() == TokenType::RightBracket ==> final(state).current == old(state).current + 1
                && (r matches Ok(p) && p.elements@.len() == 0 && p.rest is None && p.position
                == old(state).tokens@[old(state).current - 1].position),
            one_name_before(*old(state), TokenType::RightBracket) ==> final(state).current == old(state).current + 2
                && (r matches Ok(p) && p.elements@.len() == 1 && p.rest is None && (p.elements@[0] matches Some(
                ArrayPatternElement::Identifier(n),
            ) && n.name@ == old(state).tokens@[old(state).current as int].value@ && n.position
                == old(state).tokens@[old(state).current as int].position)),
        decreases old(state).remaining(),
    {
        let position = state.previous().unwrap().position;
        let mut elements: Vec<Option<ArrayPatternElement>> = Vec::new();
        let mut rest: Option<PatternName> = None;
        if !state.check(&TokenType::RightBracket) {
            loop
                invariant_except_break
                    one_name_before(*old(state), TokenType::RightBracket) ==> state.current == old(state).current
                        && elements@.len() == 0 && rest is None,
                invariant
                    steps(*old(state), *state),
                    old(state).cur_kind() != TokenType::RightBracket,
                    state.current > 0,
                ensures
                    one_name_before(*old(state), TokenType::RightBracket) ==> state.current == old(state).current + 1
                        && elements@.len() == 1 && rest is None && (elements@[0] matches Some(ArrayPatternElement::Identifier(n))
                        && n.name@ == old(state).tokens@[old(state).current as int].value@ && n.position
                        == old(state).tokens@[old(state).current as int].position),
                    steps(*old(state), *state),
                    old(state).cur_kind() != TokenType::RightBracket,
                decreases state.remaining(),
            {
                if Parser::match_token(state, &[TokenType::Spread]) {
                    let name = Parser::consume(state, TokenType::Identifier, "Expected identifier after ...")?.value.clone();
                    let p = state.previous().unwrap().position;
                    rest = Some(PatternName { name, position: p });
                    break;
                }
                if state.check(&TokenType::Comma) {
                    elements.push(None);
                } else if Parser::match_token(state, &[TokenType::LeftBracket]) {
                    elements.push(Some(ArrayPatternElement::List(Box::new(Self::parse_array_pattern(state)?))));
                } else if Parser::match_token(state, &[TokenType::LeftBrace]) {
                    elements.push(Some(ArrayPatternElement::Object(Box::new(Self::parse_object_pattern(state)?))));
                } else {
                    let name = Parser::consume(state, TokenType::Identifier, "Expected identifier")?.value.clone();
                    let p = state.previous().unwrap().position;
                    elements.push(Some(ArrayPatternElement::Identifier(PatternName { name, position: p })));
                }
                if !Parser::match_token(state, &[TokenType::Comma]) {
                    break;
                }
                if state.check(&TokenType::RightBracket) {
                    break;
                }
            }
        }
        Parser::consume(state, TokenType::RightBracket, "Expected ']'")?;
        Ok(ArrayPattern { elements, rest, position })
    }

    /// `{ a, b: c, d: [e], ...rest }`, after `{`.
    pub fn parse_object_pattern(state: &mut ParserState) -> (r: Result<ObjectPattern, RaccoonError>)
        requires
            old(state).wf(),
            old(state).current > 0,
        ensures
            parsed(*old(state), *final(state), r),
            old(state).cur_kind() == TokenType::RightBrace ==> final(state).current == old(state).current + 1
                && (r matches Ok(p) && p.properties@.len() == 0 && p.rest is None && p.position
                == old(state).tokens@[old(state).current - 1].position),
            one_name_before(*old(state), TokenType::RightBrace) ==> final(state).current == old(state).current + 2
                && (r matches Ok(p) && p.properties@.len() == 1 && p.rest is None && p.properties@[0].key@
                == old(state).tokens@[old(state).current as int].value@ && (p.properties@[0].value matches
                ObjectPatternValue::Identifier(n) && n.name@ == old(state).tokens@[old(state).current as int].value@
                && n.position == old(state).tokens@[old(state).current as int].position)),
        decreases old(state).remaining(),
    {
        let position = state.previous().unwrap().position;
        let mut properties: Vec<ObjectPatternProperty> = Vec::new();
        let mut rest: Option<PatternName> = None;
        if !state.check(&TokenType::RightBrace) {
            loop
                invariant_except_break
                    one_name_before(*old(state), TokenType::RightBrace) ==> state.current == old(state).current
                        && properties@.len() == 0 && rest is None,
                invariant
                    steps(*old(state), *state),
                    old(state).cur_kind() != TokenType::RightBrace,
                    state.current > 0,
                ensures
                    one_name_before(*old(state), TokenType::RightBrace) ==> state.current == old(state).current + 1
                        && properties@.len() == 1 && rest is None && properties@[0].key@
                        == old(state).tokens@[old(state).current as int].value@ && (properties@[0].value matches
                        ObjectPatternValue::Identifier(n) && n.name@ == old(state).tokens@[old(state).current as int].value@
                        && n.position == old(state).tokens@[old(state).current as int].position),
                    steps(*old(state), *state),
                    old(state).cur_kind() != TokenType::RightBrace,
                decreases state.remaining(),
            {
                if Parser::match_token(state, &[TokenType::Spread]) {
                    let name = Parser::consume(state, TokenType::Identifier, "Expected identifier after ...")?.value.clone();
                    let p = state.previous().unwrap().position;
                    rest = Some(PatternName { name, position: p });
                    break;
                }
                let key = Parser::consume(state, TokenType::Identifier, "Expected property name")?.value.clone();
                let value = if Parser::match_token(state, &[TokenType::Colon]) {
                    if Parser::match_token(state, &[TokenType::LeftBracket]) {
                        ObjectPatternValue::Array(Self::parse_array_pattern(state)?)
                    } else if Parser::match_token(state, &[TokenType::LeftBrace]) {
                        ObjectPatternValue::Object(Self::parse_object_pattern(state)?)
                    } else {
                        let value_name = Parser::consume(state, TokenType::Identifier, "Expected identifier")?.value.clone();
                        let p = state.previous().unwrap().position;
                        ObjectPatternValue::Identifier(PatternName { name: value_name, position: p })
                    }
                } else {
                    let p = state.previous().unwrap().position;
                    ObjectPatternValue::Identifier(PatternName { name: key.clone(), position: p })
                };
                properties.push(ObjectPatternProperty { key, value });
                if !Parser::match_token(state, &[TokenType::Comma]) || state.check(&TokenType::RightBrace) {
                    break;
                }
            }
        }
        Parser::consume(state, TokenType::RightBrace, "Expected '}'")?;
        Ok(ObjectPattern { properties, rest, position })
    }

    /// `interface Name<T> extends A, B { prop: Type; method(params): Type; }`, after
    /// `interface`.
    pub fn interface_declaration(state: &mut ParserState) -> (r: Result<Stmt, RaccoonError>)
        requires
            old(state).wf(),
        ensures
            parsed(*old(state), *final(state), r),
            expects_first(*old(state), *final(state), TokenType::Identifier, "Expected interface name"@, r),
            r matches Ok(s) ==> (s matches Stmt::InterfaceDecl { name, position, .. } && name@ == old(state).tokens@[old(state).current as int].value@
                && position == old(state).tokens@[old(state).current as int].position),
            r matches Ok(s) ==> s is InterfaceDecl,
    {
        let name = Parser::consume(state, TokenType::Identifier, "Expected interface name")?.value.clone();
        let position = state.previous().unwrap().position;
        let type_parameters = Self::parse_type_parameters(state)?;
        let mut extends: Vec<String> = Vec::new();
        if Parser::match_token(state, &[TokenType::Extends]) {
            loop
                invariant
                    steps(*old(state), *state),
                    old(state).cur_kind() == TokenType::Identifier,
                    state.current > old(state).current,
                ensures
                    steps(*old(state), *state),
                    old(state).cur_kind() == TokenType::Identifier,
                    state.current > old(state).current,
                decreases state.remaining(),
            {
                extends.push(Parser::consume(state, TokenType::Identifier, "Expected interface name")?.value.clone());
                if !Parser::match_token(state, &[TokenType::Comma]) {
                    break;
                }
            }
        }
        Parser::consume(state, TokenType::LeftBrace, "Expected '{' after interface name")?;
        let mut properties: Vec<InterfaceProperty> = Vec::new();
        while !state.check(&TokenType::RightBrace) && !state.is_at_end()
            invariant
                steps(*old(state), *state),
                old(state).cur_kind() == TokenType::Identifier,
                state.current > old(state).current,
            decreases state.remaining(),
        {
            let ghost iter_start = state.current;
            let prop_name = Parser::consume(state, TokenType::Identifier, "Expected property name")?.value.clone();
            if Parser::match_token(state, &[TokenType::LeftParen]) {
                let mut param_types: Vec<Type> = Vec::new();
                if !state.check(&TokenType::RightParen) {
                    loop
                        invariant
                            steps(*old(state), *state),
                            old(state).cur_kind() == TokenType::Identifier,
                            state.current > iter_start,
                        ensures
                            steps(*old(state), *state),
                            old(state).cur_kind() == TokenType::Identifier,
                            state.current > iter_start,
                        decreases state.remaining(),
                    {
                        if state.check(&TokenType::Identifier) && Parser::check_next(state, &[TokenType::Colon]) {
                            state.advance();
                            state.advance();
                        }
                        param_types.push(Types::parse_type(state)?);
                        if !Parser::match_token(state, &[TokenType::Comma]) {
                            break;
                        }
                    }
                }
                Parser::consume(state, TokenType::RightParen, "Expected ')' after parameters")?;
                Parser::consume(state, TokenType::Colon, "Expected ':' after method signature")?;
                let return_type = Types::parse_type(state)?;
                properties.push(InterfaceProperty {
                    name: prop_name,
                    property_type: Type::Function { params: param_types, return_type: Box::new(return_type), is_variadic: false },
                    optional: false,
                });
                Parser::optional_semicolon(state);
            } else {
                Parser::consume(state, TokenType::Colon, "Expected ':' after property name")?;
                let prop_type = Types::parse_type(state)?;
                properties.push(InterfaceProperty { name: prop_name, property_type: prop_type, optional: false });
                Parser::optional_semicolon(state);
            }
        }
        Parser::consume(state, TokenType::RightBrace, "Expected '}' after interface body")?;
        Ok(Stmt::InterfaceDecl { name, type_parameters, properties, extends, position })
    }

    /// `enum Name { A, B = value, ... }`, after `enum`.
    pub fn enum_declaration(state: &mut ParserState) -> (r: Result<Stmt, RaccoonError>)
        requires
            old(state).wf(),
        ensures
            parsed(*old(state), *final(state), r),
            expects_first(*old(state), *final(state), TokenType::Identifier, "Expected enum name"@, r),
            r matches Ok(s) ==> (s matches Stmt::EnumDecl { name, position, .. } && name@ == old(state).tokens@[old(state).current as int].value@
                && position == old(state).tokens@[old(state).current as int].position),
            r matches Ok(s) ==> s is EnumDecl,
        decreases old(state).remaining(), 45nat,
    {
        let name = Parser::consume(state, TokenType::Identifier, "Expected enum name")?.value.clone();
        let position = state.previous().unwrap().position;
        Parser::consume(state, TokenType::LeftBrace, "Expected '{' after enum name")?;
        let mut members: Vec<EnumMember> = Vec::new();
        while !state.check(&TokenType::RightBrace) && !state.is_at_end()
            invariant
                steps(*old(state), *state),
                old(state).cur_kind() == TokenType::Identifier,
                state.current > old(state).current,
            decreases state.remaining(),
        {
            let member_name = Parser::consume(state, TokenType::Identifier, "Expected enum member name")?.value.clone();
            let mut value: Option<Expr> = None;
            if Parser::match_token(state, &[TokenType::Assign]) {
                value = Some(Expressions::expression(state)?);
            }
            members.push(EnumMember { name: member_name, value });
            if !state.check(&TokenType::RightBrace) {
                Parser::consume(state, TokenType::Comma, "Expected ',' between enum members")?;
            }
        }
        Parser::consume(state, TokenType::RightBrace, "Expected '}' after enum body")?;
        Ok(Stmt::EnumDecl { name, members, position })
    }

    /// `type Name = Type;`, after `type`.
    pub fn type_alias_declaration(state: &mut ParserState) -> (r: Result<Stmt, RaccoonError>)
        requires
            old(state).wf(),
        ensures
            parsed(*old(state), *final(state), r),
            expects_first(*old(state), *final(state), TokenType::Identifier, "Expected type alias name"@, r),
            r matches Ok(s) ==> (s matches Stmt::TypeAliasDecl { name, position, .. } && name@ == old(state).tokens@[old(state).current as int].value@
                && position == old(state).tokens@[old(state).current as int].position),
            r matches Ok(s) ==> s is TypeAliasDecl,
    {
        let name = Parser::consume(state, TokenType::Identifier, "Expected type alias name")?.value.clone();
        let position = state.previous().unwrap().position;
        Parser::consume(state, TokenType::Assign, "Expected '=' after type alias name")?;
        let alias_type = Types::parse_type(state)?;
        Parser::optional_semicolon(state);
        Ok(Stmt::TypeAliasDecl { name, alias_type, position })
    }

    /// `import d, { a, b as c } from 'm';`, `import * as ns from 'm';`, after `import`.
    pub fn import_declaration(state: &mut ParserState) -> (r: Result<Stmt, RaccoonError>)
        requires
            old(state).wf(),
            old(state).current > 0,
        ensures
            parsed(*old(state), *final(state), r),
            r matches Ok(s) ==> s is ImportDecl,
            namespace_import_at(*old(state)) ==> final(state).current == old(state).current + 6 && (r matches Ok(
                Stmt::ImportDecl { default_import, named_imports, namespace_import, module_specifier, position },
            ) && default_import is None && named_imports@.len() == 0 && (namespace_import matches Some(n) && n@
                == old(state).tokens@[old(state).current + 2].value@) && module_specifier@
                == old(state).tokens@[old(state).current + 4].value@ && position
                == old(state).tokens@[old(state).current - 1].position),
            named_import_at(*old(state)) ==> final(state).current == old(state).current + 6 && (r matches Ok(
                Stmt::ImportDecl { default_import, named_imports, namespace_import, module_specifier, position },
            ) && default_import is None && named_imports@.len() == 1 && named_imports@[0].imported@
                == old(state).tokens@[old(state).current + 1].value@ && named_imports@[0].local is None
                && namespace_import is None && module_specifier@ == old(state).tokens@[old(state).current + 4].value@
                && position == old(state).tokens@[old(state).current - 1].position),
            default_import_at(*old(state)) ==> final(state).current == old(state).current + 4 && (r matches Ok(
                Stmt::ImportDecl { default_import, named_imports, namespace_import, module_specifier, position },
            ) && (default_import matches Some(n) && n@ == old(state).tokens@[old(state).current as int].value@)
                && named_imports@.len() == 0 && namespace_import is None && module_specifier@
                == old(state).tokens@[old(state).current + 2].value@ && position
                == old(state).tokens@[old(state).current - 1].position),
    {
        let position = state.previous().unwrap().position;
        let mut default_import: Option<String> = None;
        let mut namespace_import: Option<String> = None;
        let mut named_imports: Vec<ImportSpecifier> = Vec::new();
        if Parser::match_token(state, &[TokenType::Multiply]) {
            Parser::consume(state, TokenType::As, "Expected 'as' after '*'")?;
            namespace_import = Some(Parser::consume(state, TokenType::Identifier, "Expected namespace name")?.value.clone());
        } else if state.check(&TokenType::Identifier) {
            default_import = Some(state.advance().unwrap().value.clone());
            if Parser::match_token(state, &[TokenType::Comma]) {
                Parser::consume(state, TokenType::LeftBrace, "Expected '{' after default import")?;
                Self::parse_named_imports(state, &mut named_imports)?;
                Parser::consume(state, TokenType::RightBrace, "Expected '}' after named imports")?;
            }
        } else if Parser::match_token(state, &[TokenType::LeftBrace]) {
            Self::parse_named_imports(state, &mut named_imports)?;
            Parser::consume(state, TokenType::RightBrace, "Expected '}' after named imports")?;
        }
        Parser::consume(state, TokenType::From, "Expected 'from' after import specifiers")?;
        let module_specifier = Parser::consume(state, TokenType::StrLiteral, "Expected module path")?.value.clone();
        Parser::optional_semicolon(state);
        Ok(Stmt::ImportDecl { default_import, named_imports, namespace_import, module_specifier, position })
    }

    /// `a, b as c, d`, appended to `named_imports`.
    pub fn parse_named_imports(state: &mut ParserState, named_imports: &mut Vec<ImportSpecifier>) -> (r: Result<(), RaccoonError>)
        requires
            old(state).wf(),
        ensures
            parsed(*old(state), *final(state), r),
            final(named_imports)@.len() >= old(named_imports)@.len(),
            r is Ok ==> final(named_imports)@.len() > old(named_imports)@.len(),
            final(named_imports)@.subrange(0, old(named_imports)@.len() as int) == old(named_imports)@,
            old(state).cur_kind() != TokenType::Identifier ==> final(state).current == old(state).current
                && final(named_imports)@ == old(named_imports)@ && (r matches Err(e) && e.message@
                == "Expected import name"@),
            one_import_at(*old(state)) ==> final(state).current == old(state).current + 1 && r is Ok
                && final(named_imports)@.len() == old(named_imports)@.len() + 1
                && final(named_imports)@.last().imported@ == old(state).tokens@[old(state).current as int].value@
                && final(named_imports)@.last().local is None,
    {
        loop
            invariant_except_break
                one_import_at(*old(state)) ==> state.current == old(state).current
                    && named_imports@ == old(named_imports)@,
            invariant
                old(state).cur_kind() != TokenType::Identifier ==> state.current == old(state).current
                    && named_imports@ == old(named_imports)@,
                steps(*old(state), *state),
                named_imports@.len() >= old(named_imports)@.len(),
                named_imports@.len() > old(named_imports)@.len() ==> state.current > old(state).current,
                named_imports@.subrange(0, old(named_imports)@.len() as int) == old(named_imports)@,
            ensures
                one_import_at(*old(state)) ==> state.current == old(state).current + 1
                    && named_imports@.len() == old(named_imports)@.len() + 1
                    && named_imports@.last().imported@ == old(state).tokens@[old(state).current as int].value@
                    && named_imports@.last().local is None,
                old(state).cur_kind() == TokenType::Identifier,
                steps(*old(state), *state),
                state.current > old(state).current,
                named_imports@.len() > old(named_imports)@.len(),
                named_imports@.subrange(0, old(named_imports)@.len() as int) == old(named_imports)@,
            decreases state.remaining(),
        {
            let imported = Parser::consume(state, TokenType::Identifier, "Expected import name")?.value.clone();
            let mut local: Option<String> = None;
            if Parser::match_token(state, &[TokenType::As]) {
                local = Some(Parser::consume(state, TokenType::Identifier, "Expected local name after as")?.value.clone());
            }
            let ghost before = named_imports@;
            named_imports.push(ImportSpecifier { imported, local });
            assert(named_imports@.subrange(0, old(named_imports)@.len() as int) =~= before.subrange(0, old(named_imports)@.len() as int));
            if !Parser::match_token(state, &[TokenType::Comma]) {
                break;
            }
        }
        Ok(())
    }

    /// `export default ...`, `export { a, b as c } from 'm';` or `export <declaration>`,
    /// after `export`.
    pub fn export_declaration(state: &mut ParserState) -> (r: Result<Stmt, RaccoonError>)
        requires
            old(state).wf(),
            old(state).current > 0,
        ensures
            parsed(*old(state), *final(state), r),
            r matches Ok(s) ==> s is ExportDecl,
            one_export_at(*old(state)) ==> final(state).current == old(state).current + 4 && (r matches Ok(
                Stmt::ExportDecl { declaration, specifiers, is_default, module_specifier, position },
            ) && declaration is None && specifiers@.len() == 1 && specifiers@[0].local@
                == old(state).tokens@[old(state).current + 1].value@ && specifiers@[0].exported is None
                && !is_default && module_specifier is None && position
                == old(state).tokens@[old(state).current - 1].position),
        decreases old(state).remaining(), 45nat,
    {
        let position = state.previous().unwrap().position;
        if Parser::match_token(state, &[TokenType::Default]) {
            if state.check(&TokenType::LeftBrace) && !Self::lookahead_is_class_or_interface(state) {
                let expression = Expressions::expression(state)?;
                Parser::optional_semicolon(state);
                return Ok(Stmt::ExportDecl {
                    declaration: Some(Box::new(Stmt::ExprStmt { expression, position })),
                    specifiers: Vec::new(),
                    is_default: true,
                    module_specifier: None,
                    position,
                });
            }
            let declaration = Box::new(Self::declaration(state)?);
            return Ok(Stmt::ExportDecl {
                declaration: Some(declaration),
                specifiers: Vec::new(),
                is_default: true,
                module_specifier: None,
                position,
            });
        }
        if Parser::match_token(state, &[TokenType::LeftBrace]) {
            let mut specifiers: Vec<ExportSpecifier> = Vec::new();
            loop
                invariant_except_break
                    one_export_at(*old(state)) ==> state.current == old(state).current + 1
                        && specifiers@.len() == 0,
                invariant
                    steps(*old(state), *state),
                    state.current > old(state).current,
                ensures
                    steps(*old(state), *state),
                    state.current > old(state).current,
                    one_export_at(*old(state)) ==> state.current == old(state).current + 2
                        && specifiers@.len() == 1 && specifiers@[0].local@
                        == old(state).tokens@[old(state).current + 1].value@ && specifiers@[0].exported is None,
                decreases state.remaining(),
            {
                let local = Parser::consume(state, TokenType::Identifier, "Expected export name")?.value.clone();
                let mut exported: Option<String> = None;
                if Parser::match_token(state, &[TokenType::As]) {
                    exported = Some(Parser::consume(state, TokenType::Identifier, "Expected exported name after as")?.value.clone());
                }
                specifiers.push(ExportSpecifier { local, exported });
                if !Parser::match_token(state, &[TokenType::Comma]) {
                    break;
                }
            }
            Parser::consume(state, TokenType::RightBrace, "Expected '}' after export specifiers")?;
            let module_specifier = if Parser::match_token(state, &[TokenType::From]) {
                Some(Parser::consume(state, TokenType::StrLiteral, "Expected module path after 'from'")?.value.clone())
            } else {
                None
            };
            Parser::optional_semicolon(state);
            return Ok(Stmt::ExportDecl { declaration: None, specifiers, is_default: false, module_specifier, position });
        }
        let declaration = Box::new(Self::declaration(state)?);
        Ok(Stmt::ExportDecl {
            declaration: Some(declaration),
            specifiers: Vec::new(),
            is_default: false,
            module_specifier: None,
            position,
        })
    }

    /// The kind of the token two places after the cursor is one of `types`.
    pub fn check_next_next(state: &ParserState, types: &[TokenType]) -> (b: bool)
        ensures
            b == (state.current + 2 < state.tokens@.len() && types@.contains(
                state.tokens@[state.current + 2].token_type,
            )),
    {
        Parser::check_next_next(state, types)
    }
}

/// The rest-versus-optional rules of a parameter list: a rest parameter cannot be optional,
/// and a required parameter cannot follow an optional one.
pub fn check_param_order(state: &ParserState, is_rest: bool, is_optional: bool, has_optional: &mut bool) -> (r: Option<RaccoonError>)
    requires
        state.wf(),
    ensures
        r is Some <==> ((is_optional && is_rest) || (!is_optional && *old(has_optional))),
        r is None ==> *final(has_optional) == (*old(has_optional) || is_optional),
        r matches Some(e) ==> e.position == state.tokens@[state.current as int].position,
{
    if is_optional && is_rest {
        return Some(RaccoonError::new("Rest parameters cannot be optional", state.peek().unwrap().position, None));
    }
    if is_optional {
        *has_optional = true;
    } else if *has_optional {
        return Some(RaccoonError::new(
            "Required parameters cannot follow optional parameters",
            state.peek().unwrap().position,
            None,
        ));
    }
    None
}

} // verus!
