//! Parsing of type annotations.
use vstd::prelude::*;
use crate::ast::{ObjectTypeProperty, PrimitiveKind, Type};
use crate::error::RaccoonError;
use crate::parser::state::{steps, ParserState};
use crate::parser::utilities::Parser;
use crate::text::{copy_opt_string, str_eq};
use crate::tokens::{Token, TokenType};

verus! {

/// Parsing functions for types.
pub struct Types;

/// The built-in type that a name denotes.
pub open spec fn builtin_type_kind(name: Seq<char>) -> Option<PrimitiveKind> {
    if name == "int"@ { Some(PrimitiveKind::Int) }
    else if name == "float"@ { Some(PrimitiveKind::Float) }
    else if name == "str"@ { Some(PrimitiveKind::Str) }
    else if name == "bool"@ { Some(PrimitiveKind::Bool) }
    else if name == "null"@ { Some(PrimitiveKind::Null) }
    else if name == "void"@ { Some(PrimitiveKind::Void) }
    else if name == "any"@ { Some(PrimitiveKind::Any) }
    else if name == "unknown"@ { Some(PrimitiveKind::Unknown) }
    else if name == "never"@ { Some(PrimitiveKind::Never) }
    else if name == "func"@ { Some(PrimitiveKind::Func) }
    else { None }
}

/// What `parse_primary_type` gives for the token under the cursor where one or two tokens
/// decide it: `null`; a built-in type name; a name not followed by `<` as a reference to the
/// type of that name; `typeof` and the name after it; and, for a token that starts no type,
/// the error `Expected type` at its position with nothing read. Object, tuple, function,
/// `readonly`, `keyof` and generic types are longer.
pub open spec fn primary_type_result(s0: ParserState, s1: ParserState, r: Result<Type, RaccoonError>) -> bool {
    let t = s0.tokens@[s0.current as int];
    match t.token_type {
        TokenType::NullLiteral => s1.current == s0.current + 1 && r == Ok::<Type, RaccoonError>(Type::Primitive(PrimitiveKind::Null)),
        TokenType::Identifier => match builtin_type_kind(t.value@) {
            Some(k) => s1.current == s0.current + 1 && r == Ok::<Type, RaccoonError>(Type::Primitive(k)),
            None => s0.kind_ahead(1) != Some(TokenType::Lt) ==> {
                &&& s1.current == s0.current + 1
                &&& r matches Ok(Type::TypeRef { name, file }) && name@ == t.value@ && file == s0.file
            },
        },
        TokenType::Typeof => if s0.kind_ahead(1) == Some(TokenType::Identifier) {
            &&& s1.current == s0.current + 2
            &&& r matches Ok(Type::TypeOf(name)) && name@ == s0.tokens@[s0.current + 1].value@
        } else {
            r matches Err(e) && e.message@ == "Expected identifier after typeof"@
                && e.position == s0.tokens@[s0.current + 1].position
        },
        TokenType::Readonly | TokenType::KeyOf | TokenType::LeftBrace | TokenType::LeftBracket
        | TokenType::LeftParen => true,
        _ => s1.current == s0.current && (r matches Err(e) && e.message@ == "Expected type"@ && e.position == t.position),
    }
}

/// The token `k` places after the cursor is a built-in type name.
pub open spec fn is_builtin_at(s: ParserState, k: int) -> bool {
    &&& s.current + k < s.tokens@.len()
    &&& s.tokens@[s.current + k].token_type == TokenType::Identifier
    &&& builtin_type_kind(s.tokens@[s.current + k].value@) is Some
}

/// The built-in type that the name `k` places after the cursor denotes.
pub open spec fn builtin_at(s: ParserState, k: int) -> Type {
    Type::Primitive(builtin_type_kind(s.tokens@[s.current + k].value@)->Some_0)
}

/// The cursor stands on a built-in type name, and the token `k` places after it is of none
/// of the kinds `after` that would continue the type.
pub open spec fn builtin_then(s: ParserState, k: int, after: Seq<TokenType>) -> bool {
    &&& is_builtin_at(s, 0)
    &&& s.current + k < s.tokens@.len()
    &&& !after.contains(s.tokens@[s.current + k].token_type)
}

/// `ty` is the type that the name token `t` denotes: a built-in type, or else a reference to
/// the type of that name in the file of `s`.
pub open spec fn simple_type_of(s: ParserState, t: Token, ty: Type) -> bool {
    match builtin_type_kind(t.value@) {
        Some(k) => ty == Type::Primitive(k),
        None => ty matches Type::TypeRef { name, file } && name@ == t.value@ && file == s.file,
    }
}

/// The cursor stands on a type name followed by a token that is not `<` and of none of the
/// kinds `after` that would continue the type.
pub open spec fn name_type_then(s: ParserState, after: Seq<TokenType>) -> bool {
    &&& s.current + 1 < s.tokens@.len()
    &&& s.cur_kind() == TokenType::Identifier
    &&& s.tokens@[s.current + 1].token_type != TokenType::Lt
    &&& !after.contains(s.tokens@[s.current + 1].token_type)
}

/// The cursor stands on `T[]` with `T` a built-in type name and no `[` after it.
pub open spec fn list_of_builtin_at(s: ParserState) -> bool {
    &&& is_builtin_at(s, 0)
    &&& s.current + 3 < s.tokens@.len()
    &&& s.tokens@[s.current + 1].token_type == TokenType::LeftBracket
    &&& s.tokens@[s.current + 2].token_type == TokenType::RightBracket
    &&& s.tokens@[s.current + 3].token_type != TokenType::LeftBracket
}

/// The cursor stands on `A | B` with two built-in type names, and no token after them that
/// would continue the type.
pub open spec fn union_pair_at(s: ParserState) -> bool {
    &&& is_builtin_at(s, 0)
    &&& s.current + 3 < s.tokens@.len()
    &&& s.tokens@[s.current + 1].token_type == TokenType::BitwiseOr
    &&& is_builtin_at(s, 2)
    &&& !seq![TokenType::Question, TokenType::LeftBracket, TokenType::Ampersand, TokenType::BitwiseOr].contains(
        s.tokens@[s.current + 3].token_type,
    )
}

fn builtin_type(name: &str) -> (r: Option<PrimitiveKind>)
    ensures
        r == builtin_type_kind(name@),
{
    if str_eq(name, "int") { Some(PrimitiveKind::Int) }
    else if str_eq(name, "float") { Some(PrimitiveKind::Float) }
    else if str_eq(name, "str") { Some(PrimitiveKind::Str) }
    else if str_eq(name, "bool") { Some(PrimitiveKind::Bool) }
    else if str_eq(name, "null") { Some(PrimitiveKind::Null) }
    else if str_eq(name, "void") { Some(PrimitiveKind::Void) }
    else if str_eq(name, "any") { Some(PrimitiveKind::Any) }
    else if str_eq(name, "unknown") { Some(PrimitiveKind::Unknown) }
    else if str_eq(name, "never") { Some(PrimitiveKind::Never) }
    else if str_eq(name, "func") { Some(PrimitiveKind::Func) }
    else { None }
}

/// Adds a property to an object type, replacing one of the same name.
fn insert_property(props: &mut Vec<ObjectTypeProperty>, prop: ObjectTypeProperty)
    ensures
        final(props)@.len() == old(props)@.len() || final(props)@.len() == old(props)@.len() + 1,
        exists|i: int| 0 <= i < final(props)@.len() && final(props)@[i] == prop,
{
    let mut i: usize = 0;
    while i < props.len()
        invariant
            i <= props@.len(),
            props@ == old(props)@,
        decreases props@.len() - i,
    {
        if str_eq(props[i].name.as_str(), prop.name.as_str()) {
            props.set(i, prop);
            assert(props@[i as int] == prop);
            return;
        }
        i = i + 1;
    }
    props.push(prop);
    assert(props@[props@.len() - 1] == prop);
}

impl Types {
    /// `Type | Type | ...`
    pub fn parse_type(state: &mut ParserState) -> (r: Result<Type, RaccoonError>)
        requires
            old(state).wf(),
        ensures
            steps(*old(state), *final(state)),
            r is Ok ==> final(state).current > old(state).current,
            name_type_then(*old(state), seq![TokenType::Question, TokenType::LeftBracket, TokenType::Ampersand, TokenType::BitwiseOr]) ==> final(state).current == old(state).current + 1
                && (r matches Ok(ty) && simple_type_of(*old(state), old(state).tokens@[old(state).current as int], ty)),
            builtin_then(*old(state), 1, seq![TokenType::Question, TokenType::LeftBracket, TokenType::Ampersand, TokenType::BitwiseOr])
                ==> final(state).current == old(state).current + 1 && r == Ok::<Type, RaccoonError>(builtin_at(*old(state), 0)),
            union_pair_at(*old(state)) ==> final(state).current == old(state).current + 3 && (r matches Ok(Type::Union(v))
                && v@ == seq![builtin_at(*old(state), 0), builtin_at(*old(state), 2)]),
        decreases old(state).remaining(), 5nat,
    {
        let mut type_ = Self::parse_intersection_type(state)?;
        if Parser::match_token(state, &[TokenType::BitwiseOr]) {
            let mut types = vec![type_];
            loop
                invariant_except_break
                    union_pair_at(*old(state)) ==> state.current == old(state).current + 2
                        && types@ == seq![builtin_at(*old(state), 0)],
                invariant
                    !name_type_then(*old(state), seq![TokenType::Question, TokenType::LeftBracket, TokenType::Ampersand, TokenType::BitwiseOr]),
                    !builtin_then(*old(state), 1, seq![TokenType::Question, TokenType::LeftBracket, TokenType::Ampersand, TokenType::BitwiseOr]),
                    steps(*old(state), *state),
                    state.current > old(state).current,
                ensures
                    !name_type_then(*old(state), seq![TokenType::Question, TokenType::LeftBracket, TokenType::Ampersand, TokenType::BitwiseOr]),
                    !builtin_then(*old(state), 1, seq![TokenType::Question, TokenType::LeftBracket, TokenType::Ampersand, TokenType::BitwiseOr]),
                    steps(*old(state), *state),
                    state.current > old(state).current,
                    union_pair_at(*old(state)) ==> state.current == old(state).current + 3
                        && types@ == seq![builtin_at(*old(state), 0), builtin_at(*old(state), 2)],
                decreases state.remaining(),
            {
                types.push(Self::parse_intersection_type(state)?);
                if !Parser::match_token(state, &[TokenType::BitwiseOr]) {
                    break;
                }
            }
            type_ = Type::Union(types);
        }
        Ok(type_)
    }

    /// `Type & Type & ...`
    pub fn parse_intersection_type(state: &mut ParserState) -> (r: Result<Type, RaccoonError>)
        requires
            old(state).wf(),
        ensures
            steps(*old(state), *final(state)),
            r is Ok ==> final(state).current > old(state).current,
            name_type_then(*old(state), seq![TokenType::Question, TokenType::LeftBracket, TokenType::Ampersand]) ==> final(state).current == old(state).current + 1
                && (r matches Ok(ty) && simple_type_of(*old(state), old(state).tokens@[old(state).current as int], ty)),
            builtin_then(*old(state), 1, seq![TokenType::Question, TokenType::LeftBracket, TokenType::Ampersand])
                ==> final(state).current == old(state).current + 1 && r == Ok::<Type, RaccoonError>(builtin_at(*old(state), 0)),
        decreases old(state).remaining(), 4nat,
    {
        let mut type_ = Self::parse_postfix_type(state)?;
        if Parser::match_token(state, &[TokenType::Ampersand]) {
            let mut types = vec![type_];
            loop
                invariant
                    !name_type_then(*old(state), seq![TokenType::Question, TokenType::LeftBracket, TokenType::Ampersand]),
                    !builtin_then(*old(state), 1, seq![TokenType::Question, TokenType::LeftBracket, TokenType::Ampersand]),
                    steps(*old(state), *state),
                    state.current > old(state).current,
                ensures
                    !name_type_then(*old(state), seq![TokenType::Question, TokenType::LeftBracket, TokenType::Ampersand]),
                    !builtin_then(*old(state), 1, seq![TokenType::Question, TokenType::LeftBracket, TokenType::Ampersand]),
                    steps(*old(state), *state),
                    state.current > old(state).current,
                decreases state.remaining(),
            {
                types.push(Self::parse_postfix_type(state)?);
                if !Parser::match_token(state, &[TokenType::Ampersand]) {
                    break;
                }
            }
            type_ = Type::Intersection(types);
        }
        Ok(type_)
    }

    /// `Type?`, `Type[]`, `Type[][]`
    pub fn parse_postfix_type(state: &mut ParserState) -> (r: Result<Type, RaccoonError>)
        requires
            old(state).wf(),
        ensures
            steps(*old(state), *final(state)),
            r is Ok ==> final(state).current > old(state).current,
            name_type_then(*old(state), seq![TokenType::Question, TokenType::LeftBracket]) ==> final(state).current == old(state).current + 1
                && (r matches Ok(ty) && simple_type_of(*old(state), old(state).tokens@[old(state).current as int], ty)),
            builtin_then(*old(state), 1, seq![TokenType::Question, TokenType::LeftBracket])
                ==> final(state).current == old(state).current + 1 && r == Ok::<Type, RaccoonError>(builtin_at(*old(state), 0)),
            list_of_builtin_at(*old(state)) ==> final(state).current == old(state).current + 3
                && r == Ok::<Type, RaccoonError>(Type::List(Box::new(builtin_at(*old(state), 0)))),
        decreases old(state).remaining(), 3nat,
    {
        let mut type_ = Self::parse_primary_type(state)?;
        if Parser::match_token(state, &[TokenType::Question]) {
            type_ = Type::Nullable(Box::new(type_));
        }
        while Parser::match_token(state, &[TokenType::LeftBracket])
            invariant
                name_type_then(*old(state), seq![TokenType::Question, TokenType::LeftBracket]) ==> state.current
                    == old(state).current + 1 && simple_type_of(*old(state), old(state).tokens@[old(state).current as int], type_),
                steps(*old(state), *state),
                state.current > old(state).current,
                builtin_then(*old(state), 1, seq![TokenType::Question, TokenType::LeftBracket])
                    ==> state.current == old(state).current + 1 && type_ == builtin_at(*old(state), 0),
                list_of_builtin_at(*old(state)) ==> (state.current == old(state).current + 1 && type_ == builtin_at(*old(state), 0))
                    || (state.current == old(state).current + 3 && type_ == Type::List(Box::new(builtin_at(*old(state), 0)))),
            decreases state.remaining(),
        {
            Parser::consume(state, TokenType::RightBracket, "Expected ']'")?;
            type_ = Type::List(Box::new(type_));
        }
        Ok(type_)
    }
}

impl Types {
    /// `readonly T`, `keyof T`, `typeof name`, object and tuple types, `null`, named and
    /// generic types, and function types `(params) => T`.
    pub fn parse_primary_type(state: &mut ParserState) -> (r: Result<Type, RaccoonError>)
        requires
            old(state).wf(),
        ensures
            steps(*old(state), *final(state)),
            r is Ok ==> final(state).current > old(state).current,
            primary_type_result(*old(state), *final(state), r),
        decreases old(state).remaining(), 2nat,
    {
        if Parser::match_token(state, &[TokenType::Readonly]) {
            let inner_type = Self::parse_primary_type(state)?;
            return Ok(Type::Readonly(Box::new(inner_type)));
        }
        if Parser::match_token(state, &[TokenType::KeyOf]) {
            let target_type = Self::parse_primary_type(state)?;
            return Ok(Type::KeyOf(Box::new(target_type)));
        }
        if Parser::match_token(state, &[TokenType::Typeof]) {
            let expression_name = Parser::consume(
                state,
                TokenType::Identifier,
                "Expected identifier after typeof",
            )?.value.clone();
            return Ok(Type::TypeOf(expression_name));
        }
        if state.check(&TokenType::LeftBrace) {
            return Self::parse_object_type(state);
        }
        if state.check(&TokenType::LeftBracket) {
            return Self::parse_tuple_type(state);
        }
        if Parser::match_token(state, &[TokenType::NullLiteral]) {
            return Ok(Type::Primitive(PrimitiveKind::Null));
        }
        if state.check(&TokenType::Identifier) {
            let name = state.advance().unwrap().value.clone();
            if let Some(kind) = builtin_type(name.as_str()) {
                return Ok(Type::Primitive(kind));
            }
            if Parser::match_token(state, &[TokenType::Lt]) {
                let mut type_args: Vec<Type> = Vec::new();
                loop
                    invariant
                        steps(*old(state), *state),
                        state.current > old(state).current,
                        old(state).tokens@[old(state).current as int].token_type == TokenType::Identifier,
                        builtin_type_kind(old(state).tokens@[old(state).current as int].value@) is None,
                        old(state).kind_ahead(1) == Some(TokenType::Lt),
                    ensures
                        steps(*old(state), *state),
                        state.current > old(state).current,
                    decreases state.remaining(),
                {
                    type_args.push(Self::parse_type(state)?);
                    if !Parser::match_token(state, &[TokenType::Comma]) {
                        break;
                    }
                }
                Parser::consume(state, TokenType::Gt, "Expected '>' after type arguments")?;
                if str_eq(name.as_str(), "Future") {
                    if type_args.len() != 1 {
                        return Err(RaccoonError::new(
                            "Future requires exactly one type argument",
                            state.previous().unwrap().position,
                            copy_opt_string(&state.file),
                        ));
                    }
                    let inner = type_args.remove(0);
                    return Ok(Type::Future(Box::new(inner)));
                }
                if str_eq(name.as_str(), "Map") {
                    if type_args.len() != 2 {
                        return Err(RaccoonError::new(
                            "Map requires exactly two type arguments",
                            state.previous().unwrap().position,
                            copy_opt_string(&state.file),
                        ));
                    }
                    let key_type = type_args.remove(0);
                    let value_type = type_args.remove(0);
                    return Ok(Type::MapOf(Box::new(key_type), Box::new(value_type)));
                }
                return Ok(Type::Generic { name, file: copy_opt_string(&state.file), type_args });
            }
            return Ok(Type::TypeRef { name, file: crate::ast::copy_opt(&state.file) });
        }
        if Parser::match_token(state, &[TokenType::LeftParen]) {
            let param_types = Self::parse_param_types(state)?;
            Parser::consume(state, TokenType::RightParen, "Expected ')'")?;
            Parser::consume(state, TokenType::Arrow, "Expected '=>' or '->'")?;
            let return_type = Self::parse_type(state)?;
            return Ok(Type::Function {
                params: param_types,
                return_type: Box::new(return_type),
                is_variadic: false,
            });
        }
        Err(RaccoonError::new(
            "Expected type",
            state.peek().unwrap().position,
            copy_opt_string(&state.file),
        ))
    }

    /// The parameter types of a function type, each optionally preceded by `name:`; stops
    /// before `)`.
    fn parse_param_types(state: &mut ParserState) -> (r: Result<Vec<Type>, RaccoonError>)
        requires
            old(state).wf(),
        ensures
            steps(*old(state), *final(state)),
            old(state).cur_kind() == TokenType::RightParen ==> final(state).current == old(state).current
                && (r matches Ok(v) && v@.len() == 0),
        decreases old(state).remaining(), 6nat,
    {
        let mut param_types: Vec<Type> = Vec::new();
        if !state.check(&TokenType::RightParen) {
            loop
                invariant
                    old(state).cur_kind() != TokenType::RightParen,
                    steps(*old(state), *state),
                ensures
                    old(state).cur_kind() != TokenType::RightParen,
                    steps(*old(state), *state),
                decreases state.remaining(),
            {
                if state.check(&TokenType::Identifier) && Parser::check_next(state, &[TokenType::Colon]) {
                    state.advance();
                    state.advance();
                }
                param_types.push(Self::parse_type(state)?);
                if !Parser::match_token(state, &[TokenType::Comma]) {
                    break;
                }
            }
        }
        Ok(param_types)
    }

    /// `[Type1, Type2, ...]`
    pub fn parse_tuple_type(state: &mut ParserState) -> (r: Result<Type, RaccoonError>)
        requires
            old(state).wf(),
        ensures
            steps(*old(state), *final(state)),
            r is Ok ==> final(state).current > old(state).current,
            old(state).at_end() ==> final(state).current == old(state).current && (r matches Err(e) && e.message@ == "Expected type"@),
            !old(state).at_end() && old(state).kind_ahead(1) == Some(TokenType::RightBracket) ==> final(state).current
                == old(state).current + 2 && (r matches Ok(Type::Tuple(v)) && v@.len() == 0),
            !old(state).at_end() && is_builtin_at(*old(state), 1) && old(state).kind_ahead(2) == Some(TokenType::RightBracket)
                ==> final(state).current == old(state).current + 3 && (r matches Ok(Type::Tuple(v))
                && v@ == seq![builtin_at(*old(state), 1)]),
        decreases old(state).remaining(), 1nat,
    {
        if state.is_at_end() {
            return Err(RaccoonError::new(
                "Expected type",
                state.peek().unwrap().position,
                copy_opt_string(&state.file),
            ));
        }
        state.advance();
        let mut element_types: Vec<Type> = Vec::new();
        if !state.check(&TokenType::RightBracket) {
            loop
                invariant_except_break
                    is_builtin_at(*old(state), 1) && old(state).kind_ahead(2) == Some(TokenType::RightBracket)
                        ==> state.current == old(state).current + 1 && element_types@.len() == 0,
                invariant
                    !old(state).at_end(),
                    old(state).kind_ahead(1) != Some(TokenType::RightBracket),
                    steps(*old(state), *state),
                    state.current > old(state).current,
                ensures
                    is_builtin_at(*old(state), 1) && old(state).kind_ahead(2) == Some(TokenType::RightBracket)
                        ==> state.current == old(state).current + 2 && element_types@ == seq![builtin_at(*old(state), 1)],
                    !old(state).at_end(),
                    old(state).kind_ahead(1) != Some(TokenType::RightBracket),
                    steps(*old(state), *state),
                    state.current > old(state).current,
                decreases state.remaining(),
            {
                element_types.push(Self::parse_type(state)?);
                if !Parser::match_token(state, &[TokenType::Comma]) {
                    break;
                }
            }
        }
        Parser::consume(state, TokenType::RightBracket, "Expected ']' after tuple types")?;
        Ok(Type::Tuple(element_types))
    }

    /// `{ name: Type, readonly other?: Type, method(params): Type; ... }`
    pub fn parse_object_type(state: &mut ParserState) -> (r: Result<Type, RaccoonError>)
        requires
            old(state).wf(),
        ensures
            steps(*old(state), *final(state)),
            r is Ok ==> final(state).current > old(state).current,
            old(state).at_end() ==> final(state).current == old(state).current && (r matches Err(e) && e.message@
                == "Expected property name"@),
            !old(state).at_end() && old(state).kind_ahead(1) == Some(TokenType::RightBrace) ==> final(state).current
                == old(state).current + 2 && (r matches Ok(Type::Object(v)) && v@.len() == 0),
        decreases old(state).remaining(), 1nat,
    {
        if state.is_at_end() {
            return Err(RaccoonError::new(
                "Expected property name",
                state.peek().unwrap().position,
                copy_opt_string(&state.file),
            ));
        }
        state.advance();
        let mut properties: Vec<ObjectTypeProperty> = Vec::new();
        if !state.check(&TokenType::RightBrace) {
            loop
                invariant
                    !old(state).at_end(),
                    old(state).kind_ahead(1) != Some(TokenType::RightBrace),
                    steps(*old(state), *state),
                    state.current > old(state).current,
                ensures
                    !old(state).at_end(),
                    old(state).kind_ahead(1) != Some(TokenType::RightBrace),
                    steps(*old(state), *state),
                    state.current > old(state).current,
                decreases state.remaining(),
            {
                let is_readonly = Parser::match_token(state, &[TokenType::Readonly]);
                let prop_name = Parser::consume(state, TokenType::Identifier, "Expected property name")?.value.clone();
                let is_optional = Parser::match_token(state, &[TokenType::Question]);
                let prop_type = if Parser::match_token(state, &[TokenType::LeftParen]) {
                    let param_types = Self::parse_param_types(state)?;
                    Parser::consume(state, TokenType::RightParen, "Expected ')' after method parameters")?;
                    Parser::consume(state, TokenType::Colon, "Expected ':' after method signature")?;
                    let return_type = Self::parse_type(state)?;
                    Type::Function { params: param_types, return_type: Box::new(return_type), is_variadic: false }
                } else {
                    Parser::consume(state, TokenType::Colon, "Expected ':' after property name")?;
                    Self::parse_type(state)?
                };
                insert_property(
                    &mut properties,
                    ObjectTypeProperty { name: prop_name, property_type: prop_type, optional: is_optional, readonly: is_readonly },
                );
                let has_separator = Parser::match_token(state, &[TokenType::Comma])
                    || Parser::match_token(state, &[TokenType::Semicolon]);
                if state.check(&TokenType::RightBrace) {
                    break;
                }
                if !has_separator {
                    return Err(RaccoonError::new(
                        "Expected ',' or ';' after property type",
                        state.peek().unwrap().position,
                        copy_opt_string(&state.file),
                    ));
                }
            }
        }
        Parser::consume(state, TokenType::RightBrace, "Expected '}' after object type")?;
        Ok(Type::Object(properties))
    }
}

} // verus!
