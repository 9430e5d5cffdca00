//! Syntax trees that the parser builds and the IR compiler reads.
use vstd::prelude::*;
use crate::tokens::{AccessModifier, BinaryOperator, Position, TokenType, UnaryOperator};

verus! {

/// The built-in type names.
#[derive(Debug, Clone, Copy, PartialEq, Eq, Structural)]
pub enum PrimitiveKind {
    Int,
    Float,
    Str,
    Bool,
    Null,
    Void,
    Any,
    Unknown,
    Never,
    Func,
}

/// A property of an object type.
#[derive(Debug)]
pub struct ObjectTypeProperty {
    pub name: String,
    pub property_type: Type,
    pub optional: bool,
    pub readonly: bool,
}

/// A type as written in a program.
#[derive(Debug)]
pub enum Type {
    Primitive(PrimitiveKind),
    TypeRef { name: String, file: Option<String> },
    Generic { name: String, file: Option<String>, type_args: Vec<Type> },
    List(Box<Type>),
    MapOf(Box<Type>, Box<Type>),
    Future(Box<Type>),
    Nullable(Box<Type>),
    Union(Vec<Type>),
    Intersection(Vec<Type>),
    Function { params: Vec<Type>, return_type: Box<Type>, is_variadic: bool },
    Tuple(Vec<Type>),
    Object(Vec<ObjectTypeProperty>),
    Readonly(Box<Type>),
    KeyOf(Box<Type>),
    TypeOf(String),
}

/// Two types are the same: same shape, same names, and the same types inside.
pub open spec fn same_type(a: Type, b: Type) -> bool
    decreases a,
{
    match a {
        Type::Primitive(k) => b == Type::Primitive(k),
        Type::TypeRef { name, file } => b matches Type::TypeRef { name: n2, file: f2 } && name == n2 && file == f2,
        Type::Generic { name, file, type_args } => b matches Type::Generic { name: n2, file: f2, type_args: a2 }
            && name == n2 && file == f2 && type_args@.len() == a2@.len()
            && forall|i: int| 0 <= i < type_args@.len() ==> same_type(#[trigger] type_args@[i], a2@[i]),
        Type::List(t) => b matches Type::List(u) && same_type(*t, *u),
        Type::MapOf(k, v) => b matches Type::MapOf(k2, v2) && same_type(*k, *k2) && same_type(*v, *v2),
        Type::Future(t) => b matches Type::Future(u) && same_type(*t, *u),
        Type::Nullable(t) => b matches Type::Nullable(u) && same_type(*t, *u),
        Type::Union(ts) => b matches Type::Union(us) && ts@.len() == us@.len()
            && forall|i: int| 0 <= i < ts@.len() ==> same_type(#[trigger] ts@[i], us@[i]),
        Type::Intersection(ts) => b matches Type::Intersection(us) && ts@.len() == us@.len()
            && forall|i: int| 0 <= i < ts@.len() ==> same_type(#[trigger] ts@[i], us@[i]),
        Type::Function { params, return_type, is_variadic } => b matches Type::Function {
            params: p2,
            return_type: r2,
            is_variadic: v2,
        } && params@.len() == p2@.len()
            && (forall|i: int| 0 <= i < params@.len() ==> same_type(#[trigger] params@[i], p2@[i]))
            && same_type(*return_type, *r2) && is_variadic == v2,
        Type::Tuple(ts) => b matches Type::Tuple(us) && ts@.len() == us@.len()
            && forall|i: int| 0 <= i < ts@.len() ==> same_type(#[trigger] ts@[i], us@[i]),
        Type::Object(ps) => b matches Type::Object(qs) && ps@.len() == qs@.len()
            && forall|i: int| 0 <= i < ps@.len() ==> (#[trigger] ps@[i]).name == qs@[i].name
                && ps@[i].optional == qs@[i].optional && ps@[i].readonly == qs@[i].readonly
                && same_type(ps@[i].property_type, qs@[i].property_type),
        Type::Readonly(t) => b matches Type::Readonly(u) && same_type(*t, *u),
        Type::KeyOf(t) => b matches Type::KeyOf(u) && same_type(*t, *u),
        Type::TypeOf(n) => b == Type::TypeOf(n),
    }
}

/// Every type is the same as itself.
pub proof fn lemma_same_type_refl(t: Type)
    ensures
        same_type(t, t),
    decreases t,
{
    match t {
        Type::Generic { type_args, .. } => {
            assert forall|i: int| 0 <= i < type_args@.len() implies same_type(#[trigger] type_args@[i], type_args@[i]) by {
                assert(decreases_to!(t => type_args@[i]));
                lemma_same_type_refl(type_args@[i]);
            }
        },
        Type::List(x) => lemma_same_type_refl(*x),
        Type::MapOf(k, v) => {
            lemma_same_type_refl(*k);
            lemma_same_type_refl(*v);
        },
        Type::Future(x) => lemma_same_type_refl(*x),
        Type::Nullable(x) => lemma_same_type_refl(*x),
        Type::Union(ts) => {
            assert forall|i: int| 0 <= i < ts@.len() implies same_type(#[trigger] ts@[i], ts@[i]) by {
                assert(decreases_to!(t => ts@[i]));
                lemma_same_type_refl(ts@[i]);
            }
        },
        Type::Intersection(ts) => {
            assert forall|i: int| 0 <= i < ts@.len() implies same_type(#[trigger] ts@[i], ts@[i]) by {
                assert(decreases_to!(t => ts@[i]));
                lemma_same_type_refl(ts@[i]);
            }
        },
        Type::Function { params, return_type, .. } => {
            assert forall|i: int| 0 <= i < params@.len() implies same_type(#[trigger] params@[i], params@[i]) by {
                assert(decreases_to!(t => params@[i]));
                lemma_same_type_refl(params@[i]);
            }
            lemma_same_type_refl(*return_type);
        },
        Type::Tuple(ts) => {
            assert forall|i: int| 0 <= i < ts@.len() implies same_type(#[trigger] ts@[i], ts@[i]) by {
                assert(decreases_to!(t => ts@[i]));
                lemma_same_type_refl(ts@[i]);
            }
        },
        Type::Object(ps) => {
            assert forall|i: int| 0 <= i < ps@.len() implies same_type((#[trigger] ps@[i]).property_type, ps@[i].property_type) by {
                assert(decreases_to!(t => ps@[i].property_type));
                lemma_same_type_refl(ps@[i].property_type);
            }
        },
        Type::Readonly(x) => lemma_same_type_refl(*x),
        Type::KeyOf(x) => lemma_same_type_refl(*x),
        _ => {},
    }
}

/// Being the same type is transitive.
pub proof fn lemma_same_type_trans(a: Type, b: Type, c: Type)
    requires
        same_type(a, b),
        same_type(b, c),
    ensures
        same_type(a, c),
    decreases a,
{
    match a {
        Type::Generic { type_args, .. } => {
            let bs = b->Generic_type_args;
            let cs = c->Generic_type_args;
            assert forall|i: int| 0 <= i < type_args@.len() implies same_type(#[trigger] type_args@[i], cs@[i]) by {
                assert(decreases_to!(a => type_args@[i]));
                lemma_same_type_trans(type_args@[i], bs@[i], cs@[i]);
            }
        },
        Type::List(x) => lemma_same_type_trans(*x, *b->List_0, *c->List_0),
        Type::MapOf(k, v) => {
            lemma_same_type_trans(*k, *b->MapOf_0, *c->MapOf_0);
            lemma_same_type_trans(*v, *b->MapOf_1, *c->MapOf_1);
        },
        Type::Future(x) => lemma_same_type_trans(*x, *b->Future_0, *c->Future_0),
        Type::Nullable(x) => lemma_same_type_trans(*x, *b->Nullable_0, *c->Nullable_0),
        Type::Union(ts) => {
            let bs = b->Union_0;
            let cs = c->Union_0;
            assert forall|i: int| 0 <= i < ts@.len() implies same_type(#[trigger] ts@[i], cs@[i]) by {
                assert(decreases_to!(a => ts@[i]));
                lemma_same_type_trans(ts@[i], bs@[i], cs@[i]);
            }
        },
        Type::Intersection(ts) => {
            let bs = b->Intersection_0;
            let cs = c->Intersection_0;
            assert forall|i: int| 0 <= i < ts@.len() implies same_type(#[trigger] ts@[i], cs@[i]) by {
                assert(decreases_to!(a => ts@[i]));
                lemma_same_type_trans(ts@[i], bs@[i], cs@[i]);
            }
        },
        Type::Function { params, return_type, .. } => {
            let bs = b->Function_params;
            let cs = c->Function_params;
            assert forall|i: int| 0 <= i < params@.len() implies same_type(#[trigger] params@[i], cs@[i]) by {
                assert(decreases_to!(a => params@[i]));
                lemma_same_type_trans(params@[i], bs@[i], cs@[i]);
            }
            lemma_same_type_trans(*return_type, *b->Function_return_type, *c->Function_return_type);
        },
        Type::Tuple(ts) => {
            let bs = b->Tuple_0;
            let cs = c->Tuple_0;
            assert forall|i: int| 0 <= i < ts@.len() implies same_type(#[trigger] ts@[i], cs@[i]) by {
                assert(decreases_to!(a => ts@[i]));
                lemma_same_type_trans(ts@[i], bs@[i], cs@[i]);
            }
        },
        Type::Object(ps) => {
            let bs = b->Object_0;
            let cs = c->Object_0;
            assert forall|i: int| 0 <= i < ps@.len() implies (#[trigger] ps@[i]).name == cs@[i].name
                && ps@[i].optional == cs@[i].optional && ps@[i].readonly == cs@[i].readonly
                && same_type(ps@[i].property_type, cs@[i].property_type) by {
                assert(decreases_to!(a => ps@[i].property_type));
                assert(bs@[i].name == cs@[i].name);
                lemma_same_type_trans(ps@[i].property_type, bs@[i].property_type, cs@[i].property_type);
            }
        },
        Type::Readonly(x) => lemma_same_type_trans(*x, *b->Readonly_0, *c->Readonly_0),
        Type::KeyOf(x) => lemma_same_type_trans(*x, *b->KeyOf_0, *c->KeyOf_0),
        _ => {},
    }
}

/// A copy of each type in a list.
pub fn copy_types(v: &Vec<Type>) -> (r: Vec<Type>)
    ensures
        r@.len() == v@.len(),
        forall|i: int| 0 <= i < v@.len() ==> same_type(#[trigger] v@[i], r@[i]),
    decreases v, 0nat,
{
    let mut r: Vec<Type> = Vec::new();
    let mut i: usize = 0;
    while i < v.len()
        invariant
            i <= v@.len(),
            r@.len() == i,
            forall|j: int| 0 <= j < i ==> same_type(#[trigger] v@[j], r@[j]),
        decreases v@.len() - i,
    {
        assert(decreases_to!(v => v@[i as int]));
        r.push(v[i].copy());
        i = i + 1;
    }
    r
}

impl Type {
    /// A copy of the type.
    pub fn copy(&self) -> (r: Type)
        ensures
            same_type(*self, r),
        decreases self, 1nat,
    {
        match self {
            Type::Primitive(k) => Type::Primitive(*k),
            Type::TypeRef { name, file } => Type::TypeRef { name: name.clone(), file: copy_opt(file) },
            Type::Generic { name, file, type_args } => Type::Generic {
                name: name.clone(),
                file: copy_opt(file),
                type_args: copy_types(type_args),
            },
            Type::List(t) => Type::List(Box::new((**t).copy())),
            Type::MapOf(k, v) => Type::MapOf(Box::new((**k).copy()), Box::new((**v).copy())),
            Type::Future(t) => Type::Future(Box::new((**t).copy())),
            Type::Nullable(t) => Type::Nullable(Box::new((**t).copy())),
            Type::Union(ts) => Type::Union(copy_types(ts)),
            Type::Intersection(ts) => Type::Intersection(copy_types(ts)),
            Type::Function { params, return_type, is_variadic } => Type::Function {
                params: copy_types(params),
                return_type: Box::new((**return_type).copy()),
                is_variadic: *is_variadic,
            },
            Type::Tuple(ts) => Type::Tuple(copy_types(ts)),
            Type::Object(props) => Type::Object(copy_props(props)),
            Type::Readonly(t) => Type::Readonly(Box::new((**t).copy())),
            Type::KeyOf(t) => Type::KeyOf(Box::new((**t).copy())),
            Type::TypeOf(n) => Type::TypeOf(n.clone()),
        }
    }
}

/// A copy of each property of an object type.
fn copy_props(v: &Vec<ObjectTypeProperty>) -> (r: Vec<ObjectTypeProperty>)
    ensures
        r@.len() == v@.len(),
        forall|i: int| 0 <= i < v@.len() ==> (#[trigger] v@[i]).name == r@[i].name
            && v@[i].optional == r@[i].optional && v@[i].readonly == r@[i].readonly
            && same_type(v@[i].property_type, r@[i].property_type),
    decreases v, 0nat,
{
    let mut r: Vec<ObjectTypeProperty> = Vec::new();
    let mut i: usize = 0;
    while i < v.len()
        invariant
            i <= v@.len(),
            r@.len() == i,
            forall|j: int| 0 <= j < i ==> (#[trigger] v@[j]).name == r@[j].name
                && v@[j].optional == r@[j].optional && v@[j].readonly == r@[j].readonly
                && same_type(v@[j].property_type, r@[j].property_type),
        decreases v@.len() - i,
    {
        assert(decreases_to!(v => v@[i as int]));
        let p = &v[i];
        r.push(ObjectTypeProperty {
            name: p.name.clone(),
            property_type: p.property_type.copy(),
            optional: p.optional,
            readonly: p.readonly,
        });
        i = i + 1;
    }
    r
}

/// A copy of an optional string.
pub fn copy_opt(s: &Option<String>) -> (r: Option<String>)
    ensures
        r == *s,
{
    match s {
        Some(x) => Some(x.clone()),
        None => None,
    }
}

/// A type parameter `T` of a generic declaration.
#[derive(Debug)]
pub struct TypeParameter {
    pub name: String,
    pub constraint: Option<Type>,
}

/// `++` or `--`.
#[derive(Debug, Clone, Copy, PartialEq, Eq, Structural)]
pub enum UpdateOperator {
    Increment,
    Decrement,
}

/// A part of a template string: literal text or an interpolated expression.
#[derive(Debug)]
pub enum TemplateStrPart {
    Text { value: String, position: Position },
    Interpolation(Expr),
}

/// A property of an object literal.
#[derive(Debug)]
pub enum ObjectLiteralProperty {
    KeyValue { key: String, value: Expr },
    Spread(Expr),
}

/// A named argument `name: value` of a call.
#[derive(Debug)]
pub struct NamedArg {
    pub name: String,
    pub value: Expr,
}

/// The body of an arrow function.
#[derive(Debug)]
pub enum ArrowFnBody {
    Expr(Box<Expr>),
    Block(Vec<Stmt>),
}

/// An arrow function `(params) => body`.
#[derive(Debug)]
pub struct ArrowFnExpr {
    pub parameters: Vec<FnParam>,
    pub return_type: Option<Type>,
    pub body: ArrowFnBody,
    pub is_async: bool,
    pub position: Position,
}

/// A pattern of a `match` arm.
#[derive(Debug)]
pub enum Pattern {
    Wildcard(Position),
    Variable(String),
    Array(Vec<Pattern>),
    Object(Vec<(String, Pattern)>),
    Literal(Box<Expr>),
}

impl Pattern {
    /// The source position of a pattern: that of a wildcard or literal; other patterns
    /// record none and give `(0, 0)`.
    pub fn position(&self) -> (p: Position)
        ensures
            p == match *self {
                Pattern::Wildcard(pos) => pos,
                Pattern::Literal(e) => expr_pos(*e),
                _ => (0, 0),
            },
    {
        match self {
            Pattern::Wildcard(pos) => *pos,
            Pattern::Literal(e) => e.position(),
            _ => (0, 0),
        }
    }
}

/// An arm `pattern => body` of a `match` expression.
#[derive(Debug)]
pub struct MatchArm {
    pub pattern: Pattern,
    pub guard: Option<Box<Expr>>,
    pub body: Box<Expr>,
    pub position: Position,
}

/// The members of a class body.
#[derive(Debug)]
pub struct ClassBody {
    pub properties: Vec<ClassProperty>,
    pub constructor: Option<ConstructorDecl>,
    pub methods: Vec<ClassMethod>,
    pub accessors: Vec<PropertyAccessor>,
}

/// An expression.
#[derive(Debug)]
pub enum Expr {
    Binary { left: Box<Expr>, operator: BinaryOperator, right: Box<Expr>, position: Position },
    Unary { operator: UnaryOperator, operand: Box<Expr>, position: Position },
    UnaryUpdate { operator: UpdateOperator, operand: Box<Expr>, is_prefix: bool, position: Position },
    Call { callee: Box<Expr>, args: Vec<Expr>, named_args: Vec<NamedArg>, position: Position },
    New { class_name: String, type_args: Vec<Type>, args: Vec<Expr>, position: Position },
    Member { object: Box<Expr>, property: String, position: Position },
    MethodCall { object: Box<Expr>, method: String, args: Vec<Expr>, position: Position },
    Index { object: Box<Expr>, index: Box<Expr>, position: Position },
    OptionalChaining { object: Box<Expr>, property: String, position: Position },
    NullAssertion { operand: Box<Expr>, position: Position },
    Await { expression: Box<Expr>, position: Position },
    This { position: Position },
    Super { position: Position },
    TypeOf { operand: Box<Expr>, position: Position },
    InstanceOf { operand: Box<Expr>, class_name: String, position: Position },
    ArrowFn(ArrowFnExpr),
    Identifier { name: String, position: Position },
    Assignment { target: Box<Expr>, value: Box<Expr>, operator: TokenType, position: Position },
    Range { start: Box<Expr>, end: Box<Expr>, position: Position },
    Conditional { condition: Box<Expr>, then_expr: Box<Expr>, else_expr: Box<Expr>, position: Position },
    NullCoalescing { left: Box<Expr>, right: Box<Expr>, position: Position },
    TemplateStr { parts: Vec<TemplateStrPart>, position: Position },
    IntLiteral { value: i64, position: Position },
    BigIntLiteral { value: String, position: Position },
    FloatLiteral { text: String, position: Position },
    StrLiteral { value: String, position: Position },
    BoolLiteral { value: bool, position: Position },
    NullLiteral { position: Position },
    ArrayLiteral { elements: Vec<Expr>, position: Position },
    ObjectLiteral { properties: Vec<ObjectLiteralProperty>, position: Position },
    Spread { argument: Box<Expr>, position: Position },
    Match { scrutinee: Box<Expr>, arms: Vec<MatchArm>, position: Position },
    Class {
        type_parameters: Vec<TypeParameter>,
        superclass: Option<String>,
        body: ClassBody,
        position: Position,
    },
}

/// The position an expression node records.
pub open spec fn expr_pos(e: Expr) -> Position {
    match e {
        Expr::Binary { position, .. } => position,
        Expr::Unary { position, .. } => position,
        Expr::UnaryUpdate { position, .. } => position,
        Expr::Call { position, .. } => position,
        Expr::New { position, .. } => position,
        Expr::Member { position, .. } => position,
        Expr::MethodCall { position, .. } => position,
        Expr::Index { position, .. } => position,
        Expr::OptionalChaining { position, .. } => position,
        Expr::NullAssertion { position, .. } => position,
        Expr::Await { position, .. } => position,
        Expr::This { position } => position,
        Expr::Super { position } => position,
        Expr::TypeOf { position, .. } => position,
        Expr::InstanceOf { position, .. } => position,
        Expr::ArrowFn(a) => a.position,
        Expr::Identifier { position, .. } => position,
        Expr::Assignment { position, .. } => position,
        Expr::Range { position, .. } => position,
        Expr::Conditional { position, .. } => position,
        Expr::NullCoalescing { position, .. } => position,
        Expr::TemplateStr { position, .. } => position,
        Expr::IntLiteral { position, .. } => position,
        Expr::BigIntLiteral { position, .. } => position,
        Expr::FloatLiteral { position, .. } => position,
        Expr::StrLiteral { position, .. } => position,
        Expr::BoolLiteral { position, .. } => position,
        Expr::NullLiteral { position } => position,
        Expr::ArrayLiteral { position, .. } => position,
        Expr::ObjectLiteral { position, .. } => position,
        Expr::Spread { position, .. } => position,
        Expr::Match { position, .. } => position,
        Expr::Class { position, .. } => position,
    }
}

impl Expr {
    /// The source position of the expression.
    pub fn position(&self) -> (p: Position)
        ensures
            p == expr_pos(*self),
    {
        match self {
            Expr::Binary { position, .. } => *position,
            Expr::Unary { position, .. } => *position,
            Expr::UnaryUpdate { position, .. } => *position,
            Expr::Call { position, .. } => *position,
            Expr::New { position, .. } => *position,
            Expr::Member { position, .. } => *position,
            Expr::MethodCall { position, .. } => *position,
            Expr::Index { position, .. } => *position,
            Expr::OptionalChaining { position, .. } => *position,
            Expr::NullAssertion { position, .. } => *position,
            Expr::Await { position, .. } => *position,
            Expr::This { position } => *position,
            Expr::Super { position } => *position,
            Expr::TypeOf { position, .. } => *position,
            Expr::InstanceOf { position, .. } => *position,
            Expr::ArrowFn(a) => a.position,
            Expr::Identifier { position, .. } => *position,
            Expr::Assignment { position, .. } => *position,
            Expr::Range { position, .. } => *position,
            Expr::Conditional { position, .. } => *position,
            Expr::NullCoalescing { position, .. } => *position,
            Expr::TemplateStr { position, .. } => *position,
            Expr::IntLiteral { position, .. } => *position,
            Expr::BigIntLiteral { position, .. } => *position,
            Expr::FloatLiteral { position, .. } => *position,
            Expr::StrLiteral { position, .. } => *position,
            Expr::BoolLiteral { position, .. } => *position,
            Expr::NullLiteral { position } => *position,
            Expr::ArrayLiteral { position, .. } => *position,
            Expr::ObjectLiteral { position, .. } => *position,
            Expr::Spread { position, .. } => *position,
            Expr::Match { position, .. } => *position,
            Expr::Class { position, .. } => *position,
        }
    }
}

/// A variable bound by a destructuring pattern, with its position.
#[derive(Debug)]
pub struct PatternName {
    pub name: String,
    pub position: Position,
}

/// An element of an array destructuring pattern.
#[derive(Debug)]
pub enum ArrayPatternElement {
    Identifier(PatternName),
    List(Box<ArrayPattern>),
    Object(Box<ObjectPattern>),
}

/// `[a, , [b, c], ...rest]`
#[derive(Debug)]
pub struct ArrayPattern {
    pub elements: Vec<Option<ArrayPatternElement>>,
    pub rest: Option<PatternName>,
    pub position: Position,
}

/// The target of an object pattern property.
#[derive(Debug)]
pub enum ObjectPatternValue {
    Identifier(PatternName),
    Array(ArrayPattern),
    Object(ObjectPattern),
}

/// A property `key` or `key: target` of an object pattern.
#[derive(Debug)]
pub struct ObjectPatternProperty {
    pub key: String,
    pub value: ObjectPatternValue,
}

/// `{ a, b: c, ...rest }`
#[derive(Debug)]
pub struct ObjectPattern {
    pub properties: Vec<ObjectPatternProperty>,
    pub rest: Option<PatternName>,
    pub position: Position,
}

/// An array or object destructuring pattern.
#[derive(Debug)]
pub enum DestructuringPattern {
    Array(ArrayPattern),
    Object(ObjectPattern),
}

/// What a declaration binds: a name or a destructuring pattern.
#[derive(Debug)]
pub enum VarPattern {
    Identifier(String),
    Destructuring(DestructuringPattern),
}

/// A parameter of a function.
#[derive(Debug)]
pub struct FnParam {
    pub pattern: VarPattern,
    pub param_type: Type,
    pub default_value: Option<Expr>,
    pub is_rest: bool,
    pub is_optional: bool,
}

/// A decorator `@name(args)`.
#[derive(Debug)]
pub struct DecoratorDecl {
    pub name: String,
    pub args: Vec<Expr>,
    pub position: Position,
}

/// A class property `name: Type = init;`.
#[derive(Debug)]
pub struct ClassProperty {
    pub name: String,
    pub property_type: Type,
    pub initializer: Option<Expr>,
    pub decorators: Vec<DecoratorDecl>,
    pub access_modifier: AccessModifier,
}

/// A class constructor.
#[derive(Debug)]
pub struct ConstructorDecl {
    pub parameters: Vec<FnParam>,
    pub body: Vec<Stmt>,
    pub position: Position,
}

/// A class method.
#[derive(Debug)]
pub struct ClassMethod {
    pub name: String,
    pub parameters: Vec<FnParam>,
    pub return_type: Option<Type>,
    pub body: Vec<Stmt>,
    pub is_async: bool,
    pub decorators: Vec<DecoratorDecl>,
    pub access_modifier: AccessModifier,
    pub is_static: bool,
}

/// `get` or `set`.
#[derive(Debug, Clone, Copy, PartialEq, Eq, Structural)]
pub enum AccessorKind {
    Getter,
    Setter,
}

/// A getter or setter of a class.
#[derive(Debug)]
pub struct PropertyAccessor {
    pub name: String,
    pub kind: AccessorKind,
    pub parameters: Vec<FnParam>,
    pub return_type: Option<Type>,
    pub body: Vec<Stmt>,
    pub access_modifier: AccessModifier,
    pub position: Position,
}

/// A property or method signature of an interface.
#[derive(Debug)]
pub struct InterfaceProperty {
    pub name: String,
    pub property_type: Type,
    pub optional: bool,
}

/// A member of an enum.
#[derive(Debug)]
pub struct EnumMember {
    pub name: String,
    pub value: Option<Expr>,
}

/// `imported` or `imported as local`.
#[derive(Debug)]
pub struct ImportSpecifier {
    pub imported: String,
    pub local: Option<String>,
}

/// `local` or `local as exported`.
#[derive(Debug)]
pub struct ExportSpecifier {
    pub local: String,
    pub exported: Option<String>,
}

/// A braced list of statements.
#[derive(Debug)]
pub struct Block {
    pub statements: Vec<Stmt>,
    pub position: Position,
}

/// A `catch (e: T) { ... }` clause.
#[derive(Debug)]
pub struct CatchClause {
    pub error_var: String,
    pub error_type: Option<Type>,
    pub body: Block,
    pub position: Position,
}

/// A `case test:` or `default:` clause.
#[derive(Debug)]
pub struct SwitchCase {
    pub test: Option<Expr>,
    pub consequent: Vec<Stmt>,
}

/// A statement or declaration.
#[derive(Debug)]
pub enum Stmt {
    VarDecl {
        pattern: VarPattern,
        type_annotation: Type,
        initializer: Option<Expr>,
        is_constant: bool,
        position: Position,
    },
    FnDecl {
        name: String,
        type_parameters: Vec<TypeParameter>,
        parameters: Vec<FnParam>,
        return_type: Option<Type>,
        body: Vec<Stmt>,
        is_async: bool,
        is_declare: bool,
        decorators: Vec<DecoratorDecl>,
        position: Position,
    },
    ClassDecl {
        name: String,
        type_parameters: Vec<TypeParameter>,
        superclass: Option<String>,
        body: ClassBody,
        decorators: Vec<DecoratorDecl>,
        position: Position,
    },
    InterfaceDecl {
        name: String,
        type_parameters: Vec<TypeParameter>,
        properties: Vec<InterfaceProperty>,
        extends: Vec<String>,
        position: Position,
    },
    EnumDecl { name: String, members: Vec<EnumMember>, position: Position },
    TypeAliasDecl { name: String, alias_type: Type, position: Position },
    ImportDecl {
        default_import: Option<String>,
        named_imports: Vec<ImportSpecifier>,
        namespace_import: Option<String>,
        module_specifier: String,
        position: Position,
    },
    ExportDecl {
        declaration: Option<Box<Stmt>>,
        specifiers: Vec<ExportSpecifier>,
        is_default: bool,
        module_specifier: Option<String>,
        position: Position,
    },
    Block { statements: Vec<Stmt>, position: Position },
    IfStmt { condition: Expr, then_branch: Box<Stmt>, else_branch: Option<Box<Stmt>>, position: Position },
    WhileStmt { condition: Expr, body: Box<Stmt>, position: Position },
    DoWhileStmt { body: Box<Stmt>, condition: Expr, position: Position },
    ForStmt {
        initializer: Option<Box<Stmt>>,
        condition: Option<Expr>,
        increment: Option<Expr>,
        body: Box<Stmt>,
        position: Position,
    },
    ForInStmt {
        variable: String,
        is_const: bool,
        type_annotation: Option<Type>,
        iterable: Expr,
        body: Box<Stmt>,
        position: Position,
    },
    ForOfStmt {
        variable: String,
        is_const: bool,
        type_annotation: Option<Type>,
        iterable: Expr,
        body: Box<Stmt>,
        position: Position,
    },
    SwitchStmt { discriminant: Expr, cases: Vec<SwitchCase>, position: Position },
    ReturnStmt { value: Option<Expr>, position: Position },
    BreakStmt { position: Position },
    ContinueStmt { position: Position },
    TryStmt {
        try_block: Block,
        catch_clauses: Vec<CatchClause>,
        finally_block: Option<Block>,
        position: Position,
    },
    ThrowStmt { value: Expr, position: Position },
    ExprStmt { expression: Expr, position: Position },
}

/// A whole program: its top-level statements.
#[derive(Debug)]
pub struct Program {
    pub stmts: Vec<Stmt>,
    pub position: Position,
}

} // verus!
