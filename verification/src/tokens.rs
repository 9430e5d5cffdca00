//! Token kinds, tokens and source positions produced by the lexer.
use vstd::prelude::*;

verus! {

/// A (line, column) pair, both counted from 1.
pub type Position = (usize, usize);

#[derive(Debug, Clone, Copy, PartialEq, Eq, Structural)]
pub enum TokenType {
    // literals
    IntLiteral,
    FloatLiteral,
    BigIntLiteral,
    StrLiteral,
    TemplateStrStart,
    TemplateStrPart,
    TemplateStrEnd,
    TemplateInterpolationStart,
    TemplateInterpolationEnd,
    True,
    False,
    NullLiteral,
    Identifier,
    Underscore,
    // keywords
    Let,
    Const,
    If,
    Else,
    While,
    For,
    In,
    Of,
    Do,
    Match,
    Switch,
    Case,
    Break,
    Continue,
    Fn,
    Class,
    New,
    This,
    Super,
    Constructor,
    Return,
    Interface,
    Enum,
    TypeAlias,
    Typeof,
    KeyOf,
    Instanceof,
    Readonly,
    Implements,
    Extends,
    Static,
    Private,
    Public,
    Protected,
    Async,
    Await,
    Try,
    Catch,
    Finally,
    Throw,
    Get,
    SetKw,
    Import,
    Export,
    From,
    As,
    Default,
    Declare,
    // single-character operators and punctuation
    Plus,
    Minus,
    Multiply,
    Divide,
    Modulo,
    Assign,
    Bang,
    Lt,
    Gt,
    Dot,
    Comma,
    Colon,
    Semicolon,
    Question,
    BitwiseOr,
    Ampersand,
    BitwiseXor,
    BitwiseNot,
    At,
    LeftParen,
    RightParen,
    LeftBrace,
    RightBrace,
    LeftBracket,
    RightBracket,
    // compound operators
    Eq,
    Neq,
    Lte,
    Gte,
    And,
    Or,
    Spread,
    Range,
    Arrow,
    PlusAssign,
    MinusAssign,
    MultiplyAssign,
    DivideAssign,
    ModuloAssign,
    Increment,
    Decrement,
    QuestionDot,
    QuestionQuestion,
    AmpersandAssign,
    BitwiseOrAssign,
    BitwiseXorAssign,
    LeftShift,
    RightShift,
    Exponent,
    UnsignedRightShift,
    LeftShiftAssign,
    RightShiftAssign,
    ExponentAssign,
    UnsignedRightShiftAssign,
    Eof,
}

#[derive(Debug)]
pub struct Token {
    pub token_type: TokenType,
    pub value: String,
    pub position: Position,
}

impl Token {
    pub fn new(token_type: TokenType, value: String, position: Position) -> (t: Token)
        ensures
            t.token_type == token_type,
            t.value == value,
            t.position == position,
    {
        Token { token_type, value, position }
    }

    /// A field-by-field copy of the token.
    pub fn copy(&self) -> (t: Token)
        ensures
            t == *self,
    {
        Token { token_type: self.token_type, value: self.value.clone(), position: self.position }
    }
}

#[derive(Debug, Clone, Copy, PartialEq, Eq, Structural)]
pub enum BinaryOperator {
    Add,
    Subtract,
    Multiply,
    Divide,
    Modulo,
    Exponent,
    Equal,
    NotEqual,
    LessThan,
    GreaterThan,
    LessEqual,
    GreaterEqual,
    And,
    Or,
    BitwiseAnd,
    BitwiseOr,
    BitwiseXor,
    LeftShift,
    RightShift,
    UnsignedRightShift,
}

#[derive(Debug, Clone, Copy, PartialEq, Eq, Structural)]
pub enum UnaryOperator {
    Negate,
    Not,
    BitwiseNot,
}

#[derive(Debug, Clone, Copy, PartialEq, Eq, Structural)]
pub enum AccessModifier {
    Public,
    Private,
    Protected,
}

} // verus!
