//! The lexer: turns source text into a sequence of tokens ending with `Eof`.
use vstd::prelude::*;
use crate::error::RaccoonError;
use crate::text::{chars_of, push_char, str_eq};
use crate::tokens::{Position, Token, TokenType};

verus! {

/// The keyword that a word spells, if any.
pub open spec fn keyword_type(s: Seq<char>) -> Option<TokenType> {
    if s == "let"@ { Some(TokenType::Let) }
    else if s == "const"@ { Some(TokenType::Const) }
    else if s == "if"@ { Some(TokenType::If) }
    else if s == "else"@ { Some(TokenType::Else) }
    else if s == "while"@ { Some(TokenType::While) }
    else if s == "for"@ { Some(TokenType::For) }
    else if s == "in"@ { Some(TokenType::In) }
    else if s == "of"@ { Some(TokenType::Of) }
    else if s == "do"@ { Some(TokenType::Do) }
    else if s == "match"@ { Some(TokenType::Match) }
    else if s == "switch"@ { Some(TokenType::Switch) }
    else if s == "case"@ { Some(TokenType::Case) }
    else if s == "break"@ { Some(TokenType::Break) }
    else if s == "continue"@ { Some(TokenType::Continue) }
    else if s == "fn"@ { Some(TokenType::Fn) }
    else if s == "class"@ { Some(TokenType::Class) }
    else if s == "new"@ { Some(TokenType::New) }
    else if s == "this"@ { Some(TokenType::This) }
    else if s == "super"@ { Some(TokenType::Super) }
    else if s == "constructor"@ { Some(TokenType::Constructor) }
    else if s == "return"@ { Some(TokenType::Return) }
    else if s == "interface"@ { Some(TokenType::Interface) }
    else if s == "enum"@ { Some(TokenType::Enum) }
    else if s == "type"@ { Some(TokenType::TypeAlias) }
    else if s == "typeof"@ { Some(TokenType::Typeof) }
    else if s == "keyof"@ { Some(TokenType::KeyOf) }
    else if s == "instanceof"@ { Some(TokenType::Instanceof) }
    else if s == "readonly"@ { Some(TokenType::Readonly) }
    else if s == "implements"@ { Some(TokenType::Implements) }
    else if s == "extends"@ { Some(TokenType::Extends) }
    else if s == "static"@ { Some(TokenType::Static) }
    else if s == "private"@ { Some(TokenType::Private) }
    else if s == "public"@ { Some(TokenType::Public) }
    else if s == "protected"@ { Some(TokenType::Protected) }
    else if s == "async"@ { Some(TokenType::Async) }
    else if s == "await"@ { Some(TokenType::Await) }
    else if s == "try"@ { Some(TokenType::Try) }
    else if s == "catch"@ { Some(TokenType::Catch) }
    else if s == "finally"@ { Some(TokenType::Finally) }
    else if s == "throw"@ { Some(TokenType::Throw) }
    else if s == "get"@ { Some(TokenType::Get) }
    else if s == "set"@ { Some(TokenType::SetKw) }
    else if s == "import"@ { Some(TokenType::Import) }
    else if s == "export"@ { Some(TokenType::Export) }
    else if s == "from"@ { Some(TokenType::From) }
    else if s == "as"@ { Some(TokenType::As) }
    else if s == "default"@ { Some(TokenType::Default) }
    else if s == "declare"@ { Some(TokenType::Declare) }
    else if s == "true"@ { Some(TokenType::True) }
    else if s == "false"@ { Some(TokenType::False) }
    else if s == "null"@ { Some(TokenType::NullLiteral) }
    else { None }
}

fn lookup_keyword(text: &str) -> (r: Option<TokenType>)
    ensures
        r == keyword_type(text@),
{
    if str_eq(text, "let") { Some(TokenType::Let) }
    else if str_eq(text, "const") { Some(TokenType::Const) }
    else if str_eq(text, "if") { Some(TokenType::If) }
    else if str_eq(text, "else") { Some(TokenType::Else) }
    else if str_eq(text, "while") { Some(TokenType::While) }
    else if str_eq(text, "for") { Some(TokenType::For) }
    else if str_eq(text, "in") { Some(TokenType::In) }
    else if str_eq(text, "of") { Some(TokenType::Of) }
    else if str_eq(text, "do") { Some(TokenType::Do) }
    else if str_eq(text, "match") { Some(TokenType::Match) }
    else if str_eq(text, "switch") { Some(TokenType::Switch) }
    else if str_eq(text, "case") { Some(TokenType::Case) }
    else if str_eq(text, "break") { Some(TokenType::Break) }
    else if str_eq(text, "continue") { Some(TokenType::Continue) }
    else if str_eq(text, "fn") { Some(TokenType::Fn) }
    else if str_eq(text, "class") { Some(TokenType::Class) }
    else if str_eq(text, "new") { Some(TokenType::New) }
    else if str_eq(text, "this") { Some(TokenType::This) }
    else if str_eq(text, "super") { Some(TokenType::Super) }
    else if str_eq(text, "constructor") { Some(TokenType::Constructor) }
    else if str_eq(text, "return") { Some(TokenType::Return) }
    else if str_eq(text, "interface") { Some(TokenType::Interface) }
    else if str_eq(text, "enum") { Some(TokenType::Enum) }
    else if str_eq(text, "type") { Some(TokenType::TypeAlias) }
    else if str_eq(text, "typeof") { Some(TokenType::Typeof) }
    else if str_eq(text, "keyof") { Some(TokenType::KeyOf) }
    else if str_eq(text, "instanceof") { Some(TokenType::Instanceof) }
    else if str_eq(text, "readonly") { Some(TokenType::Readonly) }
    else if str_eq(text, "implements") { Some(TokenType::Implements) }
    else if str_eq(text, "extends") { Some(TokenType::Extends) }
    else if str_eq(text, "static") { Some(TokenType::Static) }
    else if str_eq(text, "private") { Some(TokenType::Private) }
    else if str_eq(text, "public") { Some(TokenType::Public) }
    else if str_eq(text, "protected") { Some(TokenType::Protected) }
    else if str_eq(text, "async") { Some(TokenType::Async) }
    else if str_eq(text, "await") { Some(TokenType::Await) }
    else if str_eq(text, "try") { Some(TokenType::Try) }
    else if str_eq(text, "catch") { Some(TokenType::Catch) }
    else if str_eq(text, "finally") { Some(TokenType::Finally) }
    else if str_eq(text, "throw") { Some(TokenType::Throw) }
    else if str_eq(text, "get") { Some(TokenType::Get) }
    else if str_eq(text, "set") { Some(TokenType::SetKw) }
    else if str_eq(text, "import") { Some(TokenType::Import) }
    else if str_eq(text, "export") { Some(TokenType::Export) }
    else if str_eq(text, "from") { Some(TokenType::From) }
    else if str_eq(text, "as") { Some(TokenType::As) }
    else if str_eq(text, "default") { Some(TokenType::Default) }
    else if str_eq(text, "declare") { Some(TokenType::Declare) }
    else if str_eq(text, "true") { Some(TokenType::True) }
    else if str_eq(text, "false") { Some(TokenType::False) }
    else if str_eq(text, "null") { Some(TokenType::NullLiteral) }
    else { None }
}

/// The single-character operator or punctuation that `c` stands for.
pub open spec fn simple_op(c: char) -> Option<TokenType> {
    match c {
        '+' => Some(TokenType::Plus),
        '-' => Some(TokenType::Minus),
        '*' => Some(TokenType::Multiply),
        '/' => Some(TokenType::Divide),
        '%' => Some(TokenType::Modulo),
        '=' => Some(TokenType::Assign),
        '!' => Some(TokenType::Bang),
        '<' => Some(TokenType::Lt),
        '>' => Some(TokenType::Gt),
        '.' => Some(TokenType::Dot),
        ',' => Some(TokenType::Comma),
        ':' => Some(TokenType::Colon),
        ';' => Some(TokenType::Semicolon),
        '?' => Some(TokenType::Question),
        '|' => Some(TokenType::BitwiseOr),
        '&' => Some(TokenType::Ampersand),
        '^' => Some(TokenType::BitwiseXor),
        '~' => Some(TokenType::BitwiseNot),
        '@' => Some(TokenType::At),
        '(' => Some(TokenType::LeftParen),
        ')' => Some(TokenType::RightParen),
        '{' => Some(TokenType::LeftBrace),
        '}' => Some(TokenType::RightBrace),
        '[' => Some(TokenType::LeftBracket),
        ']' => Some(TokenType::RightBracket),
        _ => None,
    }
}

fn lookup_simple_op(c: char) -> (r: Option<TokenType>)
    ensures
        r == simple_op(c),
{
    match c {
        '+' => Some(TokenType::Plus),
        '-' => Some(TokenType::Minus),
        '*' => Some(TokenType::Multiply),
        '/' => Some(TokenType::Divide),
        '%' => Some(TokenType::Modulo),
        '=' => Some(TokenType::Assign),
        '!' => Some(TokenType::Bang),
        '<' => Some(TokenType::Lt),
        '>' => Some(TokenType::Gt),
        '.' => Some(TokenType::Dot),
        ',' => Some(TokenType::Comma),
        ':' => Some(TokenType::Colon),
        ';' => Some(TokenType::Semicolon),
        '?' => Some(TokenType::Question),
        '|' => Some(TokenType::BitwiseOr),
        '&' => Some(TokenType::Ampersand),
        '^' => Some(TokenType::BitwiseXor),
        '~' => Some(TokenType::BitwiseNot),
        '@' => Some(TokenType::At),
        '(' => Some(TokenType::LeftParen),
        ')' => Some(TokenType::RightParen),
        '{' => Some(TokenType::LeftBrace),
        '}' => Some(TokenType::RightBrace),
        '[' => Some(TokenType::LeftBracket),
        ']' => Some(TokenType::RightBracket),
        _ => None,
    }
}

/// The 2-character operator spelled by the given characters, if any.
pub open spec fn compound_op2(a: char, b: char) -> Option<TokenType> {
    if a == '=' && b == '=' { Some(TokenType::Eq) }
    else if a == '!' && b == '=' { Some(TokenType::Neq) }
    else if a == '<' && b == '=' { Some(TokenType::Lte) }
    else if a == '>' && b == '=' { Some(TokenType::Gte) }
    else if a == '&' && b == '&' { Some(TokenType::And) }
    else if a == '|' && b == '|' { Some(TokenType::Or) }
    else if a == '.' && b == '.' { Some(TokenType::Range) }
    else if a == '-' && b == '>' { Some(TokenType::Arrow) }
    else if a == '=' && b == '>' { Some(TokenType::Arrow) }
    else if a == '+' && b == '=' { Some(TokenType::PlusAssign) }
    else if a == '-' && b == '=' { Some(TokenType::MinusAssign) }
    else if a == '*' && b == '=' { Some(TokenType::MultiplyAssign) }
    else if a == '/' && b == '=' { Some(TokenType::DivideAssign) }
    else if a == '%' && b == '=' { Some(TokenType::ModuloAssign) }
    else if a == '+' && b == '+' { Some(TokenType::Increment) }
    else if a == '-' && b == '-' { Some(TokenType::Decrement) }
    else if a == '?' && b == '.' { Some(TokenType::QuestionDot) }
    else if a == '?' && b == '?' { Some(TokenType::QuestionQuestion) }
    else if a == '&' && b == '=' { Some(TokenType::AmpersandAssign) }
    else if a == '|' && b == '=' { Some(TokenType::BitwiseOrAssign) }
    else if a == '^' && b == '=' { Some(TokenType::BitwiseXorAssign) }
    else if a == '<' && b == '<' { Some(TokenType::LeftShift) }
    else if a == '>' && b == '>' { Some(TokenType::RightShift) }
    else if a == '*' && b == '*' { Some(TokenType::Exponent) }
    else { None }
}

fn lookup_compound_op2(a: char, b: char) -> (r: Option<TokenType>)
    ensures
        r == compound_op2(a, b),
{
    if a == '=' && b == '=' { Some(TokenType::Eq) }
    else if a == '!' && b == '=' { Some(TokenType::Neq) }
    else if a == '<' && b == '=' { Some(TokenType::Lte) }
    else if a == '>' && b == '=' { Some(TokenType::Gte) }
    else if a == '&' && b == '&' { Some(TokenType::And) }
    else if a == '|' && b == '|' { Some(TokenType::Or) }
    else if a == '.' && b == '.' { Some(TokenType::Range) }
    else if a == '-' && b == '>' { Some(TokenType::Arrow) }
    else if a == '=' && b == '>' { Some(TokenType::Arrow) }
    else if a == '+' && b == '=' { Some(TokenType::PlusAssign) }
    else if a == '-' && b == '=' { Some(TokenType::MinusAssign) }
    else if a == '*' && b == '=' { Some(TokenType::MultiplyAssign) }
    else if a == '/' && b == '=' { Some(TokenType::DivideAssign) }
    else if a == '%' && b == '=' { Some(TokenType::ModuloAssign) }
    else if a == '+' && b == '+' { Some(TokenType::Increment) }
    else if a == '-' && b == '-' { Some(TokenType::Decrement) }
    else if a == '?' && b == '.' { Some(TokenType::QuestionDot) }
    else if a == '?' && b == '?' { Some(TokenType::QuestionQuestion) }
    else if a == '&' && b == '=' { Some(TokenType::AmpersandAssign) }
    else if a == '|' && b == '=' { Some(TokenType::BitwiseOrAssign) }
    else if a == '^' && b == '=' { Some(TokenType::BitwiseXorAssign) }
    else if a == '<' && b == '<' { Some(TokenType::LeftShift) }
    else if a == '>' && b == '>' { Some(TokenType::RightShift) }
    else if a == '*' && b == '*' { Some(TokenType::Exponent) }
    else { None }
}

/// The 3-character operator spelled by the given characters, if any.
pub open spec fn compound_op3(a: char, b: char, c: char) -> Option<TokenType> {
    if a == '=' && b == '=' && c == '=' { Some(TokenType::Eq) }
    else if a == '!' && b == '=' && c == '=' { Some(TokenType::Neq) }
    else if a == '.' && b == '.' && c == '.' { Some(TokenType::Spread) }
    else if a == '>' && b == '>' && c == '>' { Some(TokenType::UnsignedRightShift) }
    else if a == '<' && b == '<' && c == '=' { Some(TokenType::LeftShiftAssign) }
    else if a == '>' && b == '>' && c == '=' { Some(TokenType::RightShiftAssign) }
    else if a == '*' && b == '*' && c == '=' { Some(TokenType::ExponentAssign) }
    else { None }
}

fn lookup_compound_op3(a: char, b: char, c: char) -> (r: Option<TokenType>)
    ensures
        r == compound_op3(a, b, c),
{
    if a == '=' && b == '=' && c == '=' { Some(TokenType::Eq) }
    else if a == '!' && b == '=' && c == '=' { Some(TokenType::Neq) }
    else if a == '.' && b == '.' && c == '.' { Some(TokenType::Spread) }
    else if a == '>' && b == '>' && c == '>' { Some(TokenType::UnsignedRightShift) }
    else if a == '<' && b == '<' && c == '=' { Some(TokenType::LeftShiftAssign) }
    else if a == '>' && b == '>' && c == '=' { Some(TokenType::RightShiftAssign) }
    else if a == '*' && b == '*' && c == '=' { Some(TokenType::ExponentAssign) }
    else { None }
}

/// The 4-character operator spelled by the given characters, if any.
pub open spec fn compound_op4(a: char, b: char, c: char, d: char) -> Option<TokenType> {
    if a == '>' && b == '>' && c == '>' && d == '=' { Some(TokenType::UnsignedRightShiftAssign) }
    else { None }
}

fn lookup_compound_op4(a: char, b: char, c: char, d: char) -> (r: Option<TokenType>)
    ensures
        r == compound_op4(a, b, c, d),
{
    if a == '>' && b == '>' && c == '>' && d == '=' { Some(TokenType::UnsignedRightShiftAssign) }
    else { None }
}

pub open spec fn is_alpha(c: char) -> bool {
    ('a' <= c && c <= 'z') || ('A' <= c && c <= 'Z') || c == '_'
}

pub open spec fn is_digit(c: char) -> bool {
    '0' <= c && c <= '9'
}

pub open spec fn is_alnum(c: char) -> bool {
    is_alpha(c) || is_digit(c)
}

pub open spec fn is_hex_digit(c: char) -> bool {
    is_digit(c) || ('a' <= c && c <= 'f') || ('A' <= c && c <= 'F')
}

/// The characters that the lexer skips between tokens.
pub open spec fn is_line_space(c: char) -> bool {
    c == ' ' || c == '\t' || c == '\r' || c == '\n'
}

/// The Unicode `White_Space` property, as `char::is_whitespace` defines it.
pub open spec fn is_unicode_whitespace(c: char) -> bool {
    c == '\t' || c == '\n' || c == '\u{0B}' || c == '\u{0C}' || c == '\r' || c == ' '
        || c == '\u{85}' || c == '\u{A0}' || c == '\u{1680}' || ('\u{2000}' <= c && c <= '\u{200A}')
        || c == '\u{2028}' || c == '\u{2029}' || c == '\u{202F}' || c == '\u{205F}'
        || c == '\u{3000}'
}

/// The character that a backslash escape `\c` stands for.
pub open spec fn escaped_char(c: char) -> char {
    if c == 'n' {
        '\n'
    } else if c == 't' {
        '\t'
    } else if c == 'r' {
        '\r'
    } else {
        c
    }
}

/// The value of a string literal whose text begins at index `j` of `s` and which the quote `q`
/// closes, with the index just past the closing quote: each character stands for itself but a
/// backslash and the character after it, which stand for the escaped character. `None` where
/// the source ends before the closing quote.
pub open spec fn str_body(s: Seq<char>, j: int, q: char) -> Option<(Seq<char>, int)>
    decreases s.len() - j,
{
    if j < 0 || j >= s.len() {
        None
    } else if s[j] == q {
        Some((Seq::empty(), j + 1))
    } else if s[j] == '\\' {
        if j + 1 >= s.len() {
            None
        } else {
            text_before(seq![escaped_char(s[j + 1])], str_body(s, j + 2, q))
        }
    } else {
        text_before(seq![s[j]], str_body(s, j + 1, q))
    }
}

/// `v` put before the value of a literal's rest, where there is one.
pub open spec fn text_before(v: Seq<char>, rest: Option<(Seq<char>, int)>) -> Option<(Seq<char>, int)> {
    match rest {
        Some((w, e)) => Some((v + w, e)),
        None => None,
    }
}

/// The text of a string literal, closed by the quote `q`, that stands for `v`: a newline, tab
/// or carriage return is written as a backslash and `n`, `t` or `r`; a backslash or the quote
/// is written after a backslash; every other character as itself.
pub open spec fn escape_text(v: Seq<char>, q: char) -> Seq<char>
    decreases v.len(),
{
    if v.len() == 0 {
        Seq::empty()
    } else {
        let c = v[0];
        let head = if c == '\n' {
            seq!['\\', 'n']
        } else if c == '\t' {
            seq!['\\', 't']
        } else if c == '\r' {
            seq!['\\', 'r']
        } else if c == '\\' || c == q {
            seq!['\\', c]
        } else {
            seq![c]
        };
        head + escape_text(v.drop_first(), q)
    }
}

/// A string literal decodes to what it was written from: where the source holds, from index
/// `p`, the quote `q`, the escaped text of `v` and the quote again, the literal's value is `v`
/// and it ends just past the second quote. (The quotes of the language are `'` and `"`.)
pub proof fn law_string_literal_decodes(s: Seq<char>, p: int, q: char, v: Seq<char>)
    requires
        q == '\'' || q == '"',
        0 <= p,
        p + escape_text(v, q).len() + 2 <= s.len(),
        s.subrange(p, p + escape_text(v, q).len() + 2) == seq![q] + escape_text(v, q) + seq![q],
    ensures
        str_body(s, p + 1, q) == Some((v, p + escape_text(v, q).len() + 2)),
{
    let w = escape_text(v, q);
    let n: int = w.len() as int;
    assert(s.subrange(p + 1, p + n + 2) =~= w + seq![q]) by {
        assert forall|i: int| 0 <= i < n + 1 implies #[trigger] s.subrange(p + 1, p + n + 2)[i] == (w + seq![q])[i] by {
            assert(s[p + 1 + i] == s.subrange(p, p + n + 2)[i + 1]);
        }
    }
    lemma_escaped_body(s, p + 1, q, v);
}

/// The escaped text of `v` followed by the quote, from index `j`, is a literal's rest whose
/// value is `v`.
proof fn lemma_escaped_body(s: Seq<char>, j: int, q: char, v: Seq<char>)
    requires
        q == '\'' || q == '"',
        0 <= j,
        j + escape_text(v, q).len() + 1 <= s.len(),
        s.subrange(j, j + escape_text(v, q).len() + 1) == escape_text(v, q) + seq![q],
    ensures
        str_body(s, j, q) == Some((v, j + escape_text(v, q).len() + 1)),
    decreases v.len(),
{
    let w = escape_text(v, q);
    let n: int = w.len() as int;
    let t = s.subrange(j, j + n + 1);
    if v.len() == 0 {
        assert(t[0] == s[j]);
        assert(v =~= Seq::<char>::empty());
    } else {
        let c = v[0];
        let rest = v.drop_first();
        let wr = escape_text(rest, q);
        let h: int = if c == '\n' || c == '\t' || c == '\r' || c == '\\' || c == q { 2 } else { 1 };
        assert(n == h + wr.len());
        assert(t[0] == s[j]);
        assert(t[1] == s[j + 1]);
        assert(s.subrange(j + h, j + h + wr.len() + 1) =~= wr + seq![q]) by {
            assert forall|i: int| 0 <= i < wr.len() + 1 implies #[trigger] s.subrange(j + h, j + h + wr.len() + 1)[i]
                == (wr + seq![q])[i] by {
                assert(s[j + h + i] == t[h + i]);
            }
        }
        lemma_escaped_body(s, j + h, q, rest);
        if h == 2 {
            assert(seq![escaped_char(s[j + 1])] + rest =~= v);
        } else {
            assert(seq![s[j]] + rest =~= v);
        }
    }
}

/// A word: a letter or underscore followed by letters, digits and underscores.
pub open spec fn is_word(s: Seq<char>) -> bool {
    &&& s.len() > 0
    &&& is_alpha(s[0])
    &&& forall|i: int| 0 <= i < s.len() ==> is_alnum(#[trigger] s[i])
}

/// The token kind of a word: its keyword, or `Identifier`.
pub open spec fn word_type(s: Seq<char>) -> TokenType {
    match keyword_type(s) {
        Some(t) => t,
        None => TokenType::Identifier,
    }
}

/// The operator or punctuation kind that a text of one to four characters spells.
pub open spec fn op_type(s: Seq<char>) -> Option<TokenType> {
    if s.len() == 1 {
        simple_op(s[0])
    } else if s.len() == 2 {
        compound_op2(s[0], s[1])
    } else if s.len() == 3 {
        compound_op3(s[0], s[1], s[2])
    } else if s.len() == 4 {
        compound_op4(s[0], s[1], s[2], s[3])
    } else {
        None
    }
}

/// What holds of every token the lexer emits, by kind.
pub open spec fn lexed_token_ok(t: Token) -> bool {
    let v = t.value@;
    match t.token_type {
        TokenType::Eof => v.len() == 0,
        TokenType::Underscore => v == seq!['_'],
        TokenType::IntLiteral | TokenType::FloatLiteral | TokenType::BigIntLiteral => v.len() > 0
            && is_digit(v[0]),
        TokenType::StrLiteral | TokenType::TemplateStrPart => true,
        TokenType::TemplateStrStart | TokenType::TemplateStrEnd => v == seq!['`'],
        TokenType::TemplateInterpolationStart => v == seq!['$', '{'],
        TokenType::TemplateInterpolationEnd => v == seq!['}'],
        _ => (is_word(v) && word_type(v) == t.token_type) || op_type(v) == Some(t.token_type),
    }
}

/// Token lines are at least 1 and never decrease along the sequence.
pub open spec fn lines_ordered(toks: Seq<Token>) -> bool {
    &&& forall|i: int| 0 <= i < toks.len() ==> 1 <= #[trigger] toks[i].position.0
    &&& forall|i: int, j: int|
        0 <= i <= j < toks.len() ==> #[trigger] toks[i].position.0 <= #[trigger] toks[j].position.0
}

/// Every token from index `from` on is well-formed and is not `Eof`.
pub open spec fn body_tokens_ok(toks: Seq<Token>, from: int) -> bool {
    forall|i: int|
        from <= i < toks.len() ==> lexed_token_ok(#[trigger] toks[i]) && toks[i].token_type
            != TokenType::Eof
}

/// The message for a character that starts no token.
pub open spec fn unexpected_char_msg(c: char) -> Seq<char> {
    "Unexpected character: '"@.push(c).push('\'')
}

/// The message for a character that starts no token inside `${ }`.
pub open spec fn unexpected_interp_char_msg(c: char) -> Seq<char> {
    "Unexpected character in interpolation: '"@.push(c).push('\'')
}

/// The character at index `k`, or `'\0'` past the end.
pub open spec fn char_at(s: Seq<char>, k: int) -> char {
    if 0 <= k < s.len() { s[k] } else { '\0' }
}

/// The end of the run of letters, digits and underscores from `i`.
pub open spec fn word_end(s: Seq<char>, i: int) -> int
    decreases s.len() - i,
{
    if 0 <= i < s.len() && is_alnum(s[i]) { word_end(s, i + 1) } else { i }
}

/// The end of the run of digits and underscores from `i`.
pub open spec fn digit_run_end(s: Seq<char>, i: int) -> int
    decreases s.len() - i,
{
    if 0 <= i < s.len() && (is_digit(s[i]) || s[i] == '_') { digit_run_end(s, i + 1) } else { i }
}

/// A digit of the base that the prefix letter `p` names: `b` binary, `o` octal, `x` hex.
pub open spec fn radix_digit(p: char, c: char) -> bool {
    if p == 'b' || p == 'B' {
        c == '0' || c == '1'
    } else if p == 'o' || p == 'O' {
        '0' <= c && c <= '7'
    } else {
        is_hex_digit(c)
    }
}

/// The end of the run of digits of base `p` and `_` separators from `i`.
pub open spec fn radix_run_end(s: Seq<char>, i: int, p: char) -> int
    decreases s.len() - i,
{
    if 0 <= i < s.len() && (s[i] == '_' || radix_digit(p, s[i])) { radix_run_end(s, i + 1, p) } else { i }
}

/// The kind and end of the number that starts at `i`. With a `0b`, `0o` or `0x` prefix: the
/// digits of that base and `_` separators, then an optional `n` (`BigIntLiteral`). Otherwise
/// decimal digits and `_`, then a fraction (`FloatLiteral`) or a trailing `n`
/// (`BigIntLiteral`).
pub open spec fn decimal_number(s: Seq<char>, i: int) -> Option<(TokenType, int)> {
    if s[i] == '0' && i + 1 < s.len() && (s[i + 1] == 'b' || s[i + 1] == 'B' || s[i + 1] == 'o' || s[i + 1] == 'O'
        || s[i + 1] == 'x' || s[i + 1] == 'X') {
        let j = radix_run_end(s, i + 2, s[i + 1]);
        if char_at(s, j) == 'n' {
            Some((TokenType::BigIntLiteral, j + 1))
        } else {
            Some((TokenType::IntLiteral, j))
        }
    } else {
        let j = digit_run_end(s, i);
        if char_at(s, j) == '.' && is_digit(char_at(s, j + 1)) {
            Some((TokenType::FloatLiteral, digit_run_end(s, j + 1)))
        } else if char_at(s, j) == 'n' {
            Some((TokenType::BigIntLiteral, j + 1))
        } else {
            Some((TokenType::IntLiteral, j))
        }
    }
}

/// The operator that starts at `i`, longest first: its kind and length.
pub open spec fn operator_at(s: Seq<char>, i: int) -> Option<(TokenType, int)> {
    let (c, n, c2, c3) = (char_at(s, i), char_at(s, i + 1), char_at(s, i + 2), char_at(s, i + 3));
    if compound_op4(c, n, c2, c3) is Some {
        Some((compound_op4(c, n, c2, c3)->Some_0, 4))
    } else if compound_op3(c, n, c2) is Some {
        Some((compound_op3(c, n, c2)->Some_0, 3))
    } else if compound_op2(c, n) is Some {
        Some((compound_op2(c, n)->Some_0, 2))
    } else if simple_op(c) is Some {
        Some((simple_op(c)->Some_0, 1))
    } else {
        None
    }
}

/// A token in the model of the lexer: its kind, its text, and its line and column.
pub type TokenShape = (TokenType, Seq<char>, (int, int));

/// The line and column of index `i` of `s`, both counted from 1: a line break moves to the
/// start of the next line, any other character one column on.
pub open spec fn line_col(s: Seq<char>, i: int) -> (int, int)
    decreases i,
{
    if i <= 0 || i > s.len() {
        (1, 1)
    } else {
        let lc = line_col(s, i - 1);
        if s[i - 1] == '\n' { (lc.0 + 1, 1) } else { (lc.0, lc.1 + 1) }
    }
}

/// Over a stretch without line breaks the column grows by one per character.
pub proof fn lemma_line_col_run(s: Seq<char>, k: int, e: int)
    requires
        0 <= k <= e <= s.len(),
        forall|i: int| k <= i < e ==> #[trigger] s[i] != '\n',
    ensures
        line_col(s, e) == (line_col(s, k).0, line_col(s, k).1 + (e - k)),
    decreases e - k,
{
    if k < e {
        lemma_line_col_run(s, k, e - 1);
        assert(s[e - 1] != '\n');
    }
}

proof fn lemma_word_no_newline(s: Seq<char>, k: int)
    requires
        0 <= k <= s.len(),
    ensures
        k <= word_end(s, k) <= s.len(),
        forall|i: int| k <= i < word_end(s, k) ==> #[trigger] s[i] != '\n',
    decreases s.len() - k,
{
    if k < s.len() && is_alnum(s[k]) {
        lemma_word_no_newline(s, k + 1);
    }
}

proof fn lemma_digits_no_newline(s: Seq<char>, k: int)
    requires
        0 <= k <= s.len(),
    ensures
        k <= digit_run_end(s, k) <= s.len(),
        forall|i: int| k <= i < digit_run_end(s, k) ==> #[trigger] s[i] != '\n',
    decreases s.len() - k,
{
    if k < s.len() && (is_digit(s[k]) || s[k] == '_') {
        lemma_digits_no_newline(s, k + 1);
    }
}

proof fn lemma_radix_no_newline(s: Seq<char>, k: int, p: char)
    requires
        0 <= k <= s.len(),
    ensures
        k <= radix_run_end(s, k, p) <= s.len(),
        forall|i: int| k <= i < radix_run_end(s, k, p) ==> #[trigger] s[i] != '\n',
    decreases s.len() - k,
{
    if k < s.len() && (s[k] == '_' || radix_digit(p, s[k])) {
        lemma_radix_no_newline(s, k + 1, p);
    }
}

/// A number holds no line break.
proof fn lemma_number_no_newline(s: Seq<char>, k: int)
    requires
        0 <= k < s.len(),
        is_digit(s[k]),
    ensures
        decimal_number(s, k) matches Some((t, e)) ==> k < e <= s.len()
            && forall|i: int| k <= i < e ==> #[trigger] s[i] != '\n',
{
    if s[k] == '0' && k + 1 < s.len() && (s[k + 1] == 'b' || s[k + 1] == 'B' || s[k + 1] == 'o' || s[k + 1] == 'O'
        || s[k + 1] == 'x' || s[k + 1] == 'X') {
        lemma_radix_no_newline(s, k + 2, s[k + 1]);
        let j = radix_run_end(s, k + 2, s[k + 1]);
        let (t, e) = decimal_number(s, k)->Some_0;
        assert forall|i: int| k <= i < e implies #[trigger] s[i] != '\n' by {
            if i == k + 1 {
            } else if i == j {
                assert(char_at(s, j) == 'n');
            }
        }
    } else {
        lemma_digits_no_newline(s, k);
        lemma_digits_no_newline(s, k + 1);
        let j = digit_run_end(s, k);
        assert(j > k);
        if char_at(s, j) == '.' && is_digit(char_at(s, j + 1)) {
            lemma_digits_no_newline(s, j + 1);
            let e = digit_run_end(s, j + 1);
            assert forall|i: int| k <= i < e implies #[trigger] s[i] != '\n' by {
                if i == j {
                    assert(char_at(s, j) == '.');
                }
            }
        } else if char_at(s, j) == 'n' {
            assert forall|i: int| k <= i < j + 1 implies #[trigger] s[i] != '\n' by {
                if i == j {
                    assert(char_at(s, j) == 'n');
                }
            }
        }
    }
}

/// What lexing a source from some index gives: the tokens up to the end (without the final
/// `Eof`); the index of the first character that starts no token; or `Open` where the rest
/// holds a string, a comment, or a template that `tpl_from` does not describe, which this
/// model leaves open.
pub enum Lexed {
    Tokens(Seq<TokenShape>),
    FailAt(int),
    Open,
}

/// `t` put before what lexing gives.
pub open spec fn lexed_after(t: Seq<TokenShape>, l: Lexed) -> Lexed {
    match l {
        Lexed::Tokens(rest) => Lexed::Tokens(t + rest),
        other => other,
    }
}

/// Lexing `s` from index `i`: spaces, tabs, carriage returns and line breaks are skipped; a template
/// gives its start, parts, interpolations and end; `_` alone is an underscore; a word is a
/// keyword or a name; a number, decimal or with a base prefix; the longest operator; any
/// other character fails where it stands.
pub open spec fn lex_from(s: Seq<char>, i: int) -> Lexed
    decreases s.len() - i,
{
    if i < 0 || i >= s.len() {
        Lexed::Tokens(Seq::empty())
    } else {
        let c = s[i];
        let n = char_at(s, i + 1);
        if c == ' ' || c == '\t' || c == '\r' || c == '\n' {
            lex_from(s, i + 1)
        } else if c == '`' {
            match tpl_from(s, i + 1, i + 1) {
                Some((ts, e)) => if i < e <= s.len() {
                    lexed_after(seq![(TokenType::TemplateStrStart, seq!['`'], line_col(s, i))] + ts, lex_from(s, e))
                } else {
                    Lexed::Open
                },
                None => Lexed::Open,
            }
        } else if c == '/' && n == '/' {
            let e = line_end(s, i);
            if i < e <= s.len() { lex_from(s, e) } else { Lexed::Open }
        } else if c == '/' && n == '*' {
            let e = block_end(s, i + 2);
            if i < e <= s.len() { lex_from(s, e) } else { Lexed::Open }
        } else if c == '\'' || c == '"' {
            Lexed::Open
        } else if c == '_' && !is_alnum(n) {
            lexed_after(seq![(TokenType::Underscore, seq!['_'], line_col(s, i))], lex_from(s, i + 1))
        } else if is_alpha(c) {
            let e = word_end(s, i);
            if i < e <= s.len() {
                lexed_after(seq![(word_type(s.subrange(i, e)), s.subrange(i, e), line_col(s, i))], lex_from(s, e))
            } else {
                Lexed::Open
            }
        } else if is_digit(c) {
            match decimal_number(s, i) {
                Some((k, e)) => if i < e <= s.len() {
                    lexed_after(seq![(k, s.subrange(i, e), line_col(s, i))], lex_from(s, e))
                } else {
                    Lexed::Open
                },
                None => Lexed::Open,
            }
        } else {
            match operator_at(s, i) {
                Some((k, len)) => if 0 < len && i + len <= s.len() {
                    lexed_after(seq![(k, s.subrange(i, i + len), line_col(s, i))], lex_from(s, i + len))
                } else {
                    Lexed::Open
                },
                None => Lexed::FailAt(i),
            }
        }
    }
}

/// The end of a line comment from `i`: the next line break, or the end of the text.
pub open spec fn line_end(s: Seq<char>, i: int) -> int
    decreases s.len() - i,
{
    if 0 <= i < s.len() && s[i] != '\n' { line_end(s, i + 1) } else { i }
}

/// The end of a block comment whose text starts at `k`: just past the next `*/`, or the end
/// of the text.
pub open spec fn block_end(s: Seq<char>, k: int) -> int
    decreases s.len() - k,
{
    if k < 0 || k >= s.len() {
        s.len() as int
    } else if s[k] == '*' && char_at(s, k + 1) == '/' {
        k + 2
    } else {
        block_end(s, k + 1)
    }
}

proof fn lemma_line_end(s: Seq<char>, i: int)
    requires
        0 <= i <= s.len(),
    ensures
        i <= line_end(s, i) <= s.len(),
        forall|k: int| i <= k < line_end(s, i) ==> #[trigger] s[k] != '\n',
    decreases s.len() - i,
{
    if i < s.len() && s[i] != '\n' {
        lemma_line_end(s, i + 1);
    }
}

proof fn lemma_block_end(s: Seq<char>, k: int)
    requires
        0 <= k,
    ensures
        k <= block_end(s, k) <= s.len() || (k > s.len() && block_end(s, k) == s.len()),
    decreases s.len() - k,
{
    if k < s.len() && !(s[k] == '*' && char_at(s, k + 1) == '/') {
        lemma_block_end(s, k + 1);
    }
}

/// A comment is skipped.
proof fn lemma_comment_lex(s: Seq<char>, i: int)
    requires
        0 <= i < s.len(),
        s[i] == '/',
        char_at(s, i + 1) == '/' || char_at(s, i + 1) == '*',
    ensures
        char_at(s, i + 1) == '/' ==> lex_from(s, i) == lex_from(s, line_end(s, i)),
        char_at(s, i + 1) == '*' ==> lex_from(s, i) == lex_from(s, block_end(s, i + 2)),
{
    lemma_line_end(s, i);
    lemma_line_end(s, i + 1);
    lemma_block_end(s, i + 2);
}

/// A shape put before what a partial lex gives, where it gives something.
pub open spec fn shape_before(shape: TokenShape, o: Option<(Seq<TokenShape>, int)>) -> Option<(Seq<TokenShape>, int)> {
    match o {
        Some((ts, e)) => Some((seq![shape] + ts, e)),
        None => None,
    }
}

/// Shapes put before what a partial lex gives, where it gives something.
pub open spec fn shapes_before(pre: Seq<TokenShape>, o: Option<(Seq<TokenShape>, int)>) -> Option<(Seq<TokenShape>, int)> {
    match o {
        Some((ts, e)) => Some((pre + ts, e)),
        None => None,
    }
}

/// The tokens of a template interpolation from `k` on, and the index of the `}` that closes
/// it: spaces, tabs and carriage returns are skipped; words, numbers and operators of one or
/// two characters are tokens. `None` where the interpolation holds a line break, other white
/// space, a string, a brace or a character that starts no token, or is not closed.
pub open spec fn interp_from(s: Seq<char>, k: int) -> Option<(Seq<TokenShape>, int)>
    decreases s.len() - k,
{
    if k < 0 || k >= s.len() {
        None
    } else {
        let c = s[k];
        let n = char_at(s, k + 1);
        if c == ' ' || c == '\t' || c == '\r' {
            interp_from(s, k + 1)
        } else if is_unicode_whitespace(c) || c == '\'' || c == '"' || c == '{' {
            None
        } else if c == '}' {
            Some((Seq::empty(), k))
        } else if is_alpha(c) {
            let e = word_end(s, k);
            if k < e <= s.len() {
                shape_before((word_type(s.subrange(k, e)), s.subrange(k, e), line_col(s, k)), interp_from(s, e))
            } else {
                None
            }
        } else if is_digit(c) {
            match decimal_number(s, k) {
                Some((t, e)) => if k < e <= s.len() {
                    shape_before((t, s.subrange(k, e), line_col(s, k)), interp_from(s, e))
                } else {
                    None
                },
                None => None,
            }
        } else {
            match compound_op2(c, n) {
                Some(t) => if k + 2 <= s.len() {
                    shape_before((t, s.subrange(k, k + 2), line_col(s, k)), interp_from(s, k + 2))
                } else {
                    None
                },
                None => match simple_op(c) {
                    Some(t) => shape_before((t, seq![c], line_col(s, k)), interp_from(s, k + 1)),
                    None => None,
                },
            }
        }
    }
}

/// The literal text `s[a..j]` of a template as a part token, placed where the lexer places
/// it: its byte length before `j`.
pub open spec fn text_part(s: Seq<char>, a: int, j: int) -> Seq<TokenShape> {
    if a < j {
        let v = s.subrange(a, j);
        let bl = (vstd::utf8::encode_utf8(v).len() as usize) as int;
        let lc = line_col(s, j);
        seq![(TokenType::TemplateStrPart, v, (lc.0, if lc.1 >= bl { lc.1 - bl } else { 0 }))]
    } else {
        Seq::empty()
    }
}

/// The tokens of the rest of a template from `j`, whose current literal text began at `a`,
/// and the index just past its closing backquote: literal text, interpolations between `${`
/// and `}`, and the closing backquote. `None` where the template holds a backslash or a line
/// break, an interpolation that `interp_from` does not describe, or is not closed.
pub open spec fn tpl_from(s: Seq<char>, j: int, a: int) -> Option<(Seq<TokenShape>, int)>
    decreases s.len() - j,
{
    if j < 0 || j >= s.len() {
        None
    } else if s[j] == '`' {
        Some((text_part(s, a, j).push((TokenType::TemplateStrEnd, seq!['`'], line_col(s, j))), j + 1))
    } else if s[j] == '$' && char_at(s, j + 1) == '{' {
        match interp_from(s, j + 2) {
            Some((ts, e)) => if j < e < s.len() {
                shapes_before(
                    text_part(s, a, j) + seq![(TokenType::TemplateInterpolationStart, seq!['$', '{'], line_col(s, j))] + ts
                        + seq![(TokenType::TemplateInterpolationEnd, seq!['}'], line_col(s, e))],
                    tpl_from(s, e + 1, e + 1),
                )
            } else {
                None
            },
            None => None,
        }
    } else if s[j] == '\\' || s[j] == '\n' {
        None
    } else {
        tpl_from(s, j + 1, a)
    }
}

proof fn lemma_interp_bounds(s: Seq<char>, k: int)
    ensures
        interp_from(s, k) matches Some((ts, e)) ==> 0 <= k <= e < s.len() && s[e] == '}',
    decreases s.len() - k,
{
    if 0 <= k < s.len() {
        let c = s[k];
        if c == ' ' || c == '\t' || c == '\r' {
            lemma_interp_bounds(s, k + 1);
        } else if is_alpha(c) {
            let e = word_end(s, k);
            if k < e <= s.len() {
                lemma_interp_bounds(s, e);
            }
        } else if is_digit(c) {
            if let Some((t, e)) = decimal_number(s, k) {
                if k < e <= s.len() {
                    lemma_interp_bounds(s, e);
                }
            }
        } else {
            if k + 2 <= s.len() {
                lemma_interp_bounds(s, k + 2);
            }
            lemma_interp_bounds(s, k + 1);
        }
    }
}

proof fn lemma_tpl_bounds(s: Seq<char>, j: int, a: int)
    ensures
        tpl_from(s, j, a) matches Some((ts, e)) ==> 0 <= j < e <= s.len(),
    decreases s.len() - j,
{
    if 0 <= j < s.len() {
        if s[j] == '$' && char_at(s, j + 1) == '{' {
            if let Some((ts, e)) = interp_from(s, j + 2) {
                if j < e < s.len() {
                    lemma_tpl_bounds(s, e + 1, e + 1);
                }
            }
        } else if s[j] != '`' {
            lemma_tpl_bounds(s, j + 1, a);
        }
    }
}

/// Skipping a run of blanks inside an interpolation that the model describes passes no line
/// break and leaves the rest of the interpolation as it was.
proof fn lemma_interp_skip(s: Seq<char>, k: int, k2: int)
    requires
        0 <= k <= k2 <= s.len(),
        forall|i: int| k <= i < k2 ==> is_line_space(#[trigger] s[i]),
        interp_from(s, k) is Some,
    ensures
        forall|i: int| k <= i < k2 ==> #[trigger] s[i] != '\n',
        interp_from(s, k) == interp_from(s, k2),
    decreases k2 - k,
{
    if k < k2 {
        assert(is_line_space(s[k]));
        assert(is_unicode_whitespace('\n'));
        lemma_interp_skip(s, k + 1, k2);
    }
}

/// Tokens put before tokens put before what lexing gives.
pub proof fn lemma_lexed_after_assoc(a: Seq<TokenShape>, b: Seq<TokenShape>, l: Lexed)
    ensures
        lexed_after(a, lexed_after(b, l)) == lexed_after(a + b, l),
{
    if let Lexed::Tokens(t) = l {
        assert(a + (b + t) =~= (a + b) + t);
    }
}

/// The shape of a token.
pub open spec fn shape_of(t: Token) -> TokenShape {
    (t.token_type, t.value@, (t.position.0 as int, t.position.1 as int))
}

/// The tokens have the shapes, in order.
pub open spec fn shapes_placed(ts: Seq<Token>, shapes: Seq<TokenShape>) -> bool {
    &&& ts.len() == shapes.len()
    &&& forall|k: int| 0 <= k < ts.len() ==> shape_of(#[trigger] ts[k]) == shapes[k]
}

/// The messages that the lexer can fail with.
pub open spec fn lex_error_msg(m: Seq<char>) -> bool {
    ||| exists|c: char| m == unexpected_char_msg(c)
    ||| exists|c: char| m == unexpected_interp_char_msg(c)
    ||| m == "Unterminated string"@
    ||| m == "Unterminated template string"@
    ||| m == LEX_FAULT_MSG@
}

/// The message reported where the input ends inside a template interpolation or right
/// after a backslash in a string or template, or where a whitespace character other than
/// space, tab, carriage return or newline stands inside a template interpolation.
pub const LEX_FAULT_MSG: &'static str = "Malformed template or escape at end of input";


pub struct Lexer {
    source: Vec<char>,
    file: Option<String>,
    tokens: Vec<Token>,
    position: usize,
    line: usize,
    column: usize,
}

impl Lexer {
    /// The internal invariant of a lexer.
    pub closed spec fn wf(&self) -> bool {
        &&& self.source@.len() <= isize::MAX
        &&& self.position <= self.source@.len()
        &&& 1 <= self.line <= self.position + 1
        &&& 1 <= self.column <= self.position + 1
        &&& lines_ordered(self.tokens@)
        &&& forall|i: int| 0 <= i < self.tokens@.len() ==> #[trigger] self.tokens@[i].position.0 <= self.line
    }

    pub closed spec fn source_view(&self) -> Seq<char> {
        self.source@
    }

    pub closed spec fn tokens_view(&self) -> Seq<Token> {
        self.tokens@
    }

    pub closed spec fn file_view(&self) -> Option<String> {
        self.file
    }

    /// Nothing read yet: the cursor on the first character, at line 1, column 1.
    pub closed spec fn at_start(&self) -> bool {
        self.position == 0 && self.line == 1 && self.column == 1
    }

    /// From the start `s0` of a source that the model describes, `self` has read up to its
    /// cursor, stands on the cursor's line and column, and emitted tokens of the shapes
    /// `emitted`, which lexing the rest continues.
    spec fn lex_track(&self, s0: &Lexer, emitted: Seq<TokenShape>) -> bool {
        s0.at_start() && !(lex_from(s0.source@, 0) is Open) ==> {
            &&& (self.line as int, self.column as int) == line_col(s0.source@, self.position as int)
            &&& self.tokens@.len() >= s0.tokens@.len()
            &&& shapes_placed(self.tokens@.subrange(s0.tokens@.len() as int, self.tokens@.len() as int), emitted)
            &&& lex_from(s0.source@, 0) == lexed_after(emitted, lex_from(s0.source@, self.position as int))
        }
    }

    proof fn lemma_track_same(s0: &Lexer, b: &Lexer, a: &Lexer, emitted: Seq<TokenShape>)
        requires
            b.lex_track(s0, emitted),
            b.same_input(s0),
            a.same_input(s0),
            a.tokens@ == b.tokens@,
            lex_from(s0.source@, b.position as int) is Open || (lex_from(s0.source@, b.position as int) == lex_from(
                s0.source@,
                a.position as int,
            ) && ((b.line as int, b.column as int) == line_col(s0.source@, b.position as int) ==> (
                a.line as int, a.column as int) == line_col(s0.source@, a.position as int))),
        ensures
            a.lex_track(s0, emitted),
    {
    }

    /// Where lexing the rest is open, so is lexing the whole source.
    proof fn lemma_track_open(s0: &Lexer, b: &Lexer, a: &Lexer, emitted: Seq<TokenShape>, e2: Seq<TokenShape>)
        requires
            b.lex_track(s0, emitted),
            lex_from(s0.source@, b.position as int) is Open,
        ensures
            a.lex_track(s0, e2),
            s0.at_start() ==> lex_from(s0.source@, 0) is Open,
    {
    }

    proof fn lemma_track_append(s0: &Lexer, b: &Lexer, a: &Lexer, emitted: Seq<TokenShape>, shapes: Seq<TokenShape>)
        requires
            b.lex_track(s0, emitted),
            b.same_input(s0),
            a.same_input(s0),
            a.tokens@.len() >= b.tokens@.len(),
            a.tokens@.subrange(0, b.tokens@.len() as int) == b.tokens@,
            s0.at_start() && !(lex_from(s0.source@, 0) is Open) ==> {
                &&& lex_from(s0.source@, b.position as int) == lexed_after(shapes, lex_from(s0.source@, a.position as int))
                &&& (a.line as int, a.column as int) == line_col(s0.source@, a.position as int)
                &&& shapes_placed(a.tokens@.subrange(b.tokens@.len() as int, a.tokens@.len() as int), shapes)
            },
        ensures
            a.lex_track(s0, emitted + shapes),
    {
        if s0.at_start() && !(lex_from(s0.source@, 0) is Open) {
            let n0 = s0.tokens@.len() as int;
            let nb = b.tokens@.len() as int;
            let sub_b = b.tokens@.subrange(n0, nb);
            let sub_n = a.tokens@.subrange(nb, a.tokens@.len() as int);
            let sub_a = a.tokens@.subrange(n0, a.tokens@.len() as int);
            assert(sub_a =~= sub_b + sub_n);
            assert forall|k: int| 0 <= k < sub_a.len() implies shape_of(#[trigger] sub_a[k])
                == (emitted + shapes)[k] by {
                if k < sub_b.len() {
                    assert(sub_a[k] == sub_b[k]);
                } else {
                    assert(sub_a[k] == sub_n[k - sub_b.len()]);
                }
            }
            lemma_lexed_after_assoc(emitted, shapes, lex_from(s0.source@, a.position as int));
        }
    }

    proof fn lemma_track_push(s0: &Lexer, b: &Lexer, a: &Lexer, emitted: Seq<TokenShape>, shape: TokenShape)
        requires
            b.lex_track(s0, emitted),
            b.same_input(s0),
            a.same_input(s0),
            s0.at_start() && !(lex_from(s0.source@, 0) is Open) ==> {
                &&& lex_from(s0.source@, b.position as int) == lexed_after(seq![shape], lex_from(s0.source@, a.position as int))
                &&& (a.line as int, a.column as int) == line_col(s0.source@, a.position as int)
                &&& a.tokens@ == b.tokens@.push(a.tokens@.last())
                &&& shape_of(a.tokens@.last()) == shape
            },
        ensures
            a.lex_track(s0, emitted.push(shape)),
    {
        if s0.at_start() && !(lex_from(s0.source@, 0) is Open) {
            let n0 = s0.tokens@.len() as int;
            let sub_b = b.tokens@.subrange(n0, b.tokens@.len() as int);
            let sub_a = a.tokens@.subrange(n0, a.tokens@.len() as int);
            assert(sub_a =~= sub_b.push(a.tokens@.last()));
            assert forall|k: int| 0 <= k < sub_a.len() implies shape_of(#[trigger] sub_a[k])
                == emitted.push(shape)[k] by {
                if k < sub_b.len() {
                    assert(sub_a[k] == sub_b[k]);
                }
            }
            lemma_lexed_after_assoc(emitted, seq![shape], lex_from(s0.source@, a.position as int));
            assert(emitted + seq![shape] =~= emitted.push(shape));
        }
    }

    spec fn same_input(&self, other: &Lexer) -> bool {
        &&& self.source@ == other.source@
        &&& self.file == other.file
    }

    spec fn extends(&self, other: &Lexer) -> bool {
        &&& self.same_input(other)
        &&& self.position >= other.position
        &&& self.line >= other.line
        &&& self.tokens@.len() >= other.tokens@.len()
        &&& self.tokens@.subrange(0, other.tokens@.len() as int) == other.tokens@
        &&& body_tokens_ok(self.tokens@, other.tokens@.len() as int)
    }

    pub fn new(source: String, file: Option<String>) -> (lx: Lexer)
        requires
            source@.len() <= isize::MAX,
        ensures
            lx.wf(),
            lx.at_start(),
            lx.source_view() == source@,
            lx.tokens_view().len() == 0,
            lx.file_view() == file,
    {
        Lexer { source: chars_of(source.as_str()), file, tokens: Vec::new(), position: 0, line: 1, column: 1 }
    }

    fn is_at_end(&self) -> (b: bool)
        ensures
            b == (self.position >= self.source@.len()),
    {
        self.position >= self.source.len()
    }

    fn peek(&self) -> (c: char)
        ensures
            c == (if self.position >= self.source@.len() { '\0' } else { self.source@[self.position as int] }),
    {
        if self.is_at_end() {
            '\0'
        } else {
            self.source[self.position]
        }
    }

    fn peek_ahead(&self, offset: usize) -> (c: char)
        requires
            self.position <= self.source@.len() <= isize::MAX,
            offset <= 4,
        ensures
            c == (if self.position + offset >= self.source@.len() { '\0' } else { self.source@[self.position + offset] }),
    {
        if self.position + offset >= self.source.len() {
            '\0'
        } else {
            self.source[self.position + offset]
        }
    }

    fn peek_next(&self) -> (c: char)
        requires
            self.position <= self.source@.len() <= isize::MAX,
        ensures
            c == (if self.position + 1 >= self.source@.len() { '\0' } else { self.source@[self.position + 1] }),
    {
        self.peek_ahead(1)
    }

    fn advance(&mut self) -> (c: char)
        requires
            old(self).wf(),
            old(self).position < old(self).source@.len(),
        ensures
            final(self).wf(),
            c == old(self).source@[old(self).position as int],
            final(self).position == old(self).position + 1,
            final(self).column == old(self).column + 1,
            final(self).line == old(self).line,
            final(self).tokens@ == old(self).tokens@,
            final(self).same_input(old(self)),
    {
        let c = self.source[self.position];
        self.position = self.position + 1;
        self.column = self.column + 1;
        c
    }

    /// Steps over a newline character without counting it as a column.
    fn newline(&mut self)
        requires
            old(self).wf(),
            old(self).position < old(self).source@.len(),
        ensures
            final(self).wf(),
            final(self).position == old(self).position + 1,
            final(self).column == 1,
            final(self).line == old(self).line + 1,
            final(self).tokens@ == old(self).tokens@,
            final(self).same_input(old(self)),
    {
        self.line = self.line + 1;
        self.column = 1;
        self.position = self.position + 1;
    }

    fn add_token(&mut self, token_type: TokenType, value: String, start_pos: Position)
        requires
            old(self).wf(),
            1 <= start_pos.0 <= old(self).line,
            forall|i: int| 0 <= i < old(self).tokens@.len() ==> #[trigger] old(self).tokens@[i].position.0 <= start_pos.0,
        ensures
            final(self).wf(),
            final(self).tokens@ == old(self).tokens@.push(Token { token_type, value, position: start_pos }),
            final(self).position == old(self).position,
            final(self).line == old(self).line,
            final(self).column == old(self).column,
            final(self).same_input(old(self)),
    {
        let ghost t0 = self.tokens@;
        self.tokens.push(Token::new(token_type, value, start_pos));
        proof {
            let t1 = self.tokens@;
            assert(t1.len() == t0.len() + 1);
            assert forall|i: int| 0 <= i < t1.len() implies 1 <= #[trigger] t1[i].position.0 && t1[i].position.0 <= self.line by {
                if i < t0.len() {
                    assert(t1[i] == t0[i]);
                }
            }
            assert forall|i: int, j: int| 0 <= i <= j < t1.len() implies #[trigger] t1[i].position.0 <= #[trigger] t1[j].position.0 by {
                if j < t0.len() {
                    assert(t1[i] == t0[i]);
                    assert(t1[j] == t0[j]);
                } else if i < t0.len() {
                    assert(t1[i] == t0[i]);
                    assert(t1[j].position.0 == start_pos.0);
                    assert(t0[i].position.0 <= start_pos.0);
                } else {
                    assert(i == j);
                }
            }
        }
    }
}


impl Lexer {
    proof fn lemma_extends_trans(a: &Lexer, b: &Lexer, c: &Lexer)
        requires
            b.extends(a),
            c.extends(b),
        ensures
            c.extends(a),
    {
        let la = a.tokens@.len() as int;
        let lb = b.tokens@.len() as int;
        assert(c.tokens@.subrange(0, la) =~= a.tokens@) by {
            assert forall|i: int| 0 <= i < la implies c.tokens@.subrange(0, la)[i] == a.tokens@[i] by {
                assert(c.tokens@.subrange(0, lb)[i] == b.tokens@[i]);
                assert(b.tokens@.subrange(0, la)[i] == a.tokens@[i]);
            }
        }
        assert forall|i: int| la <= i < c.tokens@.len() implies lexed_token_ok(#[trigger] c.tokens@[i])
            && c.tokens@[i].token_type != TokenType::Eof by {
            if i < lb {
                assert(c.tokens@.subrange(0, lb)[i] == b.tokens@[i]);
            }
        }
    }

    proof fn lemma_extends_same_tokens(a: &Lexer, b: &Lexer)
        requires
            b.same_input(a),
            b.tokens@ == a.tokens@,
            b.position >= a.position,
            b.line >= a.line,
        ensures
            b.extends(a),
    {
        assert(b.tokens@.subrange(0, a.tokens@.len() as int) =~= a.tokens@);
    }

    proof fn lemma_extends_refl(a: &Lexer)
        ensures
            a.extends(a),
    {
        assert(a.tokens@.subrange(0, a.tokens@.len() as int) =~= a.tokens@);
    }

    fn skip_whitespace(&mut self)
        requires
            old(self).wf(),
        ensures
            final(self).wf(),
            final(self).tokens@ == old(self).tokens@,
            final(self).same_input(old(self)),
            final(self).position >= old(self).position,
            final(self).line >= old(self).line,
            final(self).position < final(self).source@.len() ==> !is_line_space(
                final(self).source@[final(self).position as int],
            ),
            old(self).position < old(self).source@.len() && is_line_space(
                old(self).source@[old(self).position as int],
            ) ==> final(self).position > old(self).position,
            forall|i: int| old(self).position <= i < final(self).position ==> is_line_space(#[trigger] final(self).source@[i]),
            (forall|i: int| old(self).position <= i < final(self).position ==> #[trigger] final(self).source@[i] != '\n')
                ==> final(self).line == old(self).line && final(self).column == old(self).column + (final(self).position
                - old(self).position),
            lex_from(old(self).source@, old(self).position as int) == lex_from(old(self).source@, final(self).position as int),
            (old(self).line as int, old(self).column as int) == line_col(old(self).source@, old(self).position as int)
                ==> (final(self).line as int, final(self).column as int) == line_col(final(self).source@, final(self).position as int),
    {
        let ghost s0 = *self;
        while !self.is_at_end()
            invariant
                self.wf(),
                self.tokens@ == s0.tokens@,
                self.same_input(&s0),
                self.position >= s0.position,
                self.line >= s0.line,
                lex_from(s0.source@, s0.position as int) == lex_from(self.source@, self.position as int),
                (s0.line as int, s0.column as int) == line_col(s0.source@, s0.position as int)
                    ==> (self.line as int, self.column as int) == line_col(self.source@, self.position as int),
                s0.position < s0.source@.len() && is_line_space(s0.source@[s0.position as int])
                    ==> (self.position > s0.position || self.position == s0.position),
                forall|i: int| s0.position <= i < self.position ==> is_line_space(#[trigger] self.source@[i]),
                (forall|i: int| s0.position <= i < self.position ==> #[trigger] self.source@[i] != '\n')
                    ==> self.line == s0.line && self.column == s0.column + (self.position - s0.position),
            ensures
                forall|i: int| s0.position <= i < self.position ==> is_line_space(#[trigger] self.source@[i]),
                (forall|i: int| s0.position <= i < self.position ==> #[trigger] self.source@[i] != '\n')
                    ==> self.line == s0.line && self.column == s0.column + (self.position - s0.position),
                self.wf(),
                self.position < self.source@.len() ==> !is_line_space(self.source@[self.position as int]),
                lex_from(s0.source@, s0.position as int) == lex_from(self.source@, self.position as int),
                (s0.line as int, s0.column as int) == line_col(s0.source@, s0.position as int)
                    ==> (self.line as int, self.column as int) == line_col(self.source@, self.position as int),
                s0.position < s0.source@.len() && is_line_space(s0.source@[s0.position as int])
                    ==> self.position > s0.position,
                self.tokens@ == s0.tokens@,
                self.same_input(&s0),
                self.position >= s0.position,
                self.line >= s0.line,
            decreases self.source@.len() - self.position,
        {
            let c = self.peek();
            if c == ' ' || c == '\t' || c == '\r' {
                self.advance();
            } else if c == '\n' {
                self.newline();
            } else {
                break;
            }
        }
    }

    fn skip_line_comment(&mut self)
        requires
            old(self).wf(),
            old(self).position < old(self).source@.len(),
            old(self).source@[old(self).position as int] == '/',
        ensures
            final(self).wf(),
            final(self).tokens@ == old(self).tokens@,
            final(self).same_input(old(self)),
            final(self).position > old(self).position,
            final(self).line == old(self).line,
            final(self).position == line_end(old(self).source@, old(self).position as int),
            (old(self).line as int, old(self).column as int) == line_col(old(self).source@, old(self).position as int)
                ==> (final(self).line as int, final(self).column as int) == line_col(final(self).source@, final(self).position as int),
    {
        let ghost s0 = *self;
        while self.peek() != '\n' && !self.is_at_end()
            invariant
                self.wf(),
                self.tokens@ == s0.tokens@,
                self.same_input(&s0),
                self.position >= s0.position,
                self.position == s0.position ==> self.source@[self.position as int] == '/',
                self.line == s0.line,
                line_end(self.source@, self.position as int) == line_end(s0.source@, s0.position as int),
                (s0.line as int, s0.column as int) == line_col(s0.source@, s0.position as int)
                    ==> (self.line as int, self.column as int) == line_col(self.source@, self.position as int),
            decreases self.source@.len() - self.position,
        {
            self.advance();
        }
    }

    fn skip_block_comment(&mut self)
        requires
            old(self).wf(),
            old(self).position + 1 < old(self).source@.len(),
        ensures
            final(self).wf(),
            final(self).tokens@ == old(self).tokens@,
            final(self).same_input(old(self)),
            final(self).position > old(self).position,
            final(self).line >= old(self).line,
            old(self).source@[old(self).position as int] == '/' && old(self).source@[old(self).position + 1] == '*' ==> {
                &&& final(self).position == block_end(old(self).source@, old(self).position + 2)
                &&& (old(self).line as int, old(self).column as int) == line_col(old(self).source@, old(self).position as int)
                    ==> (final(self).line as int, final(self).column as int) == line_col(final(self).source@, final(self).position as int)
            },
    {
        let ghost s0 = *self;
        self.advance();
        self.advance();
        proof {
            if s0.source@[s0.position as int] == '/' && s0.source@[s0.position + 1] == '*' {
                lemma_line_col_run(s0.source@, s0.position as int, s0.position + 2);
            }
        }
        while !(self.peek() == '*' && self.peek_next() == '/') && !self.is_at_end()
            invariant
                self.wf(),
                self.tokens@ == s0.tokens@,
                self.same_input(&s0),
                self.position > s0.position,
                self.position >= s0.position + 2,
                self.line >= s0.line,
                block_end(self.source@, self.position as int) == block_end(s0.source@, s0.position + 2),
                s0.source@[s0.position as int] == '/' && s0.source@[s0.position + 1] == '*'
                    && (s0.line as int, s0.column as int) == line_col(s0.source@, s0.position as int)
                    ==> (self.line as int, self.column as int) == line_col(self.source@, self.position as int),
            decreases self.source@.len() - self.position,
        {
            if self.peek() == '\n' {
                self.newline();
            } else {
                self.advance();
            }
        }
        if !self.is_at_end() {
            let ghost q = self.position as int;
            self.advance();
            self.advance();
            proof {
                assert(block_end(self.source@, q) == q + 2);
                lemma_line_col_run(self.source@, q, q + 2);
            }
        }
    }

    fn get_escaped_char(&self, c: char) -> (r: char)
        ensures
            r == escaped_char(c),
    {
        if c == 'n' {
            '\n'
        } else if c == 't' {
            '\t'
        } else if c == 'r' {
            '\r'
        } else {
            c
        }
    }

    fn is_alpha(&self, c: char) -> (b: bool)
        ensures
            b == is_alpha(c),
    {
        ('a' <= c && c <= 'z') || ('A' <= c && c <= 'Z') || c == '_'
    }

    fn is_digit(&self, c: char) -> (b: bool)
        ensures
            b == is_digit(c),
    {
        '0' <= c && c <= '9'
    }

    fn is_alpha_numeric(&self, c: char) -> (b: bool)
        ensures
            b == is_alnum(c),
    {
        self.is_alpha(c) || self.is_digit(c)
    }

    fn is_hex_digit(&self, c: char) -> (b: bool)
        ensures
            b == is_hex_digit(c),
    {
        self.is_digit(c) || ('a' <= c && c <= 'f') || ('A' <= c && c <= 'F')
    }

    fn is_whitespace(&self, c: char) -> (b: bool)
        ensures
            b == is_unicode_whitespace(c),
    {
        c == '\t' || c == '\n' || c == '\u{0B}' || c == '\u{0C}' || c == '\r' || c == ' '
            || c == '\u{85}' || c == '\u{A0}' || c == '\u{1680}' || ('\u{2000}' <= c && c
            <= '\u{200A}') || c == '\u{2028}' || c == '\u{2029}' || c == '\u{202F}' || c
            == '\u{205F}' || c == '\u{3000}'
    }

    /// The characters of the source between two positions, as a string.
    fn text_between(&self, start: usize, end: usize) -> (s: String)
        requires
            start <= end <= self.source@.len(),
        ensures
            s@ == self.source@.subrange(start as int, end as int),
    {
        let mut s = String::new();
        let mut i = start;
        while i < end
            invariant
                start <= i <= end <= self.source@.len(),
                s@ == self.source@.subrange(start as int, i as int),
            decreases end - i,
        {
            push_char(&mut s, self.source[i]);
            assert(self.source@.subrange(start as int, i + 1) =~= self.source@.subrange(start as int, i as int).push(self.source@[i as int]));
            i = i + 1;
        }
        s
    }

    fn identifier(&mut self) -> (r: Result<(), RaccoonError>)
        requires
            old(self).wf(),
            old(self).position < old(self).source@.len(),
            is_alpha(old(self).source@[old(self).position as int]),
        ensures
            final(self).wf(),
            final(self).extends(old(self)),
            final(self).position > old(self).position,
            final(self).line == old(self).line,
            final(self).tokens@.len() == old(self).tokens@.len() + 1,
            r is Ok,
            final(self).position == word_end(old(self).source@, old(self).position as int),
            final(self).column == old(self).column + (final(self).position - old(self).position),
            final(self).tokens@.drop_last() == old(self).tokens@,
            final(self).tokens@.last().token_type == word_type(
                old(self).source@.subrange(old(self).position as int, final(self).position as int),
            ),
            final(self).tokens@.last().value@ == old(self).source@.subrange(
                old(self).position as int,
                final(self).position as int,
            ),
            final(self).tokens@.last().position == (old(self).line, old(self).column),
    {
        let ghost s0 = *self;
        let start = self.position;
        let start_pos = (self.line, self.column);
        while self.is_alpha_numeric(self.peek())
            invariant
                self.wf(),
                self.tokens@ == s0.tokens@,
                self.same_input(&s0),
                self.line == s0.line,
                start == s0.position,
                self.position >= start,
                forall|i: int| start <= i < self.position ==> is_alnum(#[trigger] self.source@[i]),
                self.column == s0.column + (self.position - start),
                word_end(self.source@, start as int) == word_end(self.source@, self.position as int),
            decreases self.source@.len() - self.position,
        {
            self.advance();
        }
        let text = self.text_between(start, self.position);
        let token_type = match lookup_keyword(text.as_str()) {
            Some(t) => t,
            None => TokenType::Identifier,
        };
        proof {
            assert(is_word(text@));
            assert(word_type(text@) == token_type);
        }
        self.add_token(token_type, text, start_pos);
        proof {
            assert(self.tokens@.subrange(0, s0.tokens@.len() as int) =~= s0.tokens@);
        }
        Ok(())
    }
}

impl Lexer {
    fn number(&mut self) -> (r: Result<(), RaccoonError>)
        requires
            old(self).wf(),
            old(self).position < old(self).source@.len(),
            is_digit(old(self).source@[old(self).position as int]),
        ensures
            final(self).wf(),
            final(self).extends(old(self)),
            final(self).position > old(self).position,
            final(self).line == old(self).line,
            final(self).tokens@.len() == old(self).tokens@.len() + 1,
            r is Ok,
            decimal_number(old(self).source@, old(self).position as int) matches Some((k, e)) ==> {
                &&& final(self).position == e
                &&& final(self).column == old(self).column + (e - old(self).position)
                &&& final(self).tokens@.drop_last() == old(self).tokens@
                &&& final(self).tokens@.last().token_type == k
                &&& final(self).tokens@.last().value@ == old(self).source@.subrange(old(self).position as int, e)
                &&& final(self).tokens@.last().position == (old(self).line, old(self).column)
            },
    {
        let ghost s0 = *self;
        let start = self.position;
        let start_pos = (self.line, self.column);
        let mut is_float = false;
        let mut is_bigint = false;

        if self.source[start] == '0' && self.position + 1 < self.source.len() {
            let next = self.source[self.position + 1];
            if next == 'b' || next == 'B' || next == 'o' || next == 'O' || next == 'x' || next == 'X' {
                self.advance();
                self.advance();
                while self.position < self.source.len()
                    invariant
                        self.wf(),
                        self.tokens@ == s0.tokens@,
                        self.same_input(&s0),
                        self.line == s0.line,
                        start == s0.position,
                        self.position >= start + 2,
                        next == self.source@[start + 1],
                        next == 'b' || next == 'B' || next == 'o' || next == 'O' || next == 'x' || next == 'X',
                        self.column == s0.column + (self.position - start),
                        radix_run_end(self.source@, start + 2, next) == radix_run_end(self.source@, self.position as int, next),
                    ensures
                        radix_run_end(self.source@, self.position as int, next) == self.position,
                    decreases self.source@.len() - self.position,
                {
                    let ch = self.peek();
                    if ch == '_' {
                        self.advance();
                        continue;
                    }
                    if (next == 'b' || next == 'B') && (ch == '0' || ch == '1') {
                        self.advance();
                    } else if (next == 'o' || next == 'O') && ch >= '0' && ch <= '7' {
                        self.advance();
                    } else if (next == 'x' || next == 'X') && self.is_hex_digit(ch) {
                        self.advance();
                    } else {
                        assert(ch == self.source@[self.position as int]);
                        assert(!radix_digit(next, ch));
                        break;
                    }
                }
                if self.peek() == 'n' {
                    is_bigint = true;
                    self.advance();
                }
                let text = self.text_between(start, self.position);
                let token_type = if is_bigint {
                    TokenType::BigIntLiteral
                } else {
                    TokenType::IntLiteral
                };
                self.add_token(token_type, text, start_pos);
                proof {
                    assert(self.tokens@.subrange(0, s0.tokens@.len() as int) =~= s0.tokens@);
                }
                return Ok(());
            }
        }

        while self.is_digit(self.peek()) || self.peek() == '_'
            invariant
                self.wf(),
                self.tokens@ == s0.tokens@,
                self.same_input(&s0),
                self.line == s0.line,
                start == s0.position,
                self.position >= start,
                self.column == s0.column + (self.position - start),
                digit_run_end(self.source@, start as int) == digit_run_end(self.source@, self.position as int),
            decreases self.source@.len() - self.position,
        {
            self.advance();
        }

        if self.peek() == '.' && self.is_digit(self.peek_next()) {
            is_float = true;
            self.advance();
            let ghost frac_start = self.position;
            while self.is_digit(self.peek()) || self.peek() == '_'
                invariant
                    self.wf(),
                    self.tokens@ == s0.tokens@,
                    self.same_input(&s0),
                    self.line == s0.line,
                    start == s0.position,
                    self.position > start,
                    self.position >= frac_start,
                    self.column == s0.column + (self.position - start),
                    digit_run_end(self.source@, frac_start as int) == digit_run_end(self.source@, self.position as int),
                decreases self.source@.len() - self.position,
            {
                self.advance();
            }
        }

        if self.peek() == 'n' && !is_float {
            is_bigint = true;
            self.advance();
        }

        let text = self.text_between(start, self.position);
        let token_type = if is_bigint {
            TokenType::BigIntLiteral
        } else if is_float {
            TokenType::FloatLiteral
        } else {
            TokenType::IntLiteral
        };
        self.add_token(token_type, text, start_pos);
        proof {
            assert(self.tokens@.subrange(0, s0.tokens@.len() as int) =~= s0.tokens@);
        }
        Ok(())
    }

    fn string(&mut self) -> (r: Result<(), RaccoonError>)
        requires
            old(self).wf(),
            old(self).position < old(self).source@.len(),
        ensures
            final(self).wf(),
            final(self).extends(old(self)),
            final(self).position > old(self).position,
            r is Ok ==> final(self).tokens@.len() == old(self).tokens@.len() + 1,
            r is Err ==> final(self).tokens@ == old(self).tokens@,
            r matches Err(e) ==> e.message@ == "Unterminated string"@ || e.message@ == LEX_FAULT_MSG@,
            match str_body(old(self).source@, old(self).position + 1, old(self).source@[old(self).position as int]) {
                Some((v, e)) => {
                    &&& r is Ok
                    &&& final(self).position == e
                    &&& final(self).tokens@.last().token_type == TokenType::StrLiteral
                    &&& final(self).tokens@.last().value@ == v
                    &&& final(self).tokens@.last().position == (old(self).line, old(self).column)
                },
                None => r is Err,
            },
    {
        let ghost s0 = *self;
        proof {
            Self::lemma_extends_refl(&s0);
        }
        let start_pos = (self.line, self.column);
        let quote = self.advance();
        let mut value = String::new();

        while self.peek() != quote && !self.is_at_end()
            invariant
                self.wf(),
                self.tokens@ == s0.tokens@,
                self.same_input(&s0),
                self.line >= s0.line,
                self.position > s0.position,
                start_pos.0 == s0.line,
                s0.wf(),
                s0.extends(&s0),
                s0 == *old(self),
                quote == s0.source@[s0.position as int],
                start_pos == (s0.line, s0.column),
                str_body(s0.source@, s0.position + 1, quote) == text_before(value@, str_body(
                    s0.source@,
                    self.position as int,
                    quote,
                )),
            decreases self.source@.len() - self.position,
        {
            let ghost p = self.position as int;
            let ghost v0 = value@;
            let ghost src = s0.source@;
            if self.peek() == '\\' {
                self.advance();
                if self.is_at_end() {
                    return Err(RaccoonError::new(LEX_FAULT_MSG, start_pos, self.file.clone()));
                }
                let e = self.get_escaped_char(self.peek());
                push_char(&mut value, e);
                self.advance();
                proof {
                    match str_body(src, p + 2, quote) {
                        Some((w, f)) => {
                            assert(v0 + (seq![e] + w) =~= value@ + w);
                        },
                        None => {},
                    }
                }
            } else if self.peek() == '\n' {
                let c = self.source[self.position];
                push_char(&mut value, c);
                self.newline();
                proof {
                    match str_body(src, p + 1, quote) {
                        Some((w, f)) => {
                            assert(v0 + (seq![c] + w) =~= value@ + w);
                        },
                        None => {},
                    }
                }
            } else {
                let c = self.advance();
                push_char(&mut value, c);
                proof {
                    match str_body(src, p + 1, quote) {
                        Some((w, f)) => {
                            assert(v0 + (seq![c] + w) =~= value@ + w);
                        },
                        None => {},
                    }
                }
            }
        }
        proof {
            if self.position < self.source@.len() {
                assert(value@ + Seq::<char>::empty() =~= value@);
            }
        }

        if self.is_at_end() {
            return Err(RaccoonError::new("Unterminated string", start_pos, self.file.clone()));
        }

        self.advance();
        self.add_token(TokenType::StrLiteral, value, start_pos);
        proof {
            assert(self.tokens@.subrange(0, s0.tokens@.len() as int) =~= s0.tokens@);
        }
        Ok(())
    }
}

/// A one-character string.
fn char_string(c: char) -> (s: String)
    ensures
        s@ == seq![c],
{
    let mut s = String::new();
    push_char(&mut s, c);
    s
}

/// A two-character string.
fn char_string2(a: char, b: char) -> (s: String)
    ensures
        s@ == seq![a, b],
{
    let mut s = String::new();
    push_char(&mut s, a);
    push_char(&mut s, b);
    s
}

/// A message made of a prefix, a character and a closing quote.
fn quoted_char_msg(prefix: &str, c: char) -> (s: String)
    ensures
        s@ == prefix@.push(c).push('\''),
{
    let mut s = String::from_str(prefix);
    push_char(&mut s, c);
    push_char(&mut s, '\'');
    s
}

impl Lexer {
    /// Adds a token that is not `Eof` and is well-formed for its kind.
    fn push_body_token(&mut self, token_type: TokenType, value: String, start_pos: Position)
        requires
            old(self).wf(),
            1 <= start_pos.0 == old(self).line,
            token_type != TokenType::Eof,
            lexed_token_ok(Token { token_type, value, position: start_pos }),
        ensures
            final(self).wf(),
            final(self).extends(old(self)),
            final(self).tokens@ == old(self).tokens@.push(Token { token_type, value, position: start_pos }),
            final(self).position == old(self).position,
            final(self).line == old(self).line,
            final(self).column == old(self).column,
    {
        let ghost t0 = self.tokens@;
        self.add_token(token_type, value, start_pos);
        proof {
            assert(self.tokens@.subrange(0, t0.len() as int) =~= t0);
            assert forall|i: int| t0.len() <= i < self.tokens@.len() implies lexed_token_ok(#[trigger] self.tokens@[i])
                && self.tokens@[i].token_type != TokenType::Eof by {
                assert(i == t0.len());
            }
        }
    }

    #[verifier::rlimit(60)]
    #[verifier::spinoff_prover]
    fn template_string(&mut self) -> (r: Result<(), RaccoonError>)
        requires
            old(self).wf(),
            old(self).position < old(self).source@.len(),
        ensures
            final(self).wf(),
            final(self).extends(old(self)),
            final(self).position > old(self).position,
            r matches Err(e) ==> lex_error_msg(e.message@),
            (old(self).line as int, old(self).column as int) == line_col(old(self).source@, old(self).position as int)
                && old(self).source@[old(self).position as int] == '`' ==> match tpl_from(
                old(self).source@,
                old(self).position + 1,
                old(self).position + 1,
            ) {
                Some((ts, e)) => {
                    &&& r is Ok
                    &&& final(self).position == e
                    &&& (final(self).line as int, final(self).column as int) == line_col(old(self).source@, e)
                    &&& shapes_placed(
                        final(self).tokens@.subrange(old(self).tokens@.len() as int, final(self).tokens@.len() as int),
                        seq![(TokenType::TemplateStrStart, seq!['`'], line_col(old(self).source@, old(self).position as int))] + ts,
                    )
                },
                None => true,
            },
    {
        let ghost s0 = *self;
        let ghost p = self.position as int;
        let ghost src = self.source@;
        let ghost n0 = self.tokens@.len() as int;
        let ghost h = (self.line as int, self.column as int) == line_col(src, p) && src[p] == '`' && tpl_from(src, p + 1, p + 1) is Some;
        let start_pos = (self.line, self.column);
        self.advance();
        self.push_body_token(TokenType::TemplateStrStart, char_string('`'), start_pos);
        let mut value = String::new();
        let ghost mut a: int = p + 1;
        let ghost mut done: Seq<TokenShape> = Seq::empty();
        proof {
            let start = (TokenType::TemplateStrStart, seq!['`'], line_col(src, p));
            assert(s0.tokens@.subrange(n0, n0) =~= Seq::<Token>::empty());
            assert(seq![start] =~= Seq::<TokenShape>::empty().push(start));
            assert(seq![start] + done =~= seq![start]);
            if h {
                Self::lemma_shapes_push(s0.tokens@, n0, Seq::empty(), self.tokens@.last(), start);
                assert(self.tokens@ == s0.tokens@.push(self.tokens@.last()));
                assert(shapes_before(done, tpl_from(src, p + 1, a)) == tpl_from(src, p + 1, p + 1)) by {
                    if let Some((ts, e)) = tpl_from(src, p + 1, p + 1) {
                        assert(done + ts =~= ts);
                    }
                }
            }
            assert(value@ =~= src.subrange(a, self.position as int));
        }

        while self.peek() != '`' && !self.is_at_end()
            invariant
                self.wf(),
                s0.wf(),
                s0 == *old(self),
                self.extends(&s0),
                self.position > s0.position,
                src == s0.source@,
                p == s0.position,
                n0 == s0.tokens@.len(),
                h == ((s0.line as int, s0.column as int) == line_col(src, p) && src[p] == '`' && tpl_from(src, p + 1, p + 1) is Some),
                h ==> {
                    &&& (self.line as int, self.column as int) == line_col(src, self.position as int)
                    &&& p + 1 <= a <= self.position
                    &&& value@ == src.subrange(a, self.position as int)
                    &&& shapes_placed(
                        self.tokens@.subrange(n0, self.tokens@.len() as int),
                        seq![(TokenType::TemplateStrStart, seq!['`'], line_col(src, p))] + done,
                    )
                    &&& shapes_before(done, tpl_from(src, self.position as int, a)) == tpl_from(src, p + 1, p + 1)
                },
            decreases self.source@.len() - self.position,
        {
            let ghost iter_start = *self;
            let ghost j = self.position as int;
            if self.peek() == '$' && self.peek_next() == '{' {
                let ghost pre_done = done;
                let ghost b0 = *self;
                proof {
                    if h {
                        assert(shapes_before(pre_done, tpl_from(src, j, a)) == tpl_from(src, p + 1, p + 1));
                        assert(tpl_from(src, j, a) is Some);
                        assert(src[j] == '$' && char_at(src, j + 1) == '{');
                        assert(interp_from(src, j + 2) is Some);
                    }
                }
                if !value.as_str().is_empty() {
                    let part_pos = (self.line, self.column.saturating_sub(value.as_str().len()));
                    let ghost b = *self;
                    self.push_body_token(TokenType::TemplateStrPart, value, part_pos);
                    proof {
                        Self::lemma_extends_trans(&s0, &b, self);
                        if h {
                            let sh = text_part(src, a, j)[0];
                            assert(a < j);
                            assert(shape_of(self.tokens@.last()) == sh);
                            Self::lemma_shapes_push(b.tokens@, n0, seq![(TokenType::TemplateStrStart, seq!['`'], line_col(src, p))] + done,
                                self.tokens@.last(), sh);
                            assert(seq![(TokenType::TemplateStrStart, seq!['`'], line_col(src, p))] + done.push(sh)
                                =~= (seq![(TokenType::TemplateStrStart, seq!['`'], line_col(src, p))] + done).push(sh));
                            assert(text_part(src, a, j) =~= seq![sh]);
                        }
                        done = done + text_part(src, a, j);
                    }
                    value = String::new();
                } else {
                    proof {
                        if h {
                            assert(!(a < j));
                            assert(text_part(src, a, j) =~= Seq::<TokenShape>::empty());
                            assert(done + text_part(src, a, j) =~= done);
                        }
                        done = done + text_part(src, a, j);
                    }
                }
                let interp_start_pos = (self.line, self.column);
                self.advance();
                self.advance();
                let ghost b = *self;
                self.push_body_token(TokenType::TemplateInterpolationStart, char_string2('$', '{'), interp_start_pos);
                proof {
                    Self::lemma_extends_trans(&s0, &b, self);
                    let sh = (TokenType::TemplateInterpolationStart, seq!['$', '{'], line_col(src, j));
                    if h {
                        Self::lemma_shapes_push(b.tokens@, n0, seq![(TokenType::TemplateStrStart, seq!['`'], line_col(src, p))] + done,
                            self.tokens@.last(), sh);
                        assert(seq![(TokenType::TemplateStrStart, seq!['`'], line_col(src, p))] + done.push(sh)
                            =~= (seq![(TokenType::TemplateStrStart, seq!['`'], line_col(src, p))] + done).push(sh));
                    }
                    done = done.push(sh);
                }
                let ghost done_before_interp = done;
                let ghost mut inner: Seq<TokenShape> = Seq::empty();
                proof {
                    if h {
                        lemma_interp_bounds(src, j + 2);
                        assert(seq![(TokenType::TemplateStrStart, seq!['`'], line_col(src, p))] + done_before_interp + inner
                            =~= seq![(TokenType::TemplateStrStart, seq!['`'], line_col(src, p))] + done_before_interp);
                        if let Some((ts, e)) = interp_from(src, j + 2) {
                            assert(inner + ts =~= ts);
                        }
                    }
                }

                let mut brace_count: usize = 1;
                while brace_count > 0 && !self.is_at_end()
                    invariant
                        self.wf(),
                        s0.wf(),
                        s0 == *old(self),
                        self.extends(&s0),
                        self.position > s0.position,
                        self.position > iter_start.position,
                        brace_count <= self.position,
                        src == s0.source@,
                        p == s0.position,
                        n0 == s0.tokens@.len(),
                        j == iter_start.position,
                        h == ((s0.line as int, s0.column as int) == line_col(src, p) && src[p] == '`' && tpl_from(src, p + 1, p + 1) is Some),
                        h ==> {
                            &&& (self.line as int, self.column as int) == line_col(src, self.position as int)
                            &&& j + 2 <= self.position
                            &&& (brace_count == 1 || (brace_count == 0 && self.position < src.len()
                                && src[self.position as int] == '}'))
                            &&& shapes_placed(
                                self.tokens@.subrange(n0, self.tokens@.len() as int),
                                seq![(TokenType::TemplateStrStart, seq!['`'], line_col(src, p))] + done_before_interp + inner,
                            )
                            &&& shapes_before(inner, interp_from(src, self.position as int)) == interp_from(src, j + 2)
                            &&& interp_from(src, j + 2) is Some
                        },
                    ensures
                        h ==> (brace_count == 0 || self.position >= self.source@.len()),
                    decreases self.source@.len() - self.position,
                {
                    let ghost b = *self;
                    let c = self.peek();
                    if self.is_whitespace(c) {
                        if !(c == ' ' || c == '\t' || c == '\r' || c == '\n') {
                            proof { if h { assert(interp_from(src, self.position as int) is None); } }
                            return Err(RaccoonError::new(LEX_FAULT_MSG, (self.line, self.column), self.file.clone()));
                        }
                        self.skip_whitespace();
                        proof {
                            Self::lemma_extends_refl(self);
                            if h {
                                lemma_interp_skip(src, b.position as int, self.position as int);
                            }
                        }
                        continue;
                    }
                    if self.is_alpha(c) {
                        self.identifier()?;
                        proof {
                            if h {
                                let k = b.position as int;
                                let e = self.position as int;
                                lemma_word_no_newline(src, k);
                                lemma_line_col_run(src, k, e);
                                let sh = (word_type(src.subrange(k, e)), src.subrange(k, e), line_col(src, k));
                                Self::lemma_shapes_push(b.tokens@, n0,
                                    seq![(TokenType::TemplateStrStart, seq!['`'], line_col(src, p))] + done_before_interp + inner,
                                    self.tokens@.last(), sh);
                                assert(self.tokens@ == b.tokens@.push(self.tokens@.last()));
                                assert(seq![(TokenType::TemplateStrStart, seq!['`'], line_col(src, p))] + done_before_interp + inner.push(sh)
                                    =~= (seq![(TokenType::TemplateStrStart, seq!['`'], line_col(src, p))] + done_before_interp + inner).push(sh));
                                Self::lemma_shapes_before_push(inner, sh, interp_from(src, e));
                            }
                            inner = inner.push((word_type(src.subrange(b.position as int, self.position as int)),
                                src.subrange(b.position as int, self.position as int), line_col(src, b.position as int)));
                        }
                    } else if self.is_digit(c) {
                        self.number()?;
                        proof {
                            if h {
                                let k = b.position as int;
                                lemma_number_no_newline(src, k);
                                let (t, e) = decimal_number(src, k)->Some_0;
                                lemma_line_col_run(src, k, e);
                                let sh = (t, src.subrange(k, e), line_col(src, k));
                                Self::lemma_shapes_push(b.tokens@, n0,
                                    seq![(TokenType::TemplateStrStart, seq!['`'], line_col(src, p))] + done_before_interp + inner,
                                    self.tokens@.last(), sh);
                                assert(self.tokens@ == b.tokens@.push(self.tokens@.last()));
                                assert(seq![(TokenType::TemplateStrStart, seq!['`'], line_col(src, p))] + done_before_interp + inner.push(sh)
                                    =~= (seq![(TokenType::TemplateStrStart, seq!['`'], line_col(src, p))] + done_before_interp + inner).push(sh));
                                Self::lemma_shapes_before_push(inner, sh, interp_from(src, e));
                            }
                            if decimal_number(src, b.position as int) is Some {
                                let (t, e) = decimal_number(src, b.position as int)->Some_0;
                                inner = inner.push((t, src.subrange(b.position as int, e), line_col(src, b.position as int)));
                            }
                        }
                    } else if c == '\'' || c == '"' {
                        proof { if h { assert(interp_from(src, b.position as int) is None); } }
                        let r = self.string();
                        proof { Self::lemma_extends_trans(&s0, &b, self); }
                        if let Err(e) = r {
                            return Err(e);
                        }
                    } else if c == '{' {
                        proof { if h { assert(interp_from(src, b.position as int) is None); } }
                        brace_count = brace_count + 1;
                        let brace_pos = (self.line, self.column);
                        self.advance();
                        proof { Self::lemma_extends_same_tokens(&b, self); }
                        let ghost b2 = *self;
                        self.push_body_token(TokenType::LeftBrace, char_string('{'), brace_pos);
                        proof { Self::lemma_extends_trans(&b, &b2, self); }
                    } else if c == '}' {
                        brace_count = brace_count - 1;
                        if brace_count == 0 {
                            break;
                        }
                        let brace_pos = (self.line, self.column);
                        self.advance();
                        proof { Self::lemma_extends_same_tokens(&b, self); }
                        let ghost b2 = *self;
                        self.push_body_token(TokenType::RightBrace, char_string('}'), brace_pos);
                        proof { Self::lemma_extends_trans(&b, &b2, self); }
                    } else {
                        let op_start_pos = (self.line, self.column);
                        let next = self.peek_next();
                        if let Some(token_type) = lookup_compound_op2(c, next) {
                            self.advance();
                            self.advance();
                            proof { Self::lemma_extends_same_tokens(&b, self); }
                            let ghost b2 = *self;
                            self.push_body_token(token_type, char_string2(c, next), op_start_pos);
                            proof {
                                Self::lemma_extends_trans(&b, &b2, self);
                                let k = b.position as int;
                                let sh = (token_type, src.subrange(k, k + 2), line_col(src, k));
                                if h {
                                    assert(src[k] == c && src[k + 1] == next);
                                    assert(c != '\n' && next != '\n');
                                    lemma_line_col_run(src, k, k + 2);
                                    assert(seq![c, next] =~= src.subrange(k, k + 2));
                                    Self::lemma_shapes_push(b.tokens@, n0,
                                        seq![(TokenType::TemplateStrStart, seq!['`'], line_col(src, p))] + done_before_interp + inner,
                                        self.tokens@.last(), sh);
                                    assert(seq![(TokenType::TemplateStrStart, seq!['`'], line_col(src, p))] + done_before_interp + inner.push(sh)
                                        =~= (seq![(TokenType::TemplateStrStart, seq!['`'], line_col(src, p))] + done_before_interp + inner).push(sh));
                                    Self::lemma_shapes_before_push(inner, sh, interp_from(src, k + 2));
                                }
                                inner = inner.push(sh);
                            }
                        } else if let Some(token_type) = lookup_simple_op(c) {
                            self.advance();
                            proof { Self::lemma_extends_same_tokens(&b, self); }
                            let ghost b2 = *self;
                            self.push_body_token(token_type, char_string(c), op_start_pos);
                            proof {
                                Self::lemma_extends_trans(&b, &b2, self);
                                let k = b.position as int;
                                let sh = (token_type, seq![c], line_col(src, k));
                                if h {
                                    lemma_line_col_run(src, k, k + 1);
                                    Self::lemma_shapes_push(b.tokens@, n0,
                                        seq![(TokenType::TemplateStrStart, seq!['`'], line_col(src, p))] + done_before_interp + inner,
                                        self.tokens@.last(), sh);
                                    assert(seq![(TokenType::TemplateStrStart, seq!['`'], line_col(src, p))] + done_before_interp + inner.push(sh)
                                        =~= (seq![(TokenType::TemplateStrStart, seq!['`'], line_col(src, p))] + done_before_interp + inner).push(sh));
                                    Self::lemma_shapes_before_push(inner, sh, interp_from(src, k + 1));
                                }
                                inner = inner.push(sh);
                            }
                        } else {
                            let m = quoted_char_msg("Unexpected character in interpolation: '", c);
                            proof {
                                assert(m@ == unexpected_interp_char_msg(c));
                                if h { assert(interp_from(src, b.position as int) is None); }
                            }
                            return Err(RaccoonError::new(m.as_str(), (self.line, self.column), self.file.clone()));
                        }
                    }
                    proof { Self::lemma_extends_trans(&s0, &b, self); }
                }

                let interp_end_pos = (self.line, self.column);
                if self.is_at_end() {
                    proof { if h { assert(interp_from(src, self.position as int) is None); } }
                    return Err(RaccoonError::new(LEX_FAULT_MSG, interp_end_pos, self.file.clone()));
                }
                let ghost e = self.position as int;
                self.advance();
                let ghost b = *self;
                self.push_body_token(TokenType::TemplateInterpolationEnd, char_string('}'), interp_end_pos);
                proof {
                    Self::lemma_extends_trans(&s0, &b, self);
                    let sh = (TokenType::TemplateInterpolationEnd, seq!['}'], line_col(src, e));
                    if h {
                        assert(interp_from(src, e) == Some((Seq::<TokenShape>::empty(), e)));
                        assert(inner + Seq::<TokenShape>::empty() =~= inner);
                        assert(interp_from(src, j + 2) == Some((inner, e)));
                        Self::lemma_shapes_push(b.tokens@, n0,
                            seq![(TokenType::TemplateStrStart, seq!['`'], line_col(src, p))] + done_before_interp + inner,
                            self.tokens@.last(), sh);
                        assert(seq![(TokenType::TemplateStrStart, seq!['`'], line_col(src, p))] + (done_before_interp + inner).push(sh)
                            =~= (seq![(TokenType::TemplateStrStart, seq!['`'], line_col(src, p))] + done_before_interp + inner).push(sh));
                        let mid = text_part(src, a, j) + seq![(TokenType::TemplateInterpolationStart, seq!['$', '{'], line_col(src, j))] + inner
                            + seq![sh];
                        assert(tpl_from(src, j, a) == shapes_before(mid, tpl_from(src, e + 1, e + 1)));
                        assert((done_before_interp + inner).push(sh) =~= pre_done + mid);
                        if let Some((ts2, f)) = tpl_from(src, e + 1, e + 1) {
                            assert(pre_done + (mid + ts2) =~= (pre_done + mid) + ts2);
                        }
                    }
                    done = (done_before_interp + inner).push(sh);
                    a = e + 1;
                }
                proof {
                    if h {
                        assert(value@ =~= src.subrange(a, self.position as int));
                    }
                }
            } else {
                let ghost b = *self;
                proof {
                    if h {
                        assert(tpl_from(src, j, a) is Some);
                    }
                }
                if self.peek() == '\\' {
                    self.advance();
                    if self.is_at_end() {
                        return Err(RaccoonError::new(LEX_FAULT_MSG, (self.line, self.column), self.file.clone()));
                    }
                    let e = self.get_escaped_char(self.peek());
                    push_char(&mut value, e);
                    self.advance();
                } else if self.peek() == '\n' {
                    let c = self.source[self.position];
                    push_char(&mut value, c);
                    self.newline();
                } else {
                    let c = self.advance();
                    push_char(&mut value, c);
                    proof {
                        if h {
                            assert(src.subrange(a, j + 1) =~= src.subrange(a, j).push(c));
                            assert(tpl_from(src, j, a) == tpl_from(src, j + 1, a));
                        }
                    }
                }
                proof {
                    assert(self.tokens@.subrange(0, b.tokens@.len() as int) =~= b.tokens@);
                    Self::lemma_extends_trans(&s0, &b, self);
                }
            }
        }

        if self.is_at_end() {
            proof { if h { assert(tpl_from(src, self.position as int, a) is None); } }
            return Err(RaccoonError::new("Unterminated template string", start_pos, self.file.clone()));
        }

        let ghost j = self.position as int;
        if !value.as_str().is_empty() {
            let part_pos = (self.line, self.column.saturating_sub(value.as_str().len()));
            let ghost b = *self;
            self.push_body_token(TokenType::TemplateStrPart, value, part_pos);
            proof {
                Self::lemma_extends_trans(&s0, &b, self);
                if h {
                    let sh = text_part(src, a, j)[0];
                    assert(a < j);
                    Self::lemma_shapes_push(b.tokens@, n0, seq![(TokenType::TemplateStrStart, seq!['`'], line_col(src, p))] + done,
                        self.tokens@.last(), sh);
                    assert(seq![(TokenType::TemplateStrStart, seq!['`'], line_col(src, p))] + done.push(sh)
                        =~= (seq![(TokenType::TemplateStrStart, seq!['`'], line_col(src, p))] + done).push(sh));
                    assert(text_part(src, a, j) =~= seq![sh]);
                }
                done = done + text_part(src, a, j);
            }
        } else {
            proof {
                if h {
                    assert(text_part(src, a, j) =~= Seq::<TokenShape>::empty());
                    assert(done + text_part(src, a, j) =~= done);
                }
                done = done + text_part(src, a, j);
            }
        }

        proof {
            if h {
                assert(src[j] == '`');
                assert(tpl_from(src, j, a) == Some((text_part(src, a, j).push((TokenType::TemplateStrEnd, seq!['`'], line_col(src, j))), j + 1)));
            }
        }
        let end_pos = (self.line, self.column);
        self.advance();
        let ghost b = *self;
        self.push_body_token(TokenType::TemplateStrEnd, char_string('`'), end_pos);
        proof {
            Self::lemma_extends_trans(&s0, &b, self);
            let sh = (TokenType::TemplateStrEnd, seq!['`'], line_col(src, j));
            if h {
                Self::lemma_shapes_push(b.tokens@, n0, seq![(TokenType::TemplateStrStart, seq!['`'], line_col(src, p))] + done,
                    self.tokens@.last(), sh);
                assert(seq![(TokenType::TemplateStrStart, seq!['`'], line_col(src, p))] + done.push(sh)
                    =~= (seq![(TokenType::TemplateStrStart, seq!['`'], line_col(src, p))] + done).push(sh));
                if let Some((ts, e)) = tpl_from(src, p + 1, p + 1) {
                    assert(done.push(sh) =~= ts);
                }
            }
        }
        Ok(())
    }

    /// Appending a token of a given shape appends that shape.
    proof fn lemma_shapes_push(ts: Seq<Token>, n0: int, shapes: Seq<TokenShape>, tok: Token, shape: TokenShape)
        requires
            0 <= n0 <= ts.len(),
            shapes_placed(ts.subrange(n0, ts.len() as int), shapes),
            shape_of(tok) == shape,
        ensures
            shapes_placed(ts.push(tok).subrange(n0, ts.len() as int + 1), shapes.push(shape)),
    {
        let a = ts.subrange(n0, ts.len() as int);
        let b = ts.push(tok).subrange(n0, ts.len() as int + 1);
        assert(b =~= a.push(tok));
        assert forall|k: int| 0 <= k < b.len() implies shape_of(#[trigger] b[k])
            == shapes.push(shape)[k] by {
            if k < a.len() {
                assert(b[k] == a[k]);
            }
        }
    }

    /// A shape put before a partial lex, once more.
    proof fn lemma_shapes_before_push(pre: Seq<TokenShape>, sh: TokenShape, o: Option<(Seq<TokenShape>, int)>)
        ensures
            shapes_before(pre.push(sh), o) == shapes_before(pre, shape_before(sh, o)),
    {
        if let Some((ts, e)) = o {
            assert(pre.push(sh) + ts =~= pre + (seq![sh] + ts));
        }
    }
}

/// A three-character string.
fn char_string3(a: char, b: char, c: char) -> (s: String)
    ensures
        s@ == seq![a, b, c],
{
    let mut s = char_string2(a, b);
    push_char(&mut s, c);
    s
}

/// A four-character string.
fn char_string4(a: char, b: char, c: char, d: char) -> (s: String)
    ensures
        s@ == seq![a, b, c, d],
{
    let mut s = char_string3(a, b, c);
    push_char(&mut s, d);
    s
}

/// A copy of a token list.
pub fn copy_tokens(v: &Vec<Token>) -> (r: Vec<Token>)
    ensures
        r@ == v@,
{
    let mut r: Vec<Token> = Vec::new();
    let mut i: usize = 0;
    while i < v.len()
        invariant
            i <= v@.len(),
            r@ == v@.subrange(0, i as int),
        decreases v@.len() - i,
    {
        r.push(v[i].copy());
        assert(v@.subrange(0, i + 1) =~= v@.subrange(0, i as int).push(v@[i as int]));
        i = i + 1;
    }
    assert(v@.subrange(0, v@.len() as int) =~= v@);
    r
}

impl Lexer {
    /// Splits the whole source into tokens, appended to the tokens already held, and ends
    /// them with an `Eof` token. Returns a copy of all tokens held.
    #[verifier::rlimit(100)]
    #[verifier::spinoff_prover]
    pub fn tokenize(&mut self) -> (r: Result<Vec<Token>, RaccoonError>)
        requires
            old(self).wf(),
        ensures
            final(self).wf(),
            final(self).source_view() == old(self).source_view(),
            final(self).file_view() == old(self).file_view(),
            match r {
                Ok(toks) => {
                    let n = old(self).tokens_view().len() as int;
                    &&& toks@ == final(self).tokens_view()
                    &&& toks@.len() > n
                    &&& toks@.subrange(0, n) == old(self).tokens_view()
                    &&& body_tokens_ok(toks@.drop_last(), n)
                    &&& toks@.last().token_type == TokenType::Eof
                    &&& toks@.last().value@.len() == 0
                    &&& lines_ordered(toks@)
                },
                Err(e) => lex_error_msg(e.message@),
            },
            old(self).at_start() ==> match lex_from(old(self).source_view(), 0) {
                Lexed::Tokens(t) => r matches Ok(toks) && {
                    let n = old(self).tokens_view().len() as int;
                    &&& toks@.len() == n + t.len() + 1
                    &&& shapes_placed(toks@.subrange(n, n + t.len()), t)
                    &&& (toks@.last().position.0 as int, toks@.last().position.1 as int)
                        == line_col(old(self).source_view(), old(self).source_view().len() as int)
                },
                Lexed::FailAt(i) => r matches Err(e) && e.message@ == unexpected_char_msg(old(self).source_view()[i])
                    && (e.position.0 as int, e.position.1 as int) == line_col(old(self).source_view(), i),
                Lexed::Open => true,
            },
    {
        let ghost s0 = *self;
        let ghost mut emitted: Seq<TokenShape> = Seq::empty();
        proof {
            Self::lemma_extends_refl(self);
            assert(self.tokens@.subrange(s0.tokens@.len() as int, self.tokens@.len() as int) =~= Seq::<Token>::empty());
            assert(lexed_after(Seq::<TokenShape>::empty(), lex_from(s0.source@, 0)) == lex_from(s0.source@, 0)) by {
                if let Lexed::Tokens(t) = lex_from(s0.source@, 0) {
                    assert(Seq::<TokenShape>::empty() + t =~= t);
                }
            }
        }
        while !self.is_at_end()
            invariant
                self.wf(),
                s0.wf(),
                s0 == *old(self),
                self.extends(&s0),
                self.lex_track(&s0, emitted),
            ensures
                self.wf(),
                self.extends(&s0),
                self.lex_track(&s0, emitted),
                self.position == self.source@.len(),
            decreases self.source@.len() - self.position,
        {
            let ghost b = *self;
            self.skip_whitespace();
            proof { Self::lemma_extends_same_tokens(&b, self); }
            if self.is_at_end() {
                proof { Self::lemma_extends_trans(&s0, &b, self); }
                break;
            }
            proof { Self::lemma_track_same(&s0, &b, self, emitted); }
            let ghost b1 = *self;
            let ghost p = self.position as int;
            let ghost src = s0.source@;
            let c = self.peek();
            let next = self.peek_next();
            if c == '_' && !self.is_alpha_numeric(next) {
                let start_pos = (self.line, self.column);
                self.push_body_token(TokenType::Underscore, char_string('_'), start_pos);
                self.advance();
                proof {
                    lemma_line_col_run(src, p, p + 1);
                    assert(self.tokens@.subrange(0, b1.tokens@.len() as int) =~= b1.tokens@);
                    let shape = (TokenType::Underscore, seq!['_'], line_col(src, p));
                    Self::lemma_track_push(&s0, &b1, self, emitted, shape);
                    emitted = emitted.push(shape);
                }
            } else if self.is_alpha(c) {
                self.identifier()?;
                proof {
                    let e = self.position as int;
                    lemma_word_no_newline(src, p);
                    lemma_line_col_run(src, p, e);
                    let shape = (word_type(src.subrange(p, e)), src.subrange(p, e), line_col(src, p));
                    assert(self.tokens@ == b1.tokens@.push(self.tokens@.last()));
                    Self::lemma_track_push(&s0, &b1, self, emitted, shape);
                    emitted = emitted.push(shape);
                }
            } else if self.is_digit(c) {
                self.number()?;
                proof {
                    lemma_number_no_newline(src, p);
                    if let Some((k, e)) = decimal_number(src, p) {
                        lemma_line_col_run(src, p, e);
                        let shape = (k, src.subrange(p, e), line_col(src, p));
                        assert(self.tokens@ == b1.tokens@.push(self.tokens@.last()));
                        Self::lemma_track_push(&s0, &b1, self, emitted, shape);
                        emitted = emitted.push(shape);
                    } else {
                        Self::lemma_track_open(&s0, &b1, self, emitted, emitted);
                    }
                }
            } else if c == '\'' || c == '"' {
                proof { Self::lemma_track_open(&s0, &b1, &b1, emitted, emitted); }
                self.string()?;
                proof { Self::lemma_track_open(&s0, &b1, self, emitted, emitted); }
            } else if c == '`' {
                let r = self.template_string();
                proof {
                    let start = (TokenType::TemplateStrStart, seq!['`'], line_col(src, p));
                    lemma_tpl_bounds(src, p + 1, p + 1);
                    match tpl_from(src, p + 1, p + 1) {
                        Some((ts, e)) => {
                            Self::lemma_track_append(&s0, &b1, self, emitted, seq![start] + ts);
                            emitted = emitted + (seq![start] + ts);
                        },
                        None => {
                            Self::lemma_track_open(&s0, &b1, self, emitted, emitted);
                        },
                    }
                }
                if let Err(e) = r {
                    return Err(e);
                }
            } else if c == '/' && next == '/' {
                self.skip_line_comment();
                proof {
                    lemma_comment_lex(src, p);
                    Self::lemma_extends_same_tokens(&b1, self);
                    Self::lemma_track_same(&s0, &b1, self, emitted);
                }
            } else if c == '/' && next == '*' {
                self.skip_block_comment();
                proof {
                    lemma_comment_lex(src, p);
                    Self::lemma_extends_same_tokens(&b1, self);
                    Self::lemma_track_same(&s0, &b1, self, emitted);
                }
            } else {
                let c2 = self.peek_ahead(2);
                let c3 = self.peek_ahead(3);
                let start_pos = (self.line, self.column);
                if let Some(token_type) = lookup_compound_op4(c, next, c2, c3) {
                    self.advance();
                    self.advance();
                    self.advance();
                    self.advance();
                    proof { Self::lemma_extends_same_tokens(&b1, self); }
                    let ghost b2 = *self;
                    self.push_body_token(token_type, char_string4(c, next, c2, c3), start_pos);
                    proof {
                        Self::lemma_extends_trans(&b1, &b2, self);
                        let shape = (token_type, src.subrange(p, p + 4), line_col(src, p));
                        assert(src[p] == c && src[p + 1] == next && src[p + 2] == c2 && src[p + 3] == c3);
                        assert(c != '\n' && next != '\n' && c2 != '\n' && c3 != '\n');
                        lemma_line_col_run(src, p, p + 4);
                        assert(seq![c, next, c2, c3] =~= src.subrange(p, p + 4));
                        Self::lemma_track_push(&s0, &b1, self, emitted, shape);
                        emitted = emitted.push(shape);
                    }
                } else if let Some(token_type) = lookup_compound_op3(c, next, c2) {
                    self.advance();
                    self.advance();
                    self.advance();
                    proof { Self::lemma_extends_same_tokens(&b1, self); }
                    let ghost b2 = *self;
                    self.push_body_token(token_type, char_string3(c, next, c2), start_pos);
                    proof {
                        Self::lemma_extends_trans(&b1, &b2, self);
                        let shape = (token_type, src.subrange(p, p + 3), line_col(src, p));
                        assert(src[p] == c && src[p + 1] == next && src[p + 2] == c2);
                        assert(c != '\n' && next != '\n' && c2 != '\n');
                        lemma_line_col_run(src, p, p + 3);
                        assert(seq![c, next, c2] =~= src.subrange(p, p + 3));
                        Self::lemma_track_push(&s0, &b1, self, emitted, shape);
                        emitted = emitted.push(shape);
                    }
                } else if let Some(token_type) = lookup_compound_op2(c, next) {
                    self.advance();
                    self.advance();
                    proof { Self::lemma_extends_same_tokens(&b1, self); }
                    let ghost b2 = *self;
                    self.push_body_token(token_type, char_string2(c, next), start_pos);
                    proof {
                        Self::lemma_extends_trans(&b1, &b2, self);
                        let shape = (token_type, src.subrange(p, p + 2), line_col(src, p));
                        assert(src[p] == c && src[p + 1] == next);
                        assert(c != '\n' && next != '\n');
                        lemma_line_col_run(src, p, p + 2);
                        assert(seq![c, next] =~= src.subrange(p, p + 2));
                        Self::lemma_track_push(&s0, &b1, self, emitted, shape);
                        emitted = emitted.push(shape);
                    }
                } else if let Some(token_type) = lookup_simple_op(c) {
                    self.advance();
                    proof { Self::lemma_extends_same_tokens(&b1, self); }
                    let ghost b2 = *self;
                    self.push_body_token(token_type, char_string(c), start_pos);
                    proof {
                        Self::lemma_extends_trans(&b1, &b2, self);
                        let shape = (token_type, src.subrange(p, p + 1), line_col(src, p));
                        lemma_line_col_run(src, p, p + 1);
                        assert(seq![c] =~= src.subrange(p, p + 1));
                        Self::lemma_track_push(&s0, &b1, self, emitted, shape);
                        emitted = emitted.push(shape);
                    }
                } else {
                    let m = quoted_char_msg("Unexpected character: '", c);
                    proof { assert(m@ == unexpected_char_msg(c)); }
                    return Err(RaccoonError::new(m.as_str(), (self.line, self.column), self.file.clone()));
                }
            }
            proof {
                Self::lemma_extends_trans(&b, &b1, self);
                Self::lemma_extends_trans(&s0, &b, self);
            }
        }
        let ghost t1 = self.tokens@;
        let eof_pos = (self.line, self.column);
        self.add_token(TokenType::Eof, String::new(), eof_pos);
        proof {
            let n = s0.tokens@.len() as int;
            assert(self.tokens@.drop_last() =~= t1);
            assert(self.tokens@.subrange(0, n) =~= t1.subrange(0, n));
            if s0.at_start() && !(lex_from(s0.source@, 0) is Open) {
                assert(self.position == s0.source@.len());
                assert(lex_from(s0.source@, self.position as int) == Lexed::Tokens(Seq::<TokenShape>::empty()));
                assert(emitted + Seq::<TokenShape>::empty() =~= emitted);
                assert(lex_from(s0.source@, 0) == Lexed::Tokens(emitted));
                assert(t1.len() == n + emitted.len());
                assert(self.tokens@.subrange(n, n + emitted.len()) =~= t1.subrange(n, t1.len() as int));
                assert(shapes_placed(self.tokens@.subrange(n, n + emitted.len()), emitted));
                assert((self.tokens@.last().position.0 as int, self.tokens@.last().position.1 as int)
                    == line_col(s0.source@, s0.source@.len() as int));
            }
        }
        Ok(copy_tokens(&self.tokens))
    }
}
} // verus!
