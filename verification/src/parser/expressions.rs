//! Parsing of expressions, from assignment down to primary expressions.
use vstd::prelude::*;
use crate::ast::{
    ArrowFnBody, ArrowFnExpr, ClassBody, Expr, FnParam, MatchArm, NamedArg, ObjectLiteralProperty,
    Pattern, TemplateStrPart, Type, TypeParameter, UpdateOperator, VarPattern,
};
use crate::error::RaccoonError;
use crate::parser::declarations::{
    check_param_order, ctor_at, empty_class_body, member_end, one_member_at, one_member_body, Declarations,
};
use crate::parser::literals::int_literal_value;
use crate::parser::state::{expects_first, parsed, steps, ParserState};
use crate::parser::statements::Statements;
use crate::parser::types::Types;
use crate::parser::utilities::Parser;
use crate::text::{copy_opt_string, str_eq};
use crate::tokens::{AccessModifier, BinaryOperator, Token, TokenType, UnaryOperator};

verus! {

/// The operator a prefix token gives the expression `unary` builds: `typeof`, `-`, `!`,
/// `~`, prefix `++` and `--`, and `await`.
pub open spec fn unary_result(s0: ParserState, r: Result<Expr, RaccoonError>) -> bool {
    let t = s0.tokens@[s0.current as int];
    r is Ok ==> match t.token_type {
        TokenType::Typeof => r->Ok_0 matches Expr::TypeOf { position, .. } && position == t.position,
        TokenType::Minus => r->Ok_0 matches Expr::Unary { operator, .. } && operator == UnaryOperator::Negate,
        TokenType::Bang => r->Ok_0 matches Expr::Unary { operator, .. } && operator == UnaryOperator::Not,
        TokenType::BitwiseNot => r->Ok_0 matches Expr::Unary { operator, .. } && operator == UnaryOperator::BitwiseNot,
        TokenType::Increment => r->Ok_0 matches Expr::UnaryUpdate { operator, is_prefix, position, .. }
            && operator == UpdateOperator::Increment && is_prefix && position == t.position,
        TokenType::Decrement => r->Ok_0 matches Expr::UnaryUpdate { operator, is_prefix, position, .. }
            && operator == UpdateOperator::Decrement && is_prefix && position == t.position,
        TokenType::Await => r->Ok_0 matches Expr::Await { position, .. } && position == t.position,
        _ => true,
    }
}

/// What `primary` gives for the token under the cursor when that token is an expression by
/// itself (the token read, and the expression it stands for at its position), and when it
/// starts no expression (the error `Expected expression` at its position, nothing read). A
/// parenthesis, bracket, brace or template start opens a longer expression.
pub open spec fn primary_result(s0: ParserState, s1: ParserState, r: Result<Expr, RaccoonError>) -> bool {
    let t = s0.tokens@[s0.current as int];
    let one = s1.current == s0.current + 1;
    match t.token_type {
        TokenType::This => one && r == Ok::<Expr, RaccoonError>(Expr::This { position: t.position }),
        TokenType::Super => one && r == Ok::<Expr, RaccoonError>(Expr::Super { position: t.position }),
        TokenType::Identifier => one && (r matches Ok(Expr::Identifier { name, position }) && name@ == t.value@
            && position == t.position),
        TokenType::IntLiteral => one && (r matches Ok(Expr::IntLiteral { value, position }) && value as int
            == crate::parser::literals::int_literal_spec(t.value@) && position == t.position),
        TokenType::BigIntLiteral => one && (r matches Ok(Expr::BigIntLiteral { value, position }) && value@ == t.value@
            && position == t.position),
        TokenType::FloatLiteral => one && (r matches Ok(Expr::FloatLiteral { text, position }) && text@ == t.value@
            && position == t.position),
        TokenType::StrLiteral => one && (r matches Ok(Expr::StrLiteral { value, position }) && value@ == t.value@
            && position == t.position),
        TokenType::True => one && r == Ok::<Expr, RaccoonError>(Expr::BoolLiteral { value: true, position: t.position }),
        TokenType::False => one && r == Ok::<Expr, RaccoonError>(Expr::BoolLiteral { value: false, position: t.position }),
        TokenType::NullLiteral => one && r == Ok::<Expr, RaccoonError>(Expr::NullLiteral { position: t.position }),
        TokenType::LeftParen | TokenType::LeftBracket | TokenType::LeftBrace | TokenType::TemplateStrStart => true,
        _ => s1.current == s0.current && (r matches Err(e) && e.message@ == "Expected expression"@
            && e.position == t.position),
    }
}

/// The token kinds that stand for an expression by themselves: names, literals, `this` and
/// `super`.
pub open spec fn atom_kind(k: TokenType) -> bool {
    ||| k == TokenType::Identifier
    ||| k == TokenType::IntLiteral
    ||| k == TokenType::BigIntLiteral
    ||| k == TokenType::FloatLiteral
    ||| k == TokenType::StrLiteral
    ||| k == TokenType::True
    ||| k == TokenType::False
    ||| k == TokenType::NullLiteral
    ||| k == TokenType::This
    ||| k == TokenType::Super
}

/// `e` is the expression that the atom token `t` stands for.
pub open spec fn atom_of(t: Token, e: Expr) -> bool {
    match t.token_type {
        TokenType::This => e == Expr::This { position: t.position },
        TokenType::Super => e == Expr::Super { position: t.position },
        TokenType::Identifier => e matches Expr::Identifier { name, position } && name@ == t.value@
            && position == t.position,
        TokenType::IntLiteral => e matches Expr::IntLiteral { value, position } && value as int
            == crate::parser::literals::int_literal_spec(t.value@) && position == t.position,
        TokenType::BigIntLiteral => e matches Expr::BigIntLiteral { value, position } && value@ == t.value@
            && position == t.position,
        TokenType::FloatLiteral => e matches Expr::FloatLiteral { text, position } && text@ == t.value@
            && position == t.position,
        TokenType::StrLiteral => e matches Expr::StrLiteral { value, position } && value@ == t.value@
            && position == t.position,
        TokenType::True => e == Expr::BoolLiteral { value: true, position: t.position },
        TokenType::False => e == Expr::BoolLiteral { value: false, position: t.position },
        TokenType::NullLiteral => e == Expr::NullLiteral { position: t.position },
        _ => false,
    }
}

/// The token kinds that no expression continues with: `;`, `:`, `{`, closing brackets, `,`
/// and `Eof`.
pub open spec fn ends_expression(k: TokenType) -> bool {
    ||| k == TokenType::Semicolon
    ||| k == TokenType::Colon
    ||| k == TokenType::LeftBrace
    ||| k == TokenType::RightParen
    ||| k == TokenType::RightBrace
    ||| k == TokenType::RightBracket
    ||| k == TokenType::Comma
    ||| k == TokenType::Eof
}

/// The precedence level of an operator token, from `**` (15) to the assignments (29): the
/// parsing function of that level is the one that consumes it. Other tokens have level 0.
pub open spec fn binding_level(k: TokenType) -> int {
    match k {
        TokenType::Exponent => 15,
        TokenType::Multiply | TokenType::Divide | TokenType::Modulo => 16,
        TokenType::Plus | TokenType::Minus => 17,
        TokenType::Range => 18,
        TokenType::LeftShift | TokenType::RightShift | TokenType::UnsignedRightShift => 19,
        TokenType::Ampersand => 20,
        TokenType::BitwiseXor => 21,
        TokenType::BitwiseOr => 22,
        TokenType::Lt | TokenType::Gt | TokenType::Lte | TokenType::Gte | TokenType::Instanceof => 23,
        TokenType::Eq | TokenType::Neq => 24,
        TokenType::And => 25,
        TokenType::Or => 26,
        TokenType::QuestionQuestion => 27,
        TokenType::Question => 28,
        TokenType::Assign | TokenType::PlusAssign | TokenType::MinusAssign | TokenType::MultiplyAssign
        | TokenType::DivideAssign | TokenType::ModuloAssign | TokenType::AmpersandAssign
        | TokenType::BitwiseOrAssign | TokenType::BitwiseXorAssign | TokenType::LeftShiftAssign
        | TokenType::RightShiftAssign | TokenType::UnsignedRightShiftAssign
        | TokenType::ExponentAssign => 29,
        _ => 0,
    }
}

/// The binary operator that an operator token of levels 15 to 26 builds.
pub open spec fn binary_operator_of(k: TokenType) -> BinaryOperator {
    match k {
        TokenType::Exponent => BinaryOperator::Exponent,
        TokenType::Multiply => BinaryOperator::Multiply,
        TokenType::Divide => BinaryOperator::Divide,
        TokenType::Modulo => BinaryOperator::Modulo,
        TokenType::Plus => BinaryOperator::Add,
        TokenType::Minus => BinaryOperator::Subtract,
        TokenType::LeftShift => BinaryOperator::LeftShift,
        TokenType::RightShift => BinaryOperator::RightShift,
        TokenType::UnsignedRightShift => BinaryOperator::UnsignedRightShift,
        TokenType::Ampersand => BinaryOperator::BitwiseAnd,
        TokenType::BitwiseXor => BinaryOperator::BitwiseXor,
        TokenType::BitwiseOr => BinaryOperator::BitwiseOr,
        TokenType::Lt => BinaryOperator::LessThan,
        TokenType::Gt => BinaryOperator::GreaterThan,
        TokenType::Lte => BinaryOperator::LessEqual,
        TokenType::Gte => BinaryOperator::GreaterEqual,
        TokenType::Eq => BinaryOperator::Equal,
        TokenType::Neq => BinaryOperator::NotEqual,
        TokenType::And => BinaryOperator::And,
        _ => BinaryOperator::Or,
    }
}

/// The token at `i` ends an operand of level `n`: it ends every expression, or it is an
/// operator of a looser level (a `<` only where a name or literal follows it, so that it
/// cannot open type arguments).
pub open spec fn ends_operand(s: ParserState, i: int, n: int) -> bool {
    let k = s.tokens@[i].token_type;
    ||| ends_expression(k)
    ||| (n < binding_level(k) && (k != TokenType::Lt || (i + 1 < s.tokens@.len() && atom_kind(
        s.tokens@[i + 1].token_type,
    ))))
}

/// The cursor stands on `a1 ** a2 ** ... ** an`, `n` names or literals joined by `**`, and
/// the token after `an` ends an operand at level `lvl`.
pub open spec fn exp_chain_at(s: ParserState, n: nat, lvl: int) -> bool {
    let c = s.current as int;
    &&& n >= 1
    &&& c + 2 * n - 1 < s.tokens@.len()
    &&& forall|k: int| 0 <= k < n ==> atom_kind(#[trigger] s.tokens@[c + 2 * k].token_type)
    &&& forall|k: int| 0 <= k < n - 1 ==> (#[trigger] s.tokens@[c + 2 * k + 1]).token_type == TokenType::Exponent
    &&& ends_operand(s, c + 2 * n - 1, lvl)
}

/// `e` nests the `n` atoms from `c` on (every other token) to the right: `a1 ** (a2 ** (...))`,
/// each power at the position of its left atom.
pub open spec fn right_nested(t: Seq<Token>, c: int, n: nat, e: Expr) -> bool
    decreases n,
{
    if n <= 1 {
        atom_of(t[c], e)
    } else {
        e matches Expr::Binary { left, operator, right, position } && operator == BinaryOperator::Exponent
            && atom_of(t[c], *left) && position == t[c].position && right_nested(t, c + 2, (n - 1) as nat, *right)
    }
}

/// The parse of a chain of `n` atoms joined by `**` read all of it and nests it to the right.
pub open spec fn exp_chain_parsed(s0: ParserState, s1: ParserState, r: Result<Expr, RaccoonError>, n: nat) -> bool {
    &&& s1.current == s0.current + 2 * n - 1
    &&& r matches Ok(e) && right_nested(s0.tokens@, s0.current as int, n, e)
}

/// A chain that the next token ends at a level ends there at the level below too.
pub proof fn lemma_chain_lower(s: ParserState, lvl: int)
    ensures
        forall|n: nat| #[trigger] exp_chain_at(s, n, lvl) ==> exp_chain_at(s, n, lvl - 1)
            && atom_kind(s.tokens@[s.current as int].token_type),
{
    assert forall|n: nat| #[trigger] exp_chain_at(s, n, lvl) implies atom_kind(s.tokens@[s.current as int].token_type) by {
        assert(atom_kind(s.tokens@[s.current + 2 * 0].token_type));
    }
}

/// The invariant of a loop that began with a chain of `**` at `s0`: while at level `lvl`, the
/// chain alone has been read.
pub open spec fn chain_read(s0: ParserState, s1: ParserState, e: Expr, lvl: int) -> bool {
    forall|n: nat| exp_chain_at(s0, n, lvl) ==> exp_chain_parsed(s0, s1, Ok::<Expr, RaccoonError>(e), n)
}

/// The cursor stands on a name or literal that the next token ends at level `n`, such as
/// `x;`, `42)` or, at a level below `+`, the `a` of `a + b`.
pub open spec fn atom_at(s: ParserState, n: int) -> bool {
    &&& s.current + 1 < s.tokens@.len()
    &&& atom_kind(s.cur_kind())
    &&& ends_operand(s, s.current + 1, n)
}

/// The parse read the one atom token at the cursor of `s0`, and gives its expression.
pub open spec fn atom_parsed(s0: ParserState, s1: ParserState, r: Result<Expr, RaccoonError>) -> bool {
    &&& s1.current == s0.current + 1
    &&& r matches Ok(e) && atom_of(s0.tokens@[s0.current as int], e)
}

/// The invariant of a loop that began with an atom at `s0`: while at level `n`, the atom alone
/// has been read.
pub open spec fn atom_read(s0: ParserState, s1: ParserState, e: Expr, n: int) -> bool {
    atom_at(s0, n) ==> atom_parsed(s0, s1, Ok::<Expr, RaccoonError>(e))
}

/// The cursor stands on `a op b` with `a` and `b` names or literals, `op` an operator of level
/// `n` (but `instanceof`), and a token after them that ends an operand at level `n`.
pub open spec fn pair_at(s: ParserState, n: int) -> bool {
    let c = s.current as int;
    &&& c + 3 < s.tokens@.len()
    &&& atom_kind(s.tokens@[c].token_type)
    &&& binding_level(s.tokens@[c + 1].token_type) == n
    &&& s.tokens@[c + 1].token_type != TokenType::Instanceof
    &&& atom_kind(s.tokens@[c + 2].token_type)
    &&& ends_operand(s, c + 3, n)
}

/// The parse of `a op b` read three tokens and joins the two atoms by the operator: `??` into
/// a null-coalescing expression, `..` into a range, an assignment operator into an assignment,
/// any other into a binary expression; each at the position of `a`.
pub open spec fn pair_parsed(s0: ParserState, s1: ParserState, r: Result<Expr, RaccoonError>) -> bool {
    let c = s0.current as int;
    let a = s0.tokens@[c];
    let op = s0.tokens@[c + 1].token_type;
    let b = s0.tokens@[c + 2];
    &&& s1.current == c + 3
    &&& r is Ok
    &&& if op == TokenType::QuestionQuestion {
        r->Ok_0 matches Expr::NullCoalescing { left, right, position } && atom_of(a, *left)
            && atom_of(b, *right) && position == a.position
    } else if op == TokenType::Range {
        r->Ok_0 matches Expr::Range { start, end, position } && atom_of(a, *start) && atom_of(b, *end)
            && position == a.position
    } else if binding_level(op) == 29 {
        r->Ok_0 matches Expr::Assignment { target, value, operator, position } && atom_of(a, *target)
            && atom_of(b, *value) && operator == op && position == a.position
    } else {
        r->Ok_0 matches Expr::Binary { left, operator, right, position } && atom_of(a, *left)
            && operator == binary_operator_of(op) && atom_of(b, *right) && position == a.position
    }
}

/// The invariant of a left-associative loop at level `n` that began on `a op b`: either `a`
/// alone or the whole pair has been read.
pub open spec fn pair_read(s0: ParserState, s1: ParserState, e: Expr, n: int) -> bool {
    pair_at(s0, n) ==> {
        ||| atom_parsed(s0, s1, Ok::<Expr, RaccoonError>(e))
        ||| pair_parsed(s0, s1, Ok::<Expr, RaccoonError>(e))
    }
}

/// The cursor stands on `a1 op a2 op ... op an`, `n` names or literals joined by operators of
/// level `o` (but `instanceof`), and the token after `an` ends an operand at level `lvl`.
pub open spec fn left_chain_in(s: ParserState, n: nat, o: int, lvl: int) -> bool {
    let c = s.current as int;
    &&& n >= 1
    &&& c + 2 * n - 1 < s.tokens@.len()
    &&& forall|k: int| 0 <= k < n ==> atom_kind(#[trigger] s.tokens@[c + 2 * k].token_type)
    &&& forall|k: int| 0 <= k < n - 1 ==> binding_level((#[trigger] s.tokens@[c + 2 * k + 1]).token_type) == o
        && s.tokens@[c + 2 * k + 1].token_type != TokenType::Instanceof
    &&& ends_operand(s, c + 2 * n - 1, lvl)
}

/// The cursor stands on a chain of `n` names or literals joined by operators of level `lvl`,
/// which the token after it ends at that level.
pub open spec fn left_chain_at(s: ParserState, n: nat, lvl: int) -> bool {
    left_chain_in(s, n, lvl, lvl)
}

/// A chain of operators of level `o` that the next token ends at level `lvl` above `o` is
/// ended there at the level below too.
pub proof fn lemma_left_in_lower(s: ParserState, lvl: int)
    ensures
        forall|n: nat, o: int| o < lvl && #[trigger] left_chain_in(s, n, o, lvl) ==> left_chain_in(s, n, o, lvl - 1),
{
}

/// The levels whose operators build left-associative binary expressions: from `*` (16) to
/// `||` (26), but `..` (18).
pub open spec fn left_level(o: int) -> bool {
    16 <= o <= 26 && o != 18
}

/// While reading at level `lvl` a chain of a tighter level `o`, the chain alone has been read.
pub open spec fn lower_chain_read(s0: ParserState, s1: ParserState, e: Expr, lvl: int) -> bool {
    forall|n: nat, o: int| left_level(o) && o < lvl && #[trigger] left_chain_in(s0, n, o, lvl) ==> left_chain_parsed(
        s0,
        s1,
        Ok::<Expr, RaccoonError>(e),
        n,
    )
}

/// `e` nests the `n` atoms from `c` on (every other token, joined by the operators between
/// them) to the left: `((a1 op a2) op ...) op an`, each right operand a single atom and each
/// binary expression at the position of `a1`.
pub open spec fn left_nested(t: Seq<Token>, c: int, n: nat, e: Expr) -> bool
    decreases n,
{
    if n <= 1 {
        atom_of(t[c], e)
    } else {
        e matches Expr::Binary { left, operator, right, position }
            && operator == binary_operator_of(t[c + 2 * n - 3].token_type)
            && atom_of(t[c + 2 * n - 2], *right) && position == t[c].position
            && left_nested(t, c, (n - 1) as nat, *left)
    }
}

/// The parse of a left-associative chain of `n` atoms read all of it and nests it to the left.
pub open spec fn left_chain_parsed(s0: ParserState, s1: ParserState, r: Result<Expr, RaccoonError>, n: nat) -> bool {
    &&& s1.current == s0.current + 2 * n - 1
    &&& r matches Ok(e) && left_nested(s0.tokens@, s0.current as int, n, e)
}

/// The invariant of a left-associative loop at level `lvl` over a chain that began at `s0`:
/// the first `j` atoms have been read and nested to the left.
pub open spec fn left_read(s0: ParserState, s1: ParserState, e: Expr, lvl: int, j: nat) -> bool {
    forall|n: nat| #[trigger] left_chain_at(s0, n, lvl) ==> 1 <= j <= n && left_chain_parsed(
        s0,
        s1,
        Ok::<Expr, RaccoonError>(e),
        j,
    )
}

/// The expression that a chain nests to the left sits at the position of its first atom.
pub proof fn lemma_left_nested_pos(t: Seq<Token>, c: int, n: nat, e: Expr)
    requires
        left_nested(t, c, n, e),
    ensures
        crate::ast::expr_pos(e) == t[c].position,
{
    if n <= 1 {
        assert(atom_kind(t[c].token_type) || !atom_of(t[c], e));
    }
}

/// On a chain at level `lvl`, the first atom is one that the next token ends at the level
/// below.
pub proof fn lemma_left_chain_start(s: ParserState, n: nat, lvl: int)
    requires
        left_chain_at(s, n, lvl),
        16 <= lvl <= 26,
    ensures
        atom_at(s, lvl - 1),
{
    let c = s.current as int;
    assert(atom_kind(s.tokens@[c + 2 * 0].token_type));
    assert(c + 2 * 0 == c);
    if n > 1 {
        assert(binding_level(s.tokens@[c + 2 * 0 + 1].token_type) == lvl);
        assert(atom_kind(s.tokens@[c + 2 * 1].token_type));
        assert(ends_operand(s, c + 1, lvl - 1));
    } else {
        assert(ends_operand(s, c + 2 * n - 1, lvl));
        assert(ends_operand(s, c + 1, lvl - 1));
    }
}

/// Inside a chain at level `lvl` of which `j` atoms were read and the operator after them
/// consumed, the next atom is one that the next token ends at the level below.
pub proof fn lemma_left_chain_next(s0: ParserState, s1: ParserState, n: nat, lvl: int, j: nat)
    requires
        left_chain_at(s0, n, lvl),
        16 <= lvl <= 26,
        1 <= j <= n,
        s1.tokens@ == s0.tokens@,
        s1.current == s0.current + 2 * j,
        binding_level(s0.tokens@[s0.current + 2 * j - 1].token_type) == lvl,
    ensures
        j < n,
        atom_at(s1, lvl - 1),
        binding_level(s0.tokens@[s0.current + 2 * (j - 1) + 1].token_type) == lvl,
{
    let c = s0.current as int;
    if j == n {
        assert(false) by {
            assert(ends_operand(s0, c + 2 * n - 1, lvl));
        }
    }
    assert(atom_kind(s0.tokens@[c + 2 * j].token_type));
    assert(s1.cur_kind() == s0.tokens@[c + 2 * j].token_type);
    if j + 1 < n {
        assert(binding_level(s0.tokens@[c + 2 * j + 1].token_type) == lvl);
        assert(atom_kind(s0.tokens@[c + 2 * (j + 1)].token_type));
        assert(ends_operand(s1, c + 2 * j + 1, lvl - 1));
    } else {
        assert(ends_operand(s0, c + 2 * n - 1, lvl));
        assert(ends_operand(s1, c + 2 * j + 1, lvl - 1));
    }
}

/// The binary operators associate to the left: where a parse meets its promise on
/// `a op1 b op2 c`, three names or literals joined by operators of one left-associative level
/// (such as `+` and `-`), it gives `(a op1 b) op2 c`; and in a longer chain the right operand
/// of the outer expression is the last name or literal alone, joined by the last operator.
pub proof fn law_chain_nests_left(
    s0: ParserState,
    s1: ParserState,
    r: Result<Expr, RaccoonError>,
    n: nat,
    o: int,
    lvl: int,
)
    requires
        left_level(o),
        left_chain_in(s0, n, o, lvl),
        forall|m: nat| #[trigger] left_chain_in(s0, m, o, lvl) ==> left_chain_parsed(s0, s1, r, m),
    ensures
        s1.current == s0.current + 2 * n - 1,
        n >= 2 ==> (r matches Ok(Expr::Binary { right, operator, .. }) && atom_of(
            s0.tokens@[s0.current + 2 * n - 2],
            *right,
        ) && operator == binary_operator_of(s0.tokens@[s0.current + 2 * n - 3].token_type)),
        n == 3 ==> (r matches Ok(Expr::Binary { left, right: c, .. }) && *left matches Expr::Binary {
            left: a,
            operator,
            right: b,
            ..
        } && atom_of(s0.tokens@[s0.current as int], *a) && atom_of(s0.tokens@[s0.current + 2], *b) && atom_of(
            s0.tokens@[s0.current + 4],
            *c,
        ) && operator == binary_operator_of(s0.tokens@[s0.current + 1].token_type)),
{
    assert(left_chain_parsed(s0, s1, r, n));
    if n == 3 {
        let e = r->Ok_0;
        assert(left_nested(s0.tokens@, s0.current as int, 3, e));
        assert(left_nested(s0.tokens@, s0.current as int, 2, *e->Binary_left));
        assert(left_nested(s0.tokens@, s0.current as int, 1, *e->Binary_left->Binary_left));
    }
}

/// The cursor stands on `a ? b : c` with three names or literals, and a token after them that
/// ends every expression.
pub open spec fn choice_at(s: ParserState) -> bool {
    let c = s.current as int;
    &&& c + 5 < s.tokens@.len()
    &&& atom_kind(s.tokens@[c].token_type)
    &&& s.tokens@[c + 1].token_type == TokenType::Question
    &&& atom_kind(s.tokens@[c + 2].token_type)
    &&& s.tokens@[c + 3].token_type == TokenType::Colon
    &&& atom_kind(s.tokens@[c + 4].token_type)
    &&& ends_operand(s, c + 5, 28)
}

/// The parse of `a ? b : c` read five tokens and gives the conditional expression of the three
/// atoms, at the position of `a`.
pub open spec fn choice_parsed(s0: ParserState, s1: ParserState, r: Result<Expr, RaccoonError>) -> bool {
    let c = s0.current as int;
    &&& s1.current == c + 5
    &&& r matches Ok(Expr::Conditional { condition, then_expr, else_expr, position })
        && atom_of(s0.tokens@[c], *condition) && atom_of(s0.tokens@[c + 2], *then_expr)
        && atom_of(s0.tokens@[c + 4], *else_expr) && position == s0.tokens@[c].position
}

/// The cursor stands on a name or literal that no call, member access or index follows: the
/// next token is none of `(`, `?.`, `.` and `[`, and a `<` after it is followed by a name or
/// literal.
pub open spec fn call_atom_at(s: ParserState) -> bool {
    let c = s.current as int;
    let k = s.tokens@[c + 1].token_type;
    &&& c + 1 < s.tokens@.len()
    &&& atom_kind(s.tokens@[c].token_type)
    &&& k != TokenType::LeftParen
    &&& k != TokenType::QuestionDot
    &&& k != TokenType::Dot
    &&& k != TokenType::LeftBracket
    &&& (k == TokenType::Lt ==> c + 2 < s.tokens@.len() && atom_kind(s.tokens@[c + 2].token_type))
}

/// The cursor stands on a prefix operator (`typeof`, `-`, `!`, `~`, `++`, `--`, `await`)
/// before a name or literal that the next token ends.
pub open spec fn prefix_at(s: ParserState) -> bool {
    let c = s.current as int;
    let k = s.tokens@[c].token_type;
    &&& c + 2 < s.tokens@.len()
    &&& (k == TokenType::Typeof || k == TokenType::Minus || k == TokenType::Bang || k == TokenType::BitwiseNot
        || k == TokenType::Increment || k == TokenType::Decrement || k == TokenType::Await)
    &&& atom_kind(s.tokens@[c + 1].token_type)
    &&& ends_operand(s, c + 2, 14)
}

/// The parse of a prefix operator and its atom read two tokens. `-`, `!` and `~` give a unary
/// expression at the position of the atom; `typeof`, `++`, `--` and `await` give theirs at
/// the position of the operator.
pub open spec fn prefix_parsed(s0: ParserState, s1: ParserState, r: Result<Expr, RaccoonError>) -> bool {
    let c = s0.current as int;
    let op = s0.tokens@[c];
    let a = s0.tokens@[c + 1];
    &&& s1.current == c + 2
    &&& r is Ok
    &&& match op.token_type {
        TokenType::Typeof => r->Ok_0 matches Expr::TypeOf { operand, position } && atom_of(a, *operand)
            && position == op.position,
        TokenType::Minus => r->Ok_0 matches Expr::Unary { operator, operand, position } && operator
            == UnaryOperator::Negate && atom_of(a, *operand) && position == a.position,
        TokenType::Bang => r->Ok_0 matches Expr::Unary { operator, operand, position } && operator
            == UnaryOperator::Not && atom_of(a, *operand) && position == a.position,
        TokenType::BitwiseNot => r->Ok_0 matches Expr::Unary { operator, operand, position } && operator
            == UnaryOperator::BitwiseNot && atom_of(a, *operand) && position == a.position,
        TokenType::Increment => r->Ok_0 matches Expr::UnaryUpdate { operator, operand, is_prefix, position }
            && operator == UpdateOperator::Increment && atom_of(a, *operand) && is_prefix && position == op.position,
        TokenType::Decrement => r->Ok_0 matches Expr::UnaryUpdate { operator, operand, is_prefix, position }
            && operator == UpdateOperator::Decrement && atom_of(a, *operand) && is_prefix && position == op.position,
        _ => r->Ok_0 matches Expr::Await { expression, position } && atom_of(a, *expression) && position
            == op.position,
    }
}

/// The cursor stands on a name or literal followed by `++`, `--` or `!`.
pub open spec fn suffix_at(s: ParserState) -> bool {
    let c = s.current as int;
    let k = s.tokens@[c + 1].token_type;
    &&& c + 1 < s.tokens@.len()
    &&& atom_kind(s.tokens@[c].token_type)
    &&& (k == TokenType::Increment || k == TokenType::Decrement || k == TokenType::Bang)
}

/// The parse of an atom and a suffix operator read two tokens: `++` and `--` give a postfix
/// update, `!` a null assertion, each at the position of the operator.
pub open spec fn suffix_parsed(s0: ParserState, s1: ParserState, r: Result<Expr, RaccoonError>) -> bool {
    let c = s0.current as int;
    let a = s0.tokens@[c];
    let op = s0.tokens@[c + 1];
    &&& s1.current == c + 2
    &&& r is Ok
    &&& match op.token_type {
        TokenType::Increment => r->Ok_0 matches Expr::UnaryUpdate { operator, operand, is_prefix, position }
            && operator == UpdateOperator::Increment && atom_of(a, *operand) && !is_prefix && position == op.position,
        TokenType::Decrement => r->Ok_0 matches Expr::UnaryUpdate { operator, operand, is_prefix, position }
            && operator == UpdateOperator::Decrement && atom_of(a, *operand) && !is_prefix && position == op.position,
        _ => r->Ok_0 matches Expr::NullAssertion { operand, position } && atom_of(a, *operand) && position
            == op.position,
    }
}

/// The index of the first token at or after `i` that is not a comma.
pub open spec fn comma_run_end(tokens: Seq<Token>, i: int) -> int
    decreases tokens.len() - i,
{
    if 0 <= i < tokens.len() && tokens[i].token_type == TokenType::Comma {
        comma_run_end(tokens, i + 1)
    } else {
        i
    }
}

/// The operators of the comparison level are `<`, `>`, `<=`, `>=` and `instanceof`.
proof fn lemma_comparison_level(k: TokenType)
    ensures
        binding_level(k) == 23 ==> (k == TokenType::Lt || k == TokenType::Gt || k == TokenType::Lte
            || k == TokenType::Gte || k == TokenType::Instanceof),
{
}

/// What `parse_pattern` gives for the token under the cursor when that token is a pattern by
/// itself (`_`, a name or a literal, read alone), and for `[]` and `{}`; any token that
/// opens no pattern fails with `Expected pattern` and nothing read.
pub open spec fn pattern_result(s0: ParserState, s1: ParserState, r: Result<Pattern, RaccoonError>) -> bool {
    let c = s0.current as int;
    let t = s0.tokens@[c];
    match t.token_type {
        TokenType::Underscore => s1.current == c + 1 && r == Ok::<Pattern, RaccoonError>(Pattern::Wildcard(t.position)),
        TokenType::Identifier => s1.current == c + 1 && (r matches Ok(Pattern::Variable(name)) && name@ == t.value@),
        TokenType::IntLiteral | TokenType::FloatLiteral | TokenType::StrLiteral | TokenType::True
        | TokenType::False | TokenType::NullLiteral => s1.current == c + 1 && (r matches Ok(Pattern::Literal(e))
            && atom_of(t, *e)),
        TokenType::LeftBracket => s0.tokens@[c + 1].token_type == TokenType::RightBracket ==> s1.current == c + 2
            && (r matches Ok(Pattern::Array(v)) && v@.len() == 0),
        TokenType::LeftBrace => s0.tokens@[c + 1].token_type == TokenType::RightBrace ==> s1.current == c + 2
            && (r matches Ok(Pattern::Object(v)) && v@.len() == 0),
        _ => s1.current == c && (r matches Err(e) && e.message@ == "Expected pattern"@ && e.position == t.position),
    }
}

/// The cursor stands on a name or literal followed by a token of kind `close`.
pub open spec fn single_before(s: ParserState, close: TokenType) -> bool {
    &&& s.current + 1 < s.tokens@.len()
    &&& atom_kind(s.cur_kind())
    &&& s.tokens@[s.current + 1].token_type == close
}

/// `p` is the parameter named by the token under the cursor of `s`, of type `any`: neither
/// rest nor optional, and without default value.
pub open spec fn untyped_param(s: ParserState, p: FnParam) -> bool {
    &&& p.pattern matches VarPattern::Identifier(n) && n@ == s.tokens@[s.current as int].value@
    &&& p.param_type == Type::Primitive(crate::ast::PrimitiveKind::Any)
    &&& p.default_value is None
    &&& !p.is_rest
    &&& !p.is_optional
}

/// After `{`, the cursor stands on `key: x }` with `x` a name or literal.
pub open spec fn one_entry_at(s: ParserState) -> bool {
    let c = s.current as int;
    &&& c + 3 < s.tokens@.len()
    &&& s.tokens@[c].token_type == TokenType::Identifier
    &&& s.tokens@[c + 1].token_type == TokenType::Colon
    &&& atom_kind(s.tokens@[c + 2].token_type)
    &&& s.tokens@[c + 3].token_type == TokenType::RightBrace
}

/// The cursor stands on `open name close`.
pub open spec fn one_name_between(s: ParserState, open: TokenType, close: TokenType) -> bool {
    let c = s.current as int;
    &&& c + 2 < s.tokens@.len()
    &&& s.tokens@[c].token_type == open
    &&& s.tokens@[c + 1].token_type == TokenType::Identifier
    &&& s.tokens@[c + 2].token_type == close
}

/// After `match`, the cursor stands on a name or literal followed by `{ }`.
pub open spec fn empty_match_at(s: ParserState) -> bool {
    let c = s.current as int;
    &&& c + 2 < s.tokens@.len()
    &&& atom_kind(s.tokens@[c].token_type)
    &&& s.tokens@[c + 1].token_type == TokenType::LeftBrace
    &&& s.tokens@[c + 2].token_type == TokenType::RightBrace
}

/// After `match`, the cursor stands on `x { _ => y }` with `x` and `y` names or literals.
pub open spec fn one_arm_match_at(s: ParserState) -> bool {
    let c = s.current as int;
    &&& c + 5 < s.tokens@.len()
    &&& atom_kind(s.tokens@[c].token_type)
    &&& s.tokens@[c + 1].token_type == TokenType::LeftBrace
    &&& s.tokens@[c + 2].token_type == TokenType::Underscore
    &&& s.tokens@[c + 3].token_type == TokenType::Arrow
    &&& atom_kind(s.tokens@[c + 4].token_type)
    &&& s.tokens@[c + 5].token_type == TokenType::RightBrace
}

/// `a` is the arm `_ => y` of `one_arm_match_at(s)`: a wildcard at the position of `_`, no
/// guard, and the atom `y` as its body.
pub open spec fn one_arm(s: ParserState, a: MatchArm) -> bool {
    let c = s.current as int;
    &&& a.pattern == Pattern::Wildcard(s.tokens@[c + 2].position)
    &&& a.guard is None
    &&& atom_of(s.tokens@[c + 4], *a.body)
    &&& a.position == s.tokens@[c + 2].position
}

/// The cursor stands on `() => x` with `x` a name or literal that the next token ends.
pub open spec fn empty_arrow_at(s: ParserState) -> bool {
    let c = s.current as int;
    &&& c + 4 < s.tokens@.len()
    &&& s.tokens@[c].token_type == TokenType::LeftParen
    &&& s.tokens@[c + 1].token_type == TokenType::RightParen
    &&& s.tokens@[c + 2].token_type == TokenType::Arrow
    &&& atom_kind(s.tokens@[c + 3].token_type)
    &&& ends_operand(s, c + 4, 28)
}

/// The cursor stands on `()` followed by neither `:` nor `=>`.
pub open spec fn no_arrow_at(s: ParserState) -> bool {
    let c = s.current as int;
    &&& c + 2 < s.tokens@.len()
    &&& s.tokens@[c].token_type == TokenType::LeftParen
    &&& s.tokens@[c + 1].token_type == TokenType::RightParen
    &&& s.tokens@[c + 2].token_type != TokenType::Colon
    &&& s.tokens@[c + 2].token_type != TokenType::Arrow
}

/// Parsing functions for expressions.
pub struct Expressions;

/// Adds a named argument, replacing one of the same name.
fn insert_named_arg(args: &mut Vec<NamedArg>, arg: NamedArg)
    ensures
        final(args)@.len() >= old(args)@.len(),
        final(args)@.len() > 0,
{
    let mut i: usize = 0;
    while i < args.len()
        invariant
            i <= args@.len(),
            args@ == old(args)@,
        decreases args@.len() - i,
    {
        if str_eq(args[i].name.as_str(), arg.name.as_str()) {
            args.set(i, arg);
            return;
        }
        i = i + 1;
    }
    args.push(arg);
}

impl Expressions {
    pub fn expression(state: &mut ParserState) -> (r: Result<Expr, RaccoonError>)
        requires
            old(state).wf(),
        ensures
            parsed(*old(state), *final(state), r),
            atom_at(*old(state), 30) ==> atom_parsed(*old(state), *final(state), r),
            forall|n: nat| exp_chain_at(*old(state), n, 30) ==> exp_chain_parsed(*old(state), *final(state), r, n),
            forall|n: nat, o: int| left_level(o) && #[trigger] left_chain_in(*old(state), n, o, 30) ==> left_chain_parsed(*old(state), *final(state), r, n),
        decreases old(state).remaining(), 30nat,
    {
        proof {
            lemma_chain_lower(*old(state), 30);
            lemma_left_in_lower(*old(state), 30);
        }
        Self::assignment(state)
    }

    /// `match`, `class` and arrow-function expressions, and `target op= value`.
    pub fn assignment(state: &mut ParserState) -> (r: Result<Expr, RaccoonError>)
        requires
            old(state).wf(),
        ensures
            parsed(*old(state), *final(state), r),
            atom_at(*old(state), 29) ==> atom_parsed(*old(state), *final(state), r),
            forall|n: nat| exp_chain_at(*old(state), n, 29) ==> exp_chain_parsed(*old(state), *final(state), r, n),
            pair_at(*old(state), 29) ==> pair_parsed(*old(state), *final(state), r),
            forall|n: nat, o: int| left_level(o) && o < 29 && #[trigger] left_chain_in(*old(state), n, o, 29) ==> left_chain_parsed(*old(state), *final(state), r, n),
        decreases old(state).remaining(), 29nat,
    {
        let ghost s0 = *state;
        proof {
            lemma_chain_lower(*old(state), 29);
            assert forall|n: nat, o: int| left_level(o) && o < 29 && #[trigger] left_chain_in(s0, n, o, 29) implies left_chain_in(
                s0,
                n,
                o,
                28,
            ) && atom_kind(s0.cur_kind()) by {
                lemma_left_in_lower(s0, 29);
                assert(atom_kind(s0.tokens@[s0.current + 2 * 0].token_type));
            }
        }
        if state.check(&TokenType::Match) {
            state.advance();
            return Self::match_expr(state);
        }
        if state.check(&TokenType::Class) {
            state.advance();
            return Self::class_expr(state);
        }
        if state.check(&TokenType::Async) {
            let saved_pos = state.current;
            state.advance();
            if state.check(&TokenType::LeftParen) {
                if let Ok(arrow) = Self::try_parse_arrow_function(state, true) {
                    return Ok(Expr::ArrowFn(arrow));
                }
            }
            state.current = saved_pos;
        }
        if state.check(&TokenType::LeftParen) {
            let saved_pos = state.current;
            if let Ok(arrow) = Self::try_parse_arrow_function(state, false) {
                return Ok(Expr::ArrowFn(arrow));
            }
            state.current = saved_pos;
        }
        let expr = Self::conditional(state)?;
        if Parser::match_token(
            state,
            &[
                TokenType::Assign,
                TokenType::PlusAssign,
                TokenType::MinusAssign,
                TokenType::MultiplyAssign,
                TokenType::DivideAssign,
                TokenType::ModuloAssign,
                TokenType::AmpersandAssign,
                TokenType::BitwiseOrAssign,
                TokenType::BitwiseXorAssign,
                TokenType::LeftShiftAssign,
                TokenType::RightShiftAssign,
                TokenType::UnsignedRightShiftAssign,
                TokenType::ExponentAssign,
            ],
        ) {
            proof {
                assert forall|n: nat, o: int| left_level(o) && o < 29 && #[trigger] left_chain_in(s0, n, o, 29) implies false by {
                    assert(ends_operand(s0, s0.current + 2 * n - 1, 29));
                }
            }
            let operator = state.previous().unwrap().token_type;
            let value = Box::new(Self::assignment(state)?);
            let position = expr.position();
            return Ok(Expr::Assignment { target: Box::new(expr), value, operator, position });
        }
        Ok(expr)
    }

    /// `cond ? then : else`
    pub fn conditional(state: &mut ParserState) -> (r: Result<Expr, RaccoonError>)
        requires
            old(state).wf(),
        ensures
            parsed(*old(state), *final(state), r),
            atom_at(*old(state), 28) ==> atom_parsed(*old(state), *final(state), r),
            forall|n: nat| exp_chain_at(*old(state), n, 28) ==> exp_chain_parsed(*old(state), *final(state), r, n),
            choice_at(*old(state)) ==> choice_parsed(*old(state), *final(state), r),
            forall|n: nat, o: int| left_level(o) && o < 28 && #[trigger] left_chain_in(*old(state), n, o, 28) ==> left_chain_parsed(*old(state), *final(state), r, n),
        decreases old(state).remaining(), 28nat,
    {
        let ghost s0 = *state;
        proof {
            lemma_chain_lower(*old(state), 28);
            assert forall|n: nat, o: int| left_level(o) && o < 28 && #[trigger] left_chain_in(s0, n, o, 28) implies left_chain_in(
                s0,
                n,
                o,
                27,
            ) by {
                lemma_left_in_lower(s0, 28);
            }
        }
        let expr = Self::null_coalescing(state)?;
        if Parser::match_token(state, &[TokenType::Question]) {
            proof {
                assert forall|n: nat, o: int| left_level(o) && o < 28 && #[trigger] left_chain_in(s0, n, o, 28) implies false by {
                    assert(ends_operand(s0, s0.current + 2 * n - 1, 28));
                }
            }
            let then_expr = Box::new(Self::expression(state)?);
            Parser::consume(
                state,
                TokenType::Colon,
                "Expected ':' after then branch of conditional expression",
            )?;
            let else_expr = Box::new(Self::conditional(state)?);
            let position = expr.position();
            return Ok(Expr::Conditional { condition: Box::new(expr), then_expr, else_expr, position });
        }
        Ok(expr)
    }

    /// `a ?? b ?? ...`
    pub fn null_coalescing(state: &mut ParserState) -> (r: Result<Expr, RaccoonError>)
        requires
            old(state).wf(),
        ensures
            parsed(*old(state), *final(state), r),
            atom_at(*old(state), 27) ==> atom_parsed(*old(state), *final(state), r),
            forall|n: nat| exp_chain_at(*old(state), n, 27) ==> exp_chain_parsed(*old(state), *final(state), r, n),
            pair_at(*old(state), 27) ==> pair_parsed(*old(state), *final(state), r),
            forall|n: nat, o: int| left_level(o) && o < 27 && #[trigger] left_chain_in(*old(state), n, o, 27) ==> left_chain_parsed(*old(state), *final(state), r, n),
        decreases old(state).remaining(), 27nat,
    {
        let ghost s0 = *state;
        proof {
            lemma_chain_lower(*old(state), 27);
            assert forall|n: nat, o: int| left_level(o) && o < 27 && #[trigger] left_chain_in(s0, n, o, 27) implies (if o == 26 {
                left_chain_at(s0, n, 26)
            } else {
                left_chain_in(s0, n, o, 26)
            }) by {
                lemma_left_in_lower(s0, 27);
            }
        }
        let mut expr = Self::logical_or(state)?;
        while Parser::match_token(state, &[TokenType::QuestionQuestion])
            invariant
                steps(*old(state), *state),
                state.current > old(state).current,
                atom_read(*old(state), *state, expr, 27),
                chain_read(*old(state), *state, expr, 27),
                pair_read(*old(state), *state, expr, 27),
                s0 == *old(state),
                lower_chain_read(s0, *state, expr, 27),
            decreases state.remaining(),
        {
            proof {
                assert forall|n: nat, o: int| left_level(o) && o < 27 && #[trigger] left_chain_in(s0, n, o, 27) implies false by {
                    assert(ends_operand(s0, s0.current + 2 * n - 1, 27));
                }
            }
            let right = Box::new(Self::logical_or(state)?);
            let position = expr.position();
            expr = Expr::NullCoalescing { left: Box::new(expr), right, position };
        }
        Ok(expr)
    }

    /// `a || b || ...`
    pub fn logical_or(state: &mut ParserState) -> (r: Result<Expr, RaccoonError>)
        requires
            old(state).wf(),
        ensures
            parsed(*old(state), *final(state), r),
            atom_at(*old(state), 26) ==> atom_parsed(*old(state), *final(state), r),
            forall|n: nat| exp_chain_at(*old(state), n, 26) ==> exp_chain_parsed(*old(state), *final(state), r, n),
            pair_at(*old(state), 26) ==> pair_parsed(*old(state), *final(state), r),
            forall|n: nat| #[trigger] left_chain_at(*old(state), n, 26) ==> left_chain_parsed(*old(state), *final(state), r, n),
            forall|n: nat, o: int| left_level(o) && o < 26 && #[trigger] left_chain_in(*old(state), n, o, 26) ==> left_chain_parsed(*old(state), *final(state), r, n),
        decreases old(state).remaining(), 26nat,
    {
        let ghost s0 = *state;
        proof {
            lemma_chain_lower(*old(state), 26);
            assert forall|n: nat| #[trigger] left_chain_at(s0, n, 26) implies atom_at(s0, 25) by {
                lemma_left_chain_start(s0, n, 26);
            }
            assert forall|n: nat, o: int| left_level(o) && o < 26 && #[trigger] left_chain_in(s0, n, o, 26) implies (if o == 25 {
                left_chain_at(s0, n, 25)
            } else {
                left_chain_in(s0, n, o, 25)
            }) by {
                lemma_left_in_lower(s0, 26);
            }
        }
        let mut expr = Self::logical_and(state)?;
        let ghost mut j: nat = 1;
        while Parser::match_token(state, &[TokenType::Or])
            invariant
                steps(*old(state), *state),
                state.current > old(state).current,
                atom_read(*old(state), *state, expr, 26),
                chain_read(*old(state), *state, expr, 26),
                pair_read(*old(state), *state, expr, 26),
                s0 == *old(state),
                left_read(s0, *state, expr, 26, j),
                lower_chain_read(s0, *state, expr, 26),
            decreases state.remaining(),
        {
            proof {
                assert forall|n: nat, o: int| left_level(o) && o < 26 && #[trigger] left_chain_in(s0, n, o, 26) implies false by {
                    assert(ends_operand(s0, s0.current + 2 * n - 1, 26));
                }
            }
            let ghost s1 = *state;
            let ghost e0 = expr;
            proof {
                assert forall|n: nat| #[trigger] left_chain_at(s0, n, 26) implies j < n && atom_at(s1, 25)
                    && BinaryOperator::Or == binary_operator_of(s0.tokens@[s0.current + 2 * (j + 1) - 3].token_type) by {
                    lemma_left_chain_next(s0, s1, n, 26, j);
                }
            }
            let right = Box::new(Self::logical_and(state)?);
            let position = expr.position();
            expr = Expr::Binary { left: Box::new(expr), operator: BinaryOperator::Or, right, position };
            proof {
                assert forall|n: nat| #[trigger] left_chain_at(s0, n, 26) implies 1 <= j + 1 <= n && left_chain_parsed(
                    s0,
                    *state,
                    Ok::<Expr, RaccoonError>(expr),
                    j + 1,
                ) by {
                    lemma_left_nested_pos(s0.tokens@, s0.current as int, j, e0);
                    assert(left_nested(s0.tokens@, s0.current as int, j + 1, expr));
                }
                j = j + 1;
            }
        }
        proof {
            assert forall|n: nat| #[trigger] left_chain_at(s0, n, 26) implies j == n by {
                let c = s0.current as int;
                if j < n {
                    assert(binding_level(s0.tokens@[c + 2 * (j - 1) + 1].token_type) == 26);
                }
            }
        }
        Ok(expr)
    }

    /// `a && b && ...`
    pub fn logical_and(state: &mut ParserState) -> (r: Result<Expr, RaccoonError>)
        requires
            old(state).wf(),
        ensures
            parsed(*old(state), *final(state), r),
            atom_at(*old(state), 25) ==> atom_parsed(*old(state), *final(state), r),
            forall|n: nat| exp_chain_at(*old(state), n, 25) ==> exp_chain_parsed(*old(state), *final(state), r, n),
            pair_at(*old(state), 25) ==> pair_parsed(*old(state), *final(state), r),
            forall|n: nat| #[trigger] left_chain_at(*old(state), n, 25) ==> left_chain_parsed(*old(state), *final(state), r, n),
            forall|n: nat, o: int| left_level(o) && o < 25 && #[trigger] left_chain_in(*old(state), n, o, 25) ==> left_chain_parsed(*old(state), *final(state), r, n),
        decreases old(state).remaining(), 25nat,
    {
        let ghost s0 = *state;
        proof {
            lemma_chain_lower(*old(state), 25);
            assert forall|n: nat| #[trigger] left_chain_at(s0, n, 25) implies atom_at(s0, 24) by {
                lemma_left_chain_start(s0, n, 25);
            }
            assert forall|n: nat, o: int| left_level(o) && o < 25 && #[trigger] left_chain_in(s0, n, o, 25) implies (if o == 24 {
                left_chain_at(s0, n, 24)
            } else {
                left_chain_in(s0, n, o, 24)
            }) by {
                lemma_left_in_lower(s0, 25);
            }
        }
        let mut expr = Self::equality(state)?;
        let ghost mut j: nat = 1;
        while Parser::match_token(state, &[TokenType::And])
            invariant
                steps(*old(state), *state),
                state.current > old(state).current,
                atom_read(*old(state), *state, expr, 25),
                chain_read(*old(state), *state, expr, 25),
                pair_read(*old(state), *state, expr, 25),
                s0 == *old(state),
                left_read(s0, *state, expr, 25, j),
                lower_chain_read(s0, *state, expr, 25),
            decreases state.remaining(),
        {
            proof {
                assert forall|n: nat, o: int| left_level(o) && o < 25 && #[trigger] left_chain_in(s0, n, o, 25) implies false by {
                    assert(ends_operand(s0, s0.current + 2 * n - 1, 25));
                }
            }
            let ghost s1 = *state;
            let ghost e0 = expr;
            proof {
                assert forall|n: nat| #[trigger] left_chain_at(s0, n, 25) implies j < n && atom_at(s1, 24)
                    && BinaryOperator::And == binary_operator_of(s0.tokens@[s0.current + 2 * (j + 1) - 3].token_type) by {
                    lemma_left_chain_next(s0, s1, n, 25, j);
                }
            }
            let right = Box::new(Self::equality(state)?);
            let position = expr.position();
            expr = Expr::Binary { left: Box::new(expr), operator: BinaryOperator::And, right, position };
            proof {
                assert forall|n: nat| #[trigger] left_chain_at(s0, n, 25) implies 1 <= j + 1 <= n && left_chain_parsed(
                    s0,
                    *state,
                    Ok::<Expr, RaccoonError>(expr),
                    j + 1,
                ) by {
                    lemma_left_nested_pos(s0.tokens@, s0.current as int, j, e0);
                    assert(left_nested(s0.tokens@, s0.current as int, j + 1, expr));
                }
                j = j + 1;
            }
        }
        proof {
            assert forall|n: nat| #[trigger] left_chain_at(s0, n, 25) implies j == n by {
                let c = s0.current as int;
                if j < n {
                    assert(binding_level(s0.tokens@[c + 2 * (j - 1) + 1].token_type) == 25);
                }
            }
        }
        Ok(expr)
    }

    /// `a == b`, `a != b`
    pub fn equality(state: &mut ParserState) -> (r: Result<Expr, RaccoonError>)
        requires
            old(state).wf(),
        ensures
            parsed(*old(state), *final(state), r),
            atom_at(*old(state), 24) ==> atom_parsed(*old(state), *final(state), r),
            forall|n: nat| exp_chain_at(*old(state), n, 24) ==> exp_chain_parsed(*old(state), *final(state), r, n),
            pair_at(*old(state), 24) ==> pair_parsed(*old(state), *final(state), r),
            forall|n: nat| #[trigger] left_chain_at(*old(state), n, 24) ==> left_chain_parsed(*old(state), *final(state), r, n),
            forall|n: nat, o: int| left_level(o) && o < 24 && #[trigger] left_chain_in(*old(state), n, o, 24) ==> left_chain_parsed(*old(state), *final(state), r, n),
        decreases old(state).remaining(), 24nat,
    {
        let ghost s0 = *state;
        proof {
            lemma_chain_lower(*old(state), 24);
            assert forall|n: nat| #[trigger] left_chain_at(s0, n, 24) implies atom_at(s0, 23) by {
                lemma_left_chain_start(s0, n, 24);
            }
            assert forall|n: nat, o: int| left_level(o) && o < 24 && #[trigger] left_chain_in(s0, n, o, 24) implies (if o == 23 {
                left_chain_at(s0, n, 23)
            } else {
                left_chain_in(s0, n, o, 23)
            }) by {
                lemma_left_in_lower(s0, 24);
            }
        }
        let mut expr = Self::comparison(state)?;
        let ghost mut j: nat = 1;
        while Parser::match_token(state, &[TokenType::Eq, TokenType::Neq])
            invariant
                steps(*old(state), *state),
                state.current > old(state).current,
                atom_read(*old(state), *state, expr, 24),
                chain_read(*old(state), *state, expr, 24),
                pair_read(*old(state), *state, expr, 24),
                s0 == *old(state),
                left_read(s0, *state, expr, 24, j),
                lower_chain_read(s0, *state, expr, 24),
            decreases state.remaining(),
        {
            let operator = if state.previous().unwrap().token_type == TokenType::Eq {
                BinaryOperator::Equal
            } else {
                BinaryOperator::NotEqual
            };
            proof {
                assert forall|n: nat, o: int| left_level(o) && o < 24 && #[trigger] left_chain_in(s0, n, o, 24) implies false by {
                    assert(ends_operand(s0, s0.current + 2 * n - 1, 24));
                }
            }
            let ghost s1 = *state;
            let ghost e0 = expr;
            proof {
                assert forall|n: nat| #[trigger] left_chain_at(s0, n, 24) implies j < n && atom_at(s1, 23)
                    && operator == binary_operator_of(s0.tokens@[s0.current + 2 * (j + 1) - 3].token_type) by {
                    lemma_left_chain_next(s0, s1, n, 24, j);
                }
            }
            let right = Box::new(Self::comparison(state)?);
            let position = expr.position();
            expr = Expr::Binary { left: Box::new(expr), operator, right, position };
            proof {
                assert forall|n: nat| #[trigger] left_chain_at(s0, n, 24) implies 1 <= j + 1 <= n && left_chain_parsed(
                    s0,
                    *state,
                    Ok::<Expr, RaccoonError>(expr),
                    j + 1,
                ) by {
                    lemma_left_nested_pos(s0.tokens@, s0.current as int, j, e0);
                    assert(left_nested(s0.tokens@, s0.current as int, j + 1, expr));
                }
                j = j + 1;
            }
        }
        proof {
            assert forall|n: nat| #[trigger] left_chain_at(s0, n, 24) implies j == n by {
                let c = s0.current as int;
                if j < n {
                    assert(binding_level(s0.tokens@[c + 2 * (j - 1) + 1].token_type) == 24);
                }
            }
        }
        Ok(expr)
    }

    /// `<`, `>`, `<=`, `>=` and `instanceof Name`
    pub fn comparison(state: &mut ParserState) -> (r: Result<Expr, RaccoonError>)
        requires
            old(state).wf(),
        ensures
            parsed(*old(state), *final(state), r),
            atom_at(*old(state), 23) ==> atom_parsed(*old(state), *final(state), r),
            forall|n: nat| exp_chain_at(*old(state), n, 23) ==> exp_chain_parsed(*old(state), *final(state), r, n),
            pair_at(*old(state), 23) ==> pair_parsed(*old(state), *final(state), r),
            forall|n: nat| #[trigger] left_chain_at(*old(state), n, 23) ==> left_chain_parsed(*old(state), *final(state), r, n),
            forall|n: nat, o: int| left_level(o) && o < 23 && #[trigger] left_chain_in(*old(state), n, o, 23) ==> left_chain_parsed(*old(state), *final(state), r, n),
        decreases old(state).remaining(), 23nat,
    {
        let ghost s0 = *state;
        proof {
            lemma_chain_lower(*old(state), 23);
            assert forall|n: nat| #[trigger] left_chain_at(s0, n, 23) implies atom_at(s0, 22) by {
                lemma_left_chain_start(s0, n, 23);
            }
            assert forall|n: nat, o: int| left_level(o) && o < 23 && #[trigger] left_chain_in(s0, n, o, 23) implies (if o == 22 {
                left_chain_at(s0, n, 22)
            } else {
                left_chain_in(s0, n, o, 22)
            }) by {
                lemma_left_in_lower(s0, 23);
            }
        }
        let mut expr = Self::bitwise_or(state)?;
        let ghost mut j: nat = 1;
        loop
            invariant
                steps(*old(state), *state),
                state.current > old(state).current,
                atom_read(*old(state), *state, expr, 23),
                chain_read(*old(state), *state, expr, 23),
                pair_read(*old(state), *state, expr, 23),
                s0 == *old(state),
                left_read(s0, *state, expr, 23, j),
                lower_chain_read(s0, *state, expr, 23),
            ensures
                steps(*old(state), *state),
                state.current > old(state).current,
                atom_read(*old(state), *state, expr, 23),
                chain_read(*old(state), *state, expr, 23),
                pair_at(*old(state), 23) ==> pair_parsed(*old(state), *state, Ok::<Expr, RaccoonError>(expr)),
                s0 == *old(state),
                left_read(s0, *state, expr, 23, j),
                lower_chain_read(s0, *state, expr, 23),
                forall|n: nat| #[trigger] left_chain_at(s0, n, 23) ==> j == n,
            decreases state.remaining(),
        {
            if Parser::match_token(state, &[TokenType::Lt, TokenType::Gt, TokenType::Lte, TokenType::Gte]) {
                let kind = state.previous().unwrap().token_type;
                let operator = if kind == TokenType::Lt {
                    BinaryOperator::LessThan
                } else if kind == TokenType::Gt {
                    BinaryOperator::GreaterThan
                } else if kind == TokenType::Lte {
                    BinaryOperator::LessEqual
                } else {
                    BinaryOperator::GreaterEqual
                };
                proof {
                    assert forall|n: nat, o: int| left_level(o) && o < 23 && #[trigger] left_chain_in(s0, n, o, 23) implies false by {
                        assert(ends_operand(s0, s0.current + 2 * n - 1, 23));
                    }
                }
                let ghost s1 = *state;
                let ghost e0 = expr;
                proof {
                    assert forall|n: nat| #[trigger] left_chain_at(s0, n, 23) implies j < n && atom_at(s1, 22)
                        && operator == binary_operator_of(s0.tokens@[s0.current + 2 * (j + 1) - 3].token_type) by {
                        lemma_left_chain_next(s0, s1, n, 23, j);
                    }
                }
                let right = Box::new(Self::bitwise_or(state)?);
                let position = expr.position();
                expr = Expr::Binary { left: Box::new(expr), operator, right, position };
                proof {
                    assert forall|n: nat| #[trigger] left_chain_at(s0, n, 23) implies 1 <= j + 1 <= n && left_chain_parsed(
                        s0,
                        *state,
                        Ok::<Expr, RaccoonError>(expr),
                        j + 1,
                    ) by {
                        lemma_left_nested_pos(s0.tokens@, s0.current as int, j, e0);
                        assert(left_nested(s0.tokens@, s0.current as int, j + 1, expr));
                    }
                    j = j + 1;
                }
            } else if Parser::match_token(state, &[TokenType::Instanceof]) {
                proof {
                    assert forall|n: nat, o: int| left_level(o) && o < 23 && #[trigger] left_chain_in(s0, n, o, 23) implies false by {
                        assert(ends_operand(s0, s0.current + 2 * n - 1, 23));
                    }
                    assert forall|n: nat| #[trigger] left_chain_at(s0, n, 23) implies false by {
                        let c = s0.current as int;
                        if j < n {
                            assert(s0.tokens@[c + 2 * (j - 1) + 1].token_type != TokenType::Instanceof);
                        } else {
                            assert(ends_operand(s0, c + 2 * n - 1, 23));
                        }
                    }
                }
                let position = expr.position();
                let class_name = Parser::consume(
                    state,
                    TokenType::Identifier,
                    "Expected class name after 'instanceof'",
                )?.value.clone();
                expr = Expr::InstanceOf { operand: Box::new(expr), class_name, position };
            } else {
                proof {
                    lemma_comparison_level(state.tokens@[old(state).current + 1].token_type);
                    assert forall|n: nat| #[trigger] left_chain_at(s0, n, 23) implies j == n by {
                        let c = s0.current as int;
                        if j < n {
                            let k = s0.tokens@[c + 2 * (j - 1) + 1].token_type;
                            assert(binding_level(k) == 23 && k != TokenType::Instanceof);
                            lemma_comparison_level(k);
                        }
                    }
                }
                break;
            }
        }
        Ok(expr)
    }

    /// `a | b`
    pub fn bitwise_or(state: &mut ParserState) -> (r: Result<Expr, RaccoonError>)
        requires
            old(state).wf(),
        ensures
            parsed(*old(state), *final(state), r),
            atom_at(*old(state), 22) ==> atom_parsed(*old(state), *final(state), r),
            forall|n: nat| exp_chain_at(*old(state), n, 22) ==> exp_chain_parsed(*old(state), *final(state), r, n),
            pair_at(*old(state), 22) ==> pair_parsed(*old(state), *final(state), r),
            forall|n: nat| #[trigger] left_chain_at(*old(state), n, 22) ==> left_chain_parsed(*old(state), *final(state), r, n),
            forall|n: nat, o: int| left_level(o) && o < 22 && #[trigger] left_chain_in(*old(state), n, o, 22) ==> left_chain_parsed(*old(state), *final(state), r, n),
        decreases old(state).remaining(), 22nat,
    {
        let ghost s0 = *state;
        proof {
            lemma_chain_lower(*old(state), 22);
            assert forall|n: nat| #[trigger] left_chain_at(s0, n, 22) implies atom_at(s0, 21) by {
                lemma_left_chain_start(s0, n, 22);
            }
            assert forall|n: nat, o: int| left_level(o) && o < 22 && #[trigger] left_chain_in(s0, n, o, 22) implies (if o == 21 {
                left_chain_at(s0, n, 21)
            } else {
                left_chain_in(s0, n, o, 21)
            }) by {
                lemma_left_in_lower(s0, 22);
            }
        }
        let mut expr = Self::bitwise_xor(state)?;
        let ghost mut j: nat = 1;
        while Parser::match_token(state, &[TokenType::BitwiseOr])
            invariant
                steps(*old(state), *state),
                state.current > old(state).current,
                atom_read(*old(state), *state, expr, 22),
                chain_read(*old(state), *state, expr, 22),
                pair_read(*old(state), *state, expr, 22),
                s0 == *old(state),
                left_read(s0, *state, expr, 22, j),
                lower_chain_read(s0, *state, expr, 22),
            decreases state.remaining(),
        {
            proof {
                assert forall|n: nat, o: int| left_level(o) && o < 22 && #[trigger] left_chain_in(s0, n, o, 22) implies false by {
                    assert(ends_operand(s0, s0.current + 2 * n - 1, 22));
                }
            }
            let ghost s1 = *state;
            let ghost e0 = expr;
            proof {
                assert forall|n: nat| #[trigger] left_chain_at(s0, n, 22) implies j < n && atom_at(s1, 21)
                    && BinaryOperator::BitwiseOr == binary_operator_of(s0.tokens@[s0.current + 2 * (j + 1) - 3].token_type) by {
                    lemma_left_chain_next(s0, s1, n, 22, j);
                }
            }
            let right = Box::new(Self::bitwise_xor(state)?);
            let position = expr.position();
            expr = Expr::Binary { left: Box::new(expr), operator: BinaryOperator::BitwiseOr, right, position };
            proof {
                assert forall|n: nat| #[trigger] left_chain_at(s0, n, 22) implies 1 <= j + 1 <= n && left_chain_parsed(
                    s0,
                    *state,
                    Ok::<Expr, RaccoonError>(expr),
                    j + 1,
                ) by {
                    lemma_left_nested_pos(s0.tokens@, s0.current as int, j, e0);
                    assert(left_nested(s0.tokens@, s0.current as int, j + 1, expr));
                }
                j = j + 1;
            }
        }
        proof {
            assert forall|n: nat| #[trigger] left_chain_at(s0, n, 22) implies j == n by {
                let c = s0.current as int;
                if j < n {
                    assert(binding_level(s0.tokens@[c + 2 * (j - 1) + 1].token_type) == 22);
                }
            }
        }
        Ok(expr)
    }

    /// `a ^ b`
    pub fn bitwise_xor(state: &mut ParserState) -> (r: Result<Expr, RaccoonError>)
        requires
            old(state).wf(),
        ensures
            parsed(*old(state), *final(state), r),
            atom_at(*old(state), 21) ==> atom_parsed(*old(state), *final(state), r),
            forall|n: nat| exp_chain_at(*old(state), n, 21) ==> exp_chain_parsed(*old(state), *final(state), r, n),
            pair_at(*old(state), 21) ==> pair_parsed(*old(state), *final(state), r),
            forall|n: nat| #[trigger] left_chain_at(*old(state), n, 21) ==> left_chain_parsed(*old(state), *final(state), r, n),
            forall|n: nat, o: int| left_level(o) && o < 21 && #[trigger] left_chain_in(*old(state), n, o, 21) ==> left_chain_parsed(*old(state), *final(state), r, n),
        decreases old(state).remaining(), 21nat,
    {
        let ghost s0 = *state;
        proof {
            lemma_chain_lower(*old(state), 21);
            assert forall|n: nat| #[trigger] left_chain_at(s0, n, 21) implies atom_at(s0, 20) by {
                lemma_left_chain_start(s0, n, 21);
            }
            assert forall|n: nat, o: int| left_level(o) && o < 21 && #[trigger] left_chain_in(s0, n, o, 21) implies (if o == 20 {
                left_chain_at(s0, n, 20)
            } else {
                left_chain_in(s0, n, o, 20)
            }) by {
                lemma_left_in_lower(s0, 21);
            }
        }
        let mut expr = Self::bitwise_and(state)?;
        let ghost mut j: nat = 1;
        while Parser::match_token(state, &[TokenType::BitwiseXor])
            invariant
                steps(*old(state), *state),
                state.current > old(state).current,
                atom_read(*old(state), *state, expr, 21),
                chain_read(*old(state), *state, expr, 21),
                pair_read(*old(state), *state, expr, 21),
                s0 == *old(state),
                left_read(s0, *state, expr, 21, j),
                lower_chain_read(s0, *state, expr, 21),
            decreases state.remaining(),
        {
            proof {
                assert forall|n: nat, o: int| left_level(o) && o < 21 && #[trigger] left_chain_in(s0, n, o, 21) implies false by {
                    assert(ends_operand(s0, s0.current + 2 * n - 1, 21));
                }
            }
            let ghost s1 = *state;
            let ghost e0 = expr;
            proof {
                assert forall|n: nat| #[trigger] left_chain_at(s0, n, 21) implies j < n && atom_at(s1, 20)
                    && BinaryOperator::BitwiseXor == binary_operator_of(s0.tokens@[s0.current + 2 * (j + 1) - 3].token_type) by {
                    lemma_left_chain_next(s0, s1, n, 21, j);
                }
            }
            let right = Box::new(Self::bitwise_and(state)?);
            let position = expr.position();
            expr = Expr::Binary { left: Box::new(expr), operator: BinaryOperator::BitwiseXor, right, position };
            proof {
                assert forall|n: nat| #[trigger] left_chain_at(s0, n, 21) implies 1 <= j + 1 <= n && left_chain_parsed(
                    s0,
                    *state,
                    Ok::<Expr, RaccoonError>(expr),
                    j + 1,
                ) by {
                    lemma_left_nested_pos(s0.tokens@, s0.current as int, j, e0);
                    assert(left_nested(s0.tokens@, s0.current as int, j + 1, expr));
                }
                j = j + 1;
            }
        }
        proof {
            assert forall|n: nat| #[trigger] left_chain_at(s0, n, 21) implies j == n by {
                let c = s0.current as int;
                if j < n {
                    assert(binding_level(s0.tokens@[c + 2 * (j - 1) + 1].token_type) == 21);
                }
            }
        }
        Ok(expr)
    }

    /// `a & b`
    pub fn bitwise_and(state: &mut ParserState) -> (r: Result<Expr, RaccoonError>)
        requires
            old(state).wf(),
        ensures
            parsed(*old(state), *final(state), r),
            atom_at(*old(state), 20) ==> atom_parsed(*old(state), *final(state), r),
            forall|n: nat| exp_chain_at(*old(state), n, 20) ==> exp_chain_parsed(*old(state), *final(state), r, n),
            pair_at(*old(state), 20) ==> pair_parsed(*old(state), *final(state), r),
            forall|n: nat| #[trigger] left_chain_at(*old(state), n, 20) ==> left_chain_parsed(*old(state), *final(state), r, n),
            forall|n: nat, o: int| left_level(o) && o < 20 && #[trigger] left_chain_in(*old(state), n, o, 20) ==> left_chain_parsed(*old(state), *final(state), r, n),
        decreases old(state).remaining(), 20nat,
    {
        let ghost s0 = *state;
        proof {
            lemma_chain_lower(*old(state), 20);
            assert forall|n: nat| #[trigger] left_chain_at(s0, n, 20) implies atom_at(s0, 19) by {
                lemma_left_chain_start(s0, n, 20);
            }
            assert forall|n: nat, o: int| left_level(o) && o < 20 && #[trigger] left_chain_in(s0, n, o, 20) implies (if o == 19 {
                left_chain_at(s0, n, 19)
            } else {
                left_chain_in(s0, n, o, 19)
            }) by {
                lemma_left_in_lower(s0, 20);
            }
        }
        let mut expr = Self::shift(state)?;
        let ghost mut j: nat = 1;
        while Parser::match_token(state, &[TokenType::Ampersand])
            invariant
                steps(*old(state), *state),
                state.current > old(state).current,
                atom_read(*old(state), *state, expr, 20),
                chain_read(*old(state), *state, expr, 20),
                pair_read(*old(state), *state, expr, 20),
                s0 == *old(state),
                left_read(s0, *state, expr, 20, j),
                lower_chain_read(s0, *state, expr, 20),
            decreases state.remaining(),
        {
            proof {
                assert forall|n: nat, o: int| left_level(o) && o < 20 && #[trigger] left_chain_in(s0, n, o, 20) implies false by {
                    assert(ends_operand(s0, s0.current + 2 * n - 1, 20));
                }
            }
            let ghost s1 = *state;
            let ghost e0 = expr;
            proof {
                assert forall|n: nat| #[trigger] left_chain_at(s0, n, 20) implies j < n && atom_at(s1, 19)
                    && BinaryOperator::BitwiseAnd == binary_operator_of(s0.tokens@[s0.current + 2 * (j + 1) - 3].token_type) by {
                    lemma_left_chain_next(s0, s1, n, 20, j);
                }
            }
            let right = Box::new(Self::shift(state)?);
            let position = expr.position();
            expr = Expr::Binary { left: Box::new(expr), operator: BinaryOperator::BitwiseAnd, right, position };
            proof {
                assert forall|n: nat| #[trigger] left_chain_at(s0, n, 20) implies 1 <= j + 1 <= n && left_chain_parsed(
                    s0,
                    *state,
                    Ok::<Expr, RaccoonError>(expr),
                    j + 1,
                ) by {
                    lemma_left_nested_pos(s0.tokens@, s0.current as int, j, e0);
                    assert(left_nested(s0.tokens@, s0.current as int, j + 1, expr));
                }
                j = j + 1;
            }
        }
        proof {
            assert forall|n: nat| #[trigger] left_chain_at(s0, n, 20) implies j == n by {
                let c = s0.current as int;
                if j < n {
                    assert(binding_level(s0.tokens@[c + 2 * (j - 1) + 1].token_type) == 20);
                }
            }
        }
        Ok(expr)
    }

    /// `a << b`, `a >> b`, `a >>> b`
    pub fn shift(state: &mut ParserState) -> (r: Result<Expr, RaccoonError>)
        requires
            old(state).wf(),
        ensures
            parsed(*old(state), *final(state), r),
            atom_at(*old(state), 19) ==> atom_parsed(*old(state), *final(state), r),
            forall|n: nat| exp_chain_at(*old(state), n, 19) ==> exp_chain_parsed(*old(state), *final(state), r, n),
            pair_at(*old(state), 19) ==> pair_parsed(*old(state), *final(state), r),
            forall|n: nat| #[trigger] left_chain_at(*old(state), n, 19) ==> left_chain_parsed(*old(state), *final(state), r, n),
            forall|n: nat, o: int| left_level(o) && o < 19 && #[trigger] left_chain_in(*old(state), n, o, 19) ==> left_chain_parsed(*old(state), *final(state), r, n),
        decreases old(state).remaining(), 19nat,
    {
        let ghost s0 = *state;
        proof {
            lemma_chain_lower(*old(state), 19);
            assert forall|n: nat| #[trigger] left_chain_at(s0, n, 19) implies atom_at(s0, 18) by {
                lemma_left_chain_start(s0, n, 19);
            }
            assert forall|n: nat, o: int| left_level(o) && o < 19 && #[trigger] left_chain_in(s0, n, o, 19) implies left_chain_in(
                s0,
                n,
                o,
                18,
            ) by {
                lemma_left_in_lower(s0, 19);
            }
        }
        let mut expr = Self::range(state)?;
        let ghost mut j: nat = 1;
        while Parser::match_token(
            state,
            &[TokenType::LeftShift, TokenType::RightShift, TokenType::UnsignedRightShift],
        )
            invariant
                steps(*old(state), *state),
                state.current > old(state).current,
                atom_read(*old(state), *state, expr, 19),
                chain_read(*old(state), *state, expr, 19),
                pair_read(*old(state), *state, expr, 19),
                s0 == *old(state),
                left_read(s0, *state, expr, 19, j),
                lower_chain_read(s0, *state, expr, 19),
            decreases state.remaining(),
        {
            let kind = state.previous().unwrap().token_type;
            let operator = if kind == TokenType::LeftShift {
                BinaryOperator::LeftShift
            } else if kind == TokenType::RightShift {
                BinaryOperator::RightShift
            } else {
                BinaryOperator::UnsignedRightShift
            };
            proof {
                assert forall|n: nat, o: int| left_level(o) && o < 19 && #[trigger] left_chain_in(s0, n, o, 19) implies false by {
                    assert(ends_operand(s0, s0.current + 2 * n - 1, 19));
                }
            }
            let ghost s1 = *state;
            let ghost e0 = expr;
            proof {
                assert forall|n: nat| #[trigger] left_chain_at(s0, n, 19) implies j < n && atom_at(s1, 18)
                    && operator == binary_operator_of(s0.tokens@[s0.current + 2 * (j + 1) - 3].token_type) by {
                    lemma_left_chain_next(s0, s1, n, 19, j);
                }
            }
            let right = Box::new(Self::range(state)?);
            let position = expr.position();
            expr = Expr::Binary { left: Box::new(expr), operator, right, position };
            proof {
                assert forall|n: nat| #[trigger] left_chain_at(s0, n, 19) implies 1 <= j + 1 <= n && left_chain_parsed(
                    s0,
                    *state,
                    Ok::<Expr, RaccoonError>(expr),
                    j + 1,
                ) by {
                    lemma_left_nested_pos(s0.tokens@, s0.current as int, j, e0);
                    assert(left_nested(s0.tokens@, s0.current as int, j + 1, expr));
                }
                j = j + 1;
            }
        }
        proof {
            assert forall|n: nat| #[trigger] left_chain_at(s0, n, 19) implies j == n by {
                let c = s0.current as int;
                if j < n {
                    assert(binding_level(s0.tokens@[c + 2 * (j - 1) + 1].token_type) == 19);
                }
            }
        }
        Ok(expr)
    }

    /// `a..b`
    pub fn range(state: &mut ParserState) -> (r: Result<Expr, RaccoonError>)
        requires
            old(state).wf(),
        ensures
            parsed(*old(state), *final(state), r),
            atom_at(*old(state), 18) ==> atom_parsed(*old(state), *final(state), r),
            forall|n: nat| exp_chain_at(*old(state), n, 18) ==> exp_chain_parsed(*old(state), *final(state), r, n),
            pair_at(*old(state), 18) ==> pair_parsed(*old(state), *final(state), r),
            forall|n: nat, o: int| left_level(o) && o < 18 && #[trigger] left_chain_in(*old(state), n, o, 18) ==> left_chain_parsed(*old(state), *final(state), r, n),
        decreases old(state).remaining(), 18nat,
    {
        let ghost s0 = *state;
        proof {
            lemma_chain_lower(*old(state), 18);
            assert forall|n: nat, o: int| left_level(o) && o < 18 && #[trigger] left_chain_in(s0, n, o, 18) implies (if o == 17 {
                left_chain_at(s0, n, 17)
            } else {
                left_chain_in(s0, n, o, 17)
            }) by {
                lemma_left_in_lower(s0, 18);
            }
        }
        let expr = Self::term(state)?;
        if Parser::match_token(state, &[TokenType::Range]) {
            proof {
                assert forall|n: nat, o: int| left_level(o) && o < 18 && #[trigger] left_chain_in(s0, n, o, 18) implies false by {
                    assert(ends_operand(s0, s0.current + 2 * n - 1, 18));
                }
            }
            let end = Box::new(Self::term(state)?);
            let position = expr.position();
            return Ok(Expr::Range { start: Box::new(expr), end, position });
        }
        Ok(expr)
    }

    /// `a + b`, `a - b`
    pub fn term(state: &mut ParserState) -> (r: Result<Expr, RaccoonError>)
        requires
            old(state).wf(),
        ensures
            parsed(*old(state), *final(state), r),
            atom_at(*old(state), 17) ==> atom_parsed(*old(state), *final(state), r),
            forall|n: nat| exp_chain_at(*old(state), n, 17) ==> exp_chain_parsed(*old(state), *final(state), r, n),
            pair_at(*old(state), 17) ==> pair_parsed(*old(state), *final(state), r),
            forall|n: nat| #[trigger] left_chain_at(*old(state), n, 17) ==> left_chain_parsed(*old(state), *final(state), r, n),
            forall|n: nat, o: int| left_level(o) && o < 17 && #[trigger] left_chain_in(*old(state), n, o, 17) ==> left_chain_parsed(*old(state), *final(state), r, n),
        decreases old(state).remaining(), 17nat,
    {
        let ghost s0 = *state;
        proof {
            lemma_chain_lower(*old(state), 17);
            assert forall|n: nat| #[trigger] left_chain_at(s0, n, 17) implies atom_at(s0, 16) by {
                lemma_left_chain_start(s0, n, 17);
            }
            assert forall|n: nat, o: int| left_level(o) && o < 17 && #[trigger] left_chain_in(s0, n, o, 17) implies (if o == 16 {
                left_chain_at(s0, n, 16)
            } else {
                left_chain_in(s0, n, o, 16)
            }) by {
                lemma_left_in_lower(s0, 17);
            }
        }
        let mut expr = Self::factor(state)?;
        let ghost mut j: nat = 1;
        while Parser::match_token(state, &[TokenType::Plus, TokenType::Minus])
            invariant
                steps(*old(state), *state),
                s0 == *old(state),
                state.current > old(state).current,
                atom_read(*old(state), *state, expr, 17),
                chain_read(*old(state), *state, expr, 17),
                pair_read(*old(state), *state, expr, 17),
                left_read(s0, *state, expr, 17, j),
                lower_chain_read(s0, *state, expr, 17),
            decreases state.remaining(),
        {
            proof {
                assert forall|n: nat, o: int| left_level(o) && o < 17 && #[trigger] left_chain_in(s0, n, o, 17) implies false by {
                    assert(ends_operand(s0, s0.current + 2 * n - 1, 17));
                }
            }
            let ghost s1 = *state;
            let ghost e0 = expr;
            let operator = if state.previous().unwrap().token_type == TokenType::Plus {
                BinaryOperator::Add
            } else {
                BinaryOperator::Subtract
            };
            proof {
                assert forall|n: nat| #[trigger] left_chain_at(s0, n, 17) implies j < n && atom_at(s1, 16)
                    && operator == binary_operator_of(s0.tokens@[s0.current + 2 * (j + 1) - 3].token_type) by {
                    lemma_left_chain_next(s0, s1, n, 17, j);
                }
            }
            let right = Box::new(Self::factor(state)?);
            let position = expr.position();
            expr = Expr::Binary { left: Box::new(expr), operator, right, position };
            proof {
                assert forall|n: nat| #[trigger] left_chain_at(s0, n, 17) implies 1 <= j + 1 <= n && left_chain_parsed(
                    s0,
                    *state,
                    Ok::<Expr, RaccoonError>(expr),
                    j + 1,
                ) by {
                    lemma_left_nested_pos(s0.tokens@, s0.current as int, j, e0);
                    assert(left_nested(s0.tokens@, s0.current as int, j + 1, expr));
                }
                j = j + 1;
            }
        }
        proof {
            assert forall|n: nat| #[trigger] left_chain_at(s0, n, 17) implies j == n by {
                let c = s0.current as int;
                if j < n {
                    assert(binding_level(s0.tokens@[c + 2 * (j - 1) + 1].token_type) == 17);
                }
            }
        }
        Ok(expr)
    }

    /// `a * b`, `a / b`, `a % b`
    pub fn factor(state: &mut ParserState) -> (r: Result<Expr, RaccoonError>)
        requires
            old(state).wf(),
        ensures
            parsed(*old(state), *final(state), r),
            atom_at(*old(state), 16) ==> atom_parsed(*old(state), *final(state), r),
            forall|n: nat| exp_chain_at(*old(state), n, 16) ==> exp_chain_parsed(*old(state), *final(state), r, n),
            pair_at(*old(state), 16) ==> pair_parsed(*old(state), *final(state), r),
            forall|n: nat| #[trigger] left_chain_at(*old(state), n, 16) ==> left_chain_parsed(*old(state), *final(state), r, n),
        decreases old(state).remaining(), 16nat,
    {
        let ghost s0 = *state;
        proof {
            lemma_chain_lower(*old(state), 16);
            assert forall|n: nat| #[trigger] left_chain_at(s0, n, 16) implies atom_at(s0, 15) by {
                lemma_left_chain_start(s0, n, 16);
            }
        }
        let mut expr = Self::exponent(state)?;
        let ghost mut j: nat = 1;
        while Parser::match_token(state, &[TokenType::Multiply, TokenType::Divide, TokenType::Modulo])
            invariant
                steps(*old(state), *state),
                state.current > old(state).current,
                atom_read(*old(state), *state, expr, 16),
                chain_read(*old(state), *state, expr, 16),
                pair_read(*old(state), *state, expr, 16),
                s0 == *old(state),
                left_read(s0, *state, expr, 16, j),
            decreases state.remaining(),
        {
            let kind = state.previous().unwrap().token_type;
            let operator = if kind == TokenType::Multiply {
                BinaryOperator::Multiply
            } else if kind == TokenType::Divide {
                BinaryOperator::Divide
            } else {
                BinaryOperator::Modulo
            };
            let ghost s1 = *state;
            let ghost e0 = expr;
            proof {
                assert forall|n: nat| #[trigger] left_chain_at(s0, n, 16) implies j < n && atom_at(s1, 15)
                    && operator == binary_operator_of(s0.tokens@[s0.current + 2 * (j + 1) - 3].token_type) by {
                    lemma_left_chain_next(s0, s1, n, 16, j);
                }
            }
            let right = Box::new(Self::exponent(state)?);
            let position = expr.position();
            expr = Expr::Binary { left: Box::new(expr), operator, right, position };
            proof {
                assert forall|n: nat| #[trigger] left_chain_at(s0, n, 16) implies 1 <= j + 1 <= n && left_chain_parsed(
                    s0,
                    *state,
                    Ok::<Expr, RaccoonError>(expr),
                    j + 1,
                ) by {
                    lemma_left_nested_pos(s0.tokens@, s0.current as int, j, e0);
                    assert(left_nested(s0.tokens@, s0.current as int, j + 1, expr));
                }
                j = j + 1;
            }
        }
        proof {
            assert forall|n: nat| #[trigger] left_chain_at(s0, n, 16) implies j == n by {
                let c = s0.current as int;
                if j < n {
                    assert(binding_level(s0.tokens@[c + 2 * (j - 1) + 1].token_type) == 16);
                }
            }
        }
        Ok(expr)
    }

    /// `a ** b`, right-associative.
    pub fn exponent(state: &mut ParserState) -> (r: Result<Expr, RaccoonError>)
        requires
            old(state).wf(),
        ensures
            parsed(*old(state), *final(state), r),
            atom_at(*old(state), 15) ==> atom_parsed(*old(state), *final(state), r),
            pair_at(*old(state), 15) ==> pair_parsed(*old(state), *final(state), r),
            forall|n: nat| exp_chain_at(*old(state), n, 15) ==> exp_chain_parsed(*old(state), *final(state), r, n),
        decreases old(state).remaining(), 15nat,
    {
        let ghost s0 = *state;
        proof {
            assert forall|n: nat| exp_chain_at(s0, n, 15) implies atom_at(s0, 14) by {
                assert(atom_kind(s0.tokens@[s0.current + 2 * 0].token_type));
                if n > 1 {
                    assert(s0.tokens@[s0.current + 2 * 0 + 1].token_type == TokenType::Exponent);
                }
            }
        }
        let mut expr = Self::unary(state)?;
        if Parser::match_token(state, &[TokenType::Exponent]) {
            let ghost s1 = *state;
            proof {
                assert forall|n: nat| exp_chain_at(s0, n, 15) implies n > 1 && exp_chain_at(s1, (n - 1) as nat, 15) by {
                    let c = s0.current as int;
                    assert(s1.tokens@ == s0.tokens@);
                    assert(s1.current == c + 2);
                    if n == 1 {
                        assert(s0.tokens@[c + 1].token_type == TokenType::Exponent);
                    }
                    assert forall|k: int| 0 <= k < n - 1 implies atom_kind(#[trigger] s1.tokens@[s1.current + 2 * k].token_type) by {
                        assert(atom_kind(s0.tokens@[c + 2 * (k + 1)].token_type));
                    }
                    assert forall|k: int| 0 <= k < n - 2 implies (#[trigger] s1.tokens@[s1.current + 2 * k + 1]).token_type == TokenType::Exponent by {
                        assert(s0.tokens@[c + 2 * (k + 1) + 1].token_type == TokenType::Exponent);
                    }
                }
            }
            let right = Box::new(Self::exponent(state)?);
            let position = expr.position();
            expr = Expr::Binary { left: Box::new(expr), operator: BinaryOperator::Exponent, right, position };
        }
        Ok(expr)
    }

    /// `typeof x`, `-x`, `!x`, `~x`, `++x`, `--x`, `await x`, `new C(...)`
    pub fn unary(state: &mut ParserState) -> (r: Result<Expr, RaccoonError>)
        requires
            old(state).wf(),
        ensures
            parsed(*old(state), *final(state), r),
            unary_result(*old(state), r),
            atom_at(*old(state), 14) ==> atom_parsed(*old(state), *final(state), r),
            prefix_at(*old(state)) ==> prefix_parsed(*old(state), *final(state), r),
        decreases old(state).remaining(), 14nat,
    {
        if Parser::match_token(state, &[TokenType::Typeof]) {
            let position = state.previous().unwrap().position;
            let operand = Box::new(Self::unary(state)?);
            return Ok(Expr::TypeOf { operand, position });
        }
        if Parser::match_token(state, &[TokenType::Minus, TokenType::Bang, TokenType::BitwiseNot]) {
            let kind = state.previous().unwrap().token_type;
            let operator = if kind == TokenType::Minus {
                UnaryOperator::Negate
            } else if kind == TokenType::Bang {
                UnaryOperator::Not
            } else {
                UnaryOperator::BitwiseNot
            };
            let operand = Box::new(Self::unary(state)?);
            let position = state.previous().unwrap().position;
            return Ok(Expr::Unary { operator, operand, position });
        }
        if Parser::match_token(state, &[TokenType::Increment, TokenType::Decrement]) {
            let operator = if state.previous().unwrap().token_type == TokenType::Increment {
                UpdateOperator::Increment
            } else {
                UpdateOperator::Decrement
            };
            let position = state.previous().unwrap().position;
            let operand = Box::new(Self::unary(state)?);
            return Ok(Expr::UnaryUpdate { operator, operand, is_prefix: true, position });
        }
        if Parser::match_token(state, &[TokenType::Await]) {
            let position = state.previous().unwrap().position;
            let expression = Box::new(Self::unary(state)?);
            return Ok(Expr::Await { expression, position });
        }
        if Parser::match_token(state, &[TokenType::New]) {
            return Self::new_expression(state);
        }
        Self::postfix(state)
    }

    /// `x++`, `x--`, `x!`
    pub fn postfix(state: &mut ParserState) -> (r: Result<Expr, RaccoonError>)
        requires
            old(state).wf(),
        ensures
            parsed(*old(state), *final(state), r),
            atom_at(*old(state), 13) ==> atom_parsed(*old(state), *final(state), r),
            suffix_at(*old(state)) ==> suffix_parsed(*old(state), *final(state), r),
        decreases old(state).remaining(), 13nat,
    {
        let expr = Self::call(state)?;
        if Parser::match_token(state, &[TokenType::Increment, TokenType::Decrement]) {
            let operator = if state.previous().unwrap().token_type == TokenType::Increment {
                UpdateOperator::Increment
            } else {
                UpdateOperator::Decrement
            };
            let position = state.previous().unwrap().position;
            return Ok(Expr::UnaryUpdate { operator, operand: Box::new(expr), is_prefix: false, position });
        }
        if Parser::match_token(state, &[TokenType::Bang]) {
            let position = state.previous().unwrap().position;
            return Ok(Expr::NullAssertion { operand: Box::new(expr), position });
        }
        Ok(expr)
    }

    /// `new Name<T, ...>(args)`, after `new`.
    pub fn new_expression(state: &mut ParserState) -> (r: Result<Expr, RaccoonError>)
        requires
            old(state).wf(),
            old(state).current > 0,
        ensures
            parsed(*old(state), *final(state), r),
            expects_first(*old(state), *final(state), TokenType::Identifier, "Expected class name after new"@, r),
        decreases old(state).remaining(), 45nat,
    {
        let position = state.previous().unwrap().position;
        let class_name = Parser::consume(state, TokenType::Identifier, "Expected class name after new")?.value.clone();
        let mut type_args: Vec<Type> = Vec::new();
        if Parser::match_token(state, &[TokenType::Lt]) {
            loop
                invariant
                    steps(*old(state), *state),
                    old(state).cur_kind() == TokenType::Identifier,
                    state.current > old(state).current,
                ensures
                    steps(*old(state), *state),
                    old(state).cur_kind() == TokenType::Identifier,
                    state.current > old(state).current,
                decreases state.remaining(),
            {
                type_args.push(Types::parse_type(state)?);
                if !Parser::match_token(state, &[TokenType::Comma]) {
                    break;
                }
            }
            Parser::consume(state, TokenType::Gt, "Expected '>' after type arguments")?;
        }
        let mut args: Vec<Expr> = Vec::new();
        if Parser::match_token(state, &[TokenType::LeftParen]) {
            Self::parse_arguments(state, &mut args)?;
            Parser::consume(state, TokenType::RightParen, "Expected ')' after arguments")?;
        }
        Ok(Expr::New { class_name, type_args, args, position })
    }

    /// Comma-separated expressions up to a `)`, which is left in place.
    fn parse_arguments(state: &mut ParserState, args: &mut Vec<Expr>) -> (r: Result<(), RaccoonError>)
        requires
            old(state).wf(),
        ensures
            steps(*old(state), *final(state)),
            final(args)@.len() >= old(args)@.len(),
            final(args)@.subrange(0, old(args)@.len() as int) == old(args)@,
            old(state).cur_kind() == TokenType::RightParen ==> final(state).current == old(state).current
                && r is Ok && final(args)@ == old(args)@,
        decreases old(state).remaining(), 45nat,
    {
        if !state.check(&TokenType::RightParen) {
            loop
                invariant
                    steps(*old(state), *state),
                    old(state).cur_kind() != TokenType::RightParen,
                    args@.len() >= old(args)@.len(),
                    args@.subrange(0, old(args)@.len() as int) == old(args)@,
                ensures
                    steps(*old(state), *state),
                    args@.len() >= old(args)@.len(),
                    args@.subrange(0, old(args)@.len() as int) == old(args)@,
                decreases state.remaining(),
            {
                args.push(Self::expression(state)?);
                if !Parser::match_token(state, &[TokenType::Comma]) {
                    break;
                }
            }
        }
        Ok(())
    }

    /// Calls, member access, optional chaining and indexing after a primary expression.
    pub fn call(state: &mut ParserState) -> (r: Result<Expr, RaccoonError>)
        requires
            old(state).wf(),
        ensures
            parsed(*old(state), *final(state), r),
            call_atom_at(*old(state)) ==> atom_parsed(*old(state), *final(state), r),
        decreases old(state).remaining(), 12nat,
    {
        let mut expr = Self::primary(state)?;
        loop
            invariant
                steps(*old(state), *state),
                state.current > old(state).current,
                call_atom_at(*old(state)) ==> atom_parsed(*old(state), *state, Ok::<Expr, RaccoonError>(expr)),
            ensures
                steps(*old(state), *state),
                state.current > old(state).current,
                call_atom_at(*old(state)) ==> atom_parsed(*old(state), *state, Ok::<Expr, RaccoonError>(expr)),
            decreases state.remaining(),
        {
            if state.check(&TokenType::Lt) && Parser::check_next(state, &[TokenType::Identifier, TokenType::LeftBracket]) {
                let saved_pos = state.current;
                if let Ok(_) = Self::try_parse_call_type_arguments(state) {
                    if Parser::match_token(state, &[TokenType::LeftParen]) {
                        expr = Self::finish_call(state, expr)?;
                        continue;
                    }
                }
                state.current = saved_pos;
            }
            if Parser::match_token(state, &[TokenType::LeftParen]) {
                expr = Self::finish_call(state, expr)?;
            } else if Parser::match_token(state, &[TokenType::QuestionDot]) {
                let name = Parser::consume_property_name(state)?;
                let position = expr.position();
                expr = Expr::OptionalChaining { object: Box::new(expr), property: name, position };
            } else if Parser::match_token(state, &[TokenType::Dot]) {
                let name = Parser::consume_property_name(state)?;
                let position = expr.position();
                if state.check(&TokenType::LeftParen) {
                    state.advance();
                    let mut args: Vec<Expr> = Vec::new();
                    Self::parse_arguments(state, &mut args)?;
                    Parser::consume(state, TokenType::RightParen, "Expected ')' after method arguments")?;
                    expr = Expr::MethodCall { object: Box::new(expr), method: name, args, position };
                } else {
                    expr = Expr::Member { object: Box::new(expr), property: name, position };
                }
            } else if Parser::match_token(state, &[TokenType::LeftBracket]) {
                let index = Box::new(Self::expression(state)?);
                Parser::consume(state, TokenType::RightBracket, "Expected ']' after index")?;
                let position = expr.position();
                expr = Expr::Index { object: Box::new(expr), index, position };
            } else {
                break;
            }
        }
        Ok(expr)
    }

    /// The arguments of a call after `(`: spread, named and positional arguments, then `)`.
    fn finish_call(state: &mut ParserState, callee: Expr) -> (r: Result<Expr, RaccoonError>)
        requires
            old(state).wf(),
        ensures
            parsed(*old(state), *final(state), r),
            old(state).cur_kind() == TokenType::RightParen ==> final(state).current == old(state).current + 1
                && (r matches Ok(Expr::Call { callee: c, args, named_args, position }) && *c == callee
                && args@.len() == 0 && named_args@.len() == 0 && position == crate::ast::expr_pos(callee)),
        decreases old(state).remaining(), 45nat,
    {
        let mut args: Vec<Expr> = Vec::new();
        let mut named_args: Vec<NamedArg> = Vec::new();
        if !state.check(&TokenType::RightParen) {
            loop
                invariant
                    steps(*old(state), *state),
                    old(state).cur_kind() != TokenType::RightParen,
                ensures
                    steps(*old(state), *state),
                decreases state.remaining(),
            {
                if Parser::match_token(state, &[TokenType::Spread]) {
                    let position = state.previous().unwrap().position;
                    let argument = Box::new(Self::expression(state)?);
                    args.push(Expr::Spread { argument, position });
                } else if state.check(&TokenType::Identifier) && Parser::check_next(state, &[TokenType::Colon]) {
                    let name = state.advance().unwrap().value.clone();
                    state.advance();
                    let value = Self::expression(state)?;
                    insert_named_arg(&mut named_args, NamedArg { name, value });
                } else {
                    if named_args.len() > 0 {
                        return Err(RaccoonError::new(
                            "Positional arguments must come before named arguments",
                            state.peek().unwrap().position,
                            copy_opt_string(&state.file),
                        ));
                    }
                    args.push(Self::expression(state)?);
                }
                if !Parser::match_token(state, &[TokenType::Comma]) {
                    break;
                }
            }
        }
        Parser::consume(state, TokenType::RightParen, "Expected ')' after arguments")?;
        let position = callee.position();
        Ok(Expr::Call { callee: Box::new(callee), args, named_args, position })
    }

    /// Literals, names, `this`, `super`, parenthesised expressions, arrow functions, array
    /// and object literals and template strings.
    pub fn primary(state: &mut ParserState) -> (r: Result<Expr, RaccoonError>)
        requires
            old(state).wf(),
        ensures
            parsed(*old(state), *final(state), r),
            primary_result(*old(state), *final(state), r),
        decreases old(state).remaining(), 11nat,
    {
        if Parser::match_token(state, &[TokenType::This]) {
            return Ok(Expr::This { position: state.previous().unwrap().position });
        }
        if Parser::match_token(state, &[TokenType::Super]) {
            return Ok(Expr::Super { position: state.previous().unwrap().position });
        }
        if Parser::match_token(state, &[TokenType::Identifier]) {
            let t = state.previous().unwrap();
            return Ok(Expr::Identifier { name: t.value.clone(), position: t.position });
        }
        if Parser::match_token(state, &[TokenType::IntLiteral]) {
            let t = state.previous().unwrap();
            let value = int_literal_value(t.value.as_str());
            return Ok(Expr::IntLiteral { value, position: t.position });
        }
        if Parser::match_token(state, &[TokenType::BigIntLiteral]) {
            let t = state.previous().unwrap();
            return Ok(Expr::BigIntLiteral { value: t.value.clone(), position: t.position });
        }
        if Parser::match_token(state, &[TokenType::FloatLiteral]) {
            let t = state.previous().unwrap();
            return Ok(Expr::FloatLiteral { text: t.value.clone(), position: t.position });
        }
        if Parser::match_token(state, &[TokenType::StrLiteral]) {
            let t = state.previous().unwrap();
            return Ok(Expr::StrLiteral { value: t.value.clone(), position: t.position });
        }
        if Parser::match_token(state, &[TokenType::True]) {
            return Ok(Expr::BoolLiteral { value: true, position: state.previous().unwrap().position });
        }
        if Parser::match_token(state, &[TokenType::False]) {
            return Ok(Expr::BoolLiteral { value: false, position: state.previous().unwrap().position });
        }
        if Parser::match_token(state, &[TokenType::NullLiteral]) {
            return Ok(Expr::NullLiteral { position: state.previous().unwrap().position });
        }
        if state.check(&TokenType::LeftParen) {
            let saved_pos = state.current;
            if let Ok(arrow) = Self::try_parse_arrow_function(state, false) {
                return Ok(Expr::ArrowFn(arrow));
            }
            state.current = saved_pos;
            state.advance();
            let expr = Self::expression(state)?;
            Parser::consume(state, TokenType::RightParen, "Expected ')' after expression")?;
            return Ok(expr);
        }
        if Parser::match_token(state, &[TokenType::LeftBracket]) {
            return Self::array_literal(state);
        }
        if Parser::match_token(state, &[TokenType::LeftBrace]) {
            return Self::object_literal(state);
        }
        if Parser::match_token(state, &[TokenType::TemplateStrStart]) {
            return Self::template_string(state);
        }
        Err(RaccoonError::new("Expected expression", state.peek().unwrap().position, copy_opt_string(&state.file)))
    }

    /// `[a, ...b, c]`, after `[`.
    pub fn array_literal(state: &mut ParserState) -> (r: Result<Expr, RaccoonError>)
        requires
            old(state).wf(),
            old(state).current > 0,
        ensures
            parsed(*old(state), *final(state), r),
            old(state).cur_kind() == TokenType::RightBracket ==> final(state).current == old(state).current + 1
                && (r matches Ok(Expr::ArrayLiteral { elements, position }) && elements@.len() == 0
                && position == old(state).tokens@[old(state).current - 1].position),
            single_before(*old(state), TokenType::RightBracket) ==> final(state).current == old(state).current + 2
                && (r matches Ok(Expr::ArrayLiteral { elements, position }) && elements@.len() == 1
                && atom_of(old(state).tokens@[old(state).current as int], elements@[0])
                && position == old(state).tokens@[old(state).current - 1].position),
        decreases old(state).remaining(), 45nat,
    {
        let position = state.previous().unwrap().position;
        let mut elements: Vec<Expr> = Vec::new();
        if !state.check(&TokenType::RightBracket) {
            loop
                invariant_except_break
                    single_before(*old(state), TokenType::RightBracket) ==> state.current == old(state).current
                        && elements@.len() == 0,
                invariant
                    steps(*old(state), *state),
                    old(state).cur_kind() != TokenType::RightBracket,
                ensures
                    steps(*old(state), *state),
                    single_before(*old(state), TokenType::RightBracket) ==> state.current == old(state).current + 1
                        && elements@.len() == 1 && atom_of(old(state).tokens@[old(state).current as int], elements@[0]),
                decreases state.remaining(),
            {
                if Parser::match_token(state, &[TokenType::Spread]) {
                    let position = state.previous().unwrap().position;
                    let argument = Box::new(Self::expression(state)?);
                    elements.push(Expr::Spread { argument, position });
                } else {
                    elements.push(Self::expression(state)?);
                }
                if !Parser::match_token(state, &[TokenType::Comma]) {
                    break;
                }
            }
        }
        Parser::consume(state, TokenType::RightBracket, "Expected ']'")?;
        Ok(Expr::ArrayLiteral { elements, position })
    }

    /// `{ key: value, name, "key": value, ...spread }`, after `{`.
    pub fn object_literal(state: &mut ParserState) -> (r: Result<Expr, RaccoonError>)
        requires
            old(state).wf(),
            old(state).current > 0,
        ensures
            parsed(*old(state), *final(state), r),
            old(state).cur_kind() == TokenType::RightBrace ==> final(state).current == old(state).current + 1
                && (r matches Ok(Expr::ObjectLiteral { properties, position }) && properties@.len() == 0
                && position == old(state).tokens@[old(state).current - 1].position),
            !(old(state).cur_kind() == TokenType::RightBrace || old(state).cur_kind() == TokenType::Spread
                || old(state).cur_kind() == TokenType::StrLiteral || old(state).cur_kind() == TokenType::Identifier)
                ==> final(state).current == old(state).current && (r matches Err(e) && e.message@
                == "Expected property name or string literal"@),
            one_entry_at(*old(state)) ==> final(state).current == old(state).current + 4 && (r matches Ok(
                Expr::ObjectLiteral { properties, .. },
            ) && properties@.len() == 1 && (properties@[0] matches ObjectLiteralProperty::KeyValue { key, value }
                && key@ == old(state).tokens@[old(state).current as int].value@ && atom_of(
                old(state).tokens@[old(state).current + 2],
                value,
            ))),
        decreases old(state).remaining(), 45nat,
    {
        let position = state.previous().unwrap().position;
        let mut properties: Vec<ObjectLiteralProperty> = Vec::new();
        if !state.check(&TokenType::RightBrace) {
            loop
                invariant_except_break
                    one_entry_at(*old(state)) ==> state.current == old(state).current && properties@.len() == 0,
                invariant
                    steps(*old(state), *state),
                    old(state).cur_kind() != TokenType::RightBrace,
                    !(old(state).cur_kind() == TokenType::Spread || old(state).cur_kind() == TokenType::StrLiteral
                        || old(state).cur_kind() == TokenType::Identifier) ==> state.current == old(state).current,
                ensures
                    one_entry_at(*old(state)) ==> state.current == old(state).current + 3 && properties@.len() == 1
                        && (properties@[0] matches ObjectLiteralProperty::KeyValue { key, value } && key@
                        == old(state).tokens@[old(state).current as int].value@ && atom_of(
                        old(state).tokens@[old(state).current + 2],
                        value,
                    )),
                    steps(*old(state), *state),
                    old(state).cur_kind() == TokenType::Spread || old(state).cur_kind() == TokenType::StrLiteral
                        || old(state).cur_kind() == TokenType::Identifier,
                decreases state.remaining(),
            {
                if Parser::match_token(state, &[TokenType::Spread]) {
                    let spread_expr = Self::expression(state)?;
                    properties.push(ObjectLiteralProperty::Spread(spread_expr));
                } else {
                    let key = if state.check(&TokenType::StrLiteral) {
                        state.advance().unwrap().value.clone()
                    } else {
                        Parser::consume(state, TokenType::Identifier, "Expected property name or string literal")?.value.clone()
                    };
                    if state.check(&TokenType::Comma) || state.check(&TokenType::RightBrace) {
                        let value = Expr::Identifier {
                            name: key.clone(),
                            position: state.previous().unwrap().position,
                        };
                        properties.push(ObjectLiteralProperty::KeyValue { key, value });
                    } else {
                        Parser::consume(state, TokenType::Colon, "Expected ':' after property name")?;
                        let value = Self::expression(state)?;
                        properties.push(ObjectLiteralProperty::KeyValue { key, value });
                    }
                }
                if !Parser::match_token(state, &[TokenType::Comma]) {
                    break;
                }
            }
        }
        Parser::consume(state, TokenType::RightBrace, "Expected '}'")?;
        Ok(Expr::ObjectLiteral { properties, position })
    }

    /// The parts of a template string, after its opening backquote.
    pub fn template_string(state: &mut ParserState) -> (r: Result<Expr, RaccoonError>)
        requires
            old(state).wf(),
            old(state).current > 0,
        ensures
            parsed(*old(state), *final(state), r),
            old(state).cur_kind() == TokenType::TemplateStrEnd ==> final(state).current == old(state).current + 1
                && (r matches Ok(Expr::TemplateStr { parts, position }) && parts@.len() == 0
                && position == old(state).tokens@[old(state).current - 1].position),
            !(old(state).cur_kind() == TokenType::TemplateStrEnd || old(state).cur_kind() == TokenType::TemplateStrPart
                || old(state).cur_kind() == TokenType::TemplateInterpolationStart)
                ==> final(state).current == old(state).current && (r matches Err(e) && e.message@
                == "Expected template string part or interpolation"@),
            old(state).cur_kind() == TokenType::TemplateStrPart && old(state).kind_ahead(1) == Some(TokenType::TemplateStrEnd)
                ==> final(state).current == old(state).current + 2 && (r matches Ok(Expr::TemplateStr { parts, position })
                && parts@.len() == 1 && (parts@[0] matches TemplateStrPart::Text { value, position: p } && value@
                == old(state).tokens@[old(state).current as int].value@ && p
                == old(state).tokens@[old(state).current as int].position) && position
                == old(state).tokens@[old(state).current - 1].position),
        decreases old(state).remaining(), 45nat,
    {
        let position = state.previous().unwrap().position;
        let mut parts: Vec<TemplateStrPart> = Vec::new();
        while !state.check(&TokenType::TemplateStrEnd)
            invariant
                steps(*old(state), *state),
                old(state).cur_kind() == TokenType::TemplateStrPart && old(state).kind_ahead(1) == Some(TokenType::TemplateStrEnd)
                    ==> (state.current == old(state).current && parts@.len() == 0) || (state.current == old(state).current + 1
                    && parts@.len() == 1 && (parts@[0] matches TemplateStrPart::Text { value, position: p } && value@
                    == old(state).tokens@[old(state).current as int].value@ && p
                    == old(state).tokens@[old(state).current as int].position)),
                !(old(state).cur_kind() == TokenType::TemplateStrPart || old(state).cur_kind()
                    == TokenType::TemplateInterpolationStart) ==> state.current == old(state).current
                    && parts@.len() == 0,
            decreases state.remaining(),
        {
            if Parser::match_token(state, &[TokenType::TemplateStrPart]) {
                let t = state.previous().unwrap();
                parts.push(TemplateStrPart::Text { value: t.value.clone(), position: t.position });
            } else if Parser::match_token(state, &[TokenType::TemplateInterpolationStart]) {
                let expr = Self::expression(state)?;
                Parser::consume(
                    state,
                    TokenType::TemplateInterpolationEnd,
                    "Expected '}' after template interpolation",
                )?;
                parts.push(TemplateStrPart::Interpolation(expr));
            } else {
                return Err(RaccoonError::new(
                    "Expected template string part or interpolation",
                    state.peek().unwrap().position,
                    copy_opt_string(&state.file),
                ));
            }
        }
        Parser::consume(state, TokenType::TemplateStrEnd, "Expected end of template string")?;
        Ok(Expr::TemplateStr { parts, position })
    }

    /// `(params): T => body`; fails without `=>`, so that the caller can go back.
    pub fn try_parse_arrow_function(state: &mut ParserState, is_async: bool) -> (r: Result<ArrowFnExpr, RaccoonError>)
        requires
            old(state).wf(),
        ensures
            parsed(*old(state), *final(state), r),
            r matches Ok(a) ==> a.is_async == is_async,
            old(state).cur_kind() != TokenType::LeftParen ==> final(state).current == old(state).current
                && (r matches Err(e) && e.message@ == "Expected '('"@),
            empty_arrow_at(*old(state)) ==> final(state).current == old(state).current + 4
                && (r matches Ok(a) && a.parameters@.len() == 0 && a.return_type is None
                && (a.body matches ArrowFnBody::Expr(e) && atom_of(old(state).tokens@[old(state).current + 3], *e))
                && a.position == old(state).tokens@[old(state).current as int].position),
            no_arrow_at(*old(state)) ==> final(state).current == old(state).current + 2
                && (r matches Err(e) && e.message@ == "Expected '=>' for arrow function"@),
        decreases old(state).remaining(), 5nat,
    {
        let position = state.peek().unwrap().position;
        Parser::consume(state, TokenType::LeftParen, "Expected '('")?;
        let parameters = Self::arrow_function_parameters(state)?;
        Parser::consume(state, TokenType::RightParen, "Expected ')'")?;
        let mut return_type: Option<Type> = None;
        if Parser::match_token(state, &[TokenType::Colon]) {
            return_type = Some(Types::parse_type(state)?);
        }
        if !Parser::match_token(state, &[TokenType::Arrow]) {
            return Err(RaccoonError::new(
                "Expected '=>' for arrow function",
                state.peek().unwrap().position,
                copy_opt_string(&state.file),
            ));
        }
        let body = if state.check(&TokenType::LeftBrace) {
            state.advance();
            let stmts = Statements::block_statements(state)?;
            ArrowFnBody::Block(stmts)
        } else {
            let expr = Self::conditional(state)?;
            ArrowFnBody::Expr(Box::new(expr))
        };
        Ok(ArrowFnExpr { parameters, return_type, body, is_async, position })
    }

    /// The parameters of an arrow function, up to its `)`: names or destructuring patterns,
    /// each with optional `?`, type and default value; a rest parameter ends the list.
    pub fn arrow_function_parameters(state: &mut ParserState) -> (r: Result<Vec<FnParam>, RaccoonError>)
        requires
            old(state).wf(),
        ensures
            steps(*old(state), *final(state)),
            old(state).cur_kind() == TokenType::RightParen ==> final(state).current == old(state).current
                && (r matches Ok(v) && v@.len() == 0),
            single_before(*old(state), TokenType::RightParen) && old(state).cur_kind() == TokenType::Identifier
                ==> final(state).current == old(state).current + 1 && (r matches Ok(v) && v@.len() == 1
                && untyped_param(*old(state), v@[0])),
        decreases old(state).remaining(), 45nat,
    {
        let mut params: Vec<FnParam> = Vec::new();
        let mut has_optional = false;
        if !state.check(&TokenType::RightParen) {
            loop
                invariant_except_break
                    single_before(*old(state), TokenType::RightParen) && old(state).cur_kind() == TokenType::Identifier
                        ==> state.current == old(state).current && params@.len() == 0 && !has_optional,
                invariant
                    steps(*old(state), *state),
                    old(state).cur_kind() != TokenType::RightParen,
                ensures
                    steps(*old(state), *state),
                    single_before(*old(state), TokenType::RightParen) && old(state).cur_kind() == TokenType::Identifier
                        ==> state.current == old(state).current + 1 && params@.len() == 1 && untyped_param(
                        *old(state),
                        params@[0],
                    ),
                decreases state.remaining(),
            {
                let ghost loop_start = state.current;
                let is_rest = Parser::match_token(state, &[TokenType::Spread]);
                let is_rest_or_optional_error;
                if state.check(&TokenType::LeftBracket) || state.check(&TokenType::LeftBrace) {
                    let pattern = VarPattern::Destructuring(Declarations::parse_destructuring_pattern(state)?);
                    Parser::consume(state, TokenType::Colon, "Expected ':' after destructuring pattern")?;
                    let param_type = Types::parse_type(state)?;
                    let is_optional = Parser::match_token(state, &[TokenType::Question]);
                    is_rest_or_optional_error = check_param_order(state, is_rest, is_optional, &mut has_optional);
                    if let Some(e) = is_rest_or_optional_error {
                        return Err(e);
                    }
                    params.push(FnParam { pattern, param_type, default_value: None, is_rest, is_optional });
                } else {
                    let name = Parser::consume(state, TokenType::Identifier, "Expected parameter name")?.value.clone();
                    let is_optional = Parser::match_token(state, &[TokenType::Question]);
                    let param_type = if Parser::match_token(state, &[TokenType::Colon]) {
                        Types::parse_type(state)?
                    } else {
                        Type::Primitive(crate::ast::PrimitiveKind::Any)
                    };
                    is_rest_or_optional_error = check_param_order(state, is_rest, is_optional, &mut has_optional);
                    if let Some(e) = is_rest_or_optional_error {
                        return Err(e);
                    }
                    let mut default_value: Option<Expr> = None;
                    if Parser::match_token(state, &[TokenType::Assign]) {
                        default_value = Some(Self::expression(state)?);
                    }
                    params.push(FnParam {
                        pattern: VarPattern::Identifier(name),
                        param_type,
                        default_value,
                        is_rest,
                        is_optional,
                    });
                }
                if is_rest {
                    break;
                }
                if !Parser::match_token(state, &[TokenType::Comma]) {
                    break;
                }
                assert(state.current > loop_start);
            }
        }
        Ok(params)
    }

    /// `<`, then commas, then `>` before a call's parentheses: one argument of any type per
    /// place between the commas.
    fn try_parse_call_type_arguments(state: &mut ParserState) -> (r: Result<Vec<Type>, RaccoonError>)
        requires
            old(state).wf(),
        ensures
            steps(*old(state), *final(state)),
            old(state).cur_kind() != TokenType::Lt ==> final(state).current == old(state).current
                && (r matches Err(e) && e.message@ == "Expected '<'"@),
            old(state).cur_kind() == TokenType::Lt ==> ({
                let e = comma_run_end(old(state).tokens@, old(state).current + 1);
                if old(state).tokens@[e].token_type == TokenType::Gt {
                    &&& final(state).current == e + 1
                    &&& r matches Ok(v) && v@.len() == e - old(state).current && forall|i: int|
                        0 <= i < v@.len() ==> v@[i] == Type::Primitive(crate::ast::PrimitiveKind::Any)
                } else {
                    &&& final(state).current == e
                    &&& r matches Err(err) && err.message@ == "Expected '>' after type arguments"@
                }
            }),
    {
        if !Parser::match_token(state, &[TokenType::Lt]) {
            return Err(RaccoonError::new("Expected '<'", state.peek().unwrap().position, copy_opt_string(&state.file)));
        }
        let mut type_args: Vec<Type> = Vec::new();
        loop
            invariant_except_break
                type_args@.len() == state.current - old(state).current - 1,
            invariant
                steps(*old(state), *state),
                old(state).cur_kind() == TokenType::Lt,
                old(state).current + 1 <= state.current,
                comma_run_end(state.tokens@, state.current as int) == comma_run_end(
                    old(state).tokens@,
                    old(state).current + 1,
                ),
                forall|i: int| 0 <= i < type_args@.len() ==> type_args@[i] == Type::Primitive(crate::ast::PrimitiveKind::Any),
            ensures
                steps(*old(state), *state),
                old(state).cur_kind() == TokenType::Lt,
                state.current == comma_run_end(old(state).tokens@, old(state).current + 1),
                type_args@.len() == state.current - old(state).current,
                forall|i: int| 0 <= i < type_args@.len() ==> type_args@[i] == Type::Primitive(crate::ast::PrimitiveKind::Any),
            decreases state.remaining(),
        {
            type_args.push(Type::Primitive(crate::ast::PrimitiveKind::Any));
            if !Parser::match_token(state, &[TokenType::Comma]) {
                break;
            }
        }
        Parser::consume(state, TokenType::Gt, "Expected '>' after type arguments")?;
        Ok(type_args)
    }

    /// `match scrutinee { pattern => body, ... }`, after `match`.
    pub fn match_expr(state: &mut ParserState) -> (r: Result<Expr, RaccoonError>)
        requires
            old(state).wf(),
            old(state).current > 0,
        ensures
            parsed(*old(state), *final(state), r),
            empty_match_at(*old(state)) ==> final(state).current == old(state).current + 3
                && (r matches Ok(Expr::Match { scrutinee, arms, position }) && atom_of(
                old(state).tokens@[old(state).current as int],
                *scrutinee,
            ) && arms@.len() == 0 && position == old(state).tokens@[old(state).current - 1].position),
            one_arm_match_at(*old(state)) ==> final(state).current == old(state).current + 6
                && (r matches Ok(Expr::Match { scrutinee, arms, position }) && atom_of(
                old(state).tokens@[old(state).current as int],
                *scrutinee,
            ) && arms@.len() == 1 && one_arm(*old(state), arms@[0]) && position
                == old(state).tokens@[old(state).current - 1].position),
        decreases old(state).remaining(), 45nat,
    {
        let position = state.previous().unwrap().position;
        let scrutinee = Box::new(Self::conditional(state)?);
        Parser::consume(state, TokenType::LeftBrace, "Expected '{' after match scrutinee")?;
        let mut arms: Vec<MatchArm> = Vec::new();
        while !state.check(&TokenType::RightBrace) && !state.is_at_end()
            invariant
                steps(*old(state), *state),
                state.current > old(state).current,
                empty_match_at(*old(state)) ==> state.current == old(state).current + 2 && arms@.len() == 0
                    && atom_of(old(state).tokens@[old(state).current as int], *scrutinee)
                    && position == old(state).tokens@[old(state).current - 1].position,
                one_arm_match_at(*old(state)) ==> atom_of(old(state).tokens@[old(state).current as int], *scrutinee)
                    && position == old(state).tokens@[old(state).current - 1].position && ((state.current
                    == old(state).current + 2 && arms@.len() == 0) || (state.current == old(state).current + 5
                    && arms@.len() == 1 && one_arm(*old(state), arms@[0]))),
            decreases state.remaining(),
        {
            let pattern = Self::parse_pattern(state)?;
            let arm_position = pattern.position();
            Parser::consume(state, TokenType::Arrow, "Expected '=>' after pattern")?;
            let body = Box::new(Self::conditional(state)?);
            arms.push(MatchArm { pattern, guard: None, body, position: arm_position });
            if !state.check(&TokenType::RightBrace) {
                Parser::consume(state, TokenType::Comma, "Expected ',' after match arm")?;
            }
        }
        Parser::consume(state, TokenType::RightBrace, "Expected '}' after match arms")?;
        Ok(Expr::Match { scrutinee, arms, position })
    }

    /// `_`, a name, `[p, ...]`, `{ key: p, ... }` or a literal.
    pub fn parse_pattern(state: &mut ParserState) -> (r: Result<Pattern, RaccoonError>)
        requires
            old(state).wf(),
        ensures
            parsed(*old(state), *final(state), r),
            pattern_result(*old(state), *final(state), r),
        decreases old(state).remaining(), 12nat,
    {
        if Parser::match_token(state, &[TokenType::Underscore]) {
            return Ok(Pattern::Wildcard(state.previous().unwrap().position));
        }
        if Parser::match_token(state, &[TokenType::Identifier]) {
            let name = state.previous().unwrap().value.clone();
            return Ok(Pattern::Variable(name));
        }
        if Parser::match_token(state, &[TokenType::LeftBracket]) {
            let mut patterns: Vec<Pattern> = Vec::new();
            if !state.check(&TokenType::RightBracket) {
                loop
                    invariant
                        steps(*old(state), *state),
                        state.current > old(state).current,
                        old(state).cur_kind() == TokenType::LeftBracket,
                        old(state).tokens@[old(state).current + 1].token_type != TokenType::RightBracket,
                    ensures
                        steps(*old(state), *state),
                        state.current > old(state).current,
                        old(state).cur_kind() == TokenType::LeftBracket,
                        old(state).tokens@[old(state).current + 1].token_type != TokenType::RightBracket,
                    decreases state.remaining(),
                {
                    patterns.push(Self::parse_pattern(state)?);
                    if !Parser::match_token(state, &[TokenType::Comma]) {
                        break;
                    }
                }
            }
            Parser::consume(state, TokenType::RightBracket, "Expected ']' after array pattern")?;
            return Ok(Pattern::Array(patterns));
        }
        if Parser::match_token(state, &[TokenType::LeftBrace]) {
            let mut properties: Vec<(String, Pattern)> = Vec::new();
            if !state.check(&TokenType::RightBrace) {
                loop
                    invariant
                        steps(*old(state), *state),
                        state.current > old(state).current,
                        old(state).cur_kind() == TokenType::LeftBrace,
                        old(state).tokens@[old(state).current + 1].token_type != TokenType::RightBrace,
                    ensures
                        steps(*old(state), *state),
                        state.current > old(state).current,
                        old(state).cur_kind() == TokenType::LeftBrace,
                        old(state).tokens@[old(state).current + 1].token_type != TokenType::RightBrace,
                    decreases state.remaining(),
                {
                    let key = Parser::consume(state, TokenType::Identifier, "Expected property name in object pattern")?.value.clone();
                    let pattern = if Parser::match_token(state, &[TokenType::Colon]) {
                        Self::parse_pattern(state)?
                    } else {
                        Pattern::Variable(key.clone())
                    };
                    properties.push((key, pattern));
                    if !Parser::match_token(state, &[TokenType::Comma]) {
                        break;
                    }
                }
            }
            Parser::consume(state, TokenType::RightBrace, "Expected '}' after object pattern")?;
            return Ok(Pattern::Object(properties));
        }
        if state.check(&TokenType::IntLiteral) || state.check(&TokenType::FloatLiteral)
            || state.check(&TokenType::StrLiteral) || state.check(&TokenType::True)
            || state.check(&TokenType::False) || state.check(&TokenType::NullLiteral) {
            let expr = Self::primary(state)?;
            return Ok(Pattern::Literal(Box::new(expr)));
        }
        Err(RaccoonError::new("Expected pattern", state.peek().unwrap().position, copy_opt_string(&state.file)))
    }

    /// `class <T> extends Base implements I { members }` as an expression, after `class`.
    pub fn class_expr(state: &mut ParserState) -> (r: Result<Expr, RaccoonError>)
        requires
            old(state).wf(),
            old(state).current > 0,
        ensures
            parsed(*old(state), *final(state), r),
            old(state).cur_kind() == TokenType::LeftBrace && old(state).kind_ahead(1) == Some(TokenType::RightBrace)
                ==> final(state).current == old(state).current + 2 && (r matches Ok(
                Expr::Class { type_parameters, superclass, body, position },
            ) && type_parameters@.len() == 0 && superclass is None && empty_class_body(body) && position
                == old(state).tokens@[old(state).current - 1].position),
            old(state).cur_kind() == TokenType::LeftBrace && one_member_at(*old(state), old(state).current + 1)
                ==> final(state).current == member_end(*old(state), old(state).current + 1) + 1 && (r matches Ok(
                Expr::Class { type_parameters, superclass, body, .. },
            ) && type_parameters@.len() == 0 && superclass is None && one_member_body(
                *old(state),
                old(state).current + 1,
                body,
            )),
            old(state).cur_kind() == TokenType::LeftBrace && ctor_at(*old(state), old(state).current + 1) && ctor_at(
                *old(state),
                old(state).current + 6,
            ) ==> (r matches Err(e) && e.message@ == "Class cannot have multiple constructors"@),
        decreases old(state).remaining(), 45nat,
    {
        let position = state.previous().unwrap().position;
        let type_parameters = Self::parse_type_parameters(state)?;
        let mut superclass: Option<String> = None;
        if Parser::match_token(state, &[TokenType::Extends]) {
            superclass = Some(Parser::consume(state, TokenType::Identifier, "Expected superclass name")?.value.clone());
        }
        if Parser::match_token(state, &[TokenType::Implements]) {
            loop
                invariant
                    old(state).cur_kind() != TokenType::LeftBrace,
                    steps(*old(state), *state),
                    state.current > old(state).current,
                ensures
                    old(state).cur_kind() != TokenType::LeftBrace,
                    steps(*old(state), *state),
                    state.current > old(state).current,
                decreases state.remaining(),
            {
                Parser::consume(state, TokenType::Identifier, "Expected interface name")?;
                if !Parser::match_token(state, &[TokenType::Comma]) {
                    break;
                }
            }
        }
        Parser::consume(state, TokenType::LeftBrace, "Expected '{' for class body")?;
        let body = Declarations::class_members(state)?;
        Parser::consume(state, TokenType::RightBrace, "Expected '}' after class body")?;
        Ok(Expr::Class { type_parameters, superclass, body, position })
    }

    /// `<T, U, ...>` names of type parameters, without constraints.
    fn parse_type_parameters(state: &mut ParserState) -> (r: Result<Vec<TypeParameter>, RaccoonError>)
        requires
            old(state).wf(),
        ensures
            steps(*old(state), *final(state)),
            old(state).cur_kind() != TokenType::Lt ==> final(state).current == old(state).current
                && (r matches Ok(v) && v@.len() == 0),
            one_name_between(*old(state), TokenType::Lt, TokenType::Gt) ==> final(state).current
                == old(state).current + 3 && (r matches Ok(v) && v@.len() == 1 && v@[0].name@
                == old(state).tokens@[old(state).current + 1].value@ && v@[0].constraint is None),
    {
        let mut type_params: Vec<TypeParameter> = Vec::new();
        if Parser::match_token(state, &[TokenType::Lt]) {
            loop
                invariant_except_break
                    one_name_between(*old(state), TokenType::Lt, TokenType::Gt) ==> state.current
                        == old(state).current + 1 && type_params@.len() == 0,
                invariant
                    steps(*old(state), *state),
                    old(state).cur_kind() == TokenType::Lt,
                ensures
                    steps(*old(state), *state),
                    old(state).cur_kind() == TokenType::Lt,
                    one_name_between(*old(state), TokenType::Lt, TokenType::Gt) ==> state.current
                        == old(state).current + 2 && type_params@.len() == 1 && type_params@[0].name@
                        == old(state).tokens@[old(state).current + 1].value@ && type_params@[0].constraint is None,
                decreases state.remaining(),
            {
                let name = Parser::consume(state, TokenType::Identifier, "Expected type parameter name")?.value.clone();
                type_params.push(TypeParameter { name, constraint: None });
                if !Parser::match_token(state, &[TokenType::Comma]) {
                    break;
                }
            }
            Parser::consume(state, TokenType::Gt, "Expected '>' after type parameters")?;
        }
        Ok(type_params)
    }
}

} // verus!
