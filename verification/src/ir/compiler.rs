//! Compiles a syntax tree to instructions.
use vstd::prelude::*;
use crate::ast::{
    ArrayPatternElement, ArrowFnBody, DestructuringPattern, EnumMember, Expr, MatchArm, ObjectLiteralProperty,
    ObjectPatternValue, Pattern, Program, Stmt, SwitchCase, TemplateStrPart, UpdateOperator, VarPattern,
};
use crate::error::RaccoonError;
use crate::ir::instruction::{
    label_lookup, FieldPattern, IRProgram, Instruction, MatchArm as IRMatchArm, MatchPattern, PropertyReg,
    Register, TemplatePart,
};
use crate::runtime::values::RuntimeValue;
use crate::text::{concat2, usize_to_string};
use crate::tokens::BinaryOperator;

verus! {

/// Turns the text of a float literal into the bits of the double it denotes.
pub trait FloatDecoder {
    fn float_bits(&self, text: &str) -> u64;
}

/// Every recorded label names the `Label` instruction at its position.
pub open spec fn labels_consistent(p: IRProgram) -> bool {
    forall|i: int| 0 <= i < p.labels@.len() ==> {
        let e = #[trigger] p.labels@[i];
        &&& e.position < p.instructions@.len()
        &&& p.instructions@[e.position as int] matches Instruction::Label { name } && name@ == e.name@
    }
}

/// An assignment target the compiler can store to, with its parts compiling.
pub open spec fn target_ok(t: Expr) -> bool
    decreases t,
{
    match t {
        Expr::Identifier { .. } => true,
        Expr::Member { object, .. } => expr_ok(*object),
        Expr::Index { object, index, .. } => expr_ok(*object) && expr_ok(*index),
        _ => false,
    }
}

/// The expression compiles: every assignment in the parts the compiler handles has a
/// variable, member or index as its target.
pub open spec fn expr_ok(e: Expr) -> bool
    decreases e,
{
    match e {
        Expr::Binary { left, right, .. } => expr_ok(*left) && expr_ok(*right),
        Expr::Unary { operand, .. } => expr_ok(*operand),
        Expr::UnaryUpdate { operand, .. } => expr_ok(*operand),
        Expr::Call { callee, args, .. } => expr_ok(*callee) && exprs_ok(args@),
        Expr::New { args, .. } => exprs_ok(args@),
        Expr::Member { object, .. } => expr_ok(*object),
        Expr::MethodCall { object, args, .. } => expr_ok(*object) && exprs_ok(args@),
        Expr::Index { object, index, .. } => expr_ok(*object) && expr_ok(*index),
        Expr::OptionalChaining { object, .. } => expr_ok(*object),
        Expr::Await { expression, .. } => expr_ok(*expression),
        Expr::TypeOf { operand, .. } => expr_ok(*operand),
        Expr::InstanceOf { operand, .. } => expr_ok(*operand),
        Expr::ArrowFn(a) => match a.body {
            ArrowFnBody::Expr(b) => expr_ok(*b),
            ArrowFnBody::Block(stmts) => stmts_ok(stmts@),
        },
        Expr::Assignment { target, value, .. } => expr_ok(*value) && target_ok(*target),
        Expr::Range { start, end, .. } => expr_ok(*start) && expr_ok(*end),
        Expr::Conditional { condition, then_expr, else_expr, .. } => expr_ok(*condition) && expr_ok(*then_expr)
            && expr_ok(*else_expr),
        Expr::NullCoalescing { left, right, .. } => expr_ok(*left) && expr_ok(*right),
        Expr::TemplateStr { parts, .. } => parts_ok(parts@),
        Expr::ArrayLiteral { elements, .. } => exprs_ok(elements@),
        Expr::ObjectLiteral { properties, .. } => props_ok(properties@),
        Expr::Match { scrutinee, arms, .. } => expr_ok(*scrutinee) && arms_ok(arms@),
        _ => true,
    }
}

pub open spec fn exprs_ok(s: Seq<Expr>) -> bool
    decreases s,
{
    if s.len() == 0 {
        true
    } else {
        exprs_ok(s.drop_last()) && expr_ok(s.last())
    }
}

pub open spec fn parts_ok(s: Seq<TemplateStrPart>) -> bool
    decreases s,
{
    if s.len() == 0 {
        true
    } else {
        parts_ok(s.drop_last()) && match s.last() {
            TemplateStrPart::Interpolation(e) => expr_ok(e),
            TemplateStrPart::Text { .. } => true,
        }
    }
}

pub open spec fn props_ok(s: Seq<ObjectLiteralProperty>) -> bool
    decreases s,
{
    if s.len() == 0 {
        true
    } else {
        props_ok(s.drop_last()) && match s.last() {
            ObjectLiteralProperty::KeyValue { value, .. } => expr_ok(value),
            ObjectLiteralProperty::Spread(_) => true,
        }
    }
}

pub open spec fn arms_ok(s: Seq<MatchArm>) -> bool
    decreases s,
{
    if s.len() == 0 {
        true
    } else {
        arms_ok(s.drop_last()) && (match s.last().guard {
            Some(g) => expr_ok(*g),
            None => true,
        }) && expr_ok(*s.last().body)
    }
}

pub open spec fn members_ok(s: Seq<EnumMember>) -> bool
    decreases s,
{
    if s.len() == 0 {
        true
    } else {
        members_ok(s.drop_last()) && match s.last().value {
            Some(v) => expr_ok(v),
            None => true,
        }
    }
}

pub open spec fn cases_ok(s: Seq<SwitchCase>) -> bool
    decreases s,
{
    if s.len() == 0 {
        true
    } else {
        cases_ok(s.drop_last()) && (match s.last().test {
            Some(t) => expr_ok(t),
            None => true,
        }) && stmts_ok(s.last().consequent@)
    }
}

/// The statement compiles; see `expr_ok`.
pub open spec fn stmt_ok(s: Stmt) -> bool
    decreases s,
{
    match s {
        Stmt::VarDecl { initializer, .. } => match initializer {
            Some(i) => expr_ok(i),
            None => true,
        },
        Stmt::FnDecl { body, .. } => stmts_ok(body@),
        Stmt::EnumDecl { members, .. } => members_ok(members@),
        Stmt::Block { statements, .. } => stmts_ok(statements@),
        Stmt::IfStmt { condition, then_branch, else_branch, .. } => expr_ok(condition) && stmt_ok(*then_branch)
            && match else_branch {
                Some(b) => stmt_ok(*b),
                None => true,
            },
        Stmt::WhileStmt { condition, body, .. } => expr_ok(condition) && stmt_ok(*body),
        Stmt::DoWhileStmt { body, condition, .. } => stmt_ok(*body) && expr_ok(condition),
        Stmt::ForStmt { initializer, condition, increment, body, .. } => (match initializer {
            Some(i) => stmt_ok(*i),
            None => true,
        }) && (match condition {
            Some(c) => expr_ok(c),
            None => true,
        }) && stmt_ok(*body) && (match increment {
            Some(i) => expr_ok(i),
            None => true,
        }),
        Stmt::SwitchStmt { discriminant, cases, .. } => expr_ok(discriminant) && cases_ok(cases@),
        Stmt::ReturnStmt { value, .. } => match value {
            Some(v) => expr_ok(v),
            None => true,
        },
        Stmt::ThrowStmt { value, .. } => expr_ok(value),
        Stmt::ExprStmt { expression, .. } => expr_ok(expression),
        _ => true,
    }
}

pub open spec fn stmts_ok(s: Seq<Stmt>) -> bool
    decreases s,
{
    if s.len() == 0 {
        true
    } else {
        stmts_ok(s.drop_last()) && stmt_ok(s.last())
    }
}

/// The message of the one error the compiler reports.
pub open spec fn invalid_target_msg() -> Seq<char> {
    "Invalid assignment target"@
}

pub open spec fn err_ok<T>(r: Result<T, RaccoonError>) -> bool {
    r matches Err(e) ==> e.message@ == invalid_target_msg()
}

proof fn lemma_exprs_ok_prefix(s: Seq<Expr>, k: int)
    requires
        0 <= k <= s.len(),
        exprs_ok(s),
    ensures
        exprs_ok(s.subrange(0, k)),
    decreases s.len(),
{
    if k == s.len() {
        assert(s.subrange(0, k) =~= s);
    } else {
        assert(s.drop_last().subrange(0, k) =~= s.subrange(0, k));
        lemma_exprs_ok_prefix(s.drop_last(), k);
    }
}

proof fn lemma_stmts_ok_prefix(s: Seq<Stmt>, k: int)
    requires
        0 <= k <= s.len(),
        stmts_ok(s),
    ensures
        stmts_ok(s.subrange(0, k)),
    decreases s.len(),
{
    if k == s.len() {
        assert(s.subrange(0, k) =~= s);
    } else {
        assert(s.drop_last().subrange(0, k) =~= s.subrange(0, k));
        lemma_stmts_ok_prefix(s.drop_last(), k);
    }
}

proof fn lemma_parts_ok_prefix(s: Seq<TemplateStrPart>, k: int)
    requires
        0 <= k <= s.len(),
        parts_ok(s),
    ensures
        parts_ok(s.subrange(0, k)),
    decreases s.len(),
{
    if k == s.len() {
        assert(s.subrange(0, k) =~= s);
    } else {
        assert(s.drop_last().subrange(0, k) =~= s.subrange(0, k));
        lemma_parts_ok_prefix(s.drop_last(), k);
    }
}

proof fn lemma_props_ok_prefix(s: Seq<ObjectLiteralProperty>, k: int)
    requires
        0 <= k <= s.len(),
        props_ok(s),
    ensures
        props_ok(s.subrange(0, k)),
    decreases s.len(),
{
    if k == s.len() {
        assert(s.subrange(0, k) =~= s);
    } else {
        assert(s.drop_last().subrange(0, k) =~= s.subrange(0, k));
        lemma_props_ok_prefix(s.drop_last(), k);
    }
}

proof fn lemma_arms_ok_prefix(s: Seq<MatchArm>, k: int)
    requires
        0 <= k <= s.len(),
        arms_ok(s),
    ensures
        arms_ok(s.subrange(0, k)),
    decreases s.len(),
{
    if k == s.len() {
        assert(s.subrange(0, k) =~= s);
    } else {
        assert(s.drop_last().subrange(0, k) =~= s.subrange(0, k));
        lemma_arms_ok_prefix(s.drop_last(), k);
    }
}

proof fn lemma_members_ok_prefix(s: Seq<EnumMember>, k: int)
    requires
        0 <= k <= s.len(),
        members_ok(s),
    ensures
        members_ok(s.subrange(0, k)),
    decreases s.len(),
{
    if k == s.len() {
        assert(s.subrange(0, k) =~= s);
    } else {
        assert(s.drop_last().subrange(0, k) =~= s.subrange(0, k));
        lemma_members_ok_prefix(s.drop_last(), k);
    }
}

proof fn lemma_cases_ok_prefix(s: Seq<SwitchCase>, k: int)
    requires
        0 <= k <= s.len(),
        cases_ok(s),
    ensures
        cases_ok(s.subrange(0, k)),
    decreases s.len(),
{
    if k == s.len() {
        assert(s.subrange(0, k) =~= s);
    } else {
        assert(s.drop_last().subrange(0, k) =~= s.subrange(0, k));
        lemma_cases_ok_prefix(s.drop_last(), k);
    }
}

/// The name by which the comment for an unhandled expression calls its kind.
pub open spec fn unimplemented_kind(e: Expr) -> Seq<char> {
    match e {
        Expr::BigIntLiteral { .. } => "BigIntLiteral"@,
        Expr::NullAssertion { .. } => "NullAssertion"@,
        Expr::This { .. } => "This"@,
        Expr::Super { .. } => "Super"@,
        Expr::Spread { .. } => "Spread"@,
        Expr::Class { .. } => "Class"@,
        _ => "Expr"@,
    }
}

/// The comment left where the compiler does not handle an expression.
fn unimplemented_text(expr: &Expr) -> (s: String)
    ensures
        s@ == "Unimplemented expression: "@ + unimplemented_kind(*expr),
{
    let kind = match expr {
        Expr::BigIntLiteral { .. } => "BigIntLiteral",
        Expr::NullAssertion { .. } => "NullAssertion",
        Expr::This { .. } => "This",
        Expr::Super { .. } => "Super",
        Expr::Spread { .. } => "Spread",
        Expr::Class { .. } => "Class",
        _ => "Expr",
    };
    concat2("Unimplemented expression: ", kind)
}

/// `m` is the compiled form of the arm pattern `p`: the same shape, names and keys, with
/// every literal pattern a literal `null`.
pub open spec fn compiles_to(p: Pattern, m: MatchPattern) -> bool
    decreases p,
{
    match p {
        Pattern::Wildcard(_) => m == MatchPattern::Wildcard,
        Pattern::Literal(_) => m == MatchPattern::Literal(RuntimeValue::Null),
        Pattern::Variable(name) => m matches MatchPattern::Variable(n) && n@ == name@,
        Pattern::Array(ps) => m matches MatchPattern::Array(ms) && ms@.len() == ps@.len() && forall|i: int|
            0 <= i < ps@.len() ==> #[trigger] compiles_to(ps@[i], ms@[i]),
        Pattern::Object(props) => m matches MatchPattern::Object(fs) && fs@.len() == props@.len() && forall|i: int|
            0 <= i < props@.len() ==> fs@[i].key@ == props@[i].0@ && #[trigger] compiles_to(props@[i].1, fs@[i].pattern),
    }
}

/// The pattern of a `match` arm. A literal pattern becomes a literal `null`.
fn compile_pattern(pattern: &Pattern) -> (r: MatchPattern)
    ensures
        compiles_to(*pattern, r),
    decreases pattern,
{
    match pattern {
        Pattern::Wildcard(_) => MatchPattern::Wildcard,
        Pattern::Literal(_) => MatchPattern::Literal(RuntimeValue::Null),
        Pattern::Variable(name) => MatchPattern::Variable(name.clone()),
        Pattern::Array(patterns) => {
            let mut compiled: Vec<MatchPattern> = Vec::new();
            let mut i: usize = 0;
            while i < patterns.len()
                invariant
                    i <= patterns@.len(),
                    *pattern matches Pattern::Array(p) && p == *patterns,
                    compiled@.len() == i,
                    forall|j: int| 0 <= j < i ==> compiles_to(patterns@[j], #[trigger] compiled@[j]),
                decreases patterns@.len() - i,
            {
                assert(decreases_to!(pattern => *patterns));
                assert(decreases_to!(patterns => patterns@[i as int]));
                let ghost before = compiled@;
                compiled.push(compile_pattern(&patterns[i]));
                proof {
                    assert forall|j: int| 0 <= j < i + 1 implies compiles_to(patterns@[j], #[trigger] compiled@[j]) by {
                        if j < i {
                            assert(compiled@[j] == before[j]);
                        }
                    }
                }
                i = i + 1;
            }
            let r = MatchPattern::Array(compiled);
            proof {
                let ps = (*pattern)->Array_0;
                assert(ps@ == patterns@);
                assert forall|k: int| 0 <= k < ps@.len() implies #[trigger] compiles_to(ps@[k], compiled@[k]) by {
                    assert(compiles_to(patterns@[k], compiled@[k]));
                }
            }
            r
        },
        Pattern::Object(props) => {
            let mut compiled: Vec<FieldPattern> = Vec::new();
            let mut i: usize = 0;
            while i < props.len()
                invariant
                    i <= props@.len(),
                    *pattern matches Pattern::Object(p) && p == *props,
                    compiled@.len() == i,
                    forall|j: int| 0 <= j < i ==> (#[trigger] compiled@[j]).key@ == props@[j].0@ && compiles_to(
                        props@[j].1,
                        compiled@[j].pattern,
                    ),
                decreases props@.len() - i,
            {
                assert(decreases_to!(pattern => *props));
                assert(decreases_to!(props => props@[i as int]));
                assert(decreases_to!(props@[i as int] => props@[i as int].1));
                let (key, p) = &props[i];
                let ghost before = compiled@;
                compiled.push(FieldPattern { key: key.clone(), pattern: compile_pattern(p) });
                proof {
                    assert forall|j: int| 0 <= j < i + 1 implies (#[trigger] compiled@[j]).key@ == props@[j].0@ && compiles_to(
                        props@[j].1,
                        compiled@[j].pattern,
                    ) by {
                        if j < i {
                            assert(compiled@[j] == before[j]);
                            assert(before[j].key@ == props@[j].0@);
                        } else {
                            assert(compiled@[j].key == props@[j].0);
                        }
                    }
                }
                i = i + 1;
            }
            MatchPattern::Object(compiled)
        },
    }
}

/// The names of the parameters that are plain identifiers, in order.
pub open spec fn ident_param_names(ps: Seq<crate::ast::FnParam>) -> Seq<Seq<char>>
    decreases ps.len(),
{
    if ps.len() == 0 {
        Seq::empty()
    } else {
        let before = ident_param_names(ps.drop_last());
        match ps.last().pattern {
            VarPattern::Identifier(n) => before.push(n@),
            _ => before,
        }
    }
}

/// The elements of an array pattern that are present, in order (holes left out).
pub open spec fn present_elements(es: Seq<Option<ArrayPatternElement>>) -> Seq<ArrayPatternElement>
    decreases es.len(),
{
    if es.len() == 0 {
        Seq::empty()
    } else {
        let before = present_elements(es.drop_last());
        match es.last() {
            Some(e) => before.push(e),
            None => before,
        }
    }
}

/// `r` is where a destructuring puts the value of an element or property: a plain name goes
/// to its local register, a nested pattern to a temporary.
pub open spec fn binds_to(is_name: Option<Seq<char>>, r: Register) -> bool {
    match is_name {
        Some(n) => r matches Register::Local(l) && l@ == n,
        None => r is Temp,
    }
}

/// The name an array pattern element binds directly, if it is a plain name.
pub open spec fn element_name(e: ArrayPatternElement) -> Option<Seq<char>> {
    match e {
        ArrayPatternElement::Identifier(id) => Some(id.name@),
        _ => None,
    }
}

/// The name an object pattern value binds directly, if it is a plain name.
pub open spec fn value_name(v: ObjectPatternValue) -> Option<Seq<char>> {
    match v {
        ObjectPatternValue::Identifier(id) => Some(id.name@),
        _ => None,
    }
}

/// The rest register of a destructuring: the local register of the rest name, if any.
pub open spec fn rest_binds(rest: Option<crate::ast::PatternName>, r: Option<Register>) -> bool {
    match rest {
        Some(p) => r matches Some(Register::Local(l)) && l@ == p.name@,
        None => r is None,
    }
}

/// `i` is the one instruction that destructures `pattern` from `src`.
pub open spec fn destructures(pattern: DestructuringPattern, src: Register, i: Instruction) -> bool {
    match pattern {
        DestructuringPattern::Array(ap) => i matches Instruction::DestructureArray { dests, src: s, has_rest, rest_dest }
            && s == src && has_rest == ap.rest is Some && rest_binds(ap.rest, rest_dest)
            && dests@.len() == present_elements(ap.elements@).len() && forall|j: int| 0 <= j < dests@.len()
            ==> #[trigger] binds_to(element_name(present_elements(ap.elements@)[j]), dests@[j]),
        DestructuringPattern::Object(op) => i matches Instruction::DestructureObject { mappings, src: s, rest_dest }
            && s == src && rest_binds(op.rest, rest_dest) && mappings@.len() == op.properties@.len()
            && forall|j: int| 0 <= j < mappings@.len() ==> mappings@[j].name@ == op.properties@[j].key@
            && #[trigger] binds_to(value_name(op.properties@[j].value), mappings@[j].reg),
    }
}

/// The code of an `if` from index `n0` of `ins`: after the condition's code, at `k`, a jump to
/// the else label taken when the condition is false; then the then branch, which ends at
/// `m - 1` in a jump to the end label; the else label at `m`; then the else branch; and the
/// end label last. The two labels differ.
pub open spec fn if_shape(ins: Seq<Instruction>, n0: int, k: int, m: int) -> bool {
    &&& 0 <= n0 <= k
    &&& k + 1 < m
    &&& m < ins.len()
    &&& ins[k] is JumpIfFalse
    &&& ins[m - 1] is Jump
    &&& ins[m] is Label
    &&& ins.last() is Label
    &&& ins[m]->Label_name@ == ins[k]->JumpIfFalse_label@
    &&& ins.last()->Label_name@ == ins[m - 1]->Jump_label@
    &&& ins[k]->JumpIfFalse_label@ != ins[m - 1]->Jump_label@
}

/// The branches of an `if` whose code `if_shape` places with its jumps at `k` and `m - 1`: a then
/// branch that is a literal expression statement is the one load between the conditional jump
/// and the jump to the end; an else branch of that kind is the one load between the else label
/// and the end label; and with no else branch nothing stands between them.
pub open spec fn if_branches(ins: Seq<Instruction>, k: int, m: int, then_b: Stmt, else_b: Option<Box<Stmt>>) -> bool {
    &&& literal_stmt(then_b) ==> m == k + 3 && loads(ins[k + 1], then_b)
    &&& match else_b {
        None => ins.len() == m + 2,
        Some(b) => literal_stmt(*b) ==> ins.len() == m + 3 && loads(ins[m + 1], *b),
    }
}

/// The code of a `while` from index `n0` of `ins`: the start label at `n0`; after the
/// condition's code, at `k`, a jump to the end label taken when the condition is false; the
/// body; a jump back to the start label just before the end; and the end label last.
pub open spec fn while_shape(ins: Seq<Instruction>, n0: int, k: int) -> bool {
    &&& 0 <= n0 < k
    &&& k + 1 < ins.len() - 1
    &&& ins[n0] is Label
    &&& ins[k] is JumpIfFalse
    &&& ins[ins.len() - 2] is Jump
    &&& ins.last() is Label
    &&& ins[ins.len() - 2]->Jump_label@ == ins[n0]->Label_name@
    &&& ins.last()->Label_name@ == ins[k]->JumpIfFalse_label@
    &&& ins[n0]->Label_name@ != ins[k]->JumpIfFalse_label@
}

/// The code of a `do ... while` from index `n0` of `ins`: the start label at `n0`, the body,
/// the condition's code, and last a jump back to the start label taken when the condition is
/// true.
pub open spec fn do_while_shape(ins: Seq<Instruction>, n0: int) -> bool {
    &&& 0 <= n0 < ins.len() - 1
    &&& ins[n0] is Label
    &&& ins.last() is JumpIfTrue
    &&& ins.last()->JumpIfTrue_label@ == ins[n0]->Label_name@
}

/// The condition's code is the one load of a literal `v` into the register that the jump at
/// `k` tests.
pub open spec fn tests_loaded(ins: Seq<Instruction>, k: int, v: RuntimeValue) -> bool {
    &&& 1 <= k < ins.len()
    &&& ins[k - 1] matches Instruction::LoadConst { dest, value } && value == v && (match ins[k] {
        Instruction::JumpIfFalse { condition, .. } => condition == dest,
        Instruction::JumpIfTrue { condition, .. } => condition == dest,
        _ => false,
    })
}

/// The value a literal expression loads: an integer, string, boolean or `null`.
pub open spec fn literal_value(e: Expr) -> Option<RuntimeValue> {
    match e {
        Expr::IntLiteral { value, .. } => Some(RuntimeValue::Int(value)),
        Expr::StrLiteral { value, .. } => Some(RuntimeValue::Str(value)),
        Expr::BoolLiteral { value, .. } => Some(RuntimeValue::Bool(value)),
        Expr::NullLiteral { .. } => Some(RuntimeValue::Null),
        _ => None,
    }
}

/// An expression statement of an integer, string, boolean or `null` literal.
pub open spec fn literal_stmt(s: Stmt) -> bool {
    s matches Stmt::ExprStmt { expression, .. } && literal_value(expression) is Some
}

/// Every statement is a literal expression statement.
pub open spec fn literal_stmts(s: Seq<Stmt>) -> bool {
    forall|k: int| 0 <= k < s.len() ==> literal_stmt(#[trigger] s[k])
}

/// `i` loads the literal of the expression statement `s` into a temporary.
pub open spec fn loads(i: Instruction, s: Stmt) -> bool {
    i matches Instruction::LoadConst { dest, value } && dest is Temp && Some(value) == literal_value(
        s->ExprStmt_expression,
    )
}

/// `after` is `before` followed by one load for each literal statement of `s`, in order.
pub open spec fn loads_literals(before: Seq<Instruction>, after: Seq<Instruction>, s: Seq<Stmt>) -> bool {
    &&& after.len() == before.len() + s.len()
    &&& after.subrange(0, before.len() as int) == before
    &&& forall|k: int| 0 <= k < s.len() ==> loads(#[trigger] after[before.len() + k], s[k])
}

/// The label an instruction jumps to, if it jumps.
pub open spec fn jump_target(i: Instruction) -> Option<Seq<char>> {
    match i {
        Instruction::Jump { label } => Some(label@),
        Instruction::JumpIfFalse { label, .. } => Some(label@),
        Instruction::JumpIfTrue { label, .. } => Some(label@),
        _ => None,
    }
}

/// The target a `break` or `continue` jumps to, which the loop around it stands for.
pub open spec fn loop_exit(l: Seq<char>) -> bool {
    l == "break"@ || l == "continue"@
}

/// Every jump of the program goes to `break`, `continue`, a recorded label or one of
/// `pending`.
pub open spec fn jumps_ok(p: IRProgram, pending: Set<Seq<char>>) -> bool {
    forall|i: int| 0 <= i < p.instructions@.len() ==> match #[trigger] jump_target(p.instructions@[i]) {
        Some(l) => loop_exit(l) || pending.contains(l) || label_lookup(p.labels@, l) is Some,
        None => true,
    }
}

/// The label `l` is among `pending` or recorded in `labels`.
pub open spec fn covered(pending: Set<Seq<char>>, labels: Seq<crate::ir::instruction::LabelEntry>, l: Seq<char>) -> bool {
    pending.contains(l) || label_lookup(labels, l) is Some
}

/// Every jump of the program goes to `break`, `continue` or a recorded label.
pub open spec fn jumps_resolved(p: IRProgram) -> bool {
    jumps_ok(p, Set::empty())
}

proof fn lemma_label_lookup_entry(s: Seq<crate::ir::instruction::LabelEntry>, l: Seq<char>)
    requires
        label_lookup(s, l) is Some,
    ensures
        exists|i: int| 0 <= i < s.len() && (#[trigger] s[i]).name@ == l && s[i].position == label_lookup(s, l)->Some_0,
    decreases s.len(),
{
    if s.last().name@ == l {
        assert(s[s.len() - 1].name@ == l);
    } else {
        lemma_label_lookup_entry(s.drop_last(), l);
        let i = choose|i: int| 0 <= i < s.drop_last().len() && (#[trigger] s.drop_last()[i]).name@ == l
            && s.drop_last()[i].position == label_lookup(s.drop_last(), l)->Some_0;
        assert(s[i] == s.drop_last()[i]);
    }
}

/// In a program whose jumps are resolved and whose labels are consistent, as the compiler
/// gives them, every jump other than `break` or `continue` lands on the `Label` instruction
/// of its own name.
pub proof fn law_jumps_land_on_labels(p: IRProgram, i: int)
    requires
        labels_consistent(p),
        jumps_resolved(p),
        0 <= i < p.instructions@.len(),
        jump_target(p.instructions@[i]) is Some,
        !loop_exit(jump_target(p.instructions@[i])->Some_0),
    ensures
        label_lookup(p.labels@, jump_target(p.instructions@[i])->Some_0) matches Some(pos) && pos < p.instructions@.len()
            && (p.instructions@[pos as int] matches Instruction::Label { name } && name@ == jump_target(p.instructions@[i])->Some_0),
{
    let l = jump_target(p.instructions@[i])->Some_0;
    assert(label_lookup(p.labels@, l) is Some);
    lemma_label_lookup_entry(p.labels@, l);
    let k = choose|k: int| 0 <= k < p.labels@.len() && (#[trigger] p.labels@[k]).name@ == l
        && p.labels@[k].position == label_lookup(p.labels@, l)->Some_0;
    assert(p.labels@[k].position < p.instructions@.len());
}

/// Compiles a syntax tree into one program.
pub struct IRCompiler {
    program: IRProgram,
    temp_counter: usize,
    label_counter: usize,
    scope_depth: usize,
    /// The labels made and not yet placed.
    pending: Ghost<Set<Seq<char>>>,
}

impl IRCompiler {
    pub closed spec fn wf(&self) -> bool {
        labels_consistent(self.program) && jumps_ok(self.program, self.pending@)
    }

    /// A label is placed, or made and still to be placed.
    pub closed spec fn covers(&self, l: Seq<char>) -> bool {
        covered(self.pending@, self.program.labels@, l)
    }

    /// Every label `self` covers, `later` covers too, the constant pool is as it was, and the
    /// instructions emitted so far stay in place.
    pub closed spec fn kept(&self, later: IRCompiler) -> bool {
        &&& forall|l: Seq<char>| #[trigger] covered(self.pending@, self.program.labels@, l) ==> covered(
            later.pending@,
            later.program.labels@,
            l,
        )
        &&& later.program.constant_pool@ == self.program.constant_pool@
        &&& later.program.instructions@.len() >= self.program.instructions@.len()
        &&& forall|i: int| 0 <= i < self.program.instructions@.len() ==> #[trigger] later.program.instructions@[i]
            == self.program.instructions@[i]
    }

    /// Every label still to be placed in `later` was still to be placed in `self`.
    pub closed spec fn settled(&self, later: IRCompiler) -> bool {
        later.pending@.subset_of(self.pending@)
    }

    proof fn lemma_kept_same(a: IRCompiler, b: IRCompiler)
        requires
            a.pending == b.pending,
            a.program == b.program,
        ensures
            a.kept(b),
            a.settled(b),
    {
    }

    /// The program compiled so far.
    pub closed spec fn program_view(&self) -> IRProgram {
        self.program
    }

    /// No label is waiting to be placed.
    pub closed spec fn no_pending(&self) -> bool {
        self.pending@ == Set::<Seq<char>>::empty()
    }

    pub fn new() -> (c: IRCompiler)
        ensures
            c.wf(),
            c.no_pending(),
            c.program_view().instructions@.len() == 0,
            c.program_view().constant_pool@.len() == 0,
    {
        IRCompiler {
            program: IRProgram::new(),
            temp_counter: 0,
            label_counter: 0,
            scope_depth: 0,
            pending: Ghost(Set::empty()),
        }
    }

    /// Compiles the program's statements in order. It fails, with the message `Invalid
    /// assignment target`, exactly where a compiled part assigns to something other than a
    /// variable, member or index; the program it gives records each label at the position of
    /// its `Label` instruction.
    pub fn compile<F: FloatDecoder>(self, program: &Program, floats: &F) -> (r: Result<IRProgram, RaccoonError>)
        requires
            self.wf(),
        ensures
            (r is Ok) == stmts_ok(program.stmts@),
            err_ok(r),
            r matches Ok(p) ==> labels_consistent(p),
            r matches Ok(p) ==> p.constant_pool@ == self.program_view().constant_pool@,
            literal_stmts(program.stmts@) ==> (r matches Ok(p) && loads_literals(
                self.program_view().instructions@,
                p.instructions@,
                program.stmts@,
            )),
            self.no_pending() ==> (r matches Ok(p) ==> jumps_resolved(p)),
    {
        let mut c = self;
        match c.compile_stmts(&program.stmts, floats) {
            Ok(()) => Ok(c.program),
            Err(e) => Err(e),
        }
    }

    fn next_temp(&mut self) -> (r: Register)
        ensures
            r == Register::Temp(old(self).temp_counter),
            final(self).program == old(self).program,
            final(self).pending == old(self).pending,
            old(self).kept(*final(self)),
            old(self).settled(*final(self)),
    {
        let reg = Register::Temp(self.temp_counter);
        self.temp_counter = self.temp_counter.wrapping_add(1);
        reg
    }

    /// `prefix_N`, N counting the labels made so far.
    fn next_label(&mut self, prefix: &str) -> (l: String)
        requires
            old(self).wf(),
        ensures
            final(self).wf(),
            final(self).program == old(self).program,
            final(self).pending@ == old(self).pending@.insert(l@),
            old(self).kept(*final(self)),
            l@ == prefix@ + "_"@ + crate::text::dec_str(old(self).label_counter as nat),
    {
        let a = concat2(prefix, "_");
        let n = usize_to_string(self.label_counter);
        let label = concat2(a.as_str(), n.as_str());
        self.label_counter = self.label_counter.wrapping_add(1);
        self.pending = Ghost(self.pending@.insert(label@));
        label
    }

    fn emit(&mut self, instruction: Instruction)
        requires
            old(self).wf(),
            match jump_target(instruction) {
                Some(l) => loop_exit(l) || old(self).covers(l),
                None => true,
            },
        ensures
            final(self).wf(),
            final(self).program.instructions@ == old(self).program.instructions@.push(instruction),
            final(self).program.labels@ == old(self).program.labels@,
            final(self).pending == old(self).pending,
            old(self).kept(*final(self)),
            old(self).settled(*final(self)),
    {
        self.program.emit(instruction);
        proof {
            let p = self.program;
            assert forall|i: int| 0 <= i < p.instructions@.len() implies match #[trigger] jump_target(p.instructions@[i]) {
                Some(l) => loop_exit(l) || self.pending@.contains(l) || label_lookup(p.labels@, l) is Some,
                None => true,
            } by {
                if i < p.instructions@.len() - 1 {
                    assert(p.instructions@[i] == old(self).program.instructions@[i]);
                }
            }
        }
    }

    fn emit_label(&mut self, name: String)
        requires
            old(self).wf(),
        ensures
            final(self).wf(),
            final(self).program.instructions@ == old(self).program.instructions@.push(Instruction::Label { name }),
            final(self).pending@ == old(self).pending@.remove(name@),
            label_lookup(final(self).program.labels@, name@) is Some,
            old(self).kept(*final(self)),
            old(self).settled(*final(self)),
    {
        let ghost n = name@;
        self.program.emit_label(name);
        self.pending = Ghost(self.pending@.remove(n));
        proof {
            let p = self.program;
            assert forall|i: int| 0 <= i < p.instructions@.len() implies match #[trigger] jump_target(p.instructions@[i]) {
                Some(l) => loop_exit(l) || self.pending@.contains(l) || label_lookup(p.labels@, l) is Some,
                None => true,
            } by {
                if i < p.instructions@.len() - 1 {
                    assert(p.instructions@[i] == old(self).program.instructions@[i]);
                }
            }
            assert forall|l: Seq<char>| #[trigger] covered(old(self).pending@, old(self).program.labels@, l) implies covered(self.pending@, self.program.labels@, l) by {
                if l != n {
                    assert(label_lookup(p.labels@, l) == label_lookup(old(self).program.labels@, l));
                }
            }
            let p = self.program;
            assert forall|i: int| 0 <= i < p.labels@.len() implies {
                let e = #[trigger] p.labels@[i];
                &&& e.position < p.instructions@.len()
                &&& p.instructions@[e.position as int] matches Instruction::Label { name } && name@ == e.name@
            } by {
                if i < p.labels@.len() - 1 {
                    assert(p.labels@[i] == old(self).program.labels@[i]);
                }
            }
        }
    }

    fn compile_stmts<F: FloatDecoder>(&mut self, v: &Vec<Stmt>, floats: &F) -> (r: Result<(), RaccoonError>)
        requires
            old(self).wf(),
        ensures
            final(self).wf(),
            old(self).kept(*final(self)),
            r is Ok ==> old(self).settled(*final(self)),
            (r is Ok) == stmts_ok(v@),
            err_ok(r),
            literal_stmts(v@) ==> (r is Ok && loads_literals(
                old(self).program.instructions@,
                final(self).program.instructions@,
                v@,
            )),
        decreases v, 1nat,
    {
        let mut i: usize = 0;
        assert(v@.subrange(0, 0) =~= Seq::<Stmt>::empty());
        assert(self.program.instructions@.subrange(0, self.program.instructions@.len() as int) =~= self.program.instructions@);
        while i < v.len()
            invariant
                self.wf(),
                old(self).kept(*self),
                old(self).settled(*self),
                i <= v@.len(),
                stmts_ok(v@.subrange(0, i as int)),
                literal_stmts(v@) ==> loads_literals(
                    old(self).program.instructions@,
                    self.program.instructions@,
                    v@.subrange(0, i as int),
                ),
            decreases v@.len() - i,
        {
            let ghost before = self.program.instructions@;
            assert(decreases_to!(v => v@[i as int]));
            let ghost sub = v@.subrange(0, i + 1);
            assert(sub.drop_last() =~= v@.subrange(0, i as int));
            match self.compile_stmt(&v[i], floats) {
                Ok(()) => {
                    proof {
                        if literal_stmts(v@) {
                            assert(literal_stmt(v@[i as int]));
                            let now = self.program.instructions@;
                            let o = old(self).program.instructions@;
                            assert forall|k: int| 0 <= k < i + 1 implies loads(
                                #[trigger] now[o.len() + k],
                                v@.subrange(0, i + 1)[k],
                            ) by {
                                if k < i {
                                    assert(now[o.len() + k] == before[o.len() + k]);
                                    assert(v@.subrange(0, i + 1)[k] == v@.subrange(0, i as int)[k]);
                                }
                            }
                            assert(now.subrange(0, o.len() as int) =~= o);
                        }
                    }
                },
                Err(e) => {
                    proof {
                        if stmts_ok(v@) {
                            lemma_stmts_ok_prefix(v@, i + 1);
                        }
                    }
                    return Err(e);
                },
            }
            i = i + 1;
        }
        assert(v@.subrange(0, v@.len() as int) =~= v@);
        Ok(())
    }

    fn compile_exprs<F: FloatDecoder>(&mut self, v: &Vec<Expr>, floats: &F) -> (r: Result<Vec<Register>, RaccoonError>)
        requires
            old(self).wf(),
        ensures
            final(self).wf(),
            old(self).kept(*final(self)),
            r is Ok ==> old(self).settled(*final(self)),
            (r is Ok) == exprs_ok(v@),
            err_ok(r),
            r matches Ok(regs) ==> regs@.len() == v@.len(),
        decreases v, 1nat,
    {
        let mut regs: Vec<Register> = Vec::new();
        let mut i: usize = 0;
        assert(v@.subrange(0, 0) =~= Seq::<Expr>::empty());
        while i < v.len()
            invariant
                self.wf(),
                old(self).kept(*self),
                old(self).settled(*self),
                i <= v@.len(),
                regs@.len() == i,
                exprs_ok(v@.subrange(0, i as int)),
            decreases v@.len() - i,
        {
            assert(decreases_to!(v => v@[i as int]));
            let ghost sub = v@.subrange(0, i + 1);
            assert(sub.drop_last() =~= v@.subrange(0, i as int));
            match self.compile_expr(&v[i], floats) {
                Ok(reg) => regs.push(reg),
                Err(e) => {
                    proof {
                        if exprs_ok(v@) {
                            lemma_exprs_ok_prefix(v@, i + 1);
                        }
                    }
                    return Err(e);
                },
            }
            i = i + 1;
        }
        assert(v@.subrange(0, v@.len() as int) =~= v@);
        Ok(regs)
    }

    /// Loads a constant into a new temporary.
    fn load_const(&mut self, value: RuntimeValue) -> (r: Register)
        requires
            old(self).wf(),
        ensures
            final(self).wf(),
            old(self).kept(*final(self)),
            old(self).settled(*final(self)),
            r == Register::Temp(old(self).temp_counter),
            final(self).program.instructions@ == old(self).program.instructions@.push(
                Instruction::LoadConst { dest: r, value },
            ),
            final(self).program.labels@ == old(self).program.labels@,
    {
        let dest = self.next_temp();
        self.emit(Instruction::LoadConst { dest: dest.copy(), value });
        dest
    }

    /// Compiles an expression, giving the register that holds its value.
    fn compile_expr<F: FloatDecoder>(&mut self, expr: &Expr, floats: &F) -> (r: Result<Register, RaccoonError>)
        requires
            old(self).wf(),
        ensures
            final(self).wf(),
            old(self).kept(*final(self)),
            r is Ok ==> old(self).settled(*final(self)),
            (r is Ok) == expr_ok(*expr),
            err_ok(r),
            literal_value(*expr) matches Some(v) ==> (r matches Ok(reg) && reg is Temp
                && final(self).program.instructions@ == old(self).program.instructions@.push(
                Instruction::LoadConst { dest: reg, value: v },
            )),
        decreases expr, 2nat,
    {
        match expr {
            Expr::IntLiteral { value, .. } => Ok(self.load_const(RuntimeValue::Int(*value))),
            Expr::FloatLiteral { text, .. } => {
                let bits = floats.float_bits(text.as_str());
                Ok(self.load_const(RuntimeValue::Float(bits)))
            },
            Expr::StrLiteral { value, .. } => Ok(self.load_const(RuntimeValue::Str(value.clone()))),
            Expr::BoolLiteral { value, .. } => Ok(self.load_const(RuntimeValue::Bool(*value))),
            Expr::NullLiteral { .. } => Ok(self.load_const(RuntimeValue::Null)),
            Expr::Identifier { name, .. } => {
                let dest = self.next_temp();
                self.emit(Instruction::Load { dest: dest.copy(), name: name.clone() });
                Ok(dest)
            },
            Expr::Binary { .. } | Expr::Range { .. } | Expr::NullCoalescing { .. } | Expr::Index { .. } => {
                self.compile_pair_expr(expr, floats)
            },
            Expr::Unary { .. } | Expr::UnaryUpdate { .. } | Expr::Member { .. } | Expr::OptionalChaining { .. }
            | Expr::TypeOf { .. } | Expr::InstanceOf { .. } | Expr::Await { .. } => {
                self.compile_single_expr(expr, floats)
            },
            Expr::Assignment { .. } => self.compile_assignment(expr, floats),
            Expr::Call { .. } | Expr::MethodCall { .. } | Expr::New { .. } | Expr::ArrayLiteral { .. } => {
                self.compile_call_like(expr, floats)
            },
            Expr::ObjectLiteral { .. } => self.compile_object_literal(expr, floats),
            Expr::Conditional { .. } => self.compile_conditional_expr(expr, floats),
            Expr::TemplateStr { .. } => self.compile_template_str(expr, floats),
            Expr::ArrowFn(..) => self.compile_arrow_fn(expr, floats),
            Expr::Match { .. } => self.compile_match_expr(expr, floats),
            _ => {
                let dest = self.next_temp();
                self.emit(Instruction::Comment { text: unimplemented_text(expr) });
                Ok(dest)
            },
        }
    }

    /// Binary operations, ranges, null coalescing and indexing: two operands, then the
    /// operation into a new temporary.
    fn compile_pair_expr<F: FloatDecoder>(&mut self, expr: &Expr, floats: &F) -> (r: Result<Register, RaccoonError>)
        requires
            old(self).wf(),
            expr is Binary || expr is Range || expr is NullCoalescing || expr is Index,
        ensures
            final(self).wf(),
            old(self).kept(*final(self)),
            r is Ok ==> old(self).settled(*final(self)),
            (r is Ok) == expr_ok(*expr),
            err_ok(r),
        decreases expr, 1nat,
    {
        let (a, b) = match expr {
            Expr::Binary { left, right, .. } => (left, right),
            Expr::Range { start, end, .. } => (start, end),
            Expr::NullCoalescing { left, right, .. } => (left, right),
            Expr::Index { object, index, .. } => (object, index),
            _ => return Ok(Register::Temp(0)),
        };
        let ra = match self.compile_expr(a, floats) {
            Ok(x) => x,
            Err(e) => return Err(e),
        };
        let rb = match self.compile_expr(b, floats) {
            Ok(x) => x,
            Err(e) => return Err(e),
        };
        let dest = self.next_temp();
        let ins = match expr {
            Expr::Binary { operator, .. } => Instruction::BinaryOp { dest: dest.copy(), left: ra, right: rb, op: *operator },
            Expr::Range { .. } => Instruction::CreateRange { dest: dest.copy(), start: ra, end: rb },
            Expr::NullCoalescing { .. } => Instruction::NullCoalesce { dest: dest.copy(), left: ra, right: rb },
            _ => Instruction::LoadIndex { dest: dest.copy(), array: ra, index: rb },
        };
        self.emit(ins);
        Ok(dest)
    }

    /// Expressions of one operand: the operand, then the operation into a new temporary.
    fn compile_single_expr<F: FloatDecoder>(&mut self, expr: &Expr, floats: &F) -> (r: Result<Register, RaccoonError>)
        requires
            old(self).wf(),
            expr is Unary || expr is UnaryUpdate || expr is Member || expr is OptionalChaining || expr is TypeOf
                || expr is InstanceOf || expr is Await,
        ensures
            final(self).wf(),
            old(self).kept(*final(self)),
            r is Ok ==> old(self).settled(*final(self)),
            (r is Ok) == expr_ok(*expr),
            err_ok(r),
        decreases expr, 1nat,
    {
        let a = match expr {
            Expr::Unary { operand, .. } => operand,
            Expr::UnaryUpdate { operand, .. } => operand,
            Expr::Member { object, .. } => object,
            Expr::OptionalChaining { object, .. } => object,
            Expr::TypeOf { operand, .. } => operand,
            Expr::InstanceOf { operand, .. } => operand,
            Expr::Await { expression, .. } => expression,
            _ => return Ok(Register::Temp(0)),
        };
        let ra = match self.compile_expr(a, floats) {
            Ok(x) => x,
            Err(e) => return Err(e),
        };
        let dest = self.next_temp();
        let ins = match expr {
            Expr::Unary { operator, .. } => Instruction::UnaryOp { dest: dest.copy(), operand: ra, op: *operator },
            Expr::UnaryUpdate { operator, is_prefix, .. } => match operator {
                UpdateOperator::Increment => Instruction::Increment { dest: dest.copy(), operand: ra, is_prefix: *is_prefix },
                UpdateOperator::Decrement => Instruction::Decrement { dest: dest.copy(), operand: ra, is_prefix: *is_prefix },
            },
            Expr::Member { property, .. } => Instruction::LoadProperty {
                dest: dest.copy(),
                object: ra,
                property: property.clone(),
            },
            Expr::OptionalChaining { property, .. } => Instruction::OptionalChain {
                dest: dest.copy(),
                object: ra,
                property: property.clone(),
            },
            Expr::TypeOf { .. } => Instruction::TypeOf { dest: dest.copy(), operand: ra },
            Expr::InstanceOf { class_name, .. } => Instruction::InstanceOf {
                dest: dest.copy(),
                operand: ra,
                class_name: class_name.clone(),
            },
            _ => Instruction::Await { dest: dest.copy(), future: ra },
        };
        self.emit(ins);
        Ok(dest)
    }

    /// The value, then a store to the variable, member or index it is assigned to; the
    /// register of the value is the result.
    fn compile_assignment<F: FloatDecoder>(&mut self, expr: &Expr, floats: &F) -> (r: Result<Register, RaccoonError>)
        requires
            old(self).wf(),
            expr is Assignment,
        ensures
            final(self).wf(),
            old(self).kept(*final(self)),
            r is Ok ==> old(self).settled(*final(self)),
            (r is Ok) == expr_ok(*expr),
            err_ok(r),
        decreases expr, 1nat,
    {
        let (target, value, position) = match expr {
            Expr::Assignment { target, value, position, .. } => (target, value, *position),
            _ => return Ok(Register::Temp(0)),
        };
        let value_reg = match self.compile_expr(value, floats) {
            Ok(x) => x,
            Err(e) => return Err(e),
        };
        match &**target {
            Expr::Identifier { name, .. } => {
                assert(target_ok(**target));
                self.emit(Instruction::Store { name: name.clone(), src: value_reg.copy() });
            },
            Expr::Member { object, property, .. } => {
                assert(target_ok(**target) == expr_ok(**object));
                let object_reg = match self.compile_expr(object, floats) {
                    Ok(x) => x,
                    Err(e) => return Err(e),
                };
                self.emit(Instruction::StoreProperty { object: object_reg, property: property.clone(), value: value_reg.copy() });
            },
            Expr::Index { object, index, .. } => {
                assert(target_ok(**target) == (expr_ok(**object) && expr_ok(**index)));
                let array_reg = match self.compile_expr(object, floats) {
                    Ok(x) => x,
                    Err(e) => return Err(e),
                };
                let index_reg = match self.compile_expr(index, floats) {
                    Ok(x) => x,
                    Err(e) => return Err(e),
                };
                self.emit(Instruction::StoreIndex { array: array_reg, index: index_reg, value: value_reg.copy() });
            },
            _ => {
                proof {
                    reveal_strlit("Invalid assignment target");
                    assert(!target_ok(**target));
                }
                return Err(RaccoonError::new("Invalid assignment target", position, None));
            },
        }
        Ok(value_reg)
    }

    /// Calls, method calls, `new` and array literals: the callee or object, the arguments,
    /// then the operation into a new temporary.
    fn compile_call_like<F: FloatDecoder>(&mut self, expr: &Expr, floats: &F) -> (r: Result<Register, RaccoonError>)
        requires
            old(self).wf(),
            expr is Call || expr is MethodCall || expr is New || expr is ArrayLiteral,
        ensures
            final(self).wf(),
            old(self).kept(*final(self)),
            r is Ok ==> old(self).settled(*final(self)),
            (r is Ok) == expr_ok(*expr),
            err_ok(r),
        decreases expr, 1nat,
    {
        match expr {
            Expr::Call { callee, args, .. } => {
                let c = match self.compile_expr(callee, floats) {
                    Ok(x) => x,
                    Err(e) => return Err(e),
                };
                let a = match self.compile_exprs(args, floats) {
                    Ok(x) => x,
                    Err(e) => return Err(e),
                };
                let dest = self.next_temp();
                self.emit(Instruction::Call { dest: dest.copy(), callee: c, args: a });
                Ok(dest)
            },
            Expr::MethodCall { object, method, args, .. } => {
                let o = match self.compile_expr(object, floats) {
                    Ok(x) => x,
                    Err(e) => return Err(e),
                };
                let a = match self.compile_exprs(args, floats) {
                    Ok(x) => x,
                    Err(e) => return Err(e),
                };
                let dest = self.next_temp();
                self.emit(Instruction::MethodCall { dest: dest.copy(), object: o, method: method.clone(), args: a });
                Ok(dest)
            },
            Expr::New { class_name, args, .. } => {
                let a = match self.compile_exprs(args, floats) {
                    Ok(x) => x,
                    Err(e) => return Err(e),
                };
                let dest = self.next_temp();
                self.emit(Instruction::NewInstance { dest: dest.copy(), class_name: class_name.clone(), args: a });
                Ok(dest)
            },
            Expr::ArrayLiteral { elements, .. } => {
                let a = match self.compile_exprs(elements, floats) {
                    Ok(x) => x,
                    Err(e) => return Err(e),
                };
                let dest = self.next_temp();
                self.emit(Instruction::CreateArray { dest: dest.copy(), elements: a });
                Ok(dest)
            },
            _ => Ok(Register::Temp(0)),
        }
    }

    /// The key-value properties' values in order (spread properties are skipped), then the
    /// object into a new temporary.
    fn compile_object_literal<F: FloatDecoder>(&mut self, expr: &Expr, floats: &F) -> (r: Result<Register, RaccoonError>)
        requires
            old(self).wf(),
            expr is ObjectLiteral,
        ensures
            final(self).wf(),
            old(self).kept(*final(self)),
            r is Ok ==> old(self).settled(*final(self)),
            (r is Ok) == expr_ok(*expr),
            err_ok(r),
        decreases expr, 1nat,
    {
        let props = match expr {
            Expr::ObjectLiteral { properties, .. } => properties,
            _ => return Ok(Register::Temp(0)),
        };
        let mut properties: Vec<PropertyReg> = Vec::new();
        let mut i: usize = 0;
        assert(props@.subrange(0, 0) =~= Seq::<ObjectLiteralProperty>::empty());
        while i < props.len()
            invariant
                self.wf(),
                old(self).kept(*self),
                old(self).settled(*self),
                i <= props@.len(),
                props_ok(props@.subrange(0, i as int)),
                *expr matches Expr::ObjectLiteral { properties: p, .. } && p == *props,
            decreases props@.len() - i,
        {
            assert(decreases_to!(expr => *props));
            assert(decreases_to!(props => props@[i as int]));
            let ghost sub = props@.subrange(0, i + 1);
            assert(sub.drop_last() =~= props@.subrange(0, i as int));
            match &props[i] {
                ObjectLiteralProperty::KeyValue { key, value } => {
                    assert(decreases_to!(props@[i as int] => *value));
                    match self.compile_expr(value, floats) {
                        Ok(reg) => properties.push(PropertyReg { name: key.clone(), reg }),
                        Err(e) => {
                            proof {
                                if props_ok(props@) {
                                    lemma_props_ok_prefix(props@, i + 1);
                                }
                            }
                            return Err(e);
                        },
                    }
                },
                ObjectLiteralProperty::Spread(_) => {},
            }
            i = i + 1;
        }
        assert(props@.subrange(0, props@.len() as int) =~= props@);
        let dest = self.next_temp();
        self.emit(Instruction::CreateObject { dest: dest.copy(), properties });
        Ok(dest)
    }

    fn compile_conditional_expr<F: FloatDecoder>(&mut self, expr: &Expr, floats: &F) -> (r: Result<Register, RaccoonError>)
        requires
            old(self).wf(),
            expr is Conditional,
        ensures
            final(self).wf(),
            old(self).kept(*final(self)),
            r is Ok ==> old(self).settled(*final(self)),
            (r is Ok) == expr_ok(*expr),
            err_ok(r),
        decreases expr, 1nat,
    {
        let (c, t, e) = match expr {
            Expr::Conditional { condition, then_expr, else_expr, .. } => (condition, then_expr, else_expr),
            _ => return Ok(Register::Temp(0)),
        };
        let condition = match self.compile_expr(c, floats) {
            Ok(x) => x,
            Err(err) => return Err(err),
        };
        let then_val = match self.compile_expr(t, floats) {
            Ok(x) => x,
            Err(err) => return Err(err),
        };
        let else_val = match self.compile_expr(e, floats) {
            Ok(x) => x,
            Err(err) => return Err(err),
        };
        let dest = self.next_temp();
        self.emit(Instruction::Conditional { dest: dest.copy(), condition, then_val, else_val });
        Ok(dest)
    }

    /// Text parts as they are and interpolated expressions by their registers, then the
    /// template into a new temporary.
    fn compile_template_str<F: FloatDecoder>(&mut self, expr: &Expr, floats: &F) -> (r: Result<Register, RaccoonError>)
        requires
            old(self).wf(),
            expr is TemplateStr,
        ensures
            final(self).wf(),
            old(self).kept(*final(self)),
            r is Ok ==> old(self).settled(*final(self)),
            (r is Ok) == expr_ok(*expr),
            err_ok(r),
        decreases expr, 1nat,
    {
        let src = match expr {
            Expr::TemplateStr { parts, .. } => parts,
            _ => return Ok(Register::Temp(0)),
        };
        let mut parts: Vec<TemplatePart> = Vec::new();
        let mut i: usize = 0;
        assert(src@.subrange(0, 0) =~= Seq::<TemplateStrPart>::empty());
        while i < src.len()
            invariant
                self.wf(),
                old(self).kept(*self),
                old(self).settled(*self),
                i <= src@.len(),
                parts_ok(src@.subrange(0, i as int)),
                *expr matches Expr::TemplateStr { parts: p, .. } && p == *src,
            decreases src@.len() - i,
        {
            assert(decreases_to!(expr => *src));
            assert(decreases_to!(src => src@[i as int]));
            let ghost sub = src@.subrange(0, i + 1);
            assert(sub.drop_last() =~= src@.subrange(0, i as int));
            match &src[i] {
                TemplateStrPart::Text { value, .. } => parts.push(TemplatePart::String(value.clone())),
                TemplateStrPart::Interpolation(e) => {
                    assert(decreases_to!(src@[i as int] => *e));
                    match self.compile_expr(e, floats) {
                        Ok(reg) => parts.push(TemplatePart::Expr(reg)),
                        Err(err) => {
                            proof {
                                if parts_ok(src@) {
                                    lemma_parts_ok_prefix(src@, i + 1);
                                }
                            }
                            return Err(err);
                        },
                    }
                },
            }
            i = i + 1;
        }
        assert(src@.subrange(0, src@.len() as int) =~= src@);
        let dest = self.next_temp();
        self.emit(Instruction::CreateTemplate { dest: dest.copy(), parts });
        Ok(dest)
    }

    /// The names of the parameters that are plain identifiers, in order.
    fn param_names(params: &Vec<crate::ast::FnParam>) -> (names: Vec<String>)
        ensures
            names@.map_values(|n: String| n@) == ident_param_names(params@),
    {
        let mut names: Vec<String> = Vec::new();
        let mut i: usize = 0;
        while i < params.len()
            invariant
                i <= params@.len(),
                names@.map_values(|n: String| n@) == ident_param_names(params@.subrange(0, i as int)),
            decreases params@.len() - i,
        {
            assert(params@.subrange(0, i + 1).drop_last() =~= params@.subrange(0, i as int));
            if let VarPattern::Identifier(name) = &params[i].pattern {
                let ghost before = names@;
                names.push(name.clone());
                assert(names@.map_values(|n: String| n@) =~= before.map_values(|n: String| n@).push(name@));
            }
            i = i + 1;
        }
        assert(params@.subrange(0, params@.len() as int) =~= params@);
        names
    }

    /// An arrow function: its body compiled on its own (an expression body returns its
    /// value), then the function into a new temporary.
    fn compile_arrow_fn<F: FloatDecoder>(&mut self, expr: &Expr, floats: &F) -> (r: Result<Register, RaccoonError>)
        requires
            old(self).wf(),
            expr is ArrowFn,
        ensures
            final(self).wf(),
            old(self).kept(*final(self)),
            r is Ok ==> old(self).settled(*final(self)),
            (r is Ok) == expr_ok(*expr),
            err_ok(r),
        decreases expr, 1nat,
    {
        let arrow = match expr {
            Expr::ArrowFn(a) => a,
            _ => return Ok(Register::Temp(0)),
        };
        let params = Self::param_names(&arrow.parameters);
        let mut body_compiler = IRCompiler::new();
        match &arrow.body {
            ArrowFnBody::Expr(b) => {
                let result = match body_compiler.compile_expr(b, floats) {
                    Ok(x) => x,
                    Err(e) => return Err(e),
                };
                body_compiler.emit(Instruction::Return { value: Some(result) });
            },
            ArrowFnBody::Block(stmts) => {
                match body_compiler.compile_stmts(stmts, floats) {
                    Ok(()) => {},
                    Err(e) => return Err(e),
                }
            },
        }
        let dest = self.next_temp();
        self.emit(Instruction::CreateFunction {
            dest: dest.copy(),
            name: String::from_str("<arrow>"),
            params,
            body: body_compiler.program.instructions,
            labels: body_compiler.program.labels,
            is_async: arrow.is_async,
        });
        Ok(dest)
    }

    /// A `match`: the scrutinee, a new temporary for the result, then each arm's pattern,
    /// guard, and body compiled on its own to return the arm's value.
    fn compile_match_expr<F: FloatDecoder>(&mut self, expr: &Expr, floats: &F) -> (r: Result<Register, RaccoonError>)
        requires
            old(self).wf(),
            expr is Match,
        ensures
            final(self).wf(),
            old(self).kept(*final(self)),
            r is Ok ==> old(self).settled(*final(self)),
            (r is Ok) == expr_ok(*expr),
            err_ok(r),
        decreases expr, 1nat,
    {
        let (scrutinee_expr, src) = match expr {
            Expr::Match { scrutinee, arms, .. } => (scrutinee, arms),
            _ => return Ok(Register::Temp(0)),
        };
        let scrutinee = match self.compile_expr(scrutinee_expr, floats) {
            Ok(x) => x,
            Err(e) => return Err(e),
        };
        let dest = self.next_temp();
        let mut arms: Vec<IRMatchArm> = Vec::new();
        let mut i: usize = 0;
        assert(src@.subrange(0, 0) =~= Seq::<MatchArm>::empty());
        while i < src.len()
            invariant
                self.wf(),
                old(self).kept(*self),
                old(self).settled(*self),
                i <= src@.len(),
                arms_ok(src@.subrange(0, i as int)),
                *expr matches Expr::Match { arms: a, .. } && a == *src,
            decreases src@.len() - i,
        {
            assert(decreases_to!(expr => *src));
            assert(decreases_to!(src => src@[i as int]));
            let arm = &src[i];
            let ghost sub = src@.subrange(0, i + 1);
            assert(sub.drop_last() =~= src@.subrange(0, i as int));
            let pattern = compile_pattern(&arm.pattern);
            let guard = match &arm.guard {
                Some(g) => {
                    assert(decreases_to!(src@[i as int] => *g));
                    match self.compile_expr(g, floats) {
                        Ok(x) => Some(x),
                        Err(e) => {
                            proof {
                                if arms_ok(src@) {
                                    lemma_arms_ok_prefix(src@, i + 1);
                                }
                            }
                            return Err(e);
                        },
                    }
                },
                None => None,
            };
            let mut body_compiler = IRCompiler::new();
            assert(decreases_to!(src@[i as int] => *arm.body));
            let body_reg = match body_compiler.compile_expr(&arm.body, floats) {
                Ok(x) => x,
                Err(e) => {
                    proof {
                        if arms_ok(src@) {
                            lemma_arms_ok_prefix(src@, i + 1);
                        }
                    }
                    return Err(e);
                },
            };
            body_compiler.emit(Instruction::Return { value: Some(body_reg) });
            arms.push(IRMatchArm { pattern, guard, body: body_compiler.program.instructions });
            i = i + 1;
        }
        assert(src@.subrange(0, src@.len() as int) =~= src@);
        self.emit(Instruction::Match { dest: dest.copy(), scrutinee, arms });
        Ok(dest)
    }

    /// Compiles a statement. Interfaces, type aliases, imports, exports, classes, `for-in`,
    /// `for-of` and `try` give no instructions.
    fn compile_stmt<F: FloatDecoder>(&mut self, stmt: &Stmt, floats: &F) -> (r: Result<(), RaccoonError>)
        requires
            old(self).wf(),
        ensures
            final(self).wf(),
            old(self).kept(*final(self)),
            r is Ok ==> old(self).settled(*final(self)),
            (r is Ok) == stmt_ok(*stmt),
            err_ok(r),
            literal_stmt(*stmt) ==> (r is Ok && final(self).program.instructions@.len()
                == old(self).program.instructions@.len() + 1 && final(self).program.instructions@.drop_last()
                == old(self).program.instructions@ && loads(final(self).program.instructions@.last(), *stmt)),
            (r is Ok && stmt is IfStmt) ==> exists|k: int, m: int| #[trigger] if_shape(
                final(self).program.instructions@,
                old(self).program.instructions@.len() as int,
                k,
                m,
            ) && (literal_value(stmt->IfStmt_condition) matches Some(v) ==> k == old(self).program.instructions@.len() + 1
                && tests_loaded(final(self).program.instructions@, k, v)) && if_branches(
                final(self).program.instructions@,
                k,
                m,
                *stmt->IfStmt_then_branch,
                stmt->IfStmt_else_branch,
            ),
            (r is Ok && stmt is WhileStmt) ==> exists|k: int| #[trigger] while_shape(
                final(self).program.instructions@,
                old(self).program.instructions@.len() as int,
                k,
            ) && (literal_value(stmt->WhileStmt_condition) matches Some(v) ==> k == old(self).program.instructions@.len() + 2
                && tests_loaded(final(self).program.instructions@, k, v)),
            (r is Ok && stmt is DoWhileStmt) ==> do_while_shape(
                final(self).program.instructions@,
                old(self).program.instructions@.len() as int,
            ),
        decreases stmt, 2nat,
    {
        match stmt {
            Stmt::VarDecl { .. } => self.compile_var_decl(stmt, floats),
            Stmt::FnDecl { .. } => self.compile_fn_decl(stmt, floats),
            Stmt::EnumDecl { .. } => self.compile_enum_decl(stmt, floats),
            Stmt::Block { .. } => self.compile_block(stmt, floats),
            Stmt::IfStmt { .. } => self.compile_if_stmt(stmt, floats),
            Stmt::WhileStmt { .. } | Stmt::DoWhileStmt { .. } => self.compile_loop_stmt(stmt, floats),
            Stmt::ForStmt { .. } => self.compile_for_stmt(stmt, floats),
            Stmt::SwitchStmt { .. } => self.compile_switch_stmt(stmt, floats),
            Stmt::ReturnStmt { value, .. } => {
                let v = match value {
                    Some(e) => match self.compile_expr(e, floats) {
                        Ok(x) => Some(x),
                        Err(err) => return Err(err),
                    },
                    None => None,
                };
                self.emit(Instruction::Return { value: v });
                Ok(())
            },
            Stmt::ThrowStmt { value, .. } => {
                let v = match self.compile_expr(value, floats) {
                    Ok(x) => x,
                    Err(err) => return Err(err),
                };
                self.emit(Instruction::Throw { value: v });
                Ok(())
            },
            Stmt::ExprStmt { expression, .. } => {
                match self.compile_expr(expression, floats) {
                    Ok(_) => Ok(()),
                    Err(err) => Err(err),
                }
            },
            Stmt::BreakStmt { .. } => {
                self.emit(Instruction::Jump { label: String::from_str("break") });
                Ok(())
            },
            Stmt::ContinueStmt { .. } => {
                self.emit(Instruction::Jump { label: String::from_str("continue") });
                Ok(())
            },
            _ => Ok(()),
        }
    }

    /// A variable: declared and stored when it has an initializer; a destructuring pattern:
    /// the initializer, then the destructuring.
    fn compile_var_decl<F: FloatDecoder>(&mut self, stmt: &Stmt, floats: &F) -> (r: Result<(), RaccoonError>)
        requires
            old(self).wf(),
            stmt is VarDecl,
        ensures
            final(self).wf(),
            old(self).kept(*final(self)),
            r is Ok ==> old(self).settled(*final(self)),
            (r is Ok) == stmt_ok(*stmt),
            err_ok(r),
        decreases stmt, 1nat,
    {
        let (pattern, initializer, is_constant) = match stmt {
            Stmt::VarDecl { pattern, initializer, is_constant, .. } => (pattern, initializer, *is_constant),
            _ => return Ok(()),
        };
        match pattern {
            VarPattern::Identifier(name) => {
                self.emit(Instruction::Declare { name: name.clone(), is_const: is_constant });
                if let Some(init) = initializer {
                    let value_reg = match self.compile_expr(init, floats) {
                        Ok(x) => x,
                        Err(e) => return Err(e),
                    };
                    self.emit(Instruction::Store { name: name.clone(), src: value_reg });
                }
            },
            VarPattern::Destructuring(p) => {
                if let Some(init) = initializer {
                    let value_reg = match self.compile_expr(init, floats) {
                        Ok(x) => x,
                        Err(e) => return Err(e),
                    };
                    self.compile_destructuring_pattern(p, value_reg);
                }
            },
        }
        Ok(())
    }

    /// One destructuring from `src`: plain names go to local registers, nested patterns to
    /// new temporaries, a rest name to its local register.
    fn compile_destructuring_pattern(&mut self, pattern: &DestructuringPattern, src: Register)
        requires
            old(self).wf(),
        ensures
            final(self).wf(),
            old(self).kept(*final(self)),
            old(self).settled(*final(self)),
            final(self).program.labels@ == old(self).program.labels@,
            final(self).program.instructions@.len() == old(self).program.instructions@.len() + 1,
            final(self).program.instructions@.subrange(0, old(self).program.instructions@.len() as int)
                == old(self).program.instructions@,
            destructures(*pattern, src, final(self).program.instructions@.last()),
    {
        match pattern {
            DestructuringPattern::Array(array_pattern) => {
                let mut dests: Vec<Register> = Vec::new();
                let mut i: usize = 0;
                while i < array_pattern.elements.len()
                    invariant
                        self.wf(),
                        self.pending == old(self).pending,
                        self.program == old(self).program,
                        i <= array_pattern.elements@.len(),
                        dests@.len() == present_elements(array_pattern.elements@.subrange(0, i as int)).len(),
                        forall|j: int| 0 <= j < dests@.len() ==> #[trigger] binds_to(
                            element_name(present_elements(array_pattern.elements@.subrange(0, i as int))[j]),
                            dests@[j],
                        ),
                    decreases array_pattern.elements@.len() - i,
                {
                    assert(array_pattern.elements@.subrange(0, i + 1).drop_last() =~= array_pattern.elements@.subrange(
                        0,
                        i as int,
                    ));
                    if let Some(elem) = &array_pattern.elements[i] {
                        let dest = match elem {
                            ArrayPatternElement::Identifier(ident) => Register::Local(ident.name.clone()),
                            _ => self.next_temp(),
                        };
                        dests.push(dest);
                    }
                    i = i + 1;
                }
                assert(array_pattern.elements@.subrange(0, array_pattern.elements@.len() as int) =~= array_pattern.elements@);
                let rest_dest = match &array_pattern.rest {
                    Some(rest) => Some(Register::Local(rest.name.clone())),
                    None => None,
                };
                self.emit(Instruction::DestructureArray {
                    dests,
                    src,
                    has_rest: array_pattern.rest.is_some(),
                    rest_dest,
                });
            },
            DestructuringPattern::Object(object_pattern) => {
                let mut mappings: Vec<PropertyReg> = Vec::new();
                let mut i: usize = 0;
                while i < object_pattern.properties.len()
                    invariant
                        self.wf(),
                        self.pending == old(self).pending,
                        self.program == old(self).program,
                        i <= object_pattern.properties@.len(),
                        mappings@.len() == i,
                        forall|j: int| 0 <= j < i ==> (#[trigger] mappings@[j]).name@ == object_pattern.properties@[j].key@
                            && binds_to(value_name(object_pattern.properties@[j].value), mappings@[j].reg),
                    decreases object_pattern.properties@.len() - i,
                {
                    let prop = &object_pattern.properties[i];
                    let dest = match &prop.value {
                        ObjectPatternValue::Identifier(ident) => Register::Local(ident.name.clone()),
                        _ => self.next_temp(),
                    };
                    let ghost before = mappings@;
                    mappings.push(PropertyReg { name: prop.key.clone(), reg: dest });
                    proof {
                        assert forall|j: int| 0 <= j < i + 1 implies (#[trigger] mappings@[j]).name@ == object_pattern.properties@[j].key@
                            && binds_to(value_name(object_pattern.properties@[j].value), mappings@[j].reg) by {
                            if j < i {
                                assert(mappings@[j] == before[j]);
                                assert(before[j].name@ == object_pattern.properties@[j].key@);
                            } else {
                                assert(mappings@[j].name == prop.key);
                            }
                        }
                    }
                    i = i + 1;
                }
                let rest_dest = match &object_pattern.rest {
                    Some(rest) => Some(Register::Local(rest.name.clone())),
                    None => None,
                };
                self.emit(Instruction::DestructureObject { mappings, src, rest_dest });
            },
        }
    }

    /// A function: its body compiled on its own, then the function stored in the global
    /// register of its name.
    fn compile_fn_decl<F: FloatDecoder>(&mut self, stmt: &Stmt, floats: &F) -> (r: Result<(), RaccoonError>)
        requires
            old(self).wf(),
            stmt is FnDecl,
        ensures
            final(self).wf(),
            old(self).kept(*final(self)),
            r is Ok ==> old(self).settled(*final(self)),
            (r is Ok) == stmt_ok(*stmt),
            err_ok(r),
        decreases stmt, 1nat,
    {
        let (name, parameters, body, is_async) = match stmt {
            Stmt::FnDecl { name, parameters, body, is_async, .. } => (name, parameters, body, *is_async),
            _ => return Ok(()),
        };
        let params = Self::param_names(parameters);
        let mut body_compiler = IRCompiler::new();
        match body_compiler.compile_stmts(body, floats) {
            Ok(()) => {},
            Err(e) => return Err(e),
        }
        self.emit(Instruction::CreateFunction {
            dest: Register::Global(name.clone()),
            name: name.clone(),
            params,
            body: body_compiler.program.instructions,
            labels: body_compiler.program.labels,
            is_async,
        });
        Ok(())
    }

    /// An enum: each member's value (its expression, or the next number counting from 0 over
    /// the members without one), an object of them, stored under the enum's name.
    fn compile_enum_decl<F: FloatDecoder>(&mut self, stmt: &Stmt, floats: &F) -> (r: Result<(), RaccoonError>)
        requires
            old(self).wf(),
            stmt is EnumDecl,
        ensures
            final(self).wf(),
            old(self).kept(*final(self)),
            r is Ok ==> old(self).settled(*final(self)),
            (r is Ok) == stmt_ok(*stmt),
            err_ok(r),
        decreases stmt, 1nat,
    {
        let (name, members) = match stmt {
            Stmt::EnumDecl { name, members, .. } => (name, members),
            _ => return Ok(()),
        };
        let mut properties: Vec<PropertyReg> = Vec::new();
        let mut value: i64 = 0;
        let mut i: usize = 0;
        assert(members@.subrange(0, 0) =~= Seq::<EnumMember>::empty());
        while i < members.len()
            invariant
                self.wf(),
                old(self).kept(*self),
                old(self).settled(*self),
                i <= members@.len(),
                members_ok(members@.subrange(0, i as int)),
                *stmt matches Stmt::EnumDecl { members: m, .. } && m == *members,
            decreases members@.len() - i,
        {
            assert(decreases_to!(stmt => *members));
            assert(decreases_to!(members => members@[i as int]));
            let member = &members[i];
            let ghost sub = members@.subrange(0, i + 1);
            assert(sub.drop_last() =~= members@.subrange(0, i as int));
            let member_value = match &member.value {
                Some(val_expr) => {
                    assert(decreases_to!(members@[i as int] => *val_expr));
                    match self.compile_expr(val_expr, floats) {
                        Ok(x) => x,
                        Err(e) => {
                            proof {
                                if members_ok(members@) {
                                    lemma_members_ok_prefix(members@, i + 1);
                                }
                            }
                            return Err(e);
                        },
                    }
                },
                None => {
                    let reg = self.load_const(RuntimeValue::Int(value));
                    value = value.wrapping_add(1);
                    reg
                },
            };
            properties.push(PropertyReg { name: member.name.clone(), reg: member_value });
            i = i + 1;
        }
        assert(members@.subrange(0, members@.len() as int) =~= members@);
        let enum_obj = self.next_temp();
        self.emit(Instruction::CreateObject { dest: enum_obj.copy(), properties });
        self.emit(Instruction::Store { name: name.clone(), src: enum_obj });
        Ok(())
    }

    /// A block: its statements inside a scope.
    fn compile_block<F: FloatDecoder>(&mut self, stmt: &Stmt, floats: &F) -> (r: Result<(), RaccoonError>)
        requires
            old(self).wf(),
            stmt is Block,
        ensures
            final(self).wf(),
            old(self).kept(*final(self)),
            r is Ok ==> old(self).settled(*final(self)),
            (r is Ok) == stmt_ok(*stmt),
            err_ok(r),
        decreases stmt, 1nat,
    {
        let statements = match stmt {
            Stmt::Block { statements, .. } => statements,
            _ => return Ok(()),
        };
        self.emit(Instruction::PushScope);
        let ghost pushed = *self;
        self.scope_depth = self.scope_depth.wrapping_add(1);
        proof { IRCompiler::lemma_kept_same(pushed, *self); }
        match self.compile_stmts(statements, floats) {
            Ok(()) => {},
            Err(e) => return Err(e),
        }
        let ghost compiled = *self;
        self.scope_depth = self.scope_depth.wrapping_sub(1);
        proof { IRCompiler::lemma_kept_same(compiled, *self); }
        self.emit(Instruction::PopScope);
        Ok(())
    }

    /// `if`: the condition, a jump to the else label when false, the then branch, a jump to
    /// the end, the else label and branch, the end label.
    fn compile_if_stmt<F: FloatDecoder>(&mut self, stmt: &Stmt, floats: &F) -> (r: Result<(), RaccoonError>)
        requires
            old(self).wf(),
            stmt is IfStmt,
        ensures
            final(self).wf(),
            old(self).kept(*final(self)),
            r is Ok ==> old(self).settled(*final(self)),
            (r is Ok) == stmt_ok(*stmt),
            err_ok(r),
            r is Ok ==> exists|k: int, m: int| #[trigger] if_shape(
                final(self).program.instructions@,
                old(self).program.instructions@.len() as int,
                k,
                m,
            ) && (literal_value(stmt->IfStmt_condition) matches Some(v) ==> k == old(self).program.instructions@.len() + 1
                && tests_loaded(final(self).program.instructions@, k, v)) && if_branches(
                final(self).program.instructions@,
                k,
                m,
                *stmt->IfStmt_then_branch,
                stmt->IfStmt_else_branch,
            ),
        decreases stmt, 1nat,
    {
        let (condition, then_branch, else_branch) = match stmt {
            Stmt::IfStmt { condition, then_branch, else_branch, .. } => (condition, then_branch, else_branch),
            _ => return Ok(()),
        };
        let ghost n0 = self.program.instructions@.len() as int;
        let ghost c0 = *self;
        let condition_reg = match self.compile_expr(condition, floats) {
            Ok(x) => x,
            Err(e) => return Err(e),
        };
        let ghost c1 = *self;
        let else_label = self.next_label("else");
        assert(self.covers(else_label@));
        let end_label = self.next_label("endif");
        assert(self.covers(end_label@));
        let ghost k = self.program.instructions@.len() as int;
        proof {
            reveal_strlit("else");
            reveal_strlit("endif");
            reveal_strlit("_");
            assert(else_label@[1] != end_label@[1]);
        }
        self.emit(Instruction::JumpIfFalse { condition: condition_reg, label: else_label.clone() });
        let ghost c2 = *self;
        match self.compile_stmt(then_branch, floats) {
            Ok(()) => {},
            Err(e) => return Err(e),
        }
        let ghost ct = *self;
        let ghost m = self.program.instructions@.len() as int + 1;
        self.emit(Instruction::Jump { label: end_label.clone() });
        self.emit_label(else_label);
        let ghost c3 = *self;
        if let Some(b) = else_branch {
            match self.compile_stmt(b, floats) {
                Ok(()) => {},
                Err(e) => return Err(e),
            }
        }
        let ghost ce = *self;
        self.emit_label(end_label);
        proof {
            let ins = self.program.instructions@;
            if literal_stmt(**then_branch) {
                assert(ins[k + 1] == ct.program.instructions@[k + 1]);
            }
            if let Some(b) = else_branch {
                if literal_stmt(**b) {
                    assert(ins[m + 1] == ce.program.instructions@[m + 1]);
                }
            }
            assert(ins[k] == c2.program.instructions@[k]);
            assert(ins[m - 1] == c3.program.instructions@[m - 1]);
            assert(ins[m] == c3.program.instructions@[m]);
            assert(if_shape(ins, n0, k, m));
            if literal_value(*condition) matches Some(v) {
                assert(ins[k - 1] == c1.program.instructions@[k - 1]);
            }
        }
        Ok(())
    }

    /// `while`: the start label, the condition, a jump to the end when false, the body, a
    /// jump back, the end label. `do-while`: the start label, the body, the condition, a
    /// jump back when true.
    fn compile_loop_stmt<F: FloatDecoder>(&mut self, stmt: &Stmt, floats: &F) -> (r: Result<(), RaccoonError>)
        requires
            old(self).wf(),
            stmt is WhileStmt || stmt is DoWhileStmt,
        ensures
            final(self).wf(),
            old(self).kept(*final(self)),
            r is Ok ==> old(self).settled(*final(self)),
            (r is Ok) == stmt_ok(*stmt),
            err_ok(r),
            (r is Ok && stmt is WhileStmt) ==> exists|k: int| #[trigger] while_shape(
                final(self).program.instructions@,
                old(self).program.instructions@.len() as int,
                k,
            ) && (literal_value(stmt->WhileStmt_condition) matches Some(v) ==> k == old(self).program.instructions@.len() + 2
                && tests_loaded(final(self).program.instructions@, k, v)),
            (r is Ok && stmt is DoWhileStmt) ==> do_while_shape(
                final(self).program.instructions@,
                old(self).program.instructions@.len() as int,
            ) && (literal_value(stmt->DoWhileStmt_condition) matches Some(v) ==> tests_loaded(
                final(self).program.instructions@,
                final(self).program.instructions@.len() - 1,
                v,
            )),
        decreases stmt, 1nat,
    {
        match stmt {
            Stmt::WhileStmt { condition, body, .. } => {
                let start_label = self.next_label("while_start");
                assert(self.covers(start_label@));
                let end_label = self.next_label("while_end");
                assert(self.covers(end_label@));
                let ghost n0 = self.program.instructions@.len() as int;
                proof {
                    reveal_strlit("while_start");
                    reveal_strlit("while_end");
                    reveal_strlit("_");
                    assert(start_label@[6] != end_label@[6]);
                }
                self.emit_label(start_label.clone());
                assert(self.covers(start_label@));
                let ghost c0 = *self;
                let condition_reg = match self.compile_expr(condition, floats) {
                    Ok(x) => x,
                    Err(e) => return Err(e),
                };
                let ghost c1 = *self;
                let ghost k = self.program.instructions@.len() as int;
                self.emit(Instruction::JumpIfFalse { condition: condition_reg, label: end_label.clone() });
                let ghost c2 = *self;
                match self.compile_stmt(body, floats) {
                    Ok(()) => {},
                    Err(e) => return Err(e),
                }
                self.emit(Instruction::Jump { label: start_label });
                self.emit_label(end_label);
                proof {
                    let ins = self.program.instructions@;
                    assert(ins[n0] == c0.program.instructions@[n0]);
                    assert(ins[k] == c2.program.instructions@[k]);
                    assert(while_shape(ins, n0, k));
                    if literal_value(*condition) matches Some(v) {
                        assert(ins[k - 1] == c1.program.instructions@[k - 1]);
                    }
                }
                Ok(())
            },
            Stmt::DoWhileStmt { body, condition, .. } => {
                let start_label = self.next_label("do_start");
                assert(self.covers(start_label@));
                let ghost n0 = self.program.instructions@.len() as int;
                self.emit_label(start_label.clone());
                assert(self.covers(start_label@));
                let ghost c0 = *self;
                match self.compile_stmt(body, floats) {
                    Ok(()) => {},
                    Err(e) => return Err(e),
                }
                let condition_reg = match self.compile_expr(condition, floats) {
                    Ok(x) => x,
                    Err(e) => return Err(e),
                };
                let ghost c1 = *self;
                self.emit(Instruction::JumpIfTrue { condition: condition_reg, label: start_label });
                proof {
                    let ins = self.program.instructions@;
                    assert(ins[n0] == c0.program.instructions@[n0]);
                    assert(do_while_shape(ins, n0));
                    if literal_value(*condition) matches Some(v) {
                        let k = ins.len() - 1;
                        assert(ins[k - 1] == c1.program.instructions@[k - 1]);
                    }
                }
                Ok(())
            },
            _ => Ok(()),
        }
    }

    /// `for`: inside a scope, the initializer, the start label, the condition with a jump to
    /// the end when false, the body, the continue label, the increment, a jump back, the
    /// end label.
    fn compile_for_stmt<F: FloatDecoder>(&mut self, stmt: &Stmt, floats: &F) -> (r: Result<(), RaccoonError>)
        requires
            old(self).wf(),
            stmt is ForStmt,
        ensures
            final(self).wf(),
            old(self).kept(*final(self)),
            r is Ok ==> old(self).settled(*final(self)),
            (r is Ok) == stmt_ok(*stmt),
            err_ok(r),
        decreases stmt, 1nat,
    {
        let (initializer, condition, increment, body) = match stmt {
            Stmt::ForStmt { initializer, condition, increment, body, .. } => (initializer, condition, increment, body),
            _ => return Ok(()),
        };
        self.emit(Instruction::PushScope);
        if let Some(init) = initializer {
            match self.compile_stmt(init, floats) {
                Ok(()) => {},
                Err(e) => return Err(e),
            }
        }
        let start_label = self.next_label("for_start");
        assert(self.covers(start_label@));
        let end_label = self.next_label("for_end");
        assert(self.covers(end_label@));
        let continue_label = self.next_label("for_continue");
        assert(self.covers(continue_label@));
        self.emit_label(start_label.clone());
                assert(self.covers(start_label@));
        if let Some(c) = condition {
            let condition_reg = match self.compile_expr(c, floats) {
                Ok(x) => x,
                Err(e) => return Err(e),
            };
            self.emit(Instruction::JumpIfFalse { condition: condition_reg, label: end_label.clone() });
        }
        match self.compile_stmt(body, floats) {
            Ok(()) => {},
            Err(e) => return Err(e),
        }
        self.emit_label(continue_label);
        if let Some(inc) = increment {
            match self.compile_expr(inc, floats) {
                Ok(_) => {},
                Err(e) => return Err(e),
            }
        }
        self.emit(Instruction::Jump { label: start_label });
        self.emit_label(end_label);
        self.emit(Instruction::PopScope);
        Ok(())
    }

    /// `switch`: the discriminant, then for each case with a test: the test, an equality
    /// with the discriminant, a jump to the next case when false, the case's statements, a
    /// jump to the end, the next case's label; a default case's statements run in place.
    fn compile_switch_stmt<F: FloatDecoder>(&mut self, stmt: &Stmt, floats: &F) -> (r: Result<(), RaccoonError>)
        requires
            old(self).wf(),
            stmt is SwitchStmt,
        ensures
            final(self).wf(),
            old(self).kept(*final(self)),
            r is Ok ==> old(self).settled(*final(self)),
            (r is Ok) == stmt_ok(*stmt),
            err_ok(r),
        decreases stmt, 1nat,
    {
        let (discriminant, cases) = match stmt {
            Stmt::SwitchStmt { discriminant, cases, .. } => (discriminant, cases),
            _ => return Ok(()),
        };
        let discriminant_reg = match self.compile_expr(discriminant, floats) {
            Ok(x) => x,
            Err(e) => return Err(e),
        };
        let end_label = self.next_label("switch_end");
        assert(self.covers(end_label@));
        let mut i: usize = 0;
        assert(cases@.subrange(0, 0) =~= Seq::<SwitchCase>::empty());
        while i < cases.len()
            invariant
                self.wf(),
                old(self).kept(*self),
                self.covers(end_label@),
                self.pending@.subset_of(old(self).pending@.insert(end_label@)),
                i <= cases@.len(),
                cases_ok(cases@.subrange(0, i as int)),
                *stmt matches Stmt::SwitchStmt { cases: c, .. } && c == *cases,
            decreases cases@.len() - i,
        {
            assert(decreases_to!(stmt => *cases));
            assert(decreases_to!(cases => cases@[i as int]));
            let case = &cases[i];
            let ghost sub = cases@.subrange(0, i + 1);
            assert(sub.drop_last() =~= cases@.subrange(0, i as int));
            assert(decreases_to!(cases@[i as int] => case.consequent));
            proof {
                if cases_ok(cases@) {
                    lemma_cases_ok_prefix(cases@, i + 1);
                }
            }
            if let Some(test) = &case.test {
                assert(decreases_to!(cases@[i as int] => *test));
                let test_reg = match self.compile_expr(test, floats) {
                    Ok(x) => x,
                    Err(e) => return Err(e),
                };
                let temp = self.next_temp();
                self.emit(Instruction::BinaryOp {
                    dest: temp.copy(),
                    left: discriminant_reg.copy(),
                    right: test_reg,
                    op: BinaryOperator::Equal,
                });
                let prefix = concat2("case_", usize_to_string(i + 1).as_str());
                let next_case_label = self.next_label(prefix.as_str());
                assert(self.covers(next_case_label@));
                self.emit(Instruction::JumpIfFalse { condition: temp, label: next_case_label.clone() });
                match self.compile_stmts(&case.consequent, floats) {
                    Ok(()) => {},
                    Err(e) => return Err(e),
                }
                self.emit(Instruction::Jump { label: end_label.clone() });
                self.emit_label(next_case_label);
            } else {
                match self.compile_stmts(&case.consequent, floats) {
                    Ok(()) => {},
                    Err(e) => return Err(e),
                }
            }
            i = i + 1;
        }
        assert(cases@.subrange(0, cases@.len() as int) =~= cases@);
        self.emit_label(end_label);
        Ok(())
    }
}


impl Default for IRCompiler {
    fn default() -> (c: IRCompiler)
        ensures
            c.wf(),
            c.no_pending(),
    {
        IRCompiler::new()
    }
}

} // verus!
