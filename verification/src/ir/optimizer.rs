//! Passes that simplify a program: constant folding, removal of unreachable code and of
//! `Nop`s, and threading of jumps through labels that only jump on.
use vstd::prelude::*;
use crate::ir::instruction::{
    dest_spec, find_label, label_lookup, IRProgram, Instruction, LabelEntry, Register, RegisterView,
};
use crate::runtime::values::RuntimeValue;
use crate::text::{concat2, str_eq};
use crate::tokens::{BinaryOperator, UnaryOperator};

verus! {

/// A constant the folder computes with: an integer, a boolean or a string.
pub enum Scalar {
    Int(i64),
    Bool(bool),
    Str(Seq<char>),
}

/// The constant a value is, if it is an integer, a boolean or a string.
pub open spec fn scalar_of(v: RuntimeValue) -> Option<Scalar> {
    match v {
        RuntimeValue::Int(i) => Some(Scalar::Int(i)),
        RuntimeValue::Bool(b) => Some(Scalar::Bool(b)),
        RuntimeValue::Str(s) => Some(Scalar::Str(s@)),
        _ => None,
    }
}

pub open spec fn int_result(r: Option<i64>) -> Option<Scalar> {
    match r {
        Some(i) => Some(Scalar::Int(i)),
        None => None,
    }
}

/// The constant `l op r`, where the operation is defined on the two constants and does not
/// overflow or divide by zero.
pub open spec fn fold_binary_spec(l: Scalar, r: Scalar, op: BinaryOperator) -> Option<Scalar> {
    match (l, r) {
        (Scalar::Int(a), Scalar::Int(b)) => match op {
            BinaryOperator::Add => int_result(a.checked_add(b)),
            BinaryOperator::Subtract => int_result(a.checked_sub(b)),
            BinaryOperator::Multiply => int_result(a.checked_mul(b)),
            BinaryOperator::Divide => int_result(a.checked_div(b)),
            BinaryOperator::Modulo => int_result(a.checked_rem(b)),
            BinaryOperator::Equal => Some(Scalar::Bool(a == b)),
            BinaryOperator::NotEqual => Some(Scalar::Bool(a != b)),
            BinaryOperator::LessThan => Some(Scalar::Bool(a < b)),
            BinaryOperator::GreaterThan => Some(Scalar::Bool(a > b)),
            BinaryOperator::LessEqual => Some(Scalar::Bool(a <= b)),
            BinaryOperator::GreaterEqual => Some(Scalar::Bool(a >= b)),
            _ => None,
        },
        (Scalar::Str(a), Scalar::Str(b)) => match op {
            BinaryOperator::Add => Some(Scalar::Str(a + b)),
            BinaryOperator::Equal => Some(Scalar::Bool(a == b)),
            BinaryOperator::NotEqual => Some(Scalar::Bool(a != b)),
            _ => None,
        },
        (Scalar::Bool(a), Scalar::Bool(b)) => match op {
            BinaryOperator::And => Some(Scalar::Bool(a && b)),
            BinaryOperator::Or => Some(Scalar::Bool(a || b)),
            BinaryOperator::Equal => Some(Scalar::Bool(a == b)),
            BinaryOperator::NotEqual => Some(Scalar::Bool(a != b)),
            _ => None,
        },
        _ => None,
    }
}

/// The constant `op v`: the negation of an integer other than the least one, or the
/// complement of a boolean.
pub open spec fn fold_unary_spec(v: Scalar, op: UnaryOperator) -> Option<Scalar> {
    match v {
        Scalar::Int(i) => if op == UnaryOperator::Negate && i != i64::MIN {
            Some(Scalar::Int((-i) as i64))
        } else {
            None
        },
        Scalar::Bool(b) => if op == UnaryOperator::Not {
            Some(Scalar::Bool(!b))
        } else {
            None
        },
        Scalar::Str(_) => None,
    }
}

/// The value `fold` describes, where it describes one.
pub open spec fn folds_to(r: Option<RuntimeValue>, fold: Option<Scalar>) -> bool {
    match fold {
        Some(s) => r matches Some(v) && scalar_of(v) == Some(s),
        None => r is None,
    }
}

/// Folds `left op right` where both are integer, boolean or string constants.
pub fn fold_binary_op(left: &RuntimeValue, right: &RuntimeValue, op: &BinaryOperator) -> (r: Option<RuntimeValue>)
    ensures
        folds_to(r, match (scalar_of(*left), scalar_of(*right)) {
            (Some(a), Some(b)) => fold_binary_spec(a, b, *op),
            _ => None,
        }),
{
    match (left, right) {
        (RuntimeValue::Int(l), RuntimeValue::Int(r)) => {
            let (l, r) = (*l, *r);
            match op {
                BinaryOperator::Add => match l.checked_add(r) {
                    Some(v) => Some(RuntimeValue::Int(v)),
                    None => None,
                },
                BinaryOperator::Subtract => match l.checked_sub(r) {
                    Some(v) => Some(RuntimeValue::Int(v)),
                    None => None,
                },
                BinaryOperator::Multiply => match l.checked_mul(r) {
                    Some(v) => Some(RuntimeValue::Int(v)),
                    None => None,
                },
                BinaryOperator::Divide => match l.checked_div(r) {
                    Some(v) => Some(RuntimeValue::Int(v)),
                    None => None,
                },
                BinaryOperator::Modulo => match l.checked_rem(r) {
                    Some(v) => Some(RuntimeValue::Int(v)),
                    None => None,
                },
                BinaryOperator::Equal => Some(RuntimeValue::Bool(l == r)),
                BinaryOperator::NotEqual => Some(RuntimeValue::Bool(l != r)),
                BinaryOperator::LessThan => Some(RuntimeValue::Bool(l < r)),
                BinaryOperator::GreaterThan => Some(RuntimeValue::Bool(l > r)),
                BinaryOperator::LessEqual => Some(RuntimeValue::Bool(l <= r)),
                BinaryOperator::GreaterEqual => Some(RuntimeValue::Bool(l >= r)),
                _ => None,
            }
        },
        (RuntimeValue::Str(l), RuntimeValue::Str(r)) => match op {
            BinaryOperator::Add => Some(RuntimeValue::Str(concat2(l.as_str(), r.as_str()))),
            BinaryOperator::Equal => Some(RuntimeValue::Bool(str_eq(l.as_str(), r.as_str()))),
            BinaryOperator::NotEqual => Some(RuntimeValue::Bool(!str_eq(l.as_str(), r.as_str()))),
            _ => None,
        },
        (RuntimeValue::Bool(l), RuntimeValue::Bool(r)) => {
            let (l, r) = (*l, *r);
            match op {
                BinaryOperator::And => Some(RuntimeValue::Bool(l && r)),
                BinaryOperator::Or => Some(RuntimeValue::Bool(l || r)),
                BinaryOperator::Equal => Some(RuntimeValue::Bool(l == r)),
                BinaryOperator::NotEqual => Some(RuntimeValue::Bool(l != r)),
                _ => None,
            }
        },
        _ => None,
    }
}

/// Folds `op operand` where the operand is an integer or boolean constant.
pub fn fold_unary_op(operand: &RuntimeValue, op: &UnaryOperator) -> (r: Option<RuntimeValue>)
    ensures
        folds_to(r, match scalar_of(*operand) {
            Some(a) => fold_unary_spec(a, *op),
            None => None,
        }),
{
    match operand {
        RuntimeValue::Int(i) => {
            if *op == UnaryOperator::Negate && *i != i64::MIN {
                Some(RuntimeValue::Int(-*i))
            } else {
                None
            }
        },
        RuntimeValue::Bool(b) => {
            if *op == UnaryOperator::Not {
                Some(RuntimeValue::Bool(!*b))
            } else {
                None
            }
        },
        _ => None,
    }
}

/// A register known to hold a constant.
struct ConstEntry {
    reg: Register,
    value: RuntimeValue,
}

/// The constants a table records; a later entry for a register overrides an earlier one.
spec fn table_view(s: Seq<ConstEntry>) -> Map<RegisterView, Scalar>
    decreases s.len(),
{
    if s.len() == 0 {
        Map::empty()
    } else {
        table_view(s.drop_last()).insert(s.last().reg.view(), scalar_of(s.last().value).unwrap())
    }
}

spec fn all_scalar(s: Seq<ConstEntry>) -> bool {
    forall|i: int| 0 <= i < s.len() ==> scalar_of(#[trigger] s[i].value) is Some
}

/// The constant a register holds according to `c`.
pub open spec fn reg_const(c: Map<RegisterView, Scalar>, r: Register) -> Option<Scalar> {
    if c.dom().contains(r.view()) {
        Some(c[r.view()])
    } else {
        None
    }
}

fn table_get<'a>(t: &'a Vec<ConstEntry>, r: &Register) -> (v: Option<&'a RuntimeValue>)
    requires
        all_scalar(t@),
    ensures
        match reg_const(table_view(t@), *r) {
            Some(s) => v matches Some(x) && scalar_of(*x) == Some(s),
            None => v is None,
        },
{
    let mut k = t.len();
    assert(t@.subrange(0, k as int) =~= t@);
    while k > 0
        invariant
            k <= t@.len(),
            all_scalar(t@),
            reg_const(table_view(t@), *r) == reg_const(table_view(t@.subrange(0, k as int)), *r),
        decreases k,
    {
        let ghost p = t@.subrange(0, k as int);
        assert(p.drop_last() =~= t@.subrange(0, k - 1));
        if t[k - 1].reg.same(r) {
            assert(scalar_of(t@[k - 1].value) is Some);
            return Some(&t[k - 1].value);
        }
        k = k - 1;
    }
    assert(t@.subrange(0, 0) =~= Seq::<ConstEntry>::empty());
    None
}

fn table_set(t: &mut Vec<ConstEntry>, r: Register, v: RuntimeValue)
    requires
        all_scalar(old(t)@),
        scalar_of(v) is Some,
    ensures
        all_scalar(final(t)@),
        table_view(final(t)@) == table_view(old(t)@).insert(r.view(), scalar_of(v).unwrap()),
{
    let ghost o = t@;
    t.push(ConstEntry { reg: r, value: v });
    assert(t@.drop_last() =~= o);
}

fn table_remove(t: &mut Vec<ConstEntry>, r: &Register)
    requires
        all_scalar(old(t)@),
    ensures
        all_scalar(final(t)@),
        table_view(final(t)@) == table_view(old(t)@).remove(r.view()),
{
    let mut old_entries: Vec<ConstEntry> = Vec::new();
    std::mem::swap(t, &mut old_entries);
    let ghost o = old_entries@;
    let n = old_entries.len();
    let mut i: usize = 0;
    assert(table_view(t@) =~= table_view(o.subrange(0, 0)).remove(r.view())) by {
        assert(o.subrange(0, 0) =~= Seq::<ConstEntry>::empty());
    }
    while i < n
        invariant
            n == old_entries@.len(),
            i <= n,
            o.len() == n,
            all_scalar(o),
            all_scalar(t@),
            forall|j: int| i <= j < n ==> old_entries@[j] == o[j],
            table_view(t@) == table_view(o.subrange(0, i as int)).remove(r.view()),
        decreases n - i,
    {
        let mut e = ConstEntry { reg: Register::Temp(0), value: RuntimeValue::Null };
        old_entries.set_and_swap(i, &mut e);
        let ghost before = t@;
        let ghost p = o.subrange(0, i + 1);
        assert(p.drop_last() =~= o.subrange(0, i as int));
        assert(e == o[i as int]);
        if !e.reg.same(r) {
            t.push(e);
            assert(t@.drop_last() =~= before);
            assert(table_view(t@) =~= table_view(p).remove(r.view()));
        } else {
            assert(table_view(t@) =~= table_view(p).remove(r.view()));
        }
        i = i + 1;
    }
    assert(o.subrange(0, n as int) =~= o);
}

/// The constant an instruction computes from the constants `c`, where the folder can
/// compute it: a binary or unary operation on constant operands.
pub open spec fn folded_value(c: Map<RegisterView, Scalar>, i: Instruction) -> Option<Scalar> {
    match i {
        Instruction::BinaryOp { left, right, op, .. } => match (reg_const(c, left), reg_const(c, right)) {
            (Some(a), Some(b)) => fold_binary_spec(a, b, op),
            _ => None,
        },
        Instruction::UnaryOp { operand, op, .. } => match reg_const(c, operand) {
            Some(a) => fold_unary_spec(a, op),
            None => None,
        },
        _ => None,
    }
}

pub open spec fn set_const(c: Map<RegisterView, Scalar>, d: Register, v: Option<Scalar>) -> Map<RegisterView, Scalar> {
    match v {
        Some(s) => c.insert(d.view(), s),
        None => c.remove(d.view()),
    }
}

/// The constants known after instruction `i`, given those known before it.
pub open spec fn const_step(c: Map<RegisterView, Scalar>, i: Instruction) -> Map<RegisterView, Scalar> {
    match i {
        Instruction::LoadConst { dest, value } => set_const(c, dest, scalar_of(value)),
        Instruction::BinaryOp { dest, .. } => set_const(c, dest, folded_value(c, i)),
        Instruction::UnaryOp { dest, .. } => set_const(c, dest, folded_value(c, i)),
        Instruction::Move { dest, src } => set_const(c, dest, reg_const(c, src)),
        _ => match dest_spec(i) {
            Some(d) => c.remove(d.view()),
            None => c,
        },
    }
}

/// The constants known after the instructions `s`, run in order from none known.
pub open spec fn consts_after(s: Seq<Instruction>) -> Map<RegisterView, Scalar>
    decreases s.len(),
{
    if s.len() == 0 {
        Map::empty()
    } else {
        const_step(consts_after(s.drop_last()), s.last())
    }
}

/// `n` is `o` folded under the constants `c`: a load of the constant where `o` computes
/// one, `o` itself otherwise.
pub open spec fn folded_instr(c: Map<RegisterView, Scalar>, o: Instruction, n: Instruction) -> bool {
    match folded_value(c, o) {
        Some(s) => n matches Instruction::LoadConst { dest, value } && Some(dest) == dest_spec(o)
            && scalar_of(value) == Some(s),
        None => n == o,
    }
}

/// `new` is `old` with every operation on known constants replaced by a load of its result.
pub open spec fn constants_folded(old: Seq<Instruction>, new: Seq<Instruction>) -> bool {
    &&& new.len() == old.len()
    &&& forall|k: int| 0 <= k < old.len() ==> folded_instr(consts_after(old.subrange(0, k)), #[trigger] old[k], new[k])
}

/// Replaces each operation whose operands are known integer, boolean or string constants by
/// a load of its result, tracking constants through loads, moves and folded operations.
pub fn constant_folding(instrs: Vec<Instruction>) -> (new: Vec<Instruction>)
    ensures
        constants_folded(instrs@, new@),
{
    let mut instrs = instrs;
    let ghost orig = instrs@;
    let n = instrs.len();
    let mut table: Vec<ConstEntry> = Vec::new();
    let mut out: Vec<Instruction> = Vec::new();
    let mut i: usize = 0;
    assert(table_view(table@) =~= consts_after(orig.subrange(0, 0))) by {
        assert(orig.subrange(0, 0) =~= Seq::<Instruction>::empty());
    }
    while i < n
        invariant
            n == instrs@.len(),
            orig.len() == n,
            i <= n,
            forall|j: int| i <= j < n ==> instrs@[j] == orig[j],
            all_scalar(table@),
            table_view(table@) == consts_after(orig.subrange(0, i as int)),
            out@.len() == i,
            forall|k: int| 0 <= k < i ==> folded_instr(consts_after(orig.subrange(0, k)), #[trigger] orig[k], out@[k]),
        decreases n - i,
    {
        let mut ins = Instruction::Nop;
        instrs.set_and_swap(i, &mut ins);
        let ghost c = table_view(table@);
        let ghost p = orig.subrange(0, i + 1);
        assert(p.drop_last() =~= orig.subrange(0, i as int));
        assert(ins == orig[i as int]);
        let mut pushed = false;
        match &ins {
            Instruction::LoadConst { dest, value } => {
                if let RuntimeValue::Int(_) | RuntimeValue::Bool(_) | RuntimeValue::Str(_) = value {
                    table_set(&mut table, dest.copy(), value.copy());
                } else {
                    table_remove(&mut table, dest);
                }
            },
            Instruction::BinaryOp { dest, left, right, op } => {
                let mut folded: Option<RuntimeValue> = None;
                if let Some(l) = table_get(&table, left) {
                    if let Some(r) = table_get(&table, right) {
                        folded = fold_binary_op(l, r, op);
                    }
                }
                match folded {
                    Some(v) => {
                        table_set(&mut table, dest.copy(), v.copy());
                        out.push(Instruction::LoadConst { dest: dest.copy(), value: v });
                        pushed = true;
                    },
                    None => table_remove(&mut table, dest),
                }
            },
            Instruction::UnaryOp { dest, operand, op } => {
                let mut folded: Option<RuntimeValue> = None;
                if let Some(o) = table_get(&table, operand) {
                    folded = fold_unary_op(o, op);
                }
                match folded {
                    Some(v) => {
                        table_set(&mut table, dest.copy(), v.copy());
                        out.push(Instruction::LoadConst { dest: dest.copy(), value: v });
                        pushed = true;
                    },
                    None => table_remove(&mut table, dest),
                }
            },
            Instruction::Move { dest, src } => {
                match table_get(&table, src) {
                    Some(v) => {
                        let vc = v.copy();
                        table_set(&mut table, dest.copy(), vc);
                    },
                    None => table_remove(&mut table, dest),
                }
            },
            _ => {
                if let Some(d) = ins.dest_register() {
                    table_remove(&mut table, d);
                }
            },
        }
        assert(table_view(table@) =~= const_step(c, ins));
        if !pushed {
            out.push(ins);
        }
        assert(folded_instr(c, orig[i as int], out@[i as int]));
        i = i + 1;
    }
    out
}

/// The position a label names, if the label is recorded.
pub open spec fn label_target(labels: Seq<LabelEntry>, label: String) -> Seq<int> {
    match label_lookup(labels, label@) {
        Some(t) => seq![t as int],
        None => Seq::empty(),
    }
}

/// The positions control may reach directly after the instruction at `p`.
pub open spec fn successors(instrs: Seq<Instruction>, labels: Seq<LabelEntry>, p: int) -> Seq<int> {
    match instrs[p] {
        Instruction::Jump { label } => label_target(labels, label),
        Instruction::JumpIfFalse { label, .. } => label_target(labels, label).push(p + 1),
        Instruction::JumpIfTrue { label, .. } => label_target(labels, label).push(p + 1),
        Instruction::Return { .. } => Seq::empty(),
        Instruction::Throw { .. } => Seq::empty(),
        _ => seq![p + 1],
    }
}

/// `s` holds the entry of the program (where there is one) and every position of the
/// program that control reaches directly from a position in `s`.
pub open spec fn reach_closed(instrs: Seq<Instruction>, labels: Seq<LabelEntry>, s: Set<int>) -> bool {
    &&& (instrs.len() > 0 ==> s.contains(0))
    &&& forall|p: int, q: int|
        #![trigger s.contains(p), successors(instrs, labels, p).contains(q)]
        0 <= p < instrs.len() && s.contains(p) && successors(instrs, labels, p).contains(q)
            && 0 <= q < instrs.len() ==> s.contains(q)
}

/// Control can reach position `p` from the entry: `p` is in every set closed under
/// the program's control flow that holds the entry.
pub open spec fn is_reachable(instrs: Seq<Instruction>, labels: Seq<LabelEntry>, p: int) -> bool {
    forall|s: Set<int>| #[trigger] reach_closed(instrs, labels, s) ==> s.contains(p)
}

/// The instructions among the first `k` that control can reach, in order.
pub open spec fn kept_reachable(instrs: Seq<Instruction>, labels: Seq<LabelEntry>, k: int) -> Seq<Instruction>
    decreases k,
{
    if k <= 0 {
        Seq::empty()
    } else {
        kept_reachable(instrs, labels, k - 1) + if is_reachable(instrs, labels, k - 1) {
            seq![instrs[k - 1]]
        } else {
            Seq::empty()
        }
    }
}

spec fn count_true(s: Seq<bool>) -> nat
    decreases s.len(),
{
    if s.len() == 0 {
        0
    } else {
        count_true(s.drop_last()) + if s.last() { 1nat } else { 0nat }
    }
}

proof fn lemma_count_le(s: Seq<bool>)
    ensures
        count_true(s) <= s.len(),
    decreases s.len(),
{
    if s.len() > 0 {
        lemma_count_le(s.drop_last());
    }
}

proof fn lemma_count_update(s: Seq<bool>, i: int)
    requires
        0 <= i < s.len(),
        !s[i],
    ensures
        count_true(s.update(i, true)) == count_true(s) + 1,
    decreases s.len(),
{
    let u = s.update(i, true);
    if i == s.len() - 1 {
        assert(u.drop_last() =~= s.drop_last());
    } else {
        assert(u.drop_last() =~= s.drop_last().update(i, true));
        lemma_count_update(s.drop_last(), i);
    }
}

/// Pushes the positions control may reach directly after position `p`.
fn push_successors(instrs: &Vec<Instruction>, labels: &Vec<LabelEntry>, p: usize, wl: &mut Vec<usize>)
    requires
        p < instrs@.len(),
    ensures
        final(wl)@.map_values(|x: usize| x as int) == old(wl)@.map_values(|x: usize| x as int)
            + successors(instrs@, labels@, p as int),
{
    let ghost o = old(wl)@;
    let _n = instrs.len();
    match &instrs[p] {
        Instruction::Jump { label } => {
            if let Some(t) = find_label(labels, label.as_str()) {
                wl.push(t);
            }
        },
        Instruction::JumpIfFalse { label, .. } | Instruction::JumpIfTrue { label, .. } => {
            if let Some(t) = find_label(labels, label.as_str()) {
                wl.push(t);
            }
            wl.push(p + 1);
        },
        Instruction::Return { .. } | Instruction::Throw { .. } => {},
        _ => wl.push(p + 1),
    }
    assert(wl@.map_values(|x: usize| x as int) =~= o.map_values(|x: usize| x as int)
        + successors(instrs@, labels@, p as int));
}

spec fn wl_ints(w: Seq<usize>) -> Seq<int> {
    w.map_values(|x: usize| x as int)
}

/// Everything marked, and everything in range on the worklist, lies in `s`.
spec fn within(s: Set<int>, m: Seq<bool>, w: Seq<usize>) -> bool {
    &&& forall|p: int| 0 <= p < m.len() && #[trigger] m[p] ==> s.contains(p)
    &&& forall|j: int| 0 <= j < w.len() && #[trigger] w[j] < m.len() ==> s.contains(w[j] as int)
}

/// Every position control reaches directly from a marked one is marked or waiting.
spec fn frontier_ok(instrs: Seq<Instruction>, labels: Seq<LabelEntry>, m: Seq<bool>, w: Seq<usize>) -> bool {
    forall|p: int, q: int|
        #![trigger m[p], successors(instrs, labels, p).contains(q)]
        0 <= p < m.len() && m[p] && successors(instrs, labels, p).contains(q) && 0 <= q < m.len()
            ==> m[q] || wl_ints(w).contains(q)
}

/// Marks the positions control can reach from the entry.
fn compute_reachable_instructions(instrs: &Vec<Instruction>, labels: &Vec<LabelEntry>) -> (marks: Vec<bool>)
    ensures
        marks@.len() == instrs@.len(),
        forall|p: int| 0 <= p < instrs@.len() ==> marks@[p] == is_reachable(instrs@, labels@, p),
{
    let n = instrs.len();
    let mut marks: Vec<bool> = Vec::new();
    let mut k: usize = 0;
    while k < n
        invariant
            k <= n,
            marks@.len() == k,
            forall|j: int| 0 <= j < k ==> !marks@[j],
        decreases n - k,
    {
        marks.push(false);
        k = k + 1;
    }
    let mut wl: Vec<usize> = Vec::new();
    wl.push(0);
    let ghost mut nm: nat = 0;
    proof {
        assert(count_true(marks@) == 0) by {
            lemma_count_zero(marks@);
        }
        assert forall|s: Set<int>| reach_closed(instrs@, labels@, s) implies within(s, marks@, wl@) by {
            assert forall|j: int| 0 <= j < wl@.len() && #[trigger] wl@[j] < marks@.len() implies s.contains(wl@[j] as int) by {
                assert(wl@[j] == 0);
            }
        }
        assert(wl_ints(wl@)[0] == 0);
    }
    while wl.len() > 0
        invariant
            n == instrs@.len(),
            marks@.len() == n,
            count_true(marks@) == nm,
            nm <= n,
            forall|s: Set<int>| #[trigger] reach_closed(instrs@, labels@, s) ==> within(s, marks@, wl@),
            frontier_ok(instrs@, labels@, marks@, wl@),
            n > 0 ==> marks@[0] || wl_ints(wl@).contains(0),
        decreases n - nm, wl@.len(),
    {
        let ghost ow = wl@;
        let ghost om = marks@;
        let pos = wl.pop().unwrap();
        assert(wl@ =~= ow.drop_last());
        assert(wl_ints(ow) =~= wl_ints(wl@).push(pos as int));
        if pos >= n || marks[pos] {
            proof {
                assert forall|s: Set<int>| #[trigger] reach_closed(instrs@, labels@, s) implies within(s, marks@, wl@) by {
                    assert(within(s, marks@, ow));
                    assert forall|j: int| 0 <= j < wl@.len() && #[trigger] wl@[j] < marks@.len() implies s.contains(wl@[j] as int) by {
                        assert(ow[j] == wl@[j]);
                    }
                }
                assert forall|p: int, q: int|
                    #![trigger marks@[p], successors(instrs@, labels@, p).contains(q)]
                    0 <= p < marks@.len() && marks@[p] && successors(instrs@, labels@, p).contains(q) && 0 <= q < marks@.len()
                    implies marks@[q] || wl_ints(wl@).contains(q) by {
                    if !marks@[q] {
                        assert(wl_ints(ow).contains(q));
                        let j = choose|j: int| 0 <= j < wl_ints(ow).len() && wl_ints(ow)[j] == q;
                        if j < wl@.len() {
                            assert(wl_ints(wl@)[j] == q);
                        }
                    }
                }
                if n > 0 && !marks@[0] {
                    assert(wl_ints(ow).contains(0));
                    let j = choose|j: int| 0 <= j < wl_ints(ow).len() && wl_ints(ow)[j] == 0;
                    if j < wl@.len() {
                        assert(wl_ints(wl@)[j] == 0);
                    }
                }
            }
            continue;
        }
        marks.set(pos, true);
        proof {
            lemma_count_update(om, pos as int);
            lemma_count_le(marks@);
            nm = nm + 1;
        }
        let ghost mid = wl@;
        push_successors(instrs, labels, pos, &mut wl);
        proof {
            let succ = successors(instrs@, labels@, pos as int);
            assert(wl_ints(wl@) =~= wl_ints(mid) + succ);
            assert forall|s: Set<int>| #[trigger] reach_closed(instrs@, labels@, s) implies within(s, marks@, wl@) by {
                assert(within(s, om, ow));
                assert(ow[ow.len() - 1] == pos);
                assert(s.contains(pos as int));
                assert forall|p: int| 0 <= p < marks@.len() && #[trigger] marks@[p] implies s.contains(p) by {
                    if p != pos {
                        assert(om[p]);
                    }
                }
                assert forall|j: int| 0 <= j < wl@.len() && #[trigger] wl@[j] < marks@.len() implies s.contains(wl@[j] as int) by {
                    if j < mid.len() {
                        assert(wl_ints(wl@)[j] == wl_ints(mid)[j]);
                        assert(ow[j] == mid[j]);
                    } else {
                        assert(wl_ints(wl@)[j] == succ[j - mid.len()]);
                        assert(succ.contains(wl@[j] as int));
                    }
                }
            }
            assert forall|p: int, q: int|
                #![trigger marks@[p], successors(instrs@, labels@, p).contains(q)]
                0 <= p < marks@.len() && marks@[p] && successors(instrs@, labels@, p).contains(q) && 0 <= q < marks@.len()
                implies marks@[q] || wl_ints(wl@).contains(q) by {
                if p == pos {
                    let j = choose|j: int| 0 <= j < succ.len() && succ[j] == q;
                    assert(wl_ints(wl@)[mid.len() + j] == q);
                } else if !marks@[q] {
                    assert(om[p]);
                    assert(wl_ints(ow).contains(q));
                    let j = choose|j: int| 0 <= j < wl_ints(ow).len() && wl_ints(ow)[j] == q;
                    if j < mid.len() {
                        assert(wl_ints(wl@)[j] == q);
                    }
                }
            }
            if n > 0 && !marks@[0] {
                assert(wl_ints(ow).contains(0));
                let j = choose|j: int| 0 <= j < wl_ints(ow).len() && wl_ints(ow)[j] == 0;
                if j < mid.len() {
                    assert(wl_ints(wl@)[j] == 0);
                }
            }
        }
    }
    proof {
        let m = Set::new(|p: int| 0 <= p < n && marks@[p]);
        assert(wl_ints(wl@) =~= Seq::<int>::empty());
        assert(reach_closed(instrs@, labels@, m));
        assert forall|p: int| 0 <= p < instrs@.len() implies marks@[p] == is_reachable(instrs@, labels@, p) by {
            if marks@[p] {
                assert forall|s: Set<int>| #[trigger] reach_closed(instrs@, labels@, s) implies s.contains(p) by {
                    assert(within(s, marks@, wl@));
                }
            } else {
                assert(!m.contains(p));
            }
        }
    }
    marks
}

proof fn lemma_count_zero(s: Seq<bool>)
    requires
        forall|j: int| 0 <= j < s.len() ==> !s[j],
    ensures
        count_true(s) == 0,
    decreases s.len(),
{
    if s.len() > 0 {
        lemma_count_zero(s.drop_last());
    }
}

/// Keeps the instructions control can reach from the entry, in order.
pub fn dead_code_elimination(instrs: Vec<Instruction>, labels: &Vec<LabelEntry>) -> (new: Vec<Instruction>)
    ensures
        new@ == kept_reachable(instrs@, labels@, instrs@.len() as int),
{
    let marks = compute_reachable_instructions(&instrs, labels);
    let mut instrs = instrs;
    let ghost orig = instrs@;
    let n = instrs.len();
    let mut out: Vec<Instruction> = Vec::new();
    let mut i: usize = 0;
    while i < n
        invariant
            n == instrs@.len(),
            orig.len() == n,
            marks@.len() == n,
            i <= n,
            forall|p: int| 0 <= p < n ==> marks@[p] == is_reachable(orig, labels@, p),
            forall|j: int| i <= j < n ==> instrs@[j] == orig[j],
            out@ == kept_reachable(orig, labels@, i as int),
        decreases n - i,
    {
        let mut ins = Instruction::Nop;
        instrs.set_and_swap(i, &mut ins);
        if marks[i] {
            out.push(ins);
        }
        i = i + 1;
    }
    out
}

/// The instructions of `s` other than `Nop`, in order.
pub open spec fn without_nops(s: Seq<Instruction>) -> Seq<Instruction>
    decreases s.len(),
{
    if s.len() == 0 {
        Seq::empty()
    } else {
        without_nops(s.drop_last()) + if s.last() is Nop {
            Seq::empty()
        } else {
            seq![s.last()]
        }
    }
}

/// Drops every `Nop`.
pub fn remove_nops(instrs: Vec<Instruction>) -> (new: Vec<Instruction>)
    ensures
        new@ == without_nops(instrs@),
{
    let mut instrs = instrs;
    let ghost orig = instrs@;
    let n = instrs.len();
    let mut out: Vec<Instruction> = Vec::new();
    let mut i: usize = 0;
    assert(orig.subrange(0, 0) =~= Seq::<Instruction>::empty());
    while i < n
        invariant
            n == instrs@.len(),
            orig.len() == n,
            i <= n,
            forall|j: int| i <= j < n ==> instrs@[j] == orig[j],
            out@ == without_nops(orig.subrange(0, i as int)),
        decreases n - i,
    {
        let mut ins = Instruction::Nop;
        instrs.set_and_swap(i, &mut ins);
        let ghost p = orig.subrange(0, i + 1);
        assert(p.drop_last() =~= orig.subrange(0, i as int));
        if !matches!(ins, Instruction::Nop) {
            out.push(ins);
        }
        i = i + 1;
    }
    assert(orig.subrange(0, n as int) =~= orig);
    out
}

/// A label and the label it jumps on to.
struct LabelPair {
    from: String,
    to: String,
}

/// The labels a table maps; a later entry for a label overrides an earlier one.
spec fn pairs_view(s: Seq<LabelPair>) -> Map<Seq<char>, Seq<char>>
    decreases s.len(),
{
    if s.len() == 0 {
        Map::empty()
    } else {
        pairs_view(s.drop_last()).insert(s.last().from@, s.last().to@)
    }
}

proof fn lemma_pairs_finite(s: Seq<LabelPair>)
    ensures
        pairs_view(s).dom().finite(),
    decreases s.len(),
{
    if s.len() > 0 {
        lemma_pairs_finite(s.drop_last());
        vstd::set::axiom_set_insert_finite(pairs_view(s.drop_last()).dom(), s.last().from@);
    }
}

fn pairs_get<'a>(t: &'a Vec<LabelPair>, key: &str) -> (v: Option<&'a String>)
    ensures
        match v {
            Some(x) => pairs_view(t@).dom().contains(key@) && pairs_view(t@)[key@] == x@,
            None => !pairs_view(t@).dom().contains(key@),
        },
{
    let mut k = t.len();
    assert(t@.subrange(0, k as int) =~= t@);
    while k > 0
        invariant
            k <= t@.len(),
            pairs_view(t@).dom().contains(key@) == pairs_view(t@.subrange(0, k as int)).dom().contains(key@),
            pairs_view(t@).dom().contains(key@) ==> pairs_view(t@)[key@] == pairs_view(t@.subrange(0, k as int))[key@],
        decreases k,
    {
        let ghost p = t@.subrange(0, k as int);
        assert(p.drop_last() =~= t@.subrange(0, k - 1));
        if str_eq(t[k - 1].from.as_str(), key) {
            return Some(&t[k - 1].to);
        }
        k = k - 1;
    }
    assert(t@.subrange(0, 0) =~= Seq::<LabelPair>::empty());
    None
}

/// Where a jump to `l` ends up: follow the map from label to label until a label it does
/// not map, or one already passed through.
pub open spec fn resolve_chain(m: Map<Seq<char>, Seq<char>>, l: Seq<char>, visited: Set<Seq<char>>) -> Seq<char>
    decreases m.dom().len() - visited.len() when m.dom().finite() && visited.subset_of(m.dom())
{
    if m.dom().contains(l) && !visited.contains(l) {
        proof {
            vstd::set_lib::lemma_len_subset(visited, m.dom());
            vstd::set::axiom_set_insert_len(visited, l);
            vstd::set_lib::lemma_len_subset(visited.insert(l), m.dom());
        }
        resolve_chain(m, m[l], visited.insert(l))
    } else {
        l
    }
}

fn contains_label(v: &Vec<String>, s: &str) -> (b: bool)
    ensures
        b == exists|j: int| 0 <= j < v@.len() && (#[trigger] v@[j])@ == s@,
{
    let mut i: usize = 0;
    while i < v.len()
        invariant
            i <= v@.len(),
            forall|j: int| 0 <= j < i ==> (#[trigger] v@[j])@ != s@,
        decreases v@.len() - i,
    {
        if str_eq(v[i].as_str(), s) {
            return true;
        }
        i = i + 1;
    }
    false
}

/// The label a jump to `label` ends up at.
fn resolve_jump_chain(label: &str, targets: &Vec<LabelPair>) -> (r: String)
    ensures
        r@ == resolve_chain(pairs_view(targets@), label@, Set::empty()),
{
    let ghost m = pairs_view(targets@);
    proof {
        lemma_pairs_finite(targets@);
    }
    let mut current = label.to_string();
    let mut visited: Vec<String> = Vec::new();
    let ghost mut vs: Set<Seq<char>> = Set::empty();
    loop
        invariant
            m == pairs_view(targets@),
            m.dom().finite(),
            vs.finite(),
            vs.subset_of(m.dom()),
            forall|x: Seq<char>| vs.contains(x) <==> exists|j: int| 0 <= j < visited@.len() && (#[trigger] visited@[j])@ == x,
            resolve_chain(m, label@, Set::empty()) == resolve_chain(m, current@, vs),
        decreases m.dom().len() - vs.len(),
    {
        let next = match pairs_get(targets, current.as_str()) {
            Some(n) => n,
            None => return current,
        };
        if contains_label(&visited, current.as_str()) {
            return current;
        }
        proof {
            vstd::set_lib::lemma_len_subset(vs, m.dom());
            vstd::set::axiom_set_insert_len(vs, current@);
            vstd::set_lib::lemma_len_subset(vs.insert(current@), m.dom());
        }
        let ghost old_visited = visited@;
        visited.push(current.clone());
        proof {
            let c = current@;
            assert forall|x: Seq<char>| vs.insert(c).contains(x) <==> exists|j: int| 0 <= j < visited@.len() && (#[trigger] visited@[j])@ == x by {
                if vs.insert(c).contains(x) {
                    if x == c {
                        assert(visited@[visited@.len() - 1]@ == x);
                    } else {
                        let j = choose|j: int| 0 <= j < old_visited.len() && (#[trigger] old_visited[j])@ == x;
                        assert(visited@[j] == old_visited[j]);
                    }
                }
                if exists|j: int| 0 <= j < visited@.len() && (#[trigger] visited@[j])@ == x {
                    let j = choose|j: int| 0 <= j < visited@.len() && (#[trigger] visited@[j])@ == x;
                    if j < old_visited.len() {
                        assert(old_visited[j] == visited@[j]);
                    }
                }
            }
            vs = vs.insert(c);
        }
        current = next.clone();
    }
}

/// The jump a label leads straight into: the label of the `Jump` right after the position
/// the label is recorded at.
pub open spec fn thread_step(m: Map<Seq<char>, Seq<char>>, instrs: Seq<Instruction>, labels: Seq<LabelEntry>, i: Instruction) -> Map<Seq<char>, Seq<char>> {
    match i {
        Instruction::Label { name } => match label_lookup(labels, name@) {
            Some(p) => if p + 1 < instrs.len() {
                match instrs[p + 1] {
                    Instruction::Jump { label } => m.insert(name@, label@),
                    _ => m,
                }
            } else {
                m
            },
            None => m,
        },
        _ => m,
    }
}

/// The labels among the first `k` instructions that lead straight into a jump, and where.
pub open spec fn thread_targets(instrs: Seq<Instruction>, labels: Seq<LabelEntry>, k: int) -> Map<Seq<char>, Seq<char>>
    decreases k,
{
    if k <= 0 {
        Map::empty()
    } else {
        thread_step(thread_targets(instrs, labels, k - 1), instrs, labels, instrs[k - 1])
    }
}

/// `n` is `o` with its jump target followed through `m`.
pub open spec fn threaded_instr(m: Map<Seq<char>, Seq<char>>, o: Instruction, n: Instruction) -> bool {
    match o {
        Instruction::Jump { label } => n matches Instruction::Jump { label: l2 }
            && l2@ == resolve_chain(m, label@, Set::empty()),
        Instruction::JumpIfFalse { condition, label } => n matches Instruction::JumpIfFalse { condition: c2, label: l2 }
            && c2 == condition && l2@ == resolve_chain(m, label@, Set::empty()),
        Instruction::JumpIfTrue { condition, label } => n matches Instruction::JumpIfTrue { condition: c2, label: l2 }
            && c2 == condition && l2@ == resolve_chain(m, label@, Set::empty()),
        _ => n == o,
    }
}

/// `new` is `old` with every jump sent straight to the end of its chain of jumps.
pub open spec fn jumps_threaded(old: Seq<Instruction>, labels: Seq<LabelEntry>, new: Seq<Instruction>) -> bool {
    &&& new.len() == old.len()
    &&& forall|k: int| 0 <= k < old.len() ==> threaded_instr(thread_targets(old, labels, old.len() as int), #[trigger] old[k], new[k])
}

/// Redirects each jump whose label leads straight into another jump to the end of the chain.
pub fn jump_threading(instrs: Vec<Instruction>, labels: &Vec<LabelEntry>) -> (new: Vec<Instruction>)
    ensures
        jumps_threaded(instrs@, labels@, new@),
{
    let n = instrs.len();
    let mut targets: Vec<LabelPair> = Vec::new();
    let mut k: usize = 0;
    while k < n
        invariant
            n == instrs@.len(),
            k <= n,
            pairs_view(targets@) == thread_targets(instrs@, labels@, k as int),
        decreases n - k,
    {
        let ghost before = targets@;
        if let Instruction::Label { name } = &instrs[k] {
            if let Some(p) = find_label(labels, name.as_str()) {
                if p < n - 1 {
                    if let Instruction::Jump { label } = &instrs[p + 1] {
                        targets.push(LabelPair { from: name.clone(), to: label.clone() });
                        assert(targets@.drop_last() =~= before);
                    }
                }
            }
        }
        k = k + 1;
    }
    let ghost m = pairs_view(targets@);
    let mut instrs = instrs;
    let ghost orig = instrs@;
    let mut out: Vec<Instruction> = Vec::new();
    let mut i: usize = 0;
    while i < n
        invariant
            n == instrs@.len(),
            orig.len() == n,
            i <= n,
            m == pairs_view(targets@),
            m == thread_targets(orig, labels@, n as int),
            forall|j: int| i <= j < n ==> instrs@[j] == orig[j],
            out@.len() == i,
            forall|j: int| 0 <= j < i ==> threaded_instr(m, #[trigger] orig[j], out@[j]),
        decreases n - i,
    {
        let mut ins = Instruction::Nop;
        instrs.set_and_swap(i, &mut ins);
        let new_ins = match ins {
            Instruction::Jump { label } => Instruction::Jump { label: resolve_jump_chain(label.as_str(), &targets) },
            Instruction::JumpIfFalse { condition, label } => Instruction::JumpIfFalse {
                condition,
                label: resolve_jump_chain(label.as_str(), &targets),
            },
            Instruction::JumpIfTrue { condition, label } => Instruction::JumpIfTrue {
                condition,
                label: resolve_jump_chain(label.as_str(), &targets),
            },
            other => other,
        };
        out.push(new_ins);
        i = i + 1;
    }
    out
}

/// One round of the passes: fold constants, keep what control can reach, drop `Nop`s,
/// thread jumps.
pub open spec fn optimization_round(a: Seq<Instruction>, labels: Seq<LabelEntry>, b: Seq<Instruction>) -> bool {
    exists|x: Seq<Instruction>|
        #[trigger] constants_folded(a, x)
            && jumps_threaded(without_nops(kept_reachable(x, labels, x.len() as int)), labels, b)
}

/// `b` is `a` after three rounds of the passes.
pub open spec fn optimized(a: Seq<Instruction>, labels: Seq<LabelEntry>, b: Seq<Instruction>) -> bool {
    exists|r1: Seq<Instruction>, r2: Seq<Instruction>|
        #![trigger optimization_round(a, labels, r1), optimization_round(r1, labels, r2)]
        optimization_round(a, labels, r1) && optimization_round(r1, labels, r2) && optimization_round(r2, labels, b)
}

pub open spec fn no_nops(s: Seq<Instruction>) -> bool {
    forall|k: int| 0 <= k < s.len() ==> !(#[trigger] s[k] is Nop)
}

proof fn lemma_without_nops(s: Seq<Instruction>)
    ensures
        no_nops(without_nops(s)),
        without_nops(s).len() <= s.len(),
    decreases s.len(),
{
    if s.len() > 0 {
        lemma_without_nops(s.drop_last());
    }
}

proof fn lemma_kept_len(instrs: Seq<Instruction>, labels: Seq<LabelEntry>, k: int)
    requires
        k >= 0,
    ensures
        kept_reachable(instrs, labels, k).len() <= k,
    decreases k,
{
    if k > 0 {
        lemma_kept_len(instrs, labels, k - 1);
    }
}

/// A round never lengthens the program and leaves no `Nop`.
proof fn lemma_round(a: Seq<Instruction>, labels: Seq<LabelEntry>, b: Seq<Instruction>)
    requires
        optimization_round(a, labels, b),
    ensures
        b.len() <= a.len(),
        no_nops(b),
{
    let x = choose|x: Seq<Instruction>|
        #[trigger] constants_folded(a, x)
            && jumps_threaded(without_nops(kept_reachable(x, labels, x.len() as int)), labels, b);
    let y = kept_reachable(x, labels, x.len() as int);
    lemma_kept_len(x, labels, x.len() as int);
    lemma_without_nops(y);
    let z = without_nops(y);
    assert forall|k: int| 0 <= k < b.len() implies !(#[trigger] b[k] is Nop) by {
        assert(!(z[k] is Nop));
        assert(threaded_instr(thread_targets(z, labels, z.len() as int), z[k], b[k]));
    }
}

/// Optimizes one program.
pub struct IROptimizer {
    program: IRProgram,
}

impl IROptimizer {
    /// The program to optimize.
    pub closed spec fn program(&self) -> IRProgram {
        self.program
    }

    pub fn new(program: IRProgram) -> (o: IROptimizer)
        ensures
            o.program() == program,
    {
        IROptimizer { program }
    }

    fn round(instrs: Vec<Instruction>, labels: &Vec<LabelEntry>) -> (r: Vec<Instruction>)
        ensures
            optimization_round(instrs@, labels@, r@),
    {
        let x = constant_folding(instrs);
        let y = dead_code_elimination(x, labels);
        let z = remove_nops(y);
        let r = jump_threading(z, labels);
        assert(constants_folded(instrs@, x@));
        r
    }

    /// Runs three rounds of the passes. The label positions and the constant pool are kept as
    /// they were; the result has no `Nop` and no more instructions than the input.
    pub fn optimize(self) -> (p: IRProgram)
        ensures
            optimized(self.program().instructions@, self.program().labels@, p.instructions@),
            p.labels == self.program().labels,
            p.constant_pool == self.program().constant_pool,
            p.instructions@.len() <= self.program().instructions@.len(),
            no_nops(p.instructions@),
    {
        let IRProgram { instructions, constant_pool, labels } = self.program;
        let ghost a = instructions@;
        let r1 = Self::round(instructions, &labels);
        let r2 = Self::round(r1, &labels);
        let r3 = Self::round(r2, &labels);
        proof {
            lemma_round(a, labels@, r1@);
            lemma_round(r1@, labels@, r2@);
            lemma_round(r2@, labels@, r3@);
        }
        IRProgram { instructions: r3, constant_pool, labels }
    }
}


/// Removing `Nop`s twice removes no more than removing them once.
pub proof fn law_remove_nops_idempotent(s: Seq<Instruction>)
    ensures
        without_nops(without_nops(s)) == without_nops(s),
    decreases s.len(),
{
    if s.len() > 0 {
        law_remove_nops_idempotent(s.drop_last());
        let w = without_nops(s.drop_last());
        if s.last() is Nop {
            assert(without_nops(s) =~= w);
        } else {
            let ws = w + seq![s.last()];
            assert(ws.drop_last() =~= w);
            assert(without_nops(ws) =~= without_nops(w) + seq![s.last()]);
        }
    }
}

/// The entry of a non-empty program is always reachable, so dead-code elimination keeps the
/// first instruction.
pub proof fn law_entry_reachable(instrs: Seq<Instruction>, labels: Seq<LabelEntry>)
    requires
        instrs.len() > 0,
    ensures
        is_reachable(instrs, labels, 0),
{
}

/// Folding constants keeps every instruction's place: the folded program has as many
/// instructions, and each is the instruction that stood there or a load into the same
/// destination.
pub proof fn law_folding_keeps_places(old: Seq<Instruction>, new: Seq<Instruction>, k: int)
    requires
        constants_folded(old, new),
        0 <= k < old.len(),
    ensures
        new.len() == old.len(),
        new[k] == old[k] || (new[k] matches Instruction::LoadConst { dest, .. } && Some(dest) == dest_spec(old[k])),
{
    assert(folded_instr(consts_after(old.subrange(0, k)), old[k], new[k]));
}

/// Folding two integer constants gives what integer arithmetic and integer order give at
/// run time: a comparison gives the boolean the comparison has, and addition, subtraction
/// and multiplication give the exact result where it fits in 64 bits and nothing where it
/// does not.
pub proof fn law_fold_integers(a: i64, b: i64, op: BinaryOperator, r: Option<RuntimeValue>)
    requires
        call_ensures(fold_binary_op, (&RuntimeValue::Int(a), &RuntimeValue::Int(b), &op), r),
    ensures
        op == BinaryOperator::LessThan ==> r == Some(RuntimeValue::Bool(a < b)),
        op == BinaryOperator::LessEqual ==> r == Some(RuntimeValue::Bool(a <= b)),
        op == BinaryOperator::GreaterThan ==> r == Some(RuntimeValue::Bool(a > b)),
        op == BinaryOperator::GreaterEqual ==> r == Some(RuntimeValue::Bool(a >= b)),
        op == BinaryOperator::Equal ==> r == Some(RuntimeValue::Bool(a == b)),
        op == BinaryOperator::NotEqual ==> r == Some(RuntimeValue::Bool(a != b)),
        op == BinaryOperator::Add ==> if i64::MIN <= a + b <= i64::MAX {
            r == Some(RuntimeValue::Int((a + b) as i64))
        } else {
            r is None
        },
        op == BinaryOperator::Subtract ==> if i64::MIN <= a - b <= i64::MAX {
            r == Some(RuntimeValue::Int((a - b) as i64))
        } else {
            r is None
        },
        op == BinaryOperator::Multiply ==> if i64::MIN <= a * b <= i64::MAX {
            r == Some(RuntimeValue::Int((a * b) as i64))
        } else {
            r is None
        },
{
}

/// Folding two boolean constants gives what the boolean operations give: `&&`, `||`, `==`
/// and `!=` on their values.
pub proof fn law_fold_booleans(a: bool, b: bool, op: BinaryOperator, r: Option<RuntimeValue>)
    requires
        call_ensures(fold_binary_op, (&RuntimeValue::Bool(a), &RuntimeValue::Bool(b), &op), r),
    ensures
        op == BinaryOperator::And ==> r == Some(RuntimeValue::Bool(a && b)),
        op == BinaryOperator::Or ==> r == Some(RuntimeValue::Bool(a || b)),
        op == BinaryOperator::Equal ==> r == Some(RuntimeValue::Bool(a == b)),
        op == BinaryOperator::NotEqual ==> r == Some(RuntimeValue::Bool(a != b)),
{
}

/// Folding two string constants joins them for `+` and compares their texts for `==` and
/// `!=`.
pub proof fn law_fold_strings(a: String, b: String, op: BinaryOperator, r: Option<RuntimeValue>)
    requires
        call_ensures(fold_binary_op, (&RuntimeValue::Str(a), &RuntimeValue::Str(b), &op), r),
    ensures
        op == BinaryOperator::Add ==> (r matches Some(RuntimeValue::Str(t)) && t@ == a@ + b@),
        op == BinaryOperator::Equal ==> r == Some(RuntimeValue::Bool(a@ == b@)),
        op == BinaryOperator::NotEqual ==> r == Some(RuntimeValue::Bool(a@ != b@)),
{
}

/// Folding a negation or a complement gives the negated integer (nothing for the least one,
/// whose negation does not fit) and the complemented boolean.
pub proof fn law_fold_unary(v: RuntimeValue, op: UnaryOperator, r: Option<RuntimeValue>)
    requires
        call_ensures(fold_unary_op, (&v, &op), r),
    ensures
        (v matches RuntimeValue::Int(i) && op == UnaryOperator::Negate) ==> (if v->Int_0 == i64::MIN {
            r is None
        } else {
            r == Some(RuntimeValue::Int(-v->Int_0 as i64))
        }),
        (v matches RuntimeValue::Bool(b) && op == UnaryOperator::Not) ==> r == Some(RuntimeValue::Bool(!v->Bool_0)),
{
}

} // verus!
