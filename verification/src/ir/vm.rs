//! A machine that runs instructions: a register file, the variables of an environment, a
//! loaded program and a program counter.
use vstd::prelude::*;
use crate::ast::same_type;
use crate::error::RaccoonError;
use crate::ir::compiler::{if_shape, while_shape};
use crate::ir::instruction::{
    find_label, label_lookup, template_regs, IRProgram, Instruction, MatchPattern, PropertyReg, Register, RegisterView,
    TemplatePart,
};
use crate::runtime::builtins::{any_t, builtin_call, builtin_defined, call_builtin, get_property, is_pure_builtin, lemma_copied_lookup, opt_same, prop_index, prop_lookup, set_property};
use crate::runtime::environment::{env_lookup, scope_lookup, variable_msg, Binding, Environment};
use crate::runtime::values::{any_type, lemma_same_value_refl, lemma_same_value_trans, same_value, Entry, ListValue, NativeFn, ObjectValue, RuntimeValue};
use crate::text::{concat2, dec_str, usize_to_string};
use crate::tokens::{BinaryOperator, UnaryOperator};

verus! {

/// A register and the value it holds.
#[derive(Debug)]
pub struct RegisterSlot {
    pub reg: Register,
    pub value: RuntimeValue,
}

/// The value held for register `r`: that of the last slot naming it.
pub open spec fn slot_lookup(s: Seq<RegisterSlot>, r: RegisterView) -> Option<RuntimeValue>
    decreases s.len(),
{
    if s.len() == 0 {
        None
    } else if s.last().reg@ == r {
        Some(s.last().value)
    } else {
        slot_lookup(s.drop_last(), r)
    }
}

/// The text that names a register in messages.
pub open spec fn reg_key(r: RegisterView) -> Seq<char> {
    match r {
        RegisterView::Temp(n) => "r"@ + dec_str(n as nat),
        RegisterView::Local(s) => "local:"@ + s,
        RegisterView::Global(s) => "global:"@ + s,
    }
}

/// The value register `r` reads as: a local register reads its variable while one is
/// declared, any register otherwise what it holds.
pub open spec fn reg_read(regs: Seq<RegisterSlot>, env: Seq<Seq<Binding>>, r: RegisterView) -> Option<RuntimeValue> {
    match r {
        RegisterView::Local(name) => match env_lookup(env, name) {
            Some(v) => Some(v),
            None => slot_lookup(regs, r),
        },
        _ => slot_lookup(regs, r),
    }
}

/// The error for reading register `r` while it holds nothing.
pub open spec fn not_found(e: RaccoonError, r: RegisterView) -> bool {
    &&& e.message@ == "Register not found: "@ + reg_key(r)
    &&& e.position == (0usize, 0usize)
    &&& e.file is None
}

/// The views of a list of registers.
pub open spec fn reg_views(s: Seq<Register>) -> Seq<RegisterView> {
    s.map_values(|r: Register| r@)
}

/// Every register of `rs` reads as a value.
pub open spec fn all_read(regs: Seq<RegisterSlot>, env: Seq<Seq<Binding>>, rs: Seq<RegisterView>) -> bool {
    forall|j: int| 0 <= j < rs.len() ==> (#[trigger] reg_read(regs, env, rs[j])) is Some
}

/// Register `rs[i]` is the first of `rs` that reads as nothing.
pub open spec fn first_missing_at(regs: Seq<RegisterSlot>, env: Seq<Seq<Binding>>, rs: Seq<RegisterView>, i: int) -> bool {
    &&& 0 <= i < rs.len()
    &&& reg_read(regs, env, rs[i]) is None
    &&& forall|j: int| 0 <= j < i ==> (#[trigger] reg_read(regs, env, rs[j])) is Some
}

/// Reading the registers `rs` in order gave `r`: copies of their values, or the error for the
/// first that reads as nothing.
pub open spec fn read_list(regs: Seq<RegisterSlot>, env: Seq<Seq<Binding>>, rs: Seq<RegisterView>, r: Result<Vec<RuntimeValue>, RaccoonError>) -> bool {
    if all_read(regs, env, rs) {
        r matches Ok(vals) && vals@.len() == rs.len() && forall|j: int| 0 <= j < rs.len()
            ==> same_value(reg_read(regs, env, rs[j])->Some_0, #[trigger] vals@[j])
    } else {
        r matches Err(e) && exists|i: int| first_missing_at(regs, env, rs, i) && not_found(e, rs[i])
    }
}

/// The value written last to register `r` by the writes `ws`.
pub open spec fn last_write(ws: Seq<(RegisterView, RuntimeValue)>, r: RegisterView) -> Option<RuntimeValue>
    decreases ws.len(),
{
    if ws.len() == 0 {
        None
    } else if ws.last().0 == r {
        Some(ws.last().1)
    } else {
        last_write(ws.drop_last(), r)
    }
}

/// The registers and variables after writing exactly `v` to register `r`: `r` holds `v` and the
/// other registers keep their values; a local register whose variable is declared also sets
/// that variable to a copy of `v`, and every other variable keeps its value.
pub open spec fn stored(
    regs0: Seq<RegisterSlot>,
    env0: Seq<Seq<Binding>>,
    r: RegisterView,
    v: RuntimeValue,
    regs1: Seq<RegisterSlot>,
    env1: Seq<Seq<Binding>>,
) -> bool {
    &&& slot_lookup(regs1, r) == Some(v)
    &&& forall|o: RegisterView| o != r ==> #[trigger] slot_lookup(regs1, o) == slot_lookup(regs0, o)
    &&& env1.len() == env0.len()
    &&& forall|n: Seq<char>| if r == RegisterView::Local(n) && env_lookup(env0, n) is Some {
        #[trigger] env_lookup(env1, n) matches Some(x) && same_value(v, x)
    } else {
        env_lookup(env1, n) == env_lookup(env0, n)
    }
}

/// The registers and variables after the writes `ws`, in order, each of a copy of its value:
/// a register holds a copy of the value written to it last, or keeps its value; a variable
/// whose local register was written holds a copy of what that register holds.
pub open spec fn wrote(
    regs0: Seq<RegisterSlot>,
    env0: Seq<Seq<Binding>>,
    ws: Seq<(RegisterView, RuntimeValue)>,
    regs1: Seq<RegisterSlot>,
    env1: Seq<Seq<Binding>>,
) -> bool {
    &&& forall|r: RegisterView| match #[trigger] last_write(ws, r) {
        Some(v) => slot_lookup(regs1, r) matches Some(w) && same_value(v, w),
        None => slot_lookup(regs1, r) == slot_lookup(regs0, r),
    }
    &&& env1.len() == env0.len()
    &&& forall|n: Seq<char>| if env_lookup(env0, n) is Some && last_write(ws, RegisterView::Local(n)) is Some {
        slot_lookup(regs1, RegisterView::Local(n)) matches Some(w) && #[trigger] env_lookup(env1, n) matches Some(x)
            && same_value(w, x)
    } else {
        env_lookup(env1, n) == env_lookup(env0, n)
    }
}

proof fn lemma_wrote_none(regs: Seq<RegisterSlot>, env: Seq<Seq<Binding>>)
    ensures
        wrote(regs, env, Seq::empty(), regs, env),
{
}

proof fn lemma_wrote_push(
    regs0: Seq<RegisterSlot>,
    env0: Seq<Seq<Binding>>,
    ws: Seq<(RegisterView, RuntimeValue)>,
    regs1: Seq<RegisterSlot>,
    env1: Seq<Seq<Binding>>,
    r: RegisterView,
    orig: RuntimeValue,
    v: RuntimeValue,
    regs2: Seq<RegisterSlot>,
    env2: Seq<Seq<Binding>>,
)
    requires
        wrote(regs0, env0, ws, regs1, env1),
        stored(regs1, env1, r, v, regs2, env2),
        same_value(orig, v),
    ensures
        wrote(regs0, env0, ws.push((r, orig)), regs2, env2),
{
    let ws2 = ws.push((r, orig));
    assert(ws2.drop_last() =~= ws);
    assert forall|o: RegisterView| match #[trigger] last_write(ws2, o) {
        Some(x) => slot_lookup(regs2, o) matches Some(w) && same_value(x, w),
        None => slot_lookup(regs2, o) == slot_lookup(regs0, o),
    } by {
        if o != r {
            assert(last_write(ws2, o) == last_write(ws, o));
            assert(slot_lookup(regs2, o) == slot_lookup(regs1, o));
            assert(match last_write(ws, o) {
                Some(x) => slot_lookup(regs1, o) matches Some(w) && same_value(x, w),
                None => slot_lookup(regs1, o) == slot_lookup(regs0, o),
            });
        }
    }
    assert forall|n: Seq<char>| if env_lookup(env0, n) is Some && last_write(ws2, RegisterView::Local(n)) is Some {
        slot_lookup(regs2, RegisterView::Local(n)) matches Some(w) && #[trigger] env_lookup(env2, n) matches Some(x)
            && same_value(w, x)
    } else {
        env_lookup(env2, n) == env_lookup(env0, n)
    } by {
        let l = RegisterView::Local(n);
        assert(if env_lookup(env0, n) is Some && last_write(ws, l) is Some {
            slot_lookup(regs1, l) matches Some(w) && env_lookup(env1, n) matches Some(x) && same_value(w, x)
        } else {
            env_lookup(env1, n) == env_lookup(env0, n)
        });
        assert(if r == l && env_lookup(env1, n) is Some {
            env_lookup(env2, n) matches Some(x) && same_value(v, x)
        } else {
            env_lookup(env2, n) == env_lookup(env1, n)
        });
        if r != l {
            assert(last_write(ws2, l) == last_write(ws, l));
            assert(slot_lookup(regs2, l) == slot_lookup(regs1, l));
        }
    }
}

proof fn lemma_set_to(
    regs0: Seq<RegisterSlot>,
    env0: Seq<Seq<Binding>>,
    r: RegisterView,
    orig: RuntimeValue,
    v: RuntimeValue,
    regs1: Seq<RegisterSlot>,
    env1: Seq<Seq<Binding>>,
)
    requires
        stored(regs0, env0, r, v, regs1, env1),
        same_value(orig, v),
    ensures
        set_to(regs0, env0, r, orig, regs1, env1),
{
    lemma_wrote_none(regs0, env0);
    lemma_wrote_push(regs0, env0, Seq::empty(), regs0, env0, r, orig, v, regs1, env1);
    assert(Seq::<(RegisterView, RuntimeValue)>::empty().push((r, orig)) =~= seq![(r, orig)]);
}

proof fn lemma_set_exact(
    regs0: Seq<RegisterSlot>,
    env0: Seq<Seq<Binding>>,
    r: RegisterView,
    v: RuntimeValue,
    regs1: Seq<RegisterSlot>,
    env1: Seq<Seq<Binding>>,
)
    requires
        stored(regs0, env0, r, v, regs1, env1),
    ensures
        set_to(regs0, env0, r, v, regs1, env1),
        set_some(regs0, env0, r, regs1, env1),
        held(regs1, r) == v,
{
    lemma_same_value_refl(v);
    lemma_set_to(regs0, env0, r, v, v, regs1, env1);
}

proof fn lemma_set_via(
    regs0: Seq<RegisterSlot>,
    env0: Seq<Seq<Binding>>,
    r: RegisterView,
    orig: RuntimeValue,
    mid: RuntimeValue,
    v: RuntimeValue,
    regs1: Seq<RegisterSlot>,
    env1: Seq<Seq<Binding>>,
)
    requires
        stored(regs0, env0, r, v, regs1, env1),
        same_value(orig, mid),
        same_value(mid, v),
    ensures
        set_to(regs0, env0, r, orig, regs1, env1),
{
    lemma_same_value_trans(orig, mid, v);
    lemma_set_to(regs0, env0, r, orig, v, regs1, env1);
}

/// Copies of the properties of `a` and of `b` look up alike when `b` copies `a`.
proof fn lemma_copied_object(a: RuntimeValue, b: RuntimeValue)
    requires
        a is Object,
        same_value(a, b),
    ensures
        b is Object,
        forall|k: Seq<char>| opt_same(#[trigger] prop_lookup(a->Object_0.properties@, k), prop_lookup(b->Object_0.properties@, k)),
{
    assert forall|k: Seq<char>| opt_same(#[trigger] prop_lookup(a->Object_0.properties@, k), prop_lookup(b->Object_0.properties@, k)) by {
        lemma_copied_lookup(a->Object_0.properties@, b->Object_0.properties@, k);
    }
}

proof fn lemma_opt_same_trans(a: Option<RuntimeValue>, b: Option<RuntimeValue>, c: Option<RuntimeValue>)
    requires
        opt_same(a, b),
        opt_same(b, c),
    ensures
        opt_same(a, c),
{
    if a is Some {
        lemma_same_value_trans(a->Some_0, b->Some_0, c->Some_0);
    }
}

proof fn lemma_prefix(a: Seq<char>, b: Seq<char>)
    ensures
        a.is_prefix_of(a + b),
{
    assert((a + b).subrange(0, a.len() as int) =~= a);
}

/// A prefix of a template has no more registers than a longer one.
proof fn lemma_template_prefix(parts: Seq<TemplatePart>, i: int, j: int)
    requires
        0 <= i <= j <= parts.len(),
    ensures
        template_regs(parts.subrange(0, i)).len() <= template_regs(parts.subrange(0, j)).len(),
    decreases j - i,
{
    if i < j {
        lemma_template_prefix(parts, i, j - 1);
        assert(parts.subrange(0, j).drop_last() =~= parts.subrange(0, j - 1));
    }
}

/// A register reads back a copy of the value last written to it, and writing it leaves what
/// every other register reads as it was.
pub proof fn law_write_then_read(
    regs0: Seq<RegisterSlot>,
    env0: Seq<Seq<Binding>>,
    r: RegisterView,
    v: RuntimeValue,
    regs1: Seq<RegisterSlot>,
    env1: Seq<Seq<Binding>>,
    o: RegisterView,
)
    requires
        stored(regs0, env0, r, v, regs1, env1),
    ensures
        reg_read(regs1, env1, r) matches Some(w) && same_value(v, w),
        o != r ==> reg_read(regs1, env1, o) == reg_read(regs0, env0, o),
{
    lemma_same_value_refl(v);
    match r {
        RegisterView::Local(n) => {
            assert(env_lookup(env1, n) == env_lookup(env0, n) || env_lookup(env0, n) is Some);
        },
        _ => {},
    }
    match o {
        RegisterView::Local(m) => {
            if o != r {
                assert(env_lookup(env1, m) == env_lookup(env0, m));
                assert(slot_lookup(regs1, o) == slot_lookup(regs0, o));
            }
        },
        _ => {
            if o != r {
                assert(slot_lookup(regs1, o) == slot_lookup(regs0, o));
            }
        },
    }
}

/// The last slot naming `r` is at `i`.
proof fn lemma_slot_at(s: Seq<RegisterSlot>, i: int, r: RegisterView)
    requires
        0 <= i < s.len(),
        s[i].reg@ == r,
        forall|j: int| i < j < s.len() ==> (#[trigger] s[j]).reg@ != r,
    ensures
        slot_lookup(s, r) == Some(s[i].value),
    decreases s.len(),
{
    if i < s.len() - 1 {
        lemma_slot_at(s.drop_last(), i, r);
    }
}

/// No slot names `r`.
proof fn lemma_slot_none(s: Seq<RegisterSlot>, r: RegisterView)
    requires
        forall|j: int| 0 <= j < s.len() ==> (#[trigger] s[j]).reg@ != r,
    ensures
        slot_lookup(s, r) is None,
    decreases s.len(),
{
    if s.len() > 0 {
        lemma_slot_none(s.drop_last(), r);
    }
}

/// Replacing the value of the last slot naming a register changes what that register holds
/// and nothing else.
proof fn lemma_slot_replace(s: Seq<RegisterSlot>, i: int, slot: RegisterSlot, o: RegisterView)
    requires
        0 <= i < s.len(),
        slot.reg@ == s[i].reg@,
        forall|j: int| i < j < s.len() ==> (#[trigger] s[j]).reg@ != slot.reg@,
    ensures
        slot_lookup(s.update(i, slot), o) == if o == slot.reg@ { Some(slot.value) } else { slot_lookup(s, o) },
    decreases s.len(),
{
    let u = s.update(i, slot);
    if i == s.len() - 1 {
        assert(u.drop_last() =~= s.drop_last());
    } else {
        assert(u.drop_last() =~= s.drop_last().update(i, slot));
        lemma_slot_replace(s.drop_last(), i, slot, o);
    }
}

/// The text that names a register in messages.
fn register_key(r: &Register) -> (s: String)
    ensures
        s@ == reg_key(r@),
{
    match r {
        Register::Temp(n) => {
            let digits = usize_to_string(*n);
            concat2("r", digits.as_str())
        },
        Register::Local(name) => concat2("local:", name.as_str()),
        Register::Global(name) => concat2("global:", name.as_str()),
    }
}

fn register_not_found(r: &Register) -> (e: RaccoonError)
    ensures
        not_found(e, r@),
{
    let key = register_key(r);
    let msg = concat2("Register not found: ", key.as_str());
    RaccoonError::new(msg.as_str(), (0, 0), None)
}

/// What an instruction tells the machine to do next.
#[derive(Debug)]
pub enum ExecutionResult {
    /// Go on with the next instruction.
    Continue,
    /// Stop with this value.
    Return(RuntimeValue),
    /// Go on at the named label.
    Jump(String),
    /// The instruction makes a compiled function or class, which the values of this library
    /// do not hold: whoever runs the machine carries it out.
    Outside,
}

/// What running instructions takes from the interpreter around the machine: truthiness,
/// operators, the text of values, calls of native functions and of methods of primitive
/// values, waiting for futures, arithmetic on floats, and running a nested block of
/// instructions to its end.
pub trait VmHost {
    /// Whether a value counts as true in a condition.
    fn is_truthy(&mut self, value: &RuntimeValue) -> bool;

    /// `left op right`.
    fn binary_op(&mut self, left: RuntimeValue, right: RuntimeValue, op: BinaryOperator) -> Result<RuntimeValue, RaccoonError>;

    /// The text of a value.
    fn display(&mut self, value: &RuntimeValue) -> String;

    /// The name of the type a type object stands for.
    fn type_object_name(&mut self, value: &RuntimeValue) -> String;

    /// Calls a native function that is not one of the library's own (printing, reading, host
    /// functions); `is_async` tells an asynchronous one, whose result is awaited.
    fn call_native(&mut self, function: NativeFn, is_async: bool, args: Vec<RuntimeValue>) -> RuntimeValue;

    /// Calls a method of a string, map, number or boolean.
    fn call_instance_method(&mut self, object: RuntimeValue, method: &str, args: Vec<RuntimeValue>) -> Result<RuntimeValue, RaccoonError>;

    /// Waits for a future to complete.
    fn wait(&mut self, future: RuntimeValue) -> Result<RuntimeValue, String>;

    /// The bits of the double `bits + 1.0` (`up`) or `bits - 1.0`.
    fn float_step(&mut self, bits: u64, up: bool) -> u64;

    /// The doubles differ by less than the machine epsilon.
    fn float_close(&mut self, a: u64, b: u64) -> bool;

    /// The double `a` is at most the double `b`.
    fn float_le(&mut self, a: u64, b: u64) -> bool;

    /// Runs `body` to its end in a machine of its own over `env`, and gives what it returned.
    fn run(&mut self, env: Environment, body: &Vec<Instruction>) -> Result<RuntimeValue, RaccoonError>;
}

/// The machine's registers and variables are as they were.
pub open spec fn unchanged(
    regs0: Seq<RegisterSlot>,
    env0: Seq<Seq<Binding>>,
    regs1: Seq<RegisterSlot>,
    env1: Seq<Seq<Binding>>,
) -> bool {
    regs1 == regs0 && env1 == env0
}

/// The instruction went on to the next one.
pub open spec fn continued(r: Result<ExecutionResult, RaccoonError>) -> bool {
    r matches Ok(ExecutionResult::Continue)
}

/// The instruction failed reading register `reg`.
pub open spec fn missing(r: Result<ExecutionResult, RaccoonError>, reg: RegisterView) -> bool {
    r matches Err(e) && not_found(e, reg)
}

/// The instruction failed with the message `msg`.
pub open spec fn failed(r: Result<ExecutionResult, RaccoonError>, msg: Seq<char>) -> bool {
    r matches Err(e) && e.message@ == msg && e.position == (0usize, 0usize) && e.file is None
}

/// The instruction failed reading the first of the registers `rs` that reads as nothing.
pub open spec fn list_missing(
    regs: Seq<RegisterSlot>,
    env: Seq<Seq<Binding>>,
    rs: Seq<RegisterView>,
    r: Result<ExecutionResult, RaccoonError>,
) -> bool {
    r matches Err(e) && exists|i: int| first_missing_at(regs, env, rs, i) && not_found(e, rs[i])
}

/// Register `reg` was written a copy of `v`.
pub open spec fn set_to(
    regs0: Seq<RegisterSlot>,
    env0: Seq<Seq<Binding>>,
    reg: RegisterView,
    v: RuntimeValue,
    regs1: Seq<RegisterSlot>,
    env1: Seq<Seq<Binding>>,
) -> bool {
    wrote(regs0, env0, seq![(reg, v)], regs1, env1)
}

/// Register `reg` was written, and holds `held(regs1, reg)`.
pub open spec fn set_some(
    regs0: Seq<RegisterSlot>,
    env0: Seq<Seq<Binding>>,
    reg: RegisterView,
    regs1: Seq<RegisterSlot>,
    env1: Seq<Seq<Binding>>,
) -> bool {
    slot_lookup(regs1, reg) is Some && set_to(regs0, env0, reg, held(regs1, reg), regs1, env1)
}

/// What register `reg` holds.
pub open spec fn held(regs: Seq<RegisterSlot>, reg: RegisterView) -> RuntimeValue {
    slot_lookup(regs, reg)->Some_0
}

/// The value an object literal gives the property `k`: the last property of that name.
pub open spec fn props_value(
    regs: Seq<RegisterSlot>,
    env: Seq<Seq<Binding>>,
    ps: Seq<PropertyReg>,
    k: Seq<char>,
) -> Option<RuntimeValue>
    decreases ps.len(),
{
    if ps.len() == 0 {
        None
    } else if ps.last().name@ == k {
        reg_read(regs, env, ps.last().reg@)
    } else {
        props_value(regs, env, ps.drop_last(), k)
    }
}

/// The registers of an object literal's properties.
pub open spec fn prop_regs(ps: Seq<PropertyReg>) -> Seq<RegisterView> {
    ps.map_values(|p: PropertyReg| p.reg@)
}

/// The writes of destructuring the elements `elems` into the registers `dests`.
pub open spec fn element_writes(dests: Seq<RegisterView>, elems: Seq<RuntimeValue>) -> Seq<(RegisterView, RuntimeValue)> {
    Seq::new(dests.len(), |i: int| (dests[i], if i < elems.len() { elems[i] } else { RuntimeValue::Null }))
}

/// The writes of destructuring the properties `props` by the mappings `ms`.
pub open spec fn property_writes(ms: Seq<PropertyReg>, props: Seq<Entry>) -> Seq<(RegisterView, RuntimeValue)> {
    Seq::new(ms.len(), |i: int| (ms[i].reg@, match prop_lookup(props, ms[i].name@) {
        Some(v) => v,
        None => RuntimeValue::Null,
    }))
}

/// The name `typeof` gives the kind of a value; a type object's name follows `"type "`.
pub open spec fn kind_text(v: RuntimeValue) -> Seq<char> {
    match v {
        RuntimeValue::Null => "null"@,
        RuntimeValue::Bool(_) => "bool"@,
        RuntimeValue::Int(_) => "int"@,
        RuntimeValue::Float(_) => "float"@,
        RuntimeValue::Str(_) => "str"@,
        RuntimeValue::List(_) => "array"@,
        RuntimeValue::MapVal(_) => "map"@,
        RuntimeValue::Object(_) => "object"@,
        RuntimeValue::Future(_) => "future"@,
        RuntimeValue::NativeFunction(_) => "function"@,
        RuntimeValue::NativeAsyncFunction(_) => "function"@,
        RuntimeValue::TypeObj(_) => "type "@,
    }
}

/// The name `typeof` gives a value: `kind_text`, followed for a type object by its name.
pub open spec fn type_text_ok(v: RuntimeValue, s: Seq<char>) -> bool {
    if v is TypeObj {
        kind_text(v).is_prefix_of(s)
    } else {
        s == kind_text(v)
    }
}

/// `-i`, wrapping at the least `i64`.
pub open spec fn neg_wrap(i: i64) -> i64 {
    if i == i64::MIN { i } else { (-i) as i64 }
}

/// `i + 1`, wrapping at the greatest `i64`.
pub open spec fn inc_wrap(i: i64) -> i64 {
    if i == i64::MAX { i64::MIN } else { (i + 1) as i64 }
}

/// `i - 1`, wrapping at the least `i64`.
pub open spec fn dec_wrap(i: i64) -> i64 {
    if i == i64::MIN { i64::MAX } else { (i - 1) as i64 }
}

/// The bit that holds the sign of a double.
pub open spec fn sign_bit() -> u64 {
    0x8000_0000_0000_0000u64
}

/// An object with no properties, of type `any`.
pub open spec fn is_empty_object(v: RuntimeValue) -> bool {
    v matches RuntimeValue::Object(o) && o.properties@.len() == 0 && o.obj_type == any_t()
}

/// The instruction left what only the host decides: on success it wrote register `reg`; on
/// failure it changed nothing.
pub open spec fn host_set(
    r: Result<ExecutionResult, RaccoonError>,
    regs0: Seq<RegisterSlot>,
    env0: Seq<Seq<Binding>>,
    reg: RegisterView,
    regs1: Seq<RegisterSlot>,
    env1: Seq<Seq<Binding>>,
) -> bool {
    &&& r is Ok ==> continued(r) && set_some(regs0, env0, reg, regs1, env1)
    &&& r is Err ==> unchanged(regs0, env0, regs1, env1)
}

/// The writes of stepping the float `b` to `nb`: the operand gets the new value, the
/// destination the new one before the step or the old one after it.
pub open spec fn float_step_writes(
    operand: RegisterView,
    dest: RegisterView,
    b: u64,
    nb: u64,
    is_prefix: bool,
) -> Seq<(RegisterView, RuntimeValue)> {
    seq![(operand, RuntimeValue::Float(nb)), (dest, RuntimeValue::Float(if is_prefix { nb } else { b }))]
}

/// The innermost scope gained a binding of `name` to a string, the text of a caught error.
pub open spec fn caught(env0: Seq<Seq<Binding>>, name: Seq<char>, env1: Seq<Seq<Binding>>) -> bool {
    &&& env1.len() == env0.len()
    &&& env1.drop_last() == env0.drop_last()
    &&& env1.last().drop_last() == env0.last()
    &&& env1.last().len() == env0.last().len() + 1
    &&& env1.last().last().name@ == name
    &&& env1.last().last().value is Str
}

/// The pattern compares no floats.
pub open spec fn float_free(p: MatchPattern) -> bool
    decreases p,
{
    match p {
        MatchPattern::Literal(l) => !(l is Float),
        MatchPattern::Range(a, b) => !(a is Float && b is Float),
        MatchPattern::Array(ps) => forall|i: int| 0 <= i < ps@.len() ==> float_free(#[trigger] ps@[i]),
        MatchPattern::Object(fs) => forall|i: int| 0 <= i < fs@.len() ==> float_free((#[trigger] fs@[i]).pattern),
        MatchPattern::Or(ps) => forall|i: int| 0 <= i < ps@.len() ==> float_free(#[trigger] ps@[i]),
        _ => true,
    }
}

/// The value matches the pattern: a literal by equal value, a range by bounds, a list pattern
/// element by element, an object pattern field by field (each field present and matching),
/// an alternative by one of its patterns; a wildcard or a variable always.
pub open spec fn pattern_matches(v: RuntimeValue, p: MatchPattern) -> bool
    decreases p,
{
    match p {
        MatchPattern::Wildcard | MatchPattern::Variable(_) => true,
        MatchPattern::Literal(l) => match (v, l) {
            (RuntimeValue::Int(a), RuntimeValue::Int(b)) => a == b,
            (RuntimeValue::Str(a), RuntimeValue::Str(b)) => a@ == b@,
            (RuntimeValue::Bool(a), RuntimeValue::Bool(b)) => a == b,
            (RuntimeValue::Null, RuntimeValue::Null) => true,
            _ => false,
        },
        MatchPattern::Range(a, b) => match (v, a, b) {
            (RuntimeValue::Int(x), RuntimeValue::Int(lo), RuntimeValue::Int(hi)) => lo <= x && x <= hi,
            _ => false,
        },
        MatchPattern::Array(ps) => v matches RuntimeValue::List(l) && l.elements@.len() == ps@.len()
            && forall|i: int| 0 <= i < ps@.len() ==> pattern_matches(l.elements@[i], #[trigger] ps@[i]),
        MatchPattern::Object(fs) => v matches RuntimeValue::Object(o) && forall|i: int| 0 <= i < fs@.len()
            ==> (prop_lookup(o.properties@, (#[trigger] fs@[i]).key@) matches Some(x) && pattern_matches(x, fs@[i].pattern)),
        MatchPattern::Or(ps) => exists|i: int| 0 <= i < ps@.len() && pattern_matches(v, #[trigger] ps@[i]),
    }
}

/// Running instruction `i` would panic: destructuring a list into more registers than it has
/// elements while binding the rest.
pub open spec fn panics(regs: Seq<RegisterSlot>, env: Seq<Seq<Binding>>, i: Instruction) -> bool {
    match i {
        Instruction::DestructureArray { dests, src, has_rest, rest_dest } => has_rest && rest_dest is Some
            && (reg_read(regs, env, src@) matches Some(RuntimeValue::List(l)) && dests@.len() > l.elements@.len()),
        _ => false,
    }
}

/// What an instruction that branches on a condition did, given the host's answer `truth`
/// to whether the condition is truthy: a conditional that succeeded wrote the value of its
/// then-register to its destination where the answer was yes and the value of its
/// else-register where it was no; a jump-if-false that succeeded jumped to its label exactly
/// where the answer was no and went on otherwise; a jump-if-true the other way round.
pub open spec fn follows_truth(
    i: Instruction,
    regs0: Seq<RegisterSlot>,
    env0: Seq<Seq<Binding>>,
    truth: Option<bool>,
    r: Result<ExecutionResult, RaccoonError>,
    regs1: Seq<RegisterSlot>,
    env1: Seq<Seq<Binding>>,
) -> bool {
    match i {
        Instruction::Conditional { dest, then_val, else_val, .. } => r is Ok ==> (truth matches Some(t) && match reg_read(
            regs0,
            env0,
            if t { then_val@ } else { else_val@ },
        ) {
            Some(v) => set_to(regs0, env0, dest@, v, regs1, env1),
            None => false,
        }),
        Instruction::JumpIfFalse { label, .. } => r is Ok ==> (truth matches Some(t) && if t {
            continued(r)
        } else {
            r matches Ok(ExecutionResult::Jump(l)) && l@ == label@
        }),
        Instruction::JumpIfTrue { label, .. } => r is Ok ==> (truth matches Some(t) && if t {
            r matches Ok(ExecutionResult::Jump(l)) && l@ == label@
        } else {
            continued(r)
        }),
        _ => true,
    }
}

/// The register file and variables after running the instruction `i` from `regs0` and
/// `env0`, with result `r`. Where the result turns on the host, this states what holds
/// whatever the host answered.
pub open spec fn executed(
    i: Instruction,
    regs0: Seq<RegisterSlot>,
    env0: Seq<Seq<Binding>>,
    r: Result<ExecutionResult, RaccoonError>,
    regs1: Seq<RegisterSlot>,
    env1: Seq<Seq<Binding>>,
) -> bool {
    let same = unchanged(regs0, env0, regs1, env1);
    match i {
        Instruction::LoadConst { dest, value } => continued(r) && set_to(regs0, env0, dest@, value, regs1, env1),
        Instruction::Move { dest, src } | Instruction::Spread { dest, operand: src }
        | Instruction::SpreadArray { dest, operand: src } | Instruction::SpreadObject { dest, operand: src }
        | Instruction::SpreadCall { dest, operand: src } | Instruction::GetIterator { dest, iterable: src } => match reg_read(regs0, env0, src@) {
            Some(v) => continued(r) && set_to(regs0, env0, dest@, v, regs1, env1),
            None => missing(r, src@) && same,
        },
        Instruction::Declare { name, .. } => regs1 == regs0 && if scope_lookup(env0.last(), name@) is Some {
            env1 == env0 && (r matches Err(e) && e.message@ == variable_msg(name@, "' is already declared"@)
                && e.position == (0usize, 0usize))
        } else {
            &&& continued(r)
            &&& env1.len() == env0.len()
            &&& env1.drop_last() == env0.drop_last()
            &&& env1.last().drop_last() == env0.last()
            &&& env1.last().len() == env0.last().len() + 1
            &&& env1.last().last().name@ == name@
            &&& env1.last().last().value == RuntimeValue::Null
        },
        Instruction::Store { name, src } => regs1 == regs0 && match reg_read(regs0, env0, src@) {
            None => missing(r, src@) && env1 == env0,
            Some(v) => match env_lookup(env0, name@) {
                None => env1 == env0 && (r matches Err(e) && e.message@ == variable_msg(name@, "' is not declared"@)
                    && e.position == (0usize, 0usize)),
                Some(_) => {
                    &&& continued(r)
                    &&& env1.len() == env0.len()
                    &&& env_lookup(env1, name@) matches Some(x) && same_value(v, x)
                    &&& forall|n: Seq<char>| n != name@ ==> #[trigger] env_lookup(env1, n) == env_lookup(env0, n)
                },
            },
        },
        Instruction::Load { dest, name } => match env_lookup(env0, name@) {
            Some(v) => continued(r) && set_to(regs0, env0, dest@, v, regs1, env1),
            None => same && (r matches Err(e) && e.message@ == variable_msg(name@, "' is not declared"@)
                && e.position == (0usize, 0usize)),
        },
        Instruction::Return { value } | Instruction::Yield { value } => same && match value {
            None => r matches Ok(ExecutionResult::Return(RuntimeValue::Null)),
            Some(reg) => match reg_read(regs0, env0, reg@) {
                Some(v) => r matches Ok(ExecutionResult::Return(w)) && same_value(v, w),
                None => missing(r, reg@),
            },
        },
        Instruction::Jump { label } => same && (r matches Ok(ExecutionResult::Jump(l)) && l@ == label@),
        Instruction::Label { .. } | Instruction::Nop | Instruction::Comment { .. } | Instruction::Break
        | Instruction::Continue | Instruction::Export { .. } | Instruction::Catch { .. }
        | Instruction::Finally { .. } => same && continued(r),
        Instruction::CreateFunction { .. } | Instruction::CreateClass { .. } => same && r matches Ok(ExecutionResult::Outside),
        Instruction::PushScope => regs1 == regs0 && continued(r) && env1 == env0.push(Seq::empty()),
        Instruction::PopScope => regs1 == regs0 && continued(r) && env1 == if env0.len() > 1 {
            env0.drop_last()
        } else {
            env0
        },
        Instruction::CallSuper { dest, .. } | Instruction::CreateGenerator { dest, .. } => continued(r) && set_to(
            regs0,
            env0,
            dest@,
            RuntimeValue::Null,
            regs1,
            env1,
        ),
        Instruction::Import { dest, .. } => continued(r) && set_some(regs0, env0, dest@, regs1, env1)
            && is_empty_object(held(regs1, dest@)),
        Instruction::LoadThis { dest } => continued(r) && match env_lookup(env0, "this"@) {
            Some(v) => set_to(regs0, env0, dest@, v, regs1, env1),
            None => set_some(regs0, env0, dest@, regs1, env1) && is_empty_object(held(regs1, dest@)),
        },
        Instruction::NullAssert { dest, value } => match reg_read(regs0, env0, value@) {
            None => missing(r, value@) && same,
            Some(RuntimeValue::Null) => failed(r, "Null assertion failed"@) && same,
            Some(v) => continued(r) && set_to(regs0, env0, dest@, v, regs1, env1),
        },
        Instruction::CreateArray { dest, elements } => if all_read(regs0, env0, reg_views(elements@)) {
            &&& continued(r)
            &&& set_some(regs0, env0, dest@, regs1, env1)
            &&& held(regs1, dest@) matches RuntimeValue::List(l)
            &&& l.element_type == any_t()
            &&& l.elements@.len() == elements@.len()
            &&& forall|j: int| 0 <= j < elements@.len() ==> same_value(
                reg_read(regs0, env0, elements@[j]@)->Some_0,
                #[trigger] l.elements@[j],
            )
        } else {
            list_missing(regs0, env0, reg_views(elements@), r) && same
        },
        Instruction::CreateObject { dest, properties } => if all_read(regs0, env0, prop_regs(properties@)) {
            &&& continued(r)
            &&& set_some(regs0, env0, dest@, regs1, env1)
            &&& held(regs1, dest@) matches RuntimeValue::Object(o)
            &&& o.obj_type == any_t()
            &&& forall|k: Seq<char>| opt_same(props_value(regs0, env0, properties@, k), #[trigger] prop_lookup(o.properties@, k))
        } else {
            list_missing(regs0, env0, prop_regs(properties@), r) && same
        },
        Instruction::LoadIndex { dest, array, index } => match reg_read(regs0, env0, array@) {
            None => missing(r, array@) && same,
            Some(a) => match reg_read(regs0, env0, index@) {
                None => missing(r, index@) && same,
                Some(ix) => match a {
                    RuntimeValue::List(l) => match ix {
                        RuntimeValue::Int(k) => continued(r) && if 0 <= k < l.elements@.len() {
                            set_to(regs0, env0, dest@, l.elements@[k as int], regs1, env1)
                        } else {
                            set_to(regs0, env0, dest@, RuntimeValue::Null, regs1, env1)
                        },
                        _ => failed(r, "Array index must be an integer"@) && same,
                    },
                    _ => failed(r, "Cannot index non-array value"@) && same,
                },
            },
        },
        Instruction::StoreIndex { array, index, value } => match reg_read(regs0, env0, array@) {
            None => missing(r, array@) && same,
            Some(a) => match reg_read(regs0, env0, index@) {
                None => missing(r, index@) && same,
                Some(ix) => match reg_read(regs0, env0, value@) {
                    None => missing(r, value@) && same,
                    Some(v) => match a {
                        RuntimeValue::List(l) => match ix {
                            RuntimeValue::Int(k) => if 0 <= k < l.elements@.len() {
                                &&& continued(r)
                                &&& set_some(regs0, env0, array@, regs1, env1)
                                &&& held(regs1, array@) matches RuntimeValue::List(m)
                                &&& same_type(l.element_type, m.element_type)
                                &&& m.elements@.len() == l.elements@.len()
                                &&& forall|j: int| 0 <= j < l.elements@.len() ==> same_value(
                                    if j == k { v } else { l.elements@[j] },
                                    #[trigger] m.elements@[j],
                                )
                            } else {
                                failed(r, "Array index out of bounds"@) && same
                            },
                            _ => failed(r, "Array index must be an integer"@) && same,
                        },
                        _ => failed(r, "Cannot index non-array value"@) && same,
                    },
                },
            },
        },
        Instruction::LoadProperty { dest, object, property } => match reg_read(regs0, env0, object@) {
            None => missing(r, object@) && same,
            Some(RuntimeValue::Object(o)) => continued(r) && match prop_lookup(o.properties@, property@) {
                Some(v) => set_to(regs0, env0, dest@, v, regs1, env1),
                None => set_to(regs0, env0, dest@, RuntimeValue::Null, regs1, env1),
            },
            Some(RuntimeValue::List(l)) => continued(r) && if property@ == "length"@ {
                set_to(regs0, env0, dest@, RuntimeValue::Int(l.elements@.len() as i64), regs1, env1)
            } else if property@ == "first"@ && l.elements@.len() > 0 {
                set_to(regs0, env0, dest@, l.elements@[0], regs1, env1)
            } else {
                set_to(regs0, env0, dest@, RuntimeValue::Null, regs1, env1)
            },
            Some(RuntimeValue::Str(t)) => continued(r) && if property@ == "length"@ {
                set_to(regs0, env0, dest@, RuntimeValue::Int((vstd::utf8::encode_utf8(t@).len() as usize) as i64), regs1, env1)
            } else if property@ == "isEmpty"@ {
                set_to(regs0, env0, dest@, RuntimeValue::Bool(t@.len() == 0), regs1, env1)
            } else {
                set_to(regs0, env0, dest@, RuntimeValue::Null, regs1, env1)
            },
            Some(_) => failed(r, "Cannot access property of non-object"@) && same,
        },
        Instruction::StoreProperty { object, property, value } => match reg_read(regs0, env0, object@) {
            None => missing(r, object@) && same,
            Some(a) => match reg_read(regs0, env0, value@) {
                None => missing(r, value@) && same,
                Some(v) => match a {
                    RuntimeValue::Object(o) => {
                        &&& continued(r)
                        &&& set_some(regs0, env0, object@, regs1, env1)
                        &&& held(regs1, object@) matches RuntimeValue::Object(m)
                        &&& same_type(o.obj_type, m.obj_type)
                        &&& forall|k: Seq<char>| opt_same(
                            if k == property@ { Some(v) } else { prop_lookup(o.properties@, k) },
                            #[trigger] prop_lookup(m.properties@, k),
                        )
                    },
                    _ => failed(r, "Cannot set property of non-object"@) && same,
                },
            },
        },
        Instruction::OptionalChain { dest, object, property } => match reg_read(regs0, env0, object@) {
            None => missing(r, object@) && same,
            Some(RuntimeValue::Object(o)) => continued(r) && match prop_lookup(o.properties@, property@) {
                Some(v) => set_to(regs0, env0, dest@, v, regs1, env1),
                None => set_to(regs0, env0, dest@, RuntimeValue::Null, regs1, env1),
            },
            Some(_) => continued(r) && set_to(regs0, env0, dest@, RuntimeValue::Null, regs1, env1),
        },
        Instruction::DestructureArray { dests, src, has_rest, rest_dest } => match reg_read(regs0, env0, src@) {
            None => missing(r, src@) && same,
            Some(RuntimeValue::List(l)) => continued(r) && {
                let ws = element_writes(reg_views(dests@), l.elements@);
                if has_rest && rest_dest is Some {
                    let rest = rest_dest->Some_0@;
                    &&& wrote(regs0, env0, ws.push((rest, held(regs1, rest))), regs1, env1)
                    &&& held(regs1, rest) matches RuntimeValue::List(m)
                    &&& m.element_type == any_t()
                    &&& m.elements@.len() + dests@.len() == l.elements@.len()
                    &&& forall|j: int| 0 <= j < m.elements@.len() ==> same_value(
                        l.elements@[dests@.len() + j],
                        #[trigger] m.elements@[j],
                    )
                } else {
                    wrote(regs0, env0, ws, regs1, env1)
                }
            },
            Some(_) => failed(r, "Cannot destructure non-array value"@) && same,
        },
        Instruction::DestructureObject { mappings, src, .. } => match reg_read(regs0, env0, src@) {
            None => missing(r, src@) && same,
            Some(RuntimeValue::Object(o)) => continued(r) && wrote(
                regs0,
                env0,
                property_writes(mappings@, o.properties@),
                regs1,
                env1,
            ),
            Some(_) => failed(r, "Cannot destructure non-object value"@) && same,
        },
        Instruction::CreateRange { dest, start, end } => match reg_read(regs0, env0, start@) {
            None => missing(r, start@) && same,
            Some(a) => match reg_read(regs0, env0, end@) {
                None => missing(r, end@) && same,
                Some(b) => {
                    &&& continued(r)
                    &&& set_some(regs0, env0, dest@, regs1, env1)
                    &&& held(regs1, dest@) matches RuntimeValue::Object(o)
                    &&& o.obj_type == any_t()
                    &&& forall|k: Seq<char>| opt_same(
                        if k == "end"@ { Some(b) } else if k == "start"@ { Some(a) } else { None },
                        #[trigger] prop_lookup(o.properties@, k),
                    )
                },
            },
        },
        Instruction::IteratorNext { dest, iterator } => match reg_read(regs0, env0, iterator@) {
            None => missing(r, iterator@) && same,
            Some(_) => {
                &&& continued(r)
                &&& set_some(regs0, env0, dest@, regs1, env1)
                &&& held(regs1, dest@) matches RuntimeValue::Object(o)
                &&& o.obj_type == any_t()
                &&& o.properties@.len() == 1
                &&& o.properties@[0].key@ == "done"@
                &&& o.properties@[0].value == RuntimeValue::Bool(true)
            },
        },
        Instruction::DeleteProperty { dest, object, .. } => match reg_read(regs0, env0, object@) {
            None => missing(r, object@) && same,
            Some(v) => continued(r) && set_to(regs0, env0, dest@, RuntimeValue::Bool(v is Object), regs1, env1),
        },
        Instruction::In { dest, property, object } => match reg_read(regs0, env0, object@) {
            None => missing(r, object@) && same,
            Some(RuntimeValue::Object(o)) => continued(r) && set_to(
                regs0,
                env0,
                dest@,
                RuntimeValue::Bool(prop_lookup(o.properties@, property@) is Some),
                regs1,
                env1,
            ),
            Some(_) => continued(r) && set_to(regs0, env0, dest@, RuntimeValue::Bool(false), regs1, env1),
        },
        Instruction::NullCoalesce { dest, left, right } => match reg_read(regs0, env0, left@) {
            None => missing(r, left@) && same,
            Some(RuntimeValue::Null) => match reg_read(regs0, env0, right@) {
                None => missing(r, right@) && same,
                Some(v) => continued(r) && set_to(regs0, env0, dest@, v, regs1, env1),
            },
            Some(v) => continued(r) && set_to(regs0, env0, dest@, v, regs1, env1),
        },
        Instruction::BinaryOp { dest, left, right, .. } => match reg_read(regs0, env0, left@) {
            None => missing(r, left@) && same,
            Some(_) => match reg_read(regs0, env0, right@) {
                None => missing(r, right@) && same,
                Some(_) => host_set(r, regs0, env0, dest@, regs1, env1),
            },
        },
        Instruction::CompoundAssign { dest, src, .. } => match reg_read(regs0, env0, dest@) {
            None => missing(r, dest@) && same,
            Some(_) => match reg_read(regs0, env0, src@) {
                None => missing(r, src@) && same,
                Some(_) => host_set(r, regs0, env0, dest@, regs1, env1),
            },
        },
        Instruction::UnaryOp { dest, operand, op } => match reg_read(regs0, env0, operand@) {
            None => missing(r, operand@) && same,
            Some(v) => match op {
                UnaryOperator::Not => continued(r) && set_some(regs0, env0, dest@, regs1, env1) && held(regs1, dest@) is Bool,
                UnaryOperator::Negate => match v {
                    RuntimeValue::Int(k) => continued(r) && set_to(regs0, env0, dest@, RuntimeValue::Int(neg_wrap(k)), regs1, env1),
                    RuntimeValue::Float(b) => continued(r) && set_to(
                        regs0,
                        env0,
                        dest@,
                        RuntimeValue::Float(b ^ sign_bit()),
                        regs1,
                        env1,
                    ),
                    _ => failed(r, "Cannot negate non-numeric value"@) && same,
                },
                UnaryOperator::BitwiseNot => match v {
                    RuntimeValue::Int(k) => continued(r) && set_to(regs0, env0, dest@, RuntimeValue::Int(!k), regs1, env1),
                    _ => failed(r, "Cannot apply bitwise not to non-integer value"@) && same,
                },
            },
        },
        Instruction::JumpIfFalse { condition, label } | Instruction::JumpIfTrue { condition, label } => same && match reg_read(
            regs0,
            env0,
            condition@,
        ) {
            None => missing(r, condition@),
            Some(_) => continued(r) || (r matches Ok(ExecutionResult::Jump(l)) && l@ == label@),
        },
        Instruction::Conditional { dest, condition, then_val, else_val } => match reg_read(regs0, env0, condition@) {
            None => missing(r, condition@) && same,
            Some(_) => (match reg_read(regs0, env0, then_val@) {
                Some(t) => continued(r) && set_to(regs0, env0, dest@, t, regs1, env1),
                None => missing(r, then_val@) && same,
            }) || (match reg_read(regs0, env0, else_val@) {
                Some(t) => continued(r) && set_to(regs0, env0, dest@, t, regs1, env1),
                None => missing(r, else_val@) && same,
            }),
        },
        Instruction::Call { dest, callee, args } => match reg_read(regs0, env0, callee@) {
            None => missing(r, callee@) && same,
            Some(f) => if !all_read(regs0, env0, reg_views(args@)) {
                list_missing(regs0, env0, reg_views(args@), r) && same
            } else if f is NativeFunction || f is NativeAsyncFunction {
                continued(r) && set_some(regs0, env0, dest@, regs1, env1)
            } else {
                failed(r, "Cannot call non-function value"@) && same
            },
        },
        Instruction::MethodCall { dest, object, method, args } => match reg_read(regs0, env0, object@) {
            None => missing(r, object@) && same,
            Some(o) => if !all_read(regs0, env0, reg_views(args@)) {
                list_missing(regs0, env0, reg_views(args@), r) && same
            } else {
                match o {
                    RuntimeValue::Object(ov) => match prop_lookup(ov.properties@, method@) {
                        Some(f) => if f is NativeFunction || f is NativeAsyncFunction {
                            continued(r) && set_some(regs0, env0, dest@, regs1, env1)
                        } else {
                            failed(r, "Cannot call non-function value"@) && same
                        },
                        None => failed(r, "Method '"@ + method@ + "' not found"@) && same,
                    },
                    RuntimeValue::Str(_) | RuntimeValue::MapVal(_) | RuntimeValue::Int(_) | RuntimeValue::Float(_)
                    | RuntimeValue::Bool(_) => host_set(r, regs0, env0, dest@, regs1, env1),
                    _ => failed(r, "Cannot call method on non-object type"@) && same,
                }
            },
        },
        Instruction::NewInstance { dest, class_name, args } => if !all_read(regs0, env0, reg_views(args@)) {
            list_missing(regs0, env0, reg_views(args@), r) && same
        } else {
            match env_lookup(env0, class_name@) {
                None => same && (r matches Err(e) && e.message@ == variable_msg(class_name@, "' is not declared"@)
                    && e.position == (0usize, 0usize)),
                Some(_) => continued(r) && set_some(regs0, env0, dest@, regs1, env1) && is_empty_object(held(regs1, dest@)),
            }
        },
        Instruction::Await { dest, future } => match reg_read(regs0, env0, future@) {
            None => missing(r, future@) && same,
            Some(RuntimeValue::Future(_)) => {
                &&& r is Ok ==> continued(r) && set_some(regs0, env0, dest@, regs1, env1)
                &&& r is Err ==> same && (r matches Err(e) && "Await error: "@.is_prefix_of(e.message@)
                    && e.position == (0usize, 0usize) && e.file is None)
            },
            Some(v) => continued(r) && set_to(regs0, env0, dest@, v, regs1, env1),
        },
        Instruction::TypeOf { dest, operand } => match reg_read(regs0, env0, operand@) {
            None => missing(r, operand@) && same,
            Some(v) => continued(r) && set_some(regs0, env0, dest@, regs1, env1)
                && (held(regs1, dest@) matches RuntimeValue::Str(t) && type_text_ok(v, t@)),
        },
        Instruction::InstanceOf { dest, operand, class_name } => match reg_read(regs0, env0, operand@) {
            None => missing(r, operand@) && same,
            Some(v) => continued(r) && set_some(regs0, env0, dest@, regs1, env1)
                && (held(regs1, dest@) matches RuntimeValue::Bool(b) && (!(v is TypeObj) ==> b == (kind_text(v) == class_name@))),
        },
        Instruction::Throw { value } => same && match reg_read(regs0, env0, value@) {
            None => missing(r, value@),
            Some(_) => r matches Err(e) && "Thrown: "@.is_prefix_of(e.message@) && e.position == (0usize, 0usize)
                && e.file is None,
        },
        Instruction::CreateTemplate { dest, parts } => if all_read(regs0, env0, reg_views(template_regs(parts@))) {
            continued(r) && set_some(regs0, env0, dest@, regs1, env1) && held(regs1, dest@) is Str
        } else {
            list_missing(regs0, env0, reg_views(template_regs(parts@)), r) && same
        },
        Instruction::TaggedTemplate { dest, tag, expressions, .. } => match reg_read(regs0, env0, tag@) {
            None => missing(r, tag@) && same,
            Some(_) => if all_read(regs0, env0, reg_views(expressions@)) {
                continued(r) && set_some(regs0, env0, dest@, regs1, env1) && held(regs1, dest@) is Str
            } else {
                list_missing(regs0, env0, reg_views(expressions@), r) && same
            },
        },
        Instruction::Increment { dest, operand, is_prefix } => match reg_read(regs0, env0, operand@) {
            None => missing(r, operand@) && same,
            Some(RuntimeValue::Int(k)) => continued(r) && wrote(
                regs0,
                env0,
                seq![(operand@, RuntimeValue::Int(inc_wrap(k))), (dest@, RuntimeValue::Int(if is_prefix { inc_wrap(k) } else { k }))],
                regs1,
                env1,
            ),
            Some(RuntimeValue::Float(b)) => continued(r) && exists|nb: u64| wrote(
                regs0,
                env0,
                #[trigger] float_step_writes(operand@, dest@, b, nb, is_prefix),
                regs1,
                env1,
            ),
            Some(_) => failed(r, "Cannot increment non-numeric value"@) && same,
        },
        Instruction::Decrement { dest, operand, is_prefix } => match reg_read(regs0, env0, operand@) {
            None => missing(r, operand@) && same,
            Some(RuntimeValue::Int(k)) => continued(r) && wrote(
                regs0,
                env0,
                seq![(operand@, RuntimeValue::Int(dec_wrap(k))), (dest@, RuntimeValue::Int(if is_prefix { dec_wrap(k) } else { k }))],
                regs1,
                env1,
            ),
            Some(RuntimeValue::Float(b)) => continued(r) && exists|nb: u64| wrote(
                regs0,
                env0,
                #[trigger] float_step_writes(operand@, dest@, b, nb, is_prefix),
                regs1,
                env1,
            ),
            Some(_) => failed(r, "Cannot decrement non-numeric value"@) && same,
        },
        Instruction::Match { dest, scrutinee, .. } => match reg_read(regs0, env0, scrutinee@) {
            None => missing(r, scrutinee@) && same,
            Some(_) => host_set(r, regs0, env0, dest@, regs1, env1),
        },
        Instruction::ForIn { object, .. } => match reg_read(regs0, env0, object@) {
            None => missing(r, object@) && same,
            Some(RuntimeValue::Object(_)) | Some(RuntimeValue::List(_)) => same && (r is Ok ==> continued(r)),
            Some(_) => failed(r, "for-in requires object or array"@) && same,
        },
        Instruction::ForOf { iterable, .. } => match reg_read(regs0, env0, iterable@) {
            None => missing(r, iterable@) && same,
            Some(RuntimeValue::List(_)) => same && (r is Ok ==> continued(r)),
            Some(_) => failed(r, "for-of requires iterable"@) && same,
        },
        Instruction::TryCatch { catch_handler, .. } => {
            &&& regs1 == regs0
            &&& r is Ok ==> continued(r)
            &&& env1 == env0 || (catch_handler matches Some(h) && caught(env0, h.name@, env1))
        },
    }
}

/// The name `typeof` gives a value.
fn kind_name_of<H: VmHost>(host: &mut H, v: &RuntimeValue) -> (s: String)
    ensures
        type_text_ok(*v, s@),
{
    match v {
        RuntimeValue::Null => String::from_str("null"),
        RuntimeValue::Bool(_) => String::from_str("bool"),
        RuntimeValue::Int(_) => String::from_str("int"),
        RuntimeValue::Float(_) => String::from_str("float"),
        RuntimeValue::Str(_) => String::from_str("str"),
        RuntimeValue::List(_) => String::from_str("array"),
        RuntimeValue::MapVal(_) => String::from_str("map"),
        RuntimeValue::Object(_) => String::from_str("object"),
        RuntimeValue::Future(_) => String::from_str("future"),
        RuntimeValue::NativeFunction(_) | RuntimeValue::NativeAsyncFunction(_) => String::from_str("function"),
        RuntimeValue::TypeObj(_) => {
            let name = host.type_object_name(v);
            let s = concat2("type ", name.as_str());
            proof { lemma_prefix("type "@, name@); }
            s
        },
    }
}

/// The registers a template reads, in order.
fn template_registers(parts: &Vec<TemplatePart>) -> (r: Vec<Register>)
    ensures
        reg_views(r@) == reg_views(template_regs(parts@)),
{
    let mut r: Vec<Register> = Vec::new();
    let mut i: usize = 0;
    while i < parts.len()
        invariant
            i <= parts@.len(),
            reg_views(r@) == reg_views(template_regs(parts@.subrange(0, i as int))),
        decreases parts@.len() - i,
    {
        let ghost before = r@;
        assert(parts@.subrange(0, i + 1).drop_last() =~= parts@.subrange(0, i as int));
        match &parts[i] {
            TemplatePart::Expr(reg) => {
                let ghost t = template_regs(parts@.subrange(0, i as int));
                assert(parts@.subrange(0, i + 1).last() == parts@[i as int]);
                assert(template_regs(parts@.subrange(0, i + 1)) == t + seq![*reg]);
                r.push(reg.copy());
                assert(reg_views(t + seq![*reg]) =~= reg_views(t).push(reg@));
                assert(reg_views(r@) =~= reg_views(before).push(reg@));
                assert(reg_views(r@) =~= reg_views(template_regs(parts@.subrange(0, i + 1))));
            },
            TemplatePart::String(_) => {
                assert(template_regs(parts@.subrange(0, i + 1)) =~= template_regs(parts@.subrange(0, i as int)));
            },
        }
        i = i + 1;
    }
    assert(parts@.subrange(0, parts@.len() as int) =~= parts@);
    r
}

/// Whether the value matches the pattern; a float compared goes through the host.
fn matches_pattern<H: VmHost>(host: &mut H, value: &RuntimeValue, pattern: &MatchPattern) -> (b: bool)
    ensures
        float_free(*pattern) ==> b == pattern_matches(*value, *pattern),
    decreases pattern,
{
    match pattern {
        MatchPattern::Wildcard | MatchPattern::Variable(_) => true,
        MatchPattern::Literal(lit) => match (value, lit) {
            (RuntimeValue::Int(a), RuntimeValue::Int(b)) => *a == *b,
            (RuntimeValue::Float(a), RuntimeValue::Float(b)) => host.float_close(*a, *b),
            (RuntimeValue::Str(a), RuntimeValue::Str(b)) => crate::text::str_eq(a.as_str(), b.as_str()),
            (RuntimeValue::Bool(a), RuntimeValue::Bool(b)) => *a == *b,
            (RuntimeValue::Null, RuntimeValue::Null) => true,
            _ => false,
        },
        MatchPattern::Range(lo, hi) => match (value, lo, hi) {
            (RuntimeValue::Int(x), RuntimeValue::Int(a), RuntimeValue::Int(b)) => *x >= *a && *x <= *b,
            (RuntimeValue::Float(x), RuntimeValue::Float(a), RuntimeValue::Float(b)) => host.float_le(*a, *x) && host.float_le(*x, *b),
            _ => false,
        },
        MatchPattern::Array(ps) => match value {
            RuntimeValue::List(l) => {
                if ps.len() != l.elements.len() {
                    return false;
                }
                let mut i: usize = 0;
                while i < ps.len()
                    invariant
                        i <= ps@.len(),
                        ps@.len() == l.elements@.len(),
                        *pattern == MatchPattern::Array(*ps),
                        *value == RuntimeValue::List(*l),
                        float_free(*pattern) ==> forall|j: int| 0 <= j < i ==> pattern_matches(l.elements@[j], #[trigger] ps@[j]),
                    decreases ps@.len() - i,
                {
                    assert(decreases_to!(pattern => ps@[i as int]));
                    if !matches_pattern(host, &l.elements[i], &ps[i]) {
                        return false;
                    }
                    i = i + 1;
                }
                true
            },
            _ => false,
        },
        MatchPattern::Object(fs) => match value {
            RuntimeValue::Object(o) => {
                let mut i: usize = 0;
                while i < fs.len()
                    invariant
                        i <= fs@.len(),
                        *pattern == MatchPattern::Object(*fs),
                        *value == RuntimeValue::Object(*o),
                        float_free(*pattern) ==> forall|j: int| 0 <= j < i ==> (prop_lookup(o.properties@, (#[trigger] fs@[j]).key@)
                            matches Some(x) && pattern_matches(x, fs@[j].pattern)),
                    decreases fs@.len() - i,
                {
                    match prop_index(&o.properties, fs[i].key.as_str()) {
                        Some(k) => {
                            assert(decreases_to!(pattern => fs@[i as int].pattern));
                            if !matches_pattern(host, &o.properties[k].value, &fs[i].pattern) {
                                return false;
                            }
                        },
                        None => {
                            return false;
                        },
                    }
                    i = i + 1;
                }
                true
            },
            _ => false,
        },
        MatchPattern::Or(ps) => {
            let mut i: usize = 0;
            while i < ps.len()
                invariant
                    i <= ps@.len(),
                    *pattern == MatchPattern::Or(*ps),
                    float_free(*pattern) ==> forall|j: int| 0 <= j < i ==> !pattern_matches(*value, #[trigger] ps@[j]),
                decreases ps@.len() - i,
            {
                proof {
                    let pv = *pattern;
                    assert(decreases_to!(pv => pv->Or_0));
                    assert(decreases_to!(pv => ps@[i as int]));
                }
                if matches_pattern(host, value, &ps[i]) {
                    proof {
                        if float_free(*pattern) {
                            assert(float_free(ps@[i as int]));
                            assert(pattern_matches(*value, ps@[i as int]));
                        }
                    }
                    return true;
                }
                i = i + 1;
            }
            false
        },
    }
}

/// Where the machine stands after a step.
#[derive(Debug)]
pub enum Step {
    /// It goes on with the instruction at its counter.
    Running,
    /// The program returned this value, or ran to its end (`null`).
    Finished(RuntimeValue),
    /// The instruction before the counter makes a compiled function or class; whoever runs
    /// the machine carries it out.
    Outside,
}

/// What a step gives for an instruction that ended with `res`, in a program with the labels
/// `labels`, from counter `pc`: `r` and the new counter `counter`.
pub open spec fn stepped(
    labels: Seq<crate::ir::instruction::LabelEntry>,
    pc: usize,
    res: Result<ExecutionResult, RaccoonError>,
    r: Result<Step, RaccoonError>,
    counter: usize,
) -> bool {
    match res {
        Ok(ExecutionResult::Continue) => r matches Ok(Step::Running) && counter == pc + 1,
        Ok(ExecutionResult::Outside) => r matches Ok(Step::Outside) && counter == pc + 1,
        Ok(ExecutionResult::Return(v)) => r == Ok::<Step, RaccoonError>(Step::Finished(v)) && counter == pc + 1,
        Ok(ExecutionResult::Jump(l)) => match label_lookup(labels, l@) {
            Some(pos) => r matches Ok(Step::Running) && counter == pos,
            None => counter == pc + 1 && (r matches Err(e) && e.message@ == "Unknown label: "@ + l@
                && e.position == (0usize, 0usize) && e.file is None),
        },
        Err(e) => r == Err::<Step, RaccoonError>(e) && counter == pc + 1,
    }
}

/// A machine that runs a program's instructions over a register file and an environment.
pub struct VM {
    registers: Vec<RegisterSlot>,
    environment: Environment,
    pc: usize,
    program: Option<IRProgram>,
    /// The host's truthiness answer for the last branch taken, kept for the proofs alone.
    answered: Ghost<Option<bool>>,
}

impl VM {
    /// The register slots.
    pub closed spec fn regs(&self) -> Seq<RegisterSlot> {
        self.registers@
    }

    /// The scopes of the environment.
    pub closed spec fn env(&self) -> Seq<Seq<Binding>> {
        self.environment.view()
    }

    /// The file the environment belongs to.
    pub closed spec fn env_file(&self) -> Option<String> {
        self.environment.file_view()
    }

    /// The position of the next instruction.
    pub closed spec fn counter(&self) -> usize {
        self.pc
    }

    /// The program being run, if one was loaded.
    pub closed spec fn loaded(&self) -> Option<IRProgram> {
        self.program
    }

    /// Whether the host found truthy the condition of the last conditional or conditional jump
    /// that the machine ran, if it ran one.
    pub closed spec fn last_truth(&self) -> Option<bool> {
        self.answered@
    }

    /// The environment has a scope to declare variables in.
    pub closed spec fn wf(&self) -> bool {
        self.environment.view().len() > 0
    }

    /// A machine over `environment` with empty registers and no program.
    pub fn new(environment: Environment) -> (vm: VM)
        requires
            environment.view().len() > 0,
        ensures
            vm.wf(),
            vm.regs().len() == 0,
            vm.env() == environment.view(),
            vm.env_file() == environment.file_view(),
            vm.counter() == 0,
            vm.loaded() is None,
    {
        VM { registers: Vec::new(), environment, pc: 0, program: None, answered: Ghost(None) }
    }

    /// The index of the last slot naming `reg`.
    fn find_slot(&self, reg: &Register) -> (r: Option<usize>)
        ensures
            match r {
                Some(i) => i < self.registers@.len() && self.registers@[i as int].reg@ == reg@
                    && slot_lookup(self.registers@, reg@) == Some(self.registers@[i as int].value)
                    && forall|j: int| i < j < self.registers@.len() ==> (#[trigger] self.registers@[j]).reg@ != reg@,
                None => slot_lookup(self.registers@, reg@) is None
                    && forall|j: int| 0 <= j < self.registers@.len() ==> (#[trigger] self.registers@[j]).reg@ != reg@,
            },
    {
        let mut k = self.registers.len();
        while k > 0
            invariant
                k <= self.registers@.len(),
                forall|j: int| k <= j < self.registers@.len() ==> (#[trigger] self.registers@[j]).reg@ != reg@,
            decreases k,
        {
            let j = k - 1;
            if self.registers[j].reg.same(reg) {
                proof { lemma_slot_at(self.registers@, j as int, reg@); }
                return Some(j);
            }
            k = j;
        }
        proof { lemma_slot_none(self.registers@, reg@); }
        None
    }

    /// A copy of the value register `reg` reads as.
    pub fn get_register(&self, reg: &Register) -> (r: Result<RuntimeValue, RaccoonError>)
        ensures
            match reg_read(self.regs(), self.env(), reg@) {
                Some(v) => r matches Ok(w) && same_value(v, w),
                None => r matches Err(e) && not_found(e, reg@),
            },
    {
        match reg {
            Register::Local(name) => {
                if self.environment.exists_name(name.as_str()) {
                    return self.environment.get(name.as_str(), (0, 0));
                }
            },
            _ => {},
        }
        match self.find_slot(reg) {
            Some(i) => Ok(self.registers[i].value.copy()),
            None => Err(register_not_found(reg)),
        }
    }

    /// The parts of the machine that running an instruction leaves alone: the environment's
    /// file, the counter and the program.
    pub closed spec fn frame_kept(&self, other: VM) -> bool {
        &&& other.environment.file_view() == self.environment.file_view()
        &&& other.pc == self.pc
        &&& other.program == self.program
    }

    /// Writes `value` to register `reg`; a local register whose variable is declared also
    /// sets that variable.
    pub fn set_register(&mut self, reg: &Register, value: RuntimeValue)
        requires
            old(self).wf(),
        ensures
            final(self).wf(),
            stored(old(self).regs(), old(self).env(), reg@, value, final(self).regs(), final(self).env()),
            final(self).env_file() == old(self).env_file(),
            final(self).counter() == old(self).counter(),
            final(self).loaded() == old(self).loaded(),
    {
        match reg {
            Register::Local(name) => {
                if self.environment.exists_name(name.as_str()) {
                    let _ = self.environment.assign(name.as_str(), value.copy(), (0, 0));
                }
            },
            _ => {},
        }
        let ghost regs0 = self.registers@;
        match self.find_slot(reg) {
            Some(i) => {
                let ghost slot = RegisterSlot { reg: self.registers@[i as int].reg, value };
                proof {
                    assert forall|o: RegisterView| #[trigger] slot_lookup(regs0.update(i as int, slot), o)
                        == if o == reg@ { Some(value) } else { slot_lookup(regs0, o) } by {
                        lemma_slot_replace(regs0, i as int, slot, o);
                    }
                }
                let mut old_slot = RegisterSlot { reg: Register::Temp(0), value: RuntimeValue::Null };
                self.registers.set_and_swap(i, &mut old_slot);
                let RegisterSlot { reg: kept, value: _ } = old_slot;
                let mut fresh = RegisterSlot { reg: kept, value };
                self.registers.set_and_swap(i, &mut fresh);
                assert(self.registers@ =~= regs0.update(i as int, slot));
            },
            None => {
                self.registers.push(RegisterSlot { reg: reg.copy(), value });
                assert(self.registers@.drop_last() =~= regs0);
            },
        }
    }

    /// Runs the instructions that move values between registers and variables, leave the
    /// machine as it is, or are carried out elsewhere.
    fn exec_basic(&mut self, instr: &Instruction) -> (r: Result<ExecutionResult, RaccoonError>)
        requires
            old(self).wf(),
            instr is LoadConst || instr is Move || instr is Spread || instr is SpreadArray || instr is SpreadObject
                || instr is SpreadCall || instr is GetIterator || instr is Declare || instr is Store || instr is Load
                || instr is Return || instr is Yield || instr is Jump || instr is Label || instr is Nop
                || instr is Comment || instr is Break || instr is Continue || instr is Export || instr is Catch
                || instr is Finally || instr is CreateFunction || instr is CreateClass || instr is PushScope
                || instr is PopScope || instr is CallSuper || instr is CreateGenerator || instr is Import
                || instr is LoadThis || instr is NullAssert,
        ensures
            final(self).wf(),
            old(self).frame_kept(*final(self)),
            executed(*instr, old(self).regs(), old(self).env(), r, final(self).regs(), final(self).env()),
    {
        match instr {
            Instruction::LoadConst { dest, value } => {
                let v = value.copy();
                self.set_register(dest, v);
                proof { lemma_set_to(old(self).regs(), old(self).env(), dest@, *value, v, self.regs(), self.env()); }
                Ok(ExecutionResult::Continue)
            },
            Instruction::Move { dest, src } | Instruction::Spread { dest, operand: src }
            | Instruction::SpreadArray { dest, operand: src } | Instruction::SpreadObject { dest, operand: src }
            | Instruction::SpreadCall { dest, operand: src } | Instruction::GetIterator { dest, iterable: src } => {
                match self.get_register(src) {
                    Ok(v) => {
                        let ghost orig = reg_read(old(self).regs(), old(self).env(), src@)->Some_0;
                        self.set_register(dest, v);
                        proof { lemma_set_to(old(self).regs(), old(self).env(), dest@, orig, v, self.regs(), self.env()); }
                        Ok(ExecutionResult::Continue)
                    },
                    Err(e) => Err(e),
                }
            },
            Instruction::Declare { name, .. } => {
                let ghost e0 = self.environment.view();
                let n = name.clone();
                let ghost gn = n;
                match self.environment.declare(n, RuntimeValue::Null) {
                    Ok(()) => {
                        assert(self.env().drop_last() =~= e0.drop_last());
                        assert(self.env().last() == e0.last().push(Binding { name: gn, value: RuntimeValue::Null }));
                        assert(self.env().last().drop_last() =~= e0.last());
                        Ok(ExecutionResult::Continue)
                    },
                    Err(e) => Err(e),
                }
            },
            Instruction::Store { name, src } => {
                match self.get_register(src) {
                    Ok(v) => match self.environment.assign(name.as_str(), v, (0, 0)) {
                        Ok(()) => Ok(ExecutionResult::Continue),
                        Err(e) => Err(e),
                    },
                    Err(e) => Err(e),
                }
            },
            Instruction::Load { dest, name } => {
                match self.environment.get(name.as_str(), (0, 0)) {
                    Ok(v) => {
                        let ghost orig = env_lookup(old(self).env(), name@)->Some_0;
                        self.set_register(dest, v);
                        proof { lemma_set_to(old(self).regs(), old(self).env(), dest@, orig, v, self.regs(), self.env()); }
                        Ok(ExecutionResult::Continue)
                    },
                    Err(e) => Err(e),
                }
            },
            Instruction::Return { value } | Instruction::Yield { value } => {
                match value {
                    None => Ok(ExecutionResult::Return(RuntimeValue::Null)),
                    Some(reg) => match self.get_register(reg) {
                        Ok(v) => Ok(ExecutionResult::Return(v)),
                        Err(e) => Err(e),
                    },
                }
            },
            Instruction::Jump { label } => Ok(ExecutionResult::Jump(label.clone())),
            Instruction::Label { .. } | Instruction::Nop | Instruction::Comment { .. } | Instruction::Break
            | Instruction::Continue | Instruction::Export { .. } | Instruction::Catch { .. }
            | Instruction::Finally { .. } => Ok(ExecutionResult::Continue),
            Instruction::CreateFunction { .. } | Instruction::CreateClass { .. } => Ok(ExecutionResult::Outside),
            Instruction::PushScope => {
                self.environment.push_scope();
                Ok(ExecutionResult::Continue)
            },
            Instruction::PopScope => {
                self.environment.pop_scope();
                Ok(ExecutionResult::Continue)
            },
            Instruction::CallSuper { dest, .. } | Instruction::CreateGenerator { dest, .. } => {
                self.set_register(dest, RuntimeValue::Null);
                proof { lemma_set_exact(old(self).regs(), old(self).env(), dest@, RuntimeValue::Null, self.regs(), self.env()); }
                Ok(ExecutionResult::Continue)
            },
            Instruction::Import { dest, .. } => {
                let v = RuntimeValue::Object(ObjectValue { properties: Vec::new(), obj_type: any_type() });
                let ghost gv = v;
                self.set_register(dest, v);
                proof { lemma_set_exact(old(self).regs(), old(self).env(), dest@, gv, self.regs(), self.env()); }
                Ok(ExecutionResult::Continue)
            },
            Instruction::LoadThis { dest } => {
                match self.environment.get("this", (0, 0)) {
                    Ok(v) => {
                        let ghost orig = env_lookup(old(self).env(), "this"@)->Some_0;
                        self.set_register(dest, v);
                        proof { lemma_set_to(old(self).regs(), old(self).env(), dest@, orig, v, self.regs(), self.env()); }
                    },
                    Err(_) => {
                        let v = RuntimeValue::Object(ObjectValue { properties: Vec::new(), obj_type: any_type() });
                        let ghost gv = v;
                        self.set_register(dest, v);
                        proof { lemma_set_exact(old(self).regs(), old(self).env(), dest@, gv, self.regs(), self.env()); }
                    },
                }
                Ok(ExecutionResult::Continue)
            },
            Instruction::NullAssert { dest, value } => {
                match self.get_register(value) {
                    Ok(v) => {
                        if let RuntimeValue::Null = v {
                            return Err(RaccoonError::new("Null assertion failed", (0, 0), None));
                        }
                        let ghost orig = reg_read(old(self).regs(), old(self).env(), value@)->Some_0;
                        self.set_register(dest, v);
                        proof { lemma_set_to(old(self).regs(), old(self).env(), dest@, orig, v, self.regs(), self.env()); }
                        Ok(ExecutionResult::Continue)
                    },
                    Err(e) => Err(e),
                }
            },
            _ => {
                assert(false);
                Ok(ExecutionResult::Continue)
            },
        }
    }


    /// Copies of the values the registers `regs` read as, in order.
    fn read_regs(&self, regs: &Vec<Register>) -> (r: Result<Vec<RuntimeValue>, RaccoonError>)
        ensures
            read_list(self.regs(), self.env(), reg_views(regs@), r),
    {
        let ghost rs = reg_views(regs@);
        let mut vals: Vec<RuntimeValue> = Vec::new();
        let mut i: usize = 0;
        while i < regs.len()
            invariant
                i <= regs@.len(),
                rs == reg_views(regs@),
                vals@.len() == i,
                forall|j: int| 0 <= j < i ==> (#[trigger] reg_read(self.regs(), self.env(), rs[j])) is Some,
                forall|j: int| 0 <= j < i ==> same_value(reg_read(self.regs(), self.env(), rs[j])->Some_0, #[trigger] vals@[j]),
            decreases regs@.len() - i,
        {
            assert(rs[i as int] == regs@[i as int]@);
            match self.get_register(&regs[i]) {
                Ok(v) => vals.push(v),
                Err(e) => {
                    assert(first_missing_at(self.regs(), self.env(), rs, i as int));
                    return Err(e);
                },
            }
            i = i + 1;
        }
        Ok(vals)
    }

    /// Runs the instructions that build, read and change lists.
    fn exec_list(&mut self, instr: &Instruction) -> (r: Result<ExecutionResult, RaccoonError>)
        requires
            old(self).wf(),
            instr is CreateArray || instr is LoadIndex || instr is StoreIndex || instr is DestructureArray,
            !panics(old(self).regs(), old(self).env(), *instr),
        ensures
            final(self).wf(),
            old(self).frame_kept(*final(self)),
            executed(*instr, old(self).regs(), old(self).env(), r, final(self).regs(), final(self).env()),
    {
        let ghost r0 = self.regs();
        let ghost e0 = self.env();
        match instr {
            Instruction::CreateArray { dest, elements } => {
                match self.read_regs(elements) {
                    Ok(vals) => {
                        let v = RuntimeValue::List(ListValue { elements: vals, element_type: any_type() });
                        let ghost gv = v;
                        self.set_register(dest, v);
                        proof { lemma_set_exact(r0, e0, dest@, gv, self.regs(), self.env()); }
                        Ok(ExecutionResult::Continue)
                    },
                    Err(e) => Err(e),
                }
            },
            Instruction::LoadIndex { dest, array, index } => {
                let a = match self.get_register(array) {
                    Ok(v) => v,
                    Err(e) => return Err(e),
                };
                let ix = match self.get_register(index) {
                    Ok(v) => v,
                    Err(e) => return Err(e),
                };
                let ghost a0 = reg_read(r0, e0, array@)->Some_0;
                match a {
                    RuntimeValue::List(l) => match ix {
                        RuntimeValue::Int(k) => {
                            if 0 <= k && (k as u64) < (l.elements.len() as u64) {
                                let v = l.elements[k as usize].copy();
                                proof {
                                    assert(same_value(a0->List_0.elements@[k as int], l.elements@[k as int]));
                                }
                                self.set_register(dest, v);
                                proof {
                                    lemma_set_via(r0, e0, dest@, a0->List_0.elements@[k as int], l.elements@[k as int], v, self.regs(), self.env());
                                }
                            } else {
                                self.set_register(dest, RuntimeValue::Null);
                                proof { lemma_set_exact(r0, e0, dest@, RuntimeValue::Null, self.regs(), self.env()); }
                            }
                            Ok(ExecutionResult::Continue)
                        },
                        _ => Err(RaccoonError::new("Array index must be an integer", (0, 0), None)),
                    },
                    _ => Err(RaccoonError::new("Cannot index non-array value", (0, 0), None)),
                }
            },
            Instruction::StoreIndex { array, index, value } => {
                let a = match self.get_register(array) {
                    Ok(v) => v,
                    Err(e) => return Err(e),
                };
                let ix = match self.get_register(index) {
                    Ok(v) => v,
                    Err(e) => return Err(e),
                };
                let v = match self.get_register(value) {
                    Ok(v) => v,
                    Err(e) => return Err(e),
                };
                let ghost a0 = reg_read(r0, e0, array@)->Some_0;
                let ghost v0 = reg_read(r0, e0, value@)->Some_0;
                match a {
                    RuntimeValue::List(l) => match ix {
                        RuntimeValue::Int(k) => {
                            if 0 <= k && (k as u64) < (l.elements.len() as u64) {
                                let ListValue { elements: mut elems, element_type } = l;
                                let ghost before = elems@;
                                elems.set(k as usize, v);
                                let nv = RuntimeValue::List(ListValue { elements: elems, element_type });
                                let ghost gn = nv;
                                self.set_register(array, nv);
                                proof {
                                    lemma_set_exact(r0, e0, array@, gn, self.regs(), self.env());
                                    assert forall|j: int| 0 <= j < a0->List_0.elements@.len() implies same_value(
                                        if j == k { v0 } else { a0->List_0.elements@[j] },
                                        #[trigger] gn->List_0.elements@[j],
                                    ) by {
                                        if j != k {
                                            assert(gn->List_0.elements@[j] == before[j]);
                                        }
                                    }
                                }
                                Ok(ExecutionResult::Continue)
                            } else {
                                Err(RaccoonError::new("Array index out of bounds", (0, 0), None))
                            }
                        },
                        _ => Err(RaccoonError::new("Array index must be an integer", (0, 0), None)),
                    },
                    _ => Err(RaccoonError::new("Cannot index non-array value", (0, 0), None)),
                }
            },
            Instruction::DestructureArray { dests, src, has_rest, rest_dest } => {
                let a = match self.get_register(src) {
                    Ok(v) => v,
                    Err(e) => return Err(e),
                };
                let ghost a0 = reg_read(r0, e0, src@)->Some_0;
                match a {
                    RuntimeValue::List(l) => {
                        let ghost elems0 = a0->List_0.elements@;
                        let ghost dv = reg_views(dests@);
                        let mut i: usize = 0;
                        proof {
                            lemma_wrote_none(r0, e0);
                            assert(element_writes(dv.subrange(0, 0), elems0) =~= Seq::<(RegisterView, RuntimeValue)>::empty());
                        }
                        while i < dests.len()
                            invariant
                                i <= dests@.len(),
                                dv == reg_views(dests@),
                                self.wf(),
                                old(self).frame_kept(*self),
                                l.elements@.len() == elems0.len(),
                                forall|j: int| 0 <= j < elems0.len() ==> same_value(#[trigger] elems0[j], l.elements@[j]),
                                wrote(r0, e0, element_writes(dv.subrange(0, i as int), elems0), self.regs(), self.env()),
                            decreases dests@.len() - i,
                        {
                            let v = if i < l.elements.len() { l.elements[i].copy() } else { RuntimeValue::Null };
                            let ghost orig = if i < elems0.len() { elems0[i as int] } else { RuntimeValue::Null };
                            proof {
                                if i < elems0.len() {
                                    lemma_same_value_trans(orig, l.elements@[i as int], v);
                                } else {
                                    lemma_same_value_refl(v);
                                }
                            }
                            let ghost r1 = self.regs();
                            let ghost e1 = self.env();
                            self.set_register(&dests[i], v);
                            proof {
                                assert(dv[i as int] == dests@[i as int]@);
                                lemma_wrote_push(r0, e0, element_writes(dv.subrange(0, i as int), elems0), r1, e1, dv[i as int], orig, v, self.regs(), self.env());
                                assert(element_writes(dv.subrange(0, i + 1), elems0) =~= element_writes(dv.subrange(0, i as int), elems0).push((dv[i as int], orig)));
                            }
                            i = i + 1;
                        }
                        assert(dv.subrange(0, dests@.len() as int) =~= dv);
                        if *has_rest {
                            match rest_dest {
                                Some(rest) => {
                                    let mut rest_elems: Vec<RuntimeValue> = Vec::new();
                                    let mut j: usize = dests.len();
                                    while j < l.elements.len()
                                        invariant
                                            dests@.len() <= j <= l.elements@.len(),
                                            l.elements@.len() == elems0.len(),
                                            forall|k: int| 0 <= k < elems0.len() ==> same_value(#[trigger] elems0[k], l.elements@[k]),
                                            rest_elems@.len() == j - dests@.len(),
                                            forall|k: int| 0 <= k < rest_elems@.len() ==> same_value(elems0[dests@.len() + k], #[trigger] rest_elems@[k]),
                                        decreases l.elements@.len() - j,
                                    {
                                        let c = l.elements[j].copy();
                                        proof { lemma_same_value_trans(elems0[j as int], l.elements@[j as int], c); }
                                        rest_elems.push(c);
                                        j = j + 1;
                                    }
                                    let rv = RuntimeValue::List(ListValue { elements: rest_elems, element_type: any_type() });
                                    let ghost gr = rv;
                                    let ghost r1 = self.regs();
                                    let ghost e1 = self.env();
                                    self.set_register(rest, rv);
                                    proof {
                                        lemma_same_value_refl(gr);
                                        lemma_wrote_push(r0, e0, element_writes(dv, elems0), r1, e1, rest@, gr, gr, self.regs(), self.env());
                                    }
                                },
                                None => {},
                            }
                        }
                        Ok(ExecutionResult::Continue)
                    },
                    _ => Err(RaccoonError::new("Cannot destructure non-array value", (0, 0), None)),
                }
            },
            _ => {
                assert(false);
                Ok(ExecutionResult::Continue)
            },
        }
    }

    /// Runs an object literal.
    fn exec_create_object(&mut self, instr: &Instruction) -> (r: Result<ExecutionResult, RaccoonError>)
        requires
            old(self).wf(),
            instr is CreateObject,
        ensures
            final(self).wf(),
            old(self).frame_kept(*final(self)),
            executed(*instr, old(self).regs(), old(self).env(), r, final(self).regs(), final(self).env()),
    {
        let ghost r0 = self.regs();
        let ghost e0 = self.env();
        match instr {
            Instruction::CreateObject { dest, properties } => {
                let ghost rs = prop_regs(properties@);
                let mut props: Vec<Entry> = Vec::new();
                let mut i: usize = 0;
                while i < properties.len()
                    invariant
                        i <= properties@.len(),
                        rs == prop_regs(properties@),
                        *instr == (Instruction::CreateObject { dest: *dest, properties: *properties }),
                        self.regs() == r0,
                        self.env() == e0,
                        self.wf(),
                        *self == *old(self),
                        forall|j: int| 0 <= j < i ==> (#[trigger] reg_read(r0, e0, rs[j])) is Some,
                        forall|k: Seq<char>| opt_same(props_value(r0, e0, properties@.subrange(0, i as int), k), #[trigger] prop_lookup(props@, k)),
                    decreases properties@.len() - i,
                {
                    assert(rs[i as int] == properties@[i as int].reg@);
                    let p = &properties[i];
                    match self.get_register(&p.reg) {
                        Ok(v) => {
                            let ghost before = props@;
                            let ghost pre = properties@.subrange(0, i as int);
                            let ghost post = properties@.subrange(0, i + 1);
                            let ghost gv = v;
                            set_property(&mut props, p.name.clone(), v);
                            proof {
                                assert(post.drop_last() =~= pre);
                                assert forall|k: Seq<char>| opt_same(props_value(r0, e0, post, k), #[trigger] prop_lookup(props@, k)) by {
                                    if k != p.name@ {
                                        assert(props_value(r0, e0, post, k) == props_value(r0, e0, pre, k));
                                    }
                                }
                            }
                        },
                        Err(e) => {
                            assert(first_missing_at(r0, e0, rs, i as int));
                            assert(not_found(e, rs[i as int]));
                            assert(!all_read(r0, e0, rs));
                            return Err(e);
                        },
                    }
                    i = i + 1;
                }
                assert(properties@.subrange(0, properties@.len() as int) =~= properties@);
                let v = RuntimeValue::Object(ObjectValue { properties: props, obj_type: any_type() });
                let ghost gv = v;
                self.set_register(dest, v);
                proof { lemma_set_exact(r0, e0, dest@, gv, self.regs(), self.env()); }
                Ok(ExecutionResult::Continue)
            },
            _ => {
                assert(false);
                Ok(ExecutionResult::Continue)
            },
        }
    }

    /// Reads a property, plainly or through optional chaining.
    fn exec_load_property(&mut self, instr: &Instruction) -> (r: Result<ExecutionResult, RaccoonError>)
        requires
            old(self).wf(),
            instr is LoadProperty || instr is OptionalChain,
        ensures
            final(self).wf(),
            old(self).frame_kept(*final(self)),
            executed(*instr, old(self).regs(), old(self).env(), r, final(self).regs(), final(self).env()),
    {
        let ghost r0 = self.regs();
        let ghost e0 = self.env();
        match instr {
            Instruction::LoadProperty { dest, object, property } | Instruction::OptionalChain { dest, object, property } => {
                let o = match self.get_register(object) {
                    Ok(v) => v,
                    Err(e) => return Err(e),
                };
                let ghost o0 = reg_read(r0, e0, object@)->Some_0;
                let is_load = matches!(instr, Instruction::LoadProperty { .. });
                match o {
                    RuntimeValue::Object(ov) => {
                        proof { lemma_copied_object(o0, RuntimeValue::Object(ov)); }
                        match get_property(&ov.properties, property.as_str()) {
                            Some(v) => {
                                proof {
                                    lemma_opt_same_trans(
                                        prop_lookup(o0->Object_0.properties@, property@),
                                        prop_lookup(ov.properties@, property@),
                                        Some(v),
                                    );
                                }
                                self.set_register(dest, v);
                                proof {
                                    lemma_set_to(r0, e0, dest@, prop_lookup(o0->Object_0.properties@, property@)->Some_0, v, self.regs(), self.env());
                                }
                            },
                            None => {
                                self.set_register(dest, RuntimeValue::Null);
                                proof { lemma_set_exact(r0, e0, dest@, RuntimeValue::Null, self.regs(), self.env()); }
                            },
                        }
                        Ok(ExecutionResult::Continue)
                    },
                    RuntimeValue::List(l) if is_load => {
                        if crate::text::str_eq(property.as_str(), "length") {
                            let v = RuntimeValue::Int(#[verifier::truncate] (l.elements.len() as i64));
                            self.set_register(dest, v);
                            proof { lemma_set_exact(r0, e0, dest@, RuntimeValue::Int(l.elements@.len() as i64), self.regs(), self.env()); }
                        } else if crate::text::str_eq(property.as_str(), "first") && l.elements.len() > 0 {
                            let v = l.elements[0].copy();
                            proof { assert(same_value(o0->List_0.elements@[0], l.elements@[0])); }
                            self.set_register(dest, v);
                            proof { lemma_set_via(r0, e0, dest@, o0->List_0.elements@[0], l.elements@[0], v, self.regs(), self.env()); }
                        } else {
                            self.set_register(dest, RuntimeValue::Null);
                            proof { lemma_set_exact(r0, e0, dest@, RuntimeValue::Null, self.regs(), self.env()); }
                        }
                        Ok(ExecutionResult::Continue)
                    },
                    RuntimeValue::Str(t) if is_load => {
                        if crate::text::str_eq(property.as_str(), "length") {
                            let v = RuntimeValue::Int(#[verifier::truncate] (t.as_str().len() as i64));
                            let ghost gv = v;
                            self.set_register(dest, v);
                            proof { lemma_set_exact(r0, e0, dest@, gv, self.regs(), self.env()); }
                        } else if crate::text::str_eq(property.as_str(), "isEmpty") {
                            let v = RuntimeValue::Bool(t.as_str().is_empty());
                            let ghost gv = v;
                            self.set_register(dest, v);
                            proof { lemma_set_exact(r0, e0, dest@, gv, self.regs(), self.env()); }
                        } else {
                            self.set_register(dest, RuntimeValue::Null);
                            proof { lemma_set_exact(r0, e0, dest@, RuntimeValue::Null, self.regs(), self.env()); }
                        }
                        Ok(ExecutionResult::Continue)
                    },
                    _ => {
                        if is_load {
                            Err(RaccoonError::new("Cannot access property of non-object", (0, 0), None))
                        } else {
                            self.set_register(dest, RuntimeValue::Null);
                            proof { lemma_set_exact(r0, e0, dest@, RuntimeValue::Null, self.regs(), self.env()); }
                            Ok(ExecutionResult::Continue)
                        }
                    },
                }
            },
            _ => {
                assert(false);
                Ok(ExecutionResult::Continue)
            },
        }
    }

    /// Sets a property of an object.
    fn exec_store_property(&mut self, instr: &Instruction) -> (r: Result<ExecutionResult, RaccoonError>)
        requires
            old(self).wf(),
            instr is StoreProperty,
        ensures
            final(self).wf(),
            old(self).frame_kept(*final(self)),
            executed(*instr, old(self).regs(), old(self).env(), r, final(self).regs(), final(self).env()),
    {
        let ghost r0 = self.regs();
        let ghost e0 = self.env();
        match instr {
            Instruction::StoreProperty { object, property, value } => {
                let o = match self.get_register(object) {
                    Ok(v) => v,
                    Err(e) => return Err(e),
                };
                let v = match self.get_register(value) {
                    Ok(v) => v,
                    Err(e) => return Err(e),
                };
                let ghost o0 = reg_read(r0, e0, object@)->Some_0;
                let ghost v0 = reg_read(r0, e0, value@)->Some_0;
                match o {
                    RuntimeValue::Object(ov) => {
                        proof { lemma_copied_object(o0, RuntimeValue::Object(ov)); }
                        let ObjectValue { properties: mut props, obj_type } = ov;
                        let ghost before = props@;
                        let ghost gv = v;
                        set_property(&mut props, property.clone(), v);
                        let nv = RuntimeValue::Object(ObjectValue { properties: props, obj_type });
                        let ghost gn = nv;
                        self.set_register(object, nv);
                        proof {
                            lemma_set_exact(r0, e0, object@, gn, self.regs(), self.env());
                            assert forall|k: Seq<char>| opt_same(
                                if k == property@ { Some(v0) } else { prop_lookup(o0->Object_0.properties@, k) },
                                #[trigger] prop_lookup(gn->Object_0.properties@, k),
                            ) by {
                                if k != property@ {
                                    assert(opt_same(prop_lookup(o0->Object_0.properties@, k), prop_lookup(before, k)));
                                }
                            }
                        }
                        Ok(ExecutionResult::Continue)
                    },
                    _ => Err(RaccoonError::new("Cannot set property of non-object", (0, 0), None)),
                }
            },
            _ => {
                assert(false);
                Ok(ExecutionResult::Continue)
            },
        }
    }

    /// Destructures an object into registers.
    fn exec_destructure_object(&mut self, instr: &Instruction) -> (r: Result<ExecutionResult, RaccoonError>)
        requires
            old(self).wf(),
            instr is DestructureObject,
        ensures
            final(self).wf(),
            old(self).frame_kept(*final(self)),
            executed(*instr, old(self).regs(), old(self).env(), r, final(self).regs(), final(self).env()),
    {
        let ghost r0 = self.regs();
        let ghost e0 = self.env();
        match instr {
            Instruction::DestructureObject { mappings, src, .. } => {
                let o = match self.get_register(src) {
                    Ok(v) => v,
                    Err(e) => return Err(e),
                };
                let ghost o0 = reg_read(r0, e0, src@)->Some_0;
                match o {
                    RuntimeValue::Object(ov) => {
                        proof { lemma_copied_object(o0, RuntimeValue::Object(ov)); }
                        let ghost props0 = o0->Object_0.properties@;
                        let mut i: usize = 0;
                        proof {
                            lemma_wrote_none(r0, e0);
                            assert(property_writes(mappings@.subrange(0, 0), props0) =~= Seq::<(RegisterView, RuntimeValue)>::empty());
                        }
                        while i < mappings.len()
                            invariant
                                i <= mappings@.len(),
                                self.wf(),
                                old(self).frame_kept(*self),
                                forall|k: Seq<char>| opt_same(#[trigger] prop_lookup(props0, k), prop_lookup(ov.properties@, k)),
                                wrote(r0, e0, property_writes(mappings@.subrange(0, i as int), props0), self.regs(), self.env()),
                            decreases mappings@.len() - i,
                        {
                            let m = &mappings[i];
                            let ghost key = m.name@;
                            let v = match get_property(&ov.properties, m.name.as_str()) {
                                Some(v) => v,
                                None => RuntimeValue::Null,
                            };
                            let ghost orig = match prop_lookup(props0, key) {
                                Some(x) => x,
                                None => RuntimeValue::Null,
                            };
                            proof {
                                assert(opt_same(prop_lookup(props0, key), prop_lookup(ov.properties@, key)));
                                if prop_lookup(props0, key) is Some {
                                    lemma_opt_same_trans(prop_lookup(props0, key), prop_lookup(ov.properties@, key), Some(v));
                                } else {
                                    lemma_same_value_refl(v);
                                }
                            }
                            let ghost r1 = self.regs();
                            let ghost e1 = self.env();
                            self.set_register(&m.reg, v);
                            proof {
                                lemma_wrote_push(r0, e0, property_writes(mappings@.subrange(0, i as int), props0), r1, e1, m.reg@, orig, v, self.regs(), self.env());
                                assert(property_writes(mappings@.subrange(0, i + 1), props0) =~= property_writes(mappings@.subrange(0, i as int), props0).push((m.reg@, orig)));
                            }
                            i = i + 1;
                        }
                        assert(mappings@.subrange(0, mappings@.len() as int) =~= mappings@);
                        Ok(ExecutionResult::Continue)
                    },
                    _ => Err(RaccoonError::new("Cannot destructure non-object value", (0, 0), None)),
                }
            },

            _ => {
                assert(false);
                Ok(ExecutionResult::Continue)
            },
        }
    }


    /// Runs ranges, iterator steps, property tests and null coalescing.
    fn exec_misc(&mut self, instr: &Instruction) -> (r: Result<ExecutionResult, RaccoonError>)
        requires
            old(self).wf(),
            instr is CreateRange || instr is IteratorNext || instr is DeleteProperty || instr is In || instr is NullCoalesce,
            !panics(old(self).regs(), old(self).env(), *instr),
        ensures
            final(self).wf(),
            old(self).frame_kept(*final(self)),
            executed(*instr, old(self).regs(), old(self).env(), r, final(self).regs(), final(self).env()),
    {
        let ghost r0 = self.regs();
        let ghost e0 = self.env();
        match instr {
            Instruction::CreateRange { dest, start, end } => {
                let a = match self.get_register(start) {
                    Ok(v) => v,
                    Err(e) => return Err(e),
                };
                let b = match self.get_register(end) {
                    Ok(v) => v,
                    Err(e) => return Err(e),
                };
                let mut props: Vec<Entry> = Vec::new();
                props.push(Entry { key: String::from_str("start"), value: a });
                props.push(Entry { key: String::from_str("end"), value: b });
                let ghost ps = props@;
                let ghost a0 = reg_read(r0, e0, start@)->Some_0;
                let ghost b0 = reg_read(r0, e0, end@)->Some_0;
                proof {
                    assert(ps.drop_last().drop_last() =~= Seq::<Entry>::empty());
                    assert forall|k: Seq<char>| opt_same(
                        if k == "end"@ { Some(b0) } else if k == "start"@ { Some(a0) } else { None },
                        #[trigger] prop_lookup(ps, k),
                    ) by {
                        assert(prop_lookup(ps.drop_last().drop_last(), k) is None);
                        assert(ps.drop_last().last() == ps[0]);
                        assert(ps.last() == ps[1]);
                        assert(ps[0].key@ == "start"@ && ps[1].key@ == "end"@);
                        assert(same_value(a0, ps[0].value) && same_value(b0, ps[1].value));
                        assert(prop_lookup(ps.drop_last(), k) == if ps[0].key@ == k {
                            Some(ps[0].value)
                        } else {
                            prop_lookup(ps.drop_last().drop_last(), k)
                        });
                    }
                }
                let v = RuntimeValue::Object(ObjectValue { properties: props, obj_type: any_type() });
                let ghost gv = v;
                self.set_register(dest, v);
                proof { lemma_set_exact(r0, e0, dest@, gv, self.regs(), self.env()); }
                Ok(ExecutionResult::Continue)
            },
            Instruction::IteratorNext { dest, iterator } => {
                match self.get_register(iterator) {
                    Ok(_) => {},
                    Err(e) => return Err(e),
                }
                let mut props: Vec<Entry> = Vec::new();
                props.push(Entry { key: String::from_str("done"), value: RuntimeValue::Bool(true) });
                let v = RuntimeValue::Object(ObjectValue { properties: props, obj_type: any_type() });
                let ghost gv = v;
                self.set_register(dest, v);
                proof { lemma_set_exact(r0, e0, dest@, gv, self.regs(), self.env()); }
                Ok(ExecutionResult::Continue)
            },
            Instruction::DeleteProperty { dest, object, .. } => {
                let o = match self.get_register(object) {
                    Ok(v) => v,
                    Err(e) => return Err(e),
                };
                let b = match o {
                    RuntimeValue::Object(_) => true,
                    _ => false,
                };
                self.set_register(dest, RuntimeValue::Bool(b));
                proof { lemma_set_exact(r0, e0, dest@, RuntimeValue::Bool(b), self.regs(), self.env()); }
                Ok(ExecutionResult::Continue)
            },
            Instruction::In { dest, property, object } => {
                let o = match self.get_register(object) {
                    Ok(v) => v,
                    Err(e) => return Err(e),
                };
                let ghost o0 = reg_read(r0, e0, object@)->Some_0;
                let b = match o {
                    RuntimeValue::Object(ov) => {
                        proof { lemma_copied_object(o0, RuntimeValue::Object(ov)); }
                        get_property(&ov.properties, property.as_str()).is_some()
                    },
                    _ => false,
                };
                self.set_register(dest, RuntimeValue::Bool(b));
                proof { lemma_set_exact(r0, e0, dest@, RuntimeValue::Bool(b), self.regs(), self.env()); }
                Ok(ExecutionResult::Continue)
            },
            Instruction::NullCoalesce { dest, left, right } => {
                let a = match self.get_register(left) {
                    Ok(v) => v,
                    Err(e) => return Err(e),
                };
                let ghost a0 = reg_read(r0, e0, left@)->Some_0;
                match a {
                    RuntimeValue::Null => {
                        match self.get_register(right) {
                            Ok(v) => {
                                let ghost b0 = reg_read(r0, e0, right@)->Some_0;
                                self.set_register(dest, v);
                                proof { lemma_set_to(r0, e0, dest@, b0, v, self.regs(), self.env()); }
                                Ok(ExecutionResult::Continue)
                            },
                            Err(e) => Err(e),
                        }
                    },
                    _ => {
                        self.set_register(dest, a);
                        proof { lemma_set_to(r0, e0, dest@, a0, a, self.regs(), self.env()); }
                        Ok(ExecutionResult::Continue)
                    },
                }
            },

            _ => {
                assert(false);
                Ok(ExecutionResult::Continue)
            },
        }
    }



    /// Runs the instructions whose outcome turns on the host: operators, truthiness, awaiting,
    /// the names of types, throwing, and stepping numbers.
    fn exec_host<H: VmHost>(&mut self, host: &mut H, instr: &Instruction) -> (r: Result<ExecutionResult, RaccoonError>)
        requires
            old(self).wf(),
            instr is BinaryOp || instr is CompoundAssign || instr is UnaryOp || instr is JumpIfFalse
                || instr is JumpIfTrue || instr is Conditional || instr is Await || instr is TypeOf
                || instr is InstanceOf || instr is Throw || instr is Increment || instr is Decrement,
        ensures
            final(self).wf(),
            old(self).frame_kept(*final(self)),
            executed(*instr, old(self).regs(), old(self).env(), r, final(self).regs(), final(self).env()),
            follows_truth(*instr, old(self).regs(), old(self).env(), final(self).last_truth(), r, final(self).regs(),
                final(self).env()),
    {
        let ghost r0 = self.regs();
        let ghost e0 = self.env();
        match instr {
            Instruction::BinaryOp { dest, left, right, op } => {
                let a = match self.get_register(left) {
                    Ok(v) => v,
                    Err(e) => return Err(e),
                };
                let b = match self.get_register(right) {
                    Ok(v) => v,
                    Err(e) => return Err(e),
                };
                match host.binary_op(a, b, *op) {
                    Ok(v) => {
                        let ghost gv = v;
                        self.set_register(dest, v);
                        proof { lemma_set_exact(r0, e0, dest@, gv, self.regs(), self.env()); }
                        Ok(ExecutionResult::Continue)
                    },
                    Err(e) => Err(e),
                }
            },
            Instruction::CompoundAssign { dest, src, op } => {
                let a = match self.get_register(dest) {
                    Ok(v) => v,
                    Err(e) => return Err(e),
                };
                let b = match self.get_register(src) {
                    Ok(v) => v,
                    Err(e) => return Err(e),
                };
                match host.binary_op(a, b, *op) {
                    Ok(v) => {
                        let ghost gv = v;
                        self.set_register(dest, v);
                        proof { lemma_set_exact(r0, e0, dest@, gv, self.regs(), self.env()); }
                        Ok(ExecutionResult::Continue)
                    },
                    Err(e) => Err(e),
                }
            },
            Instruction::UnaryOp { dest, operand, op } => {
                let v = match self.get_register(operand) {
                    Ok(v) => v,
                    Err(e) => return Err(e),
                };
                let result = match op {
                    UnaryOperator::Not => {
                        let t = host.is_truthy(&v);
                        RuntimeValue::Bool(!t)
                    },
                    UnaryOperator::Negate => match v {
                        RuntimeValue::Int(k) => RuntimeValue::Int(if k == i64::MIN { k } else { -k }),
                        RuntimeValue::Float(b) => RuntimeValue::Float(b ^ 0x8000_0000_0000_0000u64),
                        _ => return Err(RaccoonError::new("Cannot negate non-numeric value", (0, 0), None)),
                    },
                    UnaryOperator::BitwiseNot => match v {
                        RuntimeValue::Int(k) => RuntimeValue::Int(!k),
                        _ => return Err(RaccoonError::new("Cannot apply bitwise not to non-integer value", (0, 0), None)),
                    },
                };
                let ghost gv = result;
                self.set_register(dest, result);
                proof { lemma_set_exact(r0, e0, dest@, gv, self.regs(), self.env()); }
                Ok(ExecutionResult::Continue)
            },
            Instruction::JumpIfFalse { condition, label } => {
                let c = match self.get_register(condition) {
                    Ok(v) => v,
                    Err(e) => return Err(e),
                };
                let t = host.is_truthy(&c);
                self.answered = Ghost(Some(t));
                if !t {
                    Ok(ExecutionResult::Jump(label.clone()))
                } else {
                    Ok(ExecutionResult::Continue)
                }
            },
            Instruction::JumpIfTrue { condition, label } => {
                let c = match self.get_register(condition) {
                    Ok(v) => v,
                    Err(e) => return Err(e),
                };
                let t = host.is_truthy(&c);
                self.answered = Ghost(Some(t));
                if t {
                    Ok(ExecutionResult::Jump(label.clone()))
                } else {
                    Ok(ExecutionResult::Continue)
                }
            },
            Instruction::Conditional { dest, condition, then_val, else_val } => {
                let c = match self.get_register(condition) {
                    Ok(v) => v,
                    Err(e) => return Err(e),
                };
                let t = host.is_truthy(&c);
                let chosen = if t { then_val } else { else_val };
                match self.get_register(chosen) {
                    Ok(v) => {
                        let ghost orig = reg_read(r0, e0, chosen@)->Some_0;
                        self.set_register(dest, v);
                        self.answered = Ghost(Some(t));
                        proof { lemma_set_to(r0, e0, dest@, orig, v, self.regs(), self.env()); }
                        Ok(ExecutionResult::Continue)
                    },
                    Err(e) => Err(e),
                }
            },
            Instruction::Await { dest, future } => {
                let v = match self.get_register(future) {
                    Ok(v) => v,
                    Err(e) => return Err(e),
                };
                let ghost v0 = reg_read(r0, e0, future@)->Some_0;
                if let RuntimeValue::Future(_) = &v {
                    match host.wait(v) {
                        Ok(x) => {
                            let ghost gx = x;
                            self.set_register(dest, x);
                            proof { lemma_set_exact(r0, e0, dest@, gx, self.regs(), self.env()); }
                            Ok(ExecutionResult::Continue)
                        },
                        Err(msg) => {
                            let text = concat2("Await error: ", msg.as_str());
                            proof { lemma_prefix("Await error: "@, msg@); }
                            Err(RaccoonError::new(text.as_str(), (0, 0), None))
                        },
                    }
                } else {
                    self.set_register(dest, v);
                    proof { lemma_set_to(r0, e0, dest@, v0, v, self.regs(), self.env()); }
                    Ok(ExecutionResult::Continue)
                }
            },
            Instruction::TypeOf { dest, operand } => {
                let v = match self.get_register(operand) {
                    Ok(v) => v,
                    Err(e) => return Err(e),
                };
                let name = kind_name_of(host, &v);
                let result = RuntimeValue::Str(name);
                let ghost gv = result;
                self.set_register(dest, result);
                proof { lemma_set_exact(r0, e0, dest@, gv, self.regs(), self.env()); }
                Ok(ExecutionResult::Continue)
            },
            Instruction::InstanceOf { dest, operand, class_name } => {
                let v = match self.get_register(operand) {
                    Ok(v) => v,
                    Err(e) => return Err(e),
                };
                let name = kind_name_of(host, &v);
                let result = RuntimeValue::Bool(crate::text::str_eq(name.as_str(), class_name.as_str()));
                let ghost gv = result;
                self.set_register(dest, result);
                proof { lemma_set_exact(r0, e0, dest@, gv, self.regs(), self.env()); }
                Ok(ExecutionResult::Continue)
            },
            Instruction::Throw { value } => {
                let v = match self.get_register(value) {
                    Ok(v) => v,
                    Err(e) => return Err(e),
                };
                let shown = host.display(&v);
                let text = concat2("Thrown: ", shown.as_str());
                proof { lemma_prefix("Thrown: "@, shown@); }
                Err(RaccoonError::new(text.as_str(), (0, 0), None))
            },
            Instruction::Increment { dest, operand, is_prefix } | Instruction::Decrement { dest, operand, is_prefix } => {
                let up = matches!(instr, Instruction::Increment { .. });
                let v = match self.get_register(operand) {
                    Ok(v) => v,
                    Err(e) => return Err(e),
                };
                let (new_val, result) = match v {
                    RuntimeValue::Int(k) => {
                        let n = if up {
                            if k == i64::MAX { i64::MIN } else { k + 1 }
                        } else {
                            if k == i64::MIN { i64::MAX } else { k - 1 }
                        };
                        (RuntimeValue::Int(n), RuntimeValue::Int(if *is_prefix { n } else { k }))
                    },
                    RuntimeValue::Float(b) => {
                        let nb = host.float_step(b, up);
                        (RuntimeValue::Float(nb), RuntimeValue::Float(if *is_prefix { nb } else { b }))
                    },
                    _ => {
                        if up {
                            return Err(RaccoonError::new("Cannot increment non-numeric value", (0, 0), None));
                        } else {
                            return Err(RaccoonError::new("Cannot decrement non-numeric value", (0, 0), None));
                        }
                    },
                };
                let ghost gn = new_val;
                let ghost gr = result;
                proof {
                    lemma_wrote_none(r0, e0);
                    lemma_same_value_refl(gn);
                    lemma_same_value_refl(gr);
                }
                self.set_register(operand, new_val);
                let ghost r1 = self.regs();
                let ghost e1 = self.env();
                proof { lemma_wrote_push(r0, e0, Seq::empty(), r0, e0, operand@, gn, gn, r1, e1); }
                self.set_register(dest, result);
                proof {
                    lemma_wrote_push(r0, e0, Seq::empty().push((operand@, gn)), r1, e1, dest@, gr, gr, self.regs(), self.env());
                    assert(Seq::empty().push((operand@, gn)).push((dest@, gr)) =~= seq![(operand@, gn), (dest@, gr)]);
                    if let RuntimeValue::Float(b) = reg_read(r0, e0, operand@)->Some_0 {
                        assert(seq![(operand@, gn), (dest@, gr)] == float_step_writes(operand@, dest@, b, gn->Float_0, *is_prefix));
                    }
                }
                Ok(ExecutionResult::Continue)
            },
            _ => {
                assert(false);
                Ok(ExecutionResult::Continue)
            },
        }
    }

    /// Runs calls, `new`, and templates.
    fn exec_call<H: VmHost>(&mut self, host: &mut H, instr: &Instruction) -> (r: Result<ExecutionResult, RaccoonError>)
        requires
            old(self).wf(),
            instr is Call || instr is MethodCall || instr is NewInstance || instr is CreateTemplate
                || instr is TaggedTemplate,
        ensures
            final(self).wf(),
            old(self).frame_kept(*final(self)),
            executed(*instr, old(self).regs(), old(self).env(), r, final(self).regs(), final(self).env()),
    {
        let ghost r0 = self.regs();
        let ghost e0 = self.env();
        match instr {
            Instruction::Call { dest, callee, args } => {
                let f = match self.get_register(callee) {
                    Ok(v) => v,
                    Err(e) => return Err(e),
                };
                let vals = match self.read_regs(args) {
                    Ok(v) => v,
                    Err(e) => return Err(e),
                };
                match VM::call_function(host, f, vals) {
                    Ok(v) => {
                        let ghost gv = v;
                        self.set_register(dest, v);
                        proof { lemma_set_exact(r0, e0, dest@, gv, self.regs(), self.env()); }
                        Ok(ExecutionResult::Continue)
                    },
                    Err(e) => Err(e),
                }
            },
            Instruction::MethodCall { dest, object, method, args } => {
                let o = match self.get_register(object) {
                    Ok(v) => v,
                    Err(e) => return Err(e),
                };
                let vals = match self.read_regs(args) {
                    Ok(v) => v,
                    Err(e) => return Err(e),
                };
                let ghost o0 = reg_read(r0, e0, object@)->Some_0;
                proof {
                    if o0 is Object {
                        lemma_copied_object(o0, o);
                        assert(opt_same(prop_lookup(o0->Object_0.properties@, method@), prop_lookup(o->Object_0.properties@, method@)));
                    }
                }
                let result = VM::call_method(host, o, method.as_str(), vals);
                match result {
                    Ok(v) => {
                        let ghost gv = v;
                        self.set_register(dest, v);
                        proof { lemma_set_exact(r0, e0, dest@, gv, self.regs(), self.env()); }
                        Ok(ExecutionResult::Continue)
                    },
                    Err(e) => Err(e),
                }
            },
            Instruction::NewInstance { dest, class_name, args } => {
                match self.read_regs(args) {
                    Ok(_) => {},
                    Err(e) => return Err(e),
                }
                match self.environment.get(class_name.as_str(), (0, 0)) {
                    Ok(_) => {
                        let v = RuntimeValue::Object(ObjectValue { properties: Vec::new(), obj_type: any_type() });
                        let ghost gv = v;
                        self.set_register(dest, v);
                        proof { lemma_set_exact(r0, e0, dest@, gv, self.regs(), self.env()); }
                        Ok(ExecutionResult::Continue)
                    },
                    Err(e) => Err(e),
                }
            },
            Instruction::CreateTemplate { dest, parts } => {
                let regs = template_registers(parts);
                let vals = match self.read_regs(&regs) {
                    Ok(v) => v,
                    Err(e) => return Err(e),
                };
                let mut text = String::new();
                let mut i: usize = 0;
                let mut k: usize = 0;
                let total = vals.len();
                while i < parts.len()
                    invariant
                        i <= parts@.len(),
                        total == vals@.len(),
                        vals@.len() == template_regs(parts@).len(),
                        k == template_regs(parts@.subrange(0, i as int)).len(),
                    decreases parts@.len() - i,
                {
                    proof {
                        lemma_template_prefix(parts@, i + 1, parts@.len() as int);
                        assert(parts@.subrange(0, parts@.len() as int) =~= parts@);
                        assert(parts@.subrange(0, i + 1).drop_last() =~= parts@.subrange(0, i as int));
                    }
                    match &parts[i] {
                        TemplatePart::String(piece) => {
                            assert(parts@.subrange(0, i + 1).last() == parts@[i as int]);
                            text.append(piece.as_str());
                        },
                        TemplatePart::Expr(_) => {
                            assert(parts@.subrange(0, i + 1).last() == parts@[i as int]);
                            assert(template_regs(parts@.subrange(0, i + 1)).len() == k + 1);
                            let shown = host.display(&vals[k]);
                            text.append(shown.as_str());
                            k = k + 1;
                        },
                    }
                    i = i + 1;
                }
                let v = RuntimeValue::Str(text);
                let ghost gv = v;
                self.set_register(dest, v);
                proof { lemma_set_exact(r0, e0, dest@, gv, self.regs(), self.env()); }
                Ok(ExecutionResult::Continue)
            },
            Instruction::TaggedTemplate { dest, tag, parts, expressions } => {
                match self.get_register(tag) {
                    Ok(_) => {},
                    Err(e) => return Err(e),
                }
                let vals = match self.read_regs(expressions) {
                    Ok(v) => v,
                    Err(e) => return Err(e),
                };
                let mut text = String::new();
                let mut i: usize = 0;
                while i < parts.len()
                    invariant
                        i <= parts@.len(),
                    decreases parts@.len() - i,
                {
                    text.append(parts[i].as_str());
                    if i < vals.len() {
                        let shown = host.display(&vals[i]);
                        text.append(shown.as_str());
                    }
                    i = i + 1;
                }
                let v = RuntimeValue::Str(text);
                let ghost gv = v;
                self.set_register(dest, v);
                proof { lemma_set_exact(r0, e0, dest@, gv, self.regs(), self.env()); }
                Ok(ExecutionResult::Continue)
            },
            _ => {
                assert(false);
                Ok(ExecutionResult::Continue)
            },
        }
    }


    /// Runs the instructions that run blocks of instructions of their own: `match` arms, loops
    /// over objects and lists, and `try`.
    fn exec_nested<H: VmHost>(&mut self, host: &mut H, instr: &Instruction) -> (r: Result<ExecutionResult, RaccoonError>)
        requires
            old(self).wf(),
            instr is Match || instr is ForIn || instr is ForOf || instr is TryCatch,
        ensures
            final(self).wf(),
            old(self).frame_kept(*final(self)),
            executed(*instr, old(self).regs(), old(self).env(), r, final(self).regs(), final(self).env()),
    {
        let ghost r0 = self.regs();
        let ghost e0 = self.env();
        match instr {
            Instruction::Match { dest, scrutinee, arms } => {
                let v = match self.get_register(scrutinee) {
                    Ok(v) => v,
                    Err(e) => return Err(e),
                };
                let mut i: usize = 0;
                while i < arms.len()
                    invariant
                        i <= arms@.len(),
                        *self == *old(self),
                        self.wf(),
                        r0 == self.regs(),
                        e0 == self.env(),
                        *instr == (Instruction::Match { dest: *dest, scrutinee: *scrutinee, arms: *arms }),
                        reg_read(r0, e0, scrutinee@) is Some,
                    decreases arms@.len() - i,
                {
                    let arm = &arms[i];
                    if matches_pattern(host, &v, &arm.pattern) {
                        let guard_ok = match &arm.guard {
                            Some(g) => match self.get_register(g) {
                                Ok(gv) => host.is_truthy(&gv),
                                Err(e) => return Err(e),
                            },
                            None => true,
                        };
                        if guard_ok {
                            let result = match host.run(self.environment.copy(), &arm.body) {
                                Ok(x) => x,
                                Err(e) => return Err(e),
                            };
                            let ghost gv = result;
                            self.set_register(dest, result);
                            proof { lemma_set_exact(r0, e0, dest@, gv, self.regs(), self.env()); }
                            return Ok(ExecutionResult::Continue);
                        }
                    }
                    i = i + 1;
                }
                Err(RaccoonError::new("No matching pattern in match expression", (0, 0), None))
            },
            Instruction::ForIn { variable, object, body } => {
                let o = match self.get_register(object) {
                    Ok(v) => v,
                    Err(e) => return Err(e),
                };
                match o {
                    RuntimeValue::Object(ov) => {
                        let mut i: usize = 0;
                        while i < ov.properties.len()
                            invariant
                                *self == *old(self),
                                self.wf(),
                                *instr == (Instruction::ForIn { variable: *variable, object: *object, body: *body }),
                                reg_read(r0, e0, object@) matches Some(RuntimeValue::Object(_)),
                                r0 == self.regs(),
                                e0 == self.env(),
                            decreases ov.properties@.len() - i,
                        {
                            let mut env = self.environment.copy();
                            env.push_scope();
                            let key = RuntimeValue::Str(ov.properties[i].key.clone());
                            match env.declare(variable.clone(), key) {
                                Ok(()) => {},
                                Err(e) => return Err(e),
                            }
                            match host.run(env, body) {
                                Ok(_) => {},
                                Err(e) => return Err(e),
                            }
                            i = i + 1;
                        }
                        Ok(ExecutionResult::Continue)
                    },
                    RuntimeValue::List(l) => {
                        let mut i: usize = 0;
                        while i < l.elements.len()
                            invariant
                                *self == *old(self),
                                self.wf(),
                                *instr == (Instruction::ForIn { variable: *variable, object: *object, body: *body }),
                                reg_read(r0, e0, object@) matches Some(RuntimeValue::List(_)),
                                r0 == self.regs(),
                                e0 == self.env(),
                            decreases l.elements@.len() - i,
                        {
                            let mut env = self.environment.copy();
                            env.push_scope();
                            let index = RuntimeValue::Int(#[verifier::truncate] (i as i64));
                            match env.declare(variable.clone(), index) {
                                Ok(()) => {},
                                Err(e) => return Err(e),
                            }
                            match host.run(env, body) {
                                Ok(_) => {},
                                Err(e) => return Err(e),
                            }
                            i = i + 1;
                        }
                        Ok(ExecutionResult::Continue)
                    },
                    _ => Err(RaccoonError::new("for-in requires object or array", (0, 0), None)),
                }
            },
            Instruction::ForOf { variable, iterable, body } => {
                let o = match self.get_register(iterable) {
                    Ok(v) => v,
                    Err(e) => return Err(e),
                };
                match o {
                    RuntimeValue::List(l) => {
                        let mut i: usize = 0;
                        while i < l.elements.len()
                            invariant
                                *self == *old(self),
                                self.wf(),
                                *instr == (Instruction::ForOf { variable: *variable, iterable: *iterable, body: *body }),
                                reg_read(r0, e0, iterable@) matches Some(RuntimeValue::List(_)),
                                r0 == self.regs(),
                                e0 == self.env(),
                            decreases l.elements@.len() - i,
                        {
                            let mut env = self.environment.copy();
                            env.push_scope();
                            match env.declare(variable.clone(), l.elements[i].copy()) {
                                Ok(()) => {},
                                Err(e) => return Err(e),
                            }
                            match host.run(env, body) {
                                Ok(_) => {},
                                Err(e) => return Err(e),
                            }
                            i = i + 1;
                        }
                        Ok(ExecutionResult::Continue)
                    },
                    _ => Err(RaccoonError::new("for-of requires iterable", (0, 0), None)),
                }
            },
            Instruction::TryCatch { try_body, catch_handler, finally_body } => {
                match host.run(self.environment.copy(), try_body) {
                    Ok(_) => {},
                    Err(error) => match catch_handler {
                        Some(h) => {
                            let n = h.name.clone();
                            let ghost gn = n;
                            let msg = RuntimeValue::Str(error.message);
                            let ghost gm = msg;
                            match self.environment.declare(n, msg) {
                                Ok(()) => {
                                    assert(self.env().drop_last() =~= e0.drop_last());
                                    assert(self.env().last() == e0.last().push(Binding { name: gn, value: gm }));
                                    assert(self.env().last().drop_last() =~= e0.last());
                                },
                                Err(e) => return Err(e),
                            }
                            match host.run(self.environment.copy(), &h.body) {
                                Ok(_) => {},
                                Err(e) => return Err(e),
                            }
                        },
                        None => return Err(error),
                    },
                }
                match finally_body {
                    Some(block) => match host.run(self.environment.copy(), block) {
                        Ok(_) => {},
                        Err(e) => return Err(e),
                    },
                    None => {},
                }
                Ok(ExecutionResult::Continue)
            },
            _ => {
                assert(false);
                Ok(ExecutionResult::Continue)
            },
        }
    }


    /// Runs one instruction.
    pub fn execute_instruction<H: VmHost>(&mut self, host: &mut H, instr: &Instruction) -> (r: Result<ExecutionResult, RaccoonError>)
        requires
            old(self).wf(),
            !panics(old(self).regs(), old(self).env(), *instr),
        ensures
            final(self).wf(),
            old(self).frame_kept(*final(self)),
            executed(*instr, old(self).regs(), old(self).env(), r, final(self).regs(), final(self).env()),
            follows_truth(*instr, old(self).regs(), old(self).env(), final(self).last_truth(), r, final(self).regs(),
                final(self).env()),
    {
        match instr {
            Instruction::LoadConst { .. } | Instruction::Move { .. } | Instruction::Spread { .. }
            | Instruction::SpreadArray { .. } | Instruction::SpreadObject { .. } | Instruction::SpreadCall { .. }
            | Instruction::GetIterator { .. } | Instruction::Declare { .. } | Instruction::Store { .. }
            | Instruction::Load { .. } | Instruction::Return { .. } | Instruction::Yield { .. }
            | Instruction::Jump { .. } | Instruction::Label { .. } | Instruction::Nop | Instruction::Comment { .. }
            | Instruction::Break | Instruction::Continue | Instruction::Export { .. } | Instruction::Catch { .. }
            | Instruction::Finally { .. } | Instruction::CreateFunction { .. } | Instruction::CreateClass { .. }
            | Instruction::PushScope | Instruction::PopScope | Instruction::CallSuper { .. }
            | Instruction::CreateGenerator { .. } | Instruction::Import { .. } | Instruction::LoadThis { .. }
            | Instruction::NullAssert { .. } => self.exec_basic(instr),
            Instruction::CreateArray { .. } | Instruction::LoadIndex { .. } | Instruction::StoreIndex { .. }
            | Instruction::DestructureArray { .. } => self.exec_list(instr),
            Instruction::CreateObject { .. } => self.exec_create_object(instr),
            Instruction::LoadProperty { .. } | Instruction::OptionalChain { .. } => self.exec_load_property(instr),
            Instruction::StoreProperty { .. } => self.exec_store_property(instr),
            Instruction::DestructureObject { .. } => self.exec_destructure_object(instr),
            Instruction::CreateRange { .. } | Instruction::IteratorNext { .. } | Instruction::DeleteProperty { .. }
            | Instruction::In { .. } | Instruction::NullCoalesce { .. } => self.exec_misc(instr),
            Instruction::BinaryOp { .. } | Instruction::CompoundAssign { .. } | Instruction::UnaryOp { .. }
            | Instruction::JumpIfFalse { .. } | Instruction::JumpIfTrue { .. } | Instruction::Conditional { .. }
            | Instruction::Await { .. } | Instruction::TypeOf { .. } | Instruction::InstanceOf { .. }
            | Instruction::Throw { .. } | Instruction::Increment { .. } | Instruction::Decrement { .. } => self.exec_host(
                host,
                instr,
            ),
            Instruction::Call { .. } | Instruction::MethodCall { .. } | Instruction::NewInstance { .. }
            | Instruction::CreateTemplate { .. } | Instruction::TaggedTemplate { .. } => self.exec_call(host, instr),
            Instruction::Match { .. } | Instruction::ForIn { .. } | Instruction::ForOf { .. }
            | Instruction::TryCatch { .. } => self.exec_nested(host, instr),
        }
    }

    /// Loads `program` and sets the counter to its first instruction.
    pub fn load(&mut self, program: IRProgram)
        requires
            old(self).wf(),
        ensures
            final(self).wf(),
            final(self).loaded() == Some(program),
            final(self).counter() == 0,
            final(self).regs() == old(self).regs(),
            final(self).env() == old(self).env(),
            final(self).env_file() == old(self).env_file(),
    {
        self.program = Some(program);
        self.pc = 0;
    }

    /// The position recorded for `label` in the loaded program.
    pub fn resolve_label(&self, label: &str) -> (r: Option<usize>)
        ensures
            r == match self.loaded() {
                Some(p) => label_lookup(p.labels@, label@),
                None => None,
            },
    {
        match &self.program {
            Some(p) => find_label(&p.labels, label),
            None => None,
        }
    }

    /// The number of instructions of the loaded program; none without one.
    pub fn get_program_len(&self) -> (n: usize)
        ensures
            n == match self.loaded() {
                Some(p) => p.instructions@.len(),
                None => 0,
            },
    {
        match &self.program {
            Some(p) => p.instructions.len(),
            None => 0,
        }
    }

    /// The instruction at the counter would panic if run.
    pub closed spec fn next_panics(&self) -> bool {
        match self.program {
            Some(p) => self.pc < p.instructions@.len() && panics(
                self.registers@,
                self.environment.view(),
                p.instructions@[self.pc as int],
            ),
            None => false,
        }
    }

    /// Tells whether the instruction at the counter would panic if run: it destructures a list
    /// into more registers than the list has elements while binding the rest.
    pub fn next_would_panic(&self) -> (b: bool)
        ensures
            b == self.next_panics(),
    {
        match &self.program {
            Some(p) => {
                if self.pc >= p.instructions.len() {
                    return false;
                }
                match &p.instructions[self.pc] {
                    Instruction::DestructureArray { dests, src, has_rest, rest_dest } => {
                        if !*has_rest || rest_dest.is_none() {
                            return false;
                        }
                        match self.get_register(src) {
                            Ok(RuntimeValue::List(l)) => dests.len() > l.elements.len(),
                            _ => false,
                        }
                    },
                    _ => false,
                }
            },
            None => false,
        }
    }

    /// Runs the instruction at the counter: past the end of the program (or without one) the
    /// run is finished with `null`; otherwise the counter moves past the instruction, and then
    /// to the label it jumps to, and a returned value finishes the run.
    pub fn step<H: VmHost>(&mut self, host: &mut H) -> (r: Result<Step, RaccoonError>)
        requires
            old(self).wf(),
            !old(self).next_panics(),
        ensures
            final(self).wf(),
            final(self).loaded() == old(self).loaded(),
            final(self).env_file() == old(self).env_file(),
            match old(self).loaded() {
                Some(p) => if old(self).counter() < p.instructions@.len() {
                    exists|res: Result<ExecutionResult, RaccoonError>| executed(
                        p.instructions@[old(self).counter() as int],
                        old(self).regs(),
                        old(self).env(),
                        res,
                        final(self).regs(),
                        final(self).env(),
                    ) && #[trigger] stepped(p.labels@, old(self).counter(), res, r, final(self).counter())
                } else {
                    &&& r matches Ok(Step::Finished(RuntimeValue::Null))
                    &&& unchanged(old(self).regs(), old(self).env(), final(self).regs(), final(self).env())
                    &&& final(self).counter() == old(self).counter()
                },
                None => {
                    &&& r matches Ok(Step::Finished(RuntimeValue::Null))
                    &&& unchanged(old(self).regs(), old(self).env(), final(self).regs(), final(self).env())
                    &&& final(self).counter() == old(self).counter()
                },
            },
    {
        let program = match self.program.take() {
            Some(p) => p,
            None => return Ok(Step::Finished(RuntimeValue::Null)),
        };
        if self.pc >= program.instructions.len() {
            self.program = Some(program);
            return Ok(Step::Finished(RuntimeValue::Null));
        }
        let pc = self.pc;
        self.pc = pc + 1;
        assert(self.regs() == old(self).regs() && self.env() == old(self).env());
        let res = self.execute_instruction(host, &program.instructions[pc]);
        let ghost regs1 = self.regs();
        let ghost env1 = self.env();
        let ghost gres = res;
        let r = match res {
            Ok(ExecutionResult::Continue) => Ok(Step::Running),
            Ok(ExecutionResult::Outside) => Ok(Step::Outside),
            Ok(ExecutionResult::Return(v)) => Ok(Step::Finished(v)),
            Ok(ExecutionResult::Jump(label)) => match find_label(&program.labels, label.as_str()) {
                Some(pos) => {
                    self.pc = pos;
                    Ok(Step::Running)
                },
                None => {
                    let msg = concat2("Unknown label: ", label.as_str());
                    Err(RaccoonError::new(msg.as_str(), (0, 0), None))
                },
            },
            Err(e) => Err(e),
        };
        self.program = Some(program);
        assert(self.regs() == regs1 && self.env() == env1);
        assert(executed(program.instructions@[pc as int], old(self).regs(), old(self).env(), gres, self.regs(), self.env()));
        assert(stepped(self.program->Some_0.labels@, pc, gres, r, self.pc));
        assert(old(self).loaded() == self.loaded());
        assert(stepped(old(self).loaded()->Some_0.labels@, old(self).counter(), gres, r, self.counter()));
        assert(executed(
            old(self).loaded()->Some_0.instructions@[old(self).counter() as int],
            old(self).regs(),
            old(self).env(),
            gres,
            self.regs(),
            self.env(),
        ));
        r
    }


    /// Calls a function value: one of the library's own native functions by running it, any
    /// other native one through the host; anything else fails.
    fn call_function<H: VmHost>(host: &mut H, callee: RuntimeValue, args: Vec<RuntimeValue>) -> (r: Result<RuntimeValue, RaccoonError>)
        ensures
            (callee is NativeFunction || callee is NativeAsyncFunction) ==> r is Ok,
            (callee matches RuntimeValue::NativeFunction(nf) && is_pure_builtin(nf.implementation)
                && builtin_defined(nf.implementation, args@)) ==> (r matches Ok(v)
                && builtin_call(callee->NativeFunction_0.implementation, &args, v)),
            !(callee is NativeFunction || callee is NativeAsyncFunction) ==> (r matches Err(e) && e.message@
                == "Cannot call non-function value"@ && e.position == (0usize, 0usize) && e.file is None),
    {
        match callee {
            RuntimeValue::NativeFunction(nf) => match call_builtin(nf.implementation, &args) {
                Some(v) => Ok(v),
                None => Ok(host.call_native(nf.implementation, false, args)),
            },
            RuntimeValue::NativeAsyncFunction(nf) => Ok(host.call_native(nf.implementation, true, args)),
            _ => Err(RaccoonError::new("Cannot call non-function value", (0, 0), None)),
        }
    }

    /// Calls the method `method` of `object`: an object's property of that name as a function;
    /// a method of a string, map, number or boolean through the host; anything else fails.
    fn call_method<H: VmHost>(host: &mut H, object: RuntimeValue, method: &str, args: Vec<RuntimeValue>) -> (r: Result<RuntimeValue, RaccoonError>)
        ensures
            match object {
                RuntimeValue::Object(ov) => match prop_lookup(ov.properties@, method@) {
                    Some(f) => if f is NativeFunction || f is NativeAsyncFunction {
                        r is Ok
                    } else {
                        r matches Err(e) && e.message@ == "Cannot call non-function value"@
                            && e.position == (0usize, 0usize) && e.file is None
                    },
                    None => r matches Err(e) && e.message@ == "Method '"@ + method@ + "' not found"@
                        && e.position == (0usize, 0usize) && e.file is None,
                },
                RuntimeValue::Str(_) | RuntimeValue::MapVal(_) | RuntimeValue::Int(_) | RuntimeValue::Float(_)
                | RuntimeValue::Bool(_) => true,
                _ => r matches Err(e) && e.message@ == "Cannot call method on non-object type"@
                    && e.position == (0usize, 0usize) && e.file is None,
            },
    {
        match object {
            RuntimeValue::Object(ov) => {
                match get_property(&ov.properties, method) {
                    Some(f) => VM::call_function(host, f, args),
                    None => {
                        let t = concat2("Method '", method);
                        let msg = concat2(t.as_str(), "' not found");
                        Err(RaccoonError::new(msg.as_str(), (0, 0), None))
                    },
                }
            },
            RuntimeValue::Str(_) | RuntimeValue::MapVal(_) | RuntimeValue::Int(_) | RuntimeValue::Float(_)
            | RuntimeValue::Bool(_) => host.call_instance_method(object, method, args),
            _ => Err(RaccoonError::new("Cannot call method on non-object type", (0, 0), None)),
        }
    }

}

/// A conditional that the machine ran writes to its destination a copy of the value of its
/// then-register when the host found the condition truthy, and of its else-register when it
/// did not; no other register changes.
pub proof fn law_conditional_follows_truth(
    dest: Register,
    condition: Register,
    then_val: Register,
    else_val: Register,
    regs0: Seq<RegisterSlot>,
    env0: Seq<Seq<Binding>>,
    t: bool,
    r: Result<ExecutionResult, RaccoonError>,
    regs1: Seq<RegisterSlot>,
    env1: Seq<Seq<Binding>>,
)
    requires
        follows_truth(Instruction::Conditional { dest, condition, then_val, else_val }, regs0, env0, Some(t), r, regs1, env1),
        r is Ok,
    ensures
        t ==> (reg_read(regs0, env0, then_val@) matches Some(a) && slot_lookup(regs1, dest@) matches Some(w) && same_value(a, w)),
        !t ==> (reg_read(regs0, env0, else_val@) matches Some(b) && slot_lookup(regs1, dest@) matches Some(w) && same_value(b, w)),
        forall|o: RegisterView| o != dest@ ==> #[trigger] slot_lookup(regs1, o) == slot_lookup(regs0, o),
{
    let v = reg_read(regs0, env0, if t { then_val@ } else { else_val@ })->Some_0;
    assert(last_write(seq![(dest@, v)], dest@) == Some(v));
    assert forall|o: RegisterView| o != dest@ implies #[trigger] slot_lookup(regs1, o) == slot_lookup(regs0, o) by {
        let ws = seq![(dest@, v)];
        assert(ws.drop_last() =~= Seq::<(RegisterView, RuntimeValue)>::empty());
        assert(last_write(ws.drop_last(), o) is None);
        assert(last_write(ws, o) is None);
    }
}

/// A jump-if-false that the machine ran jumps to its label exactly when the host found the
/// condition not truthy, and a jump-if-true exactly when it found it truthy; otherwise the
/// machine goes on with the next instruction.
pub proof fn law_conditional_jumps_follow_truth(
    i: Instruction,
    regs0: Seq<RegisterSlot>,
    env0: Seq<Seq<Binding>>,
    t: bool,
    r: Result<ExecutionResult, RaccoonError>,
    regs1: Seq<RegisterSlot>,
    env1: Seq<Seq<Binding>>,
)
    requires
        i is JumpIfFalse || i is JumpIfTrue,
        follows_truth(i, regs0, env0, Some(t), r, regs1, env1),
        r is Ok,
    ensures
        (r matches Ok(ExecutionResult::Jump(_))) <==> (if i is JumpIfFalse { !t } else { t }),
        (r matches Ok(ExecutionResult::Continue)) <==> (if i is JumpIfFalse { t } else { !t }),
{
}

/// The jump that a compiled `if` places after its condition, when the machine runs it, goes
/// on into the then branch when the host finds the condition truthy and jumps to the label
/// that opens the else branch when it does not.
pub proof fn law_if_takes_then_iff_truthy(
    ins: Seq<Instruction>,
    n0: int,
    k: int,
    m: int,
    regs0: Seq<RegisterSlot>,
    env0: Seq<Seq<Binding>>,
    t: bool,
    r: Result<ExecutionResult, RaccoonError>,
    regs1: Seq<RegisterSlot>,
    env1: Seq<Seq<Binding>>,
)
    requires
        if_shape(ins, n0, k, m),
        follows_truth(ins[k], regs0, env0, Some(t), r, regs1, env1),
        r is Ok,
    ensures
        t ==> r matches Ok(ExecutionResult::Continue),
        !t ==> (r matches Ok(ExecutionResult::Jump(l)) && l@ == ins[m]->Label_name@),
{
}

/// The jump that a compiled `while` places after its condition, when the machine runs it,
/// goes on into the body when the host finds the condition truthy and jumps to the end label,
/// the last instruction of the loop's code, when it does not.
pub proof fn law_while_runs_body_iff_truthy(
    ins: Seq<Instruction>,
    n0: int,
    k: int,
    regs0: Seq<RegisterSlot>,
    env0: Seq<Seq<Binding>>,
    t: bool,
    r: Result<ExecutionResult, RaccoonError>,
    regs1: Seq<RegisterSlot>,
    env1: Seq<Seq<Binding>>,
)
    requires
        while_shape(ins, n0, k),
        follows_truth(ins[k], regs0, env0, Some(t), r, regs1, env1),
        r is Ok,
    ensures
        t ==> r matches Ok(ExecutionResult::Continue),
        !t ==> (r matches Ok(ExecutionResult::Jump(l)) && l@ == ins.last()->Label_name@),
{
}

} // verus!
