//! The instruction set of the intermediate representation, and a program under construction.
use vstd::prelude::*;
use crate::runtime::values::RuntimeValue;
use crate::text::str_eq;
use crate::tokens::{BinaryOperator, UnaryOperator};

verus! {

/// A register: a numbered temporary, a local variable or a global variable.
#[derive(Debug)]
pub enum Register {
    Temp(usize),
    Local(String),
    Global(String),
}

impl Register {
    /// A copy of the register.
    pub fn copy(&self) -> (r: Register)
        ensures
            r == *self,
    {
        match self {
            Register::Temp(n) => Register::Temp(*n),
            Register::Local(s) => Register::Local(s.clone()),
            Register::Global(s) => Register::Global(s.clone()),
        }
    }

    /// The two registers are the same register.
    pub fn same(&self, other: &Register) -> (b: bool)
        ensures
            b == (self.view() == other.view()),
    {
        match (self, other) {
            (Register::Temp(a), Register::Temp(b)) => *a == *b,
            (Register::Local(a), Register::Local(b)) => str_eq(a.as_str(), b.as_str()),
            (Register::Global(a), Register::Global(b)) => str_eq(a.as_str(), b.as_str()),
            _ => false,
        }
    }

    /// The register with its names as character sequences.
    pub open spec fn view(&self) -> RegisterView {
        match self {
            Register::Temp(n) => RegisterView::Temp(*n),
            Register::Local(s) => RegisterView::Local(s@),
            Register::Global(s) => RegisterView::Global(s@),
        }
    }
}

/// What identifies a register.
pub enum RegisterView {
    Temp(usize),
    Local(Seq<char>),
    Global(Seq<char>),
}

/// A label and the position of the instruction it names.
#[derive(Debug)]
pub struct LabelEntry {
    pub name: String,
    pub position: usize,
}

/// The position recorded last for the label `name`.
pub open spec fn label_lookup(s: Seq<LabelEntry>, name: Seq<char>) -> Option<usize>
    decreases s.len(),
{
    if s.len() == 0 {
        None
    } else if s.last().name@ == name {
        Some(s.last().position)
    } else {
        label_lookup(s.drop_last(), name)
    }
}

/// The position recorded for the label `name`.
pub fn find_label(s: &Vec<LabelEntry>, name: &str) -> (r: Option<usize>)
    ensures
        r == label_lookup(s@, name@),
{
    let mut k = s.len();
    assert(s@.subrange(0, k as int) =~= s@);
    while k > 0
        invariant
            k <= s@.len(),
            label_lookup(s@, name@) == label_lookup(s@.subrange(0, k as int), name@),
        decreases k,
    {
        let ghost p = s@.subrange(0, k as int);
        assert(p.drop_last() =~= s@.subrange(0, k - 1));
        if str_eq(s[k - 1].name.as_str(), name) {
            return Some(s[k - 1].position);
        }
        k = k - 1;
    }
    assert(s@.subrange(0, 0) =~= Seq::<LabelEntry>::empty());
    None
}

/// A piece of a template string: literal text or a register holding a value.
#[derive(Debug)]
pub enum TemplatePart {
    String(String),
    Expr(Register),
}

/// One arm of a `match`: its pattern, an optional guard and its body.
#[derive(Debug)]
pub struct MatchArm {
    pub pattern: MatchPattern,
    pub guard: Option<Register>,
    pub body: Vec<Instruction>,
}

/// A pattern of a `match` arm.
#[derive(Debug)]
pub enum MatchPattern {
    Wildcard,
    Literal(RuntimeValue),
    Range(RuntimeValue, RuntimeValue),
    Variable(String),
    Array(Vec<MatchPattern>),
    Object(Vec<FieldPattern>),
    Or(Vec<MatchPattern>),
}

/// A field of an object pattern.
#[derive(Debug)]
pub struct FieldPattern {
    pub key: String,
    pub pattern: MatchPattern,
}

/// A property name and the register that holds its value.
#[derive(Debug)]
pub struct PropertyReg {
    pub name: String,
    pub reg: Register,
}

/// A `catch` clause: the name bound to the error and the handler's body.
#[derive(Debug)]
pub struct CatchHandler {
    pub name: String,
    pub body: Vec<Instruction>,
}

/// A class constructor: its parameters and body.
#[derive(Debug)]
pub struct ConstructorBody {
    pub params: Vec<String>,
    pub body: Vec<Instruction>,
}

/// A class method as compiled: name, parameters, body, the body's labels, and whether it
/// is asynchronous.
#[derive(Debug)]
pub struct MethodBody {
    pub name: String,
    pub params: Vec<String>,
    pub body: Vec<Instruction>,
    pub labels: Vec<LabelEntry>,
    pub is_async: bool,
}

/// An instruction.
#[derive(Debug)]
pub enum Instruction {
    LoadConst { dest: Register, value: RuntimeValue },
    Move { dest: Register, src: Register },
    Declare { name: String, is_const: bool },
    Store { name: String, src: Register },
    Load { dest: Register, name: String },
    BinaryOp { dest: Register, left: Register, right: Register, op: BinaryOperator },
    UnaryOp { dest: Register, operand: Register, op: UnaryOperator },
    Jump { label: String },
    JumpIfFalse { condition: Register, label: String },
    JumpIfTrue { condition: Register, label: String },
    Label { name: String },
    Call { dest: Register, callee: Register, args: Vec<Register> },
    Return { value: Option<Register> },
    CreateFunction {
        dest: Register,
        name: String,
        params: Vec<String>,
        body: Vec<Instruction>,
        labels: Vec<LabelEntry>,
        is_async: bool,
    },
    CreateArray { dest: Register, elements: Vec<Register> },
    LoadIndex { dest: Register, array: Register, index: Register },
    StoreIndex { array: Register, index: Register, value: Register },
    CreateObject { dest: Register, properties: Vec<PropertyReg> },
    LoadProperty { dest: Register, object: Register, property: String },
    StoreProperty { object: Register, property: String, value: Register },
    MethodCall { dest: Register, object: Register, method: String, args: Vec<Register> },
    NewInstance { dest: Register, class_name: String, args: Vec<Register> },
    Await { dest: Register, future: Register },
    TypeOf { dest: Register, operand: Register },
    InstanceOf { dest: Register, operand: Register, class_name: String },
    Throw { value: Register },
    Nop,
    Comment { text: String },
    DestructureArray { dests: Vec<Register>, src: Register, has_rest: bool, rest_dest: Option<Register> },
    DestructureObject { mappings: Vec<PropertyReg>, src: Register, rest_dest: Option<Register> },
    Increment { dest: Register, operand: Register, is_prefix: bool },
    Decrement { dest: Register, operand: Register, is_prefix: bool },
    CreateTemplate { dest: Register, parts: Vec<TemplatePart> },
    Match { dest: Register, scrutinee: Register, arms: Vec<MatchArm> },
    CreateRange { dest: Register, start: Register, end: Register },
    Spread { dest: Register, operand: Register },
    Conditional { dest: Register, condition: Register, then_val: Register, else_val: Register },
    NullCoalesce { dest: Register, left: Register, right: Register },
    OptionalChain { dest: Register, object: Register, property: String },
    PushScope,
    PopScope,
    Break,
    Continue,
    TryCatch {
        try_body: Vec<Instruction>,
        catch_handler: Option<CatchHandler>,
        finally_body: Option<Vec<Instruction>>,
    },
    CreateClass {
        name: String,
        constructor: Option<ConstructorBody>,
        methods: Vec<MethodBody>,
        properties: Vec<PropertyReg>,
    },
    LoadThis { dest: Register },
    CallSuper { dest: Register, method: String, args: Vec<Register> },
    SpreadArray { dest: Register, operand: Register },
    SpreadObject { dest: Register, operand: Register },
    SpreadCall { dest: Register, operand: Register },
    Import { dest: Register, path: String, items: Vec<String> },
    Export { name: String, value: Register },
    ForIn { variable: String, object: Register, body: Vec<Instruction> },
    ForOf { variable: String, iterable: Register, body: Vec<Instruction> },
    CompoundAssign { dest: Register, src: Register, op: BinaryOperator },
    GetIterator { dest: Register, iterable: Register },
    IteratorNext { dest: Register, iterator: Register },
    Yield { value: Option<Register> },
    CreateGenerator { dest: Register, name: String, params: Vec<String>, body: Vec<Instruction> },
    Catch { dest: Register, promise: Register, handler: Vec<Instruction> },
    Finally { block: Vec<Instruction> },
    TaggedTemplate { dest: Register, tag: Register, parts: Vec<String>, expressions: Vec<Register> },
    NullAssert { dest: Register, value: Register },
    DeleteProperty { dest: Register, object: Register, property: String },
    In { dest: Register, property: String, object: Register },
}

/// Instructions that change where control goes next.
pub open spec fn control_flow_spec(i: Instruction) -> bool {
    match i {
        Instruction::Jump { .. } | Instruction::JumpIfFalse { .. } | Instruction::JumpIfTrue { .. }
        | Instruction::Return { .. } | Instruction::Throw { .. } | Instruction::Break
        | Instruction::Continue | Instruction::TryCatch { .. } | Instruction::ForIn { .. }
        | Instruction::ForOf { .. } => true,
        _ => false,
    }
}

/// Instructions with an effect beyond their destination register.
pub open spec fn side_effects_spec(i: Instruction) -> bool {
    match i {
        Instruction::Store { .. } | Instruction::StoreIndex { .. } | Instruction::StoreProperty { .. }
        | Instruction::Call { .. } | Instruction::MethodCall { .. } | Instruction::Throw { .. }
        | Instruction::Declare { .. } => true,
        _ => false,
    }
}

/// The register an instruction writes its result to, if it has one.
pub open spec fn dest_spec(i: Instruction) -> Option<Register> {
    match i {
        Instruction::LoadConst { dest, .. } | Instruction::Move { dest, .. } | Instruction::Load { dest, .. }
        | Instruction::BinaryOp { dest, .. } | Instruction::UnaryOp { dest, .. } | Instruction::Call { dest, .. }
        | Instruction::CreateFunction { dest, .. } | Instruction::CreateArray { dest, .. }
        | Instruction::LoadIndex { dest, .. } | Instruction::CreateObject { dest, .. }
        | Instruction::LoadProperty { dest, .. } | Instruction::MethodCall { dest, .. }
        | Instruction::NewInstance { dest, .. } | Instruction::Await { dest, .. } | Instruction::TypeOf { dest, .. }
        | Instruction::InstanceOf { dest, .. } | Instruction::Increment { dest, .. }
        | Instruction::Decrement { dest, .. } | Instruction::CreateTemplate { dest, .. }
        | Instruction::Match { dest, .. } | Instruction::CreateRange { dest, .. } | Instruction::Spread { dest, .. }
        | Instruction::Conditional { dest, .. } | Instruction::NullCoalesce { dest, .. }
        | Instruction::OptionalChain { dest, .. } | Instruction::LoadThis { dest }
        | Instruction::CallSuper { dest, .. } | Instruction::SpreadArray { dest, .. }
        | Instruction::SpreadObject { dest, .. } | Instruction::SpreadCall { dest, .. }
        | Instruction::Import { dest, .. } | Instruction::GetIterator { dest, .. }
        | Instruction::IteratorNext { dest, .. } | Instruction::CreateGenerator { dest, .. }
        | Instruction::TaggedTemplate { dest, .. } | Instruction::NullAssert { dest, .. }
        | Instruction::DeleteProperty { dest, .. } | Instruction::In { dest, .. } => Some(dest),
        _ => None,
    }
}

/// The registers holding the values of a template's expression parts, in order.
pub open spec fn template_regs(parts: Seq<TemplatePart>) -> Seq<Register>
    decreases parts.len(),
{
    if parts.len() == 0 {
        Seq::empty()
    } else {
        template_regs(parts.drop_last()) + match parts.last() {
            TemplatePart::Expr(r) => seq![r],
            TemplatePart::String(_) => Seq::empty(),
        }
    }
}

/// The guard registers of a match's arms, in order.
pub open spec fn guard_regs(arms: Seq<MatchArm>) -> Seq<Register>
    decreases arms.len(),
{
    if arms.len() == 0 {
        Seq::empty()
    } else {
        guard_regs(arms.drop_last()) + match arms.last().guard {
            Some(g) => seq![g],
            None => Seq::empty(),
        }
    }
}

/// The registers of a list of properties, in order.
pub open spec fn property_regs(props: Seq<PropertyReg>) -> Seq<Register> {
    props.map_values(|p: PropertyReg| p.reg)
}

pub open spec fn opt_reg(r: Option<Register>) -> Seq<Register> {
    match r {
        Some(x) => seq![x],
        None => Seq::empty(),
    }
}

/// The registers an instruction reads, in the order it reads them.
pub open spec fn sources_spec(i: Instruction) -> Seq<Register> {
    match i {
        Instruction::Return { value } => opt_reg(value),
        Instruction::Move { src, .. } => seq![src],
        Instruction::Store { src, .. } => seq![src],
        Instruction::BinaryOp { left, right, .. } => seq![left, right],
        Instruction::UnaryOp { operand, .. } => seq![operand],
        Instruction::JumpIfFalse { condition, .. } => seq![condition],
        Instruction::JumpIfTrue { condition, .. } => seq![condition],
        Instruction::Call { callee, args, .. } => seq![callee] + args@,
        Instruction::CreateArray { elements, .. } => elements@,
        Instruction::LoadIndex { array, index, .. } => seq![array, index],
        Instruction::StoreIndex { array, index, value } => seq![array, index, value],
        Instruction::CreateObject { properties, .. } => property_regs(properties@),
        Instruction::LoadProperty { object, .. } => seq![object],
        Instruction::StoreProperty { object, value, .. } => seq![object, value],
        Instruction::DeleteProperty { object, .. } => seq![object],
        Instruction::In { object, .. } => seq![object],
        Instruction::MethodCall { object, args, .. } => seq![object] + args@,
        Instruction::NewInstance { args, .. } => args@,
        Instruction::Await { future, .. } => seq![future],
        Instruction::TypeOf { operand, .. } => seq![operand],
        Instruction::InstanceOf { operand, .. } => seq![operand],
        Instruction::Throw { value } => seq![value],
        Instruction::Catch { promise, .. } => seq![promise],
        Instruction::DestructureArray { src, .. } => seq![src],
        Instruction::DestructureObject { src, .. } => seq![src],
        Instruction::Increment { operand, .. } => seq![operand],
        Instruction::Decrement { operand, .. } => seq![operand],
        Instruction::CreateTemplate { parts, .. } => template_regs(parts@),
        Instruction::TaggedTemplate { tag, expressions, .. } => seq![tag] + expressions@,
        Instruction::Match { scrutinee, arms, .. } => seq![scrutinee] + guard_regs(arms@),
        Instruction::CreateRange { start, end, .. } => seq![start, end],
        Instruction::Spread { operand, .. } => seq![operand],
        Instruction::SpreadArray { operand, .. } => seq![operand],
        Instruction::SpreadObject { operand, .. } => seq![operand],
        Instruction::SpreadCall { operand, .. } => seq![operand],
        Instruction::Conditional { condition, then_val, else_val, .. } => seq![condition, then_val, else_val],
        Instruction::NullCoalesce { left, right, .. } => seq![left, right],
        Instruction::NullAssert { value, .. } => seq![value],
        Instruction::OptionalChain { object, .. } => seq![object],
        Instruction::CallSuper { args, .. } => args@,
        Instruction::Export { value, .. } => seq![value],
        Instruction::ForIn { object, .. } => seq![object],
        Instruction::ForOf { iterable, .. } => seq![iterable],
        Instruction::CompoundAssign { dest, src, .. } => seq![dest, src],
        Instruction::GetIterator { iterable, .. } => seq![iterable],
        Instruction::IteratorNext { iterator, .. } => seq![iterator],
        Instruction::Yield { value } => opt_reg(value),
        _ => Seq::empty(),
    }
}

/// The registers a list of references points to.
pub open spec fn deref_regs(s: Seq<&Register>) -> Seq<Register> {
    s.map_values(|r: &Register| *r)
}

/// Appends a reference to each register of `regs`.
fn push_all<'a>(out: &mut Vec<&'a Register>, regs: &'a Vec<Register>)
    ensures
        deref_regs(final(out)@) == deref_regs(old(out)@) + regs@,
{
    let ghost o = out@;
    let mut i: usize = 0;
    while i < regs.len()
        invariant
            i <= regs@.len(),
            deref_regs(out@) == deref_regs(o) + regs@.subrange(0, i as int),
        decreases regs@.len() - i,
    {
        let ghost before = out@;
        out.push(&regs[i]);
        i = i + 1;
        assert(deref_regs(out@) =~= deref_regs(before).push(regs@[i - 1]));
        assert(regs@.subrange(0, i as int) =~= regs@.subrange(0, i - 1).push(regs@[i - 1]));
    }
    assert(regs@.subrange(0, regs@.len() as int) =~= regs@);
}

fn push_props<'a>(out: &mut Vec<&'a Register>, props: &'a Vec<PropertyReg>)
    ensures
        deref_regs(final(out)@) == deref_regs(old(out)@) + property_regs(props@),
{
    let ghost o = out@;
    let mut i: usize = 0;
    while i < props.len()
        invariant
            i <= props@.len(),
            deref_regs(out@) == deref_regs(o) + property_regs(props@.subrange(0, i as int)),
        decreases props@.len() - i,
    {
        let ghost before = out@;
        out.push(&props[i].reg);
        i = i + 1;
        assert(deref_regs(out@) =~= deref_regs(before).push(props@[i - 1].reg));
        assert(property_regs(props@.subrange(0, i as int)) =~= property_regs(props@.subrange(0, i - 1)).push(props@[i - 1].reg));
    }
    assert(props@.subrange(0, props@.len() as int) =~= props@);
}

fn push_template<'a>(out: &mut Vec<&'a Register>, parts: &'a Vec<TemplatePart>)
    ensures
        deref_regs(final(out)@) == deref_regs(old(out)@) + template_regs(parts@),
{
    let ghost o = out@;
    let mut i: usize = 0;
    while i < parts.len()
        invariant
            i <= parts@.len(),
            deref_regs(out@) == deref_regs(o) + template_regs(parts@.subrange(0, i as int)),
        decreases parts@.len() - i,
    {
        let ghost before = out@;
        match &parts[i] {
            TemplatePart::Expr(r) => out.push(r),
            TemplatePart::String(_) => {},
        }
        i = i + 1;
        proof {
            let p = parts@.subrange(0, i as int);
            assert(p.drop_last() =~= parts@.subrange(0, i - 1));
            assert(deref_regs(out@) =~= deref_regs(before) + match p.last() {
                TemplatePart::Expr(r) => seq![r],
                TemplatePart::String(_) => Seq::empty(),
            });
        }
    }
    assert(parts@.subrange(0, parts@.len() as int) =~= parts@);
}

fn push_guards<'a>(out: &mut Vec<&'a Register>, arms: &'a Vec<MatchArm>)
    ensures
        deref_regs(final(out)@) == deref_regs(old(out)@) + guard_regs(arms@),
{
    let ghost o = out@;
    let mut i: usize = 0;
    while i < arms.len()
        invariant
            i <= arms@.len(),
            deref_regs(out@) == deref_regs(o) + guard_regs(arms@.subrange(0, i as int)),
        decreases arms@.len() - i,
    {
        let ghost before = out@;
        match &arms[i].guard {
            Some(g) => out.push(g),
            None => {},
        }
        i = i + 1;
        proof {
            let p = arms@.subrange(0, i as int);
            assert(p.drop_last() =~= arms@.subrange(0, i - 1));
            assert(deref_regs(out@) =~= deref_regs(before) + match p.last().guard {
                Some(g) => seq![g],
                None => Seq::empty(),
            });
        }
    }
    assert(arms@.subrange(0, arms@.len() as int) =~= arms@);
}

impl Instruction {
    pub fn is_control_flow(&self) -> (b: bool)
        ensures
            b == control_flow_spec(*self),
    {
        match self {
            Instruction::Jump { .. } | Instruction::JumpIfFalse { .. } | Instruction::JumpIfTrue { .. }
            | Instruction::Return { .. } | Instruction::Throw { .. } | Instruction::Break
            | Instruction::Continue | Instruction::TryCatch { .. } | Instruction::ForIn { .. }
            | Instruction::ForOf { .. } => true,
            _ => false,
        }
    }

    pub fn has_side_effects(&self) -> (b: bool)
        ensures
            b == side_effects_spec(*self),
    {
        match self {
            Instruction::Store { .. } | Instruction::StoreIndex { .. } | Instruction::StoreProperty { .. }
            | Instruction::Call { .. } | Instruction::MethodCall { .. } | Instruction::Throw { .. }
            | Instruction::Declare { .. } => true,
            _ => false,
        }
    }

    pub fn dest_register(&self) -> (r: Option<&Register>)
        ensures
            match dest_spec(*self) {
                Some(d) => r == Some(&d),
                None => r is None,
            },
    {
        match self {
            Instruction::LoadConst { dest, .. } | Instruction::Move { dest, .. } | Instruction::Load { dest, .. }
            | Instruction::BinaryOp { dest, .. } | Instruction::UnaryOp { dest, .. } | Instruction::Call { dest, .. }
            | Instruction::CreateFunction { dest, .. } | Instruction::CreateArray { dest, .. }
            | Instruction::LoadIndex { dest, .. } | Instruction::CreateObject { dest, .. }
            | Instruction::LoadProperty { dest, .. } | Instruction::MethodCall { dest, .. }
            | Instruction::NewInstance { dest, .. } | Instruction::Await { dest, .. } | Instruction::TypeOf { dest, .. }
            | Instruction::InstanceOf { dest, .. } | Instruction::Increment { dest, .. }
            | Instruction::Decrement { dest, .. } | Instruction::CreateTemplate { dest, .. }
            | Instruction::Match { dest, .. } | Instruction::CreateRange { dest, .. } | Instruction::Spread { dest, .. }
            | Instruction::Conditional { dest, .. } | Instruction::NullCoalesce { dest, .. }
            | Instruction::OptionalChain { dest, .. } | Instruction::LoadThis { dest }
            | Instruction::CallSuper { dest, .. } | Instruction::SpreadArray { dest, .. }
            | Instruction::SpreadObject { dest, .. } | Instruction::SpreadCall { dest, .. }
            | Instruction::Import { dest, .. } | Instruction::GetIterator { dest, .. }
            | Instruction::IteratorNext { dest, .. } | Instruction::CreateGenerator { dest, .. }
            | Instruction::TaggedTemplate { dest, .. } | Instruction::NullAssert { dest, .. }
            | Instruction::DeleteProperty { dest, .. } | Instruction::In { dest, .. } => Some(dest),
            _ => None,
        }
    }

    /// The registers the instruction reads, in the order it reads them.
    pub fn source_registers(&self) -> (r: Vec<&Register>)
        ensures
            deref_regs(r@) == sources_spec(*self),
    {
        let mut sources: Vec<&Register> = Vec::new();
        match self {
            Instruction::Return { value } => {
                if let Some(val) = value {
                    sources.push(val);
                }
            },
            Instruction::Move { src, .. } => sources.push(src),
            Instruction::Store { src, .. } => sources.push(src),
            Instruction::BinaryOp { left, right, .. } => {
                sources.push(left);
                sources.push(right);
            },
            Instruction::UnaryOp { operand, .. } => sources.push(operand),
            Instruction::JumpIfFalse { condition, .. } => sources.push(condition),
            Instruction::JumpIfTrue { condition, .. } => sources.push(condition),
            Instruction::Call { callee, args, .. } => {
                sources.push(callee);
                push_all(&mut sources, args);
            },
            Instruction::CreateArray { elements, .. } => push_all(&mut sources, elements),
            Instruction::LoadIndex { array, index, .. } => {
                sources.push(array);
                sources.push(index);
            },
            Instruction::StoreIndex { array, index, value } => {
                sources.push(array);
                sources.push(index);
                sources.push(value);
            },
            Instruction::CreateObject { properties, .. } => push_props(&mut sources, properties),
            Instruction::LoadProperty { object, .. } => sources.push(object),
            Instruction::StoreProperty { object, value, .. } => {
                sources.push(object);
                sources.push(value);
            },
            Instruction::DeleteProperty { object, .. } => sources.push(object),
            Instruction::In { object, .. } => sources.push(object),
            Instruction::MethodCall { object, args, .. } => {
                sources.push(object);
                push_all(&mut sources, args);
            },
            Instruction::NewInstance { args, .. } => push_all(&mut sources, args),
            Instruction::Await { future, .. } => sources.push(future),
            Instruction::TypeOf { operand, .. } => sources.push(operand),
            Instruction::InstanceOf { operand, .. } => sources.push(operand),
            Instruction::Throw { value } => sources.push(value),
            Instruction::Catch { promise, .. } => sources.push(promise),
            Instruction::DestructureArray { src, .. } => sources.push(src),
            Instruction::DestructureObject { src, .. } => sources.push(src),
            Instruction::Increment { operand, .. } => sources.push(operand),
            Instruction::Decrement { operand, .. } => sources.push(operand),
            Instruction::CreateTemplate { parts, .. } => push_template(&mut sources, parts),
            Instruction::TaggedTemplate { tag, expressions, .. } => {
                sources.push(tag);
                push_all(&mut sources, expressions);
            },
            Instruction::Match { scrutinee, arms, .. } => {
                sources.push(scrutinee);
                push_guards(&mut sources, arms);
            },
            Instruction::CreateRange { start, end, .. } => {
                sources.push(start);
                sources.push(end);
            },
            Instruction::Spread { operand, .. } => sources.push(operand),
            Instruction::SpreadArray { operand, .. } => sources.push(operand),
            Instruction::SpreadObject { operand, .. } => sources.push(operand),
            Instruction::SpreadCall { operand, .. } => sources.push(operand),
            Instruction::Conditional { condition, then_val, else_val, .. } => {
                sources.push(condition);
                sources.push(then_val);
                sources.push(else_val);
            },
            Instruction::NullCoalesce { left, right, .. } => {
                sources.push(left);
                sources.push(right);
            },
            Instruction::NullAssert { value, .. } => sources.push(value),
            Instruction::OptionalChain { object, .. } => sources.push(object),
            Instruction::CallSuper { args, .. } => push_all(&mut sources, args),
            Instruction::Export { value, .. } => sources.push(value),
            Instruction::ForIn { object, .. } => sources.push(object),
            Instruction::ForOf { iterable, .. } => sources.push(iterable),
            Instruction::CompoundAssign { dest, src, .. } => {
                sources.push(dest);
                sources.push(src);
            },
            Instruction::GetIterator { iterable, .. } => sources.push(iterable),
            Instruction::IteratorNext { iterator, .. } => sources.push(iterator),
            Instruction::Yield { value } => {
                if let Some(val) = value {
                    sources.push(val);
                }
            },
            _ => {},
        }
        proof {
            assert(deref_regs(sources@) =~= sources_spec(*self));
        }
        sources
    }
}

/// A program under construction: instructions, a constant pool and label positions.
#[derive(Debug)]
pub struct IRProgram {
    pub instructions: Vec<Instruction>,
    pub constant_pool: Vec<RuntimeValue>,
    pub labels: Vec<LabelEntry>,
}

impl IRProgram {
    pub fn new() -> (p: IRProgram)
        ensures
            p.instructions@.len() == 0,
            p.constant_pool@.len() == 0,
            p.labels@.len() == 0,
    {
        IRProgram { instructions: Vec::new(), constant_pool: Vec::new(), labels: Vec::new() }
    }

    pub fn emit(&mut self, instruction: Instruction)
        ensures
            final(self).instructions@ == old(self).instructions@.push(instruction),
            final(self).constant_pool@ == old(self).constant_pool@,
            final(self).labels@ == old(self).labels@,
    {
        self.instructions.push(instruction);
    }

    /// Records the label `name` at the current position and emits it.
    pub fn emit_label(&mut self, name: String)
        ensures
            final(self).instructions@ == old(self).instructions@.push(Instruction::Label { name }),
            final(self).constant_pool@ == old(self).constant_pool@,
            label_lookup(final(self).labels@, name@) == Some(old(self).instructions@.len() as usize),
            final(self).labels@.drop_last() == old(self).labels@,
            final(self).labels@.len() == old(self).labels@.len() + 1,
            final(self).labels@.last().name@ == name@,
            final(self).labels@.last().position == old(self).instructions@.len(),
            forall|n: Seq<char>| n != name@ ==> label_lookup(final(self).labels@, n) == label_lookup(old(self).labels@, n),
    {
        let position = self.instructions.len();
        let ghost o = self.labels@;
        self.labels.push(LabelEntry { name: name.clone(), position });
        assert(self.labels@.drop_last() =~= o);
        self.emit(Instruction::Label { name });
    }

    pub fn current_position(&self) -> (n: usize)
        ensures
            n == self.instructions@.len(),
    {
        self.instructions.len()
    }

    /// Adds `value` to the constant pool and returns its index. Each call adds an entry.
    pub fn add_constant(&mut self, value: RuntimeValue) -> (i: usize)
        ensures
            i == old(self).constant_pool@.len(),
            final(self).constant_pool@ == old(self).constant_pool@.push(value),
            final(self).instructions@ == old(self).instructions@,
            final(self).labels@ == old(self).labels@,
    {
        let index = self.constant_pool.len();
        self.constant_pool.push(value);
        index
    }
}


impl Default for IRProgram {
    fn default() -> (p: IRProgram)
        ensures
            p.instructions@.len() == 0,
            p.constant_pool@.len() == 0,
            p.labels@.len() == 0,
    {
        IRProgram::new()
    }
}

} // verus!
