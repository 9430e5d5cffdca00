//! The values a running program computes with.
use vstd::prelude::*;
use crate::ast::{lemma_same_type_refl, lemma_same_type_trans, same_type, PrimitiveKind, Type};
use crate::runtime::fn_table::NamedFn;

verus! {

/// A native implementation: one of the built-ins this library knows, or one that the host
/// program supplies under a number of its choosing.
#[derive(Debug, Clone, Copy, PartialEq, Eq, Structural)]
pub enum NativeFn {
    Print,
    Eprint,
    Println,
    Input,
    Len,
    FutureResolve,
    FutureReject,
    FutureAll,
    FutureRace,
    FutureAllSettled,
    FutureAny,
    ObjectKeys,
    ObjectValues,
    ObjectEntries,
    ObjectAssign,
    StrLength,
    StrUpper,
    StrLower,
    StrTrim,
    StrContains,
    StrStartsWith,
    StrEndsWith,
    StrReverse,
    StrCharAt,
    StrSubstring,
    StrSplit,
    StrReplace,
    StrRepeat,
    StrIndexOf,
    ArrLength,
    ArrPush,
    ArrPop,
    ArrShift,
    ArrSlice,
    ArrReverse,
    ArrContains,
    ArrIndexOf,
    ArrJoin,
    CoreStrLen,
    CoreStrCharAt,
    CoreStrSubstring,
    CoreStrIndexOf,
    CoreStrSplit,
    Host(u64),
}

/// A native function with its type.
#[derive(Debug)]
pub struct NativeFunctionValue {
    pub implementation: NativeFn,
    pub fn_type: Type,
}

impl NativeFunctionValue {
    pub fn new(implementation: NativeFn, fn_type: Type) -> (f: NativeFunctionValue)
        ensures
            f.implementation == implementation,
            f.fn_type == fn_type,
    {
        NativeFunctionValue { implementation, fn_type }
    }

    /// A copy of the function value.
    pub fn copy(&self) -> (r: NativeFunctionValue)
        ensures
            same_native(*self, r),
    {
        NativeFunctionValue { implementation: self.implementation, fn_type: self.fn_type.copy() }
    }
}

pub open spec fn same_native(a: NativeFunctionValue, b: NativeFunctionValue) -> bool {
    a.implementation == b.implementation && same_type(a.fn_type, b.fn_type)
}

/// The state of a future.
#[derive(Debug)]
pub enum FutureState {
    Pending,
    Resolved(Box<RuntimeValue>),
    Rejected(String),
}

/// A future and the type of the value it yields.
#[derive(Debug)]
pub struct FutureValue {
    pub state: FutureState,
    pub inner_type: Type,
}

/// A list and the type of its elements.
#[derive(Debug)]
pub struct ListValue {
    pub elements: Vec<RuntimeValue>,
    pub element_type: Type,
}

impl ListValue {
    pub fn new(elements: Vec<RuntimeValue>, element_type: Type) -> (l: ListValue)
        ensures
            l.elements@ == elements@,
            l.element_type == element_type,
    {
        ListValue { elements, element_type }
    }
}

/// A named entry of a map or an object.
#[derive(Debug)]
pub struct Entry {
    pub key: String,
    pub value: RuntimeValue,
}

/// A map from strings to values.
#[derive(Debug)]
pub struct MapValue {
    pub entries: Vec<Entry>,
    pub key_type: Type,
    pub value_type: Type,
}

/// An object: named properties and the object's type.
#[derive(Debug)]
pub struct ObjectValue {
    pub properties: Vec<Entry>,
    pub obj_type: Type,
}

/// What kind of type a type object stands for.
#[derive(Debug)]
pub enum TypeKind {
    Generic { name: String },
    Module { name: String },
    Unknown,
}

/// A type as a value: its definition, kind, static methods and documentation.
#[derive(Debug)]
pub struct TypeObject {
    pub type_def: Type,
    pub kind: TypeKind,
    pub static_methods: Vec<NamedFn>,
    pub documentation: String,
}

/// A runtime value. A float is held as the bits of its IEEE 754 double.
#[derive(Debug)]
pub enum RuntimeValue {
    Null,
    Bool(bool),
    Int(i64),
    Float(u64),
    Str(String),
    List(ListValue),
    MapVal(MapValue),
    Object(ObjectValue),
    Future(FutureValue),
    NativeFunction(NativeFunctionValue),
    NativeAsyncFunction(NativeFunctionValue),
    TypeObj(TypeObject),
}

/// Two values are the same: same shape, same scalars, and the same values inside.
pub open spec fn same_value(a: RuntimeValue, b: RuntimeValue) -> bool
    decreases a,
{
    match a {
        RuntimeValue::Null => b == RuntimeValue::Null,
        RuntimeValue::Bool(x) => b == RuntimeValue::Bool(x),
        RuntimeValue::Int(x) => b == RuntimeValue::Int(x),
        RuntimeValue::Float(x) => b == RuntimeValue::Float(x),
        RuntimeValue::Str(s) => b == RuntimeValue::Str(s),
        RuntimeValue::List(l) => b matches RuntimeValue::List(m) && same_type(l.element_type, m.element_type)
            && l.elements@.len() == m.elements@.len()
            && forall|i: int| 0 <= i < l.elements@.len() ==> same_value(#[trigger] l.elements@[i], m.elements@[i]),
        RuntimeValue::MapVal(l) => b matches RuntimeValue::MapVal(m) && same_type(l.key_type, m.key_type)
            && same_type(l.value_type, m.value_type) && l.entries@.len() == m.entries@.len()
            && forall|i: int| 0 <= i < l.entries@.len() ==> (#[trigger] l.entries@[i]).key == m.entries@[i].key
                && same_value(l.entries@[i].value, m.entries@[i].value),
        RuntimeValue::Object(l) => b matches RuntimeValue::Object(m) && same_type(l.obj_type, m.obj_type)
            && l.properties@.len() == m.properties@.len()
            && forall|i: int| 0 <= i < l.properties@.len() ==> (#[trigger] l.properties@[i]).key == m.properties@[i].key
                && same_value(l.properties@[i].value, m.properties@[i].value),
        RuntimeValue::Future(f) => b matches RuntimeValue::Future(g) && same_type(f.inner_type, g.inner_type)
            && match f.state {
                FutureState::Pending => g.state == FutureState::Pending,
                FutureState::Rejected(e) => g.state == FutureState::Rejected(e),
                FutureState::Resolved(v) => g.state matches FutureState::Resolved(w) && same_value(*v, *w),
            },
        RuntimeValue::NativeFunction(f) => b matches RuntimeValue::NativeFunction(g) && same_native(f, g),
        RuntimeValue::NativeAsyncFunction(f) => b matches RuntimeValue::NativeAsyncFunction(g) && same_native(f, g),
        RuntimeValue::TypeObj(t) => b matches RuntimeValue::TypeObj(u) && same_type(t.type_def, u.type_def)
            && t.kind == u.kind && t.documentation == u.documentation
            && t.static_methods@.len() == u.static_methods@.len()
            && forall|i: int| 0 <= i < t.static_methods@.len() ==> (#[trigger] t.static_methods@[i]).name
                == u.static_methods@[i].name && same_native(t.static_methods@[i].function, u.static_methods@[i].function),
    }
}

/// Every value is the same as itself.
pub proof fn lemma_same_value_refl(v: RuntimeValue)
    ensures
        same_value(v, v),
    decreases v,
{
    match v {
        RuntimeValue::List(l) => {
            lemma_same_type_refl(l.element_type);
            assert forall|i: int| 0 <= i < l.elements@.len() implies same_value(#[trigger] l.elements@[i], l.elements@[i]) by {
                assert(decreases_to!(v => l.elements@[i]));
                lemma_same_value_refl(l.elements@[i]);
            }
        },
        RuntimeValue::MapVal(m) => {
            lemma_same_type_refl(m.key_type);
            lemma_same_type_refl(m.value_type);
            assert forall|i: int| 0 <= i < m.entries@.len() implies same_value((#[trigger] m.entries@[i]).value, m.entries@[i].value) by {
                assert(decreases_to!(v => m.entries@[i].value));
                lemma_same_value_refl(m.entries@[i].value);
            }
        },
        RuntimeValue::Object(o) => {
            lemma_same_type_refl(o.obj_type);
            assert forall|i: int| 0 <= i < o.properties@.len() implies same_value((#[trigger] o.properties@[i]).value, o.properties@[i].value) by {
                assert(decreases_to!(v => o.properties@[i].value));
                lemma_same_value_refl(o.properties@[i].value);
            }
        },
        RuntimeValue::Future(f) => {
            lemma_same_type_refl(f.inner_type);
            match f.state {
                FutureState::Resolved(x) => {
                    assert(decreases_to!(v => *x));
                    lemma_same_value_refl(*x);
                },
                _ => {},
            }
        },
        RuntimeValue::NativeFunction(f) => lemma_same_type_refl(f.fn_type),
        RuntimeValue::NativeAsyncFunction(f) => lemma_same_type_refl(f.fn_type),
        RuntimeValue::TypeObj(t) => {
            lemma_same_type_refl(t.type_def);
            assert forall|i: int| 0 <= i < t.static_methods@.len() implies same_native((#[trigger] t.static_methods@[i]).function, t.static_methods@[i].function) by {
                lemma_same_type_refl(t.static_methods@[i].function.fn_type);
            }
        },
        _ => {},
    }
}

/// Being the same value is transitive.
pub proof fn lemma_same_value_trans(a: RuntimeValue, b: RuntimeValue, c: RuntimeValue)
    requires
        same_value(a, b),
        same_value(b, c),
    ensures
        same_value(a, c),
    decreases a,
{
    match a {
        RuntimeValue::List(l) => {
            let lb = b->List_0;
            let lc = c->List_0;
            lemma_same_type_trans(l.element_type, lb.element_type, lc.element_type);
            assert forall|i: int| 0 <= i < l.elements@.len() implies same_value(#[trigger] l.elements@[i], lc.elements@[i]) by {
                assert(decreases_to!(a => l.elements@[i]));
                lemma_same_value_trans(l.elements@[i], lb.elements@[i], lc.elements@[i]);
            }
        },
        RuntimeValue::MapVal(m) => {
            let mb = b->MapVal_0;
            let mc = c->MapVal_0;
            lemma_same_type_trans(m.key_type, mb.key_type, mc.key_type);
            lemma_same_type_trans(m.value_type, mb.value_type, mc.value_type);
            assert forall|i: int| 0 <= i < m.entries@.len() implies (#[trigger] m.entries@[i]).key == mc.entries@[i].key
                && same_value(m.entries@[i].value, mc.entries@[i].value) by {
                assert(decreases_to!(a => m.entries@[i].value));
                assert(mb.entries@[i].key == mc.entries@[i].key);
                lemma_same_value_trans(m.entries@[i].value, mb.entries@[i].value, mc.entries@[i].value);
            }
        },
        RuntimeValue::Object(o) => {
            let ob = b->Object_0;
            let oc = c->Object_0;
            lemma_same_type_trans(o.obj_type, ob.obj_type, oc.obj_type);
            assert forall|i: int| 0 <= i < o.properties@.len() implies (#[trigger] o.properties@[i]).key == oc.properties@[i].key
                && same_value(o.properties@[i].value, oc.properties@[i].value) by {
                assert(decreases_to!(a => o.properties@[i].value));
                assert(ob.properties@[i].key == oc.properties@[i].key);
                lemma_same_value_trans(o.properties@[i].value, ob.properties@[i].value, oc.properties@[i].value);
            }
        },
        RuntimeValue::Future(f) => {
            let fb = b->Future_0;
            let fc = c->Future_0;
            lemma_same_type_trans(f.inner_type, fb.inner_type, fc.inner_type);
            match f.state {
                FutureState::Resolved(x) => {
                    assert(decreases_to!(a => *x));
                    lemma_same_value_trans(*x, *fb.state->Resolved_0, *fc.state->Resolved_0);
                },
                _ => {},
            }
        },
        RuntimeValue::NativeFunction(f) => lemma_same_type_trans(f.fn_type, b->NativeFunction_0.fn_type, c->NativeFunction_0.fn_type),
        RuntimeValue::NativeAsyncFunction(f) => lemma_same_type_trans(
            f.fn_type,
            b->NativeAsyncFunction_0.fn_type,
            c->NativeAsyncFunction_0.fn_type,
        ),
        RuntimeValue::TypeObj(t) => {
            let tb = b->TypeObj_0;
            let tc = c->TypeObj_0;
            lemma_same_type_trans(t.type_def, tb.type_def, tc.type_def);
            assert forall|i: int| 0 <= i < t.static_methods@.len() implies (#[trigger] t.static_methods@[i]).name
                == tc.static_methods@[i].name && same_native(t.static_methods@[i].function, tc.static_methods@[i].function) by {
                assert(tb.static_methods@[i].name == tc.static_methods@[i].name);
                lemma_same_type_trans(
                    t.static_methods@[i].function.fn_type,
                    tb.static_methods@[i].function.fn_type,
                    tc.static_methods@[i].function.fn_type,
                );
            }
        },
        _ => {},
    }
}

fn copy_values(v: &Vec<RuntimeValue>) -> (r: Vec<RuntimeValue>)
    ensures
        r@.len() == v@.len(),
        forall|i: int| 0 <= i < v@.len() ==> same_value(#[trigger] v@[i], r@[i]),
    decreases v, 0nat,
{
    let mut r: Vec<RuntimeValue> = Vec::new();
    let mut i: usize = 0;
    while i < v.len()
        invariant
            i <= v@.len(),
            r@.len() == i,
            forall|j: int| 0 <= j < i ==> same_value(#[trigger] v@[j], r@[j]),
        decreases v@.len() - i,
    {
        assert(decreases_to!(v => v@[i as int]));
        r.push(v[i].copy());
        i = i + 1;
    }
    r
}

pub fn copy_entries(v: &Vec<Entry>) -> (r: Vec<Entry>)
    ensures
        r@.len() == v@.len(),
        forall|i: int| 0 <= i < v@.len() ==> (#[trigger] v@[i]).key == r@[i].key && same_value(v@[i].value, r@[i].value),
    decreases v, 0nat,
{
    let mut r: Vec<Entry> = Vec::new();
    let mut i: usize = 0;
    while i < v.len()
        invariant
            i <= v@.len(),
            r@.len() == i,
            forall|j: int| 0 <= j < i ==> (#[trigger] v@[j]).key == r@[j].key && same_value(v@[j].value, r@[j].value),
        decreases v@.len() - i,
    {
        assert(decreases_to!(v => v@[i as int]));
        let e = &v[i];
        r.push(Entry { key: e.key.clone(), value: e.value.copy() });
        i = i + 1;
    }
    r
}

impl RuntimeValue {
    /// A copy of the value.
    pub fn copy(&self) -> (r: RuntimeValue)
        ensures
            same_value(*self, r),
        decreases self, 1nat,
    {
        match self {
            RuntimeValue::Null => RuntimeValue::Null,
            RuntimeValue::Bool(b) => RuntimeValue::Bool(*b),
            RuntimeValue::Int(i) => RuntimeValue::Int(*i),
            RuntimeValue::Float(f) => RuntimeValue::Float(*f),
            RuntimeValue::Str(s) => RuntimeValue::Str(s.clone()),
            RuntimeValue::List(l) => RuntimeValue::List(ListValue {
                elements: copy_values(&l.elements),
                element_type: l.element_type.copy(),
            }),
            RuntimeValue::MapVal(m) => RuntimeValue::MapVal(MapValue {
                entries: copy_entries(&m.entries),
                key_type: m.key_type.copy(),
                value_type: m.value_type.copy(),
            }),
            RuntimeValue::Object(o) => RuntimeValue::Object(ObjectValue {
                properties: copy_entries(&o.properties),
                obj_type: o.obj_type.copy(),
            }),
            RuntimeValue::Future(f) => {
                let state = match &f.state {
                    FutureState::Pending => FutureState::Pending,
                    FutureState::Rejected(e) => FutureState::Rejected(e.clone()),
                    FutureState::Resolved(v) => FutureState::Resolved(Box::new((**v).copy())),
                };
                RuntimeValue::Future(FutureValue { state, inner_type: f.inner_type.copy() })
            },
            RuntimeValue::NativeFunction(f) => RuntimeValue::NativeFunction(f.copy()),
            RuntimeValue::NativeAsyncFunction(f) => RuntimeValue::NativeAsyncFunction(f.copy()),
            RuntimeValue::TypeObj(t) => RuntimeValue::TypeObj(TypeObject {
                type_def: t.type_def.copy(),
                kind: match &t.kind {
                    TypeKind::Generic { name } => TypeKind::Generic { name: name.clone() },
                    TypeKind::Module { name } => TypeKind::Module { name: name.clone() },
                    TypeKind::Unknown => TypeKind::Unknown,
                },
                static_methods: copy_methods(&t.static_methods),
                documentation: t.documentation.clone(),
            }),
        }
    }
}

fn copy_methods(v: &Vec<NamedFn>) -> (r: Vec<NamedFn>)
    ensures
        r@.len() == v@.len(),
        forall|i: int| 0 <= i < v@.len() ==> (#[trigger] v@[i]).name == r@[i].name
            && same_native(v@[i].function, r@[i].function),
{
    let mut r: Vec<NamedFn> = Vec::new();
    let mut i: usize = 0;
    while i < v.len()
        invariant
            i <= v@.len(),
            r@.len() == i,
            forall|j: int| 0 <= j < i ==> (#[trigger] v@[j]).name == r@[j].name
                && same_native(v@[j].function, r@[j].function),
        decreases v@.len() - i,
    {
        r.push(NamedFn { name: v[i].name.clone(), function: v[i].function.copy() });
        i = i + 1;
    }
    r
}

/// The type `any`.
pub fn any_type() -> (t: Type)
    ensures
        t == Type::Primitive(PrimitiveKind::Any),
{
    Type::Primitive(PrimitiveKind::Any)
}

/// The type of a value.
pub open spec fn type_of(v: RuntimeValue) -> Type {
    match v {
        RuntimeValue::Null => Type::Primitive(PrimitiveKind::Null),
        RuntimeValue::Bool(_) => Type::Primitive(PrimitiveKind::Bool),
        RuntimeValue::Int(_) => Type::Primitive(PrimitiveKind::Int),
        RuntimeValue::Float(_) => Type::Primitive(PrimitiveKind::Float),
        RuntimeValue::Str(_) => Type::Primitive(PrimitiveKind::Str),
        RuntimeValue::List(l) => Type::List(Box::new(l.element_type)),
        RuntimeValue::MapVal(m) => Type::MapOf(Box::new(m.key_type), Box::new(m.value_type)),
        RuntimeValue::Object(o) => o.obj_type,
        RuntimeValue::Future(f) => Type::Future(Box::new(f.inner_type)),
        RuntimeValue::NativeFunction(f) => f.fn_type,
        RuntimeValue::NativeAsyncFunction(f) => f.fn_type,
        RuntimeValue::TypeObj(t) => t.type_def,
    }
}

impl RuntimeValue {
    /// The value's type.
    pub fn get_type(&self) -> (t: Type)
        ensures
            same_type(type_of(*self), t),
    {
        match self {
            RuntimeValue::Null => Type::Primitive(PrimitiveKind::Null),
            RuntimeValue::Bool(_) => Type::Primitive(PrimitiveKind::Bool),
            RuntimeValue::Int(_) => Type::Primitive(PrimitiveKind::Int),
            RuntimeValue::Float(_) => Type::Primitive(PrimitiveKind::Float),
            RuntimeValue::Str(_) => Type::Primitive(PrimitiveKind::Str),
            RuntimeValue::List(l) => Type::List(Box::new(l.element_type.copy())),
            RuntimeValue::MapVal(m) => Type::MapOf(Box::new(m.key_type.copy()), Box::new(m.value_type.copy())),
            RuntimeValue::Object(o) => o.obj_type.copy(),
            RuntimeValue::Future(f) => Type::Future(Box::new(f.inner_type.copy())),
            RuntimeValue::NativeFunction(f) => f.fn_type.copy(),
            RuntimeValue::NativeAsyncFunction(f) => f.fn_type.copy(),
            RuntimeValue::TypeObj(t) => t.type_def.copy(),
        }
    }
}

} // verus!
