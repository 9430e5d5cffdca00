//! A class compiled to instructions.
use vstd::prelude::*;
use crate::ast::{PrimitiveKind, Type};
use crate::ir::instruction::{ConstructorBody, Instruction};
use crate::runtime::environment::{scope_lookup, Binding};
use crate::runtime::module_system::{insert_binding, unique_bindings};
use crate::runtime::values::RuntimeValue;
use crate::runtime::dynamic::DynamicValue;
use crate::text::{concat2, str_eq};

verus! {

/// A compiled method.
#[derive(Debug)]
pub struct IRMethod {
    pub name: String,
    pub params: Vec<String>,
    pub body: Vec<Instruction>,
    pub is_async: bool,
}

/// A compiled class: its name, constructor, methods by name and property values by name.
#[derive(Debug)]
pub struct IRClassValue {
    pub name: String,
    pub constructor: Option<ConstructorBody>,
    pub methods: Vec<IRMethod>,
    pub properties: Vec<Binding>,
}

/// The method named `n` in a table of methods, the last one of that name.
pub open spec fn method_lookup(s: Seq<IRMethod>, n: Seq<char>) -> Option<IRMethod>
    decreases s.len(),
{
    if s.len() == 0 {
        None
    } else if s.last().name@ == n {
        Some(s.last())
    } else {
        method_lookup(s.drop_last(), n)
    }
}

/// The method the last description named `n` describes.
pub open spec fn described_method(s: Seq<(String, Vec<String>, Vec<Instruction>, bool)>, n: Seq<char>) -> Option<IRMethod>
    decreases s.len(),
{
    if s.len() == 0 {
        None
    } else if s.last().0@ == n {
        Some(IRMethod { name: s.last().0, params: s.last().1, body: s.last().2, is_async: s.last().3 })
    } else {
        described_method(s.drop_last(), n)
    }
}

/// The value the last pair named `n` gives.
pub open spec fn described_value(s: Seq<(String, RuntimeValue)>, n: Seq<char>) -> Option<RuntimeValue>
    decreases s.len(),
{
    if s.len() == 0 {
        None
    } else if s.last().0@ == n {
        Some(s.last().1)
    } else {
        described_value(s.drop_last(), n)
    }
}

pub open spec fn unique_methods(s: Seq<IRMethod>) -> bool {
    forall|i: int, j: int| 0 <= i < j < s.len() ==> (#[trigger] s[i]).name@ != (#[trigger] s[j]).name@
}

proof fn lemma_method_index(s: Seq<IRMethod>, i: int)
    requires
        unique_methods(s),
        0 <= i < s.len(),
    ensures
        method_lookup(s, s[i].name@) == Some(s[i]),
    decreases s.len(),
{
    if i < s.len() - 1 {
        assert(s[s.len() - 1].name@ != s[i].name@);
        assert(s.drop_last()[i] == s[i]);
        lemma_method_index(s.drop_last(), i);
    }
}

proof fn lemma_method_found(s: Seq<IRMethod>, n: Seq<char>) -> (i: int)
    requires
        method_lookup(s, n) is Some,
    ensures
        0 <= i < s.len(),
        s[i].name@ == n,
    decreases s.len(),
{
    if s.last().name@ == n {
        s.len() - 1
    } else {
        let i = lemma_method_found(s.drop_last(), n);
        assert(s.drop_last()[i] == s[i]);
        i
    }
}

fn find_method(s: &Vec<IRMethod>, n: &str) -> (r: Option<usize>)
    ensures
        match r {
            Some(i) => i < s@.len() && s@[i as int].name@ == n@,
            None => forall|i: int| 0 <= i < s@.len() ==> (#[trigger] s@[i]).name@ != n@,
        },
{
    let mut i: usize = 0;
    while i < s.len()
        invariant
            i <= s@.len(),
            forall|j: int| 0 <= j < i ==> (#[trigger] s@[j]).name@ != n@,
        decreases s@.len() - i,
    {
        if str_eq(s[i].name.as_str(), n) {
            return Some(i);
        }
        i = i + 1;
    }
    None
}

proof fn lemma_method_absent(s: Seq<IRMethod>, n: Seq<char>)
    requires
        forall|i: int| 0 <= i < s.len() ==> (#[trigger] s[i]).name@ != n,
    ensures
        method_lookup(s, n) is None,
    decreases s.len(),
{
    if s.len() > 0 {
        assert(s[s.len() - 1].name@ != n);
        let d = s.drop_last();
        assert forall|i: int| 0 <= i < d.len() implies (#[trigger] d[i]).name@ != n by {
            assert(d[i] == s[i]);
        }
        lemma_method_absent(d, n);
    }
}

/// Adds `m` to a table of methods with unique names, replacing the method of its name.
fn insert_method(t: &mut Vec<IRMethod>, m: IRMethod)
    requires
        unique_methods(old(t)@),
    ensures
        unique_methods(final(t)@),
        method_lookup(final(t)@, m.name@) == Some(m),
        forall|n: Seq<char>| n != m.name@ ==> method_lookup(final(t)@, n) == method_lookup(old(t)@, n),
{
    let ghost o = t@;
    let ghost mm = m;
    match find_method(t, m.name.as_str()) {
        Some(i) => {
            t.set(i, m);
            proof {
                let s = t@;
                assert(unique_methods(s)) by {
                    assert forall|a: int, b: int| 0 <= a < b < s.len() implies (#[trigger] s[a]).name@ != (#[trigger] s[b]).name@ by {
                        assert(o[a].name@ != o[b].name@);
                    }
                }
                lemma_method_index(s, i as int);
                assert forall|n: Seq<char>| n != mm.name@ implies method_lookup(s, n) == method_lookup(o, n) by {
                    if method_lookup(o, n) is Some {
                        let k = lemma_method_found(o, n);
                        assert(s[k] == o[k]);
                        lemma_method_index(s, k);
                        lemma_method_index(o, k);
                    } else if method_lookup(s, n) is Some {
                        let k = lemma_method_found(s, n);
                        assert(s[k] == o[k]);
                        lemma_method_index(o, k);
                    }
                }
            }
        },
        None => {
            t.push(m);
            proof {
                let s = t@;
                assert(s.drop_last() =~= o);
                assert(unique_methods(s)) by {
                    assert forall|a: int, b: int| 0 <= a < b < s.len() implies (#[trigger] s[a]).name@ != (#[trigger] s[b]).name@ by {
                        if b < o.len() {
                            assert(o[a].name@ != o[b].name@);
                        } else {
                            assert(s[a] == o[a]);
                        }
                    }
                }
            }
        },
    }
}

impl IRClassValue {
    pub open spec fn wf(&self) -> bool {
        unique_methods(self.methods@) && unique_bindings(self.properties@)
    }

    /// A class with the given constructor; of methods or properties given under one name
    /// the last counts.
    pub fn new(
        name: String,
        constructor: Option<ConstructorBody>,
        methods: Vec<(String, Vec<String>, Vec<Instruction>, bool)>,
        properties: Vec<(String, RuntimeValue)>,
    ) -> (c: IRClassValue)
        ensures
            c.wf(),
            c.name == name,
            c.constructor == constructor,
            forall|n: Seq<char>| method_lookup(c.methods@, n) == described_method(methods@, n),
            forall|n: Seq<char>| scope_lookup(c.properties@, n) == described_value(properties@, n),
    {
        let mut methods = methods;
        let ghost om = methods@;
        let nm = methods.len();
        let mut method_map: Vec<IRMethod> = Vec::new();
        let mut i: usize = 0;
        proof {
            assert(om.subrange(0, 0) =~= Seq::<(String, Vec<String>, Vec<Instruction>, bool)>::empty());
        }
        while i < nm
            invariant
                nm == methods@.len(),
                om.len() == nm,
                i <= nm,
                forall|j: int| i <= j < nm ==> methods@[j] == om[j],
                unique_methods(method_map@),
                forall|n: Seq<char>| method_lookup(method_map@, n) == described_method(om.subrange(0, i as int), n),
            decreases nm - i,
        {
            let mut entry: (String, Vec<String>, Vec<Instruction>, bool) = (String::new(), Vec::new(), Vec::new(), false);
            methods.set_and_swap(i, &mut entry);
            let ghost before = method_map@;
            let (method_name, params, body, is_async) = entry;
            insert_method(&mut method_map, IRMethod { name: method_name, params, body, is_async });
            proof {
                let p = om.subrange(0, i + 1);
                assert(p.drop_last() =~= om.subrange(0, i as int));
            }
            i = i + 1;
        }
        assert(om.subrange(0, nm as int) =~= om);
        let mut properties = properties;
        let ghost op = properties@;
        let np = properties.len();
        let mut prop_map: Vec<Binding> = Vec::new();
        let mut k: usize = 0;
        proof {
            assert(op.subrange(0, 0) =~= Seq::<(String, RuntimeValue)>::empty());
        }
        while k < np
            invariant
                np == properties@.len(),
                op.len() == np,
                k <= np,
                forall|j: int| k <= j < np ==> properties@[j] == op[j],
                unique_bindings(prop_map@),
                forall|n: Seq<char>| scope_lookup(prop_map@, n) == described_value(op.subrange(0, k as int), n),
            decreases np - k,
        {
            let mut entry: (String, RuntimeValue) = (String::new(), RuntimeValue::Null);
            properties.set_and_swap(k, &mut entry);
            let (prop_name, value) = entry;
            insert_binding(&mut prop_map, prop_name, value);
            proof {
                let p = op.subrange(0, k + 1);
                assert(p.drop_last() =~= op.subrange(0, k as int));
            }
            k = k + 1;
        }
        assert(op.subrange(0, np as int) =~= op);
        IRClassValue { name, constructor, methods: method_map, properties: prop_map }
    }
}

impl DynamicValue for IRClassValue {
    /// The type `any`.
    fn get_type(&self) -> (t: Type)
        ensures
            t == Type::Primitive(PrimitiveKind::Any),
    {
        Type::Primitive(PrimitiveKind::Any)
    }

    /// `[IR Class: name]`.
    fn to_string(&self) -> (s: String)
        ensures
            s@ == "[IR Class: "@ + self.name@ + "]"@,
    {
        let a = concat2("[IR Class: ", self.name.as_str());
        concat2(a.as_str(), "]")
    }

    fn kind_name(&self) -> (s: &str)
        ensures
            s@ == "IRClass"@,
    {
        "IRClass"
    }
}

} // verus!
