//! Helpers for built-in functions: collecting futures, checking arguments, and building
//! type objects with static methods.
use vstd::prelude::*;
use crate::ast::{PrimitiveKind, Type};
use crate::runtime::environment::{scope_lookup, Environment};
use crate::runtime::fn_table::{fn_lookup, fn_names, table_insert, unique_names, NamedFn};
use crate::runtime::values::{
    same_value, Entry, FutureState, FutureValue, ListValue, MapValue, NativeFn, NativeFunctionValue,
    ObjectValue, RuntimeValue, TypeKind, TypeObject,
};
use crate::text::{dec_str, str_eq, usize_to_string};

verus! {

/// How a list of futures is combined.
#[derive(Debug, Clone, Copy, PartialEq, Eq, Structural)]
pub enum FutureCollectionStrategy {
    All,
    AllSettled,
    Race,
    Any,
}

/// The element yields an entry of the collected results: a settled future whose value, or
/// (for `AllSettled`) whose rejection, is reported.
pub open spec fn contributes(e: RuntimeValue, strategy: FutureCollectionStrategy) -> bool {
    match e {
        RuntimeValue::Future(f) => match f.state {
            FutureState::Resolved(_) => true,
            FutureState::Rejected(_) => strategy == FutureCollectionStrategy::AllSettled,
            FutureState::Pending => false,
        },
        _ => false,
    }
}

/// The value is the string `s`.
pub open spec fn is_str(v: RuntimeValue, s: Seq<char>) -> bool {
    match v {
        RuntimeValue::Str(t) => t@ == s,
        _ => false,
    }
}

/// The second property of an object `{ status: <status>, <key>: value }` of type `any`.
pub open spec fn status_value(r: RuntimeValue, status: Seq<char>, key: Seq<char>) -> Option<RuntimeValue> {
    match r {
        RuntimeValue::Object(o) => if o.obj_type == Type::Primitive(PrimitiveKind::Any) && o.properties@.len() == 2
            && o.properties@[0].key@ == "status"@ && is_str(o.properties@[0].value, status)
            && o.properties@[1].key@ == key {
            Some(o.properties@[1].value)
        } else {
            None
        },
        _ => None,
    }
}

/// A pending future.
pub open spec fn is_pending(v: RuntimeValue) -> bool {
    match v {
        RuntimeValue::Future(f) => f.state == FutureState::Pending,
        _ => false,
    }
}

/// `{ status: "fulfilled", value }` / `{ status: "rejected", reason }` for `AllSettled`,
/// else the resolved value itself.
pub open spec fn result_for(e: RuntimeValue, strategy: FutureCollectionStrategy, r: RuntimeValue) -> bool {
    match e {
        RuntimeValue::Future(f) => match f.state {
            FutureState::Resolved(v) => if strategy == FutureCollectionStrategy::AllSettled {
                match status_value(r, "fulfilled"@, "value"@) {
                    Some(w) => same_value(*v, w),
                    None => false,
                }
            } else {
                same_value(*v, r)
            },
            FutureState::Rejected(err) => status_value(r, "rejected"@, "reason"@) == Some(RuntimeValue::Str(err)),
            FutureState::Pending => false,
        },
        _ => false,
    }
}

/// The results collected from `elems`, in order.
pub open spec fn results_match(elems: Seq<RuntimeValue>, strategy: FutureCollectionStrategy, results: Seq<RuntimeValue>) -> bool
    decreases elems.len(),
{
    if elems.len() == 0 {
        results.len() == 0
    } else if contributes(elems.last(), strategy) {
        results.len() > 0 && result_for(elems.last(), strategy, results.last())
            && results_match(elems.drop_last(), strategy, results.drop_last())
    } else {
        results_match(elems.drop_last(), strategy, results)
    }
}

/// Some element is a pending future.
pub open spec fn any_pending(elems: Seq<RuntimeValue>) -> bool {
    exists|i: int| 0 <= i < elems.len() && is_pending(#[trigger] elems[i])
}

/// The message of the first rejected future, if any.
pub open spec fn first_rejection(elems: Seq<RuntimeValue>) -> Option<String>
    decreases elems.len(),
{
    if elems.len() == 0 {
        None
    } else {
        match first_rejection(elems.drop_last()) {
            Some(e) => Some(e),
            None => match elems.last() {
                RuntimeValue::Future(f) => match f.state {
                    FutureState::Rejected(e) => Some(e),
                    _ => None,
                },
                _ => None,
            },
        }
    }
}

fn status_object(status: &str, key: &str, value: RuntimeValue) -> (r: RuntimeValue)
    ensures
        status_value(r, status@, key@) == Some(value),
{
    let mut properties: Vec<Entry> = Vec::new();
    properties.push(Entry { key: String::from_str("status"), value: RuntimeValue::Str(String::from_str(status)) });
    properties.push(Entry { key: String::from_str(key), value });
    RuntimeValue::Object(ObjectValue { properties, obj_type: Type::Primitive(PrimitiveKind::Any) })
}

/// Walks a list of futures: the values (or, for `AllSettled`, status objects) of the settled
/// ones, whether any is still pending, and the first rejection (not for `AllSettled`).
/// Elements that are not futures are skipped.
pub fn collect_futures(futures_list: &ListValue, strategy: FutureCollectionStrategy) -> (r: (Vec<RuntimeValue>, bool, Option<String>))
    ensures
        results_match(futures_list.elements@, strategy, r.0@),
        r.1 == any_pending(futures_list.elements@),
        r.2 == (if strategy == FutureCollectionStrategy::AllSettled { None } else { first_rejection(futures_list.elements@) }),
{
    let mut results: Vec<RuntimeValue> = Vec::new();
    let mut has_pending = false;
    let mut first_error: Option<String> = None;
    let ghost elems = futures_list.elements@;
    let mut i: usize = 0;
    proof {
        reveal_strlit("status");
        reveal_strlit("fulfilled");
        reveal_strlit("rejected");
        reveal_strlit("value");
        reveal_strlit("reason");
    }
    while i < futures_list.elements.len()
        invariant
            elems == futures_list.elements@,
            i <= elems.len(),
            results_match(elems.subrange(0, i as int), strategy, results@),
            has_pending == any_pending(elems.subrange(0, i as int)),
            first_error == (if strategy == FutureCollectionStrategy::AllSettled { None } else { first_rejection(elems.subrange(0, i as int)) }),
        decreases elems.len() - i,
    {
        let ghost pre = elems.subrange(0, i as int);
        let ghost nxt = elems.subrange(0, i + 1);
        assert(nxt.drop_last() =~= pre);
        assert(nxt.last() == elems[i as int]);
        let ghost before = results@;
        match &futures_list.elements[i] {
            RuntimeValue::Future(future) => {
                match &future.state {
                    FutureState::Resolved(value) => {
                        if strategy == FutureCollectionStrategy::AllSettled {
                            results.push(status_object("fulfilled", "value", (**value).copy()));
                        } else {
                            results.push((**value).copy());
                        }
                        assert(results@.drop_last() =~= before);
                    },
                    FutureState::Rejected(error) => {
                        if strategy == FutureCollectionStrategy::AllSettled {
                            results.push(status_object("rejected", "reason", RuntimeValue::Str(error.clone())));
                            assert(results@.drop_last() =~= before);
                        } else if first_error.is_none() {
                            first_error = Some(error.clone());
                        }
                    },
                    FutureState::Pending => {
                        has_pending = true;
                    },
                }
            },
            _ => {},
        }
        proof {
            if any_pending(pre) {
                let k = choose|k: int| 0 <= k < pre.len() && is_pending(#[trigger] pre[k]);
                assert(nxt[k] == pre[k]);
            }
            if any_pending(nxt) {
                let k = choose|k: int| 0 <= k < nxt.len() && is_pending(#[trigger] nxt[k]);
                if k < pre.len() {
                    assert(pre[k] == nxt[k]);
                }
            }
            if has_pending && !any_pending(pre) {
                assert(nxt[i as int] == elems[i as int]);
            }
        }
        i = i + 1;
    }
    assert(elems.subrange(0, elems.len() as int) =~= elems);
    (results, has_pending, first_error)
}

/// Every element is a future.
pub open spec fn all_futures(s: Seq<RuntimeValue>) -> bool {
    forall|i: int| 0 <= i < s.len() ==> (#[trigger] s[i]) is Future
}

/// The list, if the value is a list whose elements are all futures.
pub fn validate_futures_list(value: &RuntimeValue) -> (r: Result<ListValue, String>)
    ensures
        match *value {
            RuntimeValue::List(l) => if all_futures(l.elements@) {
                r matches Ok(m) && same_value(*value, RuntimeValue::List(m))
            } else {
                r matches Err(e) && e@ == "List contains non-future elements"@
            },
            _ => r matches Err(e) && e@ == "Expected a list of futures"@,
        },
{
    match value {
        RuntimeValue::List(list) => {
            let mut i: usize = 0;
            while i < list.elements.len()
                invariant
                    i <= list.elements@.len(),
                    *value == RuntimeValue::List(*list),
                    forall|j: int| 0 <= j < i ==> (#[trigger] list.elements@[j]) is Future,
                decreases list.elements@.len() - i,
            {
                match &list.elements[i] {
                    RuntimeValue::Future(_) => {},
                    _ => {
                        assert(!(list.elements@[i as int] is Future));
                        assert(!all_futures(list.elements@));
                        return Err(String::from_str("List contains non-future elements"));
                    },
                }
                i = i + 1;
            }
            match value.copy() {
                RuntimeValue::List(m) => Ok(m),
                _ => Err(String::from_str("Expected a list of futures")),
            }
        },
        _ => Err(String::from_str("Expected a list of futures")),
    }
}

/// A future rejected with `message`.
pub fn error_future(message: &str, inner_type: Type) -> (r: RuntimeValue)
    ensures
        match r {
            RuntimeValue::Future(f) => f.inner_type == inner_type && match f.state {
                FutureState::Rejected(e) => e@ == message@,
                _ => false,
            },
            _ => false,
        },
{
    RuntimeValue::Future(FutureValue { state: FutureState::Rejected(String::from_str(message)), inner_type })
}

/// A future resolved with `value`.
pub fn resolved_future(value: RuntimeValue, inner_type: Type) -> (r: RuntimeValue)
    ensures
        match r {
            RuntimeValue::Future(f) => f.inner_type == inner_type && match f.state {
                FutureState::Resolved(v) => *v == value,
                _ => false,
            },
            _ => false,
        },
{
    RuntimeValue::Future(FutureValue { state: FutureState::Resolved(Box::new(value)), inner_type })
}

/// Collects static methods for a built-in type.
pub struct TypeMethodBuilder {
    tname: String,
    methods: Vec<NamedFn>,
}

/// The kind of type object made for a built-in type name.
pub open spec fn type_kind_for(k: TypeKind, name: Seq<char>) -> bool {
    match k {
        TypeKind::Generic { name: n } => name == "Future"@ && n@ == "Future"@,
        TypeKind::Module { name: n } => name == "Object"@ && n@ == "Object"@,
        TypeKind::Unknown => name != "Future"@ && name != "Object"@,
    }
}

impl TypeMethodBuilder {
    pub closed spec fn name_view(&self) -> Seq<char> {
        self.tname@
    }

    /// The method under a name.
    pub closed spec fn method(&self, name: Seq<char>) -> Option<NativeFunctionValue> {
        fn_lookup(self.methods@, name)
    }

    /// The methods, in order.
    pub closed spec fn methods_view(&self) -> Seq<NamedFn> {
        self.methods@
    }

    /// The method names, in order.
    pub closed spec fn method_names(&self) -> Seq<Seq<char>> {
        fn_names(self.methods@)
    }

    pub closed spec fn wf(&self) -> bool {
        unique_names(self.methods@)
    }

    /// A method is found by name among the methods.
    pub proof fn lemma_method_in_view(&self, name: Seq<char>)
        ensures
            self.method(name) == fn_lookup(self.methods_view(), name),
    {
    }

    pub fn new(tname: &str) -> (b: TypeMethodBuilder)
        ensures
            b.wf(),
            b.name_view() == tname@,
            b.method_names().len() == 0,
            forall|n: Seq<char>| b.method(n) is None,
    {
        TypeMethodBuilder { tname: String::from_str(tname), methods: Vec::new() }
    }

    /// Adds a method, replacing one of the same name.
    pub fn add_method(&mut self, name: &str, fn_type: Type, implementation: NativeFn) -> (r: &mut TypeMethodBuilder)
        requires
            old(self).wf(),
        ensures
            r.wf(),
            r.name_view() == old(self).name_view(),
            r.method(name@) matches Some(f) && f.implementation == implementation && f.fn_type == fn_type,
            forall|n: Seq<char>| n != name@ ==> r.method(n) == old(self).method(n),
            r.method_names().to_set() == old(self).method_names().to_set().insert(name@),
            old(self).method(name@) is None ==> r.method_names().len() == old(self).method_names().len() + 1,
            old(self).method(name@) is Some ==> r.method_names().len() == old(self).method_names().len(),
            *final(self) == *final(r),
    {
        let native_fn = NativeFunctionValue::new(implementation, fn_type);
        table_insert(&mut self.methods, String::from_str(name), native_fn);
        self
    }

    /// The number of methods added.
    pub fn method_count(&self) -> (n: usize)
        ensures
            n == self.method_names().len(),
    {
        self.methods.len()
    }

    /// Declares, in the innermost scope of `env`, a type object under the type's name that
    /// holds the methods as static methods.
    pub fn build(self, env: &mut Environment)
        requires
            old(env).view().len() > 0,
        ensures
            final(env).view().len() == old(env).view().len(),
            final(env).view().drop_last() == old(env).view().drop_last(),
            scope_lookup(final(env).view().last(), self.name_view()) is Some,
            forall|n: Seq<char>| n != self.name_view() ==> scope_lookup(final(env).view().last(), n)
                == scope_lookup(old(env).view().last(), n),
            scope_lookup(old(env).view().last(), self.name_view()) is None ==> match scope_lookup(
                final(env).view().last(),
                self.name_view(),
            ) {
                Some(RuntimeValue::TypeObj(t)) => t.type_def == Type::Primitive(PrimitiveKind::Any)
                    && type_kind_for(t.kind, self.name_view()) && t.static_methods@ == self.methods_view(),
                _ => false,
            },
    {
        let kind = if str_eq(self.tname.as_str(), "Future") {
            TypeKind::Generic { name: String::from_str("Future") }
        } else if str_eq(self.tname.as_str(), "Object") {
            TypeKind::Module { name: String::from_str("Object") }
        } else {
            TypeKind::Unknown
        };
        let mut documentation = String::from_str("Built-in ");
        documentation.append(self.tname.as_str());
        documentation.append(" type");
        let ghost methods = self.methods@;
        let ghost nm = self.tname@;
        let type_obj = TypeObject {
            type_def: Type::Primitive(PrimitiveKind::Any),
            kind,
            static_methods: self.methods,
            documentation,
        };
        let ghost before = env.view();
        let _ = env.declare(self.tname, RuntimeValue::TypeObj(type_obj));
        proof {
            let after = env.view();
            assert(after.drop_last() =~= before.drop_last());
            if scope_lookup(before.last(), nm) is None {
                assert(after.last().last().name@ == nm);
                assert(after.last().drop_last() =~= before.last());
            }
        }
    }
}

/// `Expected N arguments, got M`
pub open spec fn arg_count_msg(expected: nat, got: nat) -> Seq<char> {
    "Expected "@ + dec_str(expected) + " arguments, got "@ + dec_str(got)
}

/// Fails unless there are exactly `expected` arguments.
pub fn check_arg_count(args: &[RuntimeValue], expected: usize) -> (r: Result<(), String>)
    ensures
        args@.len() == expected ==> r is Ok,
        args@.len() != expected ==> (r matches Err(e) && e@ == arg_count_msg(expected as nat, args@.len())),
{
    if args.len() != expected {
        let mut m = String::from_str("Expected ");
        m.append(usize_to_string(expected).as_str());
        m.append(" arguments, got ");
        m.append(usize_to_string(args.len()).as_str());
        return Err(m);
    }
    Ok(())
}

/// Fails unless there are between `min` and `max` arguments.
pub fn check_arg_count_range(args: &[RuntimeValue], min: usize, max: usize) -> (r: Result<(), String>)
    ensures
        min <= args@.len() <= max ==> r is Ok,
        !(min <= args@.len() <= max) ==> (r matches Err(e) && e@ == "Expected "@ + dec_str(min as nat)
            + " to "@ + dec_str(max as nat) + " arguments, got "@ + dec_str(args@.len())),
{
    if args.len() < min || args.len() > max {
        let mut m = String::from_str("Expected ");
        m.append(usize_to_string(min).as_str());
        m.append(" to ");
        m.append(usize_to_string(max).as_str());
        m.append(" arguments, got ");
        m.append(usize_to_string(args.len()).as_str());
        return Err(m);
    }
    Ok(())
}

/// `Argument N is not a <what>`
pub open spec fn arg_type_msg(index: nat, what: Seq<char>) -> Seq<char> {
    "Argument "@ + dec_str(index) + " is not a"@ + what
}

fn arg_type_error(index: usize, what: &str) -> (s: String)
    ensures
        s@ == arg_type_msg(index as nat, what@),
{
    let mut m = String::from_str("Argument ");
    m.append(usize_to_string(index).as_str());
    m.append(" is not a");
    m.append(what);
    m
}

/// The string at `index`.
pub fn extract_string(args: &[RuntimeValue], index: usize) -> (r: Result<String, String>)
    ensures
        index < args@.len() && args@[index as int] is Str ==> (r matches Ok(s)
            && args@[index as int] == RuntimeValue::Str(s)),
        !(index < args@.len() && args@[index as int] is Str) ==> (r matches Err(e) && e@ == arg_type_msg(index as nat, " string"@)),
{
    if index < args.len() {
        if let RuntimeValue::Str(s) = &args[index] {
            return Ok(s.clone());
        }
    }
    Err(arg_type_error(index, " string"))
}

/// The integer at `index`.
pub fn extract_int(args: &[RuntimeValue], index: usize) -> (r: Result<i64, String>)
    ensures
        index < args@.len() && args@[index as int] is Int ==> (r matches Ok(v)
            && args@[index as int] == RuntimeValue::Int(v)),
        !(index < args@.len() && args@[index as int] is Int) ==> (r matches Err(e) && e@ == arg_type_msg(index as nat, "n integer"@)),
{
    if index < args.len() {
        if let RuntimeValue::Int(i) = &args[index] {
            return Ok(*i);
        }
    }
    Err(arg_type_error(index, "n integer"))
}

/// A copy of the list at `index`.
pub fn extract_list(args: &[RuntimeValue], index: usize) -> (r: Result<ListValue, String>)
    ensures
        index < args@.len() && args@[index as int] is List ==> (r matches Ok(l)
            && same_value(args@[index as int], RuntimeValue::List(l))),
        !(index < args@.len() && args@[index as int] is List) ==> (r matches Err(e) && e@ == arg_type_msg(index as nat, " list"@)),
{
    if index < args.len() {
        if let RuntimeValue::List(_) = &args[index] {
            if let RuntimeValue::List(l) = args[index].copy() {
                return Ok(l);
            }
        }
    }
    Err(arg_type_error(index, " list"))
}

/// A copy of the map at `index`.
pub fn extract_map(args: &[RuntimeValue], index: usize) -> (r: Result<MapValue, String>)
    ensures
        index < args@.len() && args@[index as int] is MapVal ==> (r matches Ok(m)
            && same_value(args@[index as int], RuntimeValue::MapVal(m))),
        !(index < args@.len() && args@[index as int] is MapVal) ==> (r matches Err(e) && e@ == arg_type_msg(index as nat, " map"@)),
{
    if index < args.len() {
        if let RuntimeValue::MapVal(_) = &args[index] {
            if let RuntimeValue::MapVal(m) = args[index].copy() {
                return Ok(m);
            }
        }
    }
    Err(arg_type_error(index, " map"))
}

} // verus!
