//! The global built-ins: `print`, `println`, `input`, `len`, and the static methods of the
//! `Future` and `Object` type objects.
pub mod global;
use vstd::prelude::*;
use crate::ast::{same_type, PrimitiveKind, Type};
use crate::runtime::builtins_builders::{
    collect_futures, first_rejection, any_pending, results_match, FutureCollectionStrategy,
};
use crate::runtime::builtins_builders::{is_str, TypeMethodBuilder};
use crate::runtime::environment::{scope_lookup, Binding, Environment};
use crate::runtime::fn_table::{fn_lookup, NamedFn};
use crate::runtime::values::{
    same_value, type_of, Entry, FutureState, FutureValue, ListValue, NativeFn, NativeFunctionValue, RuntimeValue,
};
use crate::text::{i64_to_string, int_text};
use crate::runtime::std_natives::{
    array_length, array_pop, array_push, array_reverse, array_shift, array_slice, core_string_char_at,
    core_string_len, core_string_substring, string_char_at, string_substring, string_substring_defined,
    string_split, string_replace, string_repeat, string_repeat_defined, string_index_of, array_contains,
    array_index_of, array_join, core_string_index_of, core_string_split, substring_defined, repeat_defined, string_contains, string_ends_with, string_length,
    string_lower, string_reverse, string_starts_with, string_trim, string_upper,
};

verus! {

/// The first argument, or `null` where there is none.
pub open spec fn first_arg(args: Seq<RuntimeValue>) -> RuntimeValue {
    if args.len() == 0 {
        RuntimeValue::Null
    } else {
        args[0]
    }
}

/// The text a value stands for in a message: a string as it is, an integer in decimal, a
/// boolean or null by name, any other value by its kind in brackets.
pub open spec fn value_text(v: RuntimeValue) -> Seq<char> {
    match v {
        RuntimeValue::Str(s) => s@,
        RuntimeValue::Int(i) => int_text(i as int),
        RuntimeValue::Bool(b) => if b { "true"@ } else { "false"@ },
        RuntimeValue::Null => "null"@,
        RuntimeValue::Float(_) => "[float]"@,
        RuntimeValue::List(_) => "[list]"@,
        RuntimeValue::MapVal(_) => "[map]"@,
        RuntimeValue::Object(_) => "[object]"@,
        RuntimeValue::Future(_) => "[future]"@,
        RuntimeValue::NativeFunction(_) => "[function]"@,
        RuntimeValue::NativeAsyncFunction(_) => "[function]"@,
        RuntimeValue::TypeObj(_) => "[type]"@,
    }
}

/// The text of a value; see `value_text`.
pub fn text_of(v: &RuntimeValue) -> (s: String)
    ensures
        s@ == value_text(*v),
{
    match v {
        RuntimeValue::Str(s) => s.clone(),
        RuntimeValue::Int(i) => i64_to_string(*i),
        RuntimeValue::Bool(b) => if *b { "true".to_string() } else { "false".to_string() },
        RuntimeValue::Null => "null".to_string(),
        RuntimeValue::Float(_) => "[float]".to_string(),
        RuntimeValue::List(_) => "[list]".to_string(),
        RuntimeValue::MapVal(_) => "[map]".to_string(),
        RuntimeValue::Object(_) => "[object]".to_string(),
        RuntimeValue::Future(_) => "[future]".to_string(),
        RuntimeValue::NativeFunction(_) => "[function]".to_string(),
        RuntimeValue::NativeAsyncFunction(_) => "[function]".to_string(),
        RuntimeValue::TypeObj(_) => "[type]".to_string(),
    }
}

pub open spec fn any_t() -> Type {
    Type::Primitive(PrimitiveKind::Any)
}

/// A future of type `any` rejected with `msg`.
pub open spec fn rejected_with(r: RuntimeValue, msg: Seq<char>) -> bool {
    match r {
        RuntimeValue::Future(f) => f.inner_type == any_t() && match f.state {
            FutureState::Rejected(e) => e@ == msg,
            _ => false,
        },
        _ => false,
    }
}

/// The value a future of type `any` is resolved with.
pub open spec fn resolved_any(r: RuntimeValue) -> Option<RuntimeValue> {
    match r {
        RuntimeValue::Future(f) => if f.inner_type == any_t() {
            match f.state {
                FutureState::Resolved(x) => Some(*x),
                _ => None,
            }
        } else {
            None
        },
        _ => None,
    }
}

/// A future of type `any` resolved with a list of type `any` whose elements are `elems`.
pub open spec fn resolved_list(r: RuntimeValue, elems: Seq<RuntimeValue>) -> bool {
    resolved_any(r) matches Some(x) && (x matches RuntimeValue::List(l)
        && l.element_type == any_t() && l.elements@ == elems)
}

/// A future of type `any` resolved with a list of type `any` of the results `strategy`
/// collects from `elems`.
pub open spec fn resolved_results(r: RuntimeValue, elems: Seq<RuntimeValue>, strategy: FutureCollectionStrategy) -> bool {
    resolved_any(r) matches Some(x) && (x matches RuntimeValue::List(l)
        && l.element_type == any_t() && results_match(elems, strategy, l.elements@))
}

fn reject(msg: &str) -> (r: RuntimeValue)
    ensures
        rejected_with(r, msg@),
{
    RuntimeValue::Future(FutureValue {
        state: FutureState::Rejected(msg.to_string()),
        inner_type: Type::Primitive(PrimitiveKind::Any),
    })
}

fn resolve_list(elems: Vec<RuntimeValue>) -> (r: RuntimeValue)
    ensures
        resolved_list(r, elems@),
{
    let list = RuntimeValue::List(ListValue { elements: elems, element_type: Type::Primitive(PrimitiveKind::Any) });
    RuntimeValue::Future(FutureValue {
        state: FutureState::Resolved(Box::new(list)),
        inner_type: Type::Primitive(PrimitiveKind::Any),
    })
}

/// `Future.resolve(value)`: a future resolved with the first argument (or `null`), typed by
/// that value's type.
pub fn future_resolve(args: &Vec<RuntimeValue>) -> (r: RuntimeValue)
    ensures
        match r {
            RuntimeValue::Future(f) => same_type(type_of(first_arg(args@)), f.inner_type) && match f.state {
                FutureState::Resolved(x) => same_value(first_arg(args@), *x),
                _ => false,
            },
            _ => false,
        },
{
    let value = if args.len() == 0 { RuntimeValue::Null } else { args[0].copy() };
    let value_type = if args.len() == 0 { RuntimeValue::Null.get_type() } else { args[0].get_type() };
    RuntimeValue::Future(FutureValue { state: FutureState::Resolved(Box::new(value)), inner_type: value_type })
}

/// `Future.reject(error)`: a future rejected with the text of the first argument, or with
/// `Unknown error`.
pub fn future_reject(args: &Vec<RuntimeValue>) -> (r: RuntimeValue)
    ensures
        rejected_with(r, if args@.len() == 0 { "Unknown error"@ } else { value_text(args@[0]) }),
{
    if args.len() == 0 {
        reject("Unknown error")
    } else {
        let msg = text_of(&args[0]);
        reject(msg.as_str())
    }
}

/// `Future.all(futures)`: resolved with the values of the futures in the list once none is
/// pending and none rejected; rejected with the first rejection; with no argument, resolved
/// with an empty list.
pub fn future_all(args: &Vec<RuntimeValue>) -> (r: RuntimeValue)
    ensures
        args@.len() == 0 ==> resolved_list(r, Seq::empty()),
        args@.len() > 0 ==> match args@[0] {
            RuntimeValue::List(l) => if any_pending(l.elements@) {
                rejected_with(r, "Cannot call Future.all() on pending futures. Use 'await' on all futures first."@)
            } else {
                match first_rejection(l.elements@) {
                    Some(e) => rejected_with(r, e@),
                    None => resolved_results(r, l.elements@, FutureCollectionStrategy::All),
                }
            },
            _ => rejected_with(r, "Future.all() requires a list of futures"@),
        },
{
    if args.len() == 0 {
        return resolve_list(Vec::new());
    }
    match &args[0] {
        RuntimeValue::List(list) => {
            let (results, has_pending, first_error) = collect_futures(list, FutureCollectionStrategy::All);
            if has_pending {
                reject("Cannot call Future.all() on pending futures. Use 'await' on all futures first.")
            } else {
                match first_error {
                    Some(error) => reject(error.as_str()),
                    None => resolve_list(results),
                }
            }
        },
        _ => reject("Future.all() requires a list of futures"),
    }
}

/// `Future.allSettled(futures)`: once none is pending, resolved with a status object for
/// each settled future; with no argument, resolved with an empty list.
pub fn future_all_settled(args: &Vec<RuntimeValue>) -> (r: RuntimeValue)
    ensures
        args@.len() == 0 ==> resolved_list(r, Seq::empty()),
        args@.len() > 0 ==> match args@[0] {
            RuntimeValue::List(l) => if any_pending(l.elements@) {
                rejected_with(r, "Cannot call Future.allSettled() on pending futures. Use 'await' on all futures first."@)
            } else {
                resolved_results(r, l.elements@, FutureCollectionStrategy::AllSettled)
            },
            _ => rejected_with(r, "Future.allSettled() requires a list of futures"@),
        },
{
    if args.len() == 0 {
        return resolve_list(Vec::new());
    }
    match &args[0] {
        RuntimeValue::List(list) => {
            let (results, has_pending, _) = collect_futures(list, FutureCollectionStrategy::AllSettled);
            if has_pending {
                reject("Cannot call Future.allSettled() on pending futures. Use 'await' on all futures first.")
            } else {
                resolve_list(results)
            }
        },
        _ => reject("Future.allSettled() requires a list of futures"),
    }
}

/// What `Future.race` makes of a list, looking from position `i` on.
pub enum RaceOutcome {
    AllPending,
    Resolve(RuntimeValue),
    Reject(Seq<char>),
    NotFuture,
}

/// The first element from position `i` that is settled or not a future decides the race.
pub open spec fn race_from(elems: Seq<RuntimeValue>, i: int) -> RaceOutcome
    decreases elems.len() - i,
{
    if i < 0 || i >= elems.len() {
        RaceOutcome::AllPending
    } else {
        match elems[i] {
            RuntimeValue::Future(f) => match f.state {
                FutureState::Resolved(v) => RaceOutcome::Resolve(*v),
                FutureState::Rejected(e) => RaceOutcome::Reject(e@),
                FutureState::Pending => race_from(elems, i + 1),
            },
            _ => RaceOutcome::NotFuture,
        }
    }
}

/// `Future.race(futures)`: settled as the first settled future in the list is.
pub fn future_race(args: &Vec<RuntimeValue>) -> (r: RuntimeValue)
    ensures
        args@.len() == 0 ==> rejected_with(r, "Future.race() requires a list of futures"@),
        args@.len() > 0 ==> match args@[0] {
            RuntimeValue::List(l) => if l.elements@.len() == 0 {
                rejected_with(r, "Future.race() requires at least one future"@)
            } else {
                match race_from(l.elements@, 0) {
                    RaceOutcome::Resolve(v) => resolved_any(r) matches Some(x) && same_value(v, x),
                    RaceOutcome::Reject(e) => rejected_with(r, e),
                    RaceOutcome::NotFuture => rejected_with(r, "Future.race() requires a list of futures"@),
                    RaceOutcome::AllPending => rejected_with(r,
                        "Cannot call Future.race() when all futures are pending. Use 'await' on at least one future first."@),
                }
            },
            _ => rejected_with(r, "Future.race() requires a list of futures"@),
        },
{
    if args.len() == 0 {
        return reject("Future.race() requires a list of futures");
    }
    let list = match &args[0] {
        RuntimeValue::List(list) => list,
        _ => return reject("Future.race() requires a list of futures"),
    };
    if list.elements.len() == 0 {
        return reject("Future.race() requires at least one future");
    }
    let ghost elems = list.elements@;
    let mut i: usize = 0;
    while i < list.elements.len()
        invariant
            elems == list.elements@,
            elems.len() > 0,
            args@.len() > 0,
            args@[0] == RuntimeValue::List(*list),
            i <= elems.len(),
            race_from(elems, 0) == race_from(elems, i as int),
        decreases elems.len() - i,
    {
        match &list.elements[i] {
            RuntimeValue::Future(future) => match &future.state {
                FutureState::Resolved(value) => {
                    return RuntimeValue::Future(FutureValue {
                        state: FutureState::Resolved(Box::new((**value).copy())),
                        inner_type: Type::Primitive(PrimitiveKind::Any),
                    });
                },
                FutureState::Rejected(error) => {
                    return reject(error.as_str());
                },
                FutureState::Pending => {},
            },
            _ => {
                return reject("Future.race() requires a list of futures");
            },
        }
        i = i + 1;
    }
    reject("Cannot call Future.race() when all futures are pending. Use 'await' on at least one future first.")
}

/// The value of the first resolved future in `elems`.
pub open spec fn first_resolved(elems: Seq<RuntimeValue>) -> Option<RuntimeValue>
    decreases elems.len(),
{
    if elems.len() == 0 {
        None
    } else {
        match first_resolved(elems.drop_last()) {
            Some(v) => Some(v),
            None => match elems.last() {
                RuntimeValue::Future(f) => match f.state {
                    FutureState::Resolved(v) => Some(*v),
                    _ => None,
                },
                _ => None,
            },
        }
    }
}

proof fn lemma_any_results(elems: Seq<RuntimeValue>, res: Seq<RuntimeValue>)
    requires
        results_match(elems, FutureCollectionStrategy::Any, res),
    ensures
        (res.len() == 0) == (first_resolved(elems) is None),
        res.len() > 0 ==> same_value(first_resolved(elems).unwrap(), res[0]),
    decreases elems.len(),
{
    if elems.len() > 0 {
        let d = elems.drop_last();
        if crate::runtime::builtins_builders::contributes(elems.last(), FutureCollectionStrategy::Any) {
            lemma_any_results(d, res.drop_last());
            if res.drop_last().len() > 0 {
                assert(res.drop_last()[0] == res[0]);
            }
        } else {
            lemma_any_results(d, res);
        }
    }
}

/// `Future.any(futures)`: resolved with the value of the first resolved future in the list.
pub fn future_any(args: &Vec<RuntimeValue>) -> (r: RuntimeValue)
    ensures
        args@.len() == 0 ==> rejected_with(r, "Future.any() requires a list of futures"@),
        args@.len() > 0 ==> match args@[0] {
            RuntimeValue::List(l) => if l.elements@.len() == 0 {
                rejected_with(r, "Future.any() requires at least one future"@)
            } else {
                match first_resolved(l.elements@) {
                    Some(v) => resolved_any(r) matches Some(x) && same_value(v, x),
                    None => if any_pending(l.elements@) {
                        rejected_with(r,
                            "Cannot call Future.any() when all resolved futures are rejected and some are pending. Use 'await' on futures first."@)
                    } else {
                        rejected_with(r, "All futures were rejected"@)
                    },
                }
            },
            _ => rejected_with(r, "Future.any() requires a list of futures"@),
        },
{
    if args.len() == 0 {
        return reject("Future.any() requires a list of futures");
    }
    let list = match &args[0] {
        RuntimeValue::List(list) => list,
        _ => return reject("Future.any() requires a list of futures"),
    };
    if list.elements.len() == 0 {
        return reject("Future.any() requires at least one future");
    }
    let (results, has_pending, _) = collect_futures(list, FutureCollectionStrategy::Any);
    proof {
        lemma_any_results(list.elements@, results@);
    }
    if results.len() > 0 {
        let mut results = results;
        let v = results.swap_remove(0);
        RuntimeValue::Future(FutureValue {
            state: FutureState::Resolved(Box::new(v)),
            inner_type: Type::Primitive(PrimitiveKind::Any),
        })
    } else if has_pending {
        reject("Cannot call Future.any() when all resolved futures are rejected and some are pending. Use 'await' on futures first.")
    } else {
        reject("All futures were rejected")
    }
}

/// A list of the given element type whose elements are `n` in number and each satisfy `f`.
pub open spec fn str_list_of(r: RuntimeValue, keys: Seq<Entry>) -> bool {
    match r {
        RuntimeValue::List(l) => l.element_type == Type::Primitive(PrimitiveKind::Str)
            && l.elements@.len() == keys.len()
            && forall|i: int| 0 <= i < keys.len() ==> is_str(#[trigger] l.elements@[i], keys[i].key@),
        _ => false,
    }
}

/// `Object.keys(obj)`: the names of the object's properties as a list of strings, in the
/// object's order; an empty list for anything else.
pub fn object_keys(args: &Vec<RuntimeValue>) -> (r: RuntimeValue)
    ensures
        str_list_of(r, match first_arg(args@) {
            RuntimeValue::Object(o) => o.properties@,
            _ => Seq::empty(),
        }),
{
    let mut keys: Vec<RuntimeValue> = Vec::new();
    if args.len() > 0 {
        if let RuntimeValue::Object(obj) = &args[0] {
            let ghost props = obj.properties@;
            let mut i: usize = 0;
            while i < obj.properties.len()
                invariant
                    props == obj.properties@,
                    i <= props.len(),
                    keys@.len() == i,
                    forall|j: int| 0 <= j < i ==> is_str(#[trigger] keys@[j], props[j].key@),
                decreases props.len() - i,
            {
                keys.push(RuntimeValue::Str(obj.properties[i].key.clone()));
                i = i + 1;
            }
        }
    }
    RuntimeValue::List(ListValue { elements: keys, element_type: Type::Primitive(PrimitiveKind::Str) })
}

/// `Object.values(obj)`: copies of the object's property values as a list of type `any`, in
/// the object's order; an empty list for anything else.
pub fn object_values(args: &Vec<RuntimeValue>) -> (r: RuntimeValue)
    ensures
        match r {
            RuntimeValue::List(l) => l.element_type == any_t() && match first_arg(args@) {
                RuntimeValue::Object(o) => l.elements@.len() == o.properties@.len()
                    && forall|i: int| 0 <= i < o.properties@.len() ==> same_value(
                        o.properties@[i].value, #[trigger] l.elements@[i]),
                _ => l.elements@.len() == 0,
            },
            _ => false,
        },
{
    let mut values: Vec<RuntimeValue> = Vec::new();
    if args.len() > 0 {
        if let RuntimeValue::Object(obj) = &args[0] {
            let ghost props = obj.properties@;
            let mut i: usize = 0;
            while i < obj.properties.len()
                invariant
                    props == obj.properties@,
                    i <= props.len(),
                    values@.len() == i,
                    forall|j: int| 0 <= j < i ==> same_value(props[j].value, #[trigger] values@[j]),
                decreases props.len() - i,
            {
                values.push(obj.properties[i].value.copy());
                i = i + 1;
            }
        }
    }
    RuntimeValue::List(ListValue { elements: values, element_type: Type::Primitive(PrimitiveKind::Any) })
}

/// The pair `[key, value]` of an entry, as a list of type `any`.
pub open spec fn is_entry_pair(v: RuntimeValue, e: Entry) -> bool {
    match v {
        RuntimeValue::List(l) => l.element_type == any_t() && l.elements@.len() == 2
            && is_str(l.elements@[0], e.key@) && same_value(e.value, l.elements@[1]),
        _ => false,
    }
}

/// `Object.entries(obj)`: the object's properties as `[key, value]` pairs, in the object's
/// order; an empty list for anything else.
pub fn object_entries(args: &Vec<RuntimeValue>) -> (r: RuntimeValue)
    ensures
        match r {
            RuntimeValue::List(l) => l.element_type == any_t() && match first_arg(args@) {
                RuntimeValue::Object(o) => l.elements@.len() == o.properties@.len()
                    && forall|i: int| 0 <= i < o.properties@.len() ==> is_entry_pair(
                        #[trigger] l.elements@[i], o.properties@[i]),
                _ => l.elements@.len() == 0,
            },
            _ => false,
        },
{
    let mut entries: Vec<RuntimeValue> = Vec::new();
    if args.len() > 0 {
        if let RuntimeValue::Object(obj) = &args[0] {
            let ghost props = obj.properties@;
            let mut i: usize = 0;
            while i < obj.properties.len()
                invariant
                    props == obj.properties@,
                    i <= props.len(),
                    entries@.len() == i,
                    forall|j: int| 0 <= j < i ==> is_entry_pair(#[trigger] entries@[j], props[j]),
                decreases props.len() - i,
            {
                let mut pair: Vec<RuntimeValue> = Vec::new();
                pair.push(RuntimeValue::Str(obj.properties[i].key.clone()));
                pair.push(obj.properties[i].value.copy());
                entries.push(RuntimeValue::List(ListValue { elements: pair, element_type: Type::Primitive(PrimitiveKind::Any) }));
                i = i + 1;
            }
        }
    }
    RuntimeValue::List(ListValue { elements: entries, element_type: Type::Primitive(PrimitiveKind::Any) })
}

/// `len(x)`: the number of bytes of a string, of elements of a list or of entries of a map;
/// `null` for anything else or for other than one argument.
pub fn builtin_len(args: &Vec<RuntimeValue>) -> (r: RuntimeValue)
    ensures
        r == if args@.len() != 1 {
            RuntimeValue::Null
        } else {
            match args@[0] {
                RuntimeValue::Str(s) => RuntimeValue::Int((vstd::utf8::encode_utf8(s@).len() as usize) as i64),
                RuntimeValue::List(l) => RuntimeValue::Int(l.elements@.len() as i64),
                RuntimeValue::MapVal(m) => RuntimeValue::Int(m.entries@.len() as i64),
                _ => RuntimeValue::Null,
            }
        },
{
    if args.len() != 1 {
        return RuntimeValue::Null;
    }
    match &args[0] {
        RuntimeValue::Str(s) => RuntimeValue::Int(s.as_str().len() as i64),
        RuntimeValue::List(l) => RuntimeValue::Int(l.elements.len() as i64),
        RuntimeValue::MapVal(m) => RuntimeValue::Int(m.entries.len() as i64),
        _ => RuntimeValue::Null,
    }
}

/// The value of the property `k`, the last one of that name.
pub open spec fn prop_lookup(s: Seq<Entry>, k: Seq<char>) -> Option<RuntimeValue>
    decreases s.len(),
{
    if s.len() == 0 {
        None
    } else if s.last().key@ == k {
        Some(s.last().value)
    } else {
        prop_lookup(s.drop_last(), k)
    }
}

/// Both absent, or both present with the same value.
pub open spec fn opt_same(a: Option<RuntimeValue>, b: Option<RuntimeValue>) -> bool {
    match (a, b) {
        (None, None) => true,
        (Some(x), Some(y)) => same_value(x, y),
        _ => false,
    }
}

/// The value `Object.assign` gives the property `k`: that of the last source object holding
/// it, else the target's.
pub open spec fn assigned_value(target: Seq<Entry>, sources: Seq<RuntimeValue>, k: Seq<char>) -> Option<RuntimeValue>
    decreases sources.len(),
{
    if sources.len() == 0 {
        prop_lookup(target, k)
    } else {
        match sources.last() {
            RuntimeValue::Object(o) => match prop_lookup(o.properties@, k) {
                Some(v) => Some(v),
                None => assigned_value(target, sources.drop_last(), k),
            },
            _ => assigned_value(target, sources.drop_last(), k),
        }
    }
}

/// The property `k` after setting the properties `over` on what `assigned_value` gives.
spec fn overlaid(over: Seq<Entry>, target: Seq<Entry>, sources: Seq<RuntimeValue>, k: Seq<char>) -> Option<RuntimeValue> {
    match prop_lookup(over, k) {
        Some(v) => Some(v),
        None => assigned_value(target, sources, k),
    }
}

pub(crate) proof fn lemma_copied_lookup(a: Seq<Entry>, b: Seq<Entry>, k: Seq<char>)
    requires
        a.len() == b.len(),
        forall|i: int| 0 <= i < a.len() ==> (#[trigger] a[i]).key == b[i].key && same_value(a[i].value, b[i].value),
    ensures
        opt_same(prop_lookup(a, k), prop_lookup(b, k)),
    decreases a.len(),
{
    if a.len() > 0 {
        let (da, db) = (a.drop_last(), b.drop_last());
        assert forall|i: int| 0 <= i < da.len() implies (#[trigger] da[i]).key == db[i].key && same_value(da[i].value, db[i].value) by {
            assert(da[i] == a[i] && db[i] == b[i]);
        }
        assert(a[a.len() - 1].key == b[b.len() - 1].key);
        lemma_copied_lookup(da, db, k);
    }
}

proof fn lemma_lookup_replace(s: Seq<Entry>, i: int, e: Entry, n: Seq<char>)
    requires
        0 <= i < s.len(),
        e.key@ == s[i].key@,
        forall|j: int| i < j < s.len() ==> (#[trigger] s[j]).key@ != e.key@,
    ensures
        prop_lookup(s.update(i, e), n) == if n == e.key@ { Some(e.value) } else { prop_lookup(s, n) },
    decreases s.len(),
{
    let u = s.update(i, e);
    if i == s.len() - 1 {
        assert(u.drop_last() =~= s.drop_last());
    } else {
        assert(u.drop_last() =~= s.drop_last().update(i, e));
        assert(s[s.len() - 1].key@ != e.key@);
        lemma_lookup_replace(s.drop_last(), i, e, n);
    }
}

/// A copy of the value of the property `key`, the last one of that name.
pub(crate) fn get_property(props: &Vec<Entry>, key: &str) -> (r: Option<RuntimeValue>)
    ensures
        opt_same(prop_lookup(props@, key@), r),
{
    let mut k = props.len();
    assert(props@.subrange(0, k as int) =~= props@);
    while k > 0
        invariant
            k <= props@.len(),
            prop_lookup(props@, key@) == prop_lookup(props@.subrange(0, k as int), key@),
        decreases k,
    {
        let ghost p = props@.subrange(0, k as int);
        assert(p.drop_last() =~= props@.subrange(0, k - 1));
        if crate::text::str_eq(props[k - 1].key.as_str(), key) {
            return Some(props[k - 1].value.copy());
        }
        k = k - 1;
    }
    assert(props@.subrange(0, 0) =~= Seq::<Entry>::empty());
    None
}

/// The index of the property `key`, the last one of that name.
pub(crate) fn prop_index(props: &Vec<Entry>, key: &str) -> (r: Option<usize>)
    ensures
        match r {
            Some(i) => i < props@.len() && prop_lookup(props@, key@) == Some(props@[i as int].value),
            None => prop_lookup(props@, key@) is None,
        },
{
    let mut k = props.len();
    assert(props@.subrange(0, k as int) =~= props@);
    while k > 0
        invariant
            k <= props@.len(),
            prop_lookup(props@, key@) == prop_lookup(props@.subrange(0, k as int), key@),
        decreases k,
    {
        let ghost p = props@.subrange(0, k as int);
        assert(p.drop_last() =~= props@.subrange(0, k - 1));
        if crate::text::str_eq(props[k - 1].key.as_str(), key) {
            return Some(k - 1);
        }
        k = k - 1;
    }
    assert(props@.subrange(0, 0) =~= Seq::<Entry>::empty());
    None
}

/// Sets the property `key`, replacing the last one of that name.
pub(crate) fn set_property(props: &mut Vec<Entry>, key: String, value: RuntimeValue)
    ensures
        forall|n: Seq<char>| prop_lookup(final(props)@, n) == if n == key@ { Some(value) } else { prop_lookup(old(props)@, n) },
{
    let mut k = props.len();
    while k > 0
        invariant
            k <= props@.len(),
            props@ == old(props)@,
            forall|j: int| k <= j < props@.len() ==> (#[trigger] props@[j]).key@ != key@,
        decreases k,
    {
        if crate::text::str_eq(props[k - 1].key.as_str(), key.as_str()) {
            let ghost e = Entry { key, value };
            proof {
                assert forall|n: Seq<char>| prop_lookup(props@.update(k - 1, e), n) == if n == key@ { Some(value) } else { prop_lookup(props@, n) } by {
                    lemma_lookup_replace(props@, k - 1, e, n);
                }
            }
            props.set(k - 1, Entry { key, value });
            return;
        }
        k = k - 1;
    }
    let ghost o = props@;
    props.push(Entry { key, value });
    assert(props@.drop_last() =~= o);
}

/// `Object.assign(target, ...sources)`: a copy of the target object with the properties of
/// each source object set on it in turn; a copy of the target if it is not an object; an
/// empty object of type `any` without arguments.
pub fn object_assign(args: &Vec<RuntimeValue>) -> (r: RuntimeValue)
    ensures
        args@.len() == 0 ==> (r matches RuntimeValue::Object(o) && o.properties@.len() == 0 && o.obj_type == any_t()),
        args@.len() > 0 ==> match args@[0] {
            RuntimeValue::Object(t) => match r {
                RuntimeValue::Object(o) => same_type(t.obj_type, o.obj_type) && forall|k: Seq<char>|
                    opt_same(#[trigger] assigned_value(t.properties@, args@.subrange(1, args@.len() as int), k),
                        prop_lookup(o.properties@, k)),
                _ => false,
            },
            _ => same_value(args@[0], r),
        },
{
    if args.len() == 0 {
        return RuntimeValue::Object(crate::runtime::values::ObjectValue {
            properties: Vec::new(),
            obj_type: Type::Primitive(PrimitiveKind::Any),
        });
    }
    let target = match &args[0] {
        RuntimeValue::Object(t) => t,
        _ => return args[0].copy(),
    };
    let mut props = crate::runtime::values::copy_entries(&target.properties);
    let ghost tp = target.properties@;
    proof {
        assert forall|k: Seq<char>| opt_same(assigned_value(tp, args@.subrange(1, 1), k), prop_lookup(props@, k)) by {
            assert(args@.subrange(1, 1) =~= Seq::<RuntimeValue>::empty());
            lemma_copied_lookup(tp, props@, k);
        }
    }
    let n = args.len();
    let mut j: usize = 1;
    while j < n
        invariant
            n == args@.len(),
            1 <= j <= n,
            args@[0] == RuntimeValue::Object(*target),
            tp == target.properties@,
            forall|k: Seq<char>| opt_same(#[trigger] assigned_value(tp, args@.subrange(1, j as int), k), prop_lookup(props@, k)),
        decreases n - j,
    {
        let ghost before = args@.subrange(1, j as int);
        let ghost after = args@.subrange(1, j + 1);
        assert(after.drop_last() =~= before);
        if let RuntimeValue::Object(source) = &args[j] {
            let ghost sp = source.properties@;
            let mut i: usize = 0;
            proof {
                assert(sp.subrange(0, 0) =~= Seq::<Entry>::empty());
            }
            while i < source.properties.len()
                invariant
                    sp == source.properties@,
                    i <= sp.len(),
                    forall|k: Seq<char>| opt_same(
                        #[trigger] overlaid(sp.subrange(0, i as int), tp, before, k),
                        prop_lookup(props@, k),
                    ),
                decreases sp.len() - i,
            {
                let e = &source.properties[i];
                let ghost sub = sp.subrange(0, i + 1);
                assert(sub.drop_last() =~= sp.subrange(0, i as int));
                let ghost pre = props@;
                let vc = e.value.copy();
                set_property(&mut props, e.key.clone(), vc);
                proof {
                    assert forall|k: Seq<char>| opt_same(#[trigger] overlaid(sub, tp, before, k), prop_lookup(props@, k)) by {
                        if k != sp[i as int].key@ {
                            assert(overlaid(sub, tp, before, k) == overlaid(sp.subrange(0, i as int), tp, before, k));
                        }
                    }
                }
                i = i + 1;
            }
            proof {
                assert(sp.subrange(0, sp.len() as int) =~= sp);
                assert forall|k: Seq<char>| opt_same(#[trigger] assigned_value(tp, after, k), prop_lookup(props@, k)) by {
                    assert(overlaid(sp, tp, before, k) == assigned_value(tp, after, k));
                }
            }
        } else {
            proof {
                assert forall|k: Seq<char>| opt_same(#[trigger] assigned_value(tp, after, k), prop_lookup(props@, k)) by {
                    assert(assigned_value(tp, after, k) == assigned_value(tp, before, k));
                }
            }
        }
        j = j + 1;
    }
    RuntimeValue::Object(crate::runtime::values::ObjectValue { properties: props, obj_type: target.obj_type.copy() })
}

/// `t` is the function type with the given parameter types, return type and variadicity.
pub open spec fn is_fn_type(t: Type, params: Seq<Type>, ret: Type, variadic: bool) -> bool {
    match t {
        Type::Function { params: p, return_type, is_variadic } => p@ == params && *return_type == ret
            && is_variadic == variadic,
        _ => false,
    }
}

pub(crate) fn fn_type(params: Vec<Type>, ret: Type, variadic: bool) -> (t: Type)
    ensures
        is_fn_type(t, params@, ret, variadic),
{
    Type::Function { params, return_type: Box::new(ret), is_variadic: variadic }
}

fn any_to_any() -> (t: Type)
    ensures
        is_fn_type(t, seq![any_t()], any_t(), false),
{
    let mut params: Vec<Type> = Vec::new();
    params.push(Type::Primitive(PrimitiveKind::Any));
    fn_type(params, Type::Primitive(PrimitiveKind::Any), false)
}

/// The static method `name` of a list of methods runs `f` and has type `(any) -> any`.
pub open spec fn any_method(methods: Seq<NamedFn>, name: Seq<char>, f: NativeFn) -> bool {
    match fn_lookup(methods, name) {
        Some(m) => m.implementation == f && is_fn_type(m.fn_type, seq![any_t()], any_t(), false),
        None => false,
    }
}

/// `scope` binds `Future` to a type object with the `Future` static methods.
pub open spec fn future_object_bound(scope: Seq<Binding>) -> bool {
    match scope_lookup(scope, "Future"@) {
        Some(RuntimeValue::TypeObj(t)) => t.type_def == any_t()
            && any_method(t.static_methods@, "resolve"@, NativeFn::FutureResolve)
            && any_method(t.static_methods@, "reject"@, NativeFn::FutureReject)
            && any_method(t.static_methods@, "all"@, NativeFn::FutureAll)
            && any_method(t.static_methods@, "race"@, NativeFn::FutureRace)
            && any_method(t.static_methods@, "allSettled"@, NativeFn::FutureAllSettled)
            && any_method(t.static_methods@, "any"@, NativeFn::FutureAny),
        _ => false,
    }
}

/// `scope` binds `Object` to a type object with the `Object` static methods.
pub open spec fn object_object_bound(scope: Seq<Binding>) -> bool {
    match scope_lookup(scope, "Object"@) {
        Some(RuntimeValue::TypeObj(t)) => t.type_def == any_t()
            && any_method(t.static_methods@, "keys"@, NativeFn::ObjectKeys)
            && any_method(t.static_methods@, "values"@, NativeFn::ObjectValues)
            && any_method(t.static_methods@, "entries"@, NativeFn::ObjectEntries)
            && match fn_lookup(t.static_methods@, "assign"@) {
                Some(m) => m.implementation == NativeFn::ObjectAssign
                    && is_fn_type(m.fn_type, Seq::empty(), any_t(), true),
                None => false,
            },
        _ => false,
    }
}

proof fn lemma_future_names()
    ensures
        "resolve"@ != "reject"@, "resolve"@ != "all"@, "resolve"@ != "race"@, "resolve"@ != "allSettled"@,
        "resolve"@ != "any"@, "reject"@ != "all"@, "reject"@ != "race"@, "reject"@ != "allSettled"@,
        "reject"@ != "any"@, "all"@ != "race"@, "all"@ != "allSettled"@, "all"@ != "any"@,
        "race"@ != "allSettled"@, "race"@ != "any"@, "allSettled"@ != "any"@,
{
    reveal_strlit("resolve");
    reveal_strlit("reject");
    reveal_strlit("all");
    reveal_strlit("race");
    reveal_strlit("allSettled");
    reveal_strlit("any");
    assert("resolve"@.len() == 7 && "reject"@.len() == 6 && "all"@.len() == 3 && "race"@.len() == 4);
    assert("allSettled"@.len() == 10 && "any"@.len() == 3);
    assert("all"@[1] != "any"@[1]);
}

proof fn lemma_object_names()
    ensures
        "keys"@ != "values"@, "keys"@ != "entries"@, "keys"@ != "assign"@, "values"@ != "entries"@,
        "values"@ != "assign"@, "entries"@ != "assign"@,
{
    reveal_strlit("keys");
    reveal_strlit("values");
    reveal_strlit("entries");
    reveal_strlit("assign");
    assert("keys"@.len() == 4 && "values"@.len() == 6 && "entries"@.len() == 7 && "assign"@.len() == 6);
    assert("values"@[0] != "assign"@[0]);
}

/// The native functions of the library that compute on values alone: `len`, the static
/// methods of `Future` and `Object`, the `string` and `array` modules and the `core_` string
/// primitives. Printing, reading and functions of the host are not among them.
pub open spec fn is_pure_builtin(f: NativeFn) -> bool {
    match f {
        NativeFn::Len | NativeFn::FutureResolve | NativeFn::FutureReject | NativeFn::FutureAll
        | NativeFn::FutureRace | NativeFn::FutureAllSettled | NativeFn::FutureAny | NativeFn::ObjectKeys
        | NativeFn::ObjectValues | NativeFn::ObjectEntries | NativeFn::ObjectAssign => true,
        NativeFn::Host(_) | NativeFn::Print | NativeFn::Eprint | NativeFn::Println | NativeFn::Input => false,
        _ => true,
    }
}

/// The native function that the tag `f` stands for is defined on `args`: `substring` only
/// where its cut falls on character boundaries and `repeat` only where its result fits;
/// every other one everywhere. Where it is not, the original panics, and the library leaves
/// the call to its caller.
pub open spec fn builtin_defined(f: NativeFn, args: Seq<RuntimeValue>) -> bool {
    match f {
        NativeFn::StrSubstring => substring_defined(args),
        NativeFn::StrRepeat => repeat_defined(args),
        _ => true,
    }
}

/// `v` is what the function that the tag `f` stands for gives on `args`: `len` for `Len`,
/// `future_all` for `FutureAll`, `object_assign` for `ObjectAssign`, and so on.
pub open spec fn builtin_call(f: NativeFn, args: &Vec<RuntimeValue>, v: RuntimeValue) -> bool {
    match f {
        NativeFn::Len => call_ensures(builtin_len, (args,), v),
        NativeFn::FutureResolve => call_ensures(future_resolve, (args,), v),
        NativeFn::FutureReject => call_ensures(future_reject, (args,), v),
        NativeFn::FutureAll => call_ensures(future_all, (args,), v),
        NativeFn::FutureRace => call_ensures(future_race, (args,), v),
        NativeFn::FutureAllSettled => call_ensures(future_all_settled, (args,), v),
        NativeFn::FutureAny => call_ensures(future_any, (args,), v),
        NativeFn::ObjectKeys => call_ensures(object_keys, (args,), v),
        NativeFn::ObjectValues => call_ensures(object_values, (args,), v),
        NativeFn::ObjectEntries => call_ensures(object_entries, (args,), v),
        NativeFn::ObjectAssign => call_ensures(object_assign, (args,), v),
        NativeFn::StrLength => call_ensures(string_length, (args,), v),
        NativeFn::StrUpper => call_ensures(string_upper, (args,), v),
        NativeFn::StrLower => call_ensures(string_lower, (args,), v),
        NativeFn::StrTrim => call_ensures(string_trim, (args,), v),
        NativeFn::StrContains => call_ensures(string_contains, (args,), v),
        NativeFn::StrStartsWith => call_ensures(string_starts_with, (args,), v),
        NativeFn::StrEndsWith => call_ensures(string_ends_with, (args,), v),
        NativeFn::StrReverse => call_ensures(string_reverse, (args,), v),
        NativeFn::StrCharAt => call_ensures(string_char_at, (args,), v),
        NativeFn::ArrLength => call_ensures(array_length, (args,), v),
        NativeFn::ArrPush => call_ensures(array_push, (args,), v),
        NativeFn::ArrPop => call_ensures(array_pop, (args,), v),
        NativeFn::ArrShift => call_ensures(array_shift, (args,), v),
        NativeFn::ArrSlice => call_ensures(array_slice, (args,), v),
        NativeFn::ArrReverse => call_ensures(array_reverse, (args,), v),
        NativeFn::CoreStrLen => call_ensures(core_string_len, (args,), v),
        NativeFn::CoreStrCharAt => call_ensures(core_string_char_at, (args,), v),
        NativeFn::CoreStrSubstring => call_ensures(core_string_substring, (args,), v),
        NativeFn::StrSubstring => call_ensures(string_substring, (args,), v),
        NativeFn::StrSplit => call_ensures(string_split, (args,), v),
        NativeFn::StrReplace => call_ensures(string_replace, (args,), v),
        NativeFn::StrRepeat => call_ensures(string_repeat, (args,), v),
        NativeFn::StrIndexOf => call_ensures(string_index_of, (args,), v),
        NativeFn::ArrContains => call_ensures(array_contains, (args,), v),
        NativeFn::ArrIndexOf => call_ensures(array_index_of, (args,), v),
        NativeFn::ArrJoin => call_ensures(array_join, (args,), v),
        NativeFn::CoreStrIndexOf => call_ensures(core_string_index_of, (args,), v),
        NativeFn::CoreStrSplit => call_ensures(core_string_split, (args,), v),
        _ => false,
    }
}

/// Runs the native function that the tag `f` stands for, where it is one of the library's
/// own: the result of that function on `args`. For printing, reading and host functions it
/// gives `None`, and the caller runs them.
pub fn call_builtin(f: NativeFn, args: &Vec<RuntimeValue>) -> (r: Option<RuntimeValue>)
    ensures
        is_pure_builtin(f) && builtin_defined(f, args@) ==> (r matches Some(v) && builtin_call(f, args, v)),
        !(is_pure_builtin(f) && builtin_defined(f, args@)) ==> r is None,
{
    match f {
        NativeFn::Len => Some(builtin_len(args)),
        NativeFn::FutureResolve => Some(future_resolve(args)),
        NativeFn::FutureReject => Some(future_reject(args)),
        NativeFn::FutureAll => Some(future_all(args)),
        NativeFn::FutureRace => Some(future_race(args)),
        NativeFn::FutureAllSettled => Some(future_all_settled(args)),
        NativeFn::FutureAny => Some(future_any(args)),
        NativeFn::ObjectKeys => Some(object_keys(args)),
        NativeFn::ObjectValues => Some(object_values(args)),
        NativeFn::ObjectEntries => Some(object_entries(args)),
        NativeFn::ObjectAssign => Some(object_assign(args)),
        NativeFn::StrLength => Some(string_length(args)),
        NativeFn::StrUpper => Some(string_upper(args)),
        NativeFn::StrLower => Some(string_lower(args)),
        NativeFn::StrTrim => Some(string_trim(args)),
        NativeFn::StrContains => Some(string_contains(args)),
        NativeFn::StrStartsWith => Some(string_starts_with(args)),
        NativeFn::StrEndsWith => Some(string_ends_with(args)),
        NativeFn::StrReverse => Some(string_reverse(args)),
        NativeFn::StrCharAt => Some(string_char_at(args)),
        NativeFn::ArrLength => Some(array_length(args)),
        NativeFn::ArrPush => Some(array_push(args)),
        NativeFn::ArrPop => Some(array_pop(args)),
        NativeFn::ArrShift => Some(array_shift(args)),
        NativeFn::ArrSlice => Some(array_slice(args)),
        NativeFn::ArrReverse => Some(array_reverse(args)),
        NativeFn::CoreStrLen => Some(core_string_len(args)),
        NativeFn::CoreStrCharAt => Some(core_string_char_at(args)),
        NativeFn::CoreStrSubstring => Some(core_string_substring(args)),
        NativeFn::StrSubstring => if string_substring_defined(args) { Some(string_substring(args)) } else { None },
        NativeFn::StrSplit => Some(string_split(args)),
        NativeFn::StrReplace => Some(string_replace(args)),
        NativeFn::StrRepeat => if string_repeat_defined(args) { Some(string_repeat(args)) } else { None },
        NativeFn::StrIndexOf => Some(string_index_of(args)),
        NativeFn::ArrContains => Some(array_contains(args)),
        NativeFn::ArrIndexOf => Some(array_index_of(args)),
        NativeFn::ArrJoin => Some(array_join(args)),
        NativeFn::CoreStrIndexOf => Some(core_string_index_of(args)),
        NativeFn::CoreStrSplit => Some(core_string_split(args)),
        _ => None,
    }
}

/// Calling the static method `name` of the type object bound to `ty` in `scope` with `args`
/// gives `v`: the method's native function, run as the library runs it.
pub open spec fn static_method_called(scope: Seq<Binding>, ty: Seq<char>, name: Seq<char>, args: &Vec<RuntimeValue>, v: RuntimeValue) -> bool {
    match scope_lookup(scope, ty) {
        Some(RuntimeValue::TypeObj(t)) => match fn_lookup(t.static_methods@, name) {
            Some(m) => builtin_call(m.implementation, args, v),
            None => false,
        },
        _ => false,
    }
}

/// `Future.all`, as bound by the built-ins, is `future_all`: called with no argument it
/// gives a future resolved with an empty list.
pub proof fn law_future_all_is_future_all(scope: Seq<Binding>, args: &Vec<RuntimeValue>, v: RuntimeValue)
    requires
        future_object_bound(scope),
        static_method_called(scope, "Future"@, "all"@, args, v),
    ensures
        call_ensures(future_all, (args,), v),
        args@.len() == 0 ==> resolved_list(v, Seq::empty()),
{
}

/// `Object.assign`, as bound by the built-ins, is `object_assign`: called with no argument it
/// gives an empty object.
pub proof fn law_object_assign_is_object_assign(scope: Seq<Binding>, args: &Vec<RuntimeValue>, v: RuntimeValue)
    requires
        object_object_bound(scope),
        static_method_called(scope, "Object"@, "assign"@, args, v),
    ensures
        call_ensures(object_assign, (args,), v),
        args@.len() == 0 ==> (v matches RuntimeValue::Object(o) && o.properties@.len() == 0),
{
}

/// Declares the `Future` type object and its static methods `resolve`, `reject`, `all`,
/// `race`, `allSettled` and `any` in the innermost scope.
pub fn register_future_object(env: &mut Environment)
    requires
        old(env).view().len() > 0,
    ensures
        final(env).view().len() == old(env).view().len(),
        final(env).view().drop_last() == old(env).view().drop_last(),
        forall|n: Seq<char>| n != "Future"@ ==> scope_lookup(final(env).view().last(), n)
            == scope_lookup(old(env).view().last(), n),
        scope_lookup(old(env).view().last(), "Future"@) is None ==> future_object_bound(final(env).view().last()),
{
    proof {
        lemma_future_names();
    }
    let mut builder = TypeMethodBuilder::new("Future");
    builder.add_method("resolve", any_to_any(), NativeFn::FutureResolve);
    builder.add_method("reject", any_to_any(), NativeFn::FutureReject);
    builder.add_method("all", any_to_any(), NativeFn::FutureAll);
    builder.add_method("race", any_to_any(), NativeFn::FutureRace);
    builder.add_method("allSettled", any_to_any(), NativeFn::FutureAllSettled);
    builder.add_method("any", any_to_any(), NativeFn::FutureAny);
    proof {
        builder.lemma_method_in_view("resolve"@);
        builder.lemma_method_in_view("reject"@);
        builder.lemma_method_in_view("all"@);
        builder.lemma_method_in_view("race"@);
        builder.lemma_method_in_view("allSettled"@);
        builder.lemma_method_in_view("any"@);
    }
    builder.build(env);
}

/// Declares the `Object` type object and its static methods `keys`, `values`, `entries`
/// and `assign` in the innermost scope.
pub fn register_object_object(env: &mut Environment)
    requires
        old(env).view().len() > 0,
    ensures
        final(env).view().len() == old(env).view().len(),
        final(env).view().drop_last() == old(env).view().drop_last(),
        forall|n: Seq<char>| n != "Object"@ ==> scope_lookup(final(env).view().last(), n)
            == scope_lookup(old(env).view().last(), n),
        scope_lookup(old(env).view().last(), "Object"@) is None ==> object_object_bound(final(env).view().last()),
{
    proof {
        lemma_object_names();
    }
    let mut builder = TypeMethodBuilder::new("Object");
    builder.add_method("keys", any_to_any(), NativeFn::ObjectKeys);
    builder.add_method("values", any_to_any(), NativeFn::ObjectValues);
    builder.add_method("entries", any_to_any(), NativeFn::ObjectEntries);
    builder.add_method("assign", fn_type(Vec::new(), Type::Primitive(PrimitiveKind::Any), true), NativeFn::ObjectAssign);
    proof {
        builder.lemma_method_in_view("keys"@);
        builder.lemma_method_in_view("values"@);
        builder.lemma_method_in_view("entries"@);
        builder.lemma_method_in_view("assign"@);
    }
    builder.build(env);
}

/// `scope` binds `name` to a native function running `f` with the given type.
pub open spec fn native_bound(scope: Seq<Binding>, name: Seq<char>, f: NativeFn, params: Seq<Type>, ret: Type, variadic: bool) -> bool {
    match scope_lookup(scope, name) {
        Some(RuntimeValue::NativeFunction(nf)) => nf.implementation == f && is_fn_type(nf.fn_type, params, ret, variadic),
        _ => false,
    }
}

pub open spec fn prim(k: PrimitiveKind) -> Type {
    Type::Primitive(k)
}

/// `scope` binds every global built-in.
pub open spec fn builtins_bound(scope: Seq<Binding>) -> bool {
    &&& native_bound(scope, "print"@, NativeFn::Print, Seq::empty(), prim(PrimitiveKind::Void), true)
    &&& native_bound(scope, "println"@, NativeFn::Println, seq![prim(PrimitiveKind::Str)], prim(PrimitiveKind::Void), false)
    &&& native_bound(scope, "input"@, NativeFn::Input, seq![prim(PrimitiveKind::Str), prim(PrimitiveKind::Bool)],
        prim(PrimitiveKind::Str), false)
    &&& native_bound(scope, "len"@, NativeFn::Len, seq![any_t()], prim(PrimitiveKind::Int), false)
    &&& future_object_bound(scope)
    &&& object_object_bound(scope)
}

/// None of the global built-ins' names is bound in `scope`.
pub open spec fn builtin_names_free(scope: Seq<Binding>) -> bool {
    &&& scope_lookup(scope, "print"@) is None
    &&& scope_lookup(scope, "println"@) is None
    &&& scope_lookup(scope, "input"@) is None
    &&& scope_lookup(scope, "len"@) is None
    &&& scope_lookup(scope, "Future"@) is None
    &&& scope_lookup(scope, "Object"@) is None
}

proof fn lemma_global_names()
    ensures
        "print"@ != "println"@, "print"@ != "input"@, "print"@ != "len"@, "print"@ != "Future"@, "print"@ != "Object"@,
        "println"@ != "input"@, "println"@ != "len"@, "println"@ != "Future"@, "println"@ != "Object"@,
        "input"@ != "len"@, "input"@ != "Future"@, "input"@ != "Object"@,
        "len"@ != "Future"@, "len"@ != "Object"@, "Future"@ != "Object"@,
{
    reveal_strlit("print");
    reveal_strlit("println");
    reveal_strlit("input");
    reveal_strlit("len");
    reveal_strlit("Future");
    reveal_strlit("Object");
    assert("print"@.len() == 5 && "println"@.len() == 7 && "input"@.len() == 5 && "len"@.len() == 3);
    assert("Future"@.len() == 6 && "Object"@.len() == 6);
    assert("print"@[0] != "input"@[0] && "Future"@[0] != "Object"@[0]);
}

/// Declares `name` bound to a native function in the innermost scope, where it is free.
pub(crate) fn declare_native(env: &mut Environment, name: &str, f: NativeFn, fn_type: Type)
    requires
        old(env).view().len() > 0,
    ensures
        final(env).view().len() == old(env).view().len(),
        final(env).view().drop_last() == old(env).view().drop_last(),
        forall|n: Seq<char>| n != name@ ==> scope_lookup(final(env).view().last(), n)
            == scope_lookup(old(env).view().last(), n),
        scope_lookup(old(env).view().last(), name@) is None ==> scope_lookup(final(env).view().last(), name@)
            == Some(RuntimeValue::NativeFunction(NativeFunctionValue { implementation: f, fn_type })),
{
    let ghost before = env.view();
    let value = RuntimeValue::NativeFunction(NativeFunctionValue::new(f, fn_type));
    let _ = env.declare(name.to_string(), value);
    proof {
        let after = env.view();
        assert(after.drop_last() =~= before.drop_last());
        if scope_lookup(before.last(), name@) is None {
            assert(after.last().drop_last() =~= before.last());
        }
    }
}

/// Declares the global built-ins `print`, `println`, `input` and `len`, and the `Future`
/// and `Object` type objects, in the innermost scope. A name already declared there keeps
/// its value.
pub fn setup_builtins(env: &mut Environment)
    requires
        old(env).view().len() > 0,
    ensures
        final(env).view().len() == old(env).view().len(),
        final(env).view().drop_last() == old(env).view().drop_last(),
        builtin_names_free(old(env).view().last()) ==> builtins_bound(final(env).view().last()),
{
    proof {
        lemma_global_names();
    }
    let ghost s0 = env.view().last();
    declare_native(env, "print", NativeFn::Print, fn_type(Vec::new(), Type::Primitive(PrimitiveKind::Void), true));
    let ghost s1 = env.view().last();
    let mut p1: Vec<Type> = Vec::new();
    p1.push(Type::Primitive(PrimitiveKind::Str));
    assert(p1@ =~= seq![prim(PrimitiveKind::Str)]);
    declare_native(env, "println", NativeFn::Println, fn_type(p1, Type::Primitive(PrimitiveKind::Void), false));
    let ghost s2 = env.view().last();
    let mut p2: Vec<Type> = Vec::new();
    p2.push(Type::Primitive(PrimitiveKind::Str));
    p2.push(Type::Primitive(PrimitiveKind::Bool));
    assert(p2@ =~= seq![prim(PrimitiveKind::Str), prim(PrimitiveKind::Bool)]);
    declare_native(env, "input", NativeFn::Input, fn_type(p2, Type::Primitive(PrimitiveKind::Str), false));
    let ghost s3 = env.view().last();
    let mut p3: Vec<Type> = Vec::new();
    p3.push(Type::Primitive(PrimitiveKind::Any));
    assert(p3@ =~= seq![any_t()]);
    declare_native(env, "len", NativeFn::Len, fn_type(p3, Type::Primitive(PrimitiveKind::Int), false));
    let ghost s4 = env.view().last();
    register_future_object(env);
    let ghost s5 = env.view().last();
    register_object_object(env);
    proof {
        let s6 = env.view().last();
        if builtin_names_free(s0) {
            assert(native_bound(s1, "print"@, NativeFn::Print, Seq::empty(), prim(PrimitiveKind::Void), true));
            assert(scope_lookup(s6, "print"@) == scope_lookup(s1, "print"@));
            assert(scope_lookup(s6, "println"@) == scope_lookup(s2, "println"@));
            assert(scope_lookup(s6, "input"@) == scope_lookup(s3, "input"@));
            assert(scope_lookup(s6, "len"@) == scope_lookup(s4, "len"@));
            assert(scope_lookup(s6, "Future"@) == scope_lookup(s5, "Future"@));
            assert(scope_lookup(s4, "Future"@) is None);
            assert(scope_lookup(s5, "Object"@) is None);
        }
    }
}

/// `scope` binds `string` to a module object whose functions run the `string` natives.
pub open spec fn string_module_bound(scope: Seq<Binding>) -> bool {
    match scope_lookup(scope, "string"@) {
        Some(RuntimeValue::TypeObj(t)) => {
            &&& any_method(t.static_methods@, "length"@, NativeFn::StrLength)
            &&& any_method(t.static_methods@, "upper"@, NativeFn::StrUpper)
            &&& any_method(t.static_methods@, "lower"@, NativeFn::StrLower)
            &&& any_method(t.static_methods@, "trim"@, NativeFn::StrTrim)
            &&& any_method(t.static_methods@, "contains"@, NativeFn::StrContains)
            &&& any_method(t.static_methods@, "starts_with"@, NativeFn::StrStartsWith)
            &&& any_method(t.static_methods@, "ends_with"@, NativeFn::StrEndsWith)
            &&& any_method(t.static_methods@, "reverse"@, NativeFn::StrReverse)
            &&& any_method(t.static_methods@, "char_at"@, NativeFn::StrCharAt)
            &&& any_method(t.static_methods@, "substring"@, NativeFn::StrSubstring)
            &&& any_method(t.static_methods@, "split"@, NativeFn::StrSplit)
            &&& any_method(t.static_methods@, "replace"@, NativeFn::StrReplace)
            &&& any_method(t.static_methods@, "repeat"@, NativeFn::StrRepeat)
            &&& any_method(t.static_methods@, "index_of"@, NativeFn::StrIndexOf)
        },
        _ => false,
    }
}

/// `scope` binds `array` to a module object whose functions run the `array` natives.
pub open spec fn array_module_bound(scope: Seq<Binding>) -> bool {
    match scope_lookup(scope, "array"@) {
        Some(RuntimeValue::TypeObj(t)) => {
            &&& any_method(t.static_methods@, "length"@, NativeFn::ArrLength)
            &&& any_method(t.static_methods@, "push"@, NativeFn::ArrPush)
            &&& any_method(t.static_methods@, "pop"@, NativeFn::ArrPop)
            &&& any_method(t.static_methods@, "shift"@, NativeFn::ArrShift)
            &&& any_method(t.static_methods@, "slice"@, NativeFn::ArrSlice)
            &&& any_method(t.static_methods@, "reverse"@, NativeFn::ArrReverse)
            &&& any_method(t.static_methods@, "contains"@, NativeFn::ArrContains)
            &&& any_method(t.static_methods@, "index_of"@, NativeFn::ArrIndexOf)
            &&& any_method(t.static_methods@, "join"@, NativeFn::ArrJoin)
        },
        _ => false,
    }
}

proof fn lemma_string_module_names()
    ensures
        "length"@ != "upper"@, "length"@ != "lower"@, "length"@ != "trim"@, "length"@ != "contains"@, "length"@ != "starts_with"@, "length"@ != "ends_with"@, "length"@ != "reverse"@, "length"@ != "char_at"@, "length"@ != "substring"@, "length"@ != "split"@, "length"@ != "replace"@, "length"@ != "repeat"@, "length"@ != "index_of"@, "upper"@ != "lower"@, "upper"@ != "trim"@, "upper"@ != "contains"@, "upper"@ != "starts_with"@, "upper"@ != "ends_with"@, "upper"@ != "reverse"@, "upper"@ != "char_at"@, "upper"@ != "substring"@, "upper"@ != "split"@, "upper"@ != "replace"@, "upper"@ != "repeat"@, "upper"@ != "index_of"@, "lower"@ != "trim"@, "lower"@ != "contains"@, "lower"@ != "starts_with"@, "lower"@ != "ends_with"@, "lower"@ != "reverse"@, "lower"@ != "char_at"@, "lower"@ != "substring"@, "lower"@ != "split"@, "lower"@ != "replace"@, "lower"@ != "repeat"@, "lower"@ != "index_of"@, "trim"@ != "contains"@, "trim"@ != "starts_with"@, "trim"@ != "ends_with"@, "trim"@ != "reverse"@, "trim"@ != "char_at"@, "trim"@ != "substring"@, "trim"@ != "split"@, "trim"@ != "replace"@, "trim"@ != "repeat"@, "trim"@ != "index_of"@, "contains"@ != "starts_with"@, "contains"@ != "ends_with"@, "contains"@ != "reverse"@, "contains"@ != "char_at"@, "contains"@ != "substring"@, "contains"@ != "split"@, "contains"@ != "replace"@, "contains"@ != "repeat"@, "contains"@ != "index_of"@, "starts_with"@ != "ends_with"@, "starts_with"@ != "reverse"@, "starts_with"@ != "char_at"@, "starts_with"@ != "substring"@, "starts_with"@ != "split"@, "starts_with"@ != "replace"@, "starts_with"@ != "repeat"@, "starts_with"@ != "index_of"@, "ends_with"@ != "reverse"@, "ends_with"@ != "char_at"@, "ends_with"@ != "substring"@, "ends_with"@ != "split"@, "ends_with"@ != "replace"@, "ends_with"@ != "repeat"@, "ends_with"@ != "index_of"@, "reverse"@ != "char_at"@, "reverse"@ != "substring"@, "reverse"@ != "split"@, "reverse"@ != "replace"@, "reverse"@ != "repeat"@, "reverse"@ != "index_of"@, "char_at"@ != "substring"@, "char_at"@ != "split"@, "char_at"@ != "replace"@, "char_at"@ != "repeat"@, "char_at"@ != "index_of"@, "substring"@ != "split"@, "substring"@ != "replace"@, "substring"@ != "repeat"@, "substring"@ != "index_of"@, "split"@ != "replace"@, "split"@ != "repeat"@, "split"@ != "index_of"@, "replace"@ != "repeat"@, "replace"@ != "index_of"@, "repeat"@ != "index_of"@,
{
    reveal_strlit("length");
    reveal_strlit("upper");
    reveal_strlit("lower");
    reveal_strlit("trim");
    reveal_strlit("contains");
    reveal_strlit("starts_with");
    reveal_strlit("ends_with");
    reveal_strlit("reverse");
    reveal_strlit("char_at");
    reveal_strlit("substring");
    reveal_strlit("split");
    reveal_strlit("replace");
    reveal_strlit("repeat");
    reveal_strlit("index_of");
    assert("length"@.len() == 6 && "upper"@.len() == 5 && "lower"@.len() == 5 && "trim"@.len() == 4 && "contains"@.len() == 8 && "starts_with"@.len() == 11 && "ends_with"@.len() == 9 && "reverse"@.len() == 7 && "char_at"@.len() == 7 && "substring"@.len() == 9 && "split"@.len() == 5 && "replace"@.len() == 7 && "repeat"@.len() == 6 && "index_of"@.len() == 8);
    assert("length"@[0] != "repeat"@[0]);
    assert("upper"@[0] != "lower"@[0]);
    assert("upper"@[0] != "split"@[0]);
    assert("lower"@[0] != "split"@[0]);
    assert("contains"@[0] != "index_of"@[0]);
    assert("ends_with"@[0] != "substring"@[0]);
    assert("reverse"@[0] != "char_at"@[0]);
    assert("reverse"@[2] != "replace"@[2]);
    assert("char_at"@[0] != "replace"@[0]);
}

proof fn lemma_array_module_names()
    ensures
        "length"@ != "push"@, "length"@ != "pop"@, "length"@ != "shift"@, "length"@ != "slice"@, "length"@ != "reverse"@, "length"@ != "contains"@, "length"@ != "index_of"@, "length"@ != "join"@, "push"@ != "pop"@, "push"@ != "shift"@, "push"@ != "slice"@, "push"@ != "reverse"@, "push"@ != "contains"@, "push"@ != "index_of"@, "push"@ != "join"@, "pop"@ != "shift"@, "pop"@ != "slice"@, "pop"@ != "reverse"@, "pop"@ != "contains"@, "pop"@ != "index_of"@, "pop"@ != "join"@, "shift"@ != "slice"@, "shift"@ != "reverse"@, "shift"@ != "contains"@, "shift"@ != "index_of"@, "shift"@ != "join"@, "slice"@ != "reverse"@, "slice"@ != "contains"@, "slice"@ != "index_of"@, "slice"@ != "join"@, "reverse"@ != "contains"@, "reverse"@ != "index_of"@, "reverse"@ != "join"@, "contains"@ != "index_of"@, "contains"@ != "join"@, "index_of"@ != "join"@,
{
    reveal_strlit("length");
    reveal_strlit("push");
    reveal_strlit("pop");
    reveal_strlit("shift");
    reveal_strlit("slice");
    reveal_strlit("reverse");
    reveal_strlit("contains");
    reveal_strlit("index_of");
    reveal_strlit("join");
    assert("length"@.len() == 6 && "push"@.len() == 4 && "pop"@.len() == 3 && "shift"@.len() == 5 && "slice"@.len() == 5 && "reverse"@.len() == 7 && "contains"@.len() == 8 && "index_of"@.len() == 8 && "join"@.len() == 4);
    assert("push"@[0] != "join"@[0]);
    assert("shift"@[1] != "slice"@[1]);
    assert("contains"@[0] != "index_of"@[0]);
}

/// Declares the `string` module, with its functions `length`, `upper`, `lower`, `trim`,
/// `contains`, `starts_with`, `ends_with`, `reverse`, `char_at`, `substring`, `split`,
/// `replace`, `repeat` and `index_of`, in the innermost scope.
pub fn register_string_module(env: &mut Environment)
    requires
        old(env).view().len() > 0,
    ensures
        final(env).view().len() == old(env).view().len(),
        final(env).view().drop_last() == old(env).view().drop_last(),
        forall|n: Seq<char>| n != "string"@ ==> scope_lookup(final(env).view().last(), n)
            == scope_lookup(old(env).view().last(), n),
        scope_lookup(old(env).view().last(), "string"@) is None ==> string_module_bound(final(env).view().last()),
{
    proof {
        lemma_string_module_names();
    }
    let mut builder = TypeMethodBuilder::new("string");
    builder.add_method("length", any_to_any(), NativeFn::StrLength);
    builder.add_method("upper", any_to_any(), NativeFn::StrUpper);
    builder.add_method("lower", any_to_any(), NativeFn::StrLower);
    builder.add_method("trim", any_to_any(), NativeFn::StrTrim);
    builder.add_method("contains", any_to_any(), NativeFn::StrContains);
    builder.add_method("starts_with", any_to_any(), NativeFn::StrStartsWith);
    builder.add_method("ends_with", any_to_any(), NativeFn::StrEndsWith);
    builder.add_method("reverse", any_to_any(), NativeFn::StrReverse);
    builder.add_method("char_at", any_to_any(), NativeFn::StrCharAt);
    builder.add_method("substring", any_to_any(), NativeFn::StrSubstring);
    builder.add_method("split", any_to_any(), NativeFn::StrSplit);
    builder.add_method("replace", any_to_any(), NativeFn::StrReplace);
    builder.add_method("repeat", any_to_any(), NativeFn::StrRepeat);
    builder.add_method("index_of", any_to_any(), NativeFn::StrIndexOf);
    proof {
        builder.lemma_method_in_view("length"@);
        builder.lemma_method_in_view("upper"@);
        builder.lemma_method_in_view("lower"@);
        builder.lemma_method_in_view("trim"@);
        builder.lemma_method_in_view("contains"@);
        builder.lemma_method_in_view("starts_with"@);
        builder.lemma_method_in_view("ends_with"@);
        builder.lemma_method_in_view("reverse"@);
        builder.lemma_method_in_view("char_at"@);
        builder.lemma_method_in_view("substring"@);
        builder.lemma_method_in_view("split"@);
        builder.lemma_method_in_view("replace"@);
        builder.lemma_method_in_view("repeat"@);
        builder.lemma_method_in_view("index_of"@);
    }
    builder.build(env);
}

/// Declares the `array` module, with its functions `length`, `push`, `pop`, `shift`, `slice`,
/// `reverse`, `contains`, `index_of` and `join`, in the innermost scope.
pub fn register_array_module(env: &mut Environment)
    requires
        old(env).view().len() > 0,
    ensures
        final(env).view().len() == old(env).view().len(),
        final(env).view().drop_last() == old(env).view().drop_last(),
        forall|n: Seq<char>| n != "array"@ ==> scope_lookup(final(env).view().last(), n)
            == scope_lookup(old(env).view().last(), n),
        scope_lookup(old(env).view().last(), "array"@) is None ==> array_module_bound(final(env).view().last()),
{
    proof {
        lemma_array_module_names();
    }
    let mut builder = TypeMethodBuilder::new("array");
    builder.add_method("length", any_to_any(), NativeFn::ArrLength);
    builder.add_method("push", any_to_any(), NativeFn::ArrPush);
    builder.add_method("pop", any_to_any(), NativeFn::ArrPop);
    builder.add_method("shift", any_to_any(), NativeFn::ArrShift);
    builder.add_method("slice", any_to_any(), NativeFn::ArrSlice);
    builder.add_method("reverse", any_to_any(), NativeFn::ArrReverse);
    builder.add_method("contains", any_to_any(), NativeFn::ArrContains);
    builder.add_method("index_of", any_to_any(), NativeFn::ArrIndexOf);
    builder.add_method("join", any_to_any(), NativeFn::ArrJoin);
    proof {
        builder.lemma_method_in_view("length"@);
        builder.lemma_method_in_view("push"@);
        builder.lemma_method_in_view("pop"@);
        builder.lemma_method_in_view("shift"@);
        builder.lemma_method_in_view("slice"@);
        builder.lemma_method_in_view("reverse"@);
        builder.lemma_method_in_view("contains"@);
        builder.lemma_method_in_view("index_of"@);
        builder.lemma_method_in_view("join"@);
    }
    builder.build(env);
}

/// Calling `string.reverse`, as the module binds it, reverses the characters of its text.
pub proof fn law_string_reverse_is_reverse(scope: Seq<Binding>, args: &Vec<RuntimeValue>, v: RuntimeValue)
    requires
        string_module_bound(scope),
        static_method_called(scope, "string"@, "reverse"@, args, v),
    ensures
        call_ensures(string_reverse, (args,), v),
        v matches RuntimeValue::Str(t) && t@ == crate::runtime::std_natives::str_arg(args@, 0).reverse(),
{
}

/// Calling `array.push`, as the module binds it, gives a list one element longer than a list
/// it is handed together with an element.
pub proof fn law_array_push_appends(scope: Seq<Binding>, args: &Vec<RuntimeValue>, v: RuntimeValue)
    requires
        array_module_bound(scope),
        static_method_called(scope, "array"@, "push"@, args, v),
        args@.len() == 2,
        args@[0] is List,
    ensures
        v matches RuntimeValue::List(m) && m.elements@.len() == args@[0]->List_0.elements@.len() + 1
            && same_value(args@[1], m.elements@.last()),
{
    if let RuntimeValue::List(l) = args@[0] {
        assert(l.elements@.push(args@[1])[l.elements@.len() as int] == args@[1]);
    }
}

/// The names under which the `core_` string primitives are declared, in order.
pub open spec fn core_primitive_names() -> Seq<Seq<char>> {
    seq![
        "core_string_len"@, "core_string_char_at"@, "core_string_substring"@, "core_string_to_upper"@,
        "core_string_to_lower"@, "core_string_trim"@, "core_string_starts_with"@, "core_string_ends_with"@,
        "core_string_contains"@, "core_string_replace"@, "core_string_index_of"@, "core_string_split"@,
    ]
}

/// The native function that the `core_` primitive at `i` runs.
pub open spec fn core_primitive_fn(i: int) -> NativeFn {
    if i == 0 { NativeFn::CoreStrLen }
    else if i == 1 { NativeFn::CoreStrCharAt }
    else if i == 2 { NativeFn::CoreStrSubstring }
    else if i == 3 { NativeFn::StrUpper }
    else if i == 4 { NativeFn::StrLower }
    else if i == 5 { NativeFn::StrTrim }
    else if i == 6 { NativeFn::StrStartsWith }
    else if i == 7 { NativeFn::StrEndsWith }
    else if i == 8 { NativeFn::StrContains }
    else if i == 9 { NativeFn::StrReplace }
    else if i == 10 { NativeFn::CoreStrIndexOf }
    else { NativeFn::CoreStrSplit }
}

/// `scope` binds every `core_` primitive, with no namespace, to its native function, of type
/// `(any...) -> any`.
pub open spec fn core_primitives_bound(scope: Seq<Binding>) -> bool {
    forall|i: int| 0 <= i < core_primitive_names().len() ==> native_bound(scope, #[trigger] core_primitive_names()[i],
        core_primitive_fn(i), Seq::empty(), any_t(), true)
}

/// Every name of a `core_` primitive begins with `core_`.
pub proof fn law_core_names_prefixed()
    ensures
        forall|i: int| 0 <= i < core_primitive_names().len() ==> (#[trigger] core_primitive_names()[i]).len() >= 5
            && core_primitive_names()[i].subrange(0, 5) == "core_"@,
{
    lemma_core_names();
    reveal_strlit("core_");
    assert forall|i: int| 0 <= i < core_primitive_names().len() implies (#[trigger] core_primitive_names()[i]).len() >= 5
        && core_primitive_names()[i].subrange(0, 5) == "core_"@ by {
        assert(core_primitive_names()[i].subrange(0, 5) =~= "core_"@);
    }
}

proof fn lemma_core_names()
    ensures
        forall|i: int, j: int| 0 <= i < j < core_primitive_names().len() ==>
            #[trigger] core_primitive_names()[i] != #[trigger] core_primitive_names()[j],
        forall|i: int| 0 <= i < core_primitive_names().len() ==> (#[trigger] core_primitive_names()[i]).len() >= 12
            && core_primitive_names()[i][0] == 'c' && core_primitive_names()[i][1] == 'o'
            && core_primitive_names()[i][2] == 'r' && core_primitive_names()[i][3] == 'e'
            && core_primitive_names()[i][4] == '_',
{
    reveal_strlit("core_string_len");
    reveal_strlit("core_string_char_at");
    reveal_strlit("core_string_substring");
    reveal_strlit("core_string_to_upper");
    reveal_strlit("core_string_to_lower");
    reveal_strlit("core_string_trim");
    reveal_strlit("core_string_starts_with");
    reveal_strlit("core_string_ends_with");
    reveal_strlit("core_string_contains");
    reveal_strlit("core_string_replace");
    reveal_strlit("core_string_index_of");
    reveal_strlit("core_string_split");
    let n = core_primitive_names();
    assert(n[11].len() == 17);
    assert(n[9].len() == 19 && n[10].len() == 20);
    assert(n[9][12] != n[1][12]);
    assert(n[10][12] != n[3][12] && n[10][12] != n[4][12] && n[10][12] != n[8][12]);
    assert(n[0].len() == 15 && n[1].len() == 19 && n[2].len() == 21 && n[3].len() == 20 && n[4].len() == 20);
    assert(n[5].len() == 16 && n[6].len() == 23 && n[7].len() == 21 && n[8].len() == 20);
    assert(n[2][12] != n[7][12]);
    assert(n[3][12] != n[8][12] && n[4][12] != n[8][12] && n[3][15] != n[4][15]);
}

/// Declares the `core_` string primitives, with no namespace, in the innermost scope; a
/// name already declared there keeps its value.
pub fn register_core_primitives(env: &mut Environment)
    requires
        old(env).view().len() > 0,
    ensures
        final(env).view().len() == old(env).view().len(),
        final(env).view().drop_last() == old(env).view().drop_last(),
        forall|n: Seq<char>| !core_primitive_names().contains(n) ==> scope_lookup(final(env).view().last(), n)
            == scope_lookup(old(env).view().last(), n),
        (forall|i: int| 0 <= i < core_primitive_names().len() ==> scope_lookup(old(env).view().last(),
            #[trigger] core_primitive_names()[i]) is None) ==> core_primitives_bound(final(env).view().last()),
{
    proof {
        lemma_core_names();
    }
    let ghost names = core_primitive_names();
    let ghost s0 = env.view().last();
    declare_native(env, "core_string_len", NativeFn::CoreStrLen, fn_type(Vec::new(), Type::Primitive(PrimitiveKind::Any), true));
    let ghost s1 = env.view().last();
    declare_native(env, "core_string_char_at", NativeFn::CoreStrCharAt, fn_type(Vec::new(), Type::Primitive(PrimitiveKind::Any), true));
    let ghost s2 = env.view().last();
    declare_native(env, "core_string_substring", NativeFn::CoreStrSubstring, fn_type(Vec::new(), Type::Primitive(PrimitiveKind::Any), true));
    let ghost s3 = env.view().last();
    declare_native(env, "core_string_to_upper", NativeFn::StrUpper, fn_type(Vec::new(), Type::Primitive(PrimitiveKind::Any), true));
    let ghost s4 = env.view().last();
    declare_native(env, "core_string_to_lower", NativeFn::StrLower, fn_type(Vec::new(), Type::Primitive(PrimitiveKind::Any), true));
    let ghost s5 = env.view().last();
    declare_native(env, "core_string_trim", NativeFn::StrTrim, fn_type(Vec::new(), Type::Primitive(PrimitiveKind::Any), true));
    let ghost s6 = env.view().last();
    declare_native(env, "core_string_starts_with", NativeFn::StrStartsWith, fn_type(Vec::new(), Type::Primitive(PrimitiveKind::Any), true));
    let ghost s7 = env.view().last();
    declare_native(env, "core_string_ends_with", NativeFn::StrEndsWith, fn_type(Vec::new(), Type::Primitive(PrimitiveKind::Any), true));
    let ghost s8 = env.view().last();
    declare_native(env, "core_string_contains", NativeFn::StrContains, fn_type(Vec::new(), Type::Primitive(PrimitiveKind::Any), true));
    let ghost s9 = env.view().last();
    declare_native(env, "core_string_replace", NativeFn::StrReplace, fn_type(Vec::new(), Type::Primitive(PrimitiveKind::Any), true));
    let ghost s10 = env.view().last();
    declare_native(env, "core_string_index_of", NativeFn::CoreStrIndexOf, fn_type(Vec::new(), Type::Primitive(PrimitiveKind::Any), true));
    let ghost s11 = env.view().last();
    declare_native(env, "core_string_split", NativeFn::CoreStrSplit, fn_type(Vec::new(), Type::Primitive(PrimitiveKind::Any), true));
    proof {
        let s12 = env.view().last();
        let st = seq![s0, s1, s2, s3, s4, s5, s6, s7, s8, s9, s10, s11, s12];
        assert forall|n: Seq<char>| !names.contains(n) implies scope_lookup(s12, n) == scope_lookup(s0, n) by {
            assert(n != names[0] && n != names[1] && n != names[2] && n != names[3] && n != names[4]);
            assert(n != names[5] && n != names[6] && n != names[7] && n != names[8] && n != names[9]);
            assert(n != names[10] && n != names[11]);
        }
        if forall|i: int| 0 <= i < names.len() ==> scope_lookup(s0, #[trigger] names[i]) is None {
            assert forall|i: int| 0 <= i < names.len() implies native_bound(s12, #[trigger] names[i],
                core_primitive_fn(i), Seq::empty(), any_t(), true) by {
                assert(scope_lookup(s0, names[i]) is None);
                assert(forall|k: int| 0 <= k < 12 && k != i ==> names[k] != names[i]);
                assert(scope_lookup(st[i], names[i]) is None) by {
                    assert(forall|k: int| 0 <= k < i ==> scope_lookup(#[trigger] st[k + 1], names[i]) == scope_lookup(st[k], names[i]));
                    if i >= 1 { assert(scope_lookup(st[1], names[i]) is None); }
                    if i >= 2 { assert(scope_lookup(st[2], names[i]) is None); }
                    if i >= 3 { assert(scope_lookup(st[3], names[i]) is None); }
                    if i >= 4 { assert(scope_lookup(st[4], names[i]) is None); }
                    if i >= 5 { assert(scope_lookup(st[5], names[i]) is None); }
                    if i >= 6 { assert(scope_lookup(st[6], names[i]) is None); }
                    if i >= 7 { assert(scope_lookup(st[7], names[i]) is None); }
                    if i >= 8 { assert(scope_lookup(st[8], names[i]) is None); }
                    if i >= 9 { assert(scope_lookup(st[9], names[i]) is None); }
                    if i >= 10 { assert(scope_lookup(st[10], names[i]) is None); }
                    if i >= 11 { assert(scope_lookup(st[11], names[i]) is None); }
                }
                assert(scope_lookup(s12, names[i]) == scope_lookup(st[i + 1], names[i]));
            }
        }
    }
}

} // verus!
