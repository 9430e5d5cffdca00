//! Tables of native functions by name, with the semantics of a map: one entry per name,
//! and registering a name again replaces its entry.
use vstd::prelude::*;
use crate::runtime::values::{same_native, NativeFunctionValue};
use crate::text::{str_eq, views};

verus! {

/// A native function under a name.
#[derive(Debug)]
pub struct NamedFn {
    pub name: String,
    pub function: NativeFunctionValue,
}

/// The function registered under `name`.
pub open spec fn fn_lookup(s: Seq<NamedFn>, name: Seq<char>) -> Option<NativeFunctionValue>
    decreases s.len(),
{
    if s.len() == 0 {
        None
    } else if s.last().name@ == name {
        Some(s.last().function)
    } else {
        fn_lookup(s.drop_last(), name)
    }
}

/// The names of the entries, in table order.
pub open spec fn fn_names(s: Seq<NamedFn>) -> Seq<Seq<char>> {
    s.map_values(|e: NamedFn| e.name@)
}

/// No name occurs twice.
pub open spec fn unique_names(s: Seq<NamedFn>) -> bool {
    forall|i: int, j: int| 0 <= i < j < s.len() ==> (#[trigger] s[i]).name@ != (#[trigger] s[j]).name@
}

proof fn lemma_lookup_index(s: Seq<NamedFn>, i: int)
    requires
        unique_names(s),
        0 <= i < s.len(),
    ensures
        fn_lookup(s, s[i].name@) == Some(s[i].function),
    decreases s.len(),
{
    if i < s.len() - 1 {
        assert(s[s.len() - 1].name@ != s[i].name@);
        assert(s.drop_last()[i] == s[i]);
        lemma_lookup_index(s.drop_last(), i);
    }
}

proof fn lemma_lookup_absent(s: Seq<NamedFn>, name: Seq<char>)
    requires
        forall|i: int| 0 <= i < s.len() ==> (#[trigger] s[i]).name@ != name,
    ensures
        fn_lookup(s, name) is None,
    decreases s.len(),
{
    if s.len() > 0 {
        assert(s[s.len() - 1].name@ != name);
        let d = s.drop_last();
        assert forall|i: int| 0 <= i < d.len() implies (#[trigger] d[i]).name@ != name by {
            assert(d[i] == s[i]);
        }
        lemma_lookup_absent(d, name);
    }
}

proof fn lemma_lookup_found(s: Seq<NamedFn>, name: Seq<char>) -> (i: int)
    requires
        fn_lookup(s, name) is Some,
    ensures
        0 <= i < s.len(),
        s[i].name@ == name,
    decreases s.len(),
{
    if s.last().name@ == name {
        s.len() - 1
    } else {
        let i = lemma_lookup_found(s.drop_last(), name);
        assert(s.drop_last()[i] == s[i]);
        i
    }
}

/// Looking a name up in a table with unique names finds its entry, if any.
pub proof fn lemma_lookup_unique(s: Seq<NamedFn>, name: Seq<char>)
    requires
        unique_names(s),
    ensures
        fn_lookup(s, name) is Some <==> fn_names(s).contains(name),
{
    if fn_lookup(s, name) is Some {
        let i = lemma_lookup_found(s, name);
        assert(fn_names(s)[i] == name);
    }
    if fn_names(s).contains(name) {
        let i = choose|i: int| 0 <= i < fn_names(s).len() && fn_names(s)[i] == name;
        lemma_lookup_index(s, i);
    } else {
        assert forall|i: int| 0 <= i < s.len() implies (#[trigger] s[i]).name@ != name by {
            assert(fn_names(s)[i] == s[i].name@);
        }
        lemma_lookup_absent(s, name);
    }
}

/// The index of the entry named `name`.
fn find(t: &Vec<NamedFn>, name: &str) -> (r: Option<usize>)
    ensures
        match r {
            Some(i) => i < t@.len() && t@[i as int].name@ == name@,
            None => forall|i: int| 0 <= i < t@.len() ==> (#[trigger] t@[i]).name@ != name@,
        },
{
    let mut i: usize = 0;
    while i < t.len()
        invariant
            i <= t@.len(),
            forall|j: int| 0 <= j < i ==> (#[trigger] t@[j]).name@ != name@,
        decreases t@.len() - i,
    {
        if str_eq(t[i].name.as_str(), name) {
            return Some(i);
        }
        i = i + 1;
    }
    None
}

/// Registers `function` under `name`, replacing an entry of that name.
pub fn table_insert(t: &mut Vec<NamedFn>, name: String, function: NativeFunctionValue)
    requires
        unique_names(old(t)@),
    ensures
        unique_names(final(t)@),
        fn_lookup(final(t)@, name@) == Some(function),
        forall|n: Seq<char>| n != name@ ==> fn_lookup(final(t)@, n) == fn_lookup(old(t)@, n),
        fn_names(final(t)@).to_set() == fn_names(old(t)@).to_set().insert(name@),
        fn_lookup(old(t)@, name@) is None ==> final(t)@.len() == old(t)@.len() + 1,
        fn_lookup(old(t)@, name@) is Some ==> final(t)@.len() == old(t)@.len(),
{
    let ghost nm = name@;
    match find(t, name.as_str()) {
        Some(i) => {
            let ghost o = t@;
            proof { lemma_lookup_index(o, i as int); }
            t.set(i, NamedFn { name, function });
            proof {
                let s = t@;
                assert(unique_names(s)) by {
                    assert forall|a: int, b: int| 0 <= a < b < s.len() implies (#[trigger] s[a]).name@ != (#[trigger] s[b]).name@ by {
                        assert(o[a].name@ != o[b].name@);
                    }
                }
                lemma_lookup_index(s, i as int);
                assert forall|n: Seq<char>| n != nm implies fn_lookup(s, n) == fn_lookup(o, n) by {
                    lemma_lookup_unique(s, n);
                    lemma_lookup_unique(o, n);
                    if fn_lookup(o, n) is Some {
                        let k = lemma_lookup_found(o, n);
                        assert(s[k] == o[k]);
                        lemma_lookup_index(s, k);
                        lemma_lookup_index(o, k);
                    } else if fn_lookup(s, n) is Some {
                        let k = lemma_lookup_found(s, n);
                        assert(s[k] == o[k]);
                        lemma_lookup_index(o, k);
                    }
                }
                assert(fn_names(s) =~= fn_names(o).update(i as int, nm));
                assert(fn_names(s).to_set() =~= fn_names(o).to_set().insert(nm)) by {
                    assert forall|x: Seq<char>| fn_names(s).contains(x) <==> fn_names(o).to_set().insert(nm).contains(x) by {
                        if fn_names(o).contains(x) && x != nm {
                            let k = choose|k: int| 0 <= k < fn_names(o).len() && fn_names(o)[k] == x;
                            assert(fn_names(s)[k] == x);
                        }
                        if x == nm {
                            assert(fn_names(s)[i as int] == x);
                        }
                        if fn_names(s).contains(x) && x != nm {
                            let k = choose|k: int| 0 <= k < fn_names(s).len() && fn_names(s)[k] == x;
                            assert(fn_names(o)[k] == x);
                        }
                    }
                }
            }
        },
        None => {
            let ghost o = t@;
            proof { lemma_lookup_absent(o, nm); }
            t.push(NamedFn { name, function });
            proof {
                let s = t@;
                assert(unique_names(s)) by {
                    assert forall|a: int, b: int| 0 <= a < b < s.len() implies (#[trigger] s[a]).name@ != (#[trigger] s[b]).name@ by {
                        if b < o.len() {
                            assert(o[a].name@ != o[b].name@);
                        } else {
                            assert(s[a] == o[a]);
                        }
                    }
                }
                assert(s.drop_last() =~= o);
                assert(fn_names(s) =~= fn_names(o).push(nm));
                assert(fn_names(s).to_set() =~= fn_names(o).to_set().insert(nm)) by {
                    assert forall|x: Seq<char>| fn_names(s).contains(x) <==> fn_names(o).to_set().insert(nm).contains(x) by {
                        if fn_names(o).contains(x) {
                            let k = choose|k: int| 0 <= k < fn_names(o).len() && fn_names(o)[k] == x;
                            assert(fn_names(s)[k] == x);
                        }
                        if x == nm {
                            assert(fn_names(s)[o.len() as int] == x);
                        }
                        if fn_names(s).contains(x) && x != nm {
                            let k = choose|k: int| 0 <= k < fn_names(s).len() && fn_names(s)[k] == x;
                            assert(fn_names(o)[k] == x);
                        }
                    }
                }
            }
        },
    }
}

/// A copy of the function registered under `name`.
pub fn table_get(t: &Vec<NamedFn>, name: &str) -> (r: Option<NativeFunctionValue>)
    requires
        unique_names(t@),
    ensures
        match fn_lookup(t@, name@) {
            Some(f) => r matches Some(g) && same_native(f, g),
            None => r is None,
        },
{
    match find(t, name) {
        Some(i) => {
            proof { lemma_lookup_index(t@, i as int); }
            Some(t[i].function.copy())
        },
        None => {
            proof { lemma_lookup_absent(t@, name@); }
            None
        },
    }
}

/// Whether a function is registered under `name`.
pub fn table_contains(t: &Vec<NamedFn>, name: &str) -> (b: bool)
    requires
        unique_names(t@),
    ensures
        b == fn_lookup(t@, name@) is Some,
{
    match find(t, name) {
        Some(i) => {
            proof { lemma_lookup_index(t@, i as int); }
            true
        },
        None => {
            proof { lemma_lookup_absent(t@, name@); }
            false
        },
    }
}

/// The names in the table, appended to `out`.
pub fn table_names(t: &Vec<NamedFn>, out: &mut Vec<String>)
    ensures
        views(final(out)@) == views(old(out)@) + fn_names(t@),
{
    let mut i: usize = 0;
    while i < t.len()
        invariant
            i <= t@.len(),
            views(out@) == views(old(out)@) + fn_names(t@).subrange(0, i as int),
        decreases t@.len() - i,
    {
        let ghost before = out@;
        out.push(t[i].name.clone());
        assert(views(out@) =~= views(before).push(t@[i as int].name@));
        assert(fn_names(t@).subrange(0, i + 1) =~= fn_names(t@).subrange(0, i as int).push(t@[i as int].name@));
        i = i + 1;
    }
    assert(fn_names(t@).subrange(0, t@.len() as int) =~= fn_names(t@));
}

} // verus!
