//! Registries of native functions, grouped by plugin namespaces.
use vstd::prelude::*;
use crate::ast::Type;
use crate::runtime::environment::{scope_lookup, Environment};
use crate::runtime::fn_table::{
    fn_lookup, fn_names, lemma_lookup_unique, table_contains, table_get, table_insert, table_names, unique_names,
    NamedFn,
};
use crate::runtime::values::{same_native, NativeFunctionValue, RuntimeValue};
use crate::text::{sort_strings, sorted_views, str_eq, views};

verus! {

/// A source of native functions that registers them under its namespace.
pub trait NativePlugin {
    /// The namespace of the plugin, as text.
    spec fn namespace_view(&self) -> Seq<char>;

    /// The namespace of the plugin's functions.
    fn namespace(&self) -> (r: &str)
        ensures
            r@ == self.namespace_view(),
    ;

    /// The full names of the synchronous functions the plugin registers.
    spec fn function_names(&self) -> Set<Seq<char>>;

    /// Registers the plugin's functions: each of `function_names` can then be called.
    fn register(&self, registry: &mut PluginRegistry)
        requires
            old(registry).wf(),
        ensures
            final(registry).wf(),
            forall|n: Seq<char>| #[trigger] self.function_names().contains(n) ==> final(registry).sync_fn(n) is Some,
    ;
}

/// The functions registered under one namespace.
#[derive(Debug)]
pub struct NamespaceEntry {
    pub name: String,
    pub functions: Vec<String>,
}

/// The names registered under namespace `ns`.
pub open spec fn ns_lookup(s: Seq<NamespaceEntry>, ns: Seq<char>) -> Option<Seq<Seq<char>>>
    decreases s.len(),
{
    if s.len() == 0 {
        None
    } else if s.last().name@ == ns {
        Some(views(s.last().functions@))
    } else {
        ns_lookup(s.drop_last(), ns)
    }
}

pub open spec fn unique_ns(s: Seq<NamespaceEntry>) -> bool {
    forall|i: int, j: int| 0 <= i < j < s.len() ==> (#[trigger] s[i]).name@ != (#[trigger] s[j]).name@
}

/// `namespace.name`, or `name` without a namespace.
pub open spec fn full_name(name: Seq<char>, namespace: Option<Seq<char>>) -> Seq<char> {
    match namespace {
        Some(ns) => ns + seq!['.'] + name,
        None => name,
    }
}

/// Native functions by name, synchronous and asynchronous, and the names each namespace
/// registered.
pub struct PluginRegistry {
    sync_functions: Vec<NamedFn>,
    async_functions: Vec<NamedFn>,
    namespaces: Vec<NamespaceEntry>,
}

proof fn lemma_ns_index(s: Seq<NamespaceEntry>, i: int)
    requires
        unique_ns(s),
        0 <= i < s.len(),
    ensures
        ns_lookup(s, s[i].name@) == Some(views(s[i].functions@)),
    decreases s.len(),
{
    if i < s.len() - 1 {
        assert(s[s.len() - 1].name@ != s[i].name@);
        assert(s.drop_last()[i] == s[i]);
        lemma_ns_index(s.drop_last(), i);
    }
}

proof fn lemma_ns_absent(s: Seq<NamespaceEntry>, ns: Seq<char>)
    requires
        forall|i: int| 0 <= i < s.len() ==> (#[trigger] s[i]).name@ != ns,
    ensures
        ns_lookup(s, ns) is None,
    decreases s.len(),
{
    if s.len() > 0 {
        assert(s[s.len() - 1].name@ != ns);
        let d = s.drop_last();
        assert forall|i: int| 0 <= i < d.len() implies (#[trigger] d[i]).name@ != ns by {
            assert(d[i] == s[i]);
        }
        lemma_ns_absent(d, ns);
    }
}

fn find_ns(s: &Vec<NamespaceEntry>, ns: &str) -> (r: Option<usize>)
    ensures
        match r {
            Some(i) => i < s@.len() && s@[i as int].name@ == ns@,
            None => forall|i: int| 0 <= i < s@.len() ==> (#[trigger] s@[i]).name@ != ns@,
        },
{
    let mut i: usize = 0;
    while i < s.len()
        invariant
            i <= s@.len(),
            forall|j: int| 0 <= j < i ==> (#[trigger] s@[j]).name@ != ns@,
        decreases s@.len() - i,
    {
        if str_eq(s[i].name.as_str(), ns) {
            return Some(i);
        }
        i = i + 1;
    }
    None
}

fn copy_strings(v: &Vec<String>) -> (r: Vec<String>)
    ensures
        r@ == v@,
{
    let mut r: Vec<String> = Vec::new();
    let mut i: usize = 0;
    while i < v.len()
        invariant
            i <= v@.len(),
            r@ == v@.subrange(0, i as int),
        decreases v@.len() - i,
    {
        r.push(v[i].clone());
        assert(v@.subrange(0, i + 1) =~= v@.subrange(0, i as int).push(v@[i as int]));
        i = i + 1;
    }
    assert(v@.subrange(0, v@.len() as int) =~= v@);
    r
}

impl PluginRegistry {
    /// Names are unique in each table and among the namespaces.
    pub closed spec fn wf(&self) -> bool {
        &&& unique_names(self.sync_functions@)
        &&& unique_names(self.async_functions@)
        &&& unique_ns(self.namespaces@)
    }

    /// The synchronous function under a full name.
    pub closed spec fn sync_fn(&self, name: Seq<char>) -> Option<NativeFunctionValue> {
        fn_lookup(self.sync_functions@, name)
    }

    /// The asynchronous function under a full name.
    pub closed spec fn async_fn(&self, name: Seq<char>) -> Option<NativeFunctionValue> {
        fn_lookup(self.async_functions@, name)
    }

    /// The full names of the synchronous functions.
    pub closed spec fn sync_names(&self) -> Seq<Seq<char>> {
        fn_names(self.sync_functions@)
    }

    /// The full names of the asynchronous functions.
    pub closed spec fn async_names(&self) -> Seq<Seq<char>> {
        fn_names(self.async_functions@)
    }

    /// The names registered under a namespace, in order.
    pub closed spec fn namespace_fns(&self, ns: Seq<char>) -> Option<Seq<Seq<char>>> {
        ns_lookup(self.namespaces@, ns)
    }

    /// The namespaces.
    pub closed spec fn namespace_names(&self) -> Seq<Seq<char>> {
        self.namespaces@.map_values(|e: NamespaceEntry| e.name@)
    }

    /// The names listed are those that have a function, each listed once.
    pub proof fn lemma_names(&self)
        requires
            self.wf(),
        ensures
            self.sync_names().no_duplicates(),
            self.async_names().no_duplicates(),
            forall|n: Seq<char>| #[trigger] self.sync_names().contains(n) <==> self.sync_fn(n) is Some,
            forall|n: Seq<char>| #[trigger] self.async_names().contains(n) <==> self.async_fn(n) is Some,
    {
        assert forall|n: Seq<char>| #[trigger] self.sync_names().contains(n) <==> self.sync_fn(n) is Some by {
            lemma_lookup_unique(self.sync_functions@, n);
        }
        assert forall|n: Seq<char>| #[trigger] self.async_names().contains(n) <==> self.async_fn(n) is Some by {
            lemma_lookup_unique(self.async_functions@, n);
        }
        let s = self.sync_functions@;
        assert forall|i: int, j: int| 0 <= i < fn_names(s).len() && 0 <= j < fn_names(s).len() && i != j
            implies fn_names(s)[i] != fn_names(s)[j] by {
            if i < j { assert(s[i].name@ != s[j].name@); } else { assert(s[j].name@ != s[i].name@); }
        }
        let a = self.async_functions@;
        assert forall|i: int, j: int| 0 <= i < fn_names(a).len() && 0 <= j < fn_names(a).len() && i != j
            implies fn_names(a)[i] != fn_names(a)[j] by {
            if i < j { assert(a[i].name@ != a[j].name@); } else { assert(a[j].name@ != a[i].name@); }
        }
    }

    pub fn new() -> (r: PluginRegistry)
        ensures
            r.wf(),
            forall|n: Seq<char>| r.sync_fn(n) is None && r.async_fn(n) is None && r.namespace_fns(n) is None,
            r.sync_names().len() == 0,
            r.async_names().len() == 0,
            r.namespace_names().len() == 0,
    {
        PluginRegistry { sync_functions: Vec::new(), async_functions: Vec::new(), namespaces: Vec::new() }
    }

    /// Appends `name` to the names of namespace `ns`.
    fn add_to_namespace(&mut self, ns: &str, name: String)
        requires
            old(self).wf(),
        ensures
            final(self).wf(),
            final(self).sync_functions@ == old(self).sync_functions@,
            final(self).async_functions@ == old(self).async_functions@,
            final(self).namespace_fns(ns@) == Some(match old(self).namespace_fns(ns@) {
                Some(v) => v,
                None => Seq::empty(),
            }.push(name@)),
            forall|n: Seq<char>| n != ns@ ==> final(self).namespace_fns(n) == old(self).namespace_fns(n),
    {
        let ghost o = self.namespaces@;
        match find_ns(&self.namespaces, ns) {
            Some(i) => {
                let mut entry = self.namespaces.remove(i);
                let ghost oe = entry;
                proof { lemma_ns_index(o, i as int); }
                entry.functions.push(name);
                let ghost ne = entry;
                self.namespaces.insert(i, entry);
                proof {
                    let s = self.namespaces@;
                    assert(s =~= o.update(i as int, ne));
                    assert(unique_ns(s)) by {
                        assert forall|a: int, b: int| 0 <= a < b < s.len() implies (#[trigger] s[a]).name@ != (#[trigger] s[b]).name@ by {
                            assert(o[a].name@ != o[b].name@);
                        }
                    }
                    lemma_ns_index(s, i as int);
                    assert(views(ne.functions@) =~= views(oe.functions@).push(name@));
                    assert forall|n: Seq<char>| n != ns@ implies ns_lookup(s, n) == ns_lookup(o, n) by {
                        if exists|k: int| 0 <= k < o.len() && o[k].name@ == n {
                            let k = choose|k: int| 0 <= k < o.len() && o[k].name@ == n;
                            assert(s[k] == o[k]);
                            lemma_ns_index(s, k);
                            lemma_ns_index(o, k);
                        } else {
                            assert forall|k: int| 0 <= k < s.len() implies (#[trigger] s[k]).name@ != n by {
                                if k != i { assert(s[k] == o[k]); }
                            }
                            lemma_ns_absent(s, n);
                            lemma_ns_absent(o, n);
                        }
                    }
                }
            },
            None => {
                proof { lemma_ns_absent(o, ns@); }
                let mut functions: Vec<String> = Vec::new();
                functions.push(name);
                self.namespaces.push(NamespaceEntry { name: String::from_str(ns), functions });
                proof {
                    let s = self.namespaces@;
                    assert(s.drop_last() =~= o);
                    assert(unique_ns(s)) by {
                        assert forall|a: int, b: int| 0 <= a < b < s.len() implies (#[trigger] s[a]).name@ != (#[trigger] s[b]).name@ by {
                            if b < o.len() {
                                assert(o[a].name@ != o[b].name@);
                            } else {
                                assert(s[a] == o[a]);
                            }
                        }
                    }
                    assert(views(s.last().functions@) =~= Seq::<Seq<char>>::empty().push(name@));
                    assert forall|n: Seq<char>| n != ns@ implies ns_lookup(s, n) == ns_lookup(o, n) by {
                        assert(s.last().name@ == ns@);
                    }
                }
            },
        }
    }

    /// Registers a synchronous function under `namespace.name` (or `name`), replacing one of
    /// that full name, and records `name` under the namespace.
    pub fn register_sync(&mut self, name: &str, namespace: Option<&str>, fn_type: Type, implementation: NativeFunctionValue)
        requires
            old(self).wf(),
        ensures
            final(self).wf(),
            final(self).sync_fn(full_name(name@, match namespace { Some(n) => Some(n@), None => None })) == Some(implementation),
            forall|n: Seq<char>| n != full_name(name@, match namespace { Some(ns) => Some(ns@), None => None })
                ==> final(self).sync_fn(n) == old(self).sync_fn(n),
            forall|n: Seq<char>| final(self).async_fn(n) == old(self).async_fn(n),
            match namespace {
                Some(ns) => final(self).namespace_fns(ns@) == Some(match old(self).namespace_fns(ns@) {
                    Some(v) => v,
                    None => Seq::empty(),
                }.push(name@)) && forall|n: Seq<char>| n != ns@ ==> final(self).namespace_fns(n) == old(self).namespace_fns(n),
                None => forall|n: Seq<char>| final(self).namespace_fns(n) == old(self).namespace_fns(n),
            },
    {
        let full = make_full_name(name, namespace);
        table_insert(&mut self.sync_functions, full, implementation);
        if let Some(ns) = namespace {
            self.add_to_namespace(ns, String::from_str(name));
        }
    }

    /// Registers an asynchronous function, as [`PluginRegistry::register_sync`] does a
    /// synchronous one.
    pub fn register_async(&mut self, name: &str, namespace: Option<&str>, fn_type: Type, implementation: NativeFunctionValue)
        requires
            old(self).wf(),
        ensures
            final(self).wf(),
            final(self).async_fn(full_name(name@, match namespace { Some(n) => Some(n@), None => None })) == Some(implementation),
            forall|n: Seq<char>| n != full_name(name@, match namespace { Some(ns) => Some(ns@), None => None })
                ==> final(self).async_fn(n) == old(self).async_fn(n),
            forall|n: Seq<char>| final(self).sync_fn(n) == old(self).sync_fn(n),
            match namespace {
                Some(ns) => final(self).namespace_fns(ns@) == Some(match old(self).namespace_fns(ns@) {
                    Some(v) => v,
                    None => Seq::empty(),
                }.push(name@)) && forall|n: Seq<char>| n != ns@ ==> final(self).namespace_fns(n) == old(self).namespace_fns(n),
                None => forall|n: Seq<char>| final(self).namespace_fns(n) == old(self).namespace_fns(n),
            },
    {
        let full = make_full_name(name, namespace);
        table_insert(&mut self.async_functions, full, implementation);
        if let Some(ns) = namespace {
            self.add_to_namespace(ns, String::from_str(name));
        }
    }

    /// A copy of the synchronous function under `name`.
    pub fn get_sync(&self, name: &str) -> (r: Option<NativeFunctionValue>)
        requires
            self.wf(),
        ensures
            match self.sync_fn(name@) {
                Some(f) => r matches Some(g) && same_native(f, g),
                None => r is None,
            },
    {
        table_get(&self.sync_functions, name)
    }

    /// A copy of the asynchronous function under `name`.
    pub fn get_async(&self, name: &str) -> (r: Option<NativeFunctionValue>)
        requires
            self.wf(),
        ensures
            match self.async_fn(name@) {
                Some(f) => r matches Some(g) && same_native(f, g),
                None => r is None,
            },
    {
        table_get(&self.async_functions, name)
    }

    /// A function, synchronous or asynchronous, is registered under `name`.
    pub fn exists_name(&self, name: &str) -> (b: bool)
        requires
            self.wf(),
        ensures
            b == (self.sync_fn(name@) is Some || self.async_fn(name@) is Some),
    {
        table_contains(&self.sync_functions, name) || table_contains(&self.async_functions, name)
    }

    /// The synchronous full names, in table order, appended to `out`.
    pub fn sync_names_into(&self, out: &mut Vec<String>)
        ensures
            views(final(out)@) == views(old(out)@) + self.sync_names(),
    {
        table_names(&self.sync_functions, out);
    }

    /// The asynchronous full names, in table order, appended to `out`.
    pub fn async_names_into(&self, out: &mut Vec<String>)
        ensures
            views(final(out)@) == views(old(out)@) + self.async_names(),
    {
        table_names(&self.async_functions, out);
    }

    /// All full names, synchronous and asynchronous, in increasing order.
    pub fn list_all(&self) -> (r: Vec<String>)
        ensures
            sorted_views(views(r@)),
            views(r@).to_multiset() == (self.sync_names() + self.async_names()).to_multiset(),
    {
        let mut names: Vec<String> = Vec::new();
        table_names(&self.sync_functions, &mut names);
        table_names(&self.async_functions, &mut names);
        assert(views(names@) =~= self.sync_names() + self.async_names());
        sort_strings(names)
    }

    /// The names registered under a namespace, or none.
    pub fn list_namespace(&self, namespace: &str) -> (r: Vec<String>)
        requires
            self.wf(),
        ensures
            views(r@) == match self.namespace_fns(namespace@) {
                Some(v) => v,
                None => Seq::empty(),
            },
    {
        match find_ns(&self.namespaces, namespace) {
            Some(i) => {
                proof { lemma_ns_index(self.namespaces@, i as int); }
                copy_strings(&self.namespaces[i].functions)
            },
            None => {
                proof { lemma_ns_absent(self.namespaces@, namespace@); }
                let r: Vec<String> = Vec::new();
                assert(views(r@) =~= Seq::<Seq<char>>::empty());
                r
            },
        }
    }

    /// The namespaces in increasing order.
    pub fn list_namespaces(&self) -> (r: Vec<String>)
        ensures
            sorted_views(views(r@)),
            views(r@).to_multiset() == self.namespace_names().to_multiset(),
    {
        let mut names: Vec<String> = Vec::new();
        let mut i: usize = 0;
        while i < self.namespaces.len()
            invariant
                i <= self.namespaces@.len(),
                views(names@) == self.namespace_names().subrange(0, i as int),
            decreases self.namespaces@.len() - i,
        {
            let ghost before = names@;
            names.push(self.namespaces[i].name.clone());
            assert(views(names@) =~= views(before).push(self.namespaces@[i as int].name@));
            assert(self.namespace_names().subrange(0, i + 1) =~= self.namespace_names().subrange(0, i as int).push(self.namespaces@[i as int].name@));
            i = i + 1;
        }
        assert(self.namespace_names().subrange(0, self.namespaces@.len() as int) =~= self.namespace_names());
        sort_strings(names)
    }
}

/// `namespace.name`, or `name` without a namespace.
fn make_full_name(name: &str, namespace: Option<&str>) -> (s: String)
    ensures
        s@ == full_name(name@, match namespace { Some(n) => Some(n@), None => None }),
{
    match namespace {
        Some(ns) => {
            let mut s = String::from_str(ns);
            s.append(".");
            s.append(name);
            proof { reveal_strlit("."); }
            s
        },
        None => String::from_str(name),
    }
}

/// A registry and the namespaces of the plugins that filled it.
pub struct PluginManager {
    registry: PluginRegistry,
    plugins: Vec<String>,
}

impl PluginManager {
    pub open spec fn wf(&self) -> bool {
        self.registry_view().wf()
    }

    /// The registry's state.
    pub closed spec fn registry_view(&self) -> PluginRegistry {
        self.registry
    }

    /// The namespaces of the plugins registered so far, in order.
    pub closed spec fn plugin_names(&self) -> Seq<Seq<char>> {
        views(self.plugins@)
    }

    pub fn new() -> (m: PluginManager)
        ensures
            m.wf(),
            m.plugin_names().len() == 0,
            forall|n: Seq<char>| m.registry_view().sync_fn(n) is None && m.registry_view().async_fn(n) is None,
    {
        let m = PluginManager { registry: PluginRegistry::new(), plugins: Vec::new() };
        assert(views(m.plugins@) =~= Seq::<Seq<char>>::empty());
        m
    }

    /// Records a plugin and lets it register its functions.
    pub fn register_plugin<P: NativePlugin>(&mut self, plugin: &P)
        requires
            old(self).wf(),
        ensures
            final(self).wf(),
            final(self).plugin_names().len() == old(self).plugin_names().len() + 1,
            final(self).plugin_names().drop_last() == old(self).plugin_names(),
            final(self).plugin_names().last() == plugin.namespace_view(),
            forall|n: Seq<char>| #[trigger] plugin.function_names().contains(n) ==> final(self).registry_view().sync_fn(n)
                is Some,
    {
        let ghost before = self.plugins@;
        self.plugins.push(String::from_str(plugin.namespace()));
        assert(views(self.plugins@).drop_last() =~= views(before));
        plugin.register(&mut self.registry);
    }

    /// Built-in plugins are loaded elsewhere; this does nothing.
    pub fn load_builtins(&mut self)
        ensures
            *final(self) == *old(self),
    {
    }

    pub fn registry(&self) -> (r: &PluginRegistry)
        ensures
            *r == self.registry_view(),
    {
        &self.registry
    }

    /// The registry, for registering functions.
    pub fn registry_mut(&mut self) -> (r: &mut PluginRegistry)
        ensures
            *r == old(self).registry_view(),
            final(self).registry_view() == *final(r),
            final(self).plugin_names() == old(self).plugin_names(),
    {
        &mut self.registry
    }

    /// The synchronous function under `name`, as a value.
    pub fn get_function(&self, name: &str) -> (r: Option<RuntimeValue>)
        requires
            self.wf(),
        ensures
            match self.registry_view().sync_fn(name@) {
                Some(f) => r matches Some(RuntimeValue::NativeFunction(g)) && same_native(f, g),
                None => r is None,
            },
    {
        match self.registry.get_sync(name) {
            Some(f) => Some(RuntimeValue::NativeFunction(f)),
            None => None,
        }
    }

    /// The asynchronous function under `name`, as a value.
    pub fn get_async_function(&self, name: &str) -> (r: Option<RuntimeValue>)
        requires
            self.wf(),
        ensures
            match self.registry_view().async_fn(name@) {
                Some(f) => r matches Some(RuntimeValue::NativeAsyncFunction(g)) && same_native(f, g),
                None => r is None,
            },
    {
        match self.registry.get_async(name) {
            Some(f) => Some(RuntimeValue::NativeAsyncFunction(f)),
            None => None,
        }
    }

    /// All function names in increasing order.
    pub fn list_functions(&self) -> (r: Vec<String>)
        ensures
            sorted_views(views(r@)),
            views(r@).to_multiset() == (self.registry_view().sync_names() + self.registry_view().async_names()).to_multiset(),
    {
        self.registry.list_all()
    }

    /// Declares every registered function in the innermost scope of `env`, synchronous ones
    /// first; a name the scope already binds keeps its value.
    pub fn register_in_env(&self, env: &mut Environment)
        requires
            old(env).view().len() > 0,
        ensures
            final(env).view().len() == old(env).view().len(),
            final(env).view().drop_last() == old(env).view().drop_last(),
            forall|n: Seq<char>| #[trigger] self.registry_view().sync_names().contains(n)
                ==> scope_lookup(final(env).view().last(), n) is Some,
            forall|n: Seq<char>| #[trigger] self.registry_view().async_names().contains(n)
                ==> scope_lookup(final(env).view().last(), n) is Some,
            forall|n: Seq<char>| scope_lookup(old(env).view().last(), n) is Some
                ==> #[trigger] scope_lookup(final(env).view().last(), n) is Some,
    {
        declare_all(&self.registry.sync_functions, env, true);
        declare_all(&self.registry.async_functions, env, false);
    }
}

/// Declares each function of a table in the innermost scope; declarations of names already
/// bound there fail and are skipped.
fn declare_all(t: &Vec<NamedFn>, env: &mut Environment, sync: bool)
    requires
        old(env).view().len() > 0,
    ensures
        final(env).view().len() == old(env).view().len(),
        final(env).view().drop_last() == old(env).view().drop_last(),
        forall|n: Seq<char>| #[trigger] fn_names(t@).contains(n) ==> scope_lookup(final(env).view().last(), n) is Some,
        forall|n: Seq<char>| scope_lookup(old(env).view().last(), n) is Some
            ==> #[trigger] scope_lookup(final(env).view().last(), n) is Some,
{
    let mut i: usize = 0;
    while i < t.len()
        invariant
            i <= t@.len(),
            old(env).view().len() > 0,
            env.view().len() == old(env).view().len(),
            env.view().drop_last() == old(env).view().drop_last(),
            forall|n: Seq<char>| #[trigger] fn_names(t@).subrange(0, i as int).contains(n)
                ==> scope_lookup(env.view().last(), n) is Some,
            forall|n: Seq<char>| scope_lookup(old(env).view().last(), n) is Some
                ==> #[trigger] scope_lookup(env.view().last(), n) is Some,
        decreases t@.len() - i,
    {
        let value = if sync {
            RuntimeValue::NativeFunction(t[i].function.copy())
        } else {
            RuntimeValue::NativeAsyncFunction(t[i].function.copy())
        };
        let ghost before = env.view();
        let ghost nm = t@[i as int].name@;
        let name = t[i].name.clone();
        assert(name@ == nm);
        let _ = env.declare(name, value);
        proof {
            let after = env.view();
            assert(after.drop_last() =~= before.drop_last());
            if scope_lookup(before.last(), nm) is None {
                assert(after.last().last().name@ == nm);
                assert(after.last().drop_last() =~= before.last());
            } else {
                assert(after =~= before);
            }
            assert(scope_lookup(after.last(), nm) is Some);
            assert forall|n: Seq<char>| scope_lookup(before.last(), n) is Some implies #[trigger] scope_lookup(after.last(), n) is Some by {
                if scope_lookup(before.last(), nm) is None && n != nm {
                    assert(scope_lookup(after.last(), n) == scope_lookup(after.last().drop_last(), n));
                }
            }
            assert forall|n: Seq<char>| #[trigger] fn_names(t@).subrange(0, i + 1).contains(n)
                implies scope_lookup(after.last(), n) is Some by {
                if n != nm {
                    let k = choose|k: int| 0 <= k < i + 1 && #[trigger] fn_names(t@).subrange(0, i + 1)[k] == n;
                    assert(fn_names(t@).subrange(0, i as int)[k] == n);
                    assert(fn_names(t@).subrange(0, i as int).contains(n));
                    assert(scope_lookup(before.last(), n) is Some);
                }
            }
            assert forall|n: Seq<char>| scope_lookup(old(env).view().last(), n) is Some
                implies #[trigger] scope_lookup(after.last(), n) is Some by {
                assert(scope_lookup(before.last(), n) is Some);
            }
        }
        i = i + 1;
    }
    assert(fn_names(t@).subrange(0, t@.len() as int) =~= fn_names(t@));
    assert forall|n: Seq<char>| #[trigger] fn_names(t@).contains(n) implies scope_lookup(env.view().last(), n) is Some by {
        assert(fn_names(t@).subrange(0, t@.len() as int).contains(n));
    }
}


impl Default for PluginRegistry {
    fn default() -> (r: PluginRegistry)
        ensures
            r.wf(),
            forall|n: Seq<char>| r.sync_fn(n) is None && r.async_fn(n) is None && r.namespace_fns(n) is None,
            r.sync_names().len() == 0,
            r.async_names().len() == 0,
            r.namespace_names().len() == 0,
    {
        PluginRegistry::new()
    }
}


impl Default for PluginManager {
    fn default() -> (m: PluginManager)
        ensures
            m.wf(),
            m.plugin_names().len() == 0,
            forall|n: Seq<char>| m.registry_view().sync_fn(n) is None && m.registry_view().async_fn(n) is None,
    {
        PluginManager::new()
    }
}

} // verus!
