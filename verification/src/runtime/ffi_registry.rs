//! A registry of foreign functions: what each is (name, namespace, parameters, return type,
//! whether it is asynchronous) and which native implementation runs it.
use vstd::prelude::*;
use crate::ast::{same_type, Type};
use crate::error::RaccoonError;
use crate::runtime::plugin_system::{full_name, PluginRegistry};
use crate::ir::vm::VmHost;
use crate::runtime::builtins::{builtin_call, builtin_defined, call_builtin, is_pure_builtin};
use crate::runtime::values::{same_native, NativeFunctionValue, RuntimeValue};
use crate::text::{concat2, sort_strings, sorted_views, str_eq, views};

verus! {

/// What a foreign function is.
#[derive(Debug)]
pub struct FFIFunctionInfo {
    pub name: String,
    pub namespace: Option<String>,
    pub params: Vec<(String, Type)>,
    pub return_type: Type,
    pub is_async: bool,
}

pub open spec fn opt_view(o: Option<String>) -> Option<Seq<char>> {
    match o {
        Some(s) => Some(s@),
        None => None,
    }
}

/// Two descriptions say the same.
pub open spec fn same_info(a: FFIFunctionInfo, b: FFIFunctionInfo) -> bool {
    &&& a.name@ == b.name@
    &&& opt_view(a.namespace) == opt_view(b.namespace)
    &&& a.params@.len() == b.params@.len()
    &&& forall|i: int| 0 <= i < a.params@.len() ==> (#[trigger] a.params@[i]).0@ == b.params@[i].0@
        && same_type(a.params@[i].1, b.params@[i].1)
    &&& same_type(a.return_type, b.return_type)
    &&& a.is_async == b.is_async
}

impl FFIFunctionInfo {
    /// A copy of the description.
    pub fn copy(&self) -> (r: FFIFunctionInfo)
        ensures
            same_info(*self, r),
    {
        let mut params: Vec<(String, Type)> = Vec::new();
        let mut i: usize = 0;
        while i < self.params.len()
            invariant
                i <= self.params@.len(),
                params@.len() == i,
                forall|j: int| 0 <= j < i ==> (#[trigger] self.params@[j]).0@ == params@[j].0@
                    && same_type(self.params@[j].1, params@[j].1),
            decreases self.params@.len() - i,
        {
            let (n, t) = &self.params[i];
            params.push((n.clone(), t.copy()));
            i = i + 1;
        }
        let namespace = match &self.namespace {
            Some(ns) => Some(ns.clone()),
            None => None,
        };
        FFIFunctionInfo {
            name: self.name.clone(),
            namespace,
            params,
            return_type: self.return_type.copy(),
            is_async: self.is_async,
        }
    }
}

/// A description under a full name.
#[derive(Debug)]
pub struct InfoEntry {
    pub full: String,
    pub info: FFIFunctionInfo,
}

/// The description under `name`.
pub open spec fn info_lookup(s: Seq<InfoEntry>, name: Seq<char>) -> Option<FFIFunctionInfo>
    decreases s.len(),
{
    if s.len() == 0 {
        None
    } else if s.last().full@ == name {
        Some(s.last().info)
    } else {
        info_lookup(s.drop_last(), name)
    }
}

pub open spec fn unique_infos(s: Seq<InfoEntry>) -> bool {
    forall|i: int, j: int| 0 <= i < j < s.len() ==> (#[trigger] s[i]).full@ != (#[trigger] s[j]).full@
}

pub open spec fn info_names(s: Seq<InfoEntry>) -> Seq<Seq<char>> {
    s.map_values(|e: InfoEntry| e.full@)
}

proof fn lemma_info_index(s: Seq<InfoEntry>, i: int)
    requires
        unique_infos(s),
        0 <= i < s.len(),
    ensures
        info_lookup(s, s[i].full@) == Some(s[i].info),
    decreases s.len(),
{
    if i < s.len() - 1 {
        assert(s[s.len() - 1].full@ != s[i].full@);
        assert(s.drop_last()[i] == s[i]);
        lemma_info_index(s.drop_last(), i);
    }
}

proof fn lemma_info_absent(s: Seq<InfoEntry>, name: Seq<char>)
    requires
        forall|i: int| 0 <= i < s.len() ==> (#[trigger] s[i]).full@ != name,
    ensures
        info_lookup(s, name) is None,
    decreases s.len(),
{
    if s.len() > 0 {
        assert(s[s.len() - 1].full@ != name);
        let d = s.drop_last();
        assert forall|i: int| 0 <= i < d.len() implies (#[trigger] d[i]).full@ != name by {
            assert(d[i] == s[i]);
        }
        lemma_info_absent(d, name);
    }
}

proof fn lemma_info_found(s: Seq<InfoEntry>, name: Seq<char>) -> (i: int)
    requires
        info_lookup(s, name) is Some,
    ensures
        0 <= i < s.len(),
        s[i].full@ == name,
    decreases s.len(),
{
    if s.last().full@ == name {
        s.len() - 1
    } else {
        let i = lemma_info_found(s.drop_last(), name);
        assert(s.drop_last()[i] == s[i]);
        i
    }
}

fn find_info(s: &Vec<InfoEntry>, name: &str) -> (r: Option<usize>)
    ensures
        match r {
            Some(i) => i < s@.len() && s@[i as int].full@ == name@,
            None => forall|i: int| 0 <= i < s@.len() ==> (#[trigger] s@[i]).full@ != name@,
        },
{
    let mut i: usize = 0;
    while i < s.len()
        invariant
            i <= s@.len(),
            forall|j: int| 0 <= j < i ==> (#[trigger] s@[j]).full@ != name@,
        decreases s@.len() - i,
    {
        if str_eq(s[i].full.as_str(), name) {
            return Some(i);
        }
        i = i + 1;
    }
    None
}

/// Puts `info` under `full`, replacing a description of that name.
fn info_insert(t: &mut Vec<InfoEntry>, full: String, info: FFIFunctionInfo)
    requires
        unique_infos(old(t)@),
    ensures
        unique_infos(final(t)@),
        info_lookup(final(t)@, full@) == Some(info),
        forall|n: Seq<char>| n != full@ ==> info_lookup(final(t)@, n) == info_lookup(old(t)@, n),
        info_names(final(t)@).to_set() == info_names(old(t)@).to_set().insert(full@),
{
    let ghost o = t@;
    let ghost nm = full@;
    match find_info(t, full.as_str()) {
        Some(i) => {
            t.set(i, InfoEntry { full, info });
            proof {
                let s = t@;
                assert(unique_infos(s)) by {
                    assert forall|a: int, b: int| 0 <= a < b < s.len() implies (#[trigger] s[a]).full@ != (#[trigger] s[b]).full@ by {
                        assert(o[a].full@ != o[b].full@);
                    }
                }
                lemma_info_index(s, i as int);
                assert forall|n: Seq<char>| n != nm implies info_lookup(s, n) == info_lookup(o, n) by {
                    if info_lookup(o, n) is Some {
                        let k = lemma_info_found(o, n);
                        assert(s[k] == o[k]);
                        lemma_info_index(s, k);
                        lemma_info_index(o, k);
                    } else if info_lookup(s, n) is Some {
                        let k = lemma_info_found(s, n);
                        assert(s[k] == o[k]);
                        lemma_info_index(o, k);
                    }
                }
                assert(info_names(s).to_set() =~= info_names(o).to_set().insert(nm)) by {
                    assert(info_names(s) =~= info_names(o).update(i as int, nm));
                    assert forall|x: Seq<char>| info_names(s).to_set().contains(x) implies info_names(o).to_set().insert(nm).contains(x) by {
                        let k = choose|k: int| 0 <= k < info_names(s).len() && info_names(s)[k] == x;
                        if k != i {
                            assert(info_names(o)[k] == x);
                        }
                    }
                    assert forall|x: Seq<char>| info_names(o).to_set().insert(nm).contains(x) implies info_names(s).to_set().contains(x) by {
                        if x == nm {
                            assert(info_names(s)[i as int] == x);
                        } else {
                            let k = choose|k: int| 0 <= k < info_names(o).len() && info_names(o)[k] == x;
                            assert(info_names(o)[i as int] == nm);
                            assert(info_names(s)[k] == x);
                        }
                    }
                }
            }
        },
        None => {
            t.push(InfoEntry { full, info });
            proof {
                let s = t@;
                assert(s.drop_last() =~= o);
                assert(unique_infos(s)) by {
                    assert forall|a: int, b: int| 0 <= a < b < s.len() implies (#[trigger] s[a]).full@ != (#[trigger] s[b]).full@ by {
                        if b < o.len() {
                            assert(o[a].full@ != o[b].full@);
                        } else {
                            assert(s[a] == o[a]);
                        }
                    }
                }
                assert(info_names(s) =~= info_names(o).push(nm));
                assert(info_names(s).to_set() =~= info_names(o).to_set().insert(nm)) by {
                    assert forall|x: Seq<char>| info_names(s).to_set().contains(x) implies info_names(o).to_set().insert(nm).contains(x) by {
                        let k = choose|k: int| 0 <= k < info_names(s).len() && info_names(s)[k] == x;
                        if k < o.len() {
                            assert(info_names(o)[k] == x);
                        }
                    }
                    assert forall|x: Seq<char>| info_names(o).to_set().insert(nm).contains(x) implies info_names(s).to_set().contains(x) by {
                        if x == nm {
                            assert(info_names(s)[o.len() as int] == x);
                        } else {
                            let k = choose|k: int| 0 <= k < info_names(o).len() && info_names(o)[k] == x;
                            assert(info_names(s)[k] == x);
                        }
                    }
                }
            }
        },
    }
}

/// A copy of the description under `name`.
fn info_get(t: &Vec<InfoEntry>, name: &str) -> (r: Option<FFIFunctionInfo>)
    requires
        unique_infos(t@),
    ensures
        match info_lookup(t@, name@) {
            Some(i) => r matches Some(j) && same_info(i, j),
            None => r is None,
        },
{
    match find_info(t, name) {
        Some(i) => {
            proof { lemma_info_index(t@, i as int); }
            Some(t[i].info.copy())
        },
        None => {
            proof { lemma_info_absent(t@, name@); }
            None
        },
    }
}

fn info_names_into(t: &Vec<InfoEntry>, out: &mut Vec<String>)
    ensures
        views(final(out)@) == views(old(out)@) + info_names(t@),
{
    let ghost o = views(out@);
    let mut i: usize = 0;
    while i < t.len()
        invariant
            i <= t@.len(),
            views(out@) == o + info_names(t@).subrange(0, i as int),
        decreases t@.len() - i,
    {
        let ghost before = out@;
        out.push(t[i].full.clone());
        assert(views(out@) =~= views(before).push(t@[i as int].full@));
        assert(info_names(t@).subrange(0, i + 1) =~= info_names(t@).subrange(0, i as int).push(t@[i as int].full@));
        i = i + 1;
    }
    assert(info_names(t@).subrange(0, t@.len() as int) =~= info_names(t@));
}

/// `FFI function 'name' not found`
pub open spec fn not_found_msg(name: Seq<char>) -> Seq<char> {
    "FFI function '"@ + name + "' not found"@
}

/// `FFI async fn 'name' not found`
pub open spec fn async_not_found_msg(name: Seq<char>) -> Seq<char> {
    "FFI async fn '"@ + name + "' not found"@
}

fn full_name_of(name: &String, namespace: &Option<String>) -> (s: String)
    ensures
        s@ == full_name(name@, opt_view(*namespace)),
{
    match namespace {
        Some(ns) => {
            let a = concat2(ns.as_str(), ".");
            proof { reveal_strlit("."); }
            concat2(a.as_str(), name.as_str())
        },
        None => name.clone(),
    }
}

fn opt_as_str(o: &Option<String>) -> (r: Option<&str>)
    ensures
        match r {
            Some(s) => o matches Some(t) && s@ == t@,
            None => o is None,
        },
{
    match o {
        Some(s) => Some(s.as_str()),
        None => None,
    }
}

/// Foreign functions by full name (`namespace.name`, or `name`), synchronous and
/// asynchronous: their descriptions, their implementations, and the names each namespace
/// registered.
pub struct FFIRegistry {
    functions: Vec<InfoEntry>,
    async_functions: Vec<InfoEntry>,
    natives: PluginRegistry,
}

impl FFIRegistry {
    pub closed spec fn wf(&self) -> bool {
        unique_infos(self.functions@) && unique_infos(self.async_functions@) && self.natives.wf()
    }

    /// The description of the synchronous function under a full name.
    pub closed spec fn info(&self, name: Seq<char>) -> Option<FFIFunctionInfo> {
        info_lookup(self.functions@, name)
    }

    /// The description of the asynchronous function under a full name.
    pub closed spec fn async_info(&self, name: Seq<char>) -> Option<FFIFunctionInfo> {
        info_lookup(self.async_functions@, name)
    }

    /// The implementation of the synchronous function under a full name.
    pub closed spec fn native(&self, name: Seq<char>) -> Option<NativeFunctionValue> {
        self.natives.sync_fn(name)
    }

    /// The implementation of the asynchronous function under a full name.
    pub closed spec fn async_native(&self, name: Seq<char>) -> Option<NativeFunctionValue> {
        self.natives.async_fn(name)
    }

    /// The names registered under a namespace, in order.
    pub closed spec fn namespace_fns(&self, ns: Seq<char>) -> Option<Seq<Seq<char>>> {
        self.natives.namespace_fns(ns)
    }

    /// The full names of the described functions, synchronous then asynchronous.
    pub closed spec fn all_names(&self) -> Seq<Seq<char>> {
        info_names(self.functions@) + info_names(self.async_functions@)
    }

    pub fn new() -> (r: FFIRegistry)
        ensures
            r.wf(),
            forall|n: Seq<char>| r.info(n) is None && r.async_info(n) is None && r.native(n) is None
                && r.async_native(n) is None && r.namespace_fns(n) is None,
            r.all_names().len() == 0,
    {
        FFIRegistry { functions: Vec::new(), async_functions: Vec::new(), natives: PluginRegistry::new() }
    }

    /// Registers a synchronous function under `namespace.name` (or `name`), replacing one of
    /// that full name, and records `name` under the namespace. It always succeeds.
    pub fn register_function(
        &mut self,
        name: String,
        namespace: Option<String>,
        params: Vec<(String, Type)>,
        return_type: Type,
        implementation: NativeFunctionValue,
    ) -> (r: Result<(), RaccoonError>)
        requires
            old(self).wf(),
        ensures
            r is Ok,
            final(self).wf(),
            final(self).info(full_name(name@, opt_view(namespace))) == Some(FFIFunctionInfo {
                name,
                namespace,
                params,
                return_type,
                is_async: false,
            }),
            forall|n: Seq<char>| n != full_name(name@, opt_view(namespace)) ==> final(self).info(n) == old(self).info(n),
            final(self).native(full_name(name@, opt_view(namespace))) == Some(implementation),
            forall|n: Seq<char>| n != full_name(name@, opt_view(namespace)) ==> final(self).native(n) == old(self).native(n),
            forall|n: Seq<char>| final(self).async_info(n) == old(self).async_info(n)
                && final(self).async_native(n) == old(self).async_native(n),
            match namespace {
                Some(ns) => final(self).namespace_fns(ns@) == Some(match old(self).namespace_fns(ns@) {
                    Some(v) => v,
                    None => Seq::empty(),
                }.push(name@)) && forall|n: Seq<char>| n != ns@ ==> final(self).namespace_fns(n) == old(self).namespace_fns(n),
                None => forall|n: Seq<char>| final(self).namespace_fns(n) == old(self).namespace_fns(n),
            },
    {
        let full = full_name_of(&name, &namespace);
        let ns_str = opt_as_str(&namespace);
        self.natives.register_sync(name.as_str(), ns_str, return_type.copy(), implementation);
        info_insert(&mut self.functions, full, FFIFunctionInfo { name, namespace, params, return_type, is_async: false });
        Ok(())
    }

    /// Registers an asynchronous function, as `register_function` does a synchronous one.
    pub fn register_async_function(
        &mut self,
        name: String,
        namespace: Option<String>,
        params: Vec<(String, Type)>,
        return_type: Type,
        implementation: NativeFunctionValue,
    ) -> (r: Result<(), RaccoonError>)
        requires
            old(self).wf(),
        ensures
            r is Ok,
            final(self).wf(),
            final(self).async_info(full_name(name@, opt_view(namespace))) == Some(FFIFunctionInfo {
                name,
                namespace,
                params,
                return_type,
                is_async: true,
            }),
            forall|n: Seq<char>| n != full_name(name@, opt_view(namespace)) ==> final(self).async_info(n) == old(self).async_info(n),
            final(self).async_native(full_name(name@, opt_view(namespace))) == Some(implementation),
            forall|n: Seq<char>| n != full_name(name@, opt_view(namespace)) ==> final(self).async_native(n) == old(self).async_native(n),
            forall|n: Seq<char>| final(self).info(n) == old(self).info(n) && final(self).native(n) == old(self).native(n),
            match namespace {
                Some(ns) => final(self).namespace_fns(ns@) == Some(match old(self).namespace_fns(ns@) {
                    Some(v) => v,
                    None => Seq::empty(),
                }.push(name@)) && forall|n: Seq<char>| n != ns@ ==> final(self).namespace_fns(n) == old(self).namespace_fns(n),
                None => forall|n: Seq<char>| final(self).namespace_fns(n) == old(self).namespace_fns(n),
            },
    {
        let full = full_name_of(&name, &namespace);
        let ns_str = opt_as_str(&namespace);
        self.natives.register_async(name.as_str(), ns_str, return_type.copy(), implementation);
        info_insert(&mut self.async_functions, full, FFIFunctionInfo { name, namespace, params, return_type, is_async: true });
        Ok(())
    }

    /// Calls the synchronous function `name` with `args`: one of the library's own native
    /// functions is run here, any other through `host`. An error where none is registered.
    pub fn call_function<H: VmHost>(&self, name: &str, args: Vec<RuntimeValue>, host: &mut H) -> (r: Result<RuntimeValue, RaccoonError>)
        requires
            self.wf(),
        ensures
            match self.native(name@) {
                Some(f) => r is Ok && (is_pure_builtin(f.implementation) && builtin_defined(f.implementation, args@)
                    ==> (r matches Ok(v) && builtin_call(
                    f.implementation,
                    &args,
                    v,
                ))),
                None => r matches Err(e) && e.message@ == not_found_msg(name@) && e.position == (0usize, 0usize)
                    && e.file is None,
            },
    {
        match self.natives.get_sync(name) {
            Some(f) => match call_builtin(f.implementation, &args) {
                Some(v) => Ok(v),
                None => Ok(host.call_native(f.implementation, false, args)),
            },
            None => {
                let a = concat2("FFI function '", name);
                let msg = concat2(a.as_str(), "' not found");
                Err(RaccoonError::new(msg.as_str(), (0, 0), None))
            },
        }
    }

    /// Calls the asynchronous function `name` with `args` through `host`, which awaits its
    /// result. An error where none is registered.
    pub fn call_async_function<H: VmHost>(&self, name: &str, args: Vec<RuntimeValue>, host: &mut H) -> (r: Result<RuntimeValue, RaccoonError>)
        requires
            self.wf(),
        ensures
            match self.async_native(name@) {
                Some(f) => r is Ok,
                None => r matches Err(e) && e.message@ == async_not_found_msg(name@) && e.position == (0usize, 0usize)
                    && e.file is None,
            },
    {
        match self.natives.get_async(name) {
            Some(f) => Ok(host.call_native(f.implementation, true, args)),
            None => {
                let a = concat2("FFI async fn '", name);
                let msg = concat2(a.as_str(), "' not found");
                Err(RaccoonError::new(msg.as_str(), (0, 0), None))
            },
        }
    }

    /// The description under `name`: the synchronous one, else the asynchronous one.
    pub fn get_function_info(&self, name: &str) -> (r: Option<FFIFunctionInfo>)
        requires
            self.wf(),
        ensures
            match self.info(name@) {
                Some(i) => r matches Some(j) && same_info(i, j),
                None => match self.async_info(name@) {
                    Some(i) => r matches Some(j) && same_info(i, j),
                    None => r is None,
                },
            },
    {
        match info_get(&self.functions, name) {
            Some(i) => Some(i),
            None => info_get(&self.async_functions, name),
        }
    }

    /// The full names of all described functions in increasing order.
    pub fn list_functions(&self) -> (r: Vec<String>)
        ensures
            sorted_views(views(r@)),
            views(r@).to_multiset() == self.all_names().to_multiset(),
    {
        let mut names: Vec<String> = Vec::new();
        info_names_into(&self.functions, &mut names);
        info_names_into(&self.async_functions, &mut names);
        assert(views(names@) =~= self.all_names());
        sort_strings(names)
    }

    /// The names registered under a namespace, or none.
    pub fn list_namespace(&self, namespace: &str) -> (r: Vec<String>)
        requires
            self.wf(),
        ensures
            views(r@) == match self.namespace_fns(namespace@) {
                Some(v) => v,
                None => Seq::empty(),
            },
    {
        self.natives.list_namespace(namespace)
    }

    /// A function, synchronous or asynchronous, is described under `name`.
    pub fn exists_name(&self, name: &str) -> (b: bool)
        requires
            self.wf(),
        ensures
            b == (self.info(name@) is Some || self.async_info(name@) is Some),
    {
        let a = match find_info(&self.functions, name) {
            Some(i) => {
                proof { lemma_info_index(self.functions@, i as int); }
                true
            },
            None => {
                proof { lemma_info_absent(self.functions@, name@); }
                false
            },
        };
        let b = match find_info(&self.async_functions, name) {
            Some(i) => {
                proof { lemma_info_index(self.async_functions@, i as int); }
                true
            },
            None => {
                proof { lemma_info_absent(self.async_functions@, name@); }
                false
            },
        };
        a || b
    }

    /// Forgets every function and namespace.
    pub fn clear(&mut self)
        ensures
            final(self).wf(),
            forall|n: Seq<char>| final(self).info(n) is None && final(self).async_info(n) is None
                && final(self).native(n) is None && final(self).async_native(n) is None
                && final(self).namespace_fns(n) is None,
            final(self).all_names().len() == 0,
    {
        *self = FFIRegistry::new();
    }

    /// Describes a function of the program itself under `name`, replacing a description of
    /// that name; no implementation is registered for it.
    pub fn register_raccoon_function(&mut self, name: String, params: Vec<(String, Type)>, return_type: Type)
        requires
            old(self).wf(),
        ensures
            final(self).wf(),
            final(self).info(name@) == Some(FFIFunctionInfo { name, namespace: None, params, return_type, is_async: false }),
            forall|n: Seq<char>| n != name@ ==> final(self).info(n) == old(self).info(n),
            forall|n: Seq<char>| final(self).async_info(n) == old(self).async_info(n)
                && final(self).native(n) == old(self).native(n) && final(self).async_native(n) == old(self).async_native(n)
                && final(self).namespace_fns(n) == old(self).namespace_fns(n),
    {
        let full = name.clone();
        info_insert(&mut self.functions, full, FFIFunctionInfo { name, namespace: None, params, return_type, is_async: false });
    }
}


impl Default for FFIRegistry {
    fn default() -> (r: FFIRegistry)
        ensures
            r.wf(),
            forall|n: Seq<char>| r.info(n) is None && r.async_info(n) is None && r.native(n) is None
                && r.async_native(n) is None && r.namespace_fns(n) is None,
            r.all_names().len() == 0,
    {
        FFIRegistry::new()
    }
}

} // verus!
