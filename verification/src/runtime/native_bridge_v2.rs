//! The entry point to the native functions of the built-in plugins.
use vstd::prelude::*;
use crate::runtime::builtin_plugins::load_builtin_plugins;
use crate::runtime::environment::{scope_lookup, Environment};
use crate::runtime::plugin_system::PluginManager;
use crate::runtime::values::{same_native, NativeFn, RuntimeValue};
use crate::runtime::fn_table::table_names;
use crate::text::{lemma_sorted_distinct, sort_strings, sorted_views, strictly_sorted_views, views};

verus! {

/// A plugin manager loaded with the built-in plugins.
pub struct NativeBridgeV2 {
    plugin_manager: PluginManager,
}

impl NativeBridgeV2 {
    pub closed spec fn manager(&self) -> PluginManager {
        self.plugin_manager
    }

    pub open spec fn wf(&self) -> bool {
        self.manager().wf()
    }

    /// A bridge with the built-in plugins loaded: `print` and `eprint` among them.
    pub fn new() -> (b: NativeBridgeV2)
        ensures
            b.wf(),
            b.manager().registry_view().sync_fn("print"@) matches Some(f) && f.implementation == NativeFn::Print,
            b.manager().registry_view().sync_fn("eprint"@) matches Some(f) && f.implementation == NativeFn::Eprint,
            forall|n: Seq<char>| n != "print"@ && n != "eprint"@ ==> b.manager().registry_view().sync_fn(n) is None,
            forall|n: Seq<char>| b.manager().registry_view().async_fn(n) is None,
    {
        let mut manager = PluginManager::new();
        load_builtin_plugins(manager.registry_mut());
        NativeBridgeV2 { plugin_manager: manager }
    }

    /// The synchronous function under `name`, as a value.
    pub fn get(&self, name: &str) -> (r: Option<RuntimeValue>)
        requires
            self.wf(),
        ensures
            match self.manager().registry_view().sync_fn(name@) {
                Some(f) => r matches Some(RuntimeValue::NativeFunction(g)) && same_native(f, g),
                None => r is None,
            },
    {
        self.plugin_manager.get_function(name)
    }

    /// The asynchronous function under `name`, as a value.
    pub fn get_async(&self, name: &str) -> (r: Option<RuntimeValue>)
        requires
            self.wf(),
        ensures
            match self.manager().registry_view().async_fn(name@) {
                Some(f) => r matches Some(RuntimeValue::NativeAsyncFunction(g)) && same_native(f, g),
                None => r is None,
            },
    {
        self.plugin_manager.get_async_function(name)
    }

    /// Declares every function in the innermost scope of `env`.
    pub fn register_all_in_env(&self, env: &mut Environment)
        requires
            old(env).view().len() > 0,
        ensures
            final(env).view().len() == old(env).view().len(),
            final(env).view().drop_last() == old(env).view().drop_last(),
            forall|n: Seq<char>| #[trigger] self.manager().registry_view().sync_names().contains(n)
                ==> scope_lookup(final(env).view().last(), n) is Some,
            forall|n: Seq<char>| #[trigger] self.manager().registry_view().async_names().contains(n)
                ==> scope_lookup(final(env).view().last(), n) is Some,
    {
        self.plugin_manager.register_in_env(env);
    }

    /// The synchronous function names in strictly increasing order: exactly the names that
    /// have a synchronous function.
    pub fn function_names(&self) -> (r: Vec<String>)
        requires
            self.wf(),
        ensures
            sorted_views(views(r@)),
            strictly_sorted_views(views(r@)),
            views(r@).to_multiset() == self.manager().registry_view().sync_names().to_multiset(),
            forall|n: Seq<char>| #[trigger] views(r@).contains(n) <==> self.manager().registry_view().sync_fn(n) is Some,
    {
        broadcast use vstd::seq_lib::group_to_multiset_ensures;
        let mut names: Vec<String> = Vec::new();
        self.plugin_manager.registry().sync_names_into(&mut names);
        assert(views(names@) =~= self.manager().registry_view().sync_names());
        let r = sort_strings(names);
        proof {
            let reg = self.manager().registry_view();
            reg.lemma_names();
            lemma_sorted_distinct(views(r@), reg.sync_names());
            assert forall|n: Seq<char>| #[trigger] views(r@).contains(n) <==> reg.sync_fn(n) is Some by {
                assert(views(r@).to_multiset().contains(n) <==> views(r@).contains(n));
                assert(reg.sync_names().to_multiset().contains(n) <==> reg.sync_names().contains(n));
            }
        }
        r
    }

    /// The asynchronous function names in increasing order.
    pub fn async_function_names(&self) -> (r: Vec<String>)
        ensures
            sorted_views(views(r@)),
            views(r@).to_multiset() == self.manager().registry_view().async_names().to_multiset(),
    {
        let mut names: Vec<String> = Vec::new();
        self.plugin_manager.registry().async_names_into(&mut names);
        assert(views(names@) =~= self.manager().registry_view().async_names());
        sort_strings(names)
    }

    /// All function names in increasing order: exactly the names that have a synchronous or an
    /// asynchronous function.
    pub fn all_function_names(&self) -> (r: Vec<String>)
        requires
            self.wf(),
        ensures
            sorted_views(views(r@)),
            views(r@).to_multiset() == (self.manager().registry_view().sync_names()
                + self.manager().registry_view().async_names()).to_multiset(),
            forall|n: Seq<char>| #[trigger] views(r@).contains(n) <==> (self.manager().registry_view().sync_fn(n) is Some
                || self.manager().registry_view().async_fn(n) is Some),
    {
        broadcast use vstd::seq_lib::group_to_multiset_ensures;
        let r = self.plugin_manager.list_functions();
        proof {
            let reg = self.manager().registry_view();
            reg.lemma_names();
            let both = reg.sync_names() + reg.async_names();
            assert forall|n: Seq<char>| #[trigger] views(r@).contains(n) <==> (reg.sync_fn(n) is Some || reg.async_fn(n) is Some) by {
                assert(views(r@).to_multiset().contains(n) <==> views(r@).contains(n));
                assert(both.to_multiset().contains(n) <==> both.contains(n));
                if both.contains(n) {
                    let k = choose|k: int| 0 <= k < both.len() && both[k] == n;
                    if k < reg.sync_names().len() {
                        assert(reg.sync_names()[k] == n);
                    } else {
                        assert(reg.async_names()[k - reg.sync_names().len()] == n);
                    }
                }
                if reg.sync_names().contains(n) {
                    let k = choose|k: int| 0 <= k < reg.sync_names().len() && reg.sync_names()[k] == n;
                    assert(both[k] == n);
                }
                if reg.async_names().contains(n) {
                    let k = choose|k: int| 0 <= k < reg.async_names().len() && reg.async_names()[k] == n;
                    assert(both[k + reg.sync_names().len()] == n);
                }
            }
        }
        r
    }

    pub fn plugin_manager(&self) -> (m: &PluginManager)
        ensures
            *m == self.manager(),
    {
        &self.plugin_manager
    }
}


impl Default for NativeBridgeV2 {
    fn default() -> (b: NativeBridgeV2)
        ensures
            b.wf(),
            b.manager().registry_view().sync_fn("print"@) matches Some(f) && f.implementation == NativeFn::Print,
            b.manager().registry_view().sync_fn("eprint"@) matches Some(f) && f.implementation == NativeFn::Eprint,
            forall|n: Seq<char>| n != "print"@ && n != "eprint"@ ==> b.manager().registry_view().sync_fn(n) is None,
            forall|n: Seq<char>| b.manager().registry_view().async_fn(n) is None,
    {
        NativeBridgeV2::new()
    }
}

} // verus!
