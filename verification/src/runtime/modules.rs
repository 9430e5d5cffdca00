//! Named modules of exported values and a registry of them by name.
use vstd::prelude::*;
use crate::runtime::environment::{scope_lookup, Binding};
use crate::runtime::module_system::{insert_binding, lookup_binding, unique_bindings};
use crate::runtime::values::{same_value, RuntimeValue};
use crate::text::str_eq;

verus! {

/// A module: a name and the values it exports by name.
#[derive(Debug)]
pub struct Module {
    pub name: String,
    pub exports: Vec<Binding>,
}

/// Copies a table of bindings, each value by `same_value`.
fn copy_bindings(t: &Vec<Binding>) -> (r: Vec<Binding>)
    ensures
        r@.len() == t@.len(),
        forall|i: int| 0 <= i < t@.len() ==> (#[trigger] r@[i]).name@ == t@[i].name@
            && same_value(t@[i].value, r@[i].value),
{
    let mut r: Vec<Binding> = Vec::new();
    let mut i: usize = 0;
    while i < t.len()
        invariant
            i <= t@.len(),
            r@.len() == i,
            forall|k: int| 0 <= k < i ==> (#[trigger] r@[k]).name@ == t@[k].name@
                && same_value(t@[k].value, r@[k].value),
        decreases t@.len() - i,
    {
        let b = Binding { name: t[i].name.clone(), value: t[i].value.copy() };
        r.push(b);
        i = i + 1;
    }
    r
}

impl Module {
    pub open spec fn wf(&self) -> bool {
        unique_bindings(self.exports@)
    }

    pub fn new(name: String) -> (m: Module)
        ensures
            m.wf(),
            m.name == name,
            m.exports@.len() == 0,
    {
        Module { name, exports: Vec::new() }
    }

    /// Exports `value` under `name`, replacing an export of that name.
    pub fn add_export(&mut self, name: String, value: RuntimeValue)
        requires
            old(self).wf(),
        ensures
            final(self).wf(),
            final(self).name == old(self).name,
            scope_lookup(final(self).exports@, name@) == Some(value),
            forall|n: Seq<char>| n != name@ ==> scope_lookup(final(self).exports@, n) == scope_lookup(old(self).exports@, n),
    {
        insert_binding(&mut self.exports, name, value);
    }

    /// A copy of the export under `name`.
    pub fn get_export(&self, name: &str) -> (r: Option<RuntimeValue>)
        requires
            self.wf(),
        ensures
            match scope_lookup(self.exports@, name@) {
                Some(v) => r matches Some(w) && same_value(v, w),
                None => r is None,
            },
    {
        match lookup_binding(&self.exports, name) {
            Some(v) => Some(v.copy()),
            None => None,
        }
    }

    /// A copy of every export.
    pub fn get_all_exports(&self) -> (r: Vec<Binding>)
        ensures
            r@.len() == self.exports@.len(),
            forall|i: int| 0 <= i < r@.len() ==> (#[trigger] r@[i]).name@ == self.exports@[i].name@
                && same_value(self.exports@[i].value, r@[i].value),
    {
        copy_bindings(&self.exports)
    }
}

/// The module registered last under `name`.
pub open spec fn registered(s: Seq<Module>, name: Seq<char>) -> Option<Module>
    decreases s.len(),
{
    if s.len() == 0 {
        None
    } else if s.last().name@ == name {
        Some(s.last())
    } else {
        registered(s.drop_last(), name)
    }
}

/// Modules by name.
#[derive(Debug)]
pub struct ModuleRegistry {
    modules: Vec<Module>,
}

fn find_last(s: &Vec<Module>, name: &str) -> (r: Option<usize>)
    ensures
        match r {
            Some(i) => i < s@.len() && s@[i as int] == registered(s@, name@).unwrap()
                && registered(s@, name@) is Some,
            None => registered(s@, name@) is None,
        },
{
    let mut k = s.len();
    assert(s@.subrange(0, k as int) =~= s@);
    while k > 0
        invariant
            k <= s@.len(),
            registered(s@, name@) == registered(s@.subrange(0, k as int), name@),
        decreases k,
    {
        let ghost p = s@.subrange(0, k as int);
        assert(p.drop_last() =~= s@.subrange(0, k - 1));
        if str_eq(s[k - 1].name.as_str(), name) {
            return Some(k - 1);
        }
        k = k - 1;
    }
    assert(s@.subrange(0, 0) =~= Seq::<Module>::empty());
    None
}

impl ModuleRegistry {
    /// The registered modules, most recent registration last.
    pub closed spec fn view(&self) -> Seq<Module> {
        self.modules@
    }

    /// An empty registry.
    pub fn new() -> (r: ModuleRegistry)
        ensures
            forall|n: Seq<char>| registered(r.view(), n) is None,
    {
        ModuleRegistry { modules: Vec::new() }
    }

    /// The module registered under `specifier`.
    pub fn get_module(&self, specifier: &str) -> (r: Option<&Module>)
        ensures
            match registered(self.view(), specifier@) {
                Some(m) => r == Some(&m),
                None => r is None,
            },
    {
        match find_last(&self.modules, specifier) {
            Some(i) => Some(&self.modules[i]),
            None => None,
        }
    }

    /// Registers `module` under its name; a later registration under the same name wins.
    pub fn register_module(&mut self, module: Module)
        ensures
            registered(final(self).view(), module.name@) == Some(module),
            forall|n: Seq<char>| n != module.name@ ==> registered(final(self).view(), n) == registered(old(self).view(), n),
    {
        let ghost o = self.modules@;
        self.modules.push(module);
        assert(self.modules@.drop_last() =~= o);
    }
}


impl Default for ModuleRegistry {
    fn default() -> (r: ModuleRegistry)
        ensures
            forall|n: Seq<char>| registered(r.view(), n) is None,
    {
        ModuleRegistry::new()
    }
}

} // verus!
