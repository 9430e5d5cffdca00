//! Modules of native functions by name, each with the loader that registers its functions,
//! and which of them have been loaded.
use vstd::prelude::*;
use crate::text::{concat2, str_eq, views};

verus! {

/// A module name and the number of the loader that registers its functions.
#[derive(Debug)]
pub struct LoaderEntry {
    pub name: String,
    pub loader: u64,
}

/// The loader registered under `name`.
pub open spec fn loader_lookup(s: Seq<LoaderEntry>, name: Seq<char>) -> Option<u64>
    decreases s.len(),
{
    if s.len() == 0 {
        None
    } else if s.last().name@ == name {
        Some(s.last().loader)
    } else {
        loader_lookup(s.drop_last(), name)
    }
}

pub open spec fn unique_loaders(s: Seq<LoaderEntry>) -> bool {
    forall|i: int, j: int| 0 <= i < j < s.len() ==> (#[trigger] s[i]).name@ != (#[trigger] s[j]).name@
}

pub open spec fn loader_names(s: Seq<LoaderEntry>) -> Seq<Seq<char>> {
    s.map_values(|e: LoaderEntry| e.name@)
}

proof fn lemma_loader_index(s: Seq<LoaderEntry>, i: int)
    requires
        unique_loaders(s),
        0 <= i < s.len(),
    ensures
        loader_lookup(s, s[i].name@) == Some(s[i].loader),
    decreases s.len(),
{
    if i < s.len() - 1 {
        assert(s[s.len() - 1].name@ != s[i].name@);
        assert(s.drop_last()[i] == s[i]);
        lemma_loader_index(s.drop_last(), i);
    }
}

proof fn lemma_loader_absent(s: Seq<LoaderEntry>, name: Seq<char>)
    requires
        forall|i: int| 0 <= i < s.len() ==> (#[trigger] s[i]).name@ != name,
    ensures
        loader_lookup(s, name) is None,
    decreases s.len(),
{
    if s.len() > 0 {
        assert(s[s.len() - 1].name@ != name);
        let d = s.drop_last();
        assert forall|i: int| 0 <= i < d.len() implies (#[trigger] d[i]).name@ != name by {
            assert(d[i] == s[i]);
        }
        lemma_loader_absent(d, name);
    }
}

proof fn lemma_loader_found(s: Seq<LoaderEntry>, name: Seq<char>) -> (i: int)
    requires
        loader_lookup(s, name) is Some,
    ensures
        0 <= i < s.len(),
        s[i].name@ == name,
    decreases s.len(),
{
    if s.last().name@ == name {
        s.len() - 1
    } else {
        let i = lemma_loader_found(s.drop_last(), name);
        assert(s.drop_last()[i] == s[i]);
        i
    }
}

fn find_loader(s: &Vec<LoaderEntry>, name: &str) -> (r: Option<usize>)
    ensures
        match r {
            Some(i) => i < s@.len() && s@[i as int].name@ == name@,
            None => forall|i: int| 0 <= i < s@.len() ==> (#[trigger] s@[i]).name@ != name@,
        },
{
    let mut i: usize = 0;
    while i < s.len()
        invariant
            i <= s@.len(),
            forall|j: int| 0 <= j < i ==> (#[trigger] s@[j]).name@ != name@,
        decreases s@.len() - i,
    {
        if str_eq(s[i].name.as_str(), name) {
            return Some(i);
        }
        i = i + 1;
    }
    None
}

fn contains_str(v: &Vec<String>, s: &str) -> (b: bool)
    ensures
        b == views(v@).contains(s@),
{
    let mut i: usize = 0;
    while i < v.len()
        invariant
            i <= v@.len(),
            forall|j: int| 0 <= j < i ==> (#[trigger] v@[j])@ != s@,
        decreases v@.len() - i,
    {
        if str_eq(v[i].as_str(), s) {
            assert(views(v@)[i as int] == s@);
            return true;
        }
        i = i + 1;
    }
    assert forall|j: int| 0 <= j < views(v@).len() implies views(v@)[j] != s@ by {
        assert(views(v@)[j] == v@[j]@);
    }
    false
}

/// `Module 'name' not found`
pub open spec fn module_not_found_msg(name: Seq<char>) -> Seq<char> {
    "Module '"@ + name + "' not found"@
}

/// Loaders of native modules by name, and the modules already loaded.
pub struct ModuleRegistry {
    registrations: Vec<LoaderEntry>,
    loaded: Vec<String>,
}

impl ModuleRegistry {
    pub closed spec fn wf(&self) -> bool {
        unique_loaders(self.registrations@)
    }

    /// The loader registered under a module name.
    pub closed spec fn loader(&self, name: Seq<char>) -> Option<u64> {
        loader_lookup(self.registrations@, name)
    }

    /// The names of the registered modules, in registration order.
    pub closed spec fn module_names(&self) -> Seq<Seq<char>> {
        loader_names(self.registrations@)
    }

    /// The module `name` has been loaded.
    pub closed spec fn loaded(&self, name: Seq<char>) -> bool {
        views(self.loaded@).contains(name)
    }

    pub fn new() -> (r: ModuleRegistry)
        ensures
            r.wf(),
            forall|n: Seq<char>| r.loader(n) is None && !r.loaded(n),
            r.module_names().len() == 0,
    {
        let r = ModuleRegistry { registrations: Vec::new(), loaded: Vec::new() };
        assert(views(r.loaded@) =~= Seq::<Seq<char>>::empty());
        r
    }

    /// Registers `loader` for the module `name`, replacing the loader of that name.
    pub fn register(&mut self, name: &str, loader: u64)
        requires
            old(self).wf(),
        ensures
            final(self).wf(),
            final(self).loader(name@) == Some(loader),
            forall|n: Seq<char>| n != name@ ==> final(self).loader(n) == old(self).loader(n),
            forall|n: Seq<char>| final(self).loaded(n) == old(self).loaded(n),
    {
        let ghost o = self.registrations@;
        let entry = LoaderEntry { name: name.to_string(), loader };
        match find_loader(&self.registrations, name) {
            Some(i) => {
                self.registrations.set(i, entry);
                proof {
                    let s = self.registrations@;
                    assert(unique_loaders(s)) by {
                        assert forall|a: int, b: int| 0 <= a < b < s.len() implies (#[trigger] s[a]).name@ != (#[trigger] s[b]).name@ by {
                            assert(o[a].name@ != o[b].name@);
                        }
                    }
                    lemma_loader_index(s, i as int);
                    assert forall|n: Seq<char>| n != name@ implies loader_lookup(s, n) == loader_lookup(o, n) by {
                        if loader_lookup(o, n) is Some {
                            let k = lemma_loader_found(o, n);
                            assert(s[k] == o[k]);
                            lemma_loader_index(s, k);
                            lemma_loader_index(o, k);
                        } else if loader_lookup(s, n) is Some {
                            let k = lemma_loader_found(s, n);
                            assert(s[k] == o[k]);
                            lemma_loader_index(o, k);
                        }
                    }
                }
            },
            None => {
                self.registrations.push(entry);
                proof {
                    let s = self.registrations@;
                    assert(s.drop_last() =~= o);
                    assert(unique_loaders(s)) by {
                        assert forall|a: int, b: int| 0 <= a < b < s.len() implies (#[trigger] s[a]).name@ != (#[trigger] s[b]).name@ by {
                            if b < o.len() {
                                assert(o[a].name@ != o[b].name@);
                            } else {
                                assert(s[a] == o[a]);
                            }
                        }
                    }
                }
            },
        }
    }

    /// Loads the module `name`: nothing is run if it is loaded already; if it is registered,
    /// `run` runs its loader and the module is marked loaded; an error otherwise.
    pub fn load_module<F: FnOnce(u64)>(&mut self, name: &str, run: F) -> (r: Result<(), String>)
        requires
            old(self).wf(),
            forall|l: u64| run.requires((l,)),
        ensures
            final(self).wf(),
            forall|n: Seq<char>| final(self).loader(n) == old(self).loader(n),
            final(self).module_names() == old(self).module_names(),
            old(self).loaded(name@) ==> r is Ok && forall|n: Seq<char>| final(self).loaded(n) == old(self).loaded(n),
            !old(self).loaded(name@) ==> match old(self).loader(name@) {
                Some(l) => r is Ok && run.ensures((l,), ()) && final(self).loaded(name@)
                    && forall|n: Seq<char>| n != name@ ==> final(self).loaded(n) == old(self).loaded(n),
                None => r matches Err(e) && e@ == module_not_found_msg(name@)
                    && forall|n: Seq<char>| final(self).loaded(n) == old(self).loaded(n),
            },
    {
        if contains_str(&self.loaded, name) {
            return Ok(());
        }
        match find_loader(&self.registrations, name) {
            Some(i) => {
                proof { lemma_loader_index(self.registrations@, i as int); }
                let loader = self.registrations[i].loader;
                let ghost o = self.loaded@;
                self.loaded.push(name.to_string());
                proof {
                    assert(views(self.loaded@) =~= views(o).push(name@));
                    assert(views(self.loaded@)[o.len() as int] == name@);
                    assert forall|n: Seq<char>| n != name@ implies views(self.loaded@).contains(n) == views(o).contains(n) by {
                        if views(o).contains(n) {
                            let k = choose|k: int| 0 <= k < views(o).len() && views(o)[k] == n;
                            assert(views(self.loaded@)[k] == n);
                        }
                    }
                }
                run(loader);
                Ok(())
            },
            None => {
                proof { lemma_loader_absent(self.registrations@, name@); }
                let a = concat2("Module '", name);
                Err(concat2(a.as_str(), "' not found"))
            },
        }
    }

    pub fn has_module(&self, name: &str) -> (b: bool)
        requires
            self.wf(),
        ensures
            b == self.loader(name@) is Some,
    {
        match find_loader(&self.registrations, name) {
            Some(i) => {
                proof { lemma_loader_index(self.registrations@, i as int); }
                true
            },
            None => {
                proof { lemma_loader_absent(self.registrations@, name@); }
                false
            },
        }
    }

    /// The registered module names, in registration order.
    pub fn list_modules(&self) -> (r: Vec<String>)
        ensures
            views(r@) == self.module_names(),
    {
        let mut r: Vec<String> = Vec::new();
        let mut i: usize = 0;
        while i < self.registrations.len()
            invariant
                i <= self.registrations@.len(),
                views(r@) == loader_names(self.registrations@).subrange(0, i as int),
            decreases self.registrations@.len() - i,
        {
            let ghost before = r@;
            r.push(self.registrations[i].name.clone());
            assert(views(r@) =~= views(before).push(self.registrations@[i as int].name@));
            assert(loader_names(self.registrations@).subrange(0, i + 1)
                =~= loader_names(self.registrations@).subrange(0, i as int).push(self.registrations@[i as int].name@));
            i = i + 1;
        }
        assert(loader_names(self.registrations@).subrange(0, self.registrations@.len() as int) =~= loader_names(self.registrations@));
        r
    }

    pub fn is_loaded(&self, name: &str) -> (b: bool)
        ensures
            b == self.loaded(name@),
    {
        contains_str(&self.loaded, name)
    }

    pub fn get_loader(&self, name: &str) -> (r: Option<u64>)
        requires
            self.wf(),
        ensures
            r == self.loader(name@),
    {
        match find_loader(&self.registrations, name) {
            Some(i) => {
                proof { lemma_loader_index(self.registrations@, i as int); }
                Some(self.registrations[i].loader)
            },
            None => {
                proof { lemma_loader_absent(self.registrations@, name@); }
                None
            },
        }
    }
}


impl Default for ModuleRegistry {
    fn default() -> (r: ModuleRegistry)
        ensures
            r.wf(),
            forall|n: Seq<char>| r.loader(n) is None && !r.loaded(n),
            r.module_names().len() == 0,
    {
        ModuleRegistry::new()
    }
}

} // verus!
