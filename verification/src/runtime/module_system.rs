//! Loaded modules, their exports, and a cache of modules by path.
use vstd::prelude::*;
use crate::ast::{Program, Stmt, VarPattern};
use crate::runtime::environment::{scope_lookup, Binding};
use crate::runtime::values::RuntimeValue;
use crate::text::{chars_of, concat2, str_eq, views};
use crate::runtime::std_natives::{contains_exec, occurs_at, occurs_at_exec, text_contains};

verus! {

/// A loaded module: its path, exports, default export and syntax tree.
#[derive(Debug)]
pub struct Module {
    pub path: String,
    pub exports: Vec<Binding>,
    pub default_export: Option<RuntimeValue>,
    pub ast: Program,
}

fn find_binding(s: &Vec<Binding>, name: &str) -> (r: Option<usize>)
    ensures
        match r {
            Some(i) => i < s@.len() && s@[i as int].name@ == name@,
            None => forall|i: int| 0 <= i < s@.len() ==> (#[trigger] s@[i]).name@ != name@,
        },
{
    let mut i: usize = 0;
    while i < s.len()
        invariant
            i <= s@.len(),
            forall|j: int| 0 <= j < i ==> (#[trigger] s@[j]).name@ != name@,
        decreases s@.len() - i,
    {
        if str_eq(s[i].name.as_str(), name) {
            return Some(i);
        }
        i = i + 1;
    }
    None
}

pub open spec fn unique_bindings(s: Seq<Binding>) -> bool {
    forall|i: int, j: int| 0 <= i < j < s.len() ==> (#[trigger] s[i]).name@ != (#[trigger] s[j]).name@
}

proof fn lemma_binding_index(s: Seq<Binding>, i: int)
    requires
        unique_bindings(s),
        0 <= i < s.len(),
    ensures
        scope_lookup(s, s[i].name@) == Some(s[i].value),
    decreases s.len(),
{
    if i < s.len() - 1 {
        assert(s[s.len() - 1].name@ != s[i].name@);
        assert(s.drop_last()[i] == s[i]);
        lemma_binding_index(s.drop_last(), i);
    }
}

proof fn lemma_binding_absent(s: Seq<Binding>, name: Seq<char>)
    requires
        forall|i: int| 0 <= i < s.len() ==> (#[trigger] s[i]).name@ != name,
    ensures
        scope_lookup(s, name) is None,
    decreases s.len(),
{
    if s.len() > 0 {
        assert(s[s.len() - 1].name@ != name);
        let d = s.drop_last();
        assert forall|i: int| 0 <= i < d.len() implies (#[trigger] d[i]).name@ != name by {
            assert(d[i] == s[i]);
        }
        lemma_binding_absent(d, name);
    }
}

proof fn lemma_binding_found(s: Seq<Binding>, name: Seq<char>) -> (i: int)
    requires
        scope_lookup(s, name) is Some,
    ensures
        0 <= i < s.len(),
        s[i].name@ == name,
    decreases s.len(),
{
    if s.last().name@ == name {
        s.len() - 1
    } else {
        let i = lemma_binding_found(s.drop_last(), name);
        assert(s.drop_last()[i] == s[i]);
        i
    }
}

/// Binds `name` to `value` in a table of bindings with unique names, replacing an existing
/// binding of that name.
pub fn insert_binding(t: &mut Vec<Binding>, name: String, value: RuntimeValue)
    requires
        unique_bindings(old(t)@),
    ensures
        unique_bindings(final(t)@),
        scope_lookup(final(t)@, name@) == Some(value),
        forall|n: Seq<char>| n != name@ ==> scope_lookup(final(t)@, n) == scope_lookup(old(t)@, n),
{
    let ghost nm = name@;
    let ghost o = t@;
    match find_binding(t, name.as_str()) {
        Some(i) => {
            t.set(i, Binding { name, value });
            proof {
                let s = t@;
                assert(unique_bindings(s)) by {
                    assert forall|a: int, b: int| 0 <= a < b < s.len() implies (#[trigger] s[a]).name@ != (#[trigger] s[b]).name@ by {
                        assert(o[a].name@ != o[b].name@);
                    }
                }
                lemma_binding_index(s, i as int);
                assert forall|n: Seq<char>| n != nm implies scope_lookup(s, n) == scope_lookup(o, n) by {
                    if scope_lookup(o, n) is Some {
                        let k = lemma_binding_found(o, n);
                        assert(s[k] == o[k]);
                        lemma_binding_index(s, k);
                        lemma_binding_index(o, k);
                    } else if scope_lookup(s, n) is Some {
                        let k = lemma_binding_found(s, n);
                        assert(s[k] == o[k]);
                        lemma_binding_index(o, k);
                    }
                }
            }
        },
        None => {
            t.push(Binding { name, value });
            proof {
                let s = t@;
                assert(s.drop_last() =~= o);
                assert(unique_bindings(s)) by {
                    assert forall|a: int, b: int| 0 <= a < b < s.len() implies (#[trigger] s[a]).name@ != (#[trigger] s[b]).name@ by {
                        if b < o.len() {
                            assert(o[a].name@ != o[b].name@);
                        } else {
                            assert(s[a] == o[a]);
                        }
                    }
                }
            }
        },
    }
}

/// The value bound to `name`, by reference.
pub fn lookup_binding<'a>(t: &'a Vec<Binding>, name: &str) -> (r: Option<&'a RuntimeValue>)
    requires
        unique_bindings(t@),
    ensures
        match scope_lookup(t@, name@) {
            Some(v) => r == Some(&v),
            None => r is None,
        },
{
    match find_binding(t, name) {
        Some(i) => {
            proof { lemma_binding_index(t@, i as int); }
            Some(&t[i].value)
        },
        None => {
            proof { lemma_binding_absent(t@, name@); }
            None
        },
    }
}

impl Module {
    pub open spec fn wf(&self) -> bool {
        unique_bindings(self.exports@)
    }

    pub fn new(path: String, ast: Program) -> (m: Module)
        ensures
            m.wf(),
            m.path == path,
            m.ast == ast,
            m.exports@.len() == 0,
            m.default_export is None,
    {
        Module { path, exports: Vec::new(), default_export: None, ast }
    }

    /// Exports `value` under `name`, replacing an export of that name.
    pub fn add_named_export(&mut self, name: String, value: RuntimeValue)
        requires
            old(self).wf(),
        ensures
            final(self).wf(),
            scope_lookup(final(self).exports@, name@) == Some(value),
            forall|n: Seq<char>| n != name@ ==> scope_lookup(final(self).exports@, n) == scope_lookup(old(self).exports@, n),
            final(self).default_export == old(self).default_export,
            final(self).path == old(self).path,
    {
        insert_binding(&mut self.exports, name, value);
    }

    pub fn set_default_export(&mut self, value: RuntimeValue)
        ensures
            final(self).default_export == Some(value),
            final(self).exports@ == old(self).exports@,
            final(self).path == old(self).path,
    {
        self.default_export = Some(value);
    }

    /// The export under `name`.
    pub fn get_export(&self, name: &str) -> (r: Option<&RuntimeValue>)
        requires
            self.wf(),
        ensures
            match scope_lookup(self.exports@, name@) {
                Some(v) => r == Some(&v),
                None => r is None,
            },
    {
        lookup_binding(&self.exports, name)
    }

    pub fn get_default(&self) -> (r: Option<&RuntimeValue>)
        ensures
            match self.default_export {
                Some(v) => r == Some(&v),
                None => r is None,
            },
    {
        match &self.default_export {
            Some(v) => Some(v),
            None => None,
        }
    }
}

/// A module under a path.
#[derive(Debug)]
pub struct CachedModule {
    pub path: String,
    pub module: Module,
}

/// The module cached under `path`.
pub open spec fn module_lookup(s: Seq<CachedModule>, path: Seq<char>) -> Option<Module>
    decreases s.len(),
{
    if s.len() == 0 {
        None
    } else if s.last().path@ == path {
        Some(s.last().module)
    } else {
        module_lookup(s.drop_last(), path)
    }
}

/// Loaded modules by path.
#[derive(Debug)]
pub struct ModuleCache {
    modules: Vec<CachedModule>,
}

fn find_module(s: &Vec<CachedModule>, path: &str) -> (r: Option<usize>)
    ensures
        match r {
            Some(i) => i < s@.len() && s@[i as int].path@ == path@
                && forall|j: int| i < j < s@.len() ==> (#[trigger] s@[j]).path@ != path@,
            None => forall|i: int| 0 <= i < s@.len() ==> (#[trigger] s@[i]).path@ != path@,
        },
{
    let mut k = s.len();
    while k > 0
        invariant
            k <= s@.len(),
            forall|j: int| k <= j < s@.len() ==> (#[trigger] s@[j]).path@ != path@,
        decreases k,
    {
        if str_eq(s[k - 1].path.as_str(), path) {
            return Some(k - 1);
        }
        k = k - 1;
    }
    None
}

proof fn lemma_module_last(s: Seq<CachedModule>, i: int)
    requires
        0 <= i < s.len(),
        forall|j: int| i < j < s.len() ==> (#[trigger] s[j]).path@ != s[i].path@,
    ensures
        module_lookup(s, s[i].path@) == Some(s[i].module),
    decreases s.len(),
{
    if i < s.len() - 1 {
        assert(s[s.len() - 1].path@ != s[i].path@);
        let d = s.drop_last();
        assert(d[i] == s[i]);
        assert forall|j: int| i < j < d.len() implies (#[trigger] d[j]).path@ != d[i].path@ by {
            assert(d[j] == s[j]);
        }
        lemma_module_last(d, i);
    }
}

proof fn lemma_module_absent(s: Seq<CachedModule>, path: Seq<char>)
    requires
        forall|i: int| 0 <= i < s.len() ==> (#[trigger] s[i]).path@ != path,
    ensures
        module_lookup(s, path) is None,
    decreases s.len(),
{
    if s.len() > 0 {
        assert(s[s.len() - 1].path@ != path);
        let d = s.drop_last();
        assert forall|i: int| 0 <= i < d.len() implies (#[trigger] d[i]).path@ != path by {
            assert(d[i] == s[i]);
        }
        lemma_module_absent(d, path);
    }
}

impl ModuleCache {
    /// The cached modules, most recent insertion last.
    pub closed spec fn view(&self) -> Seq<CachedModule> {
        self.modules@
    }

    pub fn new() -> (c: ModuleCache)
        ensures
            forall|p: Seq<char>| module_lookup(c.view(), p) is None,
    {
        ModuleCache { modules: Vec::new() }
    }

    /// The module cached under `path`.
    pub fn get(&self, path: &str) -> (r: Option<&Module>)
        ensures
            match module_lookup(self.view(), path@) {
                Some(m) => r == Some(&m),
                None => r is None,
            },
    {
        match find_module(&self.modules, path) {
            Some(i) => {
                proof { lemma_module_last(self.modules@, i as int); }
                Some(&self.modules[i].module)
            },
            None => {
                proof { lemma_module_absent(self.modules@, path@); }
                None
            },
        }
    }

    /// Caches `module` under `path`; a later insertion under the same path wins.
    pub fn insert(&mut self, path: String, module: Module)
        ensures
            module_lookup(final(self).view(), path@) == Some(module),
            forall|p: Seq<char>| p != path@ ==> module_lookup(final(self).view(), p) == module_lookup(old(self).view(), p),
    {
        let ghost o = self.modules@;
        self.modules.push(CachedModule { path, module });
        assert(self.modules@.drop_last() =~= o);
    }

    /// A module is cached under `path`.
    pub fn contains(&self, path: &str) -> (b: bool)
        ensures
            b == module_lookup(self.view(), path@) is Some,
    {
        self.get(path).is_some()
    }
}

/// The names a module's export declarations make public: specifier names (the exported
/// alias if there is one), and the names of exported variables, functions and classes.
pub open spec fn exported_names(stmts: Seq<Stmt>) -> Seq<Seq<char>>
    decreases stmts.len(),
{
    if stmts.len() == 0 {
        Seq::empty()
    } else {
        exported_names(stmts.drop_last()) + stmt_exports(stmts.last())
    }
}

pub open spec fn stmt_exports(s: Stmt) -> Seq<Seq<char>> {
    match s {
        Stmt::ExportDecl { declaration, specifiers, is_default, .. } => if is_default {
            Seq::empty()
        } else {
            specifiers@.map_values(|sp: crate::ast::ExportSpecifier| match sp.exported {
                Some(e) => e@,
                None => sp.local@,
            }) + match declaration {
                Some(d) => match *d {
                    Stmt::VarDecl { pattern: VarPattern::Identifier(name), .. } => seq![name@],
                    Stmt::FnDecl { name, .. } => seq![name@],
                    Stmt::ClassDecl { name, .. } => seq![name@],
                    _ => Seq::empty(),
                },
                None => Seq::empty(),
            }
        },
        _ => Seq::empty(),
    }
}

/// Some statement is a default export.
pub open spec fn has_default_export(stmts: Seq<Stmt>) -> bool {
    exists|i: int| 0 <= i < stmts.len() && (#[trigger] stmts[i]) matches Stmt::ExportDecl { is_default: true, .. }
}

/// The names a program exports by name, in order, and whether it has a default export.
pub fn analyze_exports(program: &Program) -> (r: (Vec<String>, bool))
    ensures
        views(r.0@) == exported_names(program.stmts@),
        r.1 == has_default_export(program.stmts@),
{
    let mut named_exports: Vec<String> = Vec::new();
    let mut has_default = false;
    let mut i: usize = 0;
    while i < program.stmts.len()
        invariant
            i <= program.stmts@.len(),
            views(named_exports@) == exported_names(program.stmts@.subrange(0, i as int)),
            has_default == has_default_export(program.stmts@.subrange(0, i as int)),
        decreases program.stmts@.len() - i,
    {
        let ghost pre = program.stmts@.subrange(0, i as int);
        let ghost nxt = program.stmts@.subrange(0, i + 1);
        assert(nxt.drop_last() =~= pre);
        let ghost before = views(named_exports@);
        if let Stmt::ExportDecl { declaration, specifiers, is_default, .. } = &program.stmts[i] {
            if *is_default {
                has_default = true;
            } else {
                let mut k: usize = 0;
                while k < specifiers.len()
                    invariant
                        k <= specifiers@.len(),
                        views(named_exports@) == before + specifiers@.subrange(0, k as int).map_values(|sp: crate::ast::ExportSpecifier| match sp.exported {
                            Some(e) => e@,
                            None => sp.local@,
                        }),
                    decreases specifiers@.len() - k,
                {
                    let ghost b2 = named_exports@;
                    let spec = &specifiers[k];
                    let export_name = match &spec.exported {
                        Some(e) => e.clone(),
                        None => spec.local.clone(),
                    };
                    named_exports.push(export_name);
                    assert(views(named_exports@) =~= views(b2).push(export_name@));
                    assert(specifiers@.subrange(0, k + 1) =~= specifiers@.subrange(0, k as int).push(specifiers@[k as int]));
                    k = k + 1;
                }
                assert(specifiers@.subrange(0, specifiers@.len() as int) =~= specifiers@);
                let ghost b3 = named_exports@;
                if let Some(decl) = declaration {
                    match &**decl {
                        Stmt::VarDecl { pattern: VarPattern::Identifier(name), .. } => {
                            named_exports.push(name.clone());
                            assert(views(named_exports@) =~= views(b3).push(name@));
                        },
                        Stmt::FnDecl { name, .. } => {
                            named_exports.push(name.clone());
                            assert(views(named_exports@) =~= views(b3).push(name@));
                        },
                        Stmt::ClassDecl { name, .. } => {
                            named_exports.push(name.clone());
                            assert(views(named_exports@) =~= views(b3).push(name@));
                        },
                        _ => {},
                    }
                }
            }
        }
        proof {
            assert(views(named_exports@) =~= exported_names(nxt));
            if has_default_export(pre) {
                let k = choose|k: int| 0 <= k < pre.len() && (#[trigger] pre[k]) matches Stmt::ExportDecl { is_default: true, .. };
                assert(nxt[k] == pre[k]);
            }
            if has_default_export(nxt) && !has_default_export(pre) {
                let k = choose|k: int| 0 <= k < nxt.len() && (#[trigger] nxt[k]) matches Stmt::ExportDecl { is_default: true, .. };
                if k < pre.len() {
                    assert(pre[k] == nxt[k]);
                }
            }
        }
        i = i + 1;
    }
    assert(program.stmts@.subrange(0, program.stmts@.len() as int) =~= program.stmts@);
    (named_exports, has_default)
}

/// The module system: a cache of loaded modules.
#[derive(Debug)]
pub struct ModuleSystem {
    pub cache: ModuleCache,
}

impl ModuleSystem {
    pub fn new() -> (m: ModuleSystem)
        ensures
            forall|p: Seq<char>| module_lookup(m.cache.view(), p) is None,
    {
        ModuleSystem { cache: ModuleCache::new() }
    }

    /// Caches a loaded module under its path.
    pub fn load_module(&mut self, path: String, module: Module)
        ensures
            module_lookup(final(self).cache.view(), path@) == Some(module),
            forall|p: Seq<char>| p != path@ ==> module_lookup(final(self).cache.view(), p) == module_lookup(old(self).cache.view(), p),
    {
        self.cache.insert(path, module);
    }

    /// The module loaded under `path`.
    pub fn get_module(&self, path: &str) -> (r: Option<&Module>)
        ensures
            match module_lookup(self.cache.view(), path@) {
                Some(m) => r == Some(&m),
                None => r is None,
            },
    {
        self.cache.get(path)
    }
}


impl Default for ModuleSystem {
    fn default() -> (m: ModuleSystem)
        ensures
            forall|p: Seq<char>| module_lookup(m.cache.view(), p) is None,
    {
        ModuleSystem::new()
    }
}

/// The path that `std::path::Path::join` makes of a directory and a relative path.
pub uninterp spec fn path_join(dir: Seq<char>, rel: Seq<char>) -> Seq<char>;

/// Whether `std::path::Path::extension` finds an extension in a path.
pub uninterp spec fn path_has_extension(p: Seq<char>) -> bool;

/// The path that `std::path::PathBuf::set_extension` makes of a path and an extension.
pub uninterp spec fn path_with_extension(p: Seq<char>, ext: Seq<char>) -> Seq<char>;

/// `Path::join`: `rel` joined onto `dir`, a function of the two texts alone.
#[verifier::external_body]
fn join_path(dir: &str, rel: &str) -> (r: String)
    ensures
        r@ == path_join(dir@, rel@),
{
    std::path::Path::new(dir).join(rel).to_string_lossy().into_owned()
}

/// `Path::extension`: whether the last component of `p` has an extension.
#[verifier::external_body]
fn has_extension(p: &str) -> (r: bool)
    ensures
        r == path_has_extension(p@),
{
    std::path::Path::new(p).extension().is_some()
}

/// `PathBuf::set_extension` with the extension `rcc`: `p` with that extension. The extension
/// is fixed here and holds no path separator, so the call does not panic.
#[verifier::external_body]
fn with_rcc_extension(p: &str) -> (r: String)
    ensures
        r@ == path_with_extension(p@, "rcc"@),
{
    let mut b = std::path::PathBuf::from(p);
    b.set_extension("rcc");
    b.to_string_lossy().into_owned()
}

/// The directory that `std::path::Path::parent` finds for a path, if any.
pub uninterp spec fn path_parent(p: Seq<char>) -> Option<Seq<char>>;

/// `Path::parent`: the path without its last component, or `None` for a root or an empty
/// path; a function of the text alone.
#[verifier::external_body]
fn parent_dir(p: &str) -> (r: Option<String>)
    ensures
        match r {
            Some(d) => path_parent(p@) == Some(d@),
            None => path_parent(p@) is None,
        },
{
    std::path::Path::new(p).parent().map(|d| d.to_string_lossy().into_owned())
}

/// The directory that relative specifiers are resolved against: the parent of the importing
/// file (`.` where it has none), or the working directory where there is no importing file.
pub open spec fn import_dir(current_file: Option<Seq<char>>, working_dir: Seq<char>) -> Seq<char> {
    match current_file {
        Some(f) => match path_parent(f) {
            Some(d) => d,
            None => "."@,
        },
        None => working_dir,
    }
}

/// `p`, given the `.rcc` extension where it has none.
pub open spec fn with_default_extension(p: Seq<char>) -> Seq<char> {
    if path_has_extension(p) { p } else { path_with_extension(p, "rcc"@) }
}

/// Where a module specifier leads, seen from the directory `dir` of the importing file: a
/// specifier starting with `./` or `../` is joined onto `dir`; one that neither starts with
/// `/` nor holds a backslash names a file of the standard library under `stdlib`; any other
/// is taken as it stands. The first and last get the `.rcc` extension where they have none.
pub open spec fn resolved_module_path(dir: Seq<char>, spec: Seq<char>) -> Seq<char> {
    if occurs_at(spec, "./"@, 0) || occurs_at(spec, "../"@, 0) {
        with_default_extension(path_join(dir, spec))
    } else if !occurs_at(spec, "/"@, 0) && !text_contains(spec, "\\"@) {
        path_join("stdlib"@, spec + ".rcc"@)
    } else {
        with_default_extension(spec)
    }
}

/// Resolves a module specifier to a path, seen from the importing file `current_file`; where
/// there is none, relative specifiers are resolved against `working_dir`, the process's
/// working directory, which the caller reads.
pub fn resolve_module_path(current_file: Option<&String>, module_specifier: &str, working_dir: &str) -> (r: String)
    ensures
        r@ == resolved_module_path(
            import_dir(match current_file { Some(f) => Some(f@), None => None }, working_dir@),
            module_specifier@,
        ),
{
    let current_dir: String = match current_file {
        Some(f) => match parent_dir(f.as_str()) {
            Some(d) => d,
            None => ".".to_string(),
        },
        None => working_dir.to_string(),
    };
    let current_dir = current_dir.as_str();
    let sc = chars_of(module_specifier);
    let dot = chars_of("./");
    let dotdot = chars_of("../");
    let slash = chars_of("/");
    let backslash = chars_of("\\");
    if occurs_at_exec(&sc, &dot, 0) || occurs_at_exec(&sc, &dotdot, 0) {
        let p = join_path(current_dir, module_specifier);
        if has_extension(p.as_str()) { p } else { with_rcc_extension(p.as_str()) }
    } else if !occurs_at_exec(&sc, &slash, 0) && !contains_exec(&sc, &backslash) {
        let file = concat2(module_specifier, ".rcc");
        join_path("stdlib", file.as_str())
    } else if has_extension(module_specifier) {
        module_specifier.to_string()
    } else {
        with_rcc_extension(module_specifier)
    }
}

} // verus!
