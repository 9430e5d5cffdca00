//! A plain registry of native functions.
use vstd::prelude::*;
use crate::ast::{DecoratorDecl, Type};
use crate::runtime::fn_table::{fn_lookup, fn_names, table_get, table_insert, table_names, unique_names, NamedFn};
use crate::runtime::values::{same_native, NativeFn, NativeFunctionValue};
use crate::text::views;

verus! {

/// Native functions by name.
pub struct NativeRegistry {
    functions: Vec<NamedFn>,
}

impl NativeRegistry {
    pub closed spec fn wf(&self) -> bool {
        unique_names(self.functions@)
    }

    /// The function under a name.
    pub closed spec fn lookup(&self, name: Seq<char>) -> Option<NativeFunctionValue> {
        fn_lookup(self.functions@, name)
    }

    /// The entries, in order.
    pub closed spec fn entries(&self) -> Seq<NamedFn> {
        self.functions@
    }

    /// The registered names.
    pub closed spec fn names(&self) -> Seq<Seq<char>> {
        fn_names(self.functions@)
    }

    pub fn new() -> (r: NativeRegistry)
        ensures
            r.wf(),
            r.names().len() == 0,
            forall|n: Seq<char>| r.lookup(n) is None,
    {
        NativeRegistry { functions: Vec::new() }
    }

    /// Registers `function` under `name` with the type `(param_types) -> return_type`,
    /// replacing a function of that name.
    pub fn register(&mut self, name: &str, function: NativeFn, param_types: Vec<Type>, return_type: Type)
        requires
            old(self).wf(),
        ensures
            final(self).wf(),
            final(self).lookup(name@) matches Some(f) && f.implementation == function
                && (f.fn_type matches Type::Function { params, return_type: rt, is_variadic }
                && params@ == param_types@ && *rt == return_type && !is_variadic),
            forall|n: Seq<char>| n != name@ ==> final(self).lookup(n) == old(self).lookup(n),
            final(self).names().to_set() == old(self).names().to_set().insert(name@),
    {
        let fn_type = Type::Function { params: param_types, return_type: Box::new(return_type), is_variadic: false };
        let native_fn = NativeFunctionValue::new(function, fn_type);
        table_insert(&mut self.functions, String::from_str(name), native_fn);
    }

    /// A copy of the function under `name`.
    pub fn get(&self, name: &str) -> (r: Option<NativeFunctionValue>)
        requires
            self.wf(),
        ensures
            match self.lookup(name@) {
                Some(f) => r matches Some(g) && same_native(f, g),
                None => r is None,
            },
    {
        table_get(&self.functions, name)
    }

    /// The registered names.
    pub fn list(&self) -> (r: Vec<String>)
        ensures
            views(r@) == self.names(),
    {
        let mut r: Vec<String> = Vec::new();
        table_names(&self.functions, &mut r);
        assert(views(r@) =~= self.names());
        r
    }

    /// A copy of every entry.
    pub fn export_all(&self) -> (r: Vec<NamedFn>)
        ensures
            r@.len() == self.names().len(),
            forall|i: int| 0 <= i < r@.len() ==> (#[trigger] r@[i]).name@ == self.names()[i]
                && same_native(self.entries()[i].function, r@[i].function),
    {
        let mut r: Vec<NamedFn> = Vec::new();
        let mut i: usize = 0;
        while i < self.functions.len()
            invariant
                i <= self.functions@.len(),
                r@.len() == i,
                forall|j: int| 0 <= j < i ==> (#[trigger] r@[j]).name@ == self.functions@[j].name@
                    && same_native(self.functions@[j].function, r@[j].function),
            decreases self.functions@.len() - i,
        {
            let e = &self.functions[i];
            r.push(NamedFn { name: e.name.clone(), function: e.function.copy() });
            i = i + 1;
        }
        r
    }
}

/// Recognises decorators that mark native functions.
pub struct NativeDecoratorProcessor;

impl NativeDecoratorProcessor {
    /// No decorator marks a native function.
    pub fn has_native_decorator(decorators: &[DecoratorDecl]) -> (b: bool)
        ensures
            !b,
    {
        false
    }
}


impl Default for NativeRegistry {
    fn default() -> (r: NativeRegistry)
        ensures
            r.wf(),
            r.names().len() == 0,
            forall|n: Seq<char>| r.lookup(n) is None,
    {
        NativeRegistry::new()
    }
}

} // verus!
