//! The plugins whose functions every program can call.
use vstd::prelude::*;
use crate::ast::{PrimitiveKind, Type};
use crate::runtime::plugin_system::{NativePlugin, PluginRegistry};
use crate::runtime::values::{NativeFn, NativeFunctionValue};

verus! {

/// The type of `print` and `eprint`: variadic, returning nothing.
fn print_type() -> (t: Type)
    ensures
        t matches Type::Function { params, return_type, is_variadic } && params@.len() == 0
            && *return_type == Type::Primitive(PrimitiveKind::Void) && is_variadic,
{
    Type::Function { params: Vec::new(), return_type: Box::new(Type::Primitive(PrimitiveKind::Void)), is_variadic: true }
}

/// The `print` and `eprint` functions, without a namespace.
pub struct OutputPlugin;

impl NativePlugin for OutputPlugin {
    open spec fn namespace_view(&self) -> Seq<char> {
        "output"@
    }

    fn namespace(&self) -> (r: &str) {
        "output"
    }

    open spec fn function_names(&self) -> Set<Seq<char>> {
        set!["print"@, "eprint"@]
    }

    fn register(&self, registry: &mut PluginRegistry)
        ensures
            final(registry).sync_fn("print"@) matches Some(f) && f.implementation == NativeFn::Print,
            final(registry).sync_fn("eprint"@) matches Some(f) && f.implementation == NativeFn::Eprint,
            forall|n: Seq<char>| n != "print"@ && n != "eprint"@ ==> final(registry).sync_fn(n) == old(registry).sync_fn(n),
            forall|n: Seq<char>| final(registry).async_fn(n) == old(registry).async_fn(n),
            forall|n: Seq<char>| final(registry).namespace_fns(n) == old(registry).namespace_fns(n),
    {
        let print_fn = NativeFunctionValue::new(NativeFn::Print, print_type());
        registry.register_sync("print", None, print_type(), print_fn);
        let eprint_fn = NativeFunctionValue::new(NativeFn::Eprint, print_type());
        registry.register_sync("eprint", None, print_type(), eprint_fn);
        proof {
            reveal_strlit("print");
            reveal_strlit("eprint");
            assert("print"@ != "eprint"@) by {
                assert("print"@.len() != "eprint"@.len());
            }
        }
    }
}

/// Registers the built-in plugins' functions.
pub fn load_builtin_plugins(registry: &mut PluginRegistry)
    requires
        old(registry).wf(),
    ensures
        final(registry).wf(),
        final(registry).sync_fn("print"@) matches Some(f) && f.implementation == NativeFn::Print,
        final(registry).sync_fn("eprint"@) matches Some(f) && f.implementation == NativeFn::Eprint,
        forall|n: Seq<char>| n != "print"@ && n != "eprint"@ ==> final(registry).sync_fn(n) == old(registry).sync_fn(n),
        forall|n: Seq<char>| final(registry).async_fn(n) == old(registry).async_fn(n),
{
    let output = OutputPlugin;
    output.register(registry);
}

} // verus!
