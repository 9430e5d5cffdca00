//! The global functions `print`, `println`, `eprint`, `input` and `len`.
use vstd::prelude::*;
use crate::ast::{PrimitiveKind, Type};
use crate::runtime::builtins::{any_t, declare_native, fn_type, native_bound, prim};
use crate::runtime::environment::{scope_lookup, Environment};
use crate::runtime::values::NativeFn;

verus! {

/// `scope` binds the five global functions.
pub open spec fn globals_bound(scope: Seq<crate::runtime::environment::Binding>) -> bool {
    &&& native_bound(scope, "print"@, NativeFn::Print, Seq::empty(), prim(PrimitiveKind::Void), true)
    &&& native_bound(scope, "println"@, NativeFn::Println, seq![prim(PrimitiveKind::Str)], prim(PrimitiveKind::Void), false)
    &&& native_bound(scope, "eprint"@, NativeFn::Eprint, Seq::empty(), prim(PrimitiveKind::Void), true)
    &&& native_bound(scope, "input"@, NativeFn::Input, seq![prim(PrimitiveKind::Str), prim(PrimitiveKind::Bool)],
        prim(PrimitiveKind::Str), false)
    &&& native_bound(scope, "len"@, NativeFn::Len, seq![any_t()], prim(PrimitiveKind::Int), false)
}

proof fn lemma_names()
    ensures
        "print"@ != "println"@, "print"@ != "eprint"@, "print"@ != "input"@, "print"@ != "len"@,
        "println"@ != "eprint"@, "println"@ != "input"@, "println"@ != "len"@,
        "eprint"@ != "input"@, "eprint"@ != "len"@, "input"@ != "len"@,
{
    reveal_strlit("print");
    reveal_strlit("println");
    reveal_strlit("eprint");
    reveal_strlit("input");
    reveal_strlit("len");
    assert("print"@.len() == 5 && "println"@.len() == 7 && "eprint"@.len() == 6 && "input"@.len() == 5);
    assert("len"@.len() == 3 && "print"@[0] != "input"@[0]);
}

/// Declares `print`, `println`, `eprint`, `input` and `len` in the innermost scope; a name
/// already declared there keeps its value.
pub fn register(env: &mut Environment)
    requires
        old(env).view().len() > 0,
    ensures
        final(env).view().len() == old(env).view().len(),
        final(env).view().drop_last() == old(env).view().drop_last(),
        scope_lookup(old(env).view().last(), "print"@) is None && scope_lookup(old(env).view().last(), "println"@) is None
            && scope_lookup(old(env).view().last(), "eprint"@) is None && scope_lookup(old(env).view().last(), "input"@) is None
            && scope_lookup(old(env).view().last(), "len"@) is None ==> globals_bound(final(env).view().last()),
{
    proof {
        lemma_names();
    }
    declare_native(env, "print", NativeFn::Print, fn_type(Vec::new(), Type::Primitive(PrimitiveKind::Void), true));
    let ghost s1 = env.view().last();
    let mut p1: Vec<Type> = Vec::new();
    p1.push(Type::Primitive(PrimitiveKind::Str));
    assert(p1@ =~= seq![prim(PrimitiveKind::Str)]);
    declare_native(env, "println", NativeFn::Println, fn_type(p1, Type::Primitive(PrimitiveKind::Void), false));
    let ghost s2 = env.view().last();
    declare_native(env, "eprint", NativeFn::Eprint, fn_type(Vec::new(), Type::Primitive(PrimitiveKind::Void), true));
    let ghost s3 = env.view().last();
    let mut p2: Vec<Type> = Vec::new();
    p2.push(Type::Primitive(PrimitiveKind::Str));
    p2.push(Type::Primitive(PrimitiveKind::Bool));
    assert(p2@ =~= seq![prim(PrimitiveKind::Str), prim(PrimitiveKind::Bool)]);
    declare_native(env, "input", NativeFn::Input, fn_type(p2, Type::Primitive(PrimitiveKind::Str), false));
    let ghost s4 = env.view().last();
    let mut p3: Vec<Type> = Vec::new();
    p3.push(Type::Primitive(PrimitiveKind::Any));
    assert(p3@ =~= seq![any_t()]);
    declare_native(env, "len", NativeFn::Len, fn_type(p3, Type::Primitive(PrimitiveKind::Int), false));
    proof {
        let s5 = env.view().last();
        assert(scope_lookup(s5, "print"@) == scope_lookup(s1, "print"@));
        assert(scope_lookup(s5, "println"@) == scope_lookup(s2, "println"@));
        assert(scope_lookup(s5, "eprint"@) == scope_lookup(s3, "eprint"@));
        assert(scope_lookup(s5, "input"@) == scope_lookup(s4, "input"@));
    }
}

} // verus!
