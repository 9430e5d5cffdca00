//! Nested scopes of variable bindings.
use vstd::prelude::*;
use crate::error::RaccoonError;
use crate::runtime::values::{same_value, RuntimeValue};
use crate::text::{copy_opt_string, str_eq};
use crate::tokens::Position;

verus! {

/// A variable and its value.
#[derive(Debug)]
pub struct Binding {
    pub name: String,
    pub value: RuntimeValue,
}

/// The value bound to `name` in one scope, if any; a later binding wins.
pub open spec fn scope_lookup(s: Seq<Binding>, name: Seq<char>) -> Option<RuntimeValue>
    decreases s.len(),
{
    if s.len() == 0 {
        None
    } else if s.last().name@ == name {
        Some(s.last().value)
    } else {
        scope_lookup(s.drop_last(), name)
    }
}

/// The value bound to `name` in the innermost scope that binds it.
pub open spec fn env_lookup(sv: Seq<Seq<Binding>>, name: Seq<char>) -> Option<RuntimeValue>
    decreases sv.len(),
{
    if sv.len() == 0 {
        None
    } else {
        match scope_lookup(sv.last(), name) {
            Some(v) => Some(v),
            None => env_lookup(sv.drop_last(), name),
        }
    }
}

/// The index of the innermost scope that binds `name`, or -1.
pub open spec fn binding_scope(sv: Seq<Seq<Binding>>, name: Seq<char>) -> int
    decreases sv.len(),
{
    if sv.len() == 0 {
        -1
    } else if scope_lookup(sv.last(), name) is Some {
        sv.len() - 1
    } else {
        binding_scope(sv.drop_last(), name)
    }
}

/// Two scopes bind the same names, in the same order, to the same values.
pub open spec fn same_scope(a: Seq<Binding>, b: Seq<Binding>) -> bool {
    &&& a.len() == b.len()
    &&& forall|j: int| 0 <= j < a.len() ==> (#[trigger] a[j]).name == b[j].name && same_value(a[j].value, b[j].value)
}

/// Two stacks of scopes are the same, scope by scope.
pub open spec fn same_scopes(a: Seq<Seq<Binding>>, b: Seq<Seq<Binding>>) -> bool {
    &&& a.len() == b.len()
    &&& forall|k: int| 0 <= k < a.len() ==> same_scope(#[trigger] a[k], b[k])
}

fn copy_scope(scope: &Vec<Binding>) -> (r: Vec<Binding>)
    ensures
        same_scope(scope@, r@),
{
    let mut r: Vec<Binding> = Vec::new();
    let mut j: usize = 0;
    while j < scope.len()
        invariant
            j <= scope@.len(),
            r@.len() == j,
            forall|k: int| 0 <= k < j ==> (#[trigger] scope@[k]).name == r@[k].name && same_value(scope@[k].value, r@[k].value),
        decreases scope@.len() - j,
    {
        r.push(Binding { name: scope[j].name.clone(), value: scope[j].value.copy() });
        j = j + 1;
    }
    r
}

/// `"Variable '" + name + suffix`
pub open spec fn variable_msg(name: Seq<char>, suffix: Seq<char>) -> Seq<char> {
    "Variable '"@ + name + suffix
}

/// Variables in a stack of scopes; the innermost scope is the last.
#[derive(Debug)]
pub struct Environment {
    pub file: Option<String>,
    scopes: Vec<Vec<Binding>>,
}

impl Environment {
    /// The file the environment belongs to.
    pub closed spec fn file_view(&self) -> Option<String> {
        self.file
    }

    /// The scopes, outermost first.
    pub closed spec fn view(&self) -> Seq<Seq<Binding>> {
        self.scopes@.map_values(|s: Vec<Binding>| s@)
    }

    pub fn new(file: Option<String>) -> (env: Environment)
        ensures
            env.view() == seq![Seq::<Binding>::empty()],
            env.file_view() == file,
    {
        let mut scopes: Vec<Vec<Binding>> = Vec::new();
        scopes.push(Vec::new());
        let env = Environment { file, scopes };
        assert(env.view() =~= seq![Seq::<Binding>::empty()]);
        env
    }

    /// Opens an inner scope.
    pub fn push_scope(&mut self)
        ensures
            final(self).view() == old(self).view().push(Seq::empty()),
            final(self).file_view() == old(self).file_view(),
    {
        self.scopes.push(Vec::new());
        assert(self.view() =~= old(self).view().push(Seq::empty()));
    }

    /// Closes the innermost scope, unless it is the only one.
    pub fn pop_scope(&mut self)
        ensures
            final(self).view() == (if old(self).view().len() > 1 {
                old(self).view().drop_last()
            } else {
                old(self).view()
            }),
            final(self).file_view() == old(self).file_view(),
    {
        if self.scopes.len() > 1 {
            self.scopes.pop();
            assert(self.view() =~= old(self).view().drop_last());
        }
    }

    /// Binds `name` in the innermost scope; fails if that scope binds it already.
    pub fn declare(&mut self, name: String, value: RuntimeValue) -> (r: Result<(), RaccoonError>)
        requires
            old(self).view().len() > 0,
        ensures
            final(self).file_view() == old(self).file_view(),
            scope_lookup(old(self).view().last(), name@) is Some ==> {
                &&& final(self).view() == old(self).view()
                &&& r matches Err(e) && e.message@ == variable_msg(name@, "' is already declared"@)
                    && e.position == (0usize, 0usize)
            },
            scope_lookup(old(self).view().last(), name@) is None ==> {
                &&& r is Ok
                &&& final(self).view() == old(self).view().update(
                    old(self).view().len() - 1,
                    old(self).view().last().push(Binding { name, value }),
                )
            },
    {
        let k = self.scopes.len() - 1;
        if scope_index(&self.scopes[k], name.as_str()).is_some() {
            let msg = variable_message(name.as_str(), "' is already declared");
            return Err(RaccoonError::new(msg.as_str(), (0, 0), copy_opt_string(&self.file)));
        }
        let mut scope = self.scopes.remove(k);
        let ghost b = Binding { name, value };
        scope.push(Binding { name, value });
        self.scopes.push(scope);
        assert(self.view() =~= old(self).view().update(
            old(self).view().len() - 1,
            old(self).view().last().push(b),
        ));
        Ok(())
    }

    /// Replaces the value of `name` in the innermost scope that binds it.
    pub fn assign(&mut self, name: &str, value: RuntimeValue, position: Position) -> (r: Result<(), RaccoonError>)
        ensures
            final(self).file_view() == old(self).file_view(),
            final(self).view().len() == old(self).view().len(),
            env_lookup(old(self).view(), name@) is None ==> {
                &&& final(self).view() == old(self).view()
                &&& r matches Err(e) && e.message@ == variable_msg(name@, "' is not declared"@)
                    && e.position == position
            },
            env_lookup(old(self).view(), name@) is Some ==> {
                &&& r is Ok
                &&& exists|j: int, i: int| assigned_at(old(self).view(), final(self).view(), name@, value, j, i)
                &&& env_lookup(final(self).view(), name@) == Some(value)
                &&& forall|n: Seq<char>| n != name@ ==> env_lookup(final(self).view(), n)
                    == env_lookup(old(self).view(), n)
            },
    {
        let mut k = self.scopes.len();
        while k > 0
            invariant
                k <= self.scopes@.len(),
                *self == *old(self),
                forall|idx: int| k <= idx < old(self).view().len() ==> scope_lookup(#[trigger] old(self).view()[idx], name@) is None,
            decreases k,
        {
            let j = k - 1;
            assert(old(self).view()[j as int] == self.scopes@[j as int]@);
            match scope_index(&self.scopes[j], name) {
                Some(i) => {
                    proof { lemma_env_top(old(self).view(), j as int, name@); }
                    let ghost old_scopes = self.scopes@;
                    let mut scope = self.scopes.remove(j);
                    let ghost old_scope = scope@;
                    let old_binding = scope.remove(i);
                    scope.insert(i, Binding { name: old_binding.name, value });
                    let ghost ns = old_scope.update(i as int, Binding { name: old_scope[i as int].name, value });
                    assert(scope@ =~= ns);
                    proof {
                        lemma_replace_lookup(old_scope, i as int, value);
                    }
                    self.scopes.insert(j, scope);
                    assert(self.scopes@ =~= old_scopes.update(j as int, scope));
                    proof {
                        let sv = old(self).view();
                        let nv = self.view();
                        assert(nv =~= sv.update(j as int, ns));
                        assert forall|idx: int| j < idx < nv.len() implies scope_lookup(#[trigger] nv[idx], name@) is None by {
                            assert(nv[idx] == sv[idx]);
                        }
                        lemma_env_top(nv, j as int, name@);
                        assert(assigned_at(sv, nv, name@, value, j as int, i as int));
                        assert forall|n: Seq<char>| n != name@ implies env_lookup(nv, n) == env_lookup(sv, n) by {
                            assert forall|idx: int| 0 <= idx < sv.len() implies scope_lookup(#[trigger] sv[idx], n) == scope_lookup(nv[idx], n) by {
                                if idx != j {
                                    assert(nv[idx] == sv[idx]);
                                }
                            }
                            lemma_env_pointwise(sv, nv, n);
                        }
                    }
                    return Ok(());
                },
                None => {},
            }
            k = j;
        }
        proof { lemma_env_none(old(self).view(), name@); }
        let msg = variable_message(name, "' is not declared");
        Err(RaccoonError::new(msg.as_str(), position, copy_opt_string(&self.file)))
    }

    /// A copy of the value of `name` in the innermost scope that binds it.
    pub fn get(&self, name: &str, position: Position) -> (r: Result<RuntimeValue, RaccoonError>)
        ensures
            match env_lookup(self.view(), name@) {
                Some(v) => r matches Ok(w) && same_value(v, w),
                None => r matches Err(e) && e.message@ == variable_msg(name@, "' is not declared"@)
                    && e.position == position,
            },
    {
        let mut k = self.scopes.len();
        while k > 0
            invariant
                k <= self.scopes@.len(),
                forall|idx: int| k <= idx < self.view().len() ==> scope_lookup(#[trigger] self.view()[idx], name@) is None,
            decreases k,
        {
            let j = k - 1;
            assert(self.view()[j as int] == self.scopes@[j as int]@);
            match scope_index(&self.scopes[j], name) {
                Some(i) => {
                    proof { lemma_env_top(self.view(), j as int, name@); }
                    return Ok(self.scopes[j][i].value.copy());
                },
                None => {},
            }
            k = j;
        }
        proof { lemma_env_none(self.view(), name@); }
        let msg = variable_message(name, "' is not declared");
        Err(RaccoonError::new(msg.as_str(), position, copy_opt_string(&self.file)))
    }

    /// A copy of the environment: the same file, and scopes that bind the same names, in the
    /// same order, to copies of the same values.
    pub fn copy(&self) -> (r: Environment)
        ensures
            r.file_view() == self.file_view(),
            same_scopes(self.view(), r.view()),
    {
        let mut scopes: Vec<Vec<Binding>> = Vec::new();
        let mut i: usize = 0;
        while i < self.scopes.len()
            invariant
                i <= self.scopes@.len(),
                scopes@.len() == i,
                forall|k: int| 0 <= k < i ==> same_scope(#[trigger] self.scopes@[k]@, scopes@[k]@),
            decreases self.scopes@.len() - i,
        {
            scopes.push(copy_scope(&self.scopes[i]));
            i = i + 1;
        }
        let r = Environment { file: crate::ast::copy_opt(&self.file), scopes };
        assert forall|k: int| 0 <= k < self.view().len() implies same_scope(#[trigger] self.view()[k], r.view()[k]) by {
            assert(self.view()[k] == self.scopes@[k]@);
            assert(r.view()[k] == r.scopes@[k]@);
        }
        r
    }

    /// Some scope binds `name`.
    pub fn exists_name(&self, name: &str) -> (b: bool)
        ensures
            b == env_lookup(self.view(), name@) is Some,
    {
        let mut k = self.scopes.len();
        while k > 0
            invariant
                k <= self.scopes@.len(),
                forall|idx: int| k <= idx < self.view().len() ==> scope_lookup(#[trigger] self.view()[idx], name@) is None,
            decreases k,
        {
            let j = k - 1;
            assert(self.view()[j as int] == self.scopes@[j as int]@);
            if scope_index(&self.scopes[j], name).is_some() {
                proof { lemma_env_top(self.view(), j as int, name@); }
                return true;
            }
            k = j;
        }
        proof { lemma_env_none(self.view(), name@); }
        false
    }
}

/// The index of the last binding of `name` in a scope.
fn scope_index(scope: &Vec<Binding>, name: &str) -> (r: Option<usize>)
    ensures
        match r {
            Some(i) => i < scope@.len() && scope@[i as int].name@ == name@
                && scope_lookup(scope@, name@) == Some(scope@[i as int].value)
                && forall|j: int| i < j < scope@.len() ==> scope@[j].name@ != name@,
            None => scope_lookup(scope@, name@) is None,
        },
{
    let mut k = scope.len();
    assert(scope@.subrange(0, k as int) =~= scope@);
    while k > 0
        invariant
            k <= scope@.len(),
            scope_lookup(scope@, name@) == scope_lookup(scope@.subrange(0, k as int), name@),
            forall|j: int| k <= j < scope@.len() ==> scope@[j].name@ != name@,
        decreases k,
    {
        let j = k - 1;
        assert(scope@.subrange(0, k as int).drop_last() =~= scope@.subrange(0, j as int));
        if str_eq(scope[j].name.as_str(), name) {
            return Some(j);
        }
        k = j;
    }
    None
}

/// Replacing the value of the last binding of a name changes what the name looks up to
/// and nothing else.
proof fn lemma_replace_lookup(s: Seq<Binding>, i: int, value: RuntimeValue)
    requires
        0 <= i < s.len(),
        forall|j: int| i < j < s.len() ==> s[j].name@ != s[i].name@,
    ensures
        scope_lookup(s.update(i, Binding { name: s[i].name, value }), s[i].name@) == Some(value),
        forall|n: Seq<char>| n != s[i].name@ ==> scope_lookup(s.update(i, Binding { name: s[i].name, value }), n)
            == scope_lookup(s, n),
    decreases s.len(),
{
    let t = s.update(i, Binding { name: s[i].name, value });
    if i < s.len() - 1 {
        assert(t.drop_last() =~= s.drop_last().update(i, Binding { name: s[i].name, value }));
        lemma_replace_lookup(s.drop_last(), i, value);
        assert(t.last() == s.last());
        assert forall|n: Seq<char>| n != s[i].name@ implies scope_lookup(t, n) == scope_lookup(s, n) by {
            if s.last().name@ != n {
                assert(scope_lookup(t.drop_last(), n) == scope_lookup(s.drop_last(), n));
            }
        }
    } else {
        assert(t.drop_last() =~= s.drop_last());
        assert forall|n: Seq<char>| n != s[i].name@ implies scope_lookup(t, n) == scope_lookup(s, n) by {
            assert(t.last().name@ != n);
            assert(s.last().name@ != n);
        }
    }
}

/// When scope `j` binds `name` and no later scope does, `name` looks up to scope `j`'s
/// binding.
proof fn lemma_env_top(sv: Seq<Seq<Binding>>, j: int, name: Seq<char>)
    requires
        0 <= j < sv.len(),
        scope_lookup(sv[j], name) is Some,
        forall|idx: int| j < idx < sv.len() ==> scope_lookup(#[trigger] sv[idx], name) is None,
    ensures
        env_lookup(sv, name) == scope_lookup(sv[j], name),
    decreases sv.len(),
{
    if j < sv.len() - 1 {
        assert(scope_lookup(sv[sv.len() - 1], name) is None);
        let d = sv.drop_last();
        assert forall|idx: int| j < idx < d.len() implies scope_lookup(#[trigger] d[idx], name) is None by {
            assert(d[idx] == sv[idx]);
        }
        lemma_env_top(d, j, name);
    }
}

/// When no scope binds `name`, it looks up to nothing.
proof fn lemma_env_none(sv: Seq<Seq<Binding>>, name: Seq<char>)
    requires
        forall|idx: int| 0 <= idx < sv.len() ==> scope_lookup(#[trigger] sv[idx], name) is None,
    ensures
        env_lookup(sv, name) is None,
    decreases sv.len(),
{
    if sv.len() > 0 {
        assert(scope_lookup(sv[sv.len() - 1], name) is None);
        let d = sv.drop_last();
        assert forall|idx: int| 0 <= idx < d.len() implies scope_lookup(#[trigger] d[idx], name) is None by {
            assert(d[idx] == sv[idx]);
        }
        lemma_env_none(d, name);
    }
}

/// Scopes that agree on `n` one by one agree on what `n` looks up to.
proof fn lemma_env_pointwise(sv: Seq<Seq<Binding>>, tv: Seq<Seq<Binding>>, n: Seq<char>)
    requires
        sv.len() == tv.len(),
        forall|idx: int| 0 <= idx < sv.len() ==> scope_lookup(#[trigger] sv[idx], n) == scope_lookup(tv[idx], n),
    ensures
        env_lookup(sv, n) == env_lookup(tv, n),
    decreases sv.len(),
{
    if sv.len() > 0 {
        assert(scope_lookup(sv[sv.len() - 1], n) == scope_lookup(tv[tv.len() - 1], n));
        let d = sv.drop_last();
        let e = tv.drop_last();
        assert forall|idx: int| 0 <= idx < d.len() implies scope_lookup(#[trigger] d[idx], n) == scope_lookup(e[idx], n) by {
            assert(d[idx] == sv[idx]);
            assert(e[idx] == tv[idx]);
            assert(scope_lookup(sv[idx], n) == scope_lookup(tv[idx], n));
        }
        lemma_env_pointwise(d, e, n);
    }
}

/// `"Variable '" + name + suffix` as a string.
fn variable_message(name: &str, suffix: &str) -> (s: String)
    ensures
        s@ == variable_msg(name@, suffix@),
{
    let mut s = String::from_str("Variable '");
    s.append(name);
    s.append(suffix);
    s
}


/// Declaring a name that the innermost scope does not bind makes it visible with its value,
/// and leaves every other name as it was.
pub proof fn law_declare_then_lookup(sv: Seq<Seq<Binding>>, name: String, value: RuntimeValue, other: Seq<char>)
    requires
        sv.len() > 0,
        scope_lookup(sv.last(), name@) is None,
    ensures
        env_lookup(sv.update(sv.len() - 1, sv.last().push(Binding { name, value })), name@) == Some(value),
        other != name@ ==> env_lookup(sv.update(sv.len() - 1, sv.last().push(Binding { name, value })), other)
            == env_lookup(sv, other),
{
    let nv = sv.update(sv.len() - 1, sv.last().push(Binding { name, value }));
    assert(nv.last().drop_last() =~= sv.last());
    assert(nv.drop_last() =~= sv.drop_last());
}

/// A binding of an inner scope hides the bindings of the same name in the scopes around it.
pub proof fn law_inner_scope_shadows(sv: Seq<Seq<Binding>>, scope: Seq<Binding>, name: Seq<char>)
    requires
        scope_lookup(scope, name) is Some,
    ensures
        env_lookup(sv.push(scope), name) == scope_lookup(scope, name),
{
    assert(sv.push(scope).last() == scope);
}

/// Closing a scope forgets what was declared in it: every name is then looked up as before the
/// scope was opened.
pub proof fn law_closed_scope_forgotten(sv: Seq<Seq<Binding>>, scope: Seq<Binding>, name: Seq<char>)
    ensures
        env_lookup(sv.push(scope).drop_last(), name) == env_lookup(sv, name),
{
    assert(sv.push(scope).drop_last() =~= sv);
}

/// `nv` is `sv` with the value of the binding of `name` at position `i` of scope `j` replaced
/// by `value`, where scope `j` is the innermost scope binding `name` and `i` its last binding
/// of that name: every other binding, shadowed ones included, is unchanged.
pub open spec fn assigned_at(sv: Seq<Seq<Binding>>, nv: Seq<Seq<Binding>>, name: Seq<char>, value: RuntimeValue, j: int, i: int) -> bool {
    &&& 0 <= j < sv.len()
    &&& 0 <= i < sv[j].len()
    &&& sv[j][i].name@ == name
    &&& forall|idx: int| j < idx < sv.len() ==> scope_lookup(#[trigger] sv[idx], name) is None
    &&& forall|k: int| i < k < sv[j].len() ==> (#[trigger] sv[j][k]).name@ != name
    &&& nv == sv.update(j, sv[j].update(i, Binding { name: sv[j][i].name, value }))
}

/// Opening a scope, declaring names in it and closing it again gives back every lookup as it
/// was: the declarations change only the innermost scope, which closing removes. `inner` is
/// the scope list after the push and the declarations, each of which keeps the scopes around
/// the innermost one.
pub proof fn law_push_declare_pop(before: Seq<Seq<Binding>>, inner: Seq<Seq<Binding>>, name: Seq<char>)
    requires
        before.len() > 0,
        inner.len() == before.len() + 1,
        inner.drop_last() == before,
    ensures
        inner.len() > 1,
        env_lookup(inner.drop_last(), name) == env_lookup(before, name),
{
}

/// A declaration changes only the innermost scope.
pub proof fn law_declare_keeps_outer_scopes(sv: Seq<Seq<Binding>>, b: Binding)
    requires
        sv.len() > 0,
    ensures
        sv.update(sv.len() - 1, sv.last().push(b)).drop_last() == sv.drop_last(),
        sv.update(sv.len() - 1, sv.last().push(b)).len() == sv.len(),
{
    assert(sv.update(sv.len() - 1, sv.last().push(b)).drop_last() =~= sv.drop_last());
}

} // verus!
