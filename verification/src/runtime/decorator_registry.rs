//! The decorators a program may use, and the check of where each may stand.
use vstd::prelude::*;
use crate::ast::{DecoratorDecl, Expr};
use crate::error::RaccoonError;
use crate::text::str_eq;
use crate::tokens::Position;

verus! {

/// Who may use a decorator.
#[derive(Debug, Clone, Copy, PartialEq, Eq, Structural)]
pub enum DecoratorVisibility {
    Internal,
    Public,
}

/// What a decorator may be applied to.
#[derive(Debug, Clone, Copy, PartialEq, Eq, Structural)]
pub enum DecoratorTarget {
    Function,
    AsyncFunction,
    Class,
    ClassMethod,
    ClassProperty,
}

/// The name of a target as it reads in messages.
pub open spec fn target_name(t: DecoratorTarget) -> Seq<char> {
    match t {
        DecoratorTarget::Function => "Function"@,
        DecoratorTarget::AsyncFunction => "AsyncFunction"@,
        DecoratorTarget::Class => "Class"@,
        DecoratorTarget::ClassMethod => "ClassMethod"@,
        DecoratorTarget::ClassProperty => "ClassProperty"@,
    }
}

fn target_text(t: DecoratorTarget) -> (s: &'static str)
    ensures
        s@ == target_name(t),
{
    match t {
        DecoratorTarget::Function => "Function",
        DecoratorTarget::AsyncFunction => "AsyncFunction",
        DecoratorTarget::Class => "Class",
        DecoratorTarget::ClassMethod => "ClassMethod",
        DecoratorTarget::ClassProperty => "ClassProperty",
    }
}

/// A decorator: its name, visibility, description and allowed targets.
#[derive(Debug)]
pub struct DecoratorSpec {
    pub name: String,
    pub visibility: DecoratorVisibility,
    pub description: String,
    pub allowed_on: Vec<DecoratorTarget>,
}

impl DecoratorSpec {
    /// A copy of the specification.
    pub fn copy(&self) -> (r: DecoratorSpec)
        ensures
            r.name == self.name,
            r.visibility == self.visibility,
            r.description == self.description,
            r.allowed_on@ == self.allowed_on@,
    {
        let mut allowed_on: Vec<DecoratorTarget> = Vec::new();
        let mut i: usize = 0;
        while i < self.allowed_on.len()
            invariant
                i <= self.allowed_on@.len(),
                allowed_on@ == self.allowed_on@.subrange(0, i as int),
            decreases self.allowed_on@.len() - i,
        {
            allowed_on.push(self.allowed_on[i]);
            assert(self.allowed_on@.subrange(0, i + 1) =~= self.allowed_on@.subrange(0, i as int).push(self.allowed_on@[i as int]));
            i = i + 1;
        }
        assert(self.allowed_on@.subrange(0, self.allowed_on@.len() as int) =~= self.allowed_on@);
        DecoratorSpec {
            name: self.name.clone(),
            visibility: self.visibility,
            description: self.description.clone(),
            allowed_on,
        }
    }
}

/// The specification registered under `name`.
pub open spec fn dec_lookup(s: Seq<DecoratorSpec>, name: Seq<char>) -> Option<DecoratorSpec>
    decreases s.len(),
{
    if s.len() == 0 {
        None
    } else if s.last().name@ == name {
        Some(s.last())
    } else {
        dec_lookup(s.drop_last(), name)
    }
}

pub open spec fn unique_specs(s: Seq<DecoratorSpec>) -> bool {
    forall|i: int, j: int| 0 <= i < j < s.len() ==> (#[trigger] s[i]).name@ != (#[trigger] s[j]).name@
}

/// The targets of the built-in decorators.
pub open spec fn builtin_targets(name: Seq<char>) -> Option<Seq<DecoratorTarget>> {
    let f = DecoratorTarget::Function;
    let a = DecoratorTarget::AsyncFunction;
    if name == "cache"@ || name == "pure"@ || name == "inline"@ || name == "measureTime"@ || name == "memoize"@
        || name == "throttle"@ || name == "debounce"@ || name == "retry"@ || name == "log"@ {
        Some(seq![f, a])
    } else if name == "deprecated"@ {
        Some(seq![f, a, DecoratorTarget::Class])
    } else if name == "readonly"@ {
        Some(seq![DecoratorTarget::ClassProperty])
    } else if name == "override"@ {
        Some(seq![DecoratorTarget::ClassMethod])
    } else if name == "sealed"@ {
        Some(seq![DecoratorTarget::Class])
    } else if name == "abstract"@ {
        Some(seq![DecoratorTarget::Class, DecoratorTarget::ClassMethod])
    } else {
        None
    }
}

/// The decorators known by name.
pub struct DecoratorRegistry {
    decorators: Vec<DecoratorSpec>,
}

/// The targets a decorator used under `name` may have: its registered targets, or for an
/// unknown name those of a user-defined decorator.
pub open spec fn effective_targets(reg: Seq<DecoratorSpec>, name: Seq<char>) -> Seq<DecoratorTarget> {
    match dec_lookup(reg, name) {
        Some(s) => s.allowed_on@,
        None => seq![DecoratorTarget::Function, DecoratorTarget::Class, DecoratorTarget::ClassMethod],
    }
}

pub open spec fn effective_visibility(reg: Seq<DecoratorSpec>, name: Seq<char>) -> DecoratorVisibility {
    match dec_lookup(reg, name) {
        Some(s) => s.visibility,
        None => DecoratorVisibility::Public,
    }
}

/// The first decorator that may not stand on `target` (by index), and whether it failed
/// because it is internal.
pub open spec fn first_invalid(reg: Seq<DecoratorSpec>, decls: Seq<DecoratorDecl>, target: DecoratorTarget, in_stdlib: bool) -> Option<(int, bool)>
    decreases decls.len(),
{
    if decls.len() == 0 {
        None
    } else {
        match first_invalid(reg, decls.drop_last(), target, in_stdlib) {
            Some(r) => Some(r),
            None => {
                let name = decls.last().name@;
                if effective_visibility(reg, name) == DecoratorVisibility::Internal && !in_stdlib {
                    Some((decls.len() - 1, true))
                } else if !effective_targets(reg, name).contains(target) {
                    Some((decls.len() - 1, false))
                } else {
                    None
                }
            },
        }
    }
}

/// A literal argument of a decorator, as the decorator checks read it.
#[derive(Debug)]
pub enum DecoratorArg {
    Str(String),
    Int(i64),
    Bool(bool),
    Other,
}

/// What a use of a decorator gives: its name, literal arguments and position.
#[derive(Debug)]
pub struct DecoratorUse {
    pub name: String,
    pub args: Vec<DecoratorArg>,
    pub position: Position,
}

/// The argument a decorator expression gives.
pub open spec fn arg_of(e: Expr) -> DecoratorArg {
    match e {
        Expr::StrLiteral { value, .. } => DecoratorArg::Str(value),
        Expr::IntLiteral { value, .. } => DecoratorArg::Int(value),
        Expr::BoolLiteral { value, .. } => DecoratorArg::Bool(value),
        _ => DecoratorArg::Other,
    }
}

/// A validated decorator: its specification and its use.
#[derive(Debug)]
pub struct DecoratorInfo {
    pub spec: DecoratorSpec,
    pub decl: DecoratorUse,
}

fn find_spec(s: &Vec<DecoratorSpec>, name: &str) -> (r: Option<usize>)
    ensures
        match r {
            Some(i) => i < s@.len() && s@[i as int].name@ == name@,
            None => forall|i: int| 0 <= i < s@.len() ==> (#[trigger] s@[i]).name@ != name@,
        },
{
    let mut i: usize = 0;
    while i < s.len()
        invariant
            i <= s@.len(),
            forall|j: int| 0 <= j < i ==> (#[trigger] s@[j]).name@ != name@,
        decreases s@.len() - i,
    {
        if str_eq(s[i].name.as_str(), name) {
            return Some(i);
        }
        i = i + 1;
    }
    None
}

proof fn lemma_dec_index(s: Seq<DecoratorSpec>, i: int)
    requires
        unique_specs(s),
        0 <= i < s.len(),
    ensures
        dec_lookup(s, s[i].name@) == Some(s[i]),
    decreases s.len(),
{
    if i < s.len() - 1 {
        assert(s[s.len() - 1].name@ != s[i].name@);
        assert(s.drop_last()[i] == s[i]);
        lemma_dec_index(s.drop_last(), i);
    }
}

proof fn lemma_dec_absent(s: Seq<DecoratorSpec>, name: Seq<char>)
    requires
        forall|i: int| 0 <= i < s.len() ==> (#[trigger] s[i]).name@ != name,
    ensures
        dec_lookup(s, name) is None,
    decreases s.len(),
{
    if s.len() > 0 {
        assert(s[s.len() - 1].name@ != name);
        let d = s.drop_last();
        assert forall|i: int| 0 <= i < d.len() implies (#[trigger] d[i]).name@ != name by {
            assert(d[i] == s[i]);
        }
        lemma_dec_absent(d, name);
    }
}

proof fn lemma_dec_found(s: Seq<DecoratorSpec>, name: Seq<char>) -> (i: int)
    requires
        dec_lookup(s, name) is Some,
    ensures
        0 <= i < s.len(),
        s[i].name@ == name,
    decreases s.len(),
{
    if s.last().name@ == name {
        s.len() - 1
    } else {
        let i = lemma_dec_found(s.drop_last(), name);
        assert(s.drop_last()[i] == s[i]);
        i
    }
}

proof fn lemma_dec_lookup_name(s: Seq<DecoratorSpec>, name: Seq<char>)
    ensures
        dec_lookup(s, name) matches Some(x) ==> x.name@ == name,
    decreases s.len(),
{
    if s.len() > 0 && s.last().name@ != name {
        lemma_dec_lookup_name(s.drop_last(), name);
    }
}

fn make_spec(name: &str, description: &str, allowed_on: Vec<DecoratorTarget>) -> (s: DecoratorSpec)
    ensures
        s.name@ == name@,
        s.description@ == description@,
        s.visibility == DecoratorVisibility::Public,
        s.allowed_on@ == allowed_on@,
{
    DecoratorSpec {
        name: String::from_str(name),
        visibility: DecoratorVisibility::Public,
        description: String::from_str(description),
        allowed_on,
    }
}

fn fa() -> (v: Vec<DecoratorTarget>)
    ensures
        v@ == seq![DecoratorTarget::Function, DecoratorTarget::AsyncFunction],
{
    let mut v: Vec<DecoratorTarget> = Vec::new();
    v.push(DecoratorTarget::Function);
    v.push(DecoratorTarget::AsyncFunction);
    v
}

fn one(t: DecoratorTarget) -> (v: Vec<DecoratorTarget>)
    ensures
        v@ == seq![t],
{
    let mut v: Vec<DecoratorTarget> = Vec::new();
    v.push(t);
    v
}

impl DecoratorRegistry {
    pub closed spec fn view(&self) -> Seq<DecoratorSpec> {
        self.decorators@
    }

    pub closed spec fn wf(&self) -> bool {
        unique_specs(self.decorators@)
    }

    /// A registry of the built-in decorators, in this order: `cache`, `deprecated`, `pure`,
    /// `inline`, `readonly`, `override`, `measureTime`, `memoize`, `throttle`, `debounce`,
    /// `retry`, `log`, `sealed`, `abstract`; all public.
    pub fn new() -> (r: DecoratorRegistry)
        ensures
            r.wf(),
            r.view().len() == 14,
            forall|i: int| 0 <= i < 14 ==> (#[trigger] r.view()[i]).visibility == DecoratorVisibility::Public
                && builtin_targets(r.view()[i].name@) == Some(r.view()[i].allowed_on@),
            r.view()[0].name@ == "cache"@,
            r.view()[1].name@ == "deprecated"@,
            r.view()[2].name@ == "pure"@,
            r.view()[3].name@ == "inline"@,
            r.view()[4].name@ == "readonly"@,
            r.view()[5].name@ == "override"@,
            r.view()[6].name@ == "measureTime"@,
            r.view()[7].name@ == "memoize"@,
            r.view()[8].name@ == "throttle"@,
            r.view()[9].name@ == "debounce"@,
            r.view()[10].name@ == "retry"@,
            r.view()[11].name@ == "log"@,
            r.view()[12].name@ == "sealed"@,
            r.view()[13].name@ == "abstract"@,
    {
        let mut registry = DecoratorRegistry { decorators: Vec::new() };
        registry.register_all_decorators();
        registry
    }

    fn register_all_decorators(&mut self)
        requires
            old(self).view().len() == 0,
        ensures
            final(self).wf(),
            final(self).view().len() == 14,
            forall|i: int| 0 <= i < 14 ==> (#[trigger] final(self).view()[i]).visibility == DecoratorVisibility::Public
                && builtin_targets(final(self).view()[i].name@) == Some(final(self).view()[i].allowed_on@),
            final(self).view()[0].name@ == "cache"@,
            final(self).view()[1].name@ == "deprecated"@,
            final(self).view()[2].name@ == "pure"@,
            final(self).view()[3].name@ == "inline"@,
            final(self).view()[4].name@ == "readonly"@,
            final(self).view()[5].name@ == "override"@,
            final(self).view()[6].name@ == "measureTime"@,
            final(self).view()[7].name@ == "memoize"@,
            final(self).view()[8].name@ == "throttle"@,
            final(self).view()[9].name@ == "debounce"@,
            final(self).view()[10].name@ == "retry"@,
            final(self).view()[11].name@ == "log"@,
            final(self).view()[12].name@ == "sealed"@,
            final(self).view()[13].name@ == "abstract"@,
    {
        proof {
            reveal_strlit("cache");
            reveal_strlit("deprecated");
            reveal_strlit("pure");
            reveal_strlit("inline");
            reveal_strlit("readonly");
            reveal_strlit("override");
            reveal_strlit("measureTime");
            reveal_strlit("memoize");
            reveal_strlit("throttle");
            reveal_strlit("debounce");
            reveal_strlit("retry");
            reveal_strlit("log");
            reveal_strlit("sealed");
            reveal_strlit("abstract");
        }
        self.decorators.push(make_spec("cache", "Caches function results for specified time in milliseconds", fa()));
        let mut d = fa();
        d.push(DecoratorTarget::Class);
        self.decorators.push(make_spec("deprecated", "Marks function or class as deprecated", d));
        self.decorators.push(make_spec("pure", "Marks function as pure (no side effects)", fa()));
        self.decorators.push(make_spec("inline", "Suggests to inline this function at call sites", fa()));
        self.decorators.push(make_spec("readonly", "Marks property as read-only", one(DecoratorTarget::ClassProperty)));
        self.decorators.push(make_spec("override", "Marks method as override of base class method", one(DecoratorTarget::ClassMethod)));
        self.decorators.push(make_spec("measureTime", "Measures execution time of function", fa()));
        self.decorators.push(make_spec("memoize", "Memoizes function results (alias for cache)", fa()));
        self.decorators.push(make_spec("throttle", "Throttles function calls to max N times per interval", fa()));
        self.decorators.push(make_spec("debounce", "Debounces function calls by N milliseconds", fa()));
        self.decorators.push(make_spec("retry", "Retries function on error", fa()));
        self.decorators.push(make_spec("log", "Logs function calls with arguments and return value", fa()));
        self.decorators.push(make_spec("sealed", "Marks class as sealed (cannot be extended)", one(DecoratorTarget::Class)));
        let mut ab = one(DecoratorTarget::Class);
        ab.push(DecoratorTarget::ClassMethod);
        self.decorators.push(make_spec("abstract", "Marks class or method as abstract", ab));
        proof {
            let s = self.decorators@;
            assert(unique_specs(s)) by {
                assert forall|a: int, b: int| 0 <= a < b < s.len() implies (#[trigger] s[a]).name@ != (#[trigger] s[b]).name@ by {
                    assert(s[a].name@.len() != s[b].name@.len() || s[a].name@[0] != s[b].name@[0]);
                }
            }
        }
    }

    /// Registers a decorator, replacing one of the same name.
    pub fn register_decorator(&mut self, spec: DecoratorSpec)
        requires
            old(self).wf(),
        ensures
            final(self).wf(),
            dec_lookup(final(self).view(), spec.name@) == Some(spec),
            forall|n: Seq<char>| n != spec.name@ ==> dec_lookup(final(self).view(), n) == dec_lookup(old(self).view(), n),
    {
        let ghost nm = spec.name@;
        let ghost sp = spec;
        let ghost o = self.decorators@;
        match find_spec(&self.decorators, spec.name.as_str()) {
            Some(i) => {
                self.decorators.set(i, spec);
                proof {
                    let s = self.decorators@;
                    assert(unique_specs(s)) by {
                        assert forall|a: int, b: int| 0 <= a < b < s.len() implies (#[trigger] s[a]).name@ != (#[trigger] s[b]).name@ by {
                            assert(o[a].name@ != o[b].name@);
                        }
                    }
                    lemma_dec_index(s, i as int);
                    assert forall|n: Seq<char>| n != nm implies dec_lookup(s, n) == dec_lookup(o, n) by {
                        if dec_lookup(o, n) is Some {
                            let k = lemma_dec_found(o, n);
                            assert(s[k] == o[k]);
                            lemma_dec_index(s, k);
                            lemma_dec_index(o, k);
                        } else if dec_lookup(s, n) is Some {
                            let k = lemma_dec_found(s, n);
                            assert(s[k] == o[k]);
                            lemma_dec_index(o, k);
                        }
                    }
                }
            },
            None => {
                self.decorators.push(spec);
                proof {
                    let s = self.decorators@;
                    assert(s.drop_last() =~= o);
                    assert(unique_specs(s)) by {
                        assert forall|a: int, b: int| 0 <= a < b < s.len() implies (#[trigger] s[a]).name@ != (#[trigger] s[b]).name@ by {
                            if b < o.len() {
                                assert(o[a].name@ != o[b].name@);
                            } else {
                                assert(s[a] == o[a]);
                            }
                        }
                    }
                }
            },
        }
    }

    /// The decorator registered under `name`.
    pub fn get(&self, name: &str) -> (r: Option<&DecoratorSpec>)
        requires
            self.wf(),
        ensures
            match dec_lookup(self.view(), name@) {
                Some(s) => r == Some(&s),
                None => r is None,
            },
    {
        match find_spec(&self.decorators, name) {
            Some(i) => {
                proof { lemma_dec_index(self.decorators@, i as int); }
                Some(&self.decorators[i])
            },
            None => {
                proof { lemma_dec_absent(self.decorators@, name@); }
                None
            },
        }
    }

    /// A decorator is registered under `name`.
    pub fn exists_name(&self, name: &str) -> (b: bool)
        requires
            self.wf(),
        ensures
            b == dec_lookup(self.view(), name@) is Some,
    {
        self.get(name).is_some()
    }

    /// Checks each decorator against `target`: an internal decorator outside the standard
    /// library, or one that may not stand on the target, is an error at its position; an
    /// unknown name counts as a user-defined decorator for functions, classes and methods.
    pub fn validate(&self, decorators: &[DecoratorDecl], target: DecoratorTarget, is_in_stdlib: bool, file_path: Option<&str>) -> (r: Result<Vec<DecoratorInfo>, RaccoonError>)
        requires
            self.wf(),
        ensures
            match first_invalid(self.view(), decorators@, target, is_in_stdlib) {
                None => r matches Ok(infos) && infos@.len() == decorators@.len()
                    && forall|i: int| 0 <= i < infos@.len() ==> (#[trigger] infos@[i]).spec.name@ == decorators@[i].name@
                        && infos@[i].spec.allowed_on@ == effective_targets(self.view(), decorators@[i].name@)
                        && infos@[i].spec.visibility == effective_visibility(self.view(), decorators@[i].name@)
                        && infos@[i].decl.name@ == decorators@[i].name@
                        && infos@[i].decl.position == decorators@[i].position
                        && infos@[i].decl.args@.len() == decorators@[i].args@.len()
                        && forall|j: int| 0 <= j < infos@[i].decl.args@.len() ==> #[trigger] infos@[i].decl.args@[j] == arg_of(decorators@[i].args@[j]),
                Some((k, true)) => r matches Err(e) && e.message@ == "Decorator '@"@ + decorators@[k].name@
                    + "' is internal and can only be used in standard library"@ && e.position == decorators@[k].position,
                Some((k, false)) => r matches Err(e) && e.message@ == "Decorator '@"@ + decorators@[k].name@
                    + "' cannot be applied to "@ + target_name(target) && e.position == decorators@[k].position,
            },
    {
        let mut result: Vec<DecoratorInfo> = Vec::new();
        let mut i: usize = 0;
        while i < decorators.len()
            invariant
                self.wf(),
                i <= decorators@.len(),
                first_invalid(self.view(), decorators@.subrange(0, i as int), target, is_in_stdlib) is None,
                result@.len() == i,
                forall|m: int| 0 <= m < i ==> (#[trigger] result@[m]).spec.name@ == decorators@[m].name@
                    && result@[m].spec.allowed_on@ == effective_targets(self.view(), decorators@[m].name@)
                    && result@[m].spec.visibility == effective_visibility(self.view(), decorators@[m].name@)
                    && result@[m].decl.name@ == decorators@[m].name@
                    && result@[m].decl.position == decorators@[m].position
                    && result@[m].decl.args@.len() == decorators@[m].args@.len()
                    && forall|j: int| 0 <= j < result@[m].decl.args@.len() ==> #[trigger] result@[m].decl.args@[j] == arg_of(decorators@[m].args@[j]),
            decreases decorators@.len() - i,
        {
            let decorator = &decorators[i];
            let ghost pre = decorators@.subrange(0, i as int);
            let ghost nxt = decorators@.subrange(0, i + 1);
            assert(nxt.drop_last() =~= pre);
            let spec = match self.get(decorator.name.as_str()) {
                Some(s) => s.copy(),
                None => {
                    let mut description = String::from_str("User-defined decorator: ");
                    description.append(decorator.name.as_str());
                    let mut allowed: Vec<DecoratorTarget> = Vec::new();
                    allowed.push(DecoratorTarget::Function);
                    allowed.push(DecoratorTarget::Class);
                    allowed.push(DecoratorTarget::ClassMethod);
                    DecoratorSpec { name: decorator.name.clone(), description, visibility: DecoratorVisibility::Public, allowed_on: allowed }
                },
            };
            assert(nxt.last() == decorators@[i as int]);
            proof { lemma_dec_lookup_name(self.view(), decorator.name@); }
            assert(spec.name@ == decorator.name@);
            assert(spec.allowed_on@ == effective_targets(self.view(), decorator.name@));
            assert(spec.visibility == effective_visibility(self.view(), decorator.name@));
            if spec.visibility == DecoratorVisibility::Internal && !is_in_stdlib {
                assert(first_invalid(self.view(), nxt, target, is_in_stdlib) == Some((i as int, true)));
                let mut m = String::from_str("Decorator '@");
                m.append(decorator.name.as_str());
                m.append("' is internal and can only be used in standard library");
                proof { lemma_first_invalid_prefix(self.view(), decorators@, i as int, target, is_in_stdlib); }
                return Err(RaccoonError::new(m.as_str(), decorator.position, file_string(file_path)));
            }
            if !targets_contain(&spec.allowed_on, target) {
                assert(first_invalid(self.view(), nxt, target, is_in_stdlib) == Some((i as int, false)));
                let mut m = String::from_str("Decorator '@");
                m.append(decorator.name.as_str());
                m.append("' cannot be applied to ");
                m.append(target_text(target));
                proof { lemma_first_invalid_prefix(self.view(), decorators@, i as int, target, is_in_stdlib); }
                return Err(RaccoonError::new(m.as_str(), decorator.position, file_string(file_path)));
            }
            assert(first_invalid(self.view(), nxt, target, is_in_stdlib) is None);
            let decl = DecoratorUse { name: decorator.name.clone(), args: literal_args(&decorator.args), position: decorator.position };
            let ghost before = result@;
            result.push(DecoratorInfo { spec, decl });
            assert(forall|m: int| 0 <= m < i ==> result@[m] == before[m]);
            i = i + 1;
        }
        assert(decorators@.subrange(0, decorators@.len() as int) =~= decorators@);
        Ok(result)
    }
}

/// Once the first `i + 1` decorators hold an invalid one and the first `i` do not, the
/// whole list's first invalid decorator is the one at `i`.
proof fn lemma_first_invalid_prefix(reg: Seq<DecoratorSpec>, decls: Seq<DecoratorDecl>, i: int, target: DecoratorTarget, stdlib: bool)
    requires
        0 <= i < decls.len(),
        first_invalid(reg, decls.subrange(0, i), target, stdlib) is None,
    ensures
        first_invalid(reg, decls.subrange(0, i + 1), target, stdlib) is Some ==> first_invalid(reg, decls, target, stdlib)
            == first_invalid(reg, decls.subrange(0, i + 1), target, stdlib),
    decreases decls.len() - i,
{
    assert(decls.subrange(0, i + 1).drop_last() =~= decls.subrange(0, i));
    if i + 1 < decls.len() {
        lemma_first_invalid_extend(reg, decls, i + 1, target, stdlib);
    } else {
        assert(decls.subrange(0, i + 1) =~= decls);
    }
}

/// A prefix with an invalid decorator fixes the first invalid one of every longer prefix.
proof fn lemma_first_invalid_extend(reg: Seq<DecoratorSpec>, decls: Seq<DecoratorDecl>, k: int, target: DecoratorTarget, stdlib: bool)
    requires
        0 < k <= decls.len(),
    ensures
        first_invalid(reg, decls.subrange(0, k), target, stdlib) is Some ==> first_invalid(reg, decls, target, stdlib)
            == first_invalid(reg, decls.subrange(0, k), target, stdlib),
    decreases decls.len() - k,
{
    if k < decls.len() {
        assert(decls.subrange(0, k + 1).drop_last() =~= decls.subrange(0, k));
        lemma_first_invalid_extend(reg, decls, k + 1, target, stdlib);
    } else {
        assert(decls.subrange(0, k) =~= decls);
    }
}

fn targets_contain(v: &Vec<DecoratorTarget>, t: DecoratorTarget) -> (b: bool)
    ensures
        b == v@.contains(t),
{
    let mut i: usize = 0;
    while i < v.len()
        invariant
            i <= v@.len(),
            forall|j: int| 0 <= j < i ==> v@[j] != t,
        decreases v@.len() - i,
    {
        if v[i] == t {
            return true;
        }
        i = i + 1;
    }
    false
}

fn file_string(f: Option<&str>) -> (r: Option<String>)
    ensures
        match f {
            Some(s) => r matches Some(t) && t@ == s@,
            None => r is None,
        },
{
    match f {
        Some(s) => Some(String::from_str(s)),
        None => None,
    }
}

fn literal_args(args: &Vec<Expr>) -> (r: Vec<DecoratorArg>)
    ensures
        r@.len() == args@.len(),
        forall|j: int| 0 <= j < r@.len() ==> #[trigger] r@[j] == arg_of(args@[j]),
{
    let mut r: Vec<DecoratorArg> = Vec::new();
    let mut i: usize = 0;
    while i < args.len()
        invariant
            i <= args@.len(),
            r@.len() == i,
            forall|j: int| 0 <= j < i ==> #[trigger] r@[j] == arg_of(args@[j]),
        decreases args@.len() - i,
    {
        let a = match &args[i] {
            Expr::StrLiteral { value, .. } => DecoratorArg::Str(value.clone()),
            Expr::IntLiteral { value, .. } => DecoratorArg::Int(*value),
            Expr::BoolLiteral { value, .. } => DecoratorArg::Bool(*value),
            _ => DecoratorArg::Other,
        };
        r.push(a);
        i = i + 1;
    }
    r
}

impl DecoratorInfo {
    /// The string literal given as argument `index`.
    pub fn arg_as_string(&self, index: usize) -> (r: Option<String>)
        ensures
            index < self.decl.args@.len() && self.decl.args@[index as int] is Str ==> (r matches Some(s)
                && self.decl.args@[index as int] == DecoratorArg::Str(s)),
            !(index < self.decl.args@.len() && self.decl.args@[index as int] is Str) ==> r is None,
    {
        if index < self.decl.args.len() {
            if let DecoratorArg::Str(s) = &self.decl.args[index] {
                return Some(s.clone());
            }
        }
        None
    }

    /// The integer literal given as argument `index`.
    pub fn arg_as_int(&self, index: usize) -> (r: Option<i64>)
        ensures
            index < self.decl.args@.len() && self.decl.args@[index as int] is Int ==> (r matches Some(v)
                && self.decl.args@[index as int] == DecoratorArg::Int(v)),
            !(index < self.decl.args@.len() && self.decl.args@[index as int] is Int) ==> r is None,
    {
        if index < self.decl.args.len() {
            if let DecoratorArg::Int(v) = &self.decl.args[index] {
                return Some(*v);
            }
        }
        None
    }

    /// The boolean literal given as argument `index`.
    pub fn arg_as_bool(&self, index: usize) -> (r: Option<bool>)
        ensures
            index < self.decl.args@.len() && self.decl.args@[index as int] is Bool ==> (r matches Some(v)
                && self.decl.args@[index as int] == DecoratorArg::Bool(v)),
            !(index < self.decl.args@.len() && self.decl.args@[index as int] is Bool) ==> r is None,
    {
        if index < self.decl.args.len() {
            if let DecoratorArg::Bool(v) = &self.decl.args[index] {
                return Some(*v);
            }
        }
        None
    }
}


impl Default for DecoratorRegistry {
    fn default() -> (r: DecoratorRegistry)
        ensures
            r.wf(),
            r.view().len() == 14,
            forall|i: int| 0 <= i < 14 ==> (#[trigger] r.view()[i]).visibility == DecoratorVisibility::Public
                && builtin_targets(r.view()[i].name@) == Some(r.view()[i].allowed_on@),
            r.view()[0].name@ == "cache"@,
            r.view()[1].name@ == "deprecated"@,
            r.view()[2].name@ == "pure"@,
            r.view()[3].name@ == "inline"@,
            r.view()[4].name@ == "readonly"@,
            r.view()[5].name@ == "override"@,
            r.view()[6].name@ == "measureTime"@,
            r.view()[7].name@ == "memoize"@,
            r.view()[8].name@ == "throttle"@,
            r.view()[9].name@ == "debounce"@,
            r.view()[10].name@ == "retry"@,
            r.view()[11].name@ == "log"@,
            r.view()[12].name@ == "sealed"@,
            r.view()[13].name@ == "abstract"@,
    {
        DecoratorRegistry::new()
    }
}

} // verus!
