//! What decorators do at run time: result caching with an expiry, and markers.
use vstd::prelude::*;
use crate::runtime::values::{same_value, RuntimeValue};
use crate::text::str_eq;
use std::time::Instant;

verus! {

/// `std::time::Instant`, a reading of a monotonic clock.
#[verifier::external_type_specification]
#[verifier::external_body]
pub struct ExInstant(Instant);

/// `Instant::now()`: the clock's current reading. Nothing is known of the value.
#[verifier::external_body]
fn instant_now() -> (t: Instant) {
    Instant::now()
}

/// `Instant::elapsed()` in whole milliseconds, cast to `i64`. The clock decides the value,
/// so nothing is stated of it.
#[verifier::external_body]
fn elapsed_ms(t: &Instant) -> (ms: i64) {
    t.elapsed().as_millis() as i64
}

/// What decorators ask of a function.
#[derive(Debug)]
pub struct DecoratorMetadata {
    pub is_ffi: bool,
    pub namespace: Option<String>,
    pub validate: bool,
    pub cache_ttl_ms: Option<i64>,
    pub is_deprecated: Option<String>,
    pub is_pure: bool,
    pub should_inline: bool,
}

impl DecoratorMetadata {
    /// Nothing asked.
    pub fn default_metadata() -> (m: DecoratorMetadata)
        ensures
            !m.is_ffi && m.namespace is None && !m.validate && m.cache_ttl_ms is None
                && m.is_deprecated is None && !m.is_pure && !m.should_inline,
    {
        DecoratorMetadata {
            is_ffi: false,
            namespace: None,
            validate: false,
            cache_ttl_ms: None,
            is_deprecated: None,
            is_pure: false,
            should_inline: false,
        }
    }
}

/// A cached value, when it was stored, and how long it stays valid.
pub struct CacheEntry {
    pub key: String,
    pub value: RuntimeValue,
    pub created_at: Instant,
    pub ttl_ms: i64,
}

/// Cached results by key.
pub struct FunctionCache {
    entries: Vec<CacheEntry>,
}

/// The entry stored under `key`.
pub open spec fn entry_index(s: Seq<CacheEntry>, key: Seq<char>) -> Option<int> {
    if exists|i: int| 0 <= i < s.len() && (#[trigger] s[i]).key@ == key {
        Some(choose|i: int| 0 <= i < s.len() && (#[trigger] s[i]).key@ == key)
    } else {
        None
    }
}

pub open spec fn unique_keys(s: Seq<CacheEntry>) -> bool {
    forall|i: int, j: int| 0 <= i < j < s.len() ==> (#[trigger] s[i]).key@ != (#[trigger] s[j]).key@
}

/// The keys of the entries.
pub open spec fn cache_keys(s: Seq<CacheEntry>) -> Set<Seq<char>> {
    Set::new(|k: Seq<char>| exists|i: int| 0 <= i < s.len() && (#[trigger] s[i]).key@ == k)
}

/// The value stored under `key`.
pub open spec fn cached(s: Seq<CacheEntry>, key: Seq<char>) -> Option<RuntimeValue> {
    match entry_index(s, key) {
        Some(i) => Some(s[i].value),
        None => None,
    }
}

/// The entry stored under `key`.
pub open spec fn cached_entry(s: Seq<CacheEntry>, key: Seq<char>) -> Option<CacheEntry> {
    match entry_index(s, key) {
        Some(i) => Some(s[i]),
        None => None,
    }
}

/// An entry is stored under `key` and, `age` milliseconds after it was stored, has not yet
/// expired.
pub open spec fn live(s: Seq<CacheEntry>, key: Seq<char>, age: Option<i64>) -> bool {
    cached_entry(s, key) matches Some(e) && age matches Some(a) && a < e.ttl_ms
}

fn find_key(s: &Vec<CacheEntry>, key: &str) -> (r: Option<usize>)
    ensures
        match r {
            Some(i) => i < s@.len() && s@[i as int].key@ == key@,
            None => forall|i: int| 0 <= i < s@.len() ==> (#[trigger] s@[i]).key@ != key@,
        },
{
    let mut i: usize = 0;
    while i < s.len()
        invariant
            i <= s@.len(),
            forall|j: int| 0 <= j < i ==> (#[trigger] s@[j]).key@ != key@,
        decreases s@.len() - i,
    {
        if str_eq(s[i].key.as_str(), key) {
            return Some(i);
        }
        i = i + 1;
    }
    None
}

impl FunctionCache {
    pub closed spec fn view(&self) -> Seq<CacheEntry> {
        self.entries@
    }

    pub closed spec fn wf(&self) -> bool {
        unique_keys(self.entries@)
    }

    pub fn new() -> (c: FunctionCache)
        ensures
            c.wf(),
            c.view().len() == 0,
    {
        FunctionCache { entries: Vec::new() }
    }

    /// How many milliseconds ago the entry under `key` was stored, by the clock; `None` when
    /// no entry is stored under `key`. The clock decides the number.
    pub fn age_ms(&self, key: &str) -> (r: Option<i64>)
        requires
            self.wf(),
        ensures
            r is None <==> cached(self.view(), key@) is None,
    {
        match find_key(&self.entries, key) {
            Some(i) => {
                proof { lemma_entry_index(self.entries@, i as int); }
                Some(elapsed_ms(&self.entries[i].created_at))
            },
            None => {
                proof { lemma_entry_absent(self.entries@, key@); }
                None
            },
        }
    }

    /// The entry under `key`, `age_ms` milliseconds after it was stored: its value while that
    /// is less than its time to live, the cache unchanged; once expired, `None`, and the entry
    /// is removed; `None` when no entry is stored under `key`.
    pub fn resolve(&mut self, key: &str, age_ms: i64) -> (r: Option<RuntimeValue>)
        requires
            old(self).wf(),
        ensures
            final(self).wf(),
            match cached_entry(old(self).view(), key@) {
                None => r is None && final(self).view() == old(self).view(),
                Some(e) => if age_ms < e.ttl_ms {
                    (r matches Some(w) && same_value(e.value, w)) && final(self).view() == old(self).view()
                } else {
                    &&& r is None
                    &&& cache_keys(final(self).view()) == cache_keys(old(self).view()).remove(key@)
                    &&& forall|k: Seq<char>| k != key@ ==> cached(final(self).view(), k) == cached(old(self).view(), k)
                },
            },
    {
        match find_key(&self.entries, key) {
            Some(i) => {
                proof { lemma_entry_index(self.entries@, i as int); }
                if age_ms < self.entries[i].ttl_ms {
                    return Some(self.entries[i].value.copy());
                }
                let ghost o = self.entries@;
                self.entries.remove(i);
                proof { lemma_remove_entry(o, i as int); }
                None
            },
            None => {
                proof { lemma_entry_absent(self.entries@, key@); }
                None
            },
        }
    }

    /// The value cached under `key` while it has not expired. An expired entry is removed;
    /// whether it has expired is the clock's to say: the age that `age_ms` reads is handed to
    /// `resolve`.
    pub fn get(&mut self, key: &str) -> (r: Option<RuntimeValue>)
        requires
            old(self).wf(),
        ensures
            final(self).wf(),
            cached(old(self).view(), key@) is None ==> r is None && final(self).view() == old(self).view(),
            cached(old(self).view(), key@) matches Some(v) ==> (
                (r matches Some(w) && same_value(v, w) && final(self).view() == old(self).view())
                || (r is None && cache_keys(final(self).view()) == cache_keys(old(self).view()).remove(key@)
                    && forall|k: Seq<char>| k != key@ ==> cached(final(self).view(), k) == cached(old(self).view(), k))),
    {
        match self.age_ms(key) {
            Some(age) => self.resolve(key, age),
            None => None,
        }
    }

    /// Caches `value` under `key` for `ttl_ms` milliseconds from now, replacing an entry of
    /// that key.
    pub fn set(&mut self, key: String, value: RuntimeValue, ttl_ms: i64)
        requires
            old(self).wf(),
        ensures
            final(self).wf(),
            cached(final(self).view(), key@) == Some(value),
            cached_entry(final(self).view(), key@) matches Some(e) && e.ttl_ms == ttl_ms,
            forall|k: Seq<char>| k != key@ ==> cached(final(self).view(), k) == cached(old(self).view(), k),
    {
        let ghost kv = key@;
        let entry = CacheEntry { key, value, created_at: instant_now(), ttl_ms };
        let ghost o = self.entries@;
        match find_key(&self.entries, entry.key.as_str()) {
            Some(i) => {
                self.entries.set(i, entry);
                proof {
                    let s = self.entries@;
                    assert(unique_keys(s)) by {
                        assert forall|a: int, b: int| 0 <= a < b < s.len() implies (#[trigger] s[a]).key@ != (#[trigger] s[b]).key@ by {
                            assert(o[a].key@ != o[b].key@);
                        }
                    }
                    lemma_entry_index(s, i as int);
                    assert forall|k: Seq<char>| k != kv implies cached(s, k) == cached(o, k) by {
                        if exists|j: int| 0 <= j < o.len() && (#[trigger] o[j]).key@ == k {
                            let j = choose|j: int| 0 <= j < o.len() && (#[trigger] o[j]).key@ == k;
                            assert(s[j] == o[j]);
                            lemma_entry_index(o, j);
                            lemma_entry_index(s, j);
                        } else {
                            assert forall|j: int| 0 <= j < s.len() implies (#[trigger] s[j]).key@ != k by {
                                if j != i { assert(s[j] == o[j]); }
                            }
                            lemma_entry_absent(s, k);
                            lemma_entry_absent(o, k);
                        }
                    }
                }
            },
            None => {
                self.entries.push(entry);
                proof {
                    let s = self.entries@;
                    assert(unique_keys(s)) by {
                        assert forall|a: int, b: int| 0 <= a < b < s.len() implies (#[trigger] s[a]).key@ != (#[trigger] s[b]).key@ by {
                            if b < o.len() {
                                assert(o[a].key@ != o[b].key@);
                            } else {
                                assert(s[a] == o[a]);
                            }
                        }
                    }
                    lemma_entry_index(s, o.len() as int);
                    assert forall|k: Seq<char>| k != kv implies cached(s, k) == cached(o, k) by {
                        if exists|j: int| 0 <= j < o.len() && (#[trigger] o[j]).key@ == k {
                            let j = choose|j: int| 0 <= j < o.len() && (#[trigger] o[j]).key@ == k;
                            assert(s[j] == o[j]);
                            lemma_entry_index(o, j);
                            lemma_entry_index(s, j);
                        } else {
                            assert forall|j: int| 0 <= j < s.len() implies (#[trigger] s[j]).key@ != k by {
                                if j < o.len() { assert(s[j] == o[j]); }
                            }
                            lemma_entry_absent(s, k);
                            lemma_entry_absent(o, k);
                        }
                    }
                }
            },
        }
    }

    /// Removes every entry.
    pub fn clear(&mut self)
        ensures
            final(self).wf(),
            final(self).view().len() == 0,
    {
        self.entries.clear();
    }
}

proof fn lemma_entry_index(s: Seq<CacheEntry>, i: int)
    requires
        unique_keys(s),
        0 <= i < s.len(),
    ensures
        entry_index(s, s[i].key@) == Some(i),
        cached(s, s[i].key@) == Some(s[i].value),
        cached_entry(s, s[i].key@) == Some(s[i]),
{
    let j = choose|j: int| 0 <= j < s.len() && (#[trigger] s[j]).key@ == s[i].key@;
    if j != i {
        if j < i {
            assert(s[j].key@ != s[i].key@);
        } else {
            assert(s[i].key@ != s[j].key@);
        }
    }
}

proof fn lemma_entry_absent(s: Seq<CacheEntry>, key: Seq<char>)
    requires
        forall|i: int| 0 <= i < s.len() ==> (#[trigger] s[i]).key@ != key,
    ensures
        entry_index(s, key) is None,
        cached(s, key) is None,
        !cache_keys(s).contains(key),
{
}

proof fn lemma_remove_entry(o: Seq<CacheEntry>, i: int)
    requires
        unique_keys(o),
        0 <= i < o.len(),
    ensures
        unique_keys(o.remove(i)),
        cache_keys(o.remove(i)) == cache_keys(o).remove(o[i].key@),
        forall|k: Seq<char>| k != o[i].key@ ==> cached(o.remove(i), k) == cached(o, k),
{
    let s = o.remove(i);
    assert forall|a: int, b: int| 0 <= a < b < s.len() implies (#[trigger] s[a]).key@ != (#[trigger] s[b]).key@ by {
        let a2 = if a < i { a } else { a + 1 };
        let b2 = if b < i { b } else { b + 1 };
        assert(s[a] == o[a2] && s[b] == o[b2]);
        assert(o[a2].key@ != o[b2].key@);
    }
    assert(cache_keys(s) =~= cache_keys(o).remove(o[i].key@)) by {
        assert forall|k: Seq<char>| cache_keys(s).contains(k) <==> cache_keys(o).remove(o[i].key@).contains(k) by {
            if cache_keys(s).contains(k) {
                let j = choose|j: int| 0 <= j < s.len() && (#[trigger] s[j]).key@ == k;
                let j2 = if j < i { j } else { j + 1 };
                assert(s[j] == o[j2]);
                assert(o[j2].key@ != o[i].key@);
            }
            if cache_keys(o).remove(o[i].key@).contains(k) {
                let j = choose|j: int| 0 <= j < o.len() && (#[trigger] o[j]).key@ == k;
                let j2 = if j < i { j } else { j - 1 };
                assert(s[j2] == o[j]);
            }
        }
    }
    assert forall|k: Seq<char>| k != o[i].key@ implies cached(s, k) == cached(o, k) by {
        if exists|j: int| 0 <= j < o.len() && (#[trigger] o[j]).key@ == k {
            let j = choose|j: int| 0 <= j < o.len() && (#[trigger] o[j]).key@ == k;
            let j2 = if j < i { j } else { j - 1 };
            assert(s[j2] == o[j]);
            lemma_entry_index(o, j);
            lemma_entry_index(s, j2);
        } else {
            assert forall|j: int| 0 <= j < s.len() implies (#[trigger] s[j]).key@ != k by {
                let j2 = if j < i { j } else { j + 1 };
                assert(s[j] == o[j2]);
            }
            lemma_entry_absent(s, k);
            lemma_entry_absent(o, k);
        }
    }
}

/// Applies decorators that need state: a cache of results.
pub struct DecoratorApplier {
    cache: FunctionCache,
}

impl DecoratorApplier {
    pub closed spec fn cache_view(&self) -> FunctionCache {
        self.cache
    }

    pub closed spec fn wf(&self) -> bool {
        self.cache.wf()
    }

    pub fn new() -> (a: DecoratorApplier)
        ensures
            a.wf(),
            a.cache_view().view().len() == 0,
    {
        DecoratorApplier { cache: FunctionCache::new() }
    }

    /// With the entry under `cache_key` stored `age` milliseconds ago (`None`: no age known):
    /// while it is live, its value, the cache unchanged and `execute` not run; else the result
    /// of `execute`, which is then cached under `cache_key` for `ttl_ms` milliseconds, the
    /// other entries kept.
    pub fn apply_cache_aged<F: Fn() -> RuntimeValue>(
        &mut self,
        cache_key: &str,
        ttl_ms: i64,
        age: Option<i64>,
        execute: F,
    ) -> (r: RuntimeValue)
        requires
            old(self).wf(),
            execute.requires(()),
        ensures
            final(self).wf(),
            live(old(self).cache_view().view(), cache_key@, age) ==> {
                &&& cached_entry(old(self).cache_view().view(), cache_key@) matches Some(e) && same_value(e.value, r)
                &&& final(self).cache_view().view() == old(self).cache_view().view()
            },
            !live(old(self).cache_view().view(), cache_key@, age) ==> {
                &&& execute.ensures((), r)
                &&& cached_entry(final(self).cache_view().view(), cache_key@) matches Some(e) && same_value(r, e.value)
                    && e.ttl_ms == ttl_ms
                &&& forall|k: Seq<char>| k != cache_key@ ==> cached(final(self).cache_view().view(), k) == cached(
                    old(self).cache_view().view(),
                    k,
                )
            },
    {
        if let Some(a) = age {
            if let Some(cached_value) = self.cache.resolve(cache_key, a) {
                return cached_value;
            }
        }
        let result = execute();
        self.cache.set(String::from_str(cache_key), result.copy(), ttl_ms);
        result
    }

    /// The unexpired result cached under `cache_key`, or else the result of `execute`,
    /// which is then cached for `ttl_ms` milliseconds. The clock tells the entry's age.
    pub fn apply_cache<F: Fn() -> RuntimeValue>(&mut self, cache_key: &str, ttl_ms: i64, execute: F) -> (r: RuntimeValue)
        requires
            old(self).wf(),
            execute.requires(()),
        ensures
            final(self).wf(),
            (cached(old(self).cache_view().view(), cache_key@) matches Some(v) && same_value(v, r))
                || (execute.ensures((), r) && (cached(final(self).cache_view().view(), cache_key@) matches Some(w)
                    && same_value(r, w))),
    {
        let age = self.cache.age_ms(cache_key);
        self.apply_cache_aged(cache_key, ttl_ms, age, execute)
    }

    /// A hint that a function is pure; it changes nothing.
    pub fn validate_pure(_name: &str) {
    }

    /// A hint that a function may be inlined; it changes nothing.
    pub fn hint_inline(_name: &str) {
    }
}


/// The warning shown when a deprecated function is used: its name and the given message, or
/// a standard message.
pub fn deprecation_warning(name: &str, message: Option<&str>) -> (s: String)
    ensures
        s@ == "\u{26A0}\u{FE0F}  Warning: '"@ + name@ + "' is deprecated. "@ + match message {
            Some(m) => m@,
            None => "This function is deprecated"@,
        },
{
    let msg = match message {
        Some(m) => m,
        None => "This function is deprecated",
    };
    let a = crate::text::concat2("\u{26A0}\u{FE0F}  Warning: '", name);
    let a = crate::text::concat2(a.as_str(), "' is deprecated. ");
    crate::text::concat2(a.as_str(), msg)
}


impl Default for FunctionCache {
    fn default() -> (c: FunctionCache)
        ensures
            c.wf(),
            c.view().len() == 0,
    {
        FunctionCache::new()
    }
}


impl Default for DecoratorApplier {
    fn default() -> (a: DecoratorApplier)
        ensures
            a.wf(),
            a.cache_view().view().len() == 0,
    {
        DecoratorApplier::new()
    }
}

} // verus!
