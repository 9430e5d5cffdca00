//! Small string helpers used throughout the crate.
use vstd::prelude::*;

verus! {

/// Appends one character to a string (`String::push`).
#[verifier::external_body]
pub fn push_char(s: &mut String, c: char)
    ensures
        final(s)@ == old(s)@.push(c),
{
    s.push(c);
}

/// Equality of two string slices, by their characters.
pub fn str_eq(a: &str, b: &str) -> (r: bool)
    ensures
        r == (a@ == b@),
{
    let sa = String::from_str(a);
    let sb = String::from_str(b);
    sa == sb
}

/// Copies an optional string.
pub fn copy_opt_string(s: &Option<String>) -> (r: Option<String>)
    ensures
        crate::error::opt_str_view(r) == crate::error::opt_str_view(*s),
{
    match s {
        Some(x) => Some(x.clone()),
        None => None,
    }
}

/// The decimal digit character for `d < 10`.
pub open spec fn digit_char(d: int) -> char {
    if d == 0 { '0' } else if d == 1 { '1' } else if d == 2 { '2' } else if d == 3 { '3' }
    else if d == 4 { '4' } else if d == 5 { '5' } else if d == 6 { '6' } else if d == 7 { '7' }
    else if d == 8 { '8' } else { '9' }
}

/// The decimal representation of a natural number, without leading zeros.
pub open spec fn dec_str(n: nat) -> Seq<char>
    decreases n,
{
    if n < 10 {
        seq![digit_char(n as int)]
    } else {
        dec_str(n / 10).push(digit_char((n % 10) as int))
    }
}

fn digit_to_char(d: usize) -> (c: char)
    requires
        d < 10,
    ensures
        c == digit_char(d as int),
{
    if d == 0 { '0' } else if d == 1 { '1' } else if d == 2 { '2' } else if d == 3 { '3' }
    else if d == 4 { '4' } else if d == 5 { '5' } else if d == 6 { '6' } else if d == 7 { '7' }
    else if d == 8 { '8' } else { '9' }
}

/// Decimal formatting of a `usize`.
pub fn usize_to_string(n: usize) -> (s: String)
    ensures
        s@ == dec_str(n as nat),
    decreases n,
{
    if n < 10 {
        let mut s = String::new();
        push_char(&mut s, digit_to_char(n));
        s
    } else {
        let mut s = usize_to_string(n / 10);
        push_char(&mut s, digit_to_char(n % 10));
        s
    }
}

/// Concatenation of two strings into a new string.
pub fn concat2(a: &str, b: &str) -> (s: String)
    ensures
        s@ == a@ + b@,
{
    let mut s = String::from_str(a);
    s.append(b);
    s
}

/// Collects the characters of a string (`str::chars`).
#[verifier::external_body]
pub fn chars_of(s: &str) -> (v: Vec<char>)
    ensures
        v@ == s@,
{
    s.chars().collect()
}

} // verus!

verus! {

/// `a` comes strictly before `b` in lexicographic order of characters (the order of
/// `String`'s `Ord`).
pub open spec fn seq_lt(a: Seq<char>, b: Seq<char>) -> bool
    decreases a.len(),
{
    if b.len() == 0 {
        false
    } else if a.len() == 0 {
        true
    } else if a[0] != b[0] {
        a[0] < b[0]
    } else {
        seq_lt(a.drop_first(), b.drop_first())
    }
}

pub open spec fn seq_le(a: Seq<char>, b: Seq<char>) -> bool {
    a == b || seq_lt(a, b)
}

/// Whether `a` comes strictly before `b`.
pub fn str_lt(a: &str, b: &str) -> (r: bool)
    ensures
        r == seq_lt(a@, b@),
{
    let x = chars_of(a);
    let y = chars_of(b);
    let mut i: usize = 0;
    assert(a@.skip(0) =~= a@);
    assert(b@.skip(0) =~= b@);
    while i < x.len() && i < y.len() && x[i] == y[i]
        invariant
            i <= x@.len(),
            i <= y@.len(),
            x@ == a@,
            y@ == b@,
            seq_lt(a@, b@) == seq_lt(a@.skip(i as int), b@.skip(i as int)),
        decreases x@.len() - i,
    {
        proof {
            assert(a@.skip(i as int).drop_first() =~= a@.skip(i + 1));
            assert(b@.skip(i as int).drop_first() =~= b@.skip(i + 1));
        }
        i = i + 1;
    }
    if i == y.len() {
        false
    } else if i == x.len() {
        true
    } else {
        x[i] < y[i]
    }
}

proof fn lemma_lt_total(a: Seq<char>, b: Seq<char>)
    ensures
        a == b || seq_lt(a, b) || seq_lt(b, a),
    decreases a.len(),
{
    if a.len() > 0 && b.len() > 0 && a[0] == b[0] {
        lemma_lt_total(a.drop_first(), b.drop_first());
        if a.drop_first() == b.drop_first() {
            assert forall|i: int| 0 <= i < a.len() implies a[i] == b[i] by {
                if i > 0 {
                    assert(a[i] == a.drop_first()[i - 1]);
                    assert(b[i] == b.drop_first()[i - 1]);
                }
            }
            assert(a =~= b);
        }
    } else if a.len() == 0 && b.len() == 0 {
        assert(a =~= b);
    }
}

proof fn lemma_lt_trans(a: Seq<char>, b: Seq<char>, c: Seq<char>)
    requires
        seq_lt(a, b),
        seq_lt(b, c),
    ensures
        seq_lt(a, c),
    decreases a.len(),
{
    if a.len() > 0 && b.len() > 0 && c.len() > 0 && a[0] == b[0] && b[0] == c[0] {
        lemma_lt_trans(a.drop_first(), b.drop_first(), c.drop_first());
    }
}

proof fn lemma_insert_multiset(s: Seq<Seq<char>>, k: int, x: Seq<char>)
    requires
        0 <= k <= s.len(),
    ensures
        s.insert(k, x).to_multiset() == s.to_multiset().add(seq![x].to_multiset()),
{
    let a = s.subrange(0, k);
    let b = s.subrange(k, s.len() as int);
    assert(s =~= a + b);
    assert(s.insert(k, x) =~= a + (seq![x] + b));
    vstd::seq_lib::lemma_multiset_commutative(a, seq![x] + b);
    vstd::seq_lib::lemma_multiset_commutative(seq![x], b);
    vstd::seq_lib::lemma_multiset_commutative(a, b);
    broadcast use vstd::multiset::group_multiset_axioms;
    assert(s.insert(k, x).to_multiset() =~= s.to_multiset().add(seq![x].to_multiset()));
}

/// The views of a list of strings.
pub open spec fn views(v: Seq<String>) -> Seq<Seq<char>> {
    v.map_values(|s: String| s@)
}

/// Sorted in increasing order, repetitions allowed.
pub open spec fn sorted_views(v: Seq<Seq<char>>) -> bool {
    forall|i: int, j: int| 0 <= i < j < v.len() ==> seq_le(#[trigger] v[i], #[trigger] v[j])
}

/// Sorted in strictly increasing order: no repetitions.
pub open spec fn strictly_sorted_views(v: Seq<Seq<char>>) -> bool {
    forall|i: int, j: int| 0 <= i < j < v.len() ==> seq_lt(#[trigger] v[i], #[trigger] v[j])
}

/// A sorted sequence with the elements of a sequence without repetitions is strictly sorted.
pub proof fn lemma_sorted_distinct(a: Seq<Seq<char>>, b: Seq<Seq<char>>)
    requires
        sorted_views(a),
        a.to_multiset() == b.to_multiset(),
        b.no_duplicates(),
    ensures
        strictly_sorted_views(a),
        a.no_duplicates(),
{
    b.lemma_multiset_has_no_duplicates();
    a.lemma_multiset_has_no_duplicates_conv();
    assert forall|i: int, j: int| 0 <= i < j < a.len() implies seq_lt(#[trigger] a[i], #[trigger] a[j]) by {
        assert(a[i] != a[j]);
    }
}

/// The strings in increasing order (`sort` on `Vec<String>`).
pub fn sort_strings(v: Vec<String>) -> (r: Vec<String>)
    ensures
        sorted_views(views(r@)),
        views(r@).to_multiset() == views(v@).to_multiset(),
        r@.len() == v@.len(),
{
    broadcast use vstd::multiset::group_multiset_axioms;
    broadcast use vstd::seq_lib::group_to_multiset_ensures;
    let mut r: Vec<String> = Vec::new();
    let mut src = v;
    let ghost orig = views(src@);
    assert(views(r@) =~= Seq::<Seq<char>>::empty());
    assert(views(r@).to_multiset() =~= vstd::multiset::Multiset::<Seq<char>>::empty());
    assert(views(r@).to_multiset().add(views(src@).to_multiset()) =~= orig.to_multiset());
    while src.len() > 0
        invariant
            sorted_views(views(r@)),
            views(r@).to_multiset().add(views(src@).to_multiset()) == orig.to_multiset(),
            r@.len() + src@.len() == orig.len(),
        decreases src@.len(),
    {
        let ghost src_before = src@;
        let x = src.pop().unwrap();
        proof {
            assert(src_before =~= src@.push(x));
            assert(views(src_before) =~= views(src@).push(x@));
            vstd::seq_lib::lemma_multiset_commutative(views(src@), seq![x@]);
            assert(views(src@).push(x@) =~= views(src@) + seq![x@]);
        }
        let mut k: usize = 0;
        while k < r.len() && !str_lt(x.as_str(), r[k].as_str())
            invariant
                k <= r@.len(),
                forall|m: int| 0 <= m < k ==> seq_le(#[trigger] views(r@)[m], x@),
            decreases r@.len() - k,
        {
            proof {
                lemma_lt_total(x@, r@[k as int]@);
                assert(views(r@)[k as int] == r@[k as int]@);
            }
            k = k + 1;
        }
        let ghost before = views(r@);
        r.insert(k, x);
        proof {
            let after = views(r@);
            assert(after =~= before.insert(k as int, x@));
            assert forall|i: int, j: int| 0 <= i < j < after.len() implies seq_le(#[trigger] after[i], #[trigger] after[j]) by {
                if j < k {
                    assert(after[i] == before[i] && after[j] == before[j]);
                } else if j == k {
                    assert(after[i] == before[i]);
                } else if i < k {
                    assert(after[i] == before[i] && after[j] == before[j - 1]);
                    if k < before.len() {
                        assert(seq_lt(x@, r@[(k + 1) as int]@) || true);
                    }
                    assert(seq_le(before[i], before[j - 1]));
                } else if i == k {
                    assert(after[j] == before[j - 1]);
                    assert(seq_le(before[k as int], before[j - 1]));
                    assert(seq_lt(x@, before[k as int]));
                    if seq_lt(before[k as int], before[j - 1]) {
                        lemma_lt_trans(x@, before[k as int], before[j - 1]);
                    }
                } else {
                    assert(after[i] == before[i - 1] && after[j] == before[j - 1]);
                }
            }
            lemma_insert_multiset(before, k as int, x@);
        }
    }
    assert(views(src@) =~= Seq::<Seq<char>>::empty());
    assert(views(src@).to_multiset() =~= vstd::multiset::Multiset::<Seq<char>>::empty());
    assert(views(r@).to_multiset() =~= views(r@).to_multiset().add(views(src@).to_multiset()));
    r
}

/// Decimal formatting of a `u64`.
pub fn u64_to_string(n: u64) -> (s: String)
    ensures
        s@ == dec_str(n as nat),
    decreases n,
{
    if n < 10 {
        let mut s = String::new();
        push_char(&mut s, digit_to_char(n as usize));
        s
    } else {
        let mut s = u64_to_string(n / 10);
        push_char(&mut s, digit_to_char((n % 10) as usize));
        s
    }
}

/// The decimal representation of an integer, with a leading `-` when negative.
pub open spec fn int_text(i: int) -> Seq<char> {
    if i < 0 {
        seq!['-'] + dec_str((-i) as nat)
    } else {
        dec_str(i as nat)
    }
}

/// Decimal formatting of an `i64`.
pub fn i64_to_string(i: i64) -> (s: String)
    ensures
        s@ == int_text(i as int),
{
    if i < 0 {
        let m: u64 = if i == i64::MIN { 9223372036854775808u64 } else { (-i) as u64 };
        let mut s = String::new();
        push_char(&mut s, '-');
        let d = u64_to_string(m);
        s.append(d.as_str());
        s
    } else {
        u64_to_string(i as u64)
    }
}

} // verus!
