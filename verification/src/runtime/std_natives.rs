//! The pure functions of the `string` and `array` modules and of the `core_` string
//! primitives, on the values that a call hands them.
use vstd::prelude::*;
use crate::ast::{same_type, PrimitiveKind, Type};
use crate::runtime::values::{same_value, ListValue, RuntimeValue};
use crate::text::{chars_of, push_char};
use crate::lexer::is_unicode_whitespace;
use crate::runtime::builtins::{text_of, value_text};
use vstd::utf8::{decode_utf8, encode_utf8, is_char_boundary};

verus! {

/// The text of the string argument at `i`: empty for a missing argument or one that is not
/// a string.
pub open spec fn str_arg(args: Seq<RuntimeValue>, i: int) -> Seq<char> {
    if 0 <= i < args.len() {
        match args[i] {
            RuntimeValue::Str(s) => s@,
            _ => Seq::empty(),
        }
    } else {
        Seq::empty()
    }
}

/// The number that the integer argument at `i` reads as: an integer as it is, a boolean as
/// 0 or 1, `d` for a missing argument or one of another kind.
pub open spec fn int_arg(args: Seq<RuntimeValue>, i: int, d: int) -> int {
    if 0 <= i < args.len() {
        match args[i] {
            RuntimeValue::Int(n) => n as int,
            RuntimeValue::Bool(b) => if b { 1 } else { 0 },
            _ => d,
        }
    } else {
        d
    }
}

/// An index read as an unsigned machine index: a negative one lies past every end.
pub open spec fn index_of_int(k: int, len: int) -> int {
    if k < 0 || k > len { len } else { k }
}

/// `a` and `b` hold the same values, in order.
pub open spec fn values_match(a: Seq<RuntimeValue>, b: Seq<RuntimeValue>) -> bool {
    a.len() == b.len() && forall|i: int| 0 <= i < a.len() ==> same_value(#[trigger] a[i], b[i])
}

/// The character at `k` as a one-character text, or empty where there is none.
pub open spec fn char_at_text(s: Seq<char>, k: int) -> Seq<char> {
    if 0 <= k < s.len() { seq![s[k]] } else { Seq::empty() }
}

/// `t` occurs in `s` starting at `i`.
pub open spec fn occurs_at(s: Seq<char>, t: Seq<char>, i: int) -> bool {
    0 <= i && i + t.len() <= s.len() && s.subrange(i, i + t.len()) == t
}

/// `t` occurs somewhere in `s`.
pub open spec fn text_contains(s: Seq<char>, t: Seq<char>) -> bool {
    exists|i: int| occurs_at(s, t, i)
}

/// The characters `start..end` of `s`, counted in characters and clipped to its end.
pub open spec fn char_slice(s: Seq<char>, start: int, end: int) -> Seq<char> {
    let a = if start < 0 { 0 } else if start > s.len() { s.len() as int } else { start };
    let b = if end < a { a } else if end > s.len() { s.len() as int } else { end };
    s.subrange(a, b)
}

/// What `str::to_uppercase` gives for a text.
pub uninterp spec fn upper_text(s: Seq<char>) -> Seq<char>;

/// What `str::to_lowercase` gives for a text.
pub uninterp spec fn lower_text(s: Seq<char>) -> Seq<char>;

/// The index of the first character from `i` on that is not white space.
pub open spec fn lead_end(s: Seq<char>, i: int) -> int
    decreases s.len() - i,
{
    if 0 <= i < s.len() && is_unicode_whitespace(s[i]) { lead_end(s, i + 1) } else { i }
}

/// The index just past the last character before `j` that is not white space.
pub open spec fn trail_start(s: Seq<char>, j: int) -> int
    decreases j,
{
    if 0 < j <= s.len() && is_unicode_whitespace(s[j - 1]) { trail_start(s, j - 1) } else { j }
}

/// What `str::trim` leaves of a text: the text without its leading and trailing white space,
/// white space being what `char::is_whitespace` (Unicode `White_Space`) counts.
pub open spec fn trimmed_text(s: Seq<char>) -> Seq<char> {
    let a = lead_end(s, 0);
    if a >= s.len() { Seq::empty() } else { s.subrange(a, trail_start(s, s.len() as int)) }
}

/// `str::to_uppercase`: the text in upper case, a function of the text alone.
#[verifier::external_body]
fn to_upper(s: &str) -> (r: String)
    ensures
        r@ == upper_text(s@),
{
    s.to_uppercase()
}

/// `str::to_lowercase`: the text in lower case, a function of the text alone.
#[verifier::external_body]
fn to_lower(s: &str) -> (r: String)
    ensures
        r@ == lower_text(s@),
{
    s.to_lowercase()
}

fn is_space(c: char) -> (b: bool)
    ensures
        b == is_unicode_whitespace(c),
{
    c == '\t' || c == '\n' || c == '\u{0B}' || c == '\u{0C}' || c == '\r' || c == ' '
        || c == '\u{85}' || c == '\u{A0}' || c == '\u{1680}' || ('\u{2000}' <= c && c
        <= '\u{200A}') || c == '\u{2028}' || c == '\u{2029}' || c == '\u{202F}' || c
        == '\u{205F}' || c == '\u{3000}'
}

proof fn lemma_lead_end(s: Seq<char>, i: int)
    requires
        0 <= i <= s.len(),
    ensures
        i <= lead_end(s, i) <= s.len(),
        lead_end(s, i) < s.len() ==> !is_unicode_whitespace(s[lead_end(s, i)]),
    decreases s.len() - i,
{
    if i < s.len() && is_unicode_whitespace(s[i]) {
        lemma_lead_end(s, i + 1);
    }
}

proof fn lemma_trail_start(s: Seq<char>, j: int, a: int)
    requires
        0 <= a < j <= s.len(),
        !is_unicode_whitespace(s[a]),
    ensures
        a < trail_start(s, j) <= j,
    decreases j,
{
    if is_unicode_whitespace(s[j - 1]) {
        lemma_trail_start(s, j - 1, a);
    }
}

/// `trim`: the text without its leading and trailing white space.
fn trim_text(s: &str) -> (r: String)
    ensures
        r@ == trimmed_text(s@),
{
    let sc = chars_of(s);
    let mut a: usize = 0;
    while a < sc.len() && is_space(sc[a])
        invariant
            a <= sc@.len(),
            sc@ == s@,
            lead_end(s@, a as int) == lead_end(s@, 0),
        decreases sc@.len() - a,
    {
        a = a + 1;
    }
    if a >= sc.len() {
        return String::new();
    }
    let mut b: usize = sc.len();
    while b > a + 1 && is_space(sc[b - 1])
        invariant
            a < b <= sc@.len(),
            sc@ == s@,
            a == lead_end(s@, 0),
            trail_start(s@, b as int) == trail_start(s@, s@.len() as int),
        decreases b,
    {
        b = b - 1;
    }
    proof {
        lemma_trail_start(s@, b as int, a as int);
        if b == a + 1 {
            assert(!is_unicode_whitespace(s@[a as int]));
        }
    }
    slice_string(&sc, a, b)
}

fn str_at(args: &Vec<RuntimeValue>, i: usize) -> (s: String)
    ensures
        s@ == str_arg(args@, i as int),
{
    if i < args.len() {
        match &args[i] {
            RuntimeValue::Str(s) => s.clone(),
            _ => String::new(),
        }
    } else {
        String::new()
    }
}

fn int_at(args: &Vec<RuntimeValue>, i: usize, d: i64) -> (n: i64)
    ensures
        n as int == int_arg(args@, i as int, d as int),
{
    if i < args.len() {
        match &args[i] {
            RuntimeValue::Int(n) => *n,
            RuntimeValue::Bool(b) => if *b { 1 } else { 0 },
            _ => d,
        }
    } else {
        d
    }
}

pub(crate) fn occurs_at_exec(s: &Vec<char>, t: &Vec<char>, i: usize) -> (r: bool)
    ensures
        r == occurs_at(s@, t@, i as int),
{
    if i > s.len() || t.len() > s.len() - i {
        return false;
    }
    let mut k: usize = 0;
    while k < t.len()
        invariant
            i + t.len() <= s.len(),
            k <= t@.len(),
            forall|j: int| 0 <= j < k ==> s@[i + j] == t@[j],
        decreases t@.len() - k,
    {
        if s[i + k] != t[k] {
            assert(s@.subrange(i as int, i + t@.len())[k as int] != t@[k as int]);
            return false;
        }
        k = k + 1;
    }
    assert(s@.subrange(i as int, i + t@.len()) =~= t@);
    true
}

pub(crate) fn contains_exec(s: &Vec<char>, t: &Vec<char>) -> (r: bool)
    ensures
        r == text_contains(s@, t@),
{
    if t.len() > s.len() {
        return false;
    }
    let last = s.len() - t.len();
    let mut i: usize = 0;
    while i < last
        invariant
            i <= last,
            last == s@.len() - t@.len(),
            forall|j: int| 0 <= j < i ==> !occurs_at(s@, t@, j),
        decreases last - i,
    {
        if occurs_at_exec(s, t, i) {
            return true;
        }
        i = i + 1;
    }
    if occurs_at_exec(s, t, last) {
        return true;
    }
    assert forall|j: int| !occurs_at(s@, t@, j) by {
        if 0 <= j && j + t@.len() <= s@.len() {
            assert(j <= last);
        }
    }
    false
}

fn copy_range(v: &Vec<RuntimeValue>, a: usize, b: usize) -> (r: Vec<RuntimeValue>)
    requires
        a <= b <= v@.len(),
    ensures
        values_match(v@.subrange(a as int, b as int), r@),
{
    let mut r: Vec<RuntimeValue> = Vec::new();
    let mut i: usize = a;
    while i < b
        invariant
            a <= i <= b <= v@.len(),
            r@.len() == i - a,
            forall|j: int| 0 <= j < r@.len() ==> same_value(#[trigger] v@[a + j], r@[j]),
        decreases b - i,
    {
        r.push(v[i].copy());
        i = i + 1;
    }
    assert forall|j: int| 0 <= j < r@.len() implies same_value(#[trigger] v@.subrange(a as int, b as int)[j], r@[j]) by {
        assert(v@.subrange(a as int, b as int)[j] == v@[a + j]);
    }
    r
}

/// `string.length(s)`: the number of bytes of `s` in UTF-8, as a 32-bit integer.
pub fn string_length(args: &Vec<RuntimeValue>) -> (r: RuntimeValue)
    ensures
        r == RuntimeValue::Int(((vstd::utf8::encode_utf8(str_arg(args@, 0)).len() as usize) as i32) as i64),
{
    let s = str_at(args, 0);
    RuntimeValue::Int(s.as_str().len() as i32 as i64)
}

/// `core_string_len(s)`: the number of bytes of `s` in UTF-8.
pub fn core_string_len(args: &Vec<RuntimeValue>) -> (r: RuntimeValue)
    ensures
        r == RuntimeValue::Int((vstd::utf8::encode_utf8(str_arg(args@, 0)).len() as usize) as i64),
{
    let s = str_at(args, 0);
    RuntimeValue::Int(s.as_str().len() as i64)
}

/// `upper(s)`: `s` in upper case.
pub fn string_upper(args: &Vec<RuntimeValue>) -> (r: RuntimeValue)
    ensures
        r matches RuntimeValue::Str(t) && t@ == upper_text(str_arg(args@, 0)),
{
    let s = str_at(args, 0);
    RuntimeValue::Str(to_upper(s.as_str()))
}

/// `lower(s)`: `s` in lower case.
pub fn string_lower(args: &Vec<RuntimeValue>) -> (r: RuntimeValue)
    ensures
        r matches RuntimeValue::Str(t) && t@ == lower_text(str_arg(args@, 0)),
{
    let s = str_at(args, 0);
    RuntimeValue::Str(to_lower(s.as_str()))
}

/// `trim(s)`: `s` without leading and trailing white space.
pub fn string_trim(args: &Vec<RuntimeValue>) -> (r: RuntimeValue)
    ensures
        r matches RuntimeValue::Str(t) && t@ == trimmed_text(str_arg(args@, 0)),
{
    let s = str_at(args, 0);
    RuntimeValue::Str(trim_text(s.as_str()))
}

/// `contains(s, needle)`: whether `needle` occurs in `s`.
pub fn string_contains(args: &Vec<RuntimeValue>) -> (r: RuntimeValue)
    ensures
        r == RuntimeValue::Bool(text_contains(str_arg(args@, 0), str_arg(args@, 1))),
{
    let s = str_at(args, 0);
    let t = str_at(args, 1);
    let sc = chars_of(s.as_str());
    let tc = chars_of(t.as_str());
    RuntimeValue::Bool(contains_exec(&sc, &tc))
}

/// `starts_with(s, prefix)`: whether `s` begins with `prefix`.
pub fn string_starts_with(args: &Vec<RuntimeValue>) -> (r: RuntimeValue)
    ensures
        r == RuntimeValue::Bool(occurs_at(str_arg(args@, 0), str_arg(args@, 1), 0)),
{
    let s = str_at(args, 0);
    let t = str_at(args, 1);
    let sc = chars_of(s.as_str());
    let tc = chars_of(t.as_str());
    RuntimeValue::Bool(occurs_at_exec(&sc, &tc, 0))
}

/// `ends_with(s, suffix)`: whether `s` ends with `suffix`.
pub fn string_ends_with(args: &Vec<RuntimeValue>) -> (r: RuntimeValue)
    ensures
        r == RuntimeValue::Bool(
            str_arg(args@, 1).len() <= str_arg(args@, 0).len()
            && occurs_at(str_arg(args@, 0), str_arg(args@, 1), str_arg(args@, 0).len() - str_arg(args@, 1).len()),
        ),
{
    let s = str_at(args, 0);
    let t = str_at(args, 1);
    let sc = chars_of(s.as_str());
    let tc = chars_of(t.as_str());
    if tc.len() > sc.len() {
        return RuntimeValue::Bool(false);
    }
    RuntimeValue::Bool(occurs_at_exec(&sc, &tc, sc.len() - tc.len()))
}

/// `reverse(s)`: the characters of `s` in reverse order.
pub fn string_reverse(args: &Vec<RuntimeValue>) -> (r: RuntimeValue)
    ensures
        r matches RuntimeValue::Str(t) && t@ == str_arg(args@, 0).reverse(),
{
    let s = str_at(args, 0);
    let sc = chars_of(s.as_str());
    let mut out = String::new();
    let mut i: usize = sc.len();
    while i > 0
        invariant
            i <= sc@.len(),
            out@.len() == sc@.len() - i,
            forall|j: int| 0 <= j < out@.len() ==> out@[j] == sc@[sc@.len() - 1 - j],
        decreases i,
    {
        i = i - 1;
        push_char(&mut out, sc[i]);
    }
    assert(out@ =~= sc@.reverse());
    RuntimeValue::Str(out)
}

fn char_at_exec(s: &String, k: i64) -> (r: RuntimeValue)
    ensures
        r matches RuntimeValue::Str(t) && t@ == char_at_text(s@, k as int),
{
    let sc = chars_of(s.as_str());
    let mut out = String::new();
    if k >= 0 && (k as u64) < (sc.len() as u64) {
        push_char(&mut out, sc[k as usize]);
        assert(out@ =~= char_at_text(s@, k as int));
    } else {
        assert(out@ =~= char_at_text(s@, k as int));
    }
    RuntimeValue::Str(out)
}

/// `string.char_at(s, i)`: the character at `i` (read as a 32-bit integer), or empty where
/// there is none.
pub fn string_char_at(args: &Vec<RuntimeValue>) -> (r: RuntimeValue)
    ensures
        r matches RuntimeValue::Str(t) && t@ == char_at_text(str_arg(args@, 0), (int_arg(args@, 1, 0) as i32) as int),
{
    let s = str_at(args, 0);
    let k = int_at(args, 1, 0) as i32;
    char_at_exec(&s, k as i64)
}

/// `core_string_char_at(s, i)`: the character at `i`, or empty where there is none.
pub fn core_string_char_at(args: &Vec<RuntimeValue>) -> (r: RuntimeValue)
    ensures
        r matches RuntimeValue::Str(t) && t@ == char_at_text(str_arg(args@, 0), int_arg(args@, 1, 0)),
{
    let s = str_at(args, 0);
    let k = int_at(args, 1, 0);
    char_at_exec(&s, k)
}

/// `core_string_substring(s, start, end)`: the characters from `start` up to `end`, counted
/// in characters; a missing `end` is the byte length of `s`.
pub fn core_string_substring(args: &Vec<RuntimeValue>) -> (r: RuntimeValue)
    ensures
        r matches RuntimeValue::Str(t) && t@ == char_slice(
            str_arg(args@, 0),
            index_of_int(int_arg(args@, 1, 0), str_arg(args@, 0).len() as int),
            index_of_int(
                int_arg(args@, 2, (vstd::utf8::encode_utf8(str_arg(args@, 0)).len() as usize) as i64 as int),
                str_arg(args@, 0).len() as int,
            ),
        ),
{
    let s = str_at(args, 0);
    let sc = chars_of(s.as_str());
    let start = int_at(args, 1, 0);
    let end = int_at(args, 2, s.as_str().len() as i64);
    let a: usize = if start < 0 || (start as u64) > (sc.len() as u64) { sc.len() } else { start as usize };
    assert(sc@ == s@);
    let e: usize = if end < 0 || (end as u64) > (sc.len() as u64) { sc.len() } else { end as usize };
    let b: usize = if e < a { a } else { e };
    let mut out = String::new();
    let mut i: usize = a;
    while i < b
        invariant
            a <= i <= b <= sc@.len(),
            out@ == sc@.subrange(a as int, i as int),
        decreases b - i,
    {
        push_char(&mut out, sc[i]);
        assert(sc@.subrange(a as int, i + 1) =~= sc@.subrange(a as int, i as int).push(sc@[i as int]));
        i = i + 1;
    }
    RuntimeValue::Str(out)
}

/// The list that the first argument holds, if it is one.
pub open spec fn list_arg(args: Seq<RuntimeValue>) -> Option<ListValue> {
    if args.len() > 0 {
        match args[0] {
            RuntimeValue::List(l) => Some(l),
            _ => None,
        }
    } else {
        None
    }
}

/// A copy of the first argument, or `null` where there is none.
fn first_copy(args: &Vec<RuntimeValue>) -> (r: RuntimeValue)
    ensures
        args@.len() > 0 ==> same_value(args@[0], r),
        args@.len() == 0 ==> r == RuntimeValue::Null,
{
    if args.len() > 0 { args[0].copy() } else { RuntimeValue::Null }
}

/// `array.length(a)`: the number of elements of the list `a` as a 32-bit integer, 0 for
/// anything else.
pub fn array_length(args: &Vec<RuntimeValue>) -> (r: RuntimeValue)
    ensures
        r == RuntimeValue::Int(match list_arg(args@) {
            Some(l) => ((l.elements@.len() as usize) as i32) as i64,
            None => 0,
        }),
{
    if args.len() > 0 {
        if let RuntimeValue::List(l) = &args[0] {
            return RuntimeValue::Int(l.elements.len() as i32 as i64);
        }
    }
    RuntimeValue::Int(0)
}

/// `array.push(a, x)`: a new list of the elements of `a` followed by `x`, of the same
/// element type; anything but a list comes back as it is.
pub fn array_push(args: &Vec<RuntimeValue>) -> (r: RuntimeValue)
    ensures
        match list_arg(args@) {
            Some(l) => r matches RuntimeValue::List(m) && same_type(l.element_type, m.element_type)
                && values_match(
                    if args@.len() > 1 { l.elements@.push(args@[1]) } else { l.elements@ },
                    m.elements@,
                ),
            None => (args@.len() > 0 ==> same_value(args@[0], r)) && (args@.len() == 0 ==> r == RuntimeValue::Null),
        },
{
    if args.len() > 0 {
        if let RuntimeValue::List(l) = &args[0] {
            let mut elements = copy_range(&l.elements, 0, l.elements.len());
            assert(l.elements@.subrange(0, l.elements@.len() as int) =~= l.elements@);
            if args.len() > 1 {
                let ghost before = elements@;
                elements.push(args[1].copy());
                assert forall|j: int| 0 <= j < elements@.len() implies same_value(
                    #[trigger] l.elements@.push(args@[1])[j], elements@[j]) by {
                    if j < before.len() {
                        assert(l.elements@.push(args@[1])[j] == l.elements@.subrange(0, l.elements@.len() as int)[j]);
                    }
                }
            }
            return RuntimeValue::List(ListValue { elements, element_type: l.element_type.copy() });
        }
    }
    first_copy(args)
}

/// `array.pop(a)`: the last element of the list `a`; `null` for an empty list or anything
/// else. The list itself is left as it is.
pub fn array_pop(args: &Vec<RuntimeValue>) -> (r: RuntimeValue)
    ensures
        match list_arg(args@) {
            Some(l) if l.elements@.len() > 0 => same_value(l.elements@.last(), r),
            _ => r == RuntimeValue::Null,
        },
{
    if args.len() > 0 {
        if let RuntimeValue::List(l) = &args[0] {
            if l.elements.len() > 0 {
                return l.elements[l.elements.len() - 1].copy();
            }
        }
    }
    RuntimeValue::Null
}

/// `array.shift(a)`: the first element of the list `a`; `null` for an empty list or
/// anything else. The list itself is left as it is.
pub fn array_shift(args: &Vec<RuntimeValue>) -> (r: RuntimeValue)
    ensures
        match list_arg(args@) {
            Some(l) if l.elements@.len() > 0 => same_value(l.elements@[0], r),
            _ => r == RuntimeValue::Null,
        },
{
    if args.len() > 0 {
        if let RuntimeValue::List(l) = &args[0] {
            if l.elements.len() > 0 {
                return l.elements[0].copy();
            }
        }
    }
    RuntimeValue::Null
}

/// `array.reverse(a)`: a new list of the elements of `a` in reverse order, of the same
/// element type; anything but a list comes back as it is.
pub fn array_reverse(args: &Vec<RuntimeValue>) -> (r: RuntimeValue)
    ensures
        match list_arg(args@) {
            Some(l) => r matches RuntimeValue::List(m) && same_type(l.element_type, m.element_type)
                && values_match(l.elements@.reverse(), m.elements@),
            None => (args@.len() > 0 ==> same_value(args@[0], r)) && (args@.len() == 0 ==> r == RuntimeValue::Null),
        },
{
    if args.len() > 0 {
        if let RuntimeValue::List(l) = &args[0] {
            let v = &l.elements;
            let mut out: Vec<RuntimeValue> = Vec::new();
            let mut i: usize = v.len();
            while i > 0
                invariant
                    i <= v@.len(),
                    out@.len() == v@.len() - i,
                    forall|j: int| 0 <= j < out@.len() ==> same_value(v@[v@.len() - 1 - j], #[trigger] out@[j]),
                decreases i,
            {
                i = i - 1;
                out.push(v[i].copy());
            }
            assert forall|j: int| 0 <= j < out@.len() implies same_value(#[trigger] v@.reverse()[j], out@[j]) by {
                assert(v@.reverse()[j] == v@[v@.len() - 1 - j]);
            }
            return RuntimeValue::List(ListValue { elements: out, element_type: l.element_type.copy() });
        }
    }
    first_copy(args)
}

/// `array.slice(a, start, end)`: a new list of the elements `start..end` of `a` (indices
/// read as 32-bit integers, negative ones past the end, both clipped to the length, empty
/// where `end` comes before `start`); a missing `end` is the length. Anything but a list
/// gives an empty list of any type.
pub fn array_slice(args: &Vec<RuntimeValue>) -> (r: RuntimeValue)
    ensures
        match list_arg(args@) {
            Some(l) => {
                let n = l.elements@.len() as int;
                let a = index_of_int((int_arg(args@, 1, 0) as i32) as int, n);
                let e = index_of_int((int_arg(args@, 2, ((n as usize) as i32) as int) as i32) as int, n);
                let b = if e < a { a } else { e };
                r matches RuntimeValue::List(m) && same_type(l.element_type, m.element_type)
                    && values_match(l.elements@.subrange(a, b), m.elements@)
            },
            None => r matches RuntimeValue::List(m) && m.elements@.len() == 0
                && m.element_type == Type::Primitive(PrimitiveKind::Any),
        },
{
    if args.len() > 0 {
        if let RuntimeValue::List(l) = &args[0] {
            let n = l.elements.len();
            let start = int_at(args, 1, 0) as i32;
            let end = int_at(args, 2, n as i32 as i64) as i32;
            let a: usize = if start < 0 || (start as u64) > (n as u64) { n } else { start as usize };
            let e: usize = if end < 0 || (end as u64) > (n as u64) { n } else { end as usize };
            let b: usize = if e < a { a } else { e };
            let elements = copy_range(&l.elements, a, b);
            return RuntimeValue::List(ListValue { elements, element_type: l.element_type.copy() });
        }
    }
    RuntimeValue::List(ListValue { elements: Vec::new(), element_type: Type::Primitive(PrimitiveKind::Any) })
}

/// The first position from `i` on where `t` occurs in `s`, if any.
pub open spec fn find_from(s: Seq<char>, t: Seq<char>, i: int) -> Option<int>
    decreases s.len() + 1 - i,
{
    if i < 0 || i > s.len() {
        None
    } else if occurs_at(s, t, i) {
        Some(i)
    } else {
        find_from(s, t, i + 1)
    }
}

proof fn lemma_find_from(s: Seq<char>, t: Seq<char>, i: int)
    requires
        0 <= i,
    ensures
        match find_from(s, t, i) {
            Some(k) => i <= k && occurs_at(s, t, k) && forall|j: int| i <= j < k ==> !occurs_at(s, t, j),
            None => forall|j: int| i <= j ==> !occurs_at(s, t, j),
        },
    decreases s.len() + 1 - i,
{
    if i <= s.len() && !occurs_at(s, t, i) {
        lemma_find_from(s, t, i + 1);
    }
}

pub(crate) fn find_exec(s: &Vec<char>, t: &Vec<char>, from: usize) -> (r: Option<usize>)
    requires
        from <= s@.len(),
    ensures
        match r {
            Some(k) => find_from(s@, t@, from as int) == Some(k as int),
            None => find_from(s@, t@, from as int) is None,
        },
{
    let mut i: usize = from;
    while i <= s.len()
        invariant
            from <= i,
            i <= s@.len() + 1,
            find_from(s@, t@, from as int) == find_from(s@, t@, i as int),
        decreases s@.len() + 1 - i,
    {
        if occurs_at_exec(s, t, i) {
            return Some(i);
        }
        if i == s.len() {
            assert(find_from(s@, t@, i + 1) is None);
            return None;
        }
        i = i + 1;
    }
    None
}

/// The UTF-8 length of the first `k` characters of `s`.
pub open spec fn byte_offset(s: Seq<char>, k: int) -> int {
    vstd::utf8::encode_utf8(s.subrange(0, k)).len() as int
}

fn prefix_bytes(s: &Vec<char>, k: usize) -> (n: usize)
    requires
        k <= s@.len(),
    ensures
        n == byte_offset(s@, k as int) as usize,
{
    let mut pre = String::new();
    let mut j: usize = 0;
    while j < k
        invariant
            j <= k <= s@.len(),
            pre@ == s@.subrange(0, j as int),
        decreases k - j,
    {
        push_char(&mut pre, s[j]);
        assert(s@.subrange(0, j + 1) =~= s@.subrange(0, j as int).push(s@[j as int]));
        j = j + 1;
    }
    pre.as_str().len()
}

/// `string.index_of(s, needle)`: the byte offset of the first occurrence of `needle` in `s`,
/// as a 32-bit integer, or -1.
pub fn string_index_of(args: &Vec<RuntimeValue>) -> (r: RuntimeValue)
    ensures
        r == RuntimeValue::Int(match find_from(str_arg(args@, 0), str_arg(args@, 1), 0) {
            Some(k) => ((byte_offset(str_arg(args@, 0), k) as usize) as i32) as i64,
            None => -1i64,
        }),
{
    let s = str_at(args, 0);
    let t = str_at(args, 1);
    let sc = chars_of(s.as_str());
    let tc = chars_of(t.as_str());
    match find_exec(&sc, &tc, 0) {
        Some(k) => {
            proof { lemma_find_from(sc@, tc@, 0); }
            RuntimeValue::Int(prefix_bytes(&sc, k) as i32 as i64)
        },
        None => RuntimeValue::Int(-1),
    }
}

/// `core_string_index_of(s, needle)`: the byte offset of the first occurrence of `needle` in
/// `s`, or -1.
pub fn core_string_index_of(args: &Vec<RuntimeValue>) -> (r: RuntimeValue)
    ensures
        r == RuntimeValue::Int(match find_from(str_arg(args@, 0), str_arg(args@, 1), 0) {
            Some(k) => (byte_offset(str_arg(args@, 0), k) as usize) as i64,
            None => -1i64,
        }),
{
    let s = str_at(args, 0);
    let t = str_at(args, 1);
    let sc = chars_of(s.as_str());
    let tc = chars_of(t.as_str());
    match find_exec(&sc, &tc, 0) {
        Some(k) => {
            proof { lemma_find_from(sc@, tc@, 0); }
            RuntimeValue::Int(prefix_bytes(&sc, k) as i64)
        },
        None => RuntimeValue::Int(-1),
    }
}

/// `s` from `i` on with every occurrence of `f` replaced by `t`, left to right and without
/// overlap; an empty `f` puts `t` before every character and at the end.
pub open spec fn replace_from(s: Seq<char>, f: Seq<char>, t: Seq<char>, i: int) -> Seq<char>
    decreases s.len() + 1 - i,
{
    if i < 0 || i > s.len() {
        Seq::empty()
    } else if f.len() == 0 {
        if i == s.len() { t } else { t + seq![s[i]] + replace_from(s, f, t, i + 1) }
    } else if i == s.len() {
        Seq::empty()
    } else if occurs_at(s, f, i) {
        t + replace_from(s, f, t, i + f.len())
    } else {
        seq![s[i]] + replace_from(s, f, t, i + 1)
    }
}

fn push_all(out: &mut String, v: &Vec<char>)
    ensures
        final(out)@ == old(out)@ + v@,
{
    let mut j: usize = 0;
    while j < v.len()
        invariant
            j <= v@.len(),
            out@ == old(out)@ + v@.subrange(0, j as int),
        decreases v@.len() - j,
    {
        push_char(out, v[j]);
        assert(v@.subrange(0, j + 1) =~= v@.subrange(0, j as int).push(v@[j as int]));
        j = j + 1;
    }
    assert(v@.subrange(0, v@.len() as int) =~= v@);
}

fn replace_exec(s: &Vec<char>, f: &Vec<char>, t: &Vec<char>) -> (r: String)
    ensures
        r@ == replace_from(s@, f@, t@, 0),
{
    let mut out = String::new();
    let mut i: usize = 0;
    while i < s.len()
        invariant
            i <= s@.len(),
            replace_from(s@, f@, t@, 0) == out@ + replace_from(s@, f@, t@, i as int),
        decreases s@.len() - i,
    {
        let ghost before = out@;
        if f.len() == 0 {
            push_all(&mut out, t);
            push_char(&mut out, s[i]);
            assert(out@ + replace_from(s@, f@, t@, i + 1) =~= before + replace_from(s@, f@, t@, i as int));
            i = i + 1;
        } else if occurs_at_exec(s, f, i) {
            push_all(&mut out, t);
            assert(out@ + replace_from(s@, f@, t@, i + f@.len()) =~= before + replace_from(s@, f@, t@, i as int));
            i = i + f.len();
        } else {
            push_char(&mut out, s[i]);
            assert(out@ + replace_from(s@, f@, t@, i + 1) =~= before + replace_from(s@, f@, t@, i as int));
            i = i + 1;
        }
    }
    if f.len() == 0 {
        let ghost before = out@;
        push_all(&mut out, t);
        assert(replace_from(s@, f@, t@, i as int) == t@);
    } else {
        assert(replace_from(s@, f@, t@, i as int) =~= Seq::<char>::empty());
        assert(out@ + Seq::<char>::empty() =~= out@);
    }
    out
}

/// `replace(s, from, to)`: `s` with every occurrence of `from` replaced by `to`.
pub fn string_replace(args: &Vec<RuntimeValue>) -> (r: RuntimeValue)
    ensures
        r matches RuntimeValue::Str(t) && t@ == replace_from(str_arg(args@, 0), str_arg(args@, 1), str_arg(args@, 2), 0),
{
    let s = str_at(args, 0);
    let f = str_at(args, 1);
    let t = str_at(args, 2);
    let sc = chars_of(s.as_str());
    let fc = chars_of(f.as_str());
    let tc = chars_of(t.as_str());
    RuntimeValue::Str(replace_exec(&sc, &fc, &tc))
}

/// The pieces of `s` from `p` on, cut at every occurrence of the non-empty `d`.
pub open spec fn split_from(s: Seq<char>, d: Seq<char>, p: int) -> Seq<Seq<char>>
    decreases s.len() + 1 - p,
{
    if d.len() == 0 || p < 0 || p > s.len() {
        seq![s.subrange(p, s.len() as int)]
    } else {
        match find_from(s, d, p) {
            Some(k) => if p <= k && k + d.len() <= s.len() {
                seq![s.subrange(p, k)] + split_from(s, d, k + d.len())
            } else {
                Seq::empty()
            },
            None => seq![s.subrange(p, s.len() as int)],
        }
    }
}

/// The pieces of `s` cut at every occurrence of `d`; an empty `d` cuts before and after every
/// character, giving an empty first and last piece.
pub open spec fn split_text(s: Seq<char>, d: Seq<char>) -> Seq<Seq<char>> {
    if d.len() == 0 {
        seq![Seq::<char>::empty()] + Seq::new(s.len(), |i: int| seq![s[i]]) + seq![Seq::<char>::empty()]
    } else {
        split_from(s, d, 0)
    }
}

fn slice_string(s: &Vec<char>, a: usize, b: usize) -> (r: String)
    requires
        a <= b <= s@.len(),
    ensures
        r@ == s@.subrange(a as int, b as int),
{
    let mut out = String::new();
    let mut i: usize = a;
    while i < b
        invariant
            a <= i <= b <= s@.len(),
            out@ == s@.subrange(a as int, i as int),
        decreases b - i,
    {
        push_char(&mut out, s[i]);
        assert(s@.subrange(a as int, i + 1) =~= s@.subrange(a as int, i as int).push(s@[i as int]));
        i = i + 1;
    }
    out
}

fn split_exec(s: &Vec<char>, d: &Vec<char>) -> (r: Vec<String>)
    ensures
        r@.len() == split_text(s@, d@).len(),
        forall|i: int| 0 <= i < r@.len() ==> (#[trigger] r@[i])@ == split_text(s@, d@)[i],
{
    let mut out: Vec<String> = Vec::new();
    if d.len() == 0 {
        out.push(String::new());
        let mut i: usize = 0;
        while i < s.len()
            invariant
                i <= s@.len(),
                out@.len() == i + 1,
                out@[0]@ == Seq::<char>::empty(),
                forall|j: int| 1 <= j <= i ==> (#[trigger] out@[j])@ == seq![s@[j - 1]],
            decreases s@.len() - i,
        {
            out.push(slice_string(s, i, i + 1));
            assert(s@.subrange(i as int, i + 1) =~= seq![s@[i as int]]);
            i = i + 1;
        }
        out.push(String::new());
        assert forall|i: int| 0 <= i < out@.len() implies (#[trigger] out@[i])@ == split_text(s@, d@)[i] by {
            if 1 <= i <= s@.len() {
                assert(split_text(s@, d@)[i] == seq![s@[i - 1]]);
            }
        }
        return out;
    }
    let mut p: usize = 0;
    loop
        invariant_except_break
            d@.len() > 0,
            p <= s@.len(),
            split_text(s@, d@) == views_of(out@) + split_from(s@, d@, p as int),
        ensures
            split_text(s@, d@) == views_of(out@),
        decreases s@.len() + 1 - p,
    {
        let ghost before = views_of(out@);
        proof { lemma_find_from(s@, d@, p as int); }
        match find_exec(s, d, p) {
            Some(k) => {
                assert(occurs_at(s@, d@, k as int));
                assert(k + d@.len() <= s.len());
                out.push(slice_string(s, p, k));
                assert(views_of(out@) =~= before.push(s@.subrange(p as int, k as int)));
                assert(split_from(s@, d@, p as int) == seq![s@.subrange(p as int, k as int)] + split_from(s@, d@, k + d@.len()));
                assert(views_of(out@) + split_from(s@, d@, k + d@.len()) =~= before + split_from(s@, d@, p as int));
                p = k + d.len();
            },
            None => {
                out.push(slice_string(s, p, s.len()));
                assert(views_of(out@) =~= before + split_from(s@, d@, p as int));
                assert(split_text(s@, d@) =~= views_of(out@));
                break;
            },
        }
    }
    assert(split_text(s@, d@) =~= views_of(out@));
    assert forall|i: int| 0 <= i < out@.len() implies (#[trigger] out@[i])@ == split_text(s@, d@)[i] by {
        assert(views_of(out@)[i] == out@[i]@);
    }
    out
}

/// The texts of a sequence of strings.
pub open spec fn views_of(v: Seq<String>) -> Seq<Seq<char>> {
    Seq::new(v.len(), |i: int| v[i]@)
}

/// `split(s, delimiter)`: a list of the pieces of `s` between the occurrences of `delimiter`,
/// as strings.
pub fn string_split(args: &Vec<RuntimeValue>) -> (r: RuntimeValue)
    ensures
        r matches RuntimeValue::List(l) && l.element_type == Type::Primitive(PrimitiveKind::Str)
            && l.elements@.len() == split_text(str_arg(args@, 0), str_arg(args@, 1)).len()
            && forall|i: int| 0 <= i < l.elements@.len() ==> ((#[trigger] l.elements@[i]) matches RuntimeValue::Str(t)
                && t@ == split_text(str_arg(args@, 0), str_arg(args@, 1))[i]),
{
    let s = str_at(args, 0);
    let d = str_at(args, 1);
    let sc = chars_of(s.as_str());
    let dc = chars_of(d.as_str());
    let parts = split_exec(&sc, &dc);
    let mut elements: Vec<RuntimeValue> = Vec::new();
    let mut i: usize = 0;
    while i < parts.len()
        invariant
            i <= parts@.len(),
            elements@.len() == i,
            forall|j: int| 0 <= j < i ==> ((#[trigger] elements@[j]) matches RuntimeValue::Str(t) && t@ == parts@[j]@),
        decreases parts@.len() - i,
    {
        elements.push(RuntimeValue::Str(parts[i].clone()));
        i = i + 1;
    }
    RuntimeValue::List(ListValue { elements, element_type: Type::Primitive(PrimitiveKind::Str) })
}

/// The byte positions that `string.substring` cuts `s` at: start and end, read as 32-bit
/// integers (a missing end is the byte length), negative or too large ones clipped to the
/// byte length.
pub open spec fn substring_bounds(args: Seq<RuntimeValue>) -> (int, int) {
    let n = (encode_utf8(str_arg(args, 0)).len() as usize) as int;
    let a = index_of_int((int_arg(args, 1, 0) as i32) as int, n);
    let b = index_of_int((int_arg(args, 2, (n as i32) as int) as i32) as int, n);
    (a, b)
}

/// `string.substring` can cut its text: the end comes before the start, or both fall on
/// character boundaries. Anywhere else the cut would split a character.
pub open spec fn substring_defined(args: Seq<RuntimeValue>) -> bool {
    let (a, b) = substring_bounds(args);
    let bytes = encode_utf8(str_arg(args, 0));
    a > b || (is_char_boundary(bytes, a) && is_char_boundary(bytes, b))
}

/// Whether `string.substring` can cut its text; see `substring_defined`.
pub fn string_substring_defined(args: &Vec<RuntimeValue>) -> (r: bool)
    ensures
        r == substring_defined(args@),
{
    let s = str_at(args, 0);
    let st = s.as_str();
    let n = st.len();
    let start = int_at(args, 1, 0) as i32;
    let end = int_at(args, 2, n as i32 as i64) as i32;
    let a: usize = if start < 0 || (start as u64) > (n as u64) { n } else { start as usize };
    let b: usize = if end < 0 || (end as u64) > (n as u64) { n } else { end as usize };
    a > b || (st.is_char_boundary(a) && st.is_char_boundary(b))
}

/// `string.substring(s, start, end)`: the text between the byte positions of
/// `substring_bounds`, or empty where the end comes first.
pub fn string_substring(args: &Vec<RuntimeValue>) -> (r: RuntimeValue)
    requires
        substring_defined(args@),
    ensures
        r matches RuntimeValue::Str(t) && t@ == {
            let (a, b) = substring_bounds(args@);
            if a <= b { decode_utf8(encode_utf8(str_arg(args@, 0)).subrange(a, b)) } else { Seq::empty() }
        },
{
    broadcast use vstd::utf8::group_utf8_lib;
    let s = str_at(args, 0);
    let st = s.as_str();
    let n = st.len();
    let start = int_at(args, 1, 0) as i32;
    let end = int_at(args, 2, n as i32 as i64) as i32;
    let a: usize = if start < 0 || (start as u64) > (n as u64) { n } else { start as usize };
    let b: usize = if end < 0 || (end as u64) > (n as u64) { n } else { end as usize };
    if a > b {
        return RuntimeValue::Str(String::new());
    }
    let ghost bytes = encode_utf8(s@);
    let (head, _) = st.split_at(b);
    proof {
        let hb = encode_utf8(head@);
        assert(hb =~= bytes.subrange(0, b as int));
        assert(vstd::utf8::valid_utf8(hb));
        if 0 < a && a < b {
            assert(hb[a as int] == bytes[a as int]);
            assert(is_char_boundary(bytes, a as int) <==> !vstd::utf8::is_continuation_byte(bytes[a as int]));
            assert(is_char_boundary(hb, a as int) <==> !vstd::utf8::is_continuation_byte(hb[a as int]));
        }
        if a == b {
            assert(is_char_boundary(hb, hb.len() as int));
        }
    }
    let (_, mid) = head.split_at(a);
    proof {
        assert(encode_utf8(mid@) =~= bytes.subrange(a as int, b as int));
        assert(decode_utf8(encode_utf8(mid@)) == mid@);
    }
    RuntimeValue::Str(String::from_str(mid))
}

/// `s` written `n` times.
pub open spec fn repeat_text(s: Seq<char>, n: nat) -> Seq<char>
    decreases n,
{
    if n == 0 { Seq::empty() } else { repeat_text(s, (n - 1) as nat) + s }
}

/// `string.repeat` can build its result: the text is empty, or the count (read as a 32-bit
/// integer) is not negative and the result's byte length fits a machine word.
pub open spec fn repeat_defined(args: Seq<RuntimeValue>) -> bool {
    let k = (int_arg(args, 1, 0) as i32) as int;
    str_arg(args, 0).len() == 0 || (k >= 0 && k * ((encode_utf8(str_arg(args, 0)).len() as usize) as int) <= usize::MAX)
}

/// Whether `string.repeat` can build its result; see `repeat_defined`.
pub fn string_repeat_defined(args: &Vec<RuntimeValue>) -> (r: bool)
    ensures
        r == repeat_defined(args@),
{
    let s = str_at(args, 0);
    let k = int_at(args, 1, 0) as i32;
    let n = s.as_str().len();
    if s.as_str().is_empty() {
        return true;
    }
    if k < 0 {
        return false;
    }
    (k as usize).checked_mul(n).is_some()
}

/// `repeat(s, count)`: `s` written `count` times; empty for an empty `s`.
pub fn string_repeat(args: &Vec<RuntimeValue>) -> (r: RuntimeValue)
    requires
        repeat_defined(args@),
    ensures
        r matches RuntimeValue::Str(t) && t@ == {
            let k = (int_arg(args@, 1, 0) as i32) as int;
            if k <= 0 { Seq::empty() } else { repeat_text(str_arg(args@, 0), k as nat) }
        },
{
    let s = str_at(args, 0);
    let k = int_at(args, 1, 0) as i32;
    let sc = chars_of(s.as_str());
    let mut out = String::new();
    if k <= 0 {
        return RuntimeValue::Str(out);
    }
    let mut i: i32 = 0;
    while i < k
        invariant
            0 <= i <= k,
            sc@ == s@,
            out@ == repeat_text(sc@, i as nat),
        decreases k - i,
    {
        push_all(&mut out, &sc);
        i = i + 1;
    }
    RuntimeValue::Str(out)
}

/// The second argument, or `null` where there is none.
pub open spec fn second_arg(args: Seq<RuntimeValue>) -> RuntimeValue {
    if args.len() > 1 { args[1] } else { RuntimeValue::Null }
}

/// The first element of `v` whose text is `t`, if any.
pub open spec fn first_with_text(v: Seq<RuntimeValue>, t: Seq<char>, i: int) -> Option<int>
    decreases v.len() - i,
{
    if i < 0 || i >= v.len() {
        None
    } else if value_text(v[i]) == t {
        Some(i)
    } else {
        first_with_text(v, t, i + 1)
    }
}

fn first_with_text_exec(v: &Vec<RuntimeValue>, t: &String) -> (r: Option<usize>)
    ensures
        match r {
            Some(k) => first_with_text(v@, t@, 0) == Some(k as int),
            None => first_with_text(v@, t@, 0) is None,
        },
{
    let tc = chars_of(t.as_str());
    let mut i: usize = 0;
    while i < v.len()
        invariant
            i <= v@.len(),
            tc@ == t@,
            first_with_text(v@, t@, 0) == first_with_text(v@, t@, i as int),
        decreases v@.len() - i,
    {
        let e = text_of(&v[i]);
        let ec = chars_of(e.as_str());
        if ec.len() == tc.len() && occurs_at_exec(&ec, &tc, 0) {
            assert(ec@.subrange(0, tc@.len() as int) =~= ec@);
            return Some(i);
        }
        proof {
            if value_text(v@[i as int]) == t@ {
                assert(ec@.subrange(0, tc@.len() as int) =~= ec@);
            }
        }
        i = i + 1;
    }
    None
}

/// `array.contains(a, x)`: whether an element of the list `a` has the text of `x`; false for
/// anything but a list.
pub fn array_contains(args: &Vec<RuntimeValue>) -> (r: RuntimeValue)
    ensures
        r == RuntimeValue::Bool(match list_arg(args@) {
            Some(l) => first_with_text(l.elements@, value_text(second_arg(args@)), 0) is Some,
            None => false,
        }),
{
    if args.len() > 0 {
        if let RuntimeValue::List(l) = &args[0] {
            let t = if args.len() > 1 { text_of(&args[1]) } else { text_of(&RuntimeValue::Null) };
            return RuntimeValue::Bool(first_with_text_exec(&l.elements, &t).is_some());
        }
    }
    RuntimeValue::Bool(false)
}

/// `array.index_of(a, x)`: the index, as a 32-bit integer, of the first element of the list
/// `a` that has the text of `x`; -1 where there is none or for anything but a list.
pub fn array_index_of(args: &Vec<RuntimeValue>) -> (r: RuntimeValue)
    ensures
        r == RuntimeValue::Int(match list_arg(args@) {
            Some(l) => match first_with_text(l.elements@, value_text(second_arg(args@)), 0) {
                Some(k) => ((k as usize) as i32) as i64,
                None => -1i64,
            },
            None => -1i64,
        }),
{
    if args.len() > 0 {
        if let RuntimeValue::List(l) = &args[0] {
            let t = if args.len() > 1 { text_of(&args[1]) } else { text_of(&RuntimeValue::Null) };
            return match first_with_text_exec(&l.elements, &t) {
                Some(k) => RuntimeValue::Int(k as i32 as i64),
                None => RuntimeValue::Int(-1),
            };
        }
    }
    RuntimeValue::Int(-1)
}

/// The texts of the values of `v`, joined by `sep`.
pub open spec fn joined_texts(v: Seq<RuntimeValue>, sep: Seq<char>) -> Seq<char>
    decreases v.len(),
{
    if v.len() == 0 {
        Seq::empty()
    } else if v.len() == 1 {
        value_text(v[0])
    } else {
        joined_texts(v.drop_last(), sep) + sep + value_text(v.last())
    }
}

/// `array.join(a, sep)`: the texts of the elements of the list `a`, joined by `sep`; empty for
/// anything but a list.
pub fn array_join(args: &Vec<RuntimeValue>) -> (r: RuntimeValue)
    ensures
        r matches RuntimeValue::Str(t) && t@ == match list_arg(args@) {
            Some(l) => joined_texts(l.elements@, str_arg(args@, 1)),
            None => Seq::empty(),
        },
{
    if args.len() > 0 {
        if let RuntimeValue::List(l) = &args[0] {
            let sep = str_at(args, 1);
            let sc = chars_of(sep.as_str());
            let v = &l.elements;
            let mut out = String::new();
            let mut i: usize = 0;
            while i < v.len()
                invariant
                    i <= v@.len(),
                    sc@ == str_arg(args@, 1),
                    out@ == joined_texts(v@.subrange(0, i as int), sc@),
                decreases v@.len() - i,
            {
                let ghost before = out@;
                if i > 0 {
                    push_all(&mut out, &sc);
                }
                let e = text_of(&v[i]);
                let ec = chars_of(e.as_str());
                push_all(&mut out, &ec);
                proof {
                    let w = v@.subrange(0, i + 1);
                    assert(w.drop_last() =~= v@.subrange(0, i as int));
                    assert(w.last() == v@[i as int]);
                    if i == 0 {
                        assert(before =~= Seq::<char>::empty());
                        assert(out@ =~= value_text(v@[0]));
                    }
                }
                i = i + 1;
            }
            assert(v@.subrange(0, v@.len() as int) =~= v@);
            return RuntimeValue::Str(out);
        }
    }
    RuntimeValue::Str(String::new())
}

/// What `serde_json::to_string` writes for a list of strings: a JSON array of JSON strings.
/// Writing a list of strings does not fail.
pub uninterp spec fn json_of_strings(parts: Seq<Seq<char>>) -> Seq<char>;

/// `serde_json::to_string` on a list of strings: its JSON text, a function of the strings alone.
#[verifier::external_body]
fn to_json_strings(parts: &Vec<String>) -> (r: String)
    ensures
        r@ == json_of_strings(views_of(parts@)),
{
    serde_json::to_string(parts).unwrap_or_else(|_| "[]".to_string())
}

/// The pieces that `core_string_split` cuts `s` into: its characters one by one for an
/// empty `d`, else the pieces between the occurrences of `d`.
pub open spec fn core_split_text(s: Seq<char>, d: Seq<char>) -> Seq<Seq<char>> {
    if d.len() == 0 { Seq::new(s.len(), |i: int| seq![s[i]]) } else { split_from(s, d, 0) }
}

/// `core_string_split(s, delimiter)`: the pieces of `s` as a JSON array of strings.
pub fn core_string_split(args: &Vec<RuntimeValue>) -> (r: RuntimeValue)
    ensures
        r matches RuntimeValue::Str(t) && t@ == json_of_strings(core_split_text(str_arg(args@, 0), str_arg(args@, 1))),
{
    let s = str_at(args, 0);
    let d = str_at(args, 1);
    let sc = chars_of(s.as_str());
    let dc = chars_of(d.as_str());
    let parts: Vec<String> = if dc.len() == 0 {
        let mut out: Vec<String> = Vec::new();
        let mut i: usize = 0;
        while i < sc.len()
            invariant
                i <= sc@.len(),
                out@.len() == i,
                forall|j: int| 0 <= j < i ==> (#[trigger] out@[j])@ == seq![sc@[j]],
            decreases sc@.len() - i,
        {
            out.push(slice_string(&sc, i, i + 1));
            assert(sc@.subrange(i as int, i + 1) =~= seq![sc@[i as int]]);
            i = i + 1;
        }
        assert(views_of(out@) =~= core_split_text(sc@, dc@));
        out
    } else {
        let out = split_exec(&sc, &dc);
        assert(views_of(out@) =~= split_text(sc@, dc@));
        out
    };
    RuntimeValue::Str(to_json_strings(&parts))
}

} // verus!
