//! The numeric value of integer literal tokens.
use vstd::prelude::*;
use crate::text::chars_of;

verus! {

/// The value of a digit character in the given radix (`char::to_digit`).
pub open spec fn radix_digit(c: char, radix: nat) -> Option<nat> {
    let v: int = if '0' <= c && c <= '9' {
        c as int - '0' as int
    } else if 'a' <= c && c <= 'z' {
        c as int - 'a' as int + 10
    } else if 'A' <= c && c <= 'Z' {
        c as int - 'A' as int + 10
    } else {
        99
    };
    if v < radix { Some(v as nat) } else { None }
}

/// The value of a string of digits, most significant first; `None` if one is not a digit.
pub open spec fn digits_value(s: Seq<char>, radix: nat) -> Option<int>
    decreases s.len(),
{
    if s.len() == 0 {
        Some(0)
    } else {
        match (digits_value(s.drop_last(), radix), radix_digit(s.last(), radix)) {
            (Some(v), Some(d)) => Some(v * radix + d),
            _ => None,
        }
    }
}

/// `i64::from_str_radix`: an optional sign, at least one digit, and a value in range.
pub open spec fn parse_i64_radix(s: Seq<char>, radix: nat) -> Option<int> {
    let neg = s.len() > 0 && s[0] == '-';
    let body = if s.len() > 0 && (s[0] == '-' || s[0] == '+') { s.drop_first() } else { s };
    if body.len() == 0 {
        None
    } else {
        match digits_value(body, radix) {
            Some(v) => {
                let x = if neg { -v } else { v };
                if i64::MIN <= x <= i64::MAX { Some(x) } else { None }
            },
            None => None,
        }
    }
}

/// The text with its `_` separators taken out.
pub open spec fn strip_underscores(s: Seq<char>) -> Seq<char>
    decreases s.len(),
{
    if s.len() == 0 {
        s
    } else if s.last() == '_' {
        strip_underscores(s.drop_last())
    } else {
        strip_underscores(s.drop_last()).push(s.last())
    }
}

pub open spec fn unwrap_or_int(o: Option<int>, d: int) -> int {
    match o {
        Some(v) => v,
        None => d,
    }
}

/// The value of an integer literal: `0b`, `0o` and `0x` prefixes select the radix, and a
/// text that does not fit in `i64` gives 0 with a prefix and `i64::MAX` without.
pub open spec fn int_literal_spec(text: Seq<char>) -> int {
    let c = strip_underscores(text);
    if c.len() >= 2 && c[0] == '0' && (c[1] == 'b' || c[1] == 'B') {
        unwrap_or_int(parse_i64_radix(c.skip(2), 2), 0)
    } else if c.len() >= 2 && c[0] == '0' && (c[1] == 'o' || c[1] == 'O') {
        unwrap_or_int(parse_i64_radix(c.skip(2), 8), 0)
    } else if c.len() >= 2 && c[0] == '0' && (c[1] == 'x' || c[1] == 'X') {
        unwrap_or_int(parse_i64_radix(c.skip(2), 16), 0)
    } else {
        unwrap_or_int(parse_i64_radix(c, 10), i64::MAX as int)
    }
}

fn digit_of(c: char, radix: u32) -> (r: Option<u32>)
    requires
        2 <= radix <= 36,
    ensures
        match r {
            Some(d) => radix_digit(c, radix as nat) == Some(d as nat),
            None => radix_digit(c, radix as nat) is None,
        },
{
    let v: u32 = if '0' <= c && c <= '9' {
        (c as u32) - ('0' as u32)
    } else if 'a' <= c && c <= 'z' {
        (c as u32) - ('a' as u32) + 10
    } else if 'A' <= c && c <= 'Z' {
        (c as u32) - ('A' as u32) + 10
    } else {
        99
    };
    if v < radix { Some(v) } else { None }
}

/// `i64::from_str_radix` on a sequence of characters.
fn parse_radix(s: &Vec<char>, start: usize, radix: u32) -> (r: Option<i64>)
    requires
        start <= s@.len(),
        2 <= radix <= 36,
    ensures
        match r {
            Some(v) => parse_i64_radix(s@.skip(start as int), radix as nat) == Some(v as int),
            None => parse_i64_radix(s@.skip(start as int), radix as nat) is None,
        },
{
    let ghost t = s@.skip(start as int);
    let mut i = start;
    let mut neg = false;
    if i < s.len() && (s[i] == '-' || s[i] == '+') {
        neg = s[i] == '-';
        i = i + 1;
    }
    let ghost body = s@.skip(i as int);
    assert(body == (if t.len() > 0 && (t[0] == '-' || t[0] == '+') { t.drop_first() } else { t }));
    if i >= s.len() {
        return None;
    }
    let limit: i128 = 9223372036854775808;
    let mut acc: i128 = 0;
    let mut over = false;
    let mut j = i;
    while j < s.len()
        invariant
            i <= j <= s@.len(),
            i < s@.len(),
            body == s@.skip(i as int),
            t == s@.skip(start as int),
            body == (if t.len() > 0 && (t[0] == '-' || t[0] == '+') { t.drop_first() } else { t }),
            0 <= acc <= limit,
            limit == 9223372036854775808,
            2 <= radix <= 36,
            !over ==> digits_value(s@.subrange(i as int, j as int), radix as nat) == Some(acc as int),
            over ==> (digits_value(s@.subrange(i as int, j as int), radix as nat) is None
                || digits_value(s@.subrange(i as int, j as int), radix as nat).unwrap() > limit),
        decreases s@.len() - j,
    {
        let ghost pre = s@.subrange(i as int, j as int);
        let ghost nxt = s@.subrange(i as int, j + 1);
        assert(nxt.drop_last() =~= pre);
        assert(nxt.last() == s@[j as int]);
        match digit_of(s[j], radix) {
            None => {
                assert(digits_value(nxt, radix as nat) is None);
                proof {
                    assert(s@.subrange(i as int, s@.len() as int).subrange(0, (j + 1 - i) as int) =~= nxt);
                    lemma_none_extends(s@.subrange(i as int, s@.len() as int), (j + 1 - i) as int, radix as nat);
                    assert(s@.subrange(i as int, s@.len() as int) =~= body);
                }
                return None;
            },
            Some(d) => {
                if !over {
                    assert(acc * (radix as i128) + (d as i128) <= 36 * 9223372036854775808 + 36) by (nonlinear_arith)
                        requires 0 <= acc <= 9223372036854775808, radix <= 36, d < 36;
                    let next: i128 = acc * (radix as i128) + (d as i128);
                    if next > limit {
                        over = true;
                    } else {
                        acc = next;
                    }
                } else {
                    proof {
                        match digits_value(pre, radix as nat) {
                            Some(v) => {
                                assert(v * radix + d >= v) by (nonlinear_arith)
                                    requires v > 0, radix >= 2, d >= 0;
                            },
                            None => {},
                        }
                    }
                }
            },
        }
        j = j + 1;
    }
    assert(s@.subrange(i as int, s@.len() as int) =~= body);
    if over {
        return None;
    }
    if neg {
        Some((0 - acc) as i64)
    } else if acc == limit {
        None
    } else {
        Some(acc as i64)
    }
}

/// Once a prefix holds a non-digit, so does every longer prefix.
proof fn lemma_none_extends(s: Seq<char>, k: int, radix: nat)
    requires
        0 <= k <= s.len(),
        digits_value(s.subrange(0, k), radix) is None,
    ensures
        digits_value(s, radix) is None,
    decreases s.len() - k,
{
    if k < s.len() {
        let nxt = s.subrange(0, k + 1);
        assert(nxt.drop_last() =~= s.subrange(0, k));
        lemma_none_extends(s, k + 1, radix);
    } else {
        assert(s.subrange(0, k) =~= s);
    }
}

/// The `i64` value of an integer literal's text.
pub fn int_literal_value(text: &str) -> (v: i64)
    ensures
        v as int == int_literal_spec(text@),
{
    let raw = chars_of(text);
    let mut c: Vec<char> = Vec::new();
    let mut i: usize = 0;
    while i < raw.len()
        invariant
            i <= raw@.len(),
            raw@ == text@,
            c@ == strip_underscores(raw@.subrange(0, i as int)),
        decreases raw@.len() - i,
    {
        proof {
            let p = raw@.subrange(0, i as int);
            let q = raw@.subrange(0, i + 1);
            assert(q.drop_last() =~= p);
        }
        if raw[i] != '_' {
            c.push(raw[i]);
        }
        i = i + 1;
    }
    assert(raw@.subrange(0, raw@.len() as int) =~= raw@);
    if c.len() >= 2 && c[0] == '0' && (c[1] == 'b' || c[1] == 'B') {
        match parse_radix(&c, 2, 2) {
            Some(v) => v,
            None => 0,
        }
    } else if c.len() >= 2 && c[0] == '0' && (c[1] == 'o' || c[1] == 'O') {
        match parse_radix(&c, 2, 8) {
            Some(v) => v,
            None => 0,
        }
    } else if c.len() >= 2 && c[0] == '0' && (c[1] == 'x' || c[1] == 'X') {
        match parse_radix(&c, 2, 16) {
            Some(v) => v,
            None => 0,
        }
    } else {
        assert(c@.skip(0) =~= c@);
        match parse_radix(&c, 0, 10) {
            Some(v) => v,
            None => i64::MAX,
        }
    }
}

} // verus!
