//! ANSI colour codes and the styled strings built from them.
use vstd::prelude::*;
use crate::text::{chars_of, dec_str, push_char, usize_to_string};

verus! {

/// ANSI colour and style escape sequences.
pub struct Colors;

impl Colors {
    pub const RESET: &'static str = "\x1b[0m";
    pub const BOLD: &'static str = "\x1b[1m";
    pub const DIM: &'static str = "\x1b[2m";
    pub const ITALIC: &'static str = "\x1b[3m";
    pub const UNDERLINE: &'static str = "\x1b[4m";
    pub const BLACK: &'static str = "\x1b[30m";
    pub const RED: &'static str = "\x1b[31m";
    pub const GREEN: &'static str = "\x1b[32m";
    pub const YELLOW: &'static str = "\x1b[33m";
    pub const BLUE: &'static str = "\x1b[34m";
    pub const MAGENTA: &'static str = "\x1b[35m";
    pub const CYAN: &'static str = "\x1b[36m";
    pub const WHITE: &'static str = "\x1b[37m";
    pub const BRIGHT_BLACK: &'static str = "\x1b[90m";
    pub const BRIGHT_RED: &'static str = "\x1b[91m";
    pub const BRIGHT_GREEN: &'static str = "\x1b[92m";
    pub const BRIGHT_YELLOW: &'static str = "\x1b[93m";
    pub const BRIGHT_BLUE: &'static str = "\x1b[94m";
    pub const BRIGHT_MAGENTA: &'static str = "\x1b[95m";
    pub const BRIGHT_CYAN: &'static str = "\x1b[96m";
    pub const BRIGHT_WHITE: &'static str = "\x1b[97m";
    pub const BG_RED: &'static str = "\x1b[41m";
    pub const BG_GREEN: &'static str = "\x1b[42m";
    pub const BG_YELLOW: &'static str = "\x1b[43m";
    pub const BG_BLUE: &'static str = "\x1b[44m";
}

pub open spec fn reset() -> Seq<char> { seq!['\x1b', '[', '0', 'm'] }
pub open spec fn esc2(a: char, b: char) -> Seq<char> { seq!['\x1b', '[', a, b, 'm'] }

/// A new string holding `a` followed by `b`.
fn join(a: &str, b: &str) -> (s: String)
    ensures
        s@ == a@ + b@,
{
    let mut s = String::from_str(a);
    s.append(b);
    s
}

/// Appends `b` to `s`.
fn append(s: &mut String, b: &str)
    ensures
        final(s)@ == old(s)@ + b@,
{
    s.append(b);
}

/// Styled message helpers.
pub struct Styles;

impl Styles {
    /// Green check mark, then the text.
    pub fn success(text: &str) -> (s: String)
        ensures
            s@ == esc2('3', '2') + seq!['✓'] + reset() + seq![' '] + text@,
    {
        let mut s = String::from_str(Colors::GREEN);
        append(&mut s, "✓");
        append(&mut s, Colors::RESET);
        append(&mut s, " ");
        append(&mut s, text);
        proof {
            reveal_strlit("\x1b[32m");
            reveal_strlit("✓");
            reveal_strlit("\x1b[0m");
            reveal_strlit(" ");
        }
        s
    }

    /// Red bold "✗ Error:" label, then the text.
    pub fn error(text: &str) -> (s: String)
        ensures
            s@ == esc2('3', '1') + seq!['\x1b', '[', '1', 'm'] + "✗ Error:"@ + reset() + seq![' '] + text@,
    {
        let mut s = String::from_str(Colors::RED);
        append(&mut s, Colors::BOLD);
        append(&mut s, "✗ Error:");
        append(&mut s, Colors::RESET);
        append(&mut s, " ");
        append(&mut s, text);
        proof {
            reveal_strlit("\x1b[31m");
            reveal_strlit("\x1b[1m");
            reveal_strlit("\x1b[0m");
            reveal_strlit(" ");
        }
        s
    }

    /// Yellow "⚠ Warning:" label, then the text.
    pub fn warning(text: &str) -> (s: String)
        ensures
            s@ == esc2('3', '3') + "⚠ Warning:"@ + reset() + seq![' '] + text@,
    {
        let mut s = String::from_str(Colors::YELLOW);
        append(&mut s, "⚠ Warning:");
        append(&mut s, Colors::RESET);
        append(&mut s, " ");
        append(&mut s, text);
        proof {
            reveal_strlit("\x1b[33m");
            reveal_strlit("\x1b[0m");
            reveal_strlit(" ");
        }
        s
    }

    /// Cyan "ℹ Info:" label, then the text.
    pub fn info(text: &str) -> (s: String)
        ensures
            s@ == esc2('3', '6') + "ℹ Info:"@ + reset() + seq![' '] + text@,
    {
        let mut s = String::from_str(Colors::CYAN);
        append(&mut s, "ℹ Info:");
        append(&mut s, Colors::RESET);
        append(&mut s, " ");
        append(&mut s, text);
        proof {
            reveal_strlit("\x1b[36m");
            reveal_strlit("\x1b[0m");
            reveal_strlit(" ");
        }
        s
    }

    /// Bright cyan bold text and a line break.
    pub fn header(text: &str) -> (s: String)
        ensures
            s@ == esc2('9', '6') + seq!['\x1b', '[', '1', 'm'] + text@ + reset() + seq!['\n'],
    {
        let mut s = String::from_str(Colors::BRIGHT_CYAN);
        append(&mut s, Colors::BOLD);
        append(&mut s, text);
        append(&mut s, Colors::RESET);
        append(&mut s, "\n");
        proof {
            reveal_strlit("\x1b[96m");
            reveal_strlit("\x1b[1m");
            reveal_strlit("\x1b[0m");
            reveal_strlit("\n");
        }
        s
    }

    /// The text wrapped in a colour code and a reset.
    fn wrap(color: &str, text: &str) -> (s: String)
        ensures
            s@ == color@ + text@ + reset(),
    {
        let mut s = String::from_str(color);
        append(&mut s, text);
        append(&mut s, Colors::RESET);
        proof {
            reveal_strlit("\x1b[0m");
        }
        s
    }

    /// Bright blue text.
    pub fn keyword(text: &str) -> (s: String)
        ensures
            s@ == esc2('9', '4') + text@ + reset(),
    {
        proof { reveal_strlit("\x1b[94m"); }
        Self::wrap(Colors::BRIGHT_BLUE, text)
    }

    /// Bright green text.
    pub fn string(text: &str) -> (s: String)
        ensures
            s@ == esc2('9', '2') + text@ + reset(),
    {
        proof { reveal_strlit("\x1b[92m"); }
        Self::wrap(Colors::BRIGHT_GREEN, text)
    }

    /// Bright yellow text.
    pub fn number(text: &str) -> (s: String)
        ensures
            s@ == esc2('9', '3') + text@ + reset(),
    {
        proof { reveal_strlit("\x1b[93m"); }
        Self::wrap(Colors::BRIGHT_YELLOW, text)
    }

    /// Cyan text.
    pub fn path(text: &str) -> (s: String)
        ensures
            s@ == esc2('3', '6') + text@ + reset(),
    {
        proof { reveal_strlit("\x1b[36m"); }
        Self::wrap(Colors::CYAN, text)
    }

    /// The code between spaces on a red background.
    pub fn error_code(code: &str) -> (s: String)
        ensures
            s@ == esc2('4', '1') + seq![' '] + code@ + seq![' '] + reset(),
    {
        let mut s = String::from_str(Colors::BG_RED);
        append(&mut s, " ");
        append(&mut s, code);
        append(&mut s, " ");
        append(&mut s, Colors::RESET);
        proof {
            reveal_strlit("\x1b[41m");
            reveal_strlit(" ");
            reveal_strlit("\x1b[0m");
        }
        s
    }

    /// A dim line of 80 box-drawing dashes.
    pub fn separator() -> (s: String)
        ensures
            s@ == seq!['\x1b', '[', '2', 'm'] + Seq::new(80, |i: int| '─') + reset(),
    {
        let mut s = String::from_str(Colors::DIM);
        let ghost start = s@;
        let mut k: usize = 0;
        while k < 80
            invariant
                k <= 80,
                s@ == start + Seq::new(k as nat, |i: int| '─'),
            decreases 80 - k,
        {
            push_char(&mut s, '─');
            assert(Seq::new((k + 1) as nat, |i: int| '─') =~= Seq::new(k as nat, |i: int| '─').push('─'));
            k = k + 1;
        }
        append(&mut s, Colors::RESET);
        proof {
            reveal_strlit("\x1b[2m");
            reveal_strlit("\x1b[0m");
        }
        s
    }

    /// Bright magenta bold "▶ " and the text, then a line break.
    pub fn section_title(text: &str) -> (s: String)
        ensures
            s@ == esc2('9', '5') + seq!['\x1b', '[', '1', 'm'] + "▶ "@ + text@ + reset() + seq!['\n'],
    {
        let mut s = String::from_str(Colors::BRIGHT_MAGENTA);
        append(&mut s, Colors::BOLD);
        append(&mut s, "▶ ");
        append(&mut s, text);
        append(&mut s, Colors::RESET);
        append(&mut s, "\n");
        proof {
            reveal_strlit("\x1b[95m");
            reveal_strlit("\x1b[1m");
            reveal_strlit("\x1b[0m");
            reveal_strlit("\n");
        }
        s
    }
}

/// The error line, then for a known file a dim `file:line:column` line (missing numbers
/// read 0).
pub open spec fn error_message_spec(msg: Seq<char>, file: Option<Seq<char>>, line: Option<usize>, column: Option<usize>) -> Seq<char> {
    let head = esc2('3', '1') + "Error:"@ + reset() + seq![' '] + msg + seq!['\n'];
    match file {
        Some(f) => head + seq![' ', ' '] + seq!['\x1b', '[', '2', 'm'] + seq![' '] + f + seq![':']
            + dec_str(unwrap_usize(line) as nat) + seq![':'] + dec_str(unwrap_usize(column) as nat)
            + seq!['\n'] + reset(),
        None => head,
    }
}

pub open spec fn unwrap_usize(o: Option<usize>) -> usize {
    match o {
        Some(v) => v,
        None => 0,
    }
}

/// A message for an error, with its location when the file is known.
pub fn format_error_message(error_msg: &str, file: Option<&str>, line: Option<usize>, column: Option<usize>) -> (s: String)
    ensures
        s@ == error_message_spec(error_msg@, match file { Some(f) => Some(f@), None => None }, line, column),
{
    let mut output = String::from_str(Colors::RED);
    append(&mut output, "Error:");
    append(&mut output, Colors::RESET);
    append(&mut output, " ");
    append(&mut output, error_msg);
    append(&mut output, "\n");
    proof {
        reveal_strlit("\x1b[31m");
        reveal_strlit("\x1b[0m");
        reveal_strlit(" ");
        reveal_strlit("\n");
        reveal_strlit("  ");
        reveal_strlit(":");
        reveal_strlit("\x1b[2m");
    }
    if let Some(f) = file {
        let l = match line { Some(v) => v, None => 0 };
        let c = match column { Some(v) => v, None => 0 };
        append(&mut output, "  ");
        append(&mut output, Colors::DIM);
        append(&mut output, " ");
        append(&mut output, f);
        append(&mut output, ":");
        let ls = usize_to_string(l);
        append(&mut output, ls.as_str());
        append(&mut output, ":");
        let cs = usize_to_string(c);
        append(&mut output, cs.as_str());
        append(&mut output, "\n");
        append(&mut output, Colors::RESET);
    }
    output
}


/// Whether a character has the Unicode `Alphabetic` property.
pub uninterp spec fn unicode_alphabetic(c: char) -> bool;

/// Whether a character is alphabetic or numeric in Unicode's sense.
pub uninterp spec fn unicode_alphanumeric(c: char) -> bool;

/// An ASCII letter.
pub open spec fn ascii_letter(c: char) -> bool {
    ('a' <= c && c <= 'z') || ('A' <= c && c <= 'Z')
}

/// Alphabetic, as `char::is_alphabetic` answers: the ASCII letters, which std documents as
/// alphabetic, and any other character with the Unicode property.
pub open spec fn alphabetic(c: char) -> bool {
    ascii_letter(c) || unicode_alphabetic(c)
}

/// Alphanumeric, as `char::is_alphanumeric` answers: ASCII letters and digits, and any other
/// character that Unicode counts as alphabetic or numeric.
pub open spec fn alphanumeric(c: char) -> bool {
    ascii_letter(c) || ascii_digit(c) || unicode_alphanumeric(c)
}

/// `char::is_alphabetic`; std documents the ASCII letters as alphabetic, and every
/// alphabetic character as alphanumeric too.
#[verifier::external_body]
fn char_is_alphabetic(c: char) -> (b: bool)
    ensures
        b == unicode_alphabetic(c),
        ascii_letter(c) ==> b,
        b ==> unicode_alphanumeric(c),
{
    c.is_alphabetic()
}

/// `char::is_alphanumeric`; std documents the ASCII letters and digits as alphanumeric.
#[verifier::external_body]
fn char_is_alphanumeric(c: char) -> (b: bool)
    ensures
        b == unicode_alphanumeric(c),
        ascii_letter(c) || ascii_digit(c) ==> b,
{
    c.is_alphanumeric()
}

pub open spec fn ascii_digit(c: char) -> bool {
    '0' <= c && c <= '9'
}

/// The end of a quoted string whose text starts at `j`: a backslash takes the next
/// character with it, and the closing quote is included.
pub open spec fn quoted_end(s: Seq<char>, j: int, q: char) -> int
    decreases s.len() - j,
{
    if j >= s.len() || j < 0 {
        s.len() as int
    } else if s[j] == '\\' && j + 1 < s.len() {
        quoted_end(s, j + 2, q)
    } else if s[j] == q {
        j + 1
    } else {
        quoted_end(s, j + 1, q)
    }
}

/// The end of the run of ASCII digits from `j`.
pub open spec fn digits_end(s: Seq<char>, j: int) -> int
    decreases s.len() - j,
{
    if 0 <= j < s.len() && ascii_digit(s[j]) {
        digits_end(s, j + 1)
    } else {
        j
    }
}

/// The end of a number from `i`: sign, digits, fraction and exponent.
pub open spec fn number_end(s: Seq<char>, i: int) -> int {
    let j0 = if 0 <= i < s.len() && s[i] == '-' { i + 1 } else { i };
    let j1 = digits_end(s, j0);
    let j2 = if j1 < s.len() && s[j1] == '.' { digits_end(s, j1 + 1) } else { j1 };
    if j2 < s.len() && (s[j2] == 'e' || s[j2] == 'E') {
        let k = j2 + 1;
        let k2 = if k < s.len() && (s[k] == '+' || s[k] == '-') { k + 1 } else { k };
        digits_end(s, k2)
    } else {
        j2
    }
}

/// The end of a word of alphanumeric characters and `_` from `j`.
pub open spec fn word_end(s: Seq<char>, j: int) -> int
    decreases s.len() - j,
{
    if 0 <= j < s.len() && (alphanumeric(s[j]) || s[j] == '_') {
        word_end(s, j + 1)
    } else {
        j
    }
}

pub open spec fn starts_number(s: Seq<char>, i: int) -> bool {
    ascii_digit(s[i]) || (s[i] == '-' && i + 1 < s.len() && ascii_digit(s[i + 1]))
}

/// The input from `i` on with strings in bright green, numbers and `true`, `false`, `null`
/// in bright yellow, other words in cyan and brackets, colons and commas in white.
pub open spec fn colorize_from(s: Seq<char>, i: int) -> Seq<char>
    decreases s.len() - i,
{
    if i < 0 || i >= s.len() {
        Seq::empty()
    } else {
        let ch = s[i];
        if ch == '"' || ch == '\'' {
            let e = quoted_end(s, i + 1, ch);
            if i < e <= s.len() { esc2('9', '2') + s.subrange(i, e) + reset() + colorize_from(s, e) } else { Seq::empty() }
        } else if starts_number(s, i) {
            let e = number_end(s, i);
            if i < e <= s.len() { esc2('9', '3') + s.subrange(i, e) + reset() + colorize_from(s, e) } else { Seq::empty() }
        } else if alphabetic(ch) || ch == '_' {
            let e = word_end(s, i + 1);
            let w = s.subrange(i, e);
            let color = if w == "true"@ || w == "false"@ || w == "null"@ { esc2('9', '3') } else { esc2('3', '6') };
            if i < e <= s.len() { color + w + reset() + colorize_from(s, e) } else { Seq::empty() }
        } else if ch == '{' || ch == '}' || ch == '[' || ch == ']' || ch == ':' || ch == ',' {
            esc2('3', '7') + seq![ch] + reset() + colorize_from(s, i + 1)
        } else {
            seq![ch] + colorize_from(s, i + 1)
        }
    }
}

proof fn lemma_quoted_end_after(s: Seq<char>, j: int, q: char)
    requires
        0 <= j,
    ensures
        quoted_end(s, j, q) >= j || j > s.len(),
        quoted_end(s, j, q) <= s.len() || j > s.len(),
    decreases s.len() - j,
{
    if j < s.len() {
        if s[j] == '\\' && j + 1 < s.len() {
            lemma_quoted_end_after(s, j + 2, q);
        } else if s[j] != q {
            lemma_quoted_end_after(s, j + 1, q);
        }
    }
}

/// The text with every colour code `ESC [ digits m` deleted.
pub open spec fn strip_colors(t: Seq<char>) -> Seq<char>
    decreases t.len(),
{
    if t.len() == 0 {
        Seq::empty()
    } else if t[0] == '\x1b' && t.len() >= 2 && t[1] == '[' && 2 <= digits_end(t, 2) < t.len()
        && t[digits_end(t, 2)] == 'm' {
        strip_colors(t.subrange(digits_end(t, 2) + 1, t.len() as int))
    } else {
        seq![t[0]] + strip_colors(t.subrange(1, t.len() as int))
    }
}

/// No escape character occurs in `t`.
pub open spec fn escape_free(t: Seq<char>) -> bool {
    forall|k: int| 0 <= k < t.len() ==> t[k] != '\x1b'
}

proof fn lemma_digits_end_bounds(s: Seq<char>, j: int)
    requires
        0 <= j <= s.len(),
    ensures
        j <= digits_end(s, j) <= s.len(),
        j < s.len() && ascii_digit(s[j]) ==> digits_end(s, j) > j,
    decreases s.len() - j,
{
    if j < s.len() && ascii_digit(s[j]) {
        lemma_digits_end_bounds(s, j + 1);
    }
}

proof fn lemma_word_end_bounds(s: Seq<char>, j: int)
    requires
        0 <= j <= s.len(),
    ensures
        j <= word_end(s, j) <= s.len(),
    decreases s.len() - j,
{
    if j < s.len() && (alphanumeric(s[j]) || s[j] == '_') {
        lemma_word_end_bounds(s, j + 1);
    }
}

proof fn lemma_number_end_bounds(s: Seq<char>, i: int)
    requires
        0 <= i < s.len(),
        starts_number(s, i),
    ensures
        i < number_end(s, i) <= s.len(),
{
    let j0 = if s[i] == '-' { i + 1 } else { i };
    lemma_digits_end_bounds(s, j0);
    let j1 = digits_end(s, j0);
    if j1 < s.len() && s[j1] == '.' {
        lemma_digits_end_bounds(s, j1 + 1);
    }
    let j2 = if j1 < s.len() && s[j1] == '.' { digits_end(s, j1 + 1) } else { j1 };
    if j2 < s.len() && (s[j2] == 'e' || s[j2] == 'E') {
        let k = j2 + 1;
        let k2 = if k < s.len() && (s[k] == '+' || s[k] == '-') { k + 1 } else { k };
        lemma_digits_end_bounds(s, k2);
    }
}

proof fn lemma_strip_plain(x: Seq<char>, y: Seq<char>)
    requires
        escape_free(x),
    ensures
        strip_colors(x + y) == x + strip_colors(y),
    decreases x.len(),
{
    if x.len() > 0 {
        let t = x + y;
        assert(t[0] == x[0]);
        assert(t.subrange(1, t.len() as int) =~= x.subrange(1, x.len() as int) + y);
        lemma_strip_plain(x.subrange(1, x.len() as int), y);
        assert(x =~= seq![x[0]] + x.subrange(1, x.len() as int));
    } else {
        assert(x + y =~= y);
    }
}

proof fn lemma_strip_code(a: char, b: char, y: Seq<char>)
    requires
        ascii_digit(a),
        ascii_digit(b),
    ensures
        strip_colors(esc2(a, b) + y) == strip_colors(y),
        strip_colors(reset() + y) == strip_colors(y),
{
    let t = esc2(a, b) + y;
    assert(t[2] == a && t[3] == b && t[4] == 'm');
    assert(digits_end(t, 4) == 4);
    assert(digits_end(t, 3) == 4);
    assert(digits_end(t, 2) == 4);
    assert(t.subrange(5, t.len() as int) =~= y);
    let u = reset() + y;
    assert(u[2] == '0' && u[3] == 'm');
    assert(digits_end(u, 3) == 3);
    assert(digits_end(u, 2) == 3);
    assert(u.subrange(4, u.len() as int) =~= y);
}

proof fn lemma_strip_colorized_from(s: Seq<char>, i: int)
    requires
        escape_free(s),
        0 <= i <= s.len(),
    ensures
        strip_colors(colorize_from(s, i)) == s.subrange(i, s.len() as int),
    decreases s.len() - i,
{
    if i < s.len() {
        let ch = s[i];
        let rest = s.subrange(i, s.len() as int);
        if ch == '"' || ch == '\'' {
            lemma_quoted_end_after(s, i + 1, ch);
            let e = quoted_end(s, i + 1, ch);
            lemma_strip_colorized_from(s, e);
            piece(s, i, e, '9', '2', colorize_from(s, e));
            assert(colorize_from(s, i) == esc2('9', '2') + s.subrange(i, e) + reset() + colorize_from(s, e));
        } else if starts_number(s, i) {
            lemma_number_end_bounds(s, i);
            let e = number_end(s, i);
            lemma_strip_colorized_from(s, e);
            piece(s, i, e, '9', '3', colorize_from(s, e));
            assert(colorize_from(s, i) == esc2('9', '3') + s.subrange(i, e) + reset() + colorize_from(s, e));
        } else if alphabetic(ch) || ch == '_' {
            lemma_word_end_bounds(s, i + 1);
            let e = word_end(s, i + 1);
            lemma_strip_colorized_from(s, e);
            let w = s.subrange(i, e);
            if w == "true"@ || w == "false"@ || w == "null"@ {
                piece(s, i, e, '9', '3', colorize_from(s, e));
                assert(colorize_from(s, i) == esc2('9', '3') + s.subrange(i, e) + reset() + colorize_from(s, e));
            } else {
                piece(s, i, e, '3', '6', colorize_from(s, e));
                assert(colorize_from(s, i) == esc2('3', '6') + s.subrange(i, e) + reset() + colorize_from(s, e));
            }
        } else if ch == '{' || ch == '}' || ch == '[' || ch == ']' || ch == ':' || ch == ',' {
            lemma_strip_colorized_from(s, i + 1);
            piece(s, i, i + 1, '3', '7', colorize_from(s, i + 1));
            assert(s.subrange(i, i + 1) =~= seq![ch]);
            assert(colorize_from(s, i) == esc2('3', '7') + s.subrange(i, i + 1) + reset() + colorize_from(s, i + 1));
        } else {
            lemma_strip_colorized_from(s, i + 1);
            lemma_strip_plain(seq![ch], colorize_from(s, i + 1));
            assert(rest =~= seq![ch] + s.subrange(i + 1, s.len() as int));
        }
    } else {
        assert(s.subrange(i, s.len() as int) =~= Seq::<char>::empty());
    }
}

/// A coloured piece `code + s[i..e] + reset` followed by `tail` strips to `s[i..e]` followed
/// by what `tail` strips to.
proof fn piece(s: Seq<char>, i: int, e: int, a: char, b: char, tail: Seq<char>)
    requires
        escape_free(s),
        0 <= i < e <= s.len(),
        ascii_digit(a),
        ascii_digit(b),
        strip_colors(tail) == s.subrange(e, s.len() as int),
    ensures
        strip_colors(esc2(a, b) + s.subrange(i, e) + reset() + tail) == s.subrange(i, s.len() as int),
{
    let w = s.subrange(i, e);
    assert(esc2(a, b) + w + reset() + tail =~= esc2(a, b) + (w + (reset() + tail)));
    lemma_strip_code(a, b, w + (reset() + tail));
    lemma_strip_plain(w, reset() + tail);
    lemma_strip_code(a, b, tail);
    assert(s.subrange(i, s.len() as int) =~= w + s.subrange(e, s.len() as int));
}

/// Deleting the colour codes from a coloured text without escape characters gives the text
/// back: colouring only inserts codes and keeps every character in order.
pub proof fn law_strip_colorized(s: Seq<char>)
    requires
        escape_free(s),
    ensures
        strip_colors(colorize_from(s, 0)) == s,
{
    lemma_strip_colorized_from(s, 0);
    assert(s.subrange(0, s.len() as int) =~= s);
}

fn scan_quoted(s: &Vec<char>, start: usize, q: char) -> (e: usize)
    requires
        start <= s@.len(),
    ensures
        e == quoted_end(s@, start as int, q),
        start <= e <= s@.len(),
{
    let mut j = start;
    while j < s.len()
        invariant
            start <= j <= s@.len() + 1,
            quoted_end(s@, j as int, q) == quoted_end(s@, start as int, q),
        decreases s@.len() - j,
    {
        if s[j] == '\\' && j + 1 < s.len() {
            j = j + 2;
        } else if s[j] == q {
            proof { lemma_quoted_end_after(s@, start as int, q); }
            return j + 1;
        } else {
            j = j + 1;
        }
    }
    proof { lemma_quoted_end_after(s@, start as int, q); }
    s.len()
}

fn scan_digits(s: &Vec<char>, start: usize) -> (e: usize)
    requires
        start <= s@.len(),
    ensures
        e == digits_end(s@, start as int),
        start <= e <= s@.len(),
        start < s@.len() && ascii_digit(s@[start as int]) ==> e > start,
{
    let mut j = start;
    while j < s.len() && '0' <= s[j] && s[j] <= '9'
        invariant
            start <= j <= s@.len(),
            digits_end(s@, j as int) == digits_end(s@, start as int),
        decreases s@.len() - j,
    {
        j = j + 1;
    }
    j
}

fn scan_number(s: &Vec<char>, i: usize) -> (e: usize)
    requires
        i < s@.len(),
    ensures
        e == number_end(s@, i as int),
        i <= e <= s@.len(),
        starts_number(s@, i as int) ==> e > i,
{
    let n = s.len();
    let mut j = i;
    if s[j] == '-' {
        j = j + 1;
    }
    j = scan_digits(s, j);
    if j < s.len() && s[j] == '.' {
        j = scan_digits(s, j + 1);
    }
    if j < s.len() && (s[j] == 'e' || s[j] == 'E') {
        j = j + 1;
        if j < s.len() && (s[j] == '+' || s[j] == '-') {
            j = j + 1;
        }
        j = scan_digits(s, j);
    }
    j
}

fn scan_word(s: &Vec<char>, start: usize) -> (e: usize)
    requires
        start <= s@.len(),
    ensures
        e == word_end(s@, start as int),
        start <= e <= s@.len(),
        start < s@.len() && (alphanumeric(s@[start as int]) || s@[start as int] == '_') ==> e > start,
{
    let mut j = start;
    while j < s.len() && (char_is_alphanumeric(s[j]) || s[j] == '_')
        invariant
            start <= j <= s@.len(),
            word_end(s@, j as int) == word_end(s@, start as int),
        decreases s@.len() - j,
    {
        j = j + 1;
    }
    j
}

/// Appends the characters `s[from..to]`.
fn push_range(out: &mut String, s: &Vec<char>, from: usize, to: usize)
    requires
        from <= to <= s@.len(),
    ensures
        final(out)@ == old(out)@ + s@.subrange(from as int, to as int),
{
    let mut k = from;
    while k < to
        invariant
            from <= k <= to,
            to <= s@.len(),
            out@ == old(out)@ + s@.subrange(from as int, k as int),
        decreases to - k,
    {
        push_char(out, s[k]);
        assert(s@.subrange(from as int, k + 1) =~= s@.subrange(from as int, k as int).push(s@[k as int]));
        k = k + 1;
    }
}

fn range_is(s: &Vec<char>, from: usize, to: usize, w: &str) -> (b: bool)
    requires
        from <= to <= s@.len(),
    ensures
        b == (s@.subrange(from as int, to as int) == w@),
{
    let wc = chars_of(w);
    if to - from != wc.len() {
        return false;
    }
    let mut k: usize = 0;
    while k < wc.len()
        invariant
            k <= wc@.len(),
            wc@ == w@,
            to - from == wc@.len(),
            from <= to <= s@.len(),
            forall|m: int| 0 <= m < k ==> s@[from + m] == wc@[m],
        decreases wc@.len() - k,
    {
        if s[from + k] != wc[k] {
            assert(s@.subrange(from as int, to as int)[k as int] != w@[k as int]);
            return false;
        }
        k = k + 1;
    }
    assert(s@.subrange(from as int, to as int) =~= w@);
    true
}

/// The value's text with JSON-like syntax highlighting.
pub fn format_value(value: &str) -> (s: String)
    ensures
        s@ == colorize_from(value@, 0),
{
    colorize_json_like(value)
}

fn colorize_json_like(input: &str) -> (result: String)
    ensures
        result@ == colorize_from(input@, 0),
{
    let chars = chars_of(input);
    let mut result = String::new();
    let mut i: usize = 0;
    proof {
        reveal_strlit("\x1b[92m");
        reveal_strlit("\x1b[93m");
        reveal_strlit("\x1b[36m");
        reveal_strlit("\x1b[37m");
        reveal_strlit("\x1b[0m");
    }
    while i < chars.len()
        invariant
            chars@ == input@,
            i <= chars@.len(),
            colorize_from(input@, 0) == result@ + colorize_from(input@, i as int),
        decreases chars@.len() - i,
    {
        let ch = chars[i];
        let ghost before = result@;
        proof {
            reveal_strlit("\x1b[92m");
            reveal_strlit("\x1b[93m");
            reveal_strlit("\x1b[36m");
            reveal_strlit("\x1b[37m");
            reveal_strlit("\x1b[0m");
        }
        if ch == '"' || ch == '\'' {
            let e = scan_quoted(&chars, i + 1, ch);
            append(&mut result, Colors::BRIGHT_GREEN);
            push_range(&mut result, &chars, i, e);
            append(&mut result, Colors::RESET);
            assert(result@ + colorize_from(input@, e as int) =~= before + colorize_from(input@, i as int));
            i = e;
            continue;
        }
        if ch == '-' && i + 1 < chars.len() && '0' <= chars[i + 1] && chars[i + 1] <= '9' || '0' <= ch && ch <= '9' {
            let e = scan_number(&chars, i);
            append(&mut result, Colors::BRIGHT_YELLOW);
            push_range(&mut result, &chars, i, e);
            append(&mut result, Colors::RESET);
            assert(result@ + colorize_from(input@, e as int) =~= before + colorize_from(input@, i as int));
            i = e;
            continue;
        }
        if char_is_alphabetic(ch) || ch == '_' {
            let e = scan_word(&chars, i);
            assert(word_end(input@, i as int) == word_end(input@, i + 1));
            if range_is(&chars, i, e, "true") || range_is(&chars, i, e, "false") || range_is(&chars, i, e, "null") {
                append(&mut result, Colors::BRIGHT_YELLOW);
            } else {
                append(&mut result, Colors::CYAN);
            }
            push_range(&mut result, &chars, i, e);
            append(&mut result, Colors::RESET);
            assert(result@ + colorize_from(input@, e as int) =~= before + colorize_from(input@, i as int));
            i = e;
            continue;
        }
        if ch == '{' || ch == '}' || ch == '[' || ch == ']' || ch == ':' || ch == ',' {
            append(&mut result, Colors::WHITE);
            push_char(&mut result, ch);
            append(&mut result, Colors::RESET);
        } else {
            push_char(&mut result, ch);
        }
        assert(result@ + colorize_from(input@, i + 1) =~= before + colorize_from(input@, i as int));
        i = i + 1;
    }
    assert(result@ + colorize_from(input@, i as int) =~= result@);
    result
}


/// The screen-clearing sequence: erase the display, cursor home.
pub fn clear_screen_text() -> (s: String)
    ensures
        s@ == "\x1b[2J\x1b[H"@,
{
    "\x1b[2J\x1b[H".to_string()
}

/// The interactive shell's welcome banner: an empty line, the bold bright-cyan title, and
/// the dim version line followed by an empty line.
pub fn welcome_banner_text() -> (s: String)
    ensures
        s@ == "\n"@ + Colors::BRIGHT_CYAN@ + Colors::BOLD@ + "\u{1F99D} Raccoon Language - Interactive Shell"@
            + Colors::RESET@ + "\n"@ + Colors::DIM@ + "v1.0.0 | Type 'help' for assistance | 'exit' to quit"@
            + Colors::RESET@ + "\n\n"@,
{
    let a = crate::text::concat2("\n", Colors::BRIGHT_CYAN);
    let a = crate::text::concat2(a.as_str(), Colors::BOLD);
    let a = crate::text::concat2(a.as_str(), "\u{1F99D} Raccoon Language - Interactive Shell");
    let a = crate::text::concat2(a.as_str(), Colors::RESET);
    let a = crate::text::concat2(a.as_str(), "\n");
    let a = crate::text::concat2(a.as_str(), Colors::DIM);
    let a = crate::text::concat2(a.as_str(), "v1.0.0 | Type 'help' for assistance | 'exit' to quit");
    let a = crate::text::concat2(a.as_str(), Colors::RESET);
    crate::text::concat2(a.as_str(), "\n\n")
}

/// The interactive shell's farewell: the bold bright-cyan goodbye between empty lines.
pub fn goodbye_text() -> (s: String)
    ensures
        s@ == "\n"@ + Colors::BRIGHT_CYAN@ + Colors::BOLD@ + "\u{1F44B} Goodbye!"@ + Colors::RESET@ + "\n\n"@,
{
    let a = crate::text::concat2("\n", Colors::BRIGHT_CYAN);
    let a = crate::text::concat2(a.as_str(), Colors::BOLD);
    let a = crate::text::concat2(a.as_str(), "\u{1F44B} Goodbye!");
    let a = crate::text::concat2(a.as_str(), Colors::RESET);
    crate::text::concat2(a.as_str(), "\n\n")
}

} // verus!
