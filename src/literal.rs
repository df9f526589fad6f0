//! The value of a string literal written in source form: a quoted string with
//! its escapes, or a raw string.
use vstd::prelude::*;
use vstd::string::*;
use vstd::utf8::*;

verus! {

/// An ASCII hexadecimal digit.
pub open spec fn is_hex_digit(c: char) -> bool {
    ('0' <= c <= '9') || ('a' <= c <= 'f') || ('A' <= c <= 'F')
}

/// The value of an ASCII hexadecimal digit.
pub open spec fn hex_digit_value(c: char) -> int {
    if '0' <= c <= '9' {
        c as int - '0' as int
    } else if 'a' <= c <= 'f' {
        c as int - 'a' as int + 10
    } else {
        c as int - 'A' as int + 10
    }
}

/// Whitespace that a backslash at the end of a line skips.
pub open spec fn is_ascii_whitespace(c: char) -> bool {
    c == ' ' || c == '\t' || c == '\n' || c == '\r'
}

/// The first index from `j` on that holds no ASCII whitespace.
pub open spec fn skip_whitespace(s: Seq<char>, j: int) -> int
    decreases s.len() - j,
{
    if 0 <= j < s.len() && is_ascii_whitespace(s[j]) {
        skip_whitespace(s, j + 1)
    } else {
        j
    }
}

/// The first index from `j` on that holds neither a hexadecimal digit nor `_`.
pub open spec fn hex_run_end(s: Seq<char>, j: int) -> int
    decreases s.len() - j,
{
    if 0 <= j < s.len() && (is_hex_digit(s[j]) || s[j] == '_') {
        hex_run_end(s, j + 1)
    } else {
        j
    }
}

/// The number of hexadecimal digits in `s[a..b]`.
pub open spec fn hex_count(s: Seq<char>, a: int, b: int) -> nat
    decreases b - a,
{
    if b <= a {
        0
    } else if s[b - 1] == '_' {
        hex_count(s, a, b - 1)
    } else {
        hex_count(s, a, b - 1) + 1
    }
}

/// The number that the hexadecimal digits in `s[a..b]` denote, `_` skipped.
pub open spec fn hex_number(s: Seq<char>, a: int, b: int) -> int
    decreases b - a,
{
    if b <= a {
        0
    } else if s[b - 1] == '_' {
        hex_number(s, a, b - 1)
    } else {
        hex_number(s, a, b - 1) * 16 + hex_digit_value(s[b - 1])
    }
}

/// The character of a one-letter escape such as `\n`.
pub open spec fn simple_escape(e: char) -> Option<char> {
    if e == 'n' {
        Some('\n')
    } else if e == 'r' {
        Some('\r')
    } else if e == 't' {
        Some('\t')
    } else if e == '\\' {
        Some('\\')
    } else if e == '0' {
        Some('\0')
    } else if e == '\'' {
        Some('\'')
    } else if e == '"' {
        Some('"')
    } else {
        None
    }
}

/// A `\u{...}` escape starting at `i`: one to six hexadecimal digits, `_`
/// allowed after the first, naming a Unicode scalar value.
pub open spec fn unicode_escape(s: Seq<char>, i: int) -> Option<(Seq<char>, int)> {
    let a = i + 3;
    let close = hex_run_end(s, a);
    if a < s.len() && s[i + 2] == '{' && s[a] != '_' && close < s.len() && s[close] == '}'
        && 1 <= hex_count(s, a, close) <= 6 && hex_number(s, a, close) <= 0x10FFFF && is_scalar(
        hex_number(s, a, close) as u32,
    ) {
        Some((seq![(hex_number(s, a, close) as u32) as char], close + 1))
    } else {
        None
    }
}

/// The characters that the source unit at `i` of a quoted string's body
/// stands for, and the index after the unit; `None` where no valid unit
/// starts there.
pub open spec fn escape_unit(s: Seq<char>, i: int) -> Option<(Seq<char>, int)> {
    let c = s[i];
    if c == '"' {
        None
    } else if c != '\\' {
        Some((seq![c], i + 1))
    } else if i + 1 >= s.len() {
        None
    } else if simple_escape(s[i + 1]) is Some {
        Some((seq![simple_escape(s[i + 1])->Some_0], i + 2))
    } else if s[i + 1] == 'x' {
        if i + 3 < s.len() && '0' <= s[i + 2] <= '7' && is_hex_digit(s[i + 3]) {
            Some(
                (
                    seq![((hex_digit_value(s[i + 2]) * 16 + hex_digit_value(s[i + 3])) as u32) as char],
                    i + 4,
                ),
            )
        } else {
            None
        }
    } else if s[i + 1] == '\n' {
        Some((Seq::empty(), skip_whitespace(s, i + 2)))
    } else if s[i + 1] == 'u' {
        unicode_escape(s, i)
    } else {
        None
    }
}

/// The value of the body `s` of a quoted string from index `i` on, with its
/// escapes interpreted; `None` where it is not a valid body.
pub open spec fn unescape_from(s: Seq<char>, i: int) -> Option<Seq<char>>
    decreases s.len() - i,
{
    if i < 0 || i >= s.len() {
        Some(Seq::empty())
    } else {
        match escape_unit(s, i) {
            Some((p, j)) => if i < j <= s.len() {
                match unescape_from(s, j) {
                    Some(r) => Some(p + r),
                    None => None,
                }
            } else {
                None
            },
            None => None,
        }
    }
}

/// The first index from `j` on that holds no `#`.
pub open spec fn hash_run_end(t: Seq<char>, j: int) -> int
    decreases t.len() - j,
{
    if 0 <= j < t.len() && t[j] == '#' {
        hash_run_end(t, j + 1)
    } else {
        j
    }
}

/// The string that a string literal in source form denotes: `"..."` with its
/// escapes interpreted, or a raw string `r"..."`, `r#"..."#`, and so on,
/// taken as it stands. `None` for any other text.
pub open spec fn literal_value(t: Seq<char>) -> Option<Seq<char>> {
    let n = t.len();
    if n >= 2 && t[0] == '"' && t[n - 1] == '"' {
        unescape_from(t.subrange(1, n - 1), 0)
    } else if n >= 1 && t[0] == 'r' {
        let q = hash_run_end(t, 1);
        let h = q - 1;
        if n >= 2 * h + 3 && t[q] == '"' && t[n - 1 - h] == '"' && (forall|k: int|
            n - h <= k < n ==> #[trigger] t[k] == '#') {
            Some(t.subrange(q + 1, n - 1 - h))
        } else {
            None
        }
    } else {
        None
    }
}

/// Relies on `char::from_u32`: a character exactly for a Unicode scalar
/// value, whose code is that value.
#[verifier::external_body]
fn char_from_u32(v: u32) -> (r: Option<char>)
    ensures
        r is Some <==> is_scalar(v),
        r matches Some(c) ==> c as u32 == v,
{
    char::from_u32(v)
}

/// Relies on `String::push`: appends one character.
#[verifier::external_body]
fn push_char(s: &mut String, c: char)
    ensures
        final(s)@ == old(s)@.push(c),
{
    s.push(c)
}

/// `p` put in front of the string in `o`, if there is one.
pub open spec fn prepend(p: Seq<char>, o: Option<Seq<char>>) -> Option<Seq<char>> {
    match o {
        Some(r) => Some(p + r),
        None => None,
    }
}

proof fn lemma_prepend_assoc(a: Seq<char>, b: Seq<char>, o: Option<Seq<char>>)
    ensures
        prepend(a, prepend(b, o)) == prepend(a + b, o),
{
    if let Some(r) = o {
        assert((a + b) + r =~= a + (b + r));
    }
}

fn hex_value(c: char) -> (r: Option<u32>)
    ensures
        r is Some <==> is_hex_digit(c),
        r matches Some(v) ==> v == hex_digit_value(c),
{
    if '0' <= c && c <= '9' {
        Some((c as u32) - ('0' as u32))
    } else if 'a' <= c && c <= 'f' {
        Some((c as u32) - ('a' as u32) + 10)
    } else if 'A' <= c && c <= 'F' {
        Some((c as u32) - ('A' as u32) + 10)
    } else {
        None
    }
}

fn is_hex_or_underscore(c: char) -> (r: bool)
    ensures
        r == (is_hex_digit(c) || c == '_'),
{
    c == '_' || hex_value(c).is_some()
}

fn is_space(c: char) -> (r: bool)
    ensures
        r == is_ascii_whitespace(c),
{
    c == ' ' || c == '\t' || c == '\n' || c == '\r'
}

/// Reads a `\u{...}` escape that starts at `i`.
fn read_unicode_escape(s: &Vec<char>, i: usize) -> (r: Option<(char, usize)>)
    requires
        i + 1 < s@.len(),
    ensures
        match unicode_escape(s@, i as int) {
            Some((p, j)) => r matches Some((c, k)) && p == seq![c] && k == j && i < k <= s@.len(),
            None => r is None,
        },
{
    let n = s.len();
    if n - i <= 3 || s[i + 2] != '{' || s[i + 3] == '_' {
        return None;
    }
    let a = i + 3;
    let mut k = a;
    let mut count: usize = 0;
    // `acc` is the number read so far, or 0x110000 once it has passed 0x10FFFF.
    let mut acc: u32 = 0;
    while k < n && is_hex_or_underscore(s[k])
        invariant
            n == s@.len(),
            a < n,
            a <= k <= n,
            hex_run_end(s@, a as int) == hex_run_end(s@, k as int),
            count == hex_count(s@, a as int, k as int),
            count <= k - a,
            acc == if hex_number(s@, a as int, k as int) > 0x10FFFF {
                0x110000
            } else {
                hex_number(s@, a as int, k as int)
            },
        decreases n - k,
    {
        let c = s[k];
        if let Some(d) = hex_value(c) {
            count = count + 1;
            if acc <= 0x10FFFF {
                acc = acc * 16 + d;
                if acc > 0x10FFFF {
                    acc = 0x110000;
                }
            }
        }
        k = k + 1;
    }
    if k >= n || s[k] != '}' || count == 0 || count > 6 || acc > 0x10FFFF {
        return None;
    }
    match char_from_u32(acc) {
        Some(c) => {
            proof {
                char_u32_cast(c, acc);
            }
            Some((c, k + 1))
        },
        None => None,
    }
}

/// Reads the source unit of a quoted string's body that starts at `i`: the
/// character it stands for, if any, and the index after it.
fn read_unit(s: &Vec<char>, i: usize) -> (r: Option<(Option<char>, usize)>)
    requires
        i < s@.len(),
    ensures
        match escape_unit(s@, i as int) {
            Some((p, j)) => r matches Some((c, k)) && k == j && i < k <= s@.len() && p == match c {
                Some(x) => seq![x],
                None => Seq::empty(),
            },
            None => r is None,
        },
{
    let n = s.len();
    let c = s[i];
    if c == '"' {
        return None;
    }
    if c != '\\' {
        return Some((Some(c), i + 1));
    }
    if i + 1 >= n {
        return None;
    }
    let e = s[i + 1];
    if e == 'n' {
        Some((Some('\n'), i + 2))
    } else if e == 'r' {
        Some((Some('\r'), i + 2))
    } else if e == 't' {
        Some((Some('\t'), i + 2))
    } else if e == '\\' {
        Some((Some('\\'), i + 2))
    } else if e == '0' {
        Some((Some('\0'), i + 2))
    } else if e == '\'' {
        Some((Some('\''), i + 2))
    } else if e == '"' {
        Some((Some('"'), i + 2))
    } else if e == 'x' {
        if n - i <= 3 || !('0' <= s[i + 2] && s[i + 2] <= '7') {
            return None;
        }
        let lo = match hex_value(s[i + 3]) {
            Some(d) => d,
            None => {
                return None;
            },
        };
        let v = ((s[i + 2] as u32) - ('0' as u32)) * 16 + lo;
        match char_from_u32(v) {
            Some(x) => {
                proof {
                    char_u32_cast(x, v);
                }
                Some((Some(x), i + 4))
            },
            None => None,
        }
    } else if e == '\n' {
        let mut k = i + 2;
        while k < n && is_space(s[k])
            invariant
                n == s@.len(),
                i + 2 <= k <= n,
                skip_whitespace(s@, i + 2) == skip_whitespace(s@, k as int),
            decreases n - k,
        {
            k = k + 1;
        }
        Some((None, k))
    } else if e == 'u' {
        match read_unicode_escape(s, i) {
            Some((x, k)) => Some((Some(x), k)),
            None => None,
        }
    } else {
        None
    }
}

/// The value of a quoted string's body, with its escapes interpreted.
fn unescape(s: &Vec<char>) -> (r: Option<String>)
    ensures
        r is Some <==> unescape_from(s@, 0) is Some,
        r matches Some(v) ==> unescape_from(s@, 0) == Some(v@),
{
    let mut out = String::new();
    let mut i: usize = 0;
    while i < s.len()
        invariant
            i <= s@.len(),
            unescape_from(s@, 0) == prepend(out@, unescape_from(s@, i as int)),
        decreases s@.len() - i,
    {
        match read_unit(s, i) {
            None => {
                return None;
            },
            Some((c, k)) => {
                let ghost before = out@;
                let ghost p = match c {
                    Some(x) => seq![x],
                    None => Seq::<char>::empty(),
                };
                if let Some(x) = c {
                    push_char(&mut out, x);
                }
                assert(out@ =~= before + p);
                proof {
                    lemma_prepend_assoc(before, p, unescape_from(s@, k as int));
                }
                i = k;
            },
        }
    }
    assert(out@ + Seq::<char>::empty() =~= out@);
    Some(out)
}

/// The characters of `text`, one by one.
fn chars_of(text: &str) -> (r: Vec<char>)
    ensures
        r@ == text@,
{
    let n = text.unicode_len();
    let mut out: Vec<char> = Vec::new();
    let mut i: usize = 0;
    while i < n
        invariant
            n == text@.len(),
            i <= n,
            out@ == text@.take(i as int),
        decreases n - i,
    {
        out.push(text.get_char(i));
        i = i + 1;
        assert(out@ =~= text@.take(i as int));
    }
    assert(text@.take(n as int) =~= text@);
    out
}

/// The characters `cs[a..b]`.
fn chars_between(cs: &Vec<char>, a: usize, b: usize) -> (r: Vec<char>)
    requires
        a <= b <= cs@.len(),
    ensures
        r@ == cs@.subrange(a as int, b as int),
{
    let mut out: Vec<char> = Vec::new();
    let mut k = a;
    while k < b
        invariant
            a <= k <= b,
            b <= cs@.len(),
            out@ == cs@.subrange(a as int, k as int),
        decreases b - k,
    {
        out.push(cs[k]);
        k = k + 1;
        assert(out@ =~= cs@.subrange(a as int, k as int));
    }
    out
}

/// The characters `cs[a..b]` as a string.
fn string_of(cs: &Vec<char>, a: usize, b: usize) -> (r: String)
    requires
        a <= b <= cs@.len(),
    ensures
        r@ == cs@.subrange(a as int, b as int),
{
    let mut out = String::new();
    let mut k = a;
    while k < b
        invariant
            a <= k <= b,
            b <= cs@.len(),
            out@ == cs@.subrange(a as int, k as int),
        decreases b - k,
    {
        push_char(&mut out, cs[k]);
        k = k + 1;
        assert(out@ =~= cs@.subrange(a as int, k as int));
    }
    out
}

/// The string that a string literal in source form denotes.
pub fn literal_text(text: &str) -> (r: Option<String>)
    ensures
        r is Some <==> literal_value(text@) is Some,
        r matches Some(v) ==> literal_value(text@) == Some(v@),
{
    let t = chars_of(text);
    let n = t.len();
    if n >= 2 && t[0] == '"' && t[n - 1] == '"' {
        let body = chars_between(&t, 1, n - 1);
        return unescape(&body);
    }
    if n == 0 || t[0] != 'r' {
        return None;
    }
    let mut q: usize = 1;
    while q < n && t[q] == '#'
        invariant
            n == t@.len(),
            1 <= q <= n,
            hash_run_end(t@, 1) == hash_run_end(t@, q as int),
        decreases n - q,
    {
        q = q + 1;
    }
    assert(hash_run_end(t@, q as int) == q);
    let h = q - 1;
    if n < 3 || h > (n - 3) / 2 || t[q] != '"' || t[n - 1 - h] != '"' {
        return None;
    }
    let mut k = n - h;
    while k < n
        invariant
            n == t@.len(),
            t@ == text@,
            t@[0] == 'r',
            h == q - 1,
            q == hash_run_end(text@, 1),
            n >= 2 * h + 3,
            t@[q as int] == '"',
            t@[n - 1 - h] == '"',
            n - h <= k <= n,
            forall|j: int| n - h <= j < k ==> #[trigger] t@[j] == '#',
        decreases n - k,
    {
        if t[k] != '#' {
            assert(n - h <= k < n && t@[k as int] != '#');
            return None;
        }
        k = k + 1;
    }
    Some(string_of(&t, q + 1, n - 1 - h))
}

} // verus!
