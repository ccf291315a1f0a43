//! The record wire format: flat JSON objects with a fixed field order, the
//! same format on the wire and in the store. This module holds the
//! character-level pieces: string escaping, and scanners for strings,
//! numbers and booleans. Each scanner is an executable function proved
//! equal to a specification-level reading of the format.

use vstd::prelude::*;
use vstd::string::*;
use crate::text::{digit_char, digit_val, is_digit, dec_chars, dec_val, pow10, matches_at, match_at, str_chars, push_dec, lemma_dec_chars_len, lemma_dec_val_of_dec_chars};

verus! {

/// The hexadecimal digit character for `d`, which must be in 0..=15.
pub open spec fn hex_char(d: int) -> char {
    if d < 10 {
        digit_char(d)
    } else if d == 10 {
        'a'
    } else if d == 11 {
        'b'
    } else if d == 12 {
        'c'
    } else if d == 13 {
        'd'
    } else if d == 14 {
        'e'
    } else {
        'f'
    }
}

/// A hexadecimal digit, either case.
pub open spec fn is_hex(c: char) -> bool {
    is_digit(c) || (97 <= c as u32 <= 102) || (65 <= c as u32 <= 70)
}

/// The value of a hexadecimal digit.
pub open spec fn hex_val(c: char) -> int {
    if is_digit(c) {
        digit_val(c)
    } else if 97 <= c as u32 <= 102 {
        c as u32 - 87
    } else {
        c as u32 - 55
    }
}

/// How a character appears inside a quoted string: quote and backslash get
/// a backslash escape, the named control characters their short escapes,
/// the remaining control characters a `\u00XX` escape, and everything else
/// stands as itself.
pub open spec fn esc_char(c: char) -> Seq<char> {
    if c == '"' {
        seq!['\\', '"']
    } else if c == '\\' {
        seq!['\\', '\\']
    } else if c == '\u{8}' {
        seq!['\\', 'b']
    } else if c == '\u{c}' {
        seq!['\\', 'f']
    } else if c == '\n' {
        seq!['\\', 'n']
    } else if c == '\r' {
        seq!['\\', 'r']
    } else if c == '\t' {
        seq!['\\', 't']
    } else if (c as u32) < 32 {
        seq!['\\', 'u', '0', '0', hex_char(c as u32 as int / 16), hex_char(c as u32 as int % 16)]
    } else {
        seq![c]
    }
}

/// The escaped form of a whole string.
pub open spec fn esc_str(s: Seq<char>) -> Seq<char>
    decreases s.len(),
{
    if s.len() == 0 {
        Seq::empty()
    } else {
        esc_char(s[0]) + esc_str(s.drop_first())
    }
}

pub proof fn lemma_esc_str_concat(a: Seq<char>, b: Seq<char>)
    ensures
        esc_str(a + b) == esc_str(a) + esc_str(b),
    decreases a.len(),
{
    if a.len() == 0 {
        assert(a + b =~= b);
        assert(esc_str(a) + esc_str(b) =~= esc_str(b));
    } else {
        lemma_esc_str_concat(a.drop_first(), b);
        assert((a + b).drop_first() =~= a.drop_first() + b);
        assert(esc_char(a[0]) + (esc_str(a.drop_first()) + esc_str(b)) =~= (esc_char(a[0])
            + esc_str(a.drop_first())) + esc_str(b));
    }
}

/// Appends the escaped form of `s` to `v`.
pub fn push_escaped(v: &mut Vec<char>, s: &str)
    ensures
        final(v)@ == old(v)@ + esc_str(s@),
{
    let cs = str_chars(s);
    let n = cs.len();
    let mut i: usize = 0;
    while i < n
        invariant
            i <= n,
            n == cs@.len(),
            cs@ == s@,
            v@ == old(v)@ + esc_str(s@.subrange(0, i as int)),
        decreases n - i,
    {
        let c = cs[i];
        push_escaped_char(v, c);
        proof {
            assert(s@.subrange(0, i + 1) =~= s@.subrange(0, i as int) + seq![s@[i as int]]);
            lemma_esc_str_concat(s@.subrange(0, i as int), seq![s@[i as int]]);
            assert(seq![s@[i as int]].drop_first() =~= Seq::<char>::empty());
            assert(esc_str(Seq::<char>::empty()) =~= Seq::<char>::empty());
            assert(esc_str(seq![s@[i as int]]) =~= esc_char(s@[i as int]) + Seq::<char>::empty());
            assert(esc_char(s@[i as int]) + Seq::<char>::empty() =~= esc_char(s@[i as int]));
            assert(v@ =~= old(v)@ + esc_str(s@.subrange(0, i + 1)));
        }
        i = i + 1;
    }
    proof {
        assert(s@.subrange(0, n as int) =~= s@);
    }
}

/// Appends the escaped form of one character to `v`.
fn push_escaped_char(v: &mut Vec<char>, c: char)
    ensures
        final(v)@ == old(v)@ + esc_char(c),
{
    if c == '"' {
        v.push('\\');
        v.push('"');
    } else if c == '\\' {
        v.push('\\');
        v.push('\\');
    } else if c == '\u{8}' {
        v.push('\\');
        v.push('b');
    } else if c == '\u{c}' {
        v.push('\\');
        v.push('f');
    } else if c == '\n' {
        v.push('\\');
        v.push('n');
    } else if c == '\r' {
        v.push('\\');
        v.push('r');
    } else if c == '\t' {
        v.push('\\');
        v.push('t');
    } else if (c as u32) < 32 {
        let x = c as u32;
        v.push('\\');
        v.push('u');
        v.push('0');
        v.push('0');
        let hi = hex_of((x / 16) as u64);
        v.push(hi);
        let lo = hex_of((x % 16) as u64);
        v.push(lo);
    } else {
        v.push(c);
    }
    proof {
        assert(final(v)@ =~= old(v)@ + esc_char(c));
    }
}

/// The hexadecimal digit character for `n`, which must be below 16.
fn hex_of(n: u64) -> (c: char)
    requires
        n < 16,
    ensures
        c == hex_char(n as int),
{
    if n == 10 {
        'a'
    } else if n == 11 {
        'b'
    } else if n == 12 {
        'c'
    } else if n == 13 {
        'd'
    } else if n == 14 {
        'e'
    } else if n == 15 {
        'f'
    } else {
        digit_of(n)
    }
}

/// The digit character for `n`, which must be below 10.
fn digit_of(n: u64) -> (c: char)
    requires
        n < 10,
    ensures
        c == digit_char(n as int),
{
    if n == 0 {
        '0'
    } else if n == 1 {
        '1'
    } else if n == 2 {
        '2'
    } else if n == 3 {
        '3'
    } else if n == 4 {
        '4'
    } else if n == 5 {
        '5'
    } else if n == 6 {
        '6'
    } else if n == 7 {
        '7'
    } else if n == 8 {
        '8'
    } else {
        '9'
    }
}

/// Reads one escape sequence starting at the backslash at `i`: the decoded
/// character and how many characters the escape occupies. Only `\u00XX`
/// forms of the `\u` escape are read; the escaper never emits any other.
pub open spec fn unesc_at(s: Seq<char>, i: int) -> Option<(char, int)> {
    if i + 2 > s.len() {
        None
    } else {
        let c = s[i + 1];
        if c == '"' {
            Some(('"', 2))
        } else if c == '\\' {
            Some(('\\', 2))
        } else if c == '/' {
            Some(('/', 2))
        } else if c == 'b' {
            Some(('\u{8}', 2))
        } else if c == 'f' {
            Some(('\u{c}', 2))
        } else if c == 'n' {
            Some(('\n', 2))
        } else if c == 'r' {
            Some(('\r', 2))
        } else if c == 't' {
            Some(('\t', 2))
        } else if c == 'u' {
            if i + 6 <= s.len() && s[i + 2] == '0' && s[i + 3] == '0' && is_hex(s[i + 4]) && is_hex(
                s[i + 5],
            ) {
                Some((((hex_val(s[i + 4]) * 16 + hex_val(s[i + 5])) as u8) as char, 6))
            } else {
                None
            }
        } else {
            None
        }
    }
}

/// Reads a quoted string body starting at `i`, just past the opening quote:
/// the unescaped content, and the position just past the closing quote.
/// Unescaped control characters, unknown escapes and a missing closing
/// quote are malformed.
pub open spec fn take_string(s: Seq<char>, i: int) -> Option<(Seq<char>, int)>
    decreases s.len() - i,
{
    if i < 0 || i >= s.len() {
        None
    } else if s[i] == '"' {
        Some((Seq::empty(), i + 1))
    } else if s[i] == '\\' {
        match unesc_at(s, i) {
            Some((c, k)) => match take_string(s, i + k) {
                Some((t, j)) => Some((seq![c] + t, j)),
                None => None,
            },
            None => None,
        }
    } else if (s[i] as u32) < 32 {
        None
    } else {
        match take_string(s, i + 1) {
            Some((t, j)) => Some((seq![s[i]] + t, j)),
            None => None,
        }
    }
}

/// Reads one escape sequence of `v` starting at the backslash at `i`.
fn unescape_at(v: &Vec<char>, i: usize) -> (r: Option<(char, usize)>)
    requires
        i < v@.len(),
    ensures
        match r {
            Some((c, k)) => unesc_at(v@, i as int) == Some((c, k as int)) && i + k <= v@.len() && k
                >= 2,
            None => unesc_at(v@, i as int) is None,
        },
{
    let n = v.len();
    if n - i < 2 {
        return None;
    }
    let c = v[i + 1];
    if c == '"' {
        Some(('"', 2))
    } else if c == '\\' {
        Some(('\\', 2))
    } else if c == '/' {
        Some(('/', 2))
    } else if c == 'b' {
        Some(('\u{8}', 2))
    } else if c == 'f' {
        Some(('\u{c}', 2))
    } else if c == 'n' {
        Some(('\n', 2))
    } else if c == 'r' {
        Some(('\r', 2))
    } else if c == 't' {
        Some(('\t', 2))
    } else if c == 'u' {
        if n - i >= 6 && v[i + 2] == '0' && v[i + 3] == '0' {
            let h1 = v[i + 4];
            let h2 = v[i + 5];
            match (hex_digit_val(h1), hex_digit_val(h2)) {
                (Some(a), Some(b)) => Some((((a * 16 + b) as u8) as char, 6)),
                _ => None,
            }
        } else {
            None
        }
    } else {
        None
    }
}

/// The value of a hexadecimal digit character, if it is one.
fn hex_digit_val(c: char) -> (r: Option<u32>)
    ensures
        match r {
            Some(x) => is_hex(c) && x == hex_val(c) && x < 16,
            None => !is_hex(c),
        },
{
    let x = c as u32;
    if 48 <= x && x <= 57 {
        Some(x - 48)
    } else if 97 <= x && x <= 102 {
        Some(x - 87)
    } else if 65 <= x && x <= 70 {
        Some(x - 55)
    } else {
        None
    }
}

/// Reads a quoted string body of `v` starting at `start`, just past the
/// opening quote.
pub fn scan_string(v: &Vec<char>, start: usize) -> (r: Option<(Vec<char>, usize)>)
    ensures
        match r {
            Some((t, j)) => take_string(v@, start as int) == Some((t@, j as int)) && j <= v@.len(),
            None => take_string(v@, start as int) is None,
        },
{
    let n = v.len();
    let mut acc: Vec<char> = Vec::new();
    let mut i: usize = start;
    loop
        invariant
            start <= i,
            n == v@.len(),
            take_string(v@, start as int) == (match take_string(v@, i as int) {
                Some((t, j)) => Some::<(Seq<char>, int)>((acc@ + t, j)),
                None => None::<(Seq<char>, int)>,
            }),
        decreases n - i,
    {
        if i >= n {
            return None;
        }
        let c = v[i];
        if c == '"' {
            proof {
                assert(acc@ + Seq::<char>::empty() =~= acc@);
            }
            return Some((acc, i + 1));
        } else if c == '\\' {
            match unescape_at(v, i) {
                Some((d, k)) => {
                    let ghost prev = acc@;
                    acc.push(d);
                    proof {
                        assert forall|t: Seq<char>| prev + (seq![d] + t) =~= acc@ + t by {}
                    }
                    i = i + k;
                },
                None => {
                    return None;
                },
            }
        } else if (c as u32) < 32 {
            return None;
        } else {
            let ghost prev = acc@;
            acc.push(c);
            proof {
                assert forall|t: Seq<char>| prev + (seq![c] + t) =~= acc@ + t by {}
            }
            i = i + 1;
        }
    }
}

/// The position of the first character at or after `i` that is not a digit.
pub open spec fn digits_end(s: Seq<char>, i: int) -> int
    decreases s.len() - i when 0 <= i <= s.len()
{
    if i < s.len() && is_digit(s[i]) {
        digits_end(s, i + 1)
    } else {
        i
    }
}

pub proof fn lemma_digits_end(s: Seq<char>, i: int)
    requires
        0 <= i <= s.len(),
    ensures
        i <= digits_end(s, i) <= s.len(),
        forall|k: int| i <= k < digits_end(s, i) ==> is_digit(#[trigger] s[k]),
        digits_end(s, i) < s.len() ==> !is_digit(s[digits_end(s, i)]),
    decreases s.len() - i,
{
    if i < s.len() && is_digit(s[i]) {
        lemma_digits_end(s, i + 1);
    }
}

/// A digit run bounded by a non-digit ends exactly at that bound.
pub proof fn lemma_digits_end_is(s: Seq<char>, i: int, e: int)
    requires
        0 <= i <= e <= s.len(),
        forall|k: int| i <= k < e ==> is_digit(#[trigger] s[k]),
        e < s.len() ==> !is_digit(s[e]),
    ensures
        digits_end(s, i) == e,
    decreases e - i,
{
    if i < e {
        lemma_digits_end_is(s, i + 1, e);
    }
}

/// Reads an unsigned number starting at `i`: a non-empty digit run with no
/// leading zero and at most 19 digits, so that every stored number fits a
/// `u64` with room to increment. The result is the value and the position
/// just past the run.
pub open spec fn take_number(s: Seq<char>, i: int) -> Option<(u64, int)> {
    if !(0 <= i <= s.len()) {
        None
    } else {
        let e = digits_end(s, i);
        if e == i {
            None
        } else if s[i] == '0' && e > i + 1 {
            None
        } else if e - i > 19 {
            None
        } else {
            Some((dec_val(s.subrange(i, e)) as u64, e))
        }
    }
}

/// Every 19-digit value is below ten to the nineteenth.
pub proof fn lemma_dec_val_bound(s: Seq<char>)
    requires
        forall|k: int| 0 <= k < s.len() ==> is_digit(#[trigger] s[k]),
    ensures
        dec_val(s) < pow10(s.len()),
    decreases s.len(),
{
    if s.len() > 0 {
        lemma_dec_val_bound(s.drop_last());
    }
}

pub proof fn lemma_pow10_19()
    ensures
        pow10(19) == 10000000000000000000,
        pow10(18) == 1000000000000000000,
{
    reveal_with_fuel(pow10, 21);
}

/// Reads an unsigned number of `v` starting at `start`.
pub fn scan_number(v: &Vec<char>, start: usize) -> (r: Option<(u64, usize)>)
    requires
        start <= v@.len(),
    ensures
        match r {
            Some((x, j)) => take_number(v@, start as int) == Some((x, j as int)) && start < j
                <= v@.len(),
            None => take_number(v@, start as int) is None,
        },
{
    let n = v.len();
    let mut e: usize = start;
    while e < n && is_digit_char(v[e])
        invariant
            start <= e <= n,
            n == v@.len(),
            forall|k: int| start <= k < e ==> is_digit(#[trigger] v@[k]),
        decreases n - e,
    {
        e = e + 1;
    }
    proof {
        lemma_digits_end_is(v@, start as int, e as int);
    }
    if e == start {
        return None;
    }
    if v[start] == '0' && e > start + 1 {
        return None;
    }
    if e - start > 19 {
        return None;
    }
    proof {
        lemma_pow10_19();
    }
    let mut acc: u64 = 0;
    let mut i: usize = start;
    while i < e
        invariant
            start <= i <= e <= n,
            n == v@.len(),
            e - start <= 19,
            forall|k: int| start <= k < e ==> is_digit(#[trigger] v@[k]),
            acc == dec_val(v@.subrange(start as int, i as int)),
            acc < pow10((i - start) as nat),
            pow10(19) == 10000000000000000000,
            pow10(18) == 1000000000000000000,
        decreases e - i,
    {
        let c = v[i];
        let d = (c as u32) - 48;
        proof {
            lemma_pow10_monotonic((i - start) as nat, 18);
            assert(acc < pow10(18));
            assert(v@.subrange(start as int, i + 1).drop_last() =~= v@.subrange(
                start as int,
                i as int,
            ));
        }
        acc = acc * 10 + (d as u64);
        proof {
            assert(pow10(((i + 1) - start) as nat) == 10 * pow10((i - start) as nat));
        }
        i = i + 1;
    }
    proof {
        lemma_dec_val_bound(v@.subrange(start as int, e as int));
        lemma_pow10_monotonic((e - start) as nat, 19);
    }
    Some((acc, e))
}

pub proof fn lemma_pow10_monotonic(a: nat, b: nat)
    requires
        a <= b,
    ensures
        pow10(a) <= pow10(b),
    decreases b,
{
    if a < b {
        lemma_pow10_monotonic(a, (b - 1) as nat);
    }
}

/// Whether `c` is a decimal digit.
pub fn is_digit_char(c: char) -> (r: bool)
    ensures
        r == is_digit(c),
{
    let x = c as u32;
    48 <= x && x <= 57
}

/// Reads `true` or `false` starting at `i`.
pub open spec fn take_bool(s: Seq<char>, i: int) -> Option<(bool, int)> {
    if matches_at(s, i, "true"@) {
        Some((true, i + 4))
    } else if matches_at(s, i, "false"@) {
        Some((false, i + 5))
    } else {
        None
    }
}

/// Reads `true` or `false` of `v` starting at `start`.
pub fn scan_bool(v: &Vec<char>, start: usize) -> (r: Option<(bool, usize)>)
    ensures
        match r {
            Some((b, j)) => take_bool(v@, start as int) == Some((b, j as int)) && j <= v@.len(),
            None => take_bool(v@, start as int) is None,
        },
{
    proof {
        reveal_strlit("true");
        reveal_strlit("false");
    }
    let n = v.len();
    if match_at(v, start, "true") {
        Some((true, start + 4))
    } else if match_at(v, start, "false") {
        Some((false, start + 5))
    } else {
        None
    }
}

/// Reads a signed number starting at `i`: an optional minus sign and a
/// digit run, within the range of an `i64`.
pub open spec fn take_int(s: Seq<char>, i: int) -> Option<(i64, int)> {
    if 0 <= i < s.len() && s[i] == '-' {
        match take_number(s, i + 1) {
            Some((m, j)) => if m <= 9223372036854775808 {
                Some(((-(m as int)) as i64, j))
            } else {
                None
            },
            None => None,
        }
    } else {
        match take_number(s, i) {
            Some((m, j)) => if m <= 9223372036854775807 {
                Some((m as i64, j))
            } else {
                None
            },
            None => None,
        }
    }
}

/// Reads a signed number of `v` starting at `start`.
pub fn scan_int(v: &Vec<char>, start: usize) -> (r: Option<(i64, usize)>)
    requires
        start <= v@.len(),
    ensures
        match r {
            Some((x, j)) => take_int(v@, start as int) == Some((x, j as int)) && j <= v@.len(),
            None => take_int(v@, start as int) is None,
        },
{
    if start < v.len() && v[start] == '-' {
        match scan_number(v, start + 1) {
            Some((m, j)) => {
                if m <= 9223372036854775808 {
                    let x: i64 = if m == 9223372036854775808 {
                        i64::MIN
                    } else {
                        -(m as i64)
                    };
                    Some((x, j))
                } else {
                    None
                }
            },
            None => None,
        }
    } else {
        match scan_number(v, start) {
            Some((m, j)) => {
                if m <= 9223372036854775807 {
                    Some((m as i64, j))
                } else {
                    None
                }
            },
            None => None,
        }
    }
}

proof fn lemma_hex_char_val(d: int)
    requires
        0 <= d < 16,
    ensures
        is_hex(hex_char(d)),
        hex_val(hex_char(d)) == d,
{
}

/// Reading a quoted string over the escaped form of `f` recovers `f` and
/// stops just past the closing quote.
pub proof fn lemma_take_string_escaped(s: Seq<char>, i: int, f: Seq<char>)
    requires
        0 <= i,
        i + esc_str(f).len() + 1 <= s.len(),
        s.subrange(i, i + esc_str(f).len()) == esc_str(f),
        s[i + esc_str(f).len()] == '"',
    ensures
        take_string(s, i) == Some((f, i + esc_str(f).len() + 1)),
    decreases f.len(),
{
    if f.len() == 0 {
        assert(esc_str(f).len() == 0);
        assert(s[i] == '"');
        assert(take_string(s, i) == Some((Seq::<char>::empty(), i + 1)));
        assert(Seq::<char>::empty() =~= f);
    } else {
        let c = f[0];
        let e = esc_char(c);
        let f1 = f.drop_first();
        assert(esc_str(f) == e + esc_str(f1));
        assert forall|k: int| 0 <= k < esc_str(f).len() implies s[i + k] == esc_str(f)[k] by {
            assert(s.subrange(i, i + esc_str(f).len())[k] == s[i + k]);
        }
        assert forall|k: int| 0 <= k < e.len() implies s[i + k] == e[k] by {
            assert(esc_str(f)[k] == (e + esc_str(f1))[k]);
        }
        let i1 = i + e.len();
        assert(s.subrange(i1, i1 + esc_str(f1).len()) =~= esc_str(f1)) by {
            assert forall|k: int| 0 <= k < esc_str(f1).len() implies s.subrange(
                i1,
                i1 + esc_str(f1).len(),
            )[k] == esc_str(f1)[k] by {
                assert(s.subrange(i1, i1 + esc_str(f1).len())[k] == s[i1 + k]);
                assert(s[i1 + k] == esc_str(f)[e.len() + k]);
                assert(esc_str(f)[e.len() + k] == (e + esc_str(f1))[e.len() + k]);
            }
        }
        lemma_take_string_escaped(s, i1, f1);
        if c == '"' || c == '\\' || c == '\u{8}' || c == '\u{c}' || c == '\n' || c == '\r' || c
            == '\t' {
            assert(s[i] == '\\');
            assert(unesc_at(s, i) == Some((c, 2int)));
            assert(take_string(s, i) == Some((seq![c] + f1, i + esc_str(f).len() + 1)));
        } else if (c as u32) < 32 {
            assert(s[i] == '\\' && s[i + 1] == 'u' && s[i + 2] == '0' && s[i + 3] == '0');
            let x = c as u32 as int;
            assert(s[i + 4] == hex_char(x / 16) && s[i + 5] == hex_char(x % 16));
            lemma_hex_char_val(x / 16);
            lemma_hex_char_val(x % 16);
            assert(hex_val(s[i + 4]) * 16 + hex_val(s[i + 5]) == x);
            assert(((x as u8) as char) == c) by {
                vstd::utf8::char_u32_cast(c, c as u32);
            }
            assert(unesc_at(s, i) == Some((c, 6int)));
            assert(take_string(s, i) == Some((seq![c] + f1, i + esc_str(f).len() + 1)));
        } else {
            assert(e =~= seq![c]);
            assert(s[i + 0] == e[0]);
            assert(s[i] == c);
            assert(take_string(s, i) == Some((seq![c] + f1, i + esc_str(f).len() + 1)));
        }
        assert(seq![c] + f1 =~= f);
    }
}

/// Reading a number over the numeral of `n` recovers `n` and stops at the
/// non-digit that follows.
pub proof fn lemma_take_number_dec(s: Seq<char>, i: int, n: u64)
    requires
        0 <= i,
        n < pow10(19),
        i + dec_chars(n as nat).len() < s.len(),
        s.subrange(i, i + dec_chars(n as nat).len()) == dec_chars(n as nat),
        !is_digit(s[i + dec_chars(n as nat).len()]),
    ensures
        take_number(s, i) == Some((n, i + dec_chars(n as nat).len())),
{
    let d = dec_chars(n as nat);
    lemma_dec_val_of_dec_chars(n as nat);
    lemma_dec_chars_len(n as nat, 19);
    let e = i + d.len();
    assert forall|k: int| i <= k < e implies is_digit(#[trigger] s[k]) by {
        assert(s.subrange(i, e)[k - i] == s[k]);
        assert(s.subrange(i, e)[k - i] == d[k - i]);
    }
    lemma_digits_end_is(s, i, e);
    assert(s[i] == d[0]) by {
        assert(s.subrange(i, e)[0] == s[i]);
    }
    if s[i] == '0' {
        assert(n == 0) by {
            if n >= 1 {
                assert(d[0] != '0');
            }
        }
        assert(d.len() == 1);
    }
    assert(s.subrange(i, e) == d);
    assert(dec_val(s.subrange(i, e)) == n as nat);
}

/// Reading a boolean over the spelled-out value recovers it.
pub proof fn lemma_take_bool(s: Seq<char>, i: int, b: bool)
    requires
        0 <= i,
        i + spell_bool(b).len() <= s.len(),
        s.subrange(i, i + spell_bool(b).len()) == spell_bool(b),
    ensures
        take_bool(s, i) == Some((b, i + spell_bool(b).len())),
{
    reveal_strlit("true");
    reveal_strlit("false");
    if b {
        assert(matches_at(s, i, "true"@));
    } else {
        assert(matches_at(s, i, "false"@));
        assert(s.subrange(i, i + 5)[0] == s[i]);
        assert(s[i] == 'f');
        assert(!matches_at(s, i, "true"@)) by {
            if matches_at(s, i, "true"@) {
                assert(s.subrange(i, i + 4)[0] == s[i]);
            }
        }
    }
}

/// The spelled-out form of a boolean.
pub open spec fn spell_bool(b: bool) -> Seq<char> {
    if b {
        "true"@
    } else {
        "false"@
    }
}

/// Reading a signed number over the numeral of `n` recovers `n` and stops
/// at the non-digit that follows.
pub proof fn lemma_take_int_chars(s: Seq<char>, i: int, n: i64)
    requires
        0 <= i,
        i + int_chars(n).len() < s.len(),
        s.subrange(i, i + int_chars(n).len()) == int_chars(n),
        !is_digit(s[i + int_chars(n).len()]),
    ensures
        take_int(s, i) == Some((n, i + int_chars(n).len())),
{
    lemma_pow10_19();
    assert forall|k: int| 0 <= k < int_chars(n).len() implies s[i + k] == int_chars(n)[k] by {
        assert(s.subrange(i, i + int_chars(n).len())[k] == s[i + k]);
    }
    if n < 0 {
        let m = (-(n as int)) as nat;
        let d = dec_chars(m);
        assert(s[i + 0] == int_chars(n)[0]);
        assert(int_chars(n)[0] == (seq!['-'] + dec_chars(m))[0]);
        assert(s[i] == '-');
        assert(s.subrange(i + 1, i + 1 + d.len()) =~= d) by {
            assert forall|k: int| 0 <= k < d.len() implies s.subrange(i + 1, i + 1 + d.len())[k]
                == d[k] by {
                assert(s.subrange(i + 1, i + 1 + d.len())[k] == s[i + 1 + k]);
                assert(int_chars(n)[1 + k] == d[k]);
            }
        }
        lemma_take_number_dec(s, i + 1, m as u64);
        assert(m <= 9223372036854775808);
        assert((-(m as int)) as i64 == n);
        assert(!is_digit('-'));
    } else {
        let d = dec_chars(n as nat);
        assert(s.subrange(i, i + d.len()) =~= d);
        lemma_take_number_dec(s, i, n as u64);
        lemma_dec_val_of_dec_chars(n as nat);
        assert(s[i] == d[0]) by {
            assert(s.subrange(i, i + d.len())[0] == s[i]);
        }
        assert(is_digit(s[i]));
        assert(s[i] != '-');
        assert(n as u64 <= 9223372036854775807);
    }
}

/// The decimal numeral of a signed value.
pub open spec fn int_chars(n: i64) -> Seq<char> {
    if n < 0 {
        seq!['-'] + dec_chars((-(n as int)) as nat)
    } else {
        dec_chars(n as nat)
    }
}

/// Appends the decimal numeral of `n` to `v`.
pub fn push_int(v: &mut Vec<char>, n: i64)
    ensures
        final(v)@ == old(v)@ + int_chars(n),
{
    if n < 0 {
        v.push('-');
        let mag: u64 = if n == i64::MIN {
            9223372036854775808u64
        } else {
            (0 - n) as u64
        };
        push_dec(v, mag);
        proof {
            assert(final(v)@ =~= old(v)@ + int_chars(n));
        }
    } else {
        push_dec(v, n as u64);
    }
}

} // verus!
