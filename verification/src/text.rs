//! Character-level utilities shared by the record codec and the key builders:
//! conversions between `String` and `Vec<char>`, literal matching, decimal
//! numerals, and the trial-address test used by the quota ledger.

use vstd::prelude::*;
use vstd::string::*;

verus! {

/// Relies on `String`'s `FromIterator<&char>`: collecting characters yields
/// the string of exactly those characters, in order.
#[verifier::external_body]
pub fn chars_to_string(v: &Vec<char>) -> (r: String)
    ensures
        r@ == v@,
{
    v.iter().collect()
}

/// The characters of `s`, as a vector.
pub fn str_chars(s: &str) -> (r: Vec<char>)
    ensures
        r@ == s@,
{
    let n = s.unicode_len();
    let mut r: Vec<char> = Vec::new();
    let mut i: usize = 0;
    while i < n
        invariant
            i <= n,
            n == s@.len(),
            r@ == s@.subrange(0, i as int),
        decreases n - i,
    {
        let c = s.get_char(i);
        r.push(c);
        proof {
            assert(s@.subrange(0, i + 1) =~= s@.subrange(0, i as int).push(s@[i as int]));
        }
        i = i + 1;
    }
    proof {
        assert(s@.subrange(0, n as int) =~= s@);
    }
    r
}

/// Appends the characters of `s` to `v`.
pub fn push_chars(v: &mut Vec<char>, s: &str)
    ensures
        final(v)@ == old(v)@ + s@,
{
    let n = s.unicode_len();
    let mut i: usize = 0;
    while i < n
        invariant
            i <= n,
            n == s@.len(),
            v@ == old(v)@ + s@.subrange(0, i as int),
        decreases n - i,
    {
        let c = s.get_char(i);
        v.push(c);
        proof {
            assert(s@.subrange(0, i + 1) =~= s@.subrange(0, i as int).push(s@[i as int]));
        }
        i = i + 1;
    }
    proof {
        assert(s@.subrange(0, n as int) =~= s@);
    }
}

/// `p` occurs in `s` starting at position `i`.
pub open spec fn matches_at(s: Seq<char>, i: int, p: Seq<char>) -> bool {
    0 <= i && i + p.len() <= s.len() && s.subrange(i, i + p.len()) == p
}

/// Whether the characters of `p` occur in `v` starting at position `i`.
pub fn match_at(v: &Vec<char>, i: usize, p: &str) -> (r: bool)
    ensures
        r == matches_at(v@, i as int, p@),
{
    let plen = p.unicode_len();
    let n = v.len();
    if i > n || plen > n - i {
        proof {
            assert(!matches_at(v@, i as int, p@));
        }
        return false;
    }
    let mut j: usize = 0;
    while j < plen
        invariant
            j <= plen,
            plen == p@.len(),
            n == v@.len(),
            i + plen <= n,
            forall|k: int| 0 <= k < j ==> v@[i + k] == p@[k],
        decreases plen - j,
    {
        if v[i + j] != p.get_char(j) {
            proof {
                assert(v@.subrange(i as int, i + p@.len())[j as int] == v@[i + j]);
            }
            return false;
        }
        j = j + 1;
    }
    proof {
        assert(v@.subrange(i as int, i + p@.len()) =~= p@);
    }
    true
}

/// Whether two string slices hold the same characters.
pub fn str_eq(a: &str, b: &str) -> (r: bool)
    ensures
        r == (a@ == b@),
{
    let va = str_chars(a);
    let n = va.len();
    let m = b.unicode_len();
    if n != m {
        return false;
    }
    let r = match_at(&va, 0, b);
    proof {
        if r {
            assert(va@.subrange(0, b@.len() as int) =~= va@);
        } else {
            if a@ == b@ {
                assert(va@.subrange(0, b@.len() as int) =~= b@);
            }
        }
    }
    r
}

/// A decimal digit.
pub open spec fn is_digit(c: char) -> bool {
    48 <= c as u32 <= 57
}

/// The value of a decimal digit.
pub open spec fn digit_val(c: char) -> int {
    c as u32 - 48
}

/// The digit character for `d`, which must be in 0..=9.
pub open spec fn digit_char(d: int) -> char {
    if d == 0 {
        '0'
    } else if d == 1 {
        '1'
    } else if d == 2 {
        '2'
    } else if d == 3 {
        '3'
    } else if d == 4 {
        '4'
    } else if d == 5 {
        '5'
    } else if d == 6 {
        '6'
    } else if d == 7 {
        '7'
    } else if d == 8 {
        '8'
    } else {
        '9'
    }
}

proof fn lemma_digit_char_val(d: int)
    requires
        0 <= d <= 9,
    ensures
        is_digit(digit_char(d)),
        digit_val(digit_char(d)) == d,
{
}

/// The decimal numeral of `n`, most significant digit first, no leading zeros.
pub open spec fn dec_chars(n: nat) -> Seq<char>
    decreases n,
{
    if n < 10 {
        seq![digit_char(n as int)]
    } else {
        dec_chars(n / 10) + seq![digit_char((n % 10) as int)]
    }
}

/// Appends the decimal numeral of `n` to `v`.
pub fn push_dec(v: &mut Vec<char>, n: u64)
    ensures
        final(v)@ == old(v)@ + dec_chars(n as nat),
    decreases n,
{
    if n < 10 {
        let d = digit_of(n);
        v.push(d);
    } else {
        push_dec(v, n / 10);
        let d = digit_of(n % 10);
        v.push(d);
        proof {
            assert(v@ =~= old(v)@ + dec_chars(n as nat));
        }
    }
}

/// The digit character for `n`, which must be below 10.
fn digit_of(n: u64) -> (c: char)
    requires
        n < 10,
    ensures
        c == digit_char(n as int),
{
    if n == 0 {
        '0'
    } else if n == 1 {
        '1'
    } else if n == 2 {
        '2'
    } else if n == 3 {
        '3'
    } else if n == 4 {
        '4'
    } else if n == 5 {
        '5'
    } else if n == 6 {
        '6'
    } else if n == 7 {
        '7'
    } else if n == 8 {
        '8'
    } else {
        '9'
    }
}

/// The value of a run of decimal digits, most significant first.
pub open spec fn dec_val(s: Seq<char>) -> nat
    decreases s.len(),
{
    if s.len() == 0 {
        0
    } else {
        dec_val(s.drop_last()) * 10 + (if is_digit(s.last()) {
            digit_val(s.last()) as nat
        } else {
            0
        })
    }
}

/// The numeral of a value reads back as that value.
pub proof fn lemma_dec_val_of_dec_chars(n: nat)
    ensures
        dec_val(dec_chars(n)) == n,
        forall|i: int| 0 <= i < dec_chars(n).len() ==> is_digit(#[trigger] dec_chars(n)[i]),
        dec_chars(n).len() >= 1,
        n >= 1 ==> dec_chars(n)[0] != '0',
        n < 10 ==> dec_chars(n).len() == 1,
    decreases n,
{
    if n < 10 {
        lemma_digit_char_val(n as int);
        let s = dec_chars(n);
        assert(s == seq![digit_char(n as int)]);
        assert(s.drop_last() =~= Seq::<char>::empty());
        assert(dec_val(s.drop_last()) == 0);
        assert(dec_val(s) == digit_val(s.last()));
    } else {
        lemma_dec_val_of_dec_chars(n / 10);
        lemma_digit_char_val((n % 10) as int);
        assert(dec_chars(n).drop_last() =~= dec_chars(n / 10));
        assert(dec_chars(n).last() == digit_char((n % 10) as int));
        assert(dec_val(dec_chars(n)) == (n / 10) * 10 + n % 10);
        assert((n / 10) * 10 + n % 10 == n) by (nonlinear_arith);
        assert(dec_chars(n)[0] == dec_chars(n / 10)[0]);
        assert forall|i: int| 0 <= i < dec_chars(n).len() implies is_digit(
            #[trigger] dec_chars(n)[i],
        ) by {
            if i < dec_chars(n / 10).len() {
                assert(dec_chars(n)[i] == dec_chars(n / 10)[i]);
            } else {
                assert(dec_chars(n)[i] == digit_char((n % 10) as int));
            }
        }
    }
}

/// A numeral below the 19-digit cap has at most 19 digits.
pub proof fn lemma_dec_chars_len(n: nat, k: nat)
    requires
        n < pow10(k),
        k >= 1,
    ensures
        dec_chars(n).len() <= k,
    decreases n,
{
    if n >= 10 {
        assert(pow10(k) == 10 * pow10((k - 1) as nat));
        lemma_dec_chars_len(n / 10, (k - 1) as nat);
    }
}

/// Ten to the `k`.
pub open spec fn pow10(k: nat) -> nat
    decreases k,
{
    if k == 0 {
        1
    } else {
        10 * pow10((k - 1) as nat)
    }
}

/// The bound on stored numbers: the record format carries at most 19
/// decimal digits, so every stored number fits a `u64` with room to
/// increment.
pub open spec fn number_cap() -> nat {
    pow10(19)
}

/// The characters `trial`, case-insensitively, start the sequence.
pub open spec fn has_trial_prefix(s: Seq<char>) -> bool {
    s.len() >= 5 && (s[0] == 't' || s[0] == 'T') && (s[1] == 'r' || s[1] == 'R') && (s[2] == 'i'
        || s[2] == 'I') && (s[3] == 'a' || s[3] == 'A') && (s[4] == 'l' || s[4] == 'L')
}

/// The mail domain that marks self-issued trial addresses.
pub open spec fn trial_domain() -> Seq<char> {
    "@pesto.teknologiumum.com"@
}

/// A trial address: prefix `trial` (case-insensitive) and the trial domain
/// as suffix. Usage by such an address is never counted.
pub open spec fn is_trial_email(s: Seq<char>) -> bool {
    has_trial_prefix(s) && s.len() >= trial_domain().len() && s.subrange(
        s.len() - trial_domain().len(),
        s.len() as int,
    ) == trial_domain()
}

/// Whether `email` is a trial address.
pub fn check_trial_email(email: &str) -> (r: bool)
    ensures
        r == is_trial_email(email@),
{
    let v = str_chars(email);
    let n = v.len();
    if n < 5 {
        return false;
    }
    let p0 = v[0];
    let p1 = v[1];
    let p2 = v[2];
    let p3 = v[3];
    let p4 = v[4];
    let prefix_ok = (p0 == 't' || p0 == 'T') && (p1 == 'r' || p1 == 'R') && (p2 == 'i' || p2
        == 'I') && (p3 == 'a' || p3 == 'A') && (p4 == 'l' || p4 == 'L');
    if !prefix_ok {
        return false;
    }
    let domain = "@pesto.teknologiumum.com";
    let dlen = domain.unicode_len();
    if n < dlen {
        return false;
    }
    let r = match_at(&v, n - dlen, domain);
    proof {
        if r {
            assert(v@.subrange(v@.len() - trial_domain().len(), v@.len() as int) =~= v@.subrange(
                n - dlen,
                n - dlen + trial_domain().len(),
            ));
        } else {
            assert(!is_trial_email(email@)) by {
                if is_trial_email(email@) {
                    assert(matches_at(v@, n - dlen, domain@));
                }
            }
        }
    }
    r
}

} // verus!
