//! The data model and its wire format. An access record serializes as a
//! flat JSON object with the stable field names `UserEmail`, `MonthlyLimit`
//! and `Revoked`; the token is the lookup key and never part of the
//! payload. A waiting-list entry serializes with the field names `name`,
//! `email`, `building` and `calls`. The wire format and the storage format
//! are the same: a public contract, pinned down here and proved to round
//! trip.

use vstd::prelude::*;
use vstd::string::*;
use crate::text::{dec_chars, is_digit, matches_at, match_at, number_cap, push_chars, push_dec, str_chars, chars_to_string};
use crate::json::{esc_str, int_chars, push_escaped, push_int, scan_bool, scan_int, scan_number, scan_string, spell_bool, take_bool, take_int, take_number, take_string, lemma_pow10_19, lemma_take_bool, lemma_take_int_chars, lemma_take_number_dec, lemma_take_string_escaped};

verus! {

/// The stored grant describing a token's owner, monthly limit, and
/// revocation state. The token is the key the record is stored under;
/// it is never serialized into the payload.
#[derive(Debug, Clone, PartialEq)]
pub struct AccessRecord {
    pub token: Option<String>,
    pub user_email: String,
    pub monthly_limit: u64,
    pub revoked: bool,
}

impl AccessRecord {
    /// The record format carries numbers of at most 19 decimal digits.
    pub open spec fn wf(self) -> bool {
        self.monthly_limit < number_cap()
    }
}

/// A registration request pending approval: uniquely identified by its
/// email while on the waiting list.
#[derive(Debug, Clone, PartialEq)]
pub struct WaitingEntry {
    pub name: String,
    pub email: String,
    pub building: Option<String>,
    pub calls: i64,
}

/// The opening of an access record: brace, email key, opening quote.
pub open spec fn rec_open() -> Seq<char> {
    "{\"UserEmail\":\""@
}

/// Between the email value's closing quote and the limit value.
pub open spec fn rec_mid() -> Seq<char> {
    ",\"MonthlyLimit\":"@
}

/// Between the limit value and the revocation flag.
pub open spec fn rec_rev() -> Seq<char> {
    ",\"Revoked\":"@
}

/// The serialized form of an access record.
pub open spec fn record_wire(email: Seq<char>, limit: u64, revoked: bool) -> Seq<char> {
    rec_open() + esc_str(email) + seq!['"'] + rec_mid() + dec_chars(limit as nat) + rec_rev()
        + spell_bool(revoked) + seq!['}']
}

/// Reads a serialized access record: the email, the limit and the
/// revocation flag, if the text is exactly one well-formed record.
pub open spec fn decode_record_wire(s: Seq<char>) -> Option<(Seq<char>, u64, bool)> {
    if !matches_at(s, 0, rec_open()) {
        None
    } else {
        match take_string(s, rec_open().len() as int) {
            None => None,
            Some((email, i)) => if !matches_at(s, i, rec_mid()) {
                None
            } else {
                match take_number(s, i + rec_mid().len()) {
                    None => None,
                    Some((limit, j)) => if !matches_at(s, j, rec_rev()) {
                        None
                    } else {
                        match take_bool(s, j + rec_rev().len()) {
                            None => None,
                            Some((rv, k)) => if k + 1 == s.len() && s[k] == '}' {
                                Some((email, limit, rv))
                            } else {
                                None
                            },
                        }
                    },
                }
            },
        }
    }
}

/// Serializes an access record. The token field is left out by design.
pub fn encode_access_record(r: &AccessRecord) -> (s: String)
    ensures
        s@ == record_wire(r.user_email@, r.monthly_limit, r.revoked),
{
    let mut v: Vec<char> = Vec::new();
    push_chars(&mut v, "{\"UserEmail\":\"");
    push_escaped(&mut v, self_email(r));
    push_chars(&mut v, "\",\"MonthlyLimit\":");
    push_dec(&mut v, r.monthly_limit);
    push_chars(&mut v, ",\"Revoked\":");
    if r.revoked {
        push_chars(&mut v, "true");
    } else {
        push_chars(&mut v, "false");
    }
    push_chars(&mut v, "}");
    proof {
        reveal_strlit("\",\"MonthlyLimit\":");
        reveal_strlit(",\"MonthlyLimit\":");
        reveal_strlit("}");
        assert("\",\"MonthlyLimit\":"@ =~= seq!['"'] + rec_mid());
        assert("}"@ =~= seq!['}']);
        assert(v@ =~= record_wire(r.user_email@, r.monthly_limit, r.revoked));
    }
    chars_to_string(&v)
}

/// The email field as a string slice.
fn self_email(r: &AccessRecord) -> (s: &str)
    ensures
        s@ == r.user_email@,
{
    r.user_email.as_str()
}

/// Deserializes an access record, or nothing where the text is not exactly
/// one well-formed record.
pub fn decode_access_record(s: &str) -> (r: Option<AccessRecord>)
    ensures
        match r {
            Some(rec) => decode_record_wire(s@) == Some(
                (rec.user_email@, rec.monthly_limit, rec.revoked),
            ) && rec.token is None,
            None => decode_record_wire(s@) is None,
        },
{
    let v = str_chars(s);
    let n = v.len();
    let open_lit = "{\"UserEmail\":\"";
    if !match_at(&v, 0, open_lit) {
        return None;
    }
    let p1 = open_lit.unicode_len();
    let (email_chars, i) = match scan_string(&v, p1) {
        Some(x) => x,
        None => {
            return None;
        },
    };
    let mid_lit = ",\"MonthlyLimit\":";
    if !match_at(&v, i, mid_lit) {
        return None;
    }
    let p2 = i + mid_lit.unicode_len();
    let (limit, j) = match scan_number(&v, p2) {
        Some(x) => x,
        None => {
            return None;
        },
    };
    let rev_lit = ",\"Revoked\":";
    if !match_at(&v, j, rev_lit) {
        return None;
    }
    let p3 = j + rev_lit.unicode_len();
    let (revoked, k) = match scan_bool(&v, p3) {
        Some(x) => x,
        None => {
            return None;
        },
    };
    if k < n && k + 1 == n && v[k] == '}' {
        let email = chars_to_string(&email_chars);
        Some(AccessRecord { token: None, user_email: email, monthly_limit: limit, revoked })
    } else {
        None
    }
}

/// Serializing an access record and reading it back yields the same email,
/// limit and revocation flag.
pub proof fn lemma_record_round_trip(email: Seq<char>, limit: u64, revoked: bool)
    requires
        limit < number_cap(),
    ensures
        decode_record_wire(record_wire(email, limit, revoked)) == Some((email, limit, revoked)),
{
    let s = record_wire(email, limit, revoked);
    let a = rec_open();
    let e = esc_str(email);
    let b = rec_mid();
    let d = dec_chars(limit as nat);
    let c = rec_rev();
    let t = spell_bool(revoked);
    reveal_strlit("{\"UserEmail\":\"");
    reveal_strlit(",\"MonthlyLimit\":");
    reveal_strlit(",\"Revoked\":");
    reveal_strlit("true");
    reveal_strlit("false");
    let p1 = a.len() as int;
    let p2 = p1 + e.len();
    let p3 = p2 + 1;
    let p4 = p3 + b.len();
    let p5 = p4 + d.len();
    let p6 = p5 + c.len();
    let p7 = p6 + t.len();
    assert(s.len() == p7 + 1);
    assert(s.subrange(0, p1) =~= a);
    assert(matches_at(s, 0, a));
    assert(s.subrange(p1, p2) =~= e);
    assert(s[p2] == '"');
    lemma_take_string_escaped(s, p1, email);
    assert(take_string(s, p1) == Some((email, p3)));
    assert(s.subrange(p3, p4) =~= b);
    assert(matches_at(s, p3, b));
    assert(s.subrange(p4, p5) =~= d);
    assert(s[p5] == c[0]);
    assert(!is_digit(s[p5]));
    lemma_pow10_19();
    lemma_take_number_dec(s, p4, limit);
    assert(take_number(s, p4) == Some((limit, p5)));
    assert(s.subrange(p5, p6) =~= c);
    assert(matches_at(s, p5, c));
    assert(s.subrange(p6, p7) =~= t);
    lemma_take_bool(s, p6, revoked);
    assert(take_bool(s, p6) == Some((revoked, p7)));
    assert(s[p7] == '}');
}

/// The opening of a waiting-list entry: brace, name key, opening quote.
pub open spec fn ent_open() -> Seq<char> {
    "{\"name\":\""@
}

/// Between the name value's closing quote and the email value, opening
/// quote included.
pub open spec fn ent_email() -> Seq<char> {
    ",\"email\":\""@
}

/// Between the email value's closing quote and the building value.
pub open spec fn ent_building() -> Seq<char> {
    ",\"building\":"@
}

/// Between the building value and the calls value.
pub open spec fn ent_calls() -> Seq<char> {
    ",\"calls\":"@
}

/// The serialized form of the optional building field: a quoted string, or
/// `null` where there is none.
pub open spec fn building_wire(building: Option<Seq<char>>) -> Seq<char> {
    match building {
        Some(b) => seq!['"'] + esc_str(b) + seq!['"'],
        None => "null"@,
    }
}

/// The serialized form of a waiting-list entry.
pub open spec fn entry_wire(
    name: Seq<char>,
    email: Seq<char>,
    building: Option<Seq<char>>,
    calls: i64,
) -> Seq<char> {
    ent_open() + esc_str(name) + seq!['"'] + ent_email() + esc_str(email) + seq!['"']
        + ent_building() + building_wire(building) + ent_calls() + int_chars(calls) + seq!['}']
}

/// Reads the building value starting at `i`: a quoted string or `null`.
pub open spec fn take_building(s: Seq<char>, i: int) -> Option<(Option<Seq<char>>, int)> {
    if 0 <= i < s.len() && s[i] == '"' {
        match take_string(s, i + 1) {
            Some((b, j)) => Some((Some(b), j)),
            None => None,
        }
    } else if matches_at(s, i, "null"@) {
        Some((None, i + 4))
    } else {
        None
    }
}

/// Reads a serialized waiting-list entry, if the text is exactly one
/// well-formed entry.
pub open spec fn decode_entry_wire(s: Seq<char>) -> Option<
    (Seq<char>, Seq<char>, Option<Seq<char>>, i64),
> {
    if !matches_at(s, 0, ent_open()) {
        None
    } else {
        match take_string(s, ent_open().len() as int) {
            None => None,
            Some((name, i)) => if !matches_at(s, i, ent_email()) {
                None
            } else {
                match take_string(s, i + ent_email().len()) {
                    None => None,
                    Some((email, j)) => if !matches_at(s, j, ent_building()) {
                        None
                    } else {
                        match take_building(s, j + ent_building().len()) {
                            None => None,
                            Some((building, k)) => if !matches_at(s, k, ent_calls()) {
                                None
                            } else {
                                match take_int(s, k + ent_calls().len()) {
                                    None => None,
                                    Some((calls, m)) => if m + 1 == s.len() && s[m] == '}' {
                                        Some((name, email, building, calls))
                                    } else {
                                        None
                                    },
                                }
                            },
                        }
                    },
                }
            },
        }
    }
}

/// Serializes a waiting-list entry.
pub fn encode_waiting_entry(e: &WaitingEntry) -> (s: String)
    ensures
        s@ == entry_wire(e.name@, e.email@, building_view(e), e.calls),
{
    let mut v: Vec<char> = Vec::new();
    push_chars(&mut v, "{\"name\":\"");
    push_escaped(&mut v, e.name.as_str());
    push_chars(&mut v, "\",\"email\":\"");
    push_escaped(&mut v, e.email.as_str());
    push_chars(&mut v, "\",\"building\":");
    match &e.building {
        Some(b) => {
            push_chars(&mut v, "\"");
            push_escaped(&mut v, b.as_str());
            push_chars(&mut v, "\"");
        },
        None => {
            push_chars(&mut v, "null");
        },
    }
    push_chars(&mut v, ",\"calls\":");
    push_int(&mut v, e.calls);
    push_chars(&mut v, "}");
    proof {
        reveal_strlit("\",\"email\":\"");
        reveal_strlit(",\"email\":\"");
        reveal_strlit("\",\"building\":");
        reveal_strlit(",\"building\":");
        reveal_strlit("\"");
        reveal_strlit("}");
        assert("\",\"email\":\""@ =~= seq!['"'] + ent_email());
        assert("\",\"building\":"@ =~= seq!['"'] + ent_building());
        assert("\""@ =~= seq!['"']);
        assert("}"@ =~= seq!['}']);
        assert(v@ =~= entry_wire(e.name@, e.email@, building_view(e), e.calls));
    }
    chars_to_string(&v)
}

/// The building field of an entry, viewed as an optional character
/// sequence.
pub open spec fn building_view(e: &WaitingEntry) -> Option<Seq<char>> {
    match e.building {
        Some(b) => Some(b@),
        None => None,
    }
}

/// Deserializes a waiting-list entry, or nothing where the text is not
/// exactly one well-formed entry.
pub fn decode_waiting_entry(s: &str) -> (r: Option<WaitingEntry>)
    ensures
        match r {
            Some(e) => decode_entry_wire(s@) == Some(
                (e.name@, e.email@, building_view(&e), e.calls),
            ),
            None => decode_entry_wire(s@) is None,
        },
{
    let v = str_chars(s);
    let n = v.len();
    if !match_at(&v, 0, "{\"name\":\"") {
        return None;
    }
    let p1 = "{\"name\":\"".unicode_len();
    let (name_chars, i) = match scan_string(&v, p1) {
        Some(x) => x,
        None => {
            return None;
        },
    };
    if !match_at(&v, i, ",\"email\":\"") {
        return None;
    }
    let p2 = i + ",\"email\":\"".unicode_len();
    let (email_chars, j) = match scan_string(&v, p2) {
        Some(x) => x,
        None => {
            return None;
        },
    };
    if !match_at(&v, j, ",\"building\":") {
        return None;
    }
    let p3 = j + ",\"building\":".unicode_len();
    let (building_chars, k) = match scan_building(&v, p3) {
        Some(x) => x,
        None => {
            return None;
        },
    };
    if !match_at(&v, k, ",\"calls\":") {
        return None;
    }
    let p4 = k + ",\"calls\":".unicode_len();
    let (calls, m) = match scan_int(&v, p4) {
        Some(x) => x,
        None => {
            return None;
        },
    };
    if m < n && m + 1 == n && v[m] == '}' {
        let name = chars_to_string(&name_chars);
        let email = chars_to_string(&email_chars);
        let building = match building_chars {
            Some(b) => Some(chars_to_string(&b)),
            None => None,
        };
        let e = WaitingEntry { name, email, building, calls };
        Some(e)
    } else {
        None
    }
}

/// Reads the building value of `v` starting at `start`.
fn scan_building(v: &Vec<char>, start: usize) -> (r: Option<(Option<Vec<char>>, usize)>)
    ensures
        match r {
            Some((b, j)) => take_building(v@, start as int) == Some(
                (
                    match b {
                        Some(bv) => Some(bv@),
                        None => None,
                    },
                    j as int,
                ),
            ) && j <= v@.len(),
            None => take_building(v@, start as int) is None,
        },
{
    let n = v.len();
    if start < n && v[start] == '"' {
        match scan_string(v, start + 1) {
            Some((b, j)) => Some((Some(b), j)),
            None => None,
        }
    } else {
        proof {
            reveal_strlit("null");
        }
        if match_at(v, start, "null") {
            Some((None, start + 4))
        } else {
            None
        }
    }
}

/// Serializing a waiting-list entry and reading it back yields the same
/// name, email, building and calls.
pub proof fn lemma_entry_round_trip(
    name: Seq<char>,
    email: Seq<char>,
    building: Option<Seq<char>>,
    calls: i64,
)
    ensures
        decode_entry_wire(entry_wire(name, email, building, calls)) == Some(
            (name, email, building, calls),
        ),
{
    let s = entry_wire(name, email, building, calls);
    let a = ent_open();
    let en = esc_str(name);
    let b = ent_email();
    let ee = esc_str(email);
    let c = ent_building();
    let bw = building_wire(building);
    let d = ent_calls();
    let ic = int_chars(calls);
    reveal_strlit("{\"name\":\"");
    reveal_strlit(",\"email\":\"");
    reveal_strlit(",\"building\":");
    reveal_strlit(",\"calls\":");
    reveal_strlit("null");
    let p1 = a.len() as int;
    let p2 = p1 + en.len();
    let p3 = p2 + 1;
    let p4 = p3 + b.len();
    let p5 = p4 + ee.len();
    let p6 = p5 + 1;
    let p7 = p6 + c.len();
    let p8 = p7 + bw.len();
    let p9 = p8 + d.len();
    let p10 = p9 + ic.len();
    assert(s.len() == p10 + 1);
    assert(s.subrange(0, p1) =~= a);
    assert(matches_at(s, 0, a));
    assert(s.subrange(p1, p2) =~= en);
    assert(s[p2] == '"');
    lemma_take_string_escaped(s, p1, name);
    assert(take_string(s, p1) == Some((name, p3)));
    assert(s.subrange(p3, p4) =~= b);
    assert(matches_at(s, p3, b));
    assert(s.subrange(p4, p5) =~= ee);
    assert(s[p5] == '"');
    lemma_take_string_escaped(s, p4, email);
    assert(take_string(s, p4) == Some((email, p6)));
    assert(s.subrange(p6, p7) =~= c);
    assert(matches_at(s, p6, c));
    match building {
        Some(bv) => {
            assert(s[p7] == '"');
            assert(s.subrange(p7 + 1, p8 - 1) =~= esc_str(bv)) by {
                assert forall|x: int| 0 <= x < esc_str(bv).len() implies s.subrange(
                    p7 + 1,
                    p8 - 1,
                )[x] == esc_str(bv)[x] by {
                    assert(s.subrange(p7 + 1, p8 - 1)[x] == s[p7 + 1 + x]);
                    assert(bw[1 + x] == esc_str(bv)[x]);
                }
            }
            assert(s[p8 - 1] == bw[bw.len() - 1]);
            assert(s[p8 - 1] == '"');
            lemma_take_string_escaped(s, p7 + 1, bv);
            assert(take_string(s, p7 + 1) == Some((bv, p8)));
            assert(take_building(s, p7) == Some((building, p8)));
        },
        None => {
            assert(s.subrange(p7, p8) =~= "null"@);
            assert(matches_at(s, p7, "null"@));
            assert(s[p7] == 'n');
            assert(take_building(s, p7) == Some((building, p8)));
        },
    }
    assert(s.subrange(p8, p9) =~= d);
    assert(matches_at(s, p8, d));
    assert(s.subrange(p9, p10) =~= ic);
    assert(s[p10] == '}');
    assert(!is_digit(s[p10]));
    lemma_take_int_chars(s, p9, calls);
    assert(take_int(s, p9) == Some((calls, p10)));
}

} // verus!
