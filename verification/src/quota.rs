//! The quota ledger: the usage counter for a billing period lives under
//! `counter/{period}/{email}`, where the period is the UTC year and month.
//! An absent key reads as zero usage. Counters are written with a 40-day
//! expiry so stale periods clean themselves up; there is no explicit
//! rollover, the key namespace itself encodes the period. Trial addresses
//! are exempt from counting: recording usage for one changes nothing.

use vstd::prelude::*;
use vstd::string::*;
use crate::json::{lemma_pow10_19, scan_number, take_number};
use crate::store::{RecordStore, TextData};
use crate::text::{check_trial_email, chars_to_string, dec_chars, is_trial_email, number_cap, push_chars, push_dec, str_chars};
use crate::errors::Failure;

verus! {

/// Counters are written with a 40-day expiry, in seconds.
pub const COUNTER_TTL_SECONDS: u64 = 60 * 60 * 24 * 40;

/// The counter key for one address in one period.
pub open spec fn counter_key_view(period: Seq<char>, email: Seq<char>) -> Seq<char> {
    "counter/"@ + period + "/"@ + email
}

/// Builds the counter key for one address in one period.
pub fn counter_key(period: &str, email: &str) -> (k: String)
    ensures
        k@ == counter_key_view(period@, email@),
{
    let mut v: Vec<char> = Vec::new();
    push_chars(&mut v, "counter/");
    push_chars(&mut v, period);
    push_chars(&mut v, "/");
    push_chars(&mut v, email);
    chars_to_string(&v)
}

/// The value of a stored counter: the whole text must be one unsigned
/// number; anything else is malformed.
pub open spec fn counter_val(s: Seq<char>) -> Option<u64> {
    match take_number(s, 0) {
        Some((v, e)) => if e == s.len() {
            Some(v)
        } else {
            None
        },
        None => None,
    }
}

/// A stored counter always reads back below the number cap.
pub proof fn lemma_counter_val_bound(s: Seq<char>)
    ensures
        match counter_val(s) {
            Some(v) => v < number_cap(),
            None => true,
        },
{
    lemma_pow10_19();
    if counter_val(s) is Some {
        crate::json::lemma_digits_end(s, 0);
        crate::json::lemma_dec_val_bound(s.subrange(0, crate::json::digits_end(s, 0)));
        crate::json::lemma_pow10_monotonic((crate::json::digits_end(s, 0) - 0) as nat, 19);
    }
}

/// The numeral of a counter value reads back as that value.
pub proof fn lemma_counter_round_trip(n: u64)
    requires
        n < number_cap(),
    ensures
        counter_val(dec_chars(n as nat)) == Some(n),
{
    let d = dec_chars(n as nat);
    crate::text::lemma_dec_val_of_dec_chars(n as nat);
    crate::text::lemma_dec_chars_len(n as nat, 19);
    crate::json::lemma_digits_end_is(d, 0, d.len() as int);
    if d[0] == '0' {
        assert(n == 0) by {
            if n >= 1 {
                assert(d[0] != '0');
            }
        }
    }
    assert(d.subrange(0, d.len() as int) =~= d);
    lemma_pow10_19();
}

/// Parses a stored counter value.
pub fn parse_counter(s: &str) -> (r: Option<u64>)
    ensures
        r == counter_val(s@),
{
    let v = str_chars(s);
    let n = v.len();
    match scan_number(&v, 0) {
        Some((x, e)) => {
            if e == n {
                Some(x)
            } else {
                None
            }
        },
        None => None,
    }
}

/// What the ledger reads for one address in one period: zero where the key
/// is absent, the stored number where it parses, malformed otherwise.
pub open spec fn usage_view(
    texts: Map<Seq<char>, TextData>,
    period: Seq<char>,
    email: Seq<char>,
) -> Option<u64> {
    let key = counter_key_view(period, email);
    if !texts.contains_key(key) {
        Some(0u64)
    } else {
        counter_val(texts[key].value)
    }
}

/// The usage counted so far for `email` in `period`: zero where no counter
/// is stored, and a decode failure where the stored value is not a number.
pub fn current_usage(store: &RecordStore, period: &str, email: &str) -> (r: Result<u64, Failure>)
    requires
        store.wf(),
    ensures
        match r {
            Ok(v) => usage_view(store.texts(), period@, email@) == Some(v) && v < number_cap(),
            Err(f) => usage_view(store.texts(), period@, email@) is None && f
                == Failure::DecodeError,
        },
{
    let key = counter_key(period, email);
    match store.get(key.as_str()) {
        None => {
            proof {
                lemma_pow10_19();
            }
            Ok(0)
        },
        Some(v) => match parse_counter(v.as_str()) {
            Some(x) => {
                proof {
                    lemma_counter_val_bound(v@);
                }
                Ok(x)
            },
            None => Err(Failure::DecodeError),
        },
    }
}

/// Advances the counter for `email` in `period` to one past `usage`,
/// with the 40-day expiry — unless `email` is a trial address: usage by
/// trial addresses is never counted, and the store is left untouched.
pub fn record_usage(store: &mut RecordStore, period: &str, email: &str, usage: u64)
    requires
        old(store).wf(),
        usage < number_cap(),
    ensures
        final(store).wf(),
        final(store).lists() == old(store).lists(),
        is_trial_email(email@) ==> final(store).texts() == old(store).texts(),
        !is_trial_email(email@) ==> final(store).texts() == old(store).texts().insert(
            counter_key_view(period@, email@),
            TextData { value: dec_chars((usage + 1) as nat), ttl: Some(COUNTER_TTL_SECONDS) },
        ),
{
    if check_trial_email(email) {
        return ;
    }
    proof {
        lemma_pow10_19();
    }
    let key = counter_key(period, email);
    let mut v: Vec<char> = Vec::new();
    push_dec(&mut v, usage + 1);
    let value = chars_to_string(&v);
    store.set_with_expiry(key.as_str(), value.as_str(), COUNTER_TTL_SECONDS);
}

} // verus!
