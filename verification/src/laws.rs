//! The gateway's laws, each proved over the same views the functions'
//! own contracts use: what the access gate answers for unknown, revoked and
//! over-quota tokens, the exact quota boundary over a run of admissions,
//! and what a lookup sees right after an approval or a revocation.

use vstd::prelude::*;
use vstd::string::*;
use crate::errors::{Decision, Failure, RejectReason};
use crate::gate::{gate_decision, gate_texts_after};
use crate::quota::{counter_key_view, lemma_counter_round_trip, usage_view, COUNTER_TTL_SECONDS};
use crate::records::{decode_record_wire, lemma_record_round_trip, record_wire};
use crate::registry::lookup_view;
use crate::store::TextData;
use crate::text::{dec_chars, is_trial_email, number_cap};

verus! {

/// A token that is not a stored key is rejected as not registered, with
/// the store left untouched.
pub proof fn lemma_unregistered_token_rejected(
    texts: Map<Seq<char>, TextData>,
    token: Seq<char>,
    period: Seq<char>,
)
    requires
        !texts.contains_key(token),
    ensures
        gate_decision(texts, Some(token), period) == Decision::Reject(RejectReason::NotRegistered),
        gate_texts_after(texts, Some(token), period) == texts,
{
}

/// A revoked record is rejected whatever the quota state holds, with the
/// store left untouched.
pub proof fn lemma_revoked_rejected(
    texts: Map<Seq<char>, TextData>,
    token: Seq<char>,
    period: Seq<char>,
    email: Seq<char>,
    limit: u64,
)
    requires
        texts.contains_key(token),
        decode_record_wire(texts[token].value) == Some((email, limit, true)),
    ensures
        gate_decision(texts, Some(token), period) == Decision::Reject(RejectReason::Revoked),
        gate_texts_after(texts, Some(token), period) == texts,
{
}

/// The stored texts after `n` admissions of the same token in one period.
pub open spec fn iterate_gate(
    texts: Map<Seq<char>, TextData>,
    token: Seq<char>,
    period: Seq<char>,
    n: nat,
) -> Map<Seq<char>, TextData>
    decreases n,
{
    if n == 0 {
        texts
    } else {
        gate_texts_after(iterate_gate(texts, token, period, (n - 1) as nat), Some(token), period)
    }
}

/// The exact quota boundary over a run of admissions. For a stored,
/// unrevoked record with monthly limit N and a non-trial address whose
/// period counter starts absent: after n admissions the counter stands at
/// n, each of those admissions was of a usage count at most N, and the
/// next admission is allowed exactly while the usage count n is at most N
/// — so the (N+1)-th call is the last allowed one and the (N+2)-th is the
/// first rejected, usage strictly greater than the limit being required to
/// reject. Runs long enough to overflow the counter's 19-digit numeral
/// cannot arise on stored counters and are left out.
pub proof fn lemma_quota_boundary(
    texts: Map<Seq<char>, TextData>,
    token: Seq<char>,
    period: Seq<char>,
    email: Seq<char>,
    limit: u64,
    n: nat,
)
    requires
        texts.contains_key(token),
        decode_record_wire(texts[token].value) == Some((email, limit, false)),
        !is_trial_email(email),
        !texts.contains_key(counter_key_view(period, email)),
        token != counter_key_view(period, email),
        n <= limit + 1,
        n < number_cap(),
    ensures
        iterate_gate(texts, token, period, n) == (if n == 0 {
            texts
        } else {
            texts.insert(
                counter_key_view(period, email),
                TextData { value: dec_chars(n), ttl: Some(COUNTER_TTL_SECONDS) },
            )
        }),
        gate_decision(iterate_gate(texts, token, period, n), Some(token), period) == (if n <= limit {
            Decision::Allow
        } else {
            Decision::Reject(RejectReason::LimitExceeded)
        }),
    decreases n,
{
    let ckey = counter_key_view(period, email);
    crate::json::lemma_pow10_19();
    assert(n < 10000000000000000000);
    if n == 0 {
        assert(usage_view(texts, period, email) == Some(0u64));
    } else {
        lemma_quota_boundary(texts, token, period, email, limit, (n - 1) as nat);
        let prev = iterate_gate(texts, token, period, (n - 1) as nat);
        assert(gate_decision(prev, Some(token), period) == Decision::Allow);
        if n == 1 {
            assert(usage_view(prev, period, email) == Some(0u64));
        } else {
            lemma_counter_round_trip((n - 1) as u64);
            assert(prev[ckey].value == dec_chars((n - 1) as nat));
            assert(usage_view(prev, period, email) == Some((n - 1) as u64));
        }
        let cur = iterate_gate(texts, token, period, n);
        assert(cur == gate_texts_after(prev, Some(token), period));
        if n > 1 {
            assert(texts.insert(
                ckey,
                TextData { value: dec_chars((n - 1) as nat), ttl: Some(COUNTER_TTL_SECONDS) },
            ).insert(ckey, TextData { value: dec_chars(n), ttl: Some(COUNTER_TTL_SECONDS) })
                =~= texts.insert(
                ckey,
                TextData { value: dec_chars(n), ttl: Some(COUNTER_TTL_SECONDS) },
            ));
        }
        lemma_counter_round_trip(n as u64);
        assert(cur.contains_key(token) && cur[token] == texts[token]);
        assert(usage_view(cur, period, email) == Some(n as u64));
    }
}

/// An approval followed at once by a lookup of the same token yields a
/// record that is not revoked and carries the submitted email and limit.
pub proof fn lemma_approve_then_lookup(
    texts: Map<Seq<char>, TextData>,
    token: Seq<char>,
    email: Seq<char>,
    limit: u64,
)
    requires
        limit < number_cap(),
    ensures
        lookup_view(
            texts.insert(token, TextData { value: record_wire(email, limit, false), ttl: None }),
            token,
        ) == Ok::<_, Failure>((email, limit, false)),
{
    lemma_record_round_trip(email, limit, false);
}

/// A revocation followed by a lookup of the same token yields the record
/// revoked, with the email and limit it held before unchanged.
pub proof fn lemma_revoke_then_lookup(
    texts: Map<Seq<char>, TextData>,
    token: Seq<char>,
    email: Seq<char>,
    limit: u64,
    was_revoked: bool,
)
    requires
        limit < number_cap(),
        lookup_view(texts, token) == Ok::<_, Failure>((email, limit, was_revoked)),
    ensures
        lookup_view(
            texts.insert(token, TextData { value: record_wire(email, limit, true), ttl: None }),
            token,
        ) == Ok::<_, Failure>((email, limit, true)),
{
    lemma_record_round_trip(email, limit, true);
}

} // verus!
