//! The access gate: the per-request admission decision. The decision is a
//! function of the stored texts, the supplied token, and the billing
//! period; `gate_decision` states it, `authorize` computes it against the
//! in-memory store, and the step functions compute it piecewise over plain
//! values for a caller that drives an external store itself.
//!
//! The quota boundary is deliberate and exact: a record with monthly limit
//! N passes usage counts 0 through N inclusive — the comparison is strictly
//! `usage > limit` — so with a fresh counter the (N+1)-th request is the
//! last allowed one and the (N+2)-th is the first rejected.

use vstd::prelude::*;
use vstd::string::*;
use crate::errors::{Decision, Failure, RejectReason};
use crate::quota::{counter_key, counter_key_view, counter_val, current_usage, lemma_counter_val_bound, record_usage, usage_view, COUNTER_TTL_SECONDS};
use crate::records::{decode_access_record, decode_record_wire, AccessRecord};
use crate::registry::lookup_view;
use crate::store::{RecordStore, TextData};
use crate::text::{dec_chars, is_trial_email, check_trial_email, chars_to_string, number_cap, push_dec};
use crate::json::lemma_pow10_19;

verus! {

/// The view of an optional token.
pub open spec fn opt_str_view(token: Option<&str>) -> Option<Seq<char>> {
    match token {
        Some(t) => Some(t@),
        None => None,
    }
}

/// The admission decision, in order, each step short-circuiting: no token;
/// unknown token; malformed record; revoked; malformed counter; usage
/// strictly above the limit; otherwise allowed.
pub open spec fn gate_decision(
    texts: Map<Seq<char>, TextData>,
    token: Option<Seq<char>>,
    period: Seq<char>,
) -> Decision {
    match token {
        None => Decision::Reject(RejectReason::MissingToken),
        Some(t) => match lookup_view(texts, t) {
            Err(Failure::NotFound) => Decision::Reject(RejectReason::NotRegistered),
            Err(_) => Decision::Reject(RejectReason::Internal),
            Ok((email, limit, revoked)) => if revoked {
                Decision::Reject(RejectReason::Revoked)
            } else {
                match usage_view(texts, period, email) {
                    None => Decision::Reject(RejectReason::Internal),
                    Some(usage) => if usage > limit {
                        Decision::Reject(RejectReason::LimitExceeded)
                    } else {
                        Decision::Allow
                    },
                }
            },
        },
    }
}

/// What the stored texts look like after one admission: unchanged unless
/// the request was allowed for a non-trial address, in which case its
/// period counter advances by one, with the 40-day expiry.
pub open spec fn gate_texts_after(
    texts: Map<Seq<char>, TextData>,
    token: Option<Seq<char>>,
    period: Seq<char>,
) -> Map<Seq<char>, TextData> {
    if gate_decision(texts, token, period) == Decision::Allow {
        let (email, limit, revoked) = lookup_view(texts, token->0)->Ok_0;
        if is_trial_email(email) {
            texts
        } else {
            let usage = usage_view(texts, period, email)->0;
            texts.insert(
                counter_key_view(period, email),
                TextData {
                    value: dec_chars((usage + 1) as nat),
                    ttl: Some(COUNTER_TTL_SECONDS),
                },
            )
        }
    } else {
        texts
    }
}

/// The outcome of one read against the store, as a caller driving an
/// external store reports it.
pub enum StoreFetch {
    /// The key holds this text.
    Value(String),
    /// The key is absent.
    Absent,
    /// The store could not be reached.
    Unavailable,
}

/// After fetching the token's record: turned away, or admitted to the
/// quota check with the decoded record.
pub enum RecordStep {
    Deny(RejectReason),
    Quota(AccessRecord),
}

/// Decides on the fetched token record: absent tokens are not registered,
/// unreachable stores and malformed records are internal faults, revoked
/// records are turned away, and anything else goes on to the quota check.
pub fn gate_record_step(fetch: StoreFetch) -> (r: RecordStep)
    ensures
        match fetch {
            StoreFetch::Absent => r == RecordStep::Deny(RejectReason::NotRegistered),
            StoreFetch::Unavailable => r == RecordStep::Deny(RejectReason::Internal),
            StoreFetch::Value(s) => match decode_record_wire(s@) {
                None => r == RecordStep::Deny(RejectReason::Internal),
                Some((email, limit, revoked)) => if revoked {
                    r == RecordStep::Deny(RejectReason::Revoked)
                } else {
                    match r {
                        RecordStep::Quota(rec) => rec.user_email@ == email && rec.monthly_limit
                            == limit && !rec.revoked && rec.token is None,
                        RecordStep::Deny(_) => false,
                    }
                },
            },
        },
{
    match fetch {
        StoreFetch::Absent => RecordStep::Deny(RejectReason::NotRegistered),
        StoreFetch::Unavailable => RecordStep::Deny(RejectReason::Internal),
        StoreFetch::Value(s) => match decode_access_record(s.as_str()) {
            None => RecordStep::Deny(RejectReason::Internal),
            Some(rec) => {
                if rec.revoked {
                    RecordStep::Deny(RejectReason::Revoked)
                } else {
                    RecordStep::Quota(rec)
                }
            },
        },
    }
}

/// After fetching the period counter: turned away; allowed with a counter
/// write to perform; or allowed with nothing to write, for a trial address.
pub enum QuotaStep {
    Deny(RejectReason),
    Commit { key: String, value: String, ttl_seconds: u64 },
    AllowExempt,
}

/// Decides on the fetched counter for `record`: an unreachable store or an
/// unreadable counter is an internal fault; an absent counter reads as
/// zero; usage strictly above the record's limit is turned away; a trial
/// address is allowed without counting; anything else is allowed once the
/// returned counter write is performed.
pub fn gate_quota_step(record: &AccessRecord, period: &str, fetch: StoreFetch) -> (r: QuotaStep)
    ensures
        ({
            let usage = match fetch {
                StoreFetch::Absent => Some(0u64),
                StoreFetch::Value(s) => counter_val(s@),
                StoreFetch::Unavailable => None,
            };
            match fetch {
                StoreFetch::Unavailable => r == QuotaStep::Deny(RejectReason::Internal),
                _ => match usage {
                    None => r == QuotaStep::Deny(RejectReason::Internal),
                    Some(u) => if u > record.monthly_limit {
                        r == QuotaStep::Deny(RejectReason::LimitExceeded)
                    } else if is_trial_email(record.user_email@) {
                        r == QuotaStep::AllowExempt
                    } else {
                        match r {
                            QuotaStep::Commit { key, value, ttl_seconds } => key@
                                == counter_key_view(period@, record.user_email@) && value@
                                == dec_chars((u + 1) as nat) && ttl_seconds == COUNTER_TTL_SECONDS,
                            _ => false,
                        }
                    },
                },
            }
        }),
{
    let usage: u64 = match fetch {
        StoreFetch::Absent => 0,
        StoreFetch::Value(s) => match crate::quota::parse_counter(s.as_str()) {
            Some(u) => {
                proof {
                    lemma_counter_val_bound(s@);
                }
                u
            },
            None => {
                return QuotaStep::Deny(RejectReason::Internal);
            },
        },
        StoreFetch::Unavailable => {
            return QuotaStep::Deny(RejectReason::Internal);
        },
    };
    if usage > record.monthly_limit {
        return QuotaStep::Deny(RejectReason::LimitExceeded);
    }
    if check_trial_email(record.user_email.as_str()) {
        return QuotaStep::AllowExempt;
    }
    proof {
        lemma_pow10_19();
    }
    let key = counter_key(period, record.user_email.as_str());
    let mut v: Vec<char> = Vec::new();
    push_dec(&mut v, usage + 1);
    let value = chars_to_string(&v);
    QuotaStep::Commit { key, value, ttl_seconds: COUNTER_TTL_SECONDS }
}

/// Decides on the counter write's outcome: a failed write is an internal
/// fault, a completed one admits the request.
pub fn gate_commit_step(write_done: bool) -> (r: Decision)
    ensures
        r == (if write_done {
            Decision::Allow
        } else {
            Decision::Reject(RejectReason::Internal)
        }),
{
    if write_done {
        Decision::Allow
    } else {
        Decision::Reject(RejectReason::Internal)
    }
}

/// The per-request admission decision against the in-memory store: exactly
/// `gate_decision`, and on an allowed request for a non-trial address the
/// period counter advances by one.
pub fn authorize(store: &mut RecordStore, token: Option<&str>, period: &str) -> (d: Decision)
    requires
        old(store).wf(),
    ensures
        final(store).wf(),
        d == gate_decision(old(store).texts(), opt_str_view(token), period@),
        final(store).texts() == gate_texts_after(old(store).texts(), opt_str_view(token), period@),
        final(store).lists() == old(store).lists(),
{
    let t = match token {
        None => {
            return Decision::Reject(RejectReason::MissingToken);
        },
        Some(t) => t,
    };
    let fetch = match store.get(t) {
        Some(v) => StoreFetch::Value(v),
        None => StoreFetch::Absent,
    };
    let record = match gate_record_step(fetch) {
        RecordStep::Deny(reason) => {
            return Decision::Reject(reason);
        },
        RecordStep::Quota(rec) => rec,
    };
    let ckey = counter_key(period, record.user_email.as_str());
    let cfetch = match store.get(ckey.as_str()) {
        Some(v) => StoreFetch::Value(v),
        None => StoreFetch::Absent,
    };
    match gate_quota_step(&record, period, cfetch) {
        QuotaStep::Deny(reason) => Decision::Reject(reason),
        QuotaStep::AllowExempt => Decision::Allow,
        QuotaStep::Commit { key, value, ttl_seconds } => {
            store.set_with_expiry(key.as_str(), value.as_str(), ttl_seconds);
            Decision::Allow
        },
    }
}

/// Relies on chrono's `Utc::now` and its `%Y-%m` formatting: the current
/// UTC year zero-padded to at least four digits, a dash, and the month
/// zero-padded to two digits.
#[verifier::external_body]
fn current_period() -> (p: String)
    ensures
        p@.len() >= 7,
{
    chrono::Utc::now().format("%Y-%m").to_string()
}

/// The admission decision for the billing period the clock says it is:
/// `authorize` for the current UTC month, returned alongside the decision.
pub fn authorize_now(store: &mut RecordStore, token: Option<&str>) -> (r: (Decision, String))
    requires
        old(store).wf(),
    ensures
        final(store).wf(),
        r.0 == gate_decision(old(store).texts(), opt_str_view(token), r.1@),
        final(store).texts() == gate_texts_after(old(store).texts(), opt_str_view(token), r.1@),
        final(store).lists() == old(store).lists(),
{
    let period = current_period();
    let d = authorize(store, token, period.as_str());
    (d, period)
}

} // verus!
