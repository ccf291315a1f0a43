//! The approval workflow: promoting a waiting-list entry to an active
//! token record, and marking an existing record revoked. Approval writes
//! the record with `revoked` false; revocation rewrites the same key with
//! `revoked` true and every other field unchanged, and is one-way — there
//! is no un-revoke, and records are never physically deleted.

use vstd::prelude::*;
use vstd::string::*;
use crate::errors::Failure;
use crate::records::{encode_access_record, record_wire, AccessRecord};
use crate::registry::{lookup_view, resolve};
use crate::store::{RecordStore, TextData};
use crate::gate::StoreFetch;
use crate::waitlist::{decode_all, email_listed, raw_list, remove, survivors, wl_key};

verus! {

/// Writes the candidate's record under its token with `revoked` false,
/// whatever was there before; a candidate without a token is missing its
/// required field. This function alone does not consult the waiting list
/// or check for an existing record — that is the composing workflow's
/// contract, kept in `approve_workflow`.
pub fn approve(store: &mut RecordStore, candidate: &AccessRecord) -> (r: Result<(), Failure>)
    requires
        old(store).wf(),
    ensures
        final(store).wf(),
        final(store).lists() == old(store).lists(),
        match candidate.token {
            None => r == Err::<(), Failure>(Failure::EmptyInput) && final(store).texts() == old(
                store,
            ).texts(),
            Some(t) => r == Ok::<(), Failure>(()) && final(store).texts() == old(
                store,
            ).texts().insert(
                t@,
                TextData {
                    value: record_wire(candidate.user_email@, candidate.monthly_limit, false),
                    ttl: None,
                },
            ),
        },
{
    let token = match &candidate.token {
        None => {
            return Err(Failure::EmptyInput);
        },
        Some(t) => t,
    };
    let record = AccessRecord {
        token: None,
        user_email: candidate.user_email.clone(),
        monthly_limit: candidate.monthly_limit,
        revoked: false,
    };
    let value = encode_access_record(&record);
    store.set(token.as_str(), value.as_str());
    Ok(())
}

/// Rewrites the record under `token` with `revoked` true and the other
/// fields as given. Revoking an already revoked record rewrites the same
/// bytes: revocation is idempotent in effect.
pub fn revoke(store: &mut RecordStore, token: &str, record: &AccessRecord)
    requires
        old(store).wf(),
    ensures
        final(store).wf(),
        final(store).lists() == old(store).lists(),
        final(store).texts() == old(store).texts().insert(
            token@,
            TextData {
                value: record_wire(record.user_email@, record.monthly_limit, true),
                ttl: None,
            },
        ),
{
    let revoked = AccessRecord {
        token: None,
        user_email: record.user_email.clone(),
        monthly_limit: record.monthly_limit,
        revoked: true,
    };
    let value = encode_access_record(&revoked);
    store.set(token, value.as_str());
}

/// Resolves `token` in the approval domain: the same contract as the
/// registry's resolve, kept under its own name because it serves
/// idempotency checks before mutation, not request admission.
pub fn lookup_by_token(store: &RecordStore, token: &str) -> (r: Result<AccessRecord, Failure>)
    requires
        store.wf(),
    ensures
        match r {
            Ok(rec) => lookup_view(store.texts(), token@) == Ok::<_, Failure>(
                (rec.user_email@, rec.monthly_limit, rec.revoked),
            ) && (match rec.token {
                Some(t) => t@ == token@,
                None => false,
            }),
            Err(f) => lookup_view(store.texts(), token@) == Err::<(Seq<char>, u64, bool),
                Failure,
            >(f),
        },
{
    resolve(store, token)
}

/// How an approval request lands.
#[derive(PartialEq, Eq, Structural, Clone, Copy, Debug)]
pub enum ApproveOutcome {
    /// The record is written and the entry is off the waiting list.
    Approved,
    /// The candidate has no token.
    EmptyToken,
    /// The candidate's email is not on the waiting list.
    EmailNotListed,
    /// The token is already a stored key.
    TokenTaken,
    /// A stored waiting-list entry is malformed.
    ListCorrupt,
    /// The store could not be reached. Only a plan against an external
    /// store reports this; the in-memory workflow never does.
    StoreUnreachable,
}

/// The composing approval workflow: the candidate must carry a token, its
/// email must be on the waiting list, and its token must not already be
/// registered; then the record is written with `revoked` false and every
/// entry with that email leaves the waiting list. Notification is the
/// caller's follow-up side effect: its failure must not undo an approval,
/// so it is no part of this contract.
pub fn approve_workflow(store: &mut RecordStore, candidate: &AccessRecord) -> (r: ApproveOutcome)
    requires
        old(store).wf(),
    ensures
        final(store).wf(),
        ({
            let texts = old(store).texts();
            let lists = old(store).lists();
            match decode_all(raw_list(lists)) {
                None => r == ApproveOutcome::ListCorrupt && final(store).texts() == texts && final(store).lists() == lists,
                Some(es) => match candidate.token {
                    None => r == ApproveOutcome::EmptyToken && final(store).texts() == texts
                        && final(store).lists() == lists,
                    Some(t) => if !email_listed(es, candidate.user_email@) {
                        r == ApproveOutcome::EmailNotListed && final(store).texts() == texts
                            && final(store).lists() == lists
                    } else if texts.contains_key(t@) {
                        r == ApproveOutcome::TokenTaken && final(store).texts() == texts && final(store).lists() == lists
                    } else {
                        r == ApproveOutcome::Approved && final(store).texts() == texts.insert(
                            t@,
                            TextData {
                                value: record_wire(
                                    candidate.user_email@,
                                    candidate.monthly_limit,
                                    false,
                                ),
                                ttl: None,
                            },
                        ).remove(wl_key()) && final(store).lists() == (if survivors(
                            es,
                            candidate.user_email@,
                        ).len() > 0 {
                            lists.remove(wl_key()).insert(
                                wl_key(),
                                survivors(es, candidate.user_email@),
                            )
                        } else {
                            lists.remove(wl_key())
                        })
                    },
                },
            }
        }),
{
    let entries = match crate::waitlist::list_all(store) {
        Ok(es) => es,
        Err(_) => {
            return ApproveOutcome::ListCorrupt;
        },
    };
    let token = match &candidate.token {
        None => {
            return ApproveOutcome::EmptyToken;
        },
        Some(t) => t,
    };
    let n = entries.len();
    let mut i: usize = 0;
    let mut listed = false;
    while i < n
        invariant
            i <= n,
            n == entries@.len(),
            listed ==> email_listed(crate::waitlist::entry_views(entries@), candidate.user_email@),
            !listed ==> forall|j: int|
                0 <= j < i ==> crate::waitlist::entry_views(entries@)[j].email
                    != candidate.user_email@,
        decreases n - i,
    {
        if !listed && crate::text::str_eq(
            entries[i].email.as_str(),
            candidate.user_email.as_str(),
        ) {
            proof {
                assert(crate::waitlist::entry_views(entries@)[i as int].email
                    == candidate.user_email@);
            }
            listed = true;
        }
        i = i + 1;
    }
    if !listed {
        proof {
            let es = crate::waitlist::entry_views(entries@);
            if email_listed(es, candidate.user_email@) {
                let j = choose|j: int| 0 <= j < es.len() && es[j].email == candidate.user_email@;
                assert(es[j].email != candidate.user_email@);
            }
        }
        return ApproveOutcome::EmailNotListed;
    }
    if store.get(token.as_str()).is_some() {
        return ApproveOutcome::TokenTaken;
    }
    let wrote = approve(store, candidate);
    proof {
        assert(wrote is Ok);
    }
    let removed = remove(store, candidate.user_email.as_str());
    proof {
        assert(removed is Ok);
    }
    ApproveOutcome::Approved
}

/// How a revocation request lands.
#[derive(PartialEq, Eq, Structural, Clone, Copy, Debug)]
pub enum RevokeOutcome {
    /// The record is rewritten with `revoked` true.
    Revoked,
    /// The token is not a stored key.
    UnknownToken,
    /// The record is already revoked; a second attempt is answered as a
    /// no-op rather than re-run.
    AlreadyRevoked,
    /// The stored record is malformed.
    RecordCorrupt,
    /// The store could not be reached. Only a plan against an external
    /// store reports this; the in-memory workflow never does.
    StoreUnreachable,
}

/// How an approval lands against fetched state: turned away with the
/// outcome to answer, or admitted with the record write to perform. The
/// caller then takes the matching entries off the waiting list and sends
/// the notification, whose failure must not undo the approval.
pub enum ApprovePlan {
    Refuse(ApproveOutcome),
    Write { key: String, value: String },
}

/// Decides an approval over plain values: the raw waiting list and the
/// fetch of the candidate's token key. The candidate must carry a token,
/// its email must be on the waiting list, and its token key must be
/// absent; then the record value to write is returned.
pub fn approve_plan(raw: &Vec<String>, token_fetch: StoreFetch, candidate: &AccessRecord) -> (r:
    ApprovePlan)
    ensures
        match decode_all(crate::store::strings_view(raw@)) {
            None => r == ApprovePlan::Refuse(ApproveOutcome::ListCorrupt),
            Some(es) => match candidate.token {
                None => r == ApprovePlan::Refuse(ApproveOutcome::EmptyToken),
                Some(t) => if !email_listed(es, candidate.user_email@) {
                    r == ApprovePlan::Refuse(ApproveOutcome::EmailNotListed)
                } else {
                    match token_fetch {
                        StoreFetch::Unavailable => r == ApprovePlan::Refuse(
                            ApproveOutcome::StoreUnreachable,
                        ),
                        StoreFetch::Value(_) => r == ApprovePlan::Refuse(
                            ApproveOutcome::TokenTaken,
                        ),
                        StoreFetch::Absent => match r {
                            ApprovePlan::Write { key, value } => key@ == t@ && value@
                                == record_wire(
                                candidate.user_email@,
                                candidate.monthly_limit,
                                false,
                            ),
                            _ => false,
                        },
                    }
                },
            },
        },
{
    let listed = match crate::waitlist::email_on_list(raw, candidate.user_email.as_str()) {
        Ok(b) => b,
        Err(_) => {
            return ApprovePlan::Refuse(ApproveOutcome::ListCorrupt);
        },
    };
    let token = match &candidate.token {
        None => {
            return ApprovePlan::Refuse(ApproveOutcome::EmptyToken);
        },
        Some(t) => t,
    };
    if !listed {
        return ApprovePlan::Refuse(ApproveOutcome::EmailNotListed);
    }
    match token_fetch {
        StoreFetch::Unavailable => ApprovePlan::Refuse(ApproveOutcome::StoreUnreachable),
        StoreFetch::Value(_) => ApprovePlan::Refuse(ApproveOutcome::TokenTaken),
        StoreFetch::Absent => {
            let record = AccessRecord {
                token: None,
                user_email: candidate.user_email.clone(),
                monthly_limit: candidate.monthly_limit,
                revoked: false,
            };
            let value = encode_access_record(&record);
            ApprovePlan::Write { key: token.clone(), value }
        },
    }
}

/// How a revocation lands against the fetched token key: turned away with
/// the outcome to answer, or admitted with the rewrite to perform.
pub enum RevokePlan {
    Refuse(RevokeOutcome),
    Write { key: String, value: String },
}

/// Decides a revocation over the fetch of the token's key: an absent key
/// is unknown, a malformed record a fault, an already revoked record a
/// no-op answer, and otherwise the rewrite with `revoked` true and every
/// other field unchanged is returned.
pub fn revoke_plan(token: &str, fetch: StoreFetch) -> (r: RevokePlan)
    ensures
        match fetch {
            StoreFetch::Absent => r == RevokePlan::Refuse(RevokeOutcome::UnknownToken),
            StoreFetch::Unavailable => r == RevokePlan::Refuse(RevokeOutcome::StoreUnreachable),
            StoreFetch::Value(s) => match crate::records::decode_record_wire(s@) {
                None => r == RevokePlan::Refuse(RevokeOutcome::RecordCorrupt),
                Some((email, limit, revoked)) => if revoked {
                    r == RevokePlan::Refuse(RevokeOutcome::AlreadyRevoked)
                } else {
                    match r {
                        RevokePlan::Write { key, value } => key@ == token@ && value@
                            == record_wire(email, limit, true),
                        _ => false,
                    }
                },
            },
        },
{
    match fetch {
        StoreFetch::Absent => RevokePlan::Refuse(RevokeOutcome::UnknownToken),
        StoreFetch::Unavailable => RevokePlan::Refuse(RevokeOutcome::StoreUnreachable),
        StoreFetch::Value(s) => match crate::records::decode_access_record(s.as_str()) {
            None => RevokePlan::Refuse(RevokeOutcome::RecordCorrupt),
            Some(rec) => {
                if rec.revoked {
                    RevokePlan::Refuse(RevokeOutcome::AlreadyRevoked)
                } else {
                    let rewritten = AccessRecord {
                        token: None,
                        user_email: rec.user_email.clone(),
                        monthly_limit: rec.monthly_limit,
                        revoked: true,
                    };
                    let value = encode_access_record(&rewritten);
                    RevokePlan::Write { key: token.to_owned(), value }
                }
            },
        },
    }
}

/// The composing revocation workflow: an unknown token is turned away, an
/// already revoked record is answered as a no-op, and otherwise the record
/// is rewritten under the same key with `revoked` true and every other
/// field unchanged.
pub fn revoke_workflow(store: &mut RecordStore, token: &str) -> (r: RevokeOutcome)
    requires
        old(store).wf(),
    ensures
        final(store).wf(),
        final(store).lists() == old(store).lists(),
        ({
            let texts = old(store).texts();
            match lookup_view(texts, token@) {
                Err(Failure::NotFound) => r == RevokeOutcome::UnknownToken && final(store).texts()
                    == texts,
                Err(_) => r == RevokeOutcome::RecordCorrupt && final(store).texts() == texts,
                Ok((email, limit, revoked)) => if revoked {
                    r == RevokeOutcome::AlreadyRevoked && final(store).texts() == texts
                } else {
                    r == RevokeOutcome::Revoked && final(store).texts() == texts.insert(
                        token@,
                        TextData { value: record_wire(email, limit, true), ttl: None },
                    )
                },
            }
        }),
{
    let record = match lookup_by_token(store, token) {
        Ok(rec) => rec,
        Err(Failure::NotFound) => {
            return RevokeOutcome::UnknownToken;
        },
        Err(_) => {
            return RevokeOutcome::RecordCorrupt;
        },
    };
    if record.revoked {
        return RevokeOutcome::AlreadyRevoked;
    }
    revoke(store, token, &record);
    RevokeOutcome::Revoked
}

} // verus!
