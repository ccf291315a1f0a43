//! The request boundary: one mapping from outcomes to status codes and
//! `{"message":...}` bodies, shared by every route instead of being
//! re-derived per endpoint. Business-rule rejections map to specific
//! client-facing codes and messages; store faults surface as a generic
//! internal error.

use vstd::prelude::*;
use vstd::string::*;
use crate::approval::{ApproveOutcome, RevokeOutcome};
use crate::errors::{Decision, Failure, RejectReason};
use crate::json::{esc_str, push_escaped};
use crate::records::entry_wire;
use crate::text::{chars_to_string, push_chars};
use crate::waitlist::EntryData;
use crate::records::WaitingEntry;
use crate::waitlist::{entry_view, entry_views};

verus! {

/// The health probe's answer.
pub fn health_response() -> (r: (u16, String))
    ensures
        r.0 == 200,
        r.1@ == "OK"@,
{
    (200, "OK".to_owned())
}

/// The admission decision's answer: empty-bodied success, or the specific
/// unauthorized, rate-limited or internal-error body.
pub fn decision_response(d: &Decision) -> (r: (u16, String))
    ensures
        match d {
            Decision::Allow => r.0 == 200 && r.1@ == ""@,
            Decision::Reject(RejectReason::MissingToken) => r.0 == 401 && r.1@
                == "{\"message\":\"Token must be supplied\"}"@,
            Decision::Reject(RejectReason::NotRegistered) => r.0 == 401 && r.1@
                == "{\"message\":\"Token not registered\"}"@,
            Decision::Reject(RejectReason::Revoked) => r.0 == 401 && r.1@
                == "{\"message\":\"Token has been revoked\"}"@,
            Decision::Reject(RejectReason::LimitExceeded) => r.0 == 429 && r.1@
                == "{\"message\":\"Monthly limit exceeded\"}"@,
            Decision::Reject(RejectReason::Internal) => r.0 == 500 && r.1@
                == "{\"message\":\"Internal server error\"}"@,
        },
{
    match d {
        Decision::Allow => (200, "".to_owned()),
        Decision::Reject(RejectReason::MissingToken) => (
            401,
            "{\"message\":\"Token must be supplied\"}".to_owned(),
        ),
        Decision::Reject(RejectReason::NotRegistered) => (
            401,
            "{\"message\":\"Token not registered\"}".to_owned(),
        ),
        Decision::Reject(RejectReason::Revoked) => (
            401,
            "{\"message\":\"Token has been revoked\"}".to_owned(),
        ),
        Decision::Reject(RejectReason::LimitExceeded) => (
            429,
            "{\"message\":\"Monthly limit exceeded\"}".to_owned(),
        ),
        Decision::Reject(RejectReason::Internal) => (
            500,
            "{\"message\":\"Internal server error\"}".to_owned(),
        ),
    }
}

/// The registration route's answer: created, already pending, or an
/// internal fault.
pub fn register_response(r: &Result<(), Failure>) -> (out: (u16, String))
    ensures
        match r {
            Ok(_) => out.0 == 201 && out.1@ == "{\"message\":\"Created\"}"@,
            Err(Failure::AlreadyExists) => out.0 == 202 && out.1@ == "{\"message\":\"Accepted\"}"@,
            Err(_) => out.0 == 500 && out.1@ == "{\"message\":\"Internal Server Error\"}"@,
        },
{
    match r {
        Ok(_) => (201, "{\"message\":\"Created\"}".to_owned()),
        Err(Failure::AlreadyExists) => (202, "{\"message\":\"Accepted\"}".to_owned()),
        Err(_) => (500, "{\"message\":\"Internal Server Error\"}".to_owned()),
    }
}

/// The serialized entries joined by commas.
pub open spec fn entries_joined(es: Seq<EntryData>) -> Seq<char>
    decreases es.len(),
{
    if es.len() == 0 {
        Seq::empty()
    } else if es.len() == 1 {
        entry_wire(es[0].name, es[0].email, es[0].building, es[0].calls)
    } else {
        entries_joined(es.drop_last()) + seq![','] + entry_wire(
            es.last().name,
            es.last().email,
            es.last().building,
            es.last().calls,
        )
    }
}

/// The pending list's body: a JSON array of the entries, in order.
pub open spec fn entries_body(es: Seq<EntryData>) -> Seq<char> {
    seq!['['] + entries_joined(es) + seq![']']
}

/// Serializes the pending entries as a JSON array, in insertion order.
pub fn encode_entries(es: &Vec<WaitingEntry>) -> (s: String)
    ensures
        s@ == entries_body(entry_views(es@)),
{
    let mut v: Vec<char> = Vec::new();
    push_chars(&mut v, "[");
    proof {
        reveal_strlit("[");
        assert("["@ =~= seq!['[']);
        assert(entry_views(es@.subrange(0, 0)) =~= Seq::<EntryData>::empty());
        assert(v@ =~= seq!['['] + entries_joined(entry_views(es@.subrange(0, 0))));
    }
    let n = es.len();
    let mut i: usize = 0;
    while i < n
        invariant
            i <= n,
            n == es@.len(),
            v@ == seq!['['] + entries_joined(entry_views(es@.subrange(0, i as int))),
        decreases n - i,
    {
        if i > 0 {
            push_chars(&mut v, ",");
        }
        let s = crate::records::encode_waiting_entry(&es[i]);
        push_chars(&mut v, s.as_str());
        proof {
            reveal_strlit(",");
            assert(","@ =~= seq![',']);
            let views = entry_views(es@);
            assert(entry_views(es@.subrange(0, i + 1)).drop_last() =~= entry_views(
                es@.subrange(0, i as int),
            ));
            assert(entry_views(es@.subrange(0, i + 1)).last() == entry_view(es@[i as int]));
            if i == 0 {
                assert(entry_views(es@.subrange(0, 1)).len() == 1);
                assert(entry_views(es@.subrange(0, 1))[0] == entry_view(es@[0]));
            }
            assert(v@ =~= seq!['['] + entries_joined(entry_views(es@.subrange(0, i + 1))));
        }
        i = i + 1;
    }
    push_chars(&mut v, "]");
    proof {
        reveal_strlit("]");
        assert("]"@ =~= seq![']']);
        assert(es@.subrange(0, n as int) =~= es@);
        assert(v@ =~= entries_body(entry_views(es@)));
    }
    chars_to_string(&v)
}

/// The pending route's answer: the entries as a JSON array, or an internal
/// fault.
pub fn pending_response(r: &Result<Vec<WaitingEntry>, Failure>) -> (out: (u16, String))
    ensures
        match r {
            Ok(es) => out.0 == 200 && out.1@ == entries_body(entry_views(es@)),
            Err(_) => out.0 == 500 && out.1@ == "{\"message\":\"Internal Server Error\"}"@,
        },
{
    match r {
        Ok(es) => (200, encode_entries(es)),
        Err(_) => (500, "{\"message\":\"Internal Server Error\"}".to_owned()),
    }
}

/// The approval route's answer.
pub fn approve_response(o: &ApproveOutcome) -> (out: (u16, String))
    ensures
        match o {
            ApproveOutcome::Approved => out.0 == 200 && out.1@ == "{\"message\":\"OK\"}"@,
            ApproveOutcome::EmailNotListed => out.0 == 400 && out.1@
                == "{\"message\":\"Email does not exists\"}"@,
            ApproveOutcome::TokenTaken => out.0 == 400 && out.1@
                == "{\"message\":\"Token already exists\"}"@,
            ApproveOutcome::EmptyToken => out.0 == 400 && out.1@
                == "{\"message\":\"User seemed to be approved already\"}"@,
            ApproveOutcome::ListCorrupt => out.0 == 500 && out.1@
                == "{\"message\":\"Internal Server Error\"}"@,
            ApproveOutcome::StoreUnreachable => out.0 == 500 && out.1@
                == "{\"message\":\"Internal Server Error\"}"@,
        },
{
    match o {
        ApproveOutcome::Approved => (200, "{\"message\":\"OK\"}".to_owned()),
        ApproveOutcome::EmailNotListed => (
            400,
            "{\"message\":\"Email does not exists\"}".to_owned(),
        ),
        ApproveOutcome::TokenTaken => (400, "{\"message\":\"Token already exists\"}".to_owned()),
        ApproveOutcome::EmptyToken => (
            400,
            "{\"message\":\"User seemed to be approved already\"}".to_owned(),
        ),
        ApproveOutcome::ListCorrupt => (
            500,
            "{\"message\":\"Internal Server Error\"}".to_owned(),
        ),
        ApproveOutcome::StoreUnreachable => (
            500,
            "{\"message\":\"Internal Server Error\"}".to_owned(),
        ),
    }
}

/// The revocation route's answer.
pub fn revoke_response(o: &RevokeOutcome) -> (out: (u16, String))
    ensures
        match o {
            RevokeOutcome::Revoked => out.0 == 200 && out.1@ == "{\"message\":\"OK\"}"@,
            RevokeOutcome::UnknownToken => out.0 == 400 && out.1@
                == "{\"message\":\"User does not exists\"}"@,
            RevokeOutcome::AlreadyRevoked => out.0 == 400 && out.1@
                == "{\"message\":\"User seemed to be revoked already\"}"@,
            RevokeOutcome::RecordCorrupt => out.0 == 500 && out.1@
                == "{\"message\":\"Internal Server Error\"}"@,
            RevokeOutcome::StoreUnreachable => out.0 == 500 && out.1@
                == "{\"message\":\"Internal Server Error\"}"@,
        },
{
    match o {
        RevokeOutcome::Revoked => (200, "{\"message\":\"OK\"}".to_owned()),
        RevokeOutcome::UnknownToken => (400, "{\"message\":\"User does not exists\"}".to_owned()),
        RevokeOutcome::AlreadyRevoked => (
            400,
            "{\"message\":\"User seemed to be revoked already\"}".to_owned(),
        ),
        RevokeOutcome::RecordCorrupt => (
            500,
            "{\"message\":\"Internal Server Error\"}".to_owned(),
        ),
        RevokeOutcome::StoreUnreachable => (
            500,
            "{\"message\":\"Internal Server Error\"}".to_owned(),
        ),
    }
}

/// The trial route's success body: the issued token as a JSON object.
pub fn trial_response(token: &str) -> (out: (u16, String))
    ensures
        out.0 == 200,
        out.1@ == "{\"token\":\""@ + esc_str(token@) + "\"}"@,
{
    let mut v: Vec<char> = Vec::new();
    push_chars(&mut v, "{\"token\":\"");
    push_escaped(&mut v, token);
    push_chars(&mut v, "\"}");
    proof {
        assert(v@ =~= "{\"token\":\""@ + esc_str(token@) + "\"}"@);
    }
    (200, chars_to_string(&v))
}

} // verus!
