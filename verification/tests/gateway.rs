//! The access gate, quota ledger, waiting list, approval and trial flows,
//! exercised against the in-memory store.

use pesto_gateway::approval::{
    approve, approve_workflow, lookup_by_token, revoke_workflow, ApproveOutcome, RevokeOutcome,
};
use pesto_gateway::errors::{Decision, Failure, RejectReason};
use pesto_gateway::gate::{authorize, authorize_now};
use pesto_gateway::quota::{current_usage, parse_counter, record_usage};
use pesto_gateway::records::{AccessRecord, WaitingEntry};
use pesto_gateway::responses::{
    approve_response, decision_response, health_response, pending_response, register_response,
    revoke_response, trial_response,
};
use pesto_gateway::store::RecordStore;
use pesto_gateway::trial::issue;
use pesto_gateway::waitlist::{list_all, submit};

fn candidate(token: &str, email: &str, limit: u64) -> AccessRecord {
    AccessRecord {
        token: Some(token.to_string()),
        user_email: email.to_string(),
        monthly_limit: limit,
        revoked: false,
    }
}

fn entry(name: &str, email: &str) -> WaitingEntry {
    WaitingEntry {
        name: name.to_string(),
        email: email.to_string(),
        building: None,
        calls: 100,
    }
}

#[test]
fn unknown_token_is_not_registered() {
    let mut store = RecordStore::new();
    let d = authorize(&mut store, Some("abc"), "2024-06");
    assert_eq!(d, Decision::Reject(RejectReason::NotRegistered));
    let (status, body) = decision_response(&d);
    assert_eq!(status, 401);
    assert_eq!(body, r#"{"message":"Token not registered"}"#);
}

#[test]
fn missing_token_is_unauthorized() {
    let mut store = RecordStore::new();
    let d = authorize(&mut store, None, "2024-06");
    assert_eq!(d, Decision::Reject(RejectReason::MissingToken));
    let (status, body) = decision_response(&d);
    assert_eq!(status, 401);
    assert_eq!(body, r#"{"message":"Token must be supplied"}"#);
}

#[test]
fn quota_boundary_with_limit_five() {
    let mut store = RecordStore::new();
    approve(&mut store, &candidate("tok", "a@b.com", 5)).unwrap();
    // usage counts 0..=5 pass: six admissions, then the first rejection
    for _ in 0..6 {
        let d = authorize(&mut store, Some("tok"), "2024-06");
        assert_eq!(d, Decision::Allow);
    }
    let d = authorize(&mut store, Some("tok"), "2024-06");
    assert_eq!(d, Decision::Reject(RejectReason::LimitExceeded));
    let (status, body) = decision_response(&d);
    assert_eq!(status, 429);
    assert_eq!(body, r#"{"message":"Monthly limit exceeded"}"#);
    // a fresh period starts over
    let d = authorize(&mut store, Some("tok"), "2024-07");
    assert_eq!(d, Decision::Allow);
}

#[test]
fn revoked_token_is_rejected_whatever_the_counter() {
    let mut store = RecordStore::new();
    approve(&mut store, &candidate("tok", "a@b.com", 5)).unwrap();
    assert_eq!(revoke_workflow(&mut store, "tok"), RevokeOutcome::Revoked);
    let d = authorize(&mut store, Some("tok"), "2024-06");
    assert_eq!(d, Decision::Reject(RejectReason::Revoked));
    let (status, body) = decision_response(&d);
    assert_eq!(status, 401);
    assert_eq!(body, r#"{"message":"Token has been revoked"}"#);
}

#[test]
fn corrupt_record_is_internal() {
    let mut store = RecordStore::new();
    store.set("tok", "not a record");
    let d = authorize(&mut store, Some("tok"), "2024-06");
    assert_eq!(d, Decision::Reject(RejectReason::Internal));
    let (status, body) = decision_response(&d);
    assert_eq!(status, 500);
    assert_eq!(body, r#"{"message":"Internal server error"}"#);
    assert_eq!(lookup_by_token(&store, "tok"), Err(Failure::DecodeError));
}

#[test]
fn corrupt_counter_is_internal() {
    let mut store = RecordStore::new();
    approve(&mut store, &candidate("tok", "a@b.com", 5)).unwrap();
    store.set("counter/2024-06/a@b.com", "garbage");
    let d = authorize(&mut store, Some("tok"), "2024-06");
    assert_eq!(d, Decision::Reject(RejectReason::Internal));
    assert_eq!(current_usage(&store, "2024-06", "a@b.com"), Err(Failure::DecodeError));
}

#[test]
fn counter_parses_plain_numbers_only() {
    assert_eq!(parse_counter("0"), Some(0));
    assert_eq!(parse_counter("41"), Some(41));
    assert_eq!(parse_counter(""), None);
    assert_eq!(parse_counter("-1"), None);
    assert_eq!(parse_counter("4 "), None);
}

#[test]
fn trial_address_usage_is_not_counted() {
    let mut store = RecordStore::new();
    let email = "Trial-xyz@pesto.teknologiumum.com";
    record_usage(&mut store, "2024-06", email, 0);
    assert_eq!(current_usage(&store, "2024-06", email), Ok(0));
    assert!(store.get("counter/2024-06/Trial-xyz@pesto.teknologiumum.com").is_none());
    // a non-trial address is counted, with the 40-day expiry recorded
    record_usage(&mut store, "2024-06", "a@b.com", 0);
    assert_eq!(current_usage(&store, "2024-06", "a@b.com"), Ok(1));
    assert_eq!(
        store.expiry_of("counter/2024-06/a@b.com"),
        Some(Some(60 * 60 * 24 * 40))
    );
}

#[test]
fn trial_lookalike_addresses_are_counted() {
    let mut store = RecordStore::new();
    // right prefix, wrong domain
    record_usage(&mut store, "2024-06", "trial-x@elsewhere.com", 3);
    assert_eq!(current_usage(&store, "2024-06", "trial-x@elsewhere.com"), Ok(4));
    // right domain, wrong prefix
    record_usage(&mut store, "2024-06", "user@pesto.teknologiumum.com", 3);
    assert_eq!(
        current_usage(&store, "2024-06", "user@pesto.teknologiumum.com"),
        Ok(4)
    );
}

#[test]
fn duplicate_submission_is_accepted_once() {
    let mut store = RecordStore::new();
    assert_eq!(submit(&mut store, &entry("X", "x@y.com")), Ok(()));
    let second = submit(&mut store, &entry("X again", "x@y.com"));
    assert_eq!(second, Err(Failure::AlreadyExists));
    let pending = list_all(&store).unwrap();
    assert_eq!(pending.len(), 1);
    assert_eq!(pending[0].email, "x@y.com");
    assert_eq!(register_response(&second).0, 202);
    assert_eq!(register_response(&second).1, r#"{"message":"Accepted"}"#);
    assert_eq!(register_response(&Ok(())).0, 201);
}

#[test]
fn pending_list_serializes_in_order() {
    let mut store = RecordStore::new();
    submit(&mut store, &entry("A", "a@x.com")).unwrap();
    submit(&mut store, &entry("B", "b@x.com")).unwrap();
    let (status, body) = pending_response(&list_all(&store));
    assert_eq!(status, 200);
    assert_eq!(
        body,
        "[{\"name\":\"A\",\"email\":\"a@x.com\",\"building\":null,\"calls\":100},{\"name\":\"B\",\"email\":\"b@x.com\",\"building\":null,\"calls\":100}]"
    );
}

#[test]
fn approval_writes_the_record_and_clears_the_entry() {
    let mut store = RecordStore::new();
    submit(&mut store, &entry("Jane", "jane@x.com")).unwrap();
    let outcome = approve_workflow(&mut store, &candidate("tok-1", "jane@x.com", 50));
    assert_eq!(outcome, ApproveOutcome::Approved);
    assert_eq!(approve_response(&outcome), (200, r#"{"message":"OK"}"#.to_string()));
    let record = lookup_by_token(&store, "tok-1").unwrap();
    assert_eq!(record.user_email, "jane@x.com");
    assert_eq!(record.monthly_limit, 50);
    assert!(!record.revoked);
    assert_eq!(list_all(&store).unwrap().len(), 0);
}

#[test]
fn approval_requires_a_listed_email_and_a_fresh_token() {
    let mut store = RecordStore::new();
    let outcome = approve_workflow(&mut store, &candidate("tok-1", "ghost@x.com", 50));
    assert_eq!(outcome, ApproveOutcome::EmailNotListed);
    assert_eq!(
        approve_response(&outcome),
        (400, r#"{"message":"Email does not exists"}"#.to_string())
    );

    submit(&mut store, &entry("Jane", "jane@x.com")).unwrap();
    store.set("tok-1", r#"{"UserEmail":"other@x.com","MonthlyLimit":1,"Revoked":false}"#);
    let outcome = approve_workflow(&mut store, &candidate("tok-1", "jane@x.com", 50));
    assert_eq!(outcome, ApproveOutcome::TokenTaken);
    assert_eq!(
        approve_response(&outcome),
        (400, r#"{"message":"Token already exists"}"#.to_string())
    );
    // the entry stays pending after a refused approval
    assert_eq!(list_all(&store).unwrap().len(), 1);

    let mut no_token = candidate("ignored", "jane@x.com", 50);
    no_token.token = None;
    let outcome = approve_workflow(&mut store, &no_token);
    assert_eq!(outcome, ApproveOutcome::EmptyToken);
    assert_eq!(approve(&mut store, &no_token), Err(Failure::EmptyInput));
}

#[test]
fn revocation_is_one_way_and_answered_once() {
    let mut store = RecordStore::new();
    assert_eq!(lookup_by_token(&store, "nope"), Err(Failure::NotFound));
    let missing = revoke_workflow(&mut store, "nope");
    assert_eq!(missing, RevokeOutcome::UnknownToken);
    assert_eq!(
        revoke_response(&missing),
        (400, r#"{"message":"User does not exists"}"#.to_string())
    );

    approve(&mut store, &candidate("tok", "a@b.com", 5)).unwrap();
    assert_eq!(revoke_workflow(&mut store, "tok"), RevokeOutcome::Revoked);
    let record = lookup_by_token(&store, "tok").unwrap();
    assert!(record.revoked);
    assert_eq!(record.user_email, "a@b.com");
    assert_eq!(record.monthly_limit, 5);

    let again = revoke_workflow(&mut store, "tok");
    assert_eq!(again, RevokeOutcome::AlreadyRevoked);
    assert_eq!(
        revoke_response(&again),
        (400, r#"{"message":"User seemed to be revoked already"}"#.to_string())
    );
}

#[test]
fn trial_tokens_are_boxed_and_expiring() {
    let mut store = RecordStore::new();
    let token = issue(&mut store);
    assert_eq!(token.len(), 64);
    assert!(token.starts_with("TRIAL-"));
    let record = lookup_by_token(&store, &token).unwrap();
    assert_eq!(record.monthly_limit, 10);
    assert!(!record.revoked);
    assert!(record.user_email.starts_with("trial-"));
    assert!(record.user_email.ends_with("@pesto.teknologiumum.com"));
    assert_eq!(store.expiry_of(&token), Some(Some(24 * 60 * 60)));
    // a second token draws fresh randomness
    let other = issue(&mut store);
    assert_ne!(token, other);
    // trial admissions never advance a counter
    let d = authorize(&mut store, Some(token.as_str()), "2024-06");
    assert_eq!(d, Decision::Allow);
    assert_eq!(current_usage(&store, "2024-06", &record.user_email), Ok(0));
    let (status, body) = trial_response(&token);
    assert_eq!(status, 200);
    assert_eq!(body, format!("{{\"token\":\"{}\"}}", token));
}

#[test]
fn the_clock_names_the_period() {
    let mut store = RecordStore::new();
    approve(&mut store, &candidate("tok", "a@b.com", 5)).unwrap();
    let (d, period) = authorize_now(&mut store, Some("tok"));
    assert_eq!(d, Decision::Allow);
    assert!(period.len() >= 7);
    let key = format!("counter/{}/a@b.com", period);
    assert_eq!(store.get(&key).as_deref(), Some("1"));
}

#[test]
fn health_answers_ok() {
    assert_eq!(health_response(), (200, "OK".to_string()));
}
