//! The record wire format on concrete values.

use pesto_gateway::records::{
    decode_access_record, decode_waiting_entry, encode_access_record, encode_waiting_entry,
    AccessRecord, WaitingEntry,
};

#[test]
fn test_token_value_serialization() {
    let token_value = AccessRecord {
        token: None,
        user_email: "johndoe@example.com".to_string(),
        monthly_limit: 100,
        revoked: false,
    };

    let serialized = encode_access_record(&token_value);
    let deserialized = decode_access_record(&serialized).unwrap();

    assert_eq!(
        serialized,
        r#"{"UserEmail":"johndoe@example.com","MonthlyLimit":100,"Revoked":false}"#
    );
    assert_eq!(token_value, deserialized);
}

#[test]
fn record_round_trip_with_escapes() {
    let record = AccessRecord {
        token: None,
        user_email: "we\"ird\\user\n\t\u{1}@example.com".to_string(),
        monthly_limit: 0,
        revoked: true,
    };
    let serialized = encode_access_record(&record);
    let deserialized = decode_access_record(&serialized).unwrap();
    assert_eq!(record, deserialized);
}

#[test]
fn record_escape_spelling() {
    let record = AccessRecord {
        token: None,
        user_email: "a\"b\\c\u{1f}".to_string(),
        monthly_limit: 7,
        revoked: false,
    };
    let serialized = encode_access_record(&record);
    assert_eq!(
        serialized,
        "{\"UserEmail\":\"a\\\"b\\\\c\\u001f\",\"MonthlyLimit\":7,\"Revoked\":false}"
    );
}

#[test]
fn record_decode_rejects_malformed() {
    assert!(decode_access_record("").is_none());
    assert!(decode_access_record("{}").is_none());
    assert!(decode_access_record(r#"{"UserEmail":"a@b.com"}"#).is_none());
    assert!(decode_access_record(r#"{"UserEmail":"a@b.com","MonthlyLimit":-1,"Revoked":false}"#)
        .is_none());
    assert!(decode_access_record(r#"{"UserEmail":"a@b.com","MonthlyLimit":01,"Revoked":false}"#)
        .is_none());
    assert!(decode_access_record(
        r#"{"UserEmail":"a@b.com","MonthlyLimit":5,"Revoked":false} "#
    )
    .is_none());
    assert!(decode_access_record(
        r#"{"UserEmail":"a@b.com","MonthlyLimit":99999999999999999999,"Revoked":false}"#
    )
    .is_none());
}

#[test]
fn entry_round_trip_with_building() {
    let entry = WaitingEntry {
        name: "Jane Doe".to_string(),
        email: "jane@example.com".to_string(),
        building: Some("HQ \"north\"".to_string()),
        calls: 250,
    };
    let serialized = encode_waiting_entry(&entry);
    assert_eq!(
        serialized,
        "{\"name\":\"Jane Doe\",\"email\":\"jane@example.com\",\"building\":\"HQ \\\"north\\\"\",\"calls\":250}"
    );
    let deserialized = decode_waiting_entry(&serialized).unwrap();
    assert_eq!(entry, deserialized);
}

#[test]
fn entry_round_trip_without_building() {
    let entry = WaitingEntry {
        name: "No Building".to_string(),
        email: "nb@example.com".to_string(),
        building: None,
        calls: -3,
    };
    let serialized = encode_waiting_entry(&entry);
    assert_eq!(
        serialized,
        "{\"name\":\"No Building\",\"email\":\"nb@example.com\",\"building\":null,\"calls\":-3}"
    );
    let deserialized = decode_waiting_entry(&serialized).unwrap();
    assert_eq!(entry, deserialized);
}
