//! The token registry: resolving a token to its access record. Resolution
//! does not check revocation — that check belongs to the caller, so the
//! distinction between an unknown token and a known but revoked one stays
//! visible at the call site.

use vstd::prelude::*;
use vstd::string::*;
use crate::errors::Failure;
use crate::records::{decode_access_record, decode_record_wire, AccessRecord};
use crate::store::{RecordStore, TextData};

verus! {

/// What resolving a token against the stored texts yields: the record
/// fields, absence, or a malformed stored value.
pub open spec fn lookup_view(texts: Map<Seq<char>, TextData>, token: Seq<char>) -> Result<
    (Seq<char>, u64, bool),
    Failure,
> {
    if !texts.contains_key(token) {
        Err(Failure::NotFound)
    } else {
        match decode_record_wire(texts[token].value) {
            Some(fields) => Ok(fields),
            None => Err(Failure::DecodeError),
        }
    }
}

/// Resolves `token` to its access record: absent tokens are not found,
/// and a stored value that does not parse as a record is a decode fault.
/// The returned record carries the token it was looked up under.
pub fn resolve(store: &RecordStore, token: &str) -> (r: Result<AccessRecord, Failure>)
    requires
        store.wf(),
    ensures
        match r {
            Ok(rec) => lookup_view(store.texts(), token@) == Ok::<_, Failure>(
                (rec.user_email@, rec.monthly_limit, rec.revoked),
            ) && (match rec.token {
                Some(t) => t@ == token@,
                None => false,
            }),
            Err(f) => lookup_view(store.texts(), token@) == Err::<(Seq<char>, u64, bool),
                Failure,
            >(f),
        },
{
    match store.get(token) {
        None => Err(Failure::NotFound),
        Some(value) => match decode_access_record(value.as_str()) {
            Some(rec) => Ok(
                AccessRecord {
                    token: Some(token.to_owned()),
                    user_email: rec.user_email,
                    monthly_limit: rec.monthly_limit,
                    revoked: rec.revoked,
                },
            ),
            None => Err(Failure::DecodeError),
        },
    }
}

} // verus!
