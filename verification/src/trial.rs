//! The trial issuer: self-service creation of a time-boxed, quota-capped
//! token without human approval. A trial token is 64 characters, `TRIAL-`
//! followed by 58 random alphanumerics; its synthetic address carries the
//! trial domain, so its usage is never counted; and its record self-expires
//! after a day — trial tokens are never explicitly revoked. Uniqueness
//! rests on the randomness alone: collisions are accepted as negligible,
//! with no re-check against the store.

use vstd::prelude::*;
use vstd::string::*;
use rand::distr::SampleString;
use crate::records::{encode_access_record, record_wire, AccessRecord};
use crate::store::{RecordStore, TextData};
use crate::text::{is_trial_email, matches_at, trial_domain};

verus! {

/// A trial record allows ten calls a month — not that the count ever
/// advances for a trial address.
pub const TRIAL_LIMIT: u64 = 10;

/// Trial records expire after a day, in seconds.
pub const TRIAL_TTL_SECONDS: u64 = 24 * 60 * 60;

/// An ASCII letter or digit.
pub open spec fn is_alnum(c: char) -> bool {
    (48 <= c as u32 <= 57) || (65 <= c as u32 <= 90) || (97 <= c as u32 <= 122)
}

/// Relies on rand's `Alphanumeric` distribution: `len` characters drawn
/// uniformly from a-z, A-Z and 0-9, from the thread's cryptographically
/// secure generator. Nothing else holds of the outcome.
#[verifier::external_body]
fn random_alphanumeric(len: usize) -> (r: String)
    ensures
        r@.len() == len as nat,
        forall|i: int| 0 <= i < r@.len() ==> is_alnum(#[trigger] r@[i]),
{
    rand::distr::Alphanumeric.sample_string(&mut rand::rng(), len)
}

/// Issues a trial token: writes a fresh record with the trial limit,
/// not revoked, under a day's expiry, keyed by the returned token. The
/// record's synthetic address is a trial address, so the quota ledger
/// will never count usage against it.
pub fn issue(store: &mut RecordStore) -> (token: String)
    requires
        old(store).wf(),
    ensures
        final(store).wf(),
        final(store).lists() == old(store).lists(),
        token@.len() == 64,
        matches_at(token@, 0, "TRIAL-"@),
        forall|i: int| 6 <= i < 64 ==> is_alnum(#[trigger] token@[i]),
        exists|email: Seq<char>|
            is_trial_email(email) && final(store).texts() == old(store).texts().insert(
                token@,
                TextData {
                    value: record_wire(email, TRIAL_LIMIT, false),
                    ttl: Some(TRIAL_TTL_SECONDS),
                },
            ),
{
    let token_tail = random_alphanumeric(58);
    let token = "TRIAL-".to_owned().concat(token_tail.as_str());
    let email_tail = random_alphanumeric(20);
    let email = "trial-".to_owned().concat(email_tail.as_str()).concat(
        "@pesto.teknologiumum.com",
    );
    let record = AccessRecord {
        token: Some(token.clone()),
        user_email: email,
        monthly_limit: TRIAL_LIMIT,
        revoked: false,
    };
    let value = encode_access_record(&record);
    store.set_with_expiry(token.as_str(), value.as_str(), TRIAL_TTL_SECONDS);
    proof {
        reveal_strlit("TRIAL-");
        reveal_strlit("trial-");
        reveal_strlit("@pesto.teknologiumum.com");
        assert(token@.subrange(0, 6) =~= "TRIAL-"@);
        let ev = record.user_email@;
        assert(ev[0] == 't' && ev[1] == 'r' && ev[2] == 'i' && ev[3] == 'a' && ev[4] == 'l');
        assert(ev.subrange(ev.len() - trial_domain().len(), ev.len() as int) =~= trial_domain());
        assert(is_trial_email(ev));
    }
    token
}

} // verus!
