//! The notifier's error taxonomy: how the mail service's status codes read
//! as errors. Delivery itself is an outward side effect a caller performs;
//! its failure is observed, never propagated into an approval.

use vstd::prelude::*;

verus! {

/// Why a notification was not delivered.
pub enum NotifierError {
    /// The request was malformed for the endpoint.
    BadRequest(String),
    /// The service's credential was not accepted.
    Unauthorized,
    /// The account may not take this action.
    Forbidden,
    /// The requested resource does not exist.
    NotFound,
    /// The service timed the request out.
    RequestTimeout,
    /// The service is down for maintenance.
    UnderMaintenance(String),
    /// The request failed validation.
    UnprocessableEntity(String),
    /// The service is rate-limiting.
    TooManyRequest(String),
    /// The service failed internally.
    InternalServerError(String),
    /// Anything else on the wire.
    NetworkError(String),
}

/// Reads the mail service's answer: a success status is no error, each
/// documented failure status its own variant, and any other status a
/// network error carrying the body.
pub fn notifier_error_for(status: u16, body: String) -> (r: Option<NotifierError>)
    ensures
        match r {
            None => status == 200,
            Some(e) => status != 200 && e == (match status {
                400u16 => NotifierError::BadRequest(body),
                401u16 => NotifierError::Unauthorized,
                403u16 => NotifierError::Forbidden,
                404u16 => NotifierError::NotFound,
                408u16 => NotifierError::RequestTimeout,
                503u16 => NotifierError::UnderMaintenance(body),
                422u16 => NotifierError::UnprocessableEntity(body),
                429u16 => NotifierError::TooManyRequest(body),
                500u16 => NotifierError::InternalServerError(body),
                _ => NotifierError::NetworkError(body),
            }),
        },
{
    match status {
        200u16 => None,
        400u16 => Some(NotifierError::BadRequest(body)),
        401u16 => Some(NotifierError::Unauthorized),
        403u16 => Some(NotifierError::Forbidden),
        404u16 => Some(NotifierError::NotFound),
        408u16 => Some(NotifierError::RequestTimeout),
        503u16 => Some(NotifierError::UnderMaintenance(body)),
        422u16 => Some(NotifierError::UnprocessableEntity(body)),
        429u16 => Some(NotifierError::TooManyRequest(body)),
        500u16 => Some(NotifierError::InternalServerError(body)),
        _ => Some(NotifierError::NetworkError(body)),
    }
}

} // verus!
