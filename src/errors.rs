//! Error kinds of the gateway and how they are reported at the boundary.

use vstd::prelude::*;

verus! {

/// The kinds of failure that the gateway distinguishes internally.
#[derive(Debug, Clone, Copy, PartialEq, Eq, Structural)]
pub enum GateError {
    MalformedCredential,
    UnknownSigningKey,
    ExpiredCredential,
    InvalidSignature,
    InsufficientScope,
    OwnerMismatch,
    NotFound,
    BadRequest,
    NoActiveSubscription,
    QuotaExceeded,
    InvalidWebhookSignature,
    Conflict,
    StorageFailure,
    UpstreamBillingFailure,
}

/// A failure as a caller of the gateway sees it.
#[derive(Debug, PartialEq, Eq)]
pub enum ApiError {
    BadRequest,
    NotFound,
    Unauthorized,
    Forbidden(String),
    Conflict,
    PayloadTooLarge,
    InternalServerError(String),
}

pub type Response<T> = Result<T, ApiError>;

/// Whether a failure concerns the caller's credential; such failures are
/// never told apart to the caller.
pub open spec fn is_credential_failure(e: GateError) -> bool {
    match e {
        GateError::MalformedCredential
        | GateError::UnknownSigningKey
        | GateError::ExpiredCredential
        | GateError::InvalidSignature
        | GateError::InsufficientScope
        | GateError::OwnerMismatch
        | GateError::InvalidWebhookSignature => true,
        _ => false,
    }
}

/// The shape of the boundary response for each failure kind.
pub open spec fn reported_as(e: GateError, a: ApiError) -> bool {
    if is_credential_failure(e) {
        a == ApiError::Unauthorized
    } else {
        match e {
            GateError::NotFound => a == ApiError::NotFound,
            GateError::BadRequest => a == ApiError::BadRequest,
            GateError::Conflict => a == ApiError::Conflict,
            GateError::NoActiveSubscription => a == ApiError::Forbidden(
                a->Forbidden_0,
            ) && a->Forbidden_0@ == "no active subscription"@,
            GateError::QuotaExceeded => a == ApiError::Forbidden(a->Forbidden_0)
                && a->Forbidden_0@ == "usage limit reached"@,
            _ => a is InternalServerError,
        }
    }
}

impl ApiError {
    /// Reports a gateway failure: every credential failure becomes the same
    /// `Unauthorized`; quota and subscription failures keep their meaning.
    pub fn from_gate(e: GateError) -> (r: ApiError)
        ensures
            reported_as(e, r),
    {
        match e {
            GateError::MalformedCredential
            | GateError::UnknownSigningKey
            | GateError::ExpiredCredential
            | GateError::InvalidSignature
            | GateError::InsufficientScope
            | GateError::OwnerMismatch
            | GateError::InvalidWebhookSignature => ApiError::Unauthorized,
            GateError::NotFound => ApiError::NotFound,
            GateError::BadRequest => ApiError::BadRequest,
            GateError::Conflict => ApiError::Conflict,
            GateError::NoActiveSubscription => ApiError::Forbidden(
                crate::text::owned("no active subscription"),
            ),
            GateError::QuotaExceeded => ApiError::Forbidden(
                crate::text::owned("usage limit reached"),
            ),
            GateError::StorageFailure => ApiError::InternalServerError(
                crate::text::owned("storage failure"),
            ),
            GateError::UpstreamBillingFailure => ApiError::InternalServerError(
                crate::text::owned("billing provider failure"),
            ),
        }
    }

    /// The HTTP status code that the failure is answered with.
    pub fn status_code(&self) -> (r: u16)
        ensures
            r == match *self {
                ApiError::BadRequest => 400u16,
                ApiError::Unauthorized => 401u16,
                ApiError::Forbidden(_) => 403u16,
                ApiError::NotFound => 404u16,
                ApiError::Conflict => 409u16,
                ApiError::PayloadTooLarge => 413u16,
                ApiError::InternalServerError(_) => 500u16,
            },
    {
        match self {
            ApiError::BadRequest => 400,
            ApiError::Unauthorized => 401,
            ApiError::Forbidden(_) => 403,
            ApiError::NotFound => 404,
            ApiError::Conflict => 409,
            ApiError::PayloadTooLarge => 413,
            ApiError::InternalServerError(_) => 500,
        }
    }
}


/// The text that a failure is reported with.
pub open spec fn api_message(e: ApiError) -> Seq<char> {
    match e {
        ApiError::BadRequest => "Bad Request"@,
        ApiError::NotFound => "Not Found"@,
        ApiError::Unauthorized => "Unauthorized"@,
        ApiError::Forbidden(m) => "Forbidden: "@ + m@,
        ApiError::Conflict => "Conflict"@,
        ApiError::PayloadTooLarge => "Payload Too Large"@,
        ApiError::InternalServerError(m) => "Internal Server Error: "@ + m@,
    }
}

impl ApiError {
    /// The text that the failure is reported with.
    pub fn message(&self) -> (r: String)
        ensures
            r@ == api_message(*self),
    {
        match self {
            ApiError::BadRequest => crate::text::owned("Bad Request"),
            ApiError::NotFound => crate::text::owned("Not Found"),
            ApiError::Unauthorized => crate::text::owned("Unauthorized"),
            ApiError::Forbidden(m) => {
                let mut out = crate::text::owned("Forbidden: ");
                out.append(m.as_str());
                out
            },
            ApiError::Conflict => crate::text::owned("Conflict"),
            ApiError::PayloadTooLarge => crate::text::owned("Payload Too Large"),
            ApiError::InternalServerError(m) => {
                let mut out = crate::text::owned("Internal Server Error: ");
                out.append(m.as_str());
                out
            },
        }
    }
}

} // verus!
