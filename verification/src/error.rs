use vstd::prelude::*;

verus! {

/// Why an API request was refused.
#[derive(PartialEq, Eq, Structural, Clone, Copy, Debug)]
pub enum ApiError {
    /// No usable license was presented, or billing rejected it.
    Unauthorized,
    /// The license holds no backup.
    NotFound,
    /// The backup body or payload is malformed.
    InvalidPayload,
    /// The billing service could not be asked.
    VerificationUnavailable,
    /// The database failed.
    Internal,
}

impl ApiError {
    /// The HTTP status that answers the error.
    pub open spec fn status(self) -> u16 {
        match self {
            ApiError::Unauthorized => 401,
            ApiError::NotFound => 404,
            ApiError::InvalidPayload => 422,
            ApiError::VerificationUnavailable => 503,
            ApiError::Internal => 500,
        }
    }

    /// The text sent to the client in the `error` field of the JSON body.
    pub open spec fn text(self) -> Seq<char> {
        match self {
            ApiError::Unauthorized => "authorization required"@,
            ApiError::NotFound => "backup not found"@,
            ApiError::InvalidPayload => "invalid backup payload"@,
            ApiError::VerificationUnavailable => "license verification is temporarily unavailable"@,
            ApiError::Internal => "service error"@,
        }
    }

    /// The HTTP status that answers the error.
    pub fn status_code(&self) -> (r: u16)
        ensures
            r == self.status(),
    {
        match self {
            ApiError::Unauthorized => 401,
            ApiError::NotFound => 404,
            ApiError::InvalidPayload => 422,
            ApiError::VerificationUnavailable => 503,
            ApiError::Internal => 500,
        }
    }

    /// The text sent to the client in the `error` field of the JSON body.
    pub fn message(&self) -> (r: &'static str)
        ensures
            r@ == self.text(),
    {
        match self {
            ApiError::Unauthorized => "authorization required",
            ApiError::NotFound => "backup not found",
            ApiError::InvalidPayload => "invalid backup payload",
            ApiError::VerificationUnavailable => "license verification is temporarily unavailable",
            ApiError::Internal => "service error",
        }
    }
}

/// The answer to any failure of the database: `Internal`, whose message
/// tells the client nothing of what failed.
pub fn storage_failure() -> (r: ApiError)
    ensures
        r == ApiError::Internal,
        r.status() == 500,
{
    ApiError::Internal
}

/// Each kind of refusal is answered with its own status, and every status
/// is a client error (4xx) or a server error (5xx).
pub proof fn lemma_error_statuses_distinct(a: ApiError, b: ApiError)
    ensures
        a.status() == b.status() <==> a == b,
        400 <= a.status() < 600,
{
}

/// The status and message of each refusal.
pub proof fn lemma_error_answers()
    ensures
        ApiError::Unauthorized.status() == 401,
        ApiError::Unauthorized.text() == "authorization required"@,
        ApiError::NotFound.status() == 404,
        ApiError::NotFound.text() == "backup not found"@,
        ApiError::InvalidPayload.status() == 422,
        ApiError::InvalidPayload.text() == "invalid backup payload"@,
        ApiError::VerificationUnavailable.status() == 503,
        ApiError::VerificationUnavailable.text() == "license verification is temporarily unavailable"@,
        ApiError::Internal.status() == 500,
        ApiError::Internal.text() == "service error"@,
{
}

} // verus!
