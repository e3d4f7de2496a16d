//! The errors that a client is answered with.
use vstd::prelude::*;
use vstd::string::*;

verus! {

/// Why a request was refused.
#[derive(Debug)]
pub enum CaptchaError {
    ChallengeNotFound,
    ChallengeExpired,
    ChallengeAlreadyUsed,
    InvalidSolution,
    InvalidSiteKey,
    Unauthorized,
    NotFound,
    RateLimited,
    OriginNotAllowed,
    Storage(String),
    BadRequest(String),
}

impl CaptchaError {
    /// The HTTP status of the answer.
    pub open spec fn status(self) -> u16 {
        match self {
            CaptchaError::ChallengeNotFound => 404,
            CaptchaError::ChallengeExpired => 410,
            CaptchaError::ChallengeAlreadyUsed => 409,
            CaptchaError::InvalidSolution => 200,
            CaptchaError::InvalidSiteKey => 400,
            CaptchaError::Unauthorized => 401,
            CaptchaError::NotFound => 404,
            CaptchaError::RateLimited => 429,
            CaptchaError::OriginNotAllowed => 403,
            CaptchaError::Storage(_) => 500,
            CaptchaError::BadRequest(_) => 400,
        }
    }

    /// What the error says of itself.
    pub open spec fn description(self) -> Seq<char> {
        match self {
            CaptchaError::ChallengeNotFound => "Challenge not found"@,
            CaptchaError::ChallengeExpired => "Challenge expired"@,
            CaptchaError::ChallengeAlreadyUsed => "Challenge already used"@,
            CaptchaError::InvalidSolution => "Invalid solution"@,
            CaptchaError::InvalidSiteKey => "Invalid site key"@,
            CaptchaError::Unauthorized => "Unauthorized"@,
            CaptchaError::NotFound => "Not found"@,
            CaptchaError::RateLimited => "Rate limit exceeded"@,
            CaptchaError::OriginNotAllowed => "Origin not allowed"@,
            CaptchaError::Storage(detail) => "Storage error: "@ + detail@,
            CaptchaError::BadRequest(detail) => "Bad request: "@ + detail@,
        }
    }

    /// What the error says of itself.
    pub fn message(&self) -> (r: String)
        ensures
            r@ == self.description(),
    {
        match self {
            CaptchaError::ChallengeNotFound => "Challenge not found".to_owned(),
            CaptchaError::ChallengeExpired => "Challenge expired".to_owned(),
            CaptchaError::ChallengeAlreadyUsed => "Challenge already used".to_owned(),
            CaptchaError::InvalidSolution => "Invalid solution".to_owned(),
            CaptchaError::InvalidSiteKey => "Invalid site key".to_owned(),
            CaptchaError::Unauthorized => "Unauthorized".to_owned(),
            CaptchaError::NotFound => "Not found".to_owned(),
            CaptchaError::RateLimited => "Rate limit exceeded".to_owned(),
            CaptchaError::OriginNotAllowed => "Origin not allowed".to_owned(),
            CaptchaError::Storage(detail) => {
                let mut s = "Storage error: ".to_owned();
                s.append(detail.as_str());
                s
            },
            CaptchaError::BadRequest(detail) => {
                let mut s = "Bad request: ".to_owned();
                s.append(detail.as_str());
                s
            },
        }
    }

    /// The status and the message of the answer. What went wrong inside the storage is
    /// not told to the client.
    pub fn response(&self) -> (r: (u16, String))
        ensures
            r.0 == self.status(),
            r.1@ == (if self is Storage {
                "Internal error"@
            } else {
                self.description()
            }),
    {
        let status: u16 = match self {
            CaptchaError::ChallengeNotFound => 404,
            CaptchaError::ChallengeExpired => 410,
            CaptchaError::ChallengeAlreadyUsed => 409,
            CaptchaError::InvalidSolution => 200,
            CaptchaError::InvalidSiteKey => 400,
            CaptchaError::Unauthorized => 401,
            CaptchaError::NotFound => 404,
            CaptchaError::RateLimited => 429,
            CaptchaError::OriginNotAllowed => 403,
            CaptchaError::Storage(_) => 500,
            CaptchaError::BadRequest(_) => 400,
        };
        match self {
            CaptchaError::Storage(_) => (status, "Internal error".to_owned()),
            _ => (status, self.message()),
        }
    }
}

/// The status that each error is answered with.
pub proof fn lemma_statuses(e: CaptchaError)
    ensures
        e.status() == 404 <==> e is ChallengeNotFound || e is NotFound,
        e.status() == 410 <==> e is ChallengeExpired,
        e.status() == 409 <==> e is ChallengeAlreadyUsed,
        e.status() == 200 <==> e is InvalidSolution,
        e.status() == 400 <==> e is InvalidSiteKey || e is BadRequest,
        e.status() == 401 <==> e is Unauthorized,
        e.status() == 429 <==> e is RateLimited,
        e.status() == 403 <==> e is OriginNotAllowed,
        e.status() == 500 <==> e is Storage,
{
}

} // verus!
