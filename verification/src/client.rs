//! Asking the service to verify a token, from the server that embeds the widget.
//!
//! What the service decided on a visitor is one thing, and that it did not get to decide
//! is another: an outage is never taken for a failed check.
use vstd::prelude::*;
use vstd::string::*;

use crate::api::types::VerifyResponse;
use crate::text::{chars_of, piece, string_of};

verus! {

/// What the service decided on a submission.
#[derive(Debug, Clone, Copy, PartialEq, Eq, Structural)]
pub enum Verdict {
    /// Accepted; with `failover` without a solved puzzle, because none could be served.
    Passed { failover: bool },
    /// Solved, and refused for its score.
    Blocked,
    /// The challenge expired. Submitting again helps.
    Expired,
    /// The challenge was used before, or is not there any more. Submitting again helps.
    Replayed,
}

impl Verdict {
    /// Whether the submission is to be accepted.
    pub fn accepted(&self) -> (r: bool)
        ensures
            r == (self is Passed),
    {
        match self {
            Verdict::Passed { .. } => true,
            _ => false,
        }
    }
}

/// The service did not decide.
#[derive(Debug)]
#[non_exhaustive]
pub enum Error {
    /// It could not be reached, or did not answer in time.
    Unreachable(String),
    /// It does not know the secret.
    Unauthorized,
    /// It does not take the token for one.
    MalformedToken,
    /// It answered with a status that means nothing here.
    Unexpected { status: u16 },
}

impl Error {
    pub open spec fn description(self) -> Seq<char> {
        match self {
            Error::Unreachable(e) => "bollwark unreachable: "@ + e@,
            Error::Unauthorized => "bollwark rejected the secret key (401) — check secret_key"@,
            Error::MalformedToken => "bollwark rejected the token as malformed (400)"@,
            Error::Unexpected { status } => "bollwark returned an unexpected status: "@
                + crate::text::decimal(status as nat),
        }
    }

    pub fn message(&self) -> (r: String)
        ensures
            r@ == self.description(),
    {
        match self {
            Error::Unreachable(e) => {
                let mut s = "bollwark unreachable: ".to_owned();
                s.append(e.as_str());
                s
            },
            Error::Unauthorized =>
                "bollwark rejected the secret key (401) — check secret_key".to_owned(),
            Error::MalformedToken => "bollwark rejected the token as malformed (400)".to_owned(),
            Error::Unexpected { status } => {
                let mut s = "bollwark returned an unexpected status: ".to_owned();
                crate::text::append_number(&mut s, *status as u64);
                s
            },
        }
    }
}

/// Where and as whom the service is asked.
#[derive(Debug)]
pub struct Client {
    pub verify_url: String,
    pub secret_key: String,
}

impl Clone for Client {
    fn clone(&self) -> (r: Self)
        ensures
            r == *self,
    {
        Client { verify_url: self.verify_url.clone(), secret_key: self.secret_key.clone() }
    }
}

/// A text without the slashes at its end.
pub open spec fn without_slashes(s: Seq<char>) -> Seq<char>
    decreases s.len(),
{
    if s.len() > 0 && s.last() == '/' {
        without_slashes(s.drop_last())
    } else {
        s
    }
}

/// The address that is asked.
pub open spec fn verify_address(base_url: Seq<char>) -> Seq<char> {
    without_slashes(base_url) + "/v1/verify"@
}

/// What an answer means whose body can be read. Only a body that says so is a pass.
pub open spec fn read_answer(status: u16, body: VerifyResponse) -> Result<Verdict, Error> {
    if status == 200 {
        Ok(
            if body.success {
                Verdict::Passed { failover: body.failover }
            } else {
                Verdict::Blocked
            },
        )
    } else {
        read_status(status)
    }
}

/// The verdict on a token that the service need not be asked about.
pub open spec fn without_asking(token: Seq<char>) -> Option<Verdict> {
    if token.len() == 0 {
        Some(Verdict::Replayed)
    } else {
        None
    }
}

/// The token of a body, by its two fields.
pub open spec fn token_of(first: Field, second: Field) -> Option<String> {
    match first {
        Field::Text(token) => Some(token),
        Field::Other => None,
        Field::Missing => match second {
            Field::Text(token) => Some(token),
            _ => None,
        },
    }
}

/// What a status means that comes without a body that matters.
pub open spec fn read_status(status: u16) -> Result<Verdict, Error> {
    if status == 404 {
        Ok(Verdict::Replayed)
    } else if status == 410 {
        Ok(Verdict::Expired)
    } else if status == 400 {
        Err(Error::MalformedToken)
    } else if status == 401 {
        Err(Error::Unauthorized)
    } else {
        Err(Error::Unexpected { status })
    }
}

impl Client {
    /// Asks the service at an address, with or without slashes at its end, with the secret of
    /// a site.
    pub fn new(base_url: &str, secret_key: &str) -> (r: Self)
        ensures
            r.verify_url@ == verify_address(base_url@),
            r.secret_key@ == secret_key@,
    {
        let cs = chars_of(base_url);
        let mut n = cs.len();
        assert(cs@.subrange(0, n as int) =~= cs@);
        while n > 0 && cs[n - 1] == '/'
            invariant
                n <= cs@.len(),
                without_slashes(cs@.subrange(0, n as int)) == without_slashes(cs@),
            decreases n,
        {
            assert(cs@.subrange(0, n as int).drop_last() =~= cs@.subrange(0, n - 1));
            n -= 1;
        }
        let mut verify_url = string_of(piece(cs.as_slice(), 0, n).as_slice());
        verify_url.append("/v1/verify");
        Client { verify_url, secret_key: secret_key.to_owned() }
    }

    /// The verdict on a token that the service need not be asked about: an empty one is none
    /// that could be accepted.
    pub fn decided_without_asking(&self, token: &str) -> (r: Option<Verdict>)
        ensures
            r == without_asking(token@),
            r == (if token@.len() == 0 {
                Some(Verdict::Replayed)
            } else {
                None
            }),
    {
        if chars_of(token).len() == 0 {
            Some(Verdict::Replayed)
        } else {
            None
        }
    }

    /// What an answer of the service means, given its status and what its body says. A body
    /// that cannot be read is no answer.
    pub fn verdict(&self, status: u16, body: Result<VerifyResponse, String>) -> (r: Result<
        Verdict,
        Error,
    >)
        ensures
            match body {
                Ok(b) => r == read_answer(status, b),
                Err(e) => if status == 200 {
                    r matches Err(Error::Unreachable(m)) && m@ == e@
                } else {
                    r == read_status(status)
                },
            },
    {
        match status {
            200 => match body {
                Ok(b) => Ok(
                    if b.success {
                        Verdict::Passed { failover: b.failover }
                    } else {
                        Verdict::Blocked
                    },
                ),
                Err(e) => Err(Error::Unreachable(e)),
            },
            404 => Ok(Verdict::Replayed),
            410 => Ok(Verdict::Expired),
            400 => Err(Error::MalformedToken),
            401 => Err(Error::Unauthorized),
            _ => Err(Error::Unexpected { status }),
        }
    }
}

/// A submission is accepted only where the service answered, and said so.
pub proof fn lemma_only_a_pass_is_accepted(status: u16, body: VerifyResponse)
    ensures
        read_answer(status, body) matches Ok(verdict) && verdict is Passed <==> status == 200
            && body.success,
{
}

/// What every error of the service means to the one that asks: the status that the service
/// answers with leads to the verdict or the error that says the same.
pub proof fn lemma_errors_are_understood(e: crate::error::CaptchaError, body: VerifyResponse)
    ensures
        e is ChallengeNotFound ==> read_answer(e.status(), body) == Ok::<Verdict, Error>(
            Verdict::Replayed,
        ),
        e is ChallengeExpired ==> read_answer(e.status(), body) == Ok::<Verdict, Error>(
            Verdict::Expired,
        ),
        e is Unauthorized ==> read_answer(e.status(), body) == Err::<Verdict, Error>(
            Error::Unauthorized,
        ),
        e is BadRequest ==> read_answer(e.status(), body) == Err::<Verdict, Error>(
            Error::MalformedToken,
        ),
{
}

/// A body whose token was accepted, and the verdict on it.
#[derive(Debug)]
pub struct Captcha<T>(pub T, pub Verdict);

/// A field of a body.
#[derive(Debug)]
pub enum Field {
    Missing,
    /// It is there, and no text.
    Other,
    Text(String),
}

/// Why a body was not let through.
#[derive(Debug)]
#[non_exhaustive]
pub enum CaptchaRejection {
    /// It could not be read.
    InvalidBody,
    /// It holds no token.
    MissingToken,
    /// The service answered, and did not accept it.
    Refused(Verdict),
    /// The service did not answer.
    Failed(Error),
}

/// The token of a body, under either of its two names. The first name decides where it is
/// there, whatever it holds.
pub fn submitted_token(first: Field, second: Field) -> (r: Result<String, CaptchaRejection>)
    ensures
        match token_of(first, second) {
            Some(token) => r == Ok::<String, CaptchaRejection>(token),
            None => r == Err::<String, CaptchaRejection>(CaptchaRejection::MissingToken),
        },
        r == (match first {
            Field::Text(token) => Ok::<String, CaptchaRejection>(token),
            Field::Other => Err(CaptchaRejection::MissingToken),
            Field::Missing => match second {
                Field::Text(token) => Ok(token),
                _ => Err(CaptchaRejection::MissingToken),
            },
        }),
{
    match first {
        Field::Text(token) => Ok(token),
        Field::Other => Err(CaptchaRejection::MissingToken),
        Field::Missing => match second {
            Field::Text(token) => Ok(token),
            _ => Err(CaptchaRejection::MissingToken),
        },
    }
}

/// Lets a body through only with a verdict that accepts it. Where the service did not decide
/// it is not let through.
pub fn admitted(decided: Result<Verdict, Error>) -> (r: Result<Verdict, CaptchaRejection>)
    ensures
        r == (match decided {
            Err(e) => Err::<Verdict, CaptchaRejection>(CaptchaRejection::Failed(e)),
            Ok(verdict) => if verdict is Passed {
                Ok(verdict)
            } else {
                Err(CaptchaRejection::Refused(verdict))
            },
        }),
{
    match decided {
        Err(e) => Err(CaptchaRejection::Failed(e)),
        Ok(verdict) => {
            if verdict.accepted() {
                Ok(verdict)
            } else {
                Err(CaptchaRejection::Refused(verdict))
            }
        },
    }
}

impl CaptchaRejection {
    pub open spec fn answer(self) -> (u16, Seq<char>) {
        match self {
            CaptchaRejection::InvalidBody => (400, "Malformed request body."@),
            CaptchaRejection::MissingToken => (400, "Verification required."@),
            CaptchaRejection::Refused(Verdict::Expired) | CaptchaRejection::Refused(
                Verdict::Replayed,
            ) => (400, "Your verification expired. Please submit the form again."@),
            CaptchaRejection::Refused(_) => (
                400,
                "Verification failed. Please reload and try again."@,
            ),
            CaptchaRejection::Failed(_) => (
                503,
                "Verification unavailable. Please try again in a moment."@,
            ),
        }
    }

    /// What the visitor is told. What submitting again would help says so; a refusal does not
    /// explain itself.
    pub fn response(&self) -> (r: (u16, &'static str))
        ensures
            r.0 == self.answer().0,
            r.1@ == self.answer().1,
    {
        match self {
            CaptchaRejection::InvalidBody => (400, "Malformed request body."),
            CaptchaRejection::MissingToken => (400, "Verification required."),
            CaptchaRejection::Refused(verdict) => match verdict {
                Verdict::Expired | Verdict::Replayed => (
                    400,
                    "Your verification expired. Please submit the form again.",
                ),
                _ => (400, "Verification failed. Please reload and try again."),
            },
            CaptchaRejection::Failed(_) => (
                503,
                "Verification unavailable. Please try again in a moment.",
            ),
        }
    }
}

/// What the statuses of the service mean: only a 200 whose body says so accepts, a 200 whose
/// body does not refuses, 404 and 410 are to be tried again, 400 and 401 are problems of the
/// one that asks, and any other status decides nothing.
pub proof fn lemma_statuses(status: u16, body: VerifyResponse)
    ensures
        body.success ==> read_answer(200, body) == Ok::<Verdict, Error>(
            Verdict::Passed { failover: body.failover },
        ),
        !body.success ==> read_answer(200, body) == Ok::<Verdict, Error>(Verdict::Blocked),
        read_answer(404, body) == Ok::<Verdict, Error>(Verdict::Replayed),
        read_answer(410, body) == Ok::<Verdict, Error>(Verdict::Expired),
        read_answer(400, body) == Err::<Verdict, Error>(Error::MalformedToken),
        read_answer(401, body) == Err::<Verdict, Error>(Error::Unauthorized),
        status != 200 && status != 400 && status != 401 && status != 404 && status != 410
            ==> read_answer(status, body) == Err::<Verdict, Error>(Error::Unexpected { status }),
        status != 200 ==> read_status(status) == read_answer(status, body),
{
}

/// The address that is asked ends in `/v1/verify`, behind the base without the slashes at its
/// end: it is the same however many there are.
pub proof fn lemma_verify_address(base: Seq<char>)
    ensures
        verify_address(base.push('/')) == verify_address(base),
        base.len() == 0 || base.last() != '/' ==> verify_address(base) == base + "/v1/verify"@,
{
    assert(base.push('/').drop_last() =~= base);
}

/// What a visitor is told: with 400 that the form was not accepted, and with 503 that nobody
/// could decide.
pub proof fn lemma_rejections(r: CaptchaRejection)
    ensures
        r.answer().0 == 503 <==> r is Failed,
        r.answer().0 == 400 <==> !(r is Failed),
        r is MissingToken ==> r.answer().1 == "Verification required."@,
        r is InvalidBody ==> r.answer().1 == "Malformed request body."@,
        r is Failed ==> r.answer().1 == "Verification unavailable. Please try again in a moment."@,
        r matches CaptchaRejection::Refused(v) ==> r.answer().1 == if v is Expired || v is Replayed {
            "Your verification expired. Please submit the form again."@
        } else {
            "Verification failed. Please reload and try again."@
        },
{
}

/// A token is asked about unless it is empty, and an empty one is never accepted.
pub proof fn lemma_without_asking(token: Seq<char>)
    ensures
        token.len() > 0 <==> without_asking(token) is None,
        without_asking(token) matches Some(v) ==> v is Replayed && !(v is Passed),
{
}

/// The token of a body is that of its first field where that is there; the second counts only
/// where the first is missing, and what is no text is no token.
pub proof fn lemma_token_of_body(first: Field, second: Field, token: String)
    ensures
        token_of(Field::Text(token), second) == Some(token),
        token_of(Field::Missing, Field::Text(token)) == Some(token),
        token_of(Field::Other, second) is None,
        token_of(Field::Missing, Field::Missing) is None,
        token_of(Field::Missing, Field::Other) is None,
{
}

} // verus!
