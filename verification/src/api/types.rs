//! Requests and answers.
use vstd::prelude::*;
use vstd::string::*;

use crate::crypto::hex_decode;
use crate::error::CaptchaError;
use crate::failover::OutageWindow;
use crate::ident::Uuid;
use crate::puzzle::types::Algorithm;
use crate::risk::behavior::BehaviorReport;
use crate::risk::tier::EscalationTier;
use crate::site::types::SitePolicy;
use crate::text::{chars_of, clone_text, string_of, trimmed};
use crate::time::Timestamp;

verus! {

#[derive(Debug, Clone, Copy, PartialEq, Eq, Structural)]
pub struct GetPuzzleParams {
    pub site_key: Uuid,
    /// The challenge that this request replaces before it expires.
    pub refresh_of: Option<Uuid>,
}

/// A request to verify: the opaque token of the widget, or the fields that it would hold.
/// A token that is not blank is the only thing that counts.
#[derive(Debug)]
pub struct VerifyRequest {
    /// A JSON document in hexadecimal digits.
    pub token: Option<String>,
    pub challenge_id: Option<Uuid>,
    pub nonce: u64,
    pub honeypot: Option<String>,
    pub behavior: Option<BehaviorReport>,
    /// A claim that no puzzle could be fetched, in place of a solution.
    pub failover: bool,
    pub site_key: Option<Uuid>,
    /// When the claim was made, by the client's clock in milliseconds.
    pub issued_at: Option<i64>,
}

/// What a token holds.
#[derive(Debug)]
pub struct TokenPayload {
    pub challenge_id: Option<Uuid>,
    pub nonce: u64,
    pub honeypot: Option<String>,
    pub behavior: Option<BehaviorReport>,
    pub failover: bool,
    pub site_key: Option<Uuid>,
    pub issued_at: Option<i64>,
}

/// What became of the document of a token.
#[derive(Debug)]
pub enum DecodedToken {
    /// There was no token.
    Absent,
    /// It was no document of the expected form.
    Malformed,
    Payload(TokenPayload),
}

/// A solution of a puzzle.
#[derive(Debug)]
pub struct SolvedVerify {
    pub challenge_id: Uuid,
    pub nonce: u64,
    pub honeypot: Option<String>,
    pub behavior: Option<BehaviorReport>,
}

/// A claim that the service could not be reached.
#[derive(Debug)]
pub struct FailoverClaim {
    pub site_key: Uuid,
    pub issued_at_ms: i64,
    pub honeypot: Option<String>,
    pub behavior: Option<BehaviorReport>,
}

/// A request to verify in its one form. A claim can never be taken for a solution.
#[derive(Debug)]
pub enum ResolvedVerify {
    Solved(SolvedVerify),
    Failover(FailoverClaim),
}

pub const INVALID_TOKEN: &'static str = "invalid captcha token";

/// The token without white space at its ends, where there is one that is not blank.
pub open spec fn given_token(token: Option<String>) -> Option<Seq<char>> {
    match token {
        None => None,
        Some(t) => if crate::text::trim(t@).len() == 0 {
            None
        } else {
            Some(crate::text::trim(t@))
        },
    }
}

/// The problem of a request.
pub open spec fn is_bad_request(e: CaptchaError, message: Seq<char>) -> bool {
    e matches CaptchaError::BadRequest(detail) && detail@ == message
}

/// A number that was sent, or zero.
pub open spec fn or_zero(n: Option<i64>) -> i64 {
    match n {
        Some(n) => n,
        None => 0,
    }
}

fn bad_request(message: &str) -> (r: CaptchaError)
    ensures
        is_bad_request(r, message@),
{
    CaptchaError::BadRequest(message.to_owned())
}

/// A request in its one form, given what the document of its token holds, or the message of
/// the error. Without a token its own fields count.
pub open spec fn resolution(request: VerifyRequest, decoded: DecodedToken) -> Result<
    ResolvedVerify,
    Seq<char>,
> {
    match decoded {
        DecodedToken::Malformed => Err(INVALID_TOKEN@),
        DecodedToken::Payload(p) => if p.failover {
            match p.site_key {
                None => Err("failover token requires site_key"@),
                Some(site_key) => Ok(
                    ResolvedVerify::Failover(
                        FailoverClaim {
                            site_key,
                            issued_at_ms: or_zero(p.issued_at),
                            honeypot: p.honeypot,
                            behavior: p.behavior,
                        },
                    ),
                ),
            }
        } else {
            match p.challenge_id {
                None => Err(INVALID_TOKEN@),
                Some(challenge_id) => Ok(
                    ResolvedVerify::Solved(
                        SolvedVerify {
                            challenge_id,
                            nonce: p.nonce,
                            honeypot: p.honeypot,
                            behavior: p.behavior,
                        },
                    ),
                ),
            }
        },
        DecodedToken::Absent => if request.failover {
            match request.site_key {
                None => Err("failover requires site_key"@),
                Some(site_key) => Ok(
                    ResolvedVerify::Failover(
                        FailoverClaim {
                            site_key,
                            issued_at_ms: or_zero(request.issued_at),
                            honeypot: request.honeypot,
                            behavior: request.behavior,
                        },
                    ),
                ),
            }
        } else {
            match request.challenge_id {
                None => Err("challenge_id or token is required"@),
                Some(challenge_id) => Ok(
                    ResolvedVerify::Solved(
                        SolvedVerify {
                            challenge_id,
                            nonce: request.nonce,
                            honeypot: request.honeypot,
                            behavior: request.behavior,
                        },
                    ),
                ),
            }
        },
    }
}

/// A request in its one form, given what its token's document parses to, or the message of
/// the error. A token that is no hexadecimal text, or whose document does not parse, is an
/// error; without a token nothing is parsed.
pub open spec fn resolution_with(request: VerifyRequest, payload: Option<TokenPayload>) -> Result<
    ResolvedVerify,
    Seq<char>,
> {
    match given_token(request.token) {
        None => resolution(request, DecodedToken::Absent),
        Some(token) => match payload {
            Some(p) if crate::crypto::is_hex_text(token) => resolution(
                request,
                DecodedToken::Payload(p),
            ),
            _ => Err(INVALID_TOKEN@),
        },
    }
}

/// The result is the request in its one form, or a refusal with the message.
pub open spec fn is_resolution(
    r: Result<ResolvedVerify, CaptchaError>,
    expected: Result<ResolvedVerify, Seq<char>>,
) -> bool {
    match expected {
        Ok(resolved) => r == Ok::<ResolvedVerify, CaptchaError>(resolved),
        Err(message) => r matches Err(e) && is_bad_request(e, message),
    }
}

impl VerifyRequest {
    /// The request in its one form, given what the document of its token, that of
    /// `token_bytes`, parses to. A token that is not blank is the only thing that counts.
    pub fn resolve_with(self, payload: Option<TokenPayload>) -> (r: Result<
        ResolvedVerify,
        CaptchaError,
    >)
        ensures
            is_resolution(r, resolution_with(self, payload)),
    {
        let decoded = match self.token_bytes() {
            Err(e) => {
                return Err(e);
            },
            Ok(None) => DecodedToken::Absent,
            Ok(Some(_)) => match payload {
                Some(p) => DecodedToken::Payload(p),
                None => DecodedToken::Malformed,
            },
        };
        self.resolve(decoded)
    }

    /// The document of the token, if there is a token. A blank one is as good as none.
    pub fn token_bytes(&self) -> (r: Result<Option<Vec<u8>>, CaptchaError>)
        ensures
            match given_token(self.token) {
                None => r matches Ok(None),
                Some(token) => if crate::crypto::is_hex_text(token) {
                    r matches Ok(Some(bytes)) && bytes@ == crate::crypto::hex_bytes(token)
                } else {
                    r matches Err(e) && is_bad_request(e, INVALID_TOKEN@)
                },
            },
    {
        match &self.token {
            None => Ok(None),
            Some(t) => {
                let cs = trimmed(chars_of(t.as_str()).as_slice());
                if cs.len() == 0 {
                    return Ok(None);
                }
                match hex_decode(string_of(cs.as_slice()).as_str()) {
                    Some(bytes) => Ok(Some(bytes)),
                    None => Err(bad_request(INVALID_TOKEN)),
                }
            },
        }
    }

    /// The request in its one form, given what the document of its token holds. Without a
    /// token its own fields count.
    pub fn resolve(self, decoded: DecodedToken) -> (r: Result<ResolvedVerify, CaptchaError>)
        ensures
            is_resolution(r, resolution(self, decoded)),
    {
        match decoded {
            DecodedToken::Malformed => Err(bad_request(INVALID_TOKEN)),
            DecodedToken::Payload(p) => {
                if p.failover {
                    match p.site_key {
                        None => Err(bad_request("failover token requires site_key")),
                        Some(site_key) => Ok(
                            ResolvedVerify::Failover(
                                FailoverClaim {
                                    site_key,
                                    issued_at_ms: p.issued_at.unwrap_or(0),
                                    honeypot: p.honeypot,
                                    behavior: p.behavior,
                                },
                            ),
                        ),
                    }
                } else {
                    match p.challenge_id {
                        None => Err(bad_request(INVALID_TOKEN)),
                        Some(challenge_id) => Ok(
                            ResolvedVerify::Solved(
                                SolvedVerify {
                                    challenge_id,
                                    nonce: p.nonce,
                                    honeypot: p.honeypot,
                                    behavior: p.behavior,
                                },
                            ),
                        ),
                    }
                }
            },
            DecodedToken::Absent => {
                if self.failover {
                    match self.site_key {
                        None => Err(bad_request("failover requires site_key")),
                        Some(site_key) => Ok(
                            ResolvedVerify::Failover(
                                FailoverClaim {
                                    site_key,
                                    issued_at_ms: self.issued_at.unwrap_or(0),
                                    honeypot: self.honeypot,
                                    behavior: self.behavior,
                                },
                            ),
                        ),
                    }
                } else {
                    match self.challenge_id {
                        None => Err(bad_request("challenge_id or token is required")),
                        Some(challenge_id) => Ok(
                            ResolvedVerify::Solved(
                                SolvedVerify {
                                    challenge_id,
                                    nonce: self.nonce,
                                    honeypot: self.honeypot,
                                    behavior: self.behavior,
                                },
                            ),
                        ),
                    }
                }
            },
        }
    }
}

/// A request to note an outage: one that lasted until now, or one between two points in
/// time.
#[derive(Debug, Clone, Copy, PartialEq, Eq, Structural)]
pub struct DeclareOutageRequest {
    pub duration_secs: Option<u64>,
    pub start: Option<Timestamp>,
    pub end: Option<Timestamp>,
}

#[derive(Debug)]
pub struct OutagesResponse {
    /// Claims are honoured at all.
    pub enabled: bool,
    pub grace_secs: u64,
    /// The outages that are open.
    pub windows: Vec<OutageWindow>,
    pub accepted_total: u64,
    pub refused_total: u64,
}

#[derive(Debug)]
pub struct CreateSiteRequest {
    pub name: String,
    pub allowed_origins: Vec<String>,
    pub policy: SitePolicy,
}

/// Where the operator's own information pages are.
#[derive(Debug)]
pub struct InfoUrls {
    pub about: Option<String>,
    pub privacy: Option<String>,
    pub terms: Option<String>,
}

/// Where the operator's own information pages are, with the addresses as sequences of
/// characters.
#[verifier::ext_equal]
pub struct InfoUrlsView {
    pub about: Option<Seq<char>>,
    pub privacy: Option<Seq<char>>,
    pub terms: Option<Seq<char>>,
}

impl View for InfoUrls {
    type V = InfoUrlsView;

    open spec fn view(&self) -> InfoUrlsView {
        InfoUrlsView {
            about: crate::config::optional_text(self.about),
            privacy: crate::config::optional_text(self.privacy),
            terms: crate::config::optional_text(self.terms),
        }
    }
}

impl Default for InfoUrls {
    fn default() -> (r: Self)
        ensures
            r.about is None && r.privacy is None && r.terms is None,
    {
        InfoUrls { about: None, privacy: None, terms: None }
    }
}

impl Clone for InfoUrls {
    fn clone(&self) -> (r: Self)
        ensures
            r@ == self@,
    {
        InfoUrls {
            about: clone_text(&self.about),
            privacy: clone_text(&self.privacy),
            terms: clone_text(&self.terms),
        }
    }
}

impl InfoUrls {
    pub fn is_empty(&self) -> (r: bool)
        ensures
            r == (self.about is None && self.privacy is None && self.terms is None),
    {
        self.about.is_none() && self.privacy.is_none() && self.terms.is_none()
    }

    /// The names of the settings that are missing, where some are set and some are not.
    pub fn missing(&self) -> (r: Vec<&'static str>)
        ensures
            crate::text::str_views(r@) == missing_urls(self@),
    {
        let mut out: Vec<&'static str> = Vec::new();
        if !self.is_empty() {
            if self.about.is_none() {
                out.push("INFO_ABOUT_URL");
            }
            if self.privacy.is_none() {
                out.push("INFO_PRIVACY_URL");
            }
            if self.terms.is_none() {
                out.push("INFO_TERMS_URL");
            }
        }
        assert(crate::text::str_views(out@) =~= missing_urls(self@));
        out
    }
}

pub open spec fn named_if(missing: bool, name: Seq<char>) -> Seq<Seq<char>> {
    if missing {
        seq![name]
    } else {
        Seq::empty()
    }
}

/// The names of the settings that are missing. With none set, none is missing.
pub open spec fn missing_urls(urls: InfoUrlsView) -> Seq<Seq<char>> {
    if urls.about is None && urls.privacy is None && urls.terms is None {
        Seq::empty()
    } else {
        named_if(urls.about is None, "INFO_ABOUT_URL"@) + named_if(
            urls.privacy is None,
            "INFO_PRIVACY_URL"@,
        ) + named_if(urls.terms is None, "INFO_TERMS_URL"@)
    }
}

pub open spec fn info_view(urls: Option<InfoUrls>) -> Option<InfoUrlsView> {
    match urls {
        Some(urls) => Some(urls@),
        None => None,
    }
}

pub fn clone_info(urls: &Option<InfoUrls>) -> (r: Option<InfoUrls>)
    ensures
        info_view(r) == info_view(*urls),
{
    match urls {
        Some(urls) => Some(urls.clone()),
        None => None,
    }
}

/// A puzzle.
#[derive(Debug)]
pub struct PuzzleResponse {
    pub challenge_id: Uuid,
    pub algorithm: Algorithm,
    pub prefix: String,
    pub difficulty: u32,
    pub expires_at: String,
    /// How long the challenge lives from now on. The widget renews it by this and not by
    /// the client's clock.
    pub expires_in_secs: u64,
    pub tier: EscalationTier,
    pub info_urls: Option<InfoUrls>,
}

/// A puzzle, with its texts as sequences of characters.
#[verifier::ext_equal]
pub struct PuzzleResponseView {
    pub challenge_id: Uuid,
    pub algorithm: Algorithm,
    pub prefix: Seq<char>,
    pub difficulty: u32,
    pub expires_at: Seq<char>,
    pub expires_in_secs: u64,
    pub tier: EscalationTier,
    pub info_urls: Option<InfoUrlsView>,
}

impl View for PuzzleResponse {
    type V = PuzzleResponseView;

    open spec fn view(&self) -> PuzzleResponseView {
        PuzzleResponseView {
            challenge_id: self.challenge_id,
            algorithm: self.algorithm,
            prefix: self.prefix@,
            difficulty: self.difficulty,
            expires_at: self.expires_at@,
            expires_in_secs: self.expires_in_secs,
            tier: self.tier,
            info_urls: info_view(self.info_urls),
        }
    }
}

/// A refusal. It comes with the information pages, which its reader is likely to want.
#[derive(Debug)]
pub struct BlockedResponse {
    pub error: String,
    pub tier: EscalationTier,
    pub info_urls: Option<InfoUrls>,
}

/// A refusal, with its texts as sequences of characters.
#[verifier::ext_equal]
pub struct BlockedResponseView {
    pub error: Seq<char>,
    pub tier: EscalationTier,
    pub info_urls: Option<InfoUrlsView>,
}

impl View for BlockedResponse {
    type V = BlockedResponseView;

    open spec fn view(&self) -> BlockedResponseView {
        BlockedResponseView {
            error: self.error@,
            tier: self.tier,
            info_urls: info_view(self.info_urls),
        }
    }
}

#[derive(Debug, Clone, Copy, PartialEq, Eq, Structural)]
pub struct VerifyResponse {
    pub success: bool,
    /// The visitor passed without a puzzle, because none could be served.
    pub failover: bool,
}

impl VerifyResponse {
    /// The answer to a solution.
    pub fn solved(success: bool) -> (r: Self)
        ensures
            r == (VerifyResponse { success, failover: false }),
    {
        VerifyResponse { success, failover: false }
    }
}

#[derive(Debug)]
pub struct CreateSiteResponse {
    pub site_key: Uuid,
    pub secret_key: String,
    pub allowed_origins: Vec<String>,
    pub policy: SitePolicy,
}

/// A document that is not empty, in hexadecimal digits, is a token that gives the document
/// back.
pub proof fn lemma_token_round_trip(document: Seq<u8>, token: String)
    requires
        document.len() > 0,
        token@ == crate::crypto::hex_text(document),
    ensures
        given_token(Some(token)) == Some(token@),
        crate::crypto::is_hex_text(token@),
        crate::crypto::hex_bytes(token@) == document,
{
    let text = token@;
    crate::crypto::lemma_hex_round_trip(document);
    assert(!crate::text::is_white_space(text[0]));
    assert(!crate::text::is_white_space(text[text.len() - 1]));
    assert(crate::text::trim_start(text) == text);
    assert(crate::text::trim_end(text) == text);
}

/// A token that is not blank is the only thing that counts: two requests with the same token
/// resolve alike, whatever their other fields are. It resolves to a claim exactly where its
/// document says so and names a site, and to a solution exactly where its document says so
/// and names a challenge.
pub proof fn lemma_token_is_all_that_counts(
    a: VerifyRequest,
    b: VerifyRequest,
    token: Seq<char>,
    payload: Option<TokenPayload>,
)
    requires
        given_token(a.token) == Some(token),
        given_token(b.token) == Some(token),
    ensures
        resolution_with(a, payload) == resolution_with(b, payload),
        resolution_with(a, payload) matches Ok(ResolvedVerify::Failover(_)) <==> {
            &&& crate::crypto::is_hex_text(token)
            &&& payload matches Some(p)
            &&& p.failover
            &&& p.site_key is Some
        },
        resolution_with(a, payload) matches Ok(ResolvedVerify::Solved(_)) <==> {
            &&& crate::crypto::is_hex_text(token)
            &&& payload matches Some(p)
            &&& !p.failover
            &&& p.challenge_id is Some
        },
{
}

/// A blank token is as good as none: the other fields decide.
pub proof fn lemma_blank_token_is_none(request: VerifyRequest, payload: Option<TokenPayload>)
    requires
        given_token(request.token) is None,
    ensures
        resolution_with(request, payload) == resolution(request, DecodedToken::Absent),
{
}

/// What a token resolves to carries over everything that its document says: a solution its
/// challenge, its nonce, its honeypot and its report, and a claim its site, its time, its
/// honeypot and its report. Nothing is dropped and nothing is made up.
pub proof fn lemma_token_is_carried_over(
    request: VerifyRequest,
    token: Seq<char>,
    p: TokenPayload,
    r: Result<ResolvedVerify, CaptchaError>,
)
    requires
        given_token(request.token) == Some(token),
        crate::crypto::is_hex_text(token),
        is_resolution(r, resolution_with(request, Some(p))),
    ensures
        !p.failover && p.challenge_id is Some ==> (r matches Ok(ResolvedVerify::Solved(s)) && {
            &&& p.challenge_id == Some(s.challenge_id)
            &&& s.nonce == p.nonce
            &&& s.honeypot == p.honeypot
            &&& s.behavior == p.behavior
        }),
        p.failover && p.site_key is Some ==> (r matches Ok(ResolvedVerify::Failover(c)) && {
            &&& p.site_key == Some(c.site_key)
            &&& p.issued_at matches Some(at) ==> c.issued_at_ms == at
            &&& p.issued_at is None ==> c.issued_at_ms == 0
            &&& c.honeypot == p.honeypot
            &&& c.behavior == p.behavior
        }),
        !p.failover && p.challenge_id is None ==> (r matches Err(CaptchaError::BadRequest(m)) && m@
            == "invalid captcha token"@),
        p.failover && p.site_key is None ==> (r matches Err(CaptchaError::BadRequest(m)) && m@
            == "failover token requires site_key"@),
{
}

/// What a document resolves to carries over everything that it says, as
/// `lemma_token_is_carried_over` states it of the token.
pub proof fn lemma_document_is_carried_over(
    request: VerifyRequest,
    p: TokenPayload,
    r: Result<ResolvedVerify, CaptchaError>,
)
    requires
        is_resolution(r, resolution(request, DecodedToken::Payload(p))),
    ensures
        r matches Ok(ResolvedVerify::Solved(s)) ==> {
            &&& !p.failover
            &&& p.challenge_id == Some(s.challenge_id)
            &&& s.nonce == p.nonce
            &&& s.honeypot == p.honeypot
            &&& s.behavior == p.behavior
        },
        r matches Ok(ResolvedVerify::Failover(c)) ==> {
            &&& p.failover
            &&& p.site_key == Some(c.site_key)
            &&& Some(c.issued_at_ms) == p.issued_at || (p.issued_at is None && c.issued_at_ms == 0)
            &&& c.honeypot == p.honeypot
            &&& c.behavior == p.behavior
        },
        r is Ok <==> (p.failover && p.site_key is Some) || (!p.failover && p.challenge_id is Some),
        r matches Err(e) ==> e is BadRequest,
{
}

/// Without a token, or with a blank one, a request resolves to what its own fields say, all
/// of them; what would be missing is told.
pub proof fn lemma_fields_are_carried_over(
    request: VerifyRequest,
    payload: Option<TokenPayload>,
    r: Result<ResolvedVerify, CaptchaError>,
)
    requires
        request.token matches Some(t) ==> forall|i: int|
            0 <= i < t@.len() ==> crate::text::is_white_space(#[trigger] t@[i]),
        is_resolution(r, resolution_with(request, payload)),
    ensures
        !request.failover && request.challenge_id is Some ==> (r matches Ok(
            ResolvedVerify::Solved(s),
        ) && {
            &&& request.challenge_id == Some(s.challenge_id)
            &&& s.nonce == request.nonce
            &&& s.honeypot == request.honeypot
            &&& s.behavior == request.behavior
        }),
        request.failover && request.site_key is Some ==> (r matches Ok(
            ResolvedVerify::Failover(c),
        ) && {
            &&& request.site_key == Some(c.site_key)
            &&& request.issued_at matches Some(at) ==> c.issued_at_ms == at
            &&& request.issued_at is None ==> c.issued_at_ms == 0
            &&& c.honeypot == request.honeypot
            &&& c.behavior == request.behavior
        }),
        !request.failover && request.challenge_id is None ==> (r matches Err(
            CaptchaError::BadRequest(m),
        ) && m@ == "challenge_id or token is required"@),
        request.failover && request.site_key is None ==> (r matches Err(
            CaptchaError::BadRequest(m),
        ) && m@ == "failover requires site_key"@),
{
    if let Some(t) = request.token {
        crate::text::lemma_trim_is_middle(t@);
    }
}

/// A token that says something is refused where it is no hexadecimal text or its document does
/// not parse, whatever the other fields say.
pub proof fn lemma_unreadable_token_is_refused(
    request: VerifyRequest,
    token: String,
    k: int,
    payload: Option<TokenPayload>,
    r: Result<ResolvedVerify, CaptchaError>,
)
    requires
        request.token == Some(token),
        0 <= k < token@.len(),
        !crate::text::is_white_space(token@[k]),
        payload is None || !crate::crypto::is_hex_text(crate::text::trim(token@)),
        is_resolution(r, resolution_with(request, payload)),
    ensures
        r matches Err(CaptchaError::BadRequest(m)) && m@ == "invalid captcha token"@,
{
    crate::text::lemma_trim_is_middle(token@);
}

/// The settings that are told missing are those that are: about, privacy and terms, in this
/// order, and none where all three are.
pub proof fn lemma_missing_urls(urls: InfoUrlsView)
    ensures
        missing_urls(urls).contains("INFO_ABOUT_URL"@) <==> urls.about is None && (urls.privacy
            is Some || urls.terms is Some),
        missing_urls(urls).contains("INFO_PRIVACY_URL"@) <==> urls.privacy is None && (urls.about
            is Some || urls.terms is Some),
        missing_urls(urls).contains("INFO_TERMS_URL"@) <==> urls.terms is None && (urls.about
            is Some || urls.privacy is Some),
        missing_urls(urls).len() <= 2,
{
    reveal_strlit("INFO_ABOUT_URL");
    reveal_strlit("INFO_PRIVACY_URL");
    reveal_strlit("INFO_TERMS_URL");
    let a = "INFO_ABOUT_URL"@;
    let b = "INFO_PRIVACY_URL"@;
    let c = "INFO_TERMS_URL"@;
    assert(a.len() == 14 && b.len() == 16 && c.len() == 14);
    assert(a[5] == 'A' && c[5] == 'T');
    let m = missing_urls(urls);
    let na: int = if urls.about is None { 1 } else { 0 };
    let nb: int = if urls.privacy is None { 1 } else { 0 };
    if na + nb + (if urls.terms is None { 1int } else { 0 }) < 3 {
        if urls.about is None {
            assert(m[0] == a);
        }
        if urls.privacy is None {
            assert(m[na] == b);
        }
        if urls.terms is None {
            assert(m[na + nb] == c);
        }
    }
}

/// The views of the answers show each of their fields under its own name.
pub proof fn lemma_answer_views(p: PuzzleResponse, b: BlockedResponse, u: InfoUrls)
    ensures
        p@.challenge_id == p.challenge_id && p@.algorithm == p.algorithm && p@.prefix == p.prefix@
            && p@.difficulty == p.difficulty && p@.expires_at == p.expires_at@ && p@.expires_in_secs
            == p.expires_in_secs && p@.tier == p.tier && p@.info_urls == info_view(p.info_urls),
        b@.error == b.error@ && b@.tier == b.tier && b@.info_urls == info_view(b.info_urls),
        u@.about is Some <==> u.about is Some,
        u@.privacy is Some <==> u.privacy is Some,
        u@.terms is Some <==> u.terms is Some,
        u.about matches Some(t) ==> u@.about == Some(t@),
        u.privacy matches Some(t) ==> u@.privacy == Some(t@),
        u.terms matches Some(t) ==> u@.terms == Some(t@),
        info_view(Some(u)) == Some(u@),
        info_view(None) is None,
{
}

} // verus!
