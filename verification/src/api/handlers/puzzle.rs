//! The answer to a request for a puzzle.
use axum::http::HeaderMap;
use vstd::prelude::*;
use vstd::string::*;

use crate::api::decision::{decide, PuzzleDecision};
use crate::api::state::AppState;
use crate::api::types::{clone_info, BlockedResponse, BlockedResponseView, GetPuzzleParams,
    PuzzleResponse, PuzzleResponseView};
use crate::crypto::random_bytes;
use crate::dashboard::types::{PuzzleRecord, PuzzleRecordView};
use crate::error::CaptchaError;
use crate::headers::text_of;
use crate::ident::{fresh_uuid, Uuid};
use crate::net::IpAddr;
use crate::puzzle::types::Challenge;
use crate::risk::client_ip::{anonymize_ip, client_ip, rate_key};
use crate::risk::score::{RequestFacts, RiskScore, SignalContext};
use crate::risk::signals::RATE_SUSTAINED_WINDOW_SECS;
use crate::risk::tier::EscalationTier;
use crate::risk::tls_fingerprint::{TlsFingerprint, TrustedProxies};
use crate::site::types::{EffectivePolicy, SiteView};
use crate::storage::memory::{InMemoryStore, RATE_WINDOW_SECS};
use crate::text::{chars_of, lowered, quoted_text, same, string_of};
use crate::time::{date_text, now, Timestamp};

verus! {

/// What a request for a puzzle is answered with.
#[derive(Debug)]
pub enum PuzzleReply {
    Issued(PuzzleResponse),
    /// Status 429.
    Blocked(BlockedResponse),
}

/// The answer to a request for a puzzle, and what is logged of it.
#[derive(Debug)]
pub struct PuzzleAnswer {
    pub reply: PuzzleReply,
    pub record: PuzzleRecord,
}

/// A site that restricts its origins takes a request whose origin it lists, in any case of
/// letters, and one without an origin: those come from its own pages or from no browser.
pub open spec fn origin_allowed(
    allowed: Seq<Seq<char>>,
    headers: Map<Seq<char>, Seq<u8>>,
) -> bool {
    allowed.len() == 0 || match crate::headers::header_text(headers, "origin"@) {
        None => true,
        Some(origin) => allowed.contains(crate::text::ascii_lower(origin)),
    }
}

/// Whether a site takes a request by its origin.
pub fn takes_origin(allowed: &Vec<String>, headers: &HeaderMap) -> (r: bool)
    ensures
        r == origin_allowed(crate::text::string_views(allowed@), crate::headers::fields(*headers)),
{
    let n = allowed.len();
    if n == 0 {
        return true;
    }
    match text_of(headers, "origin") {
        None => true,
        Some(origin) => {
            let lower = string_of(lowered(chars_of(origin.as_str()).as_slice()).as_slice());
            let ghost views = crate::text::string_views(allowed@);
            for i in 0..n
                invariant
                    n == allowed@.len(),
                    views == crate::text::string_views(allowed@),
                    lower@ == crate::text::ascii_lower(origin@),
                    crate::headers::header_text(crate::headers::fields(*headers), "origin"@) == Some(origin@),
                    forall|j: int| 0 <= j < i ==> #[trigger] views[j] != lower@,
            {
                if same(allowed[i].as_str(), lower.as_str()) {
                    assert(views[i as int] == lower@);
                    return true;
                }
            }
            false
        },
    }
}

/// The TLS fingerprint of a request: the value of the configured header, where a trusted
/// proxy sent it. Anybody else could make it up.
pub open spec fn sent_fingerprint(
    header: Option<String>,
    trusted: Seq<crate::net::IpNet>,
    peer: IpAddr,
    headers: Map<Seq<char>, Seq<u8>>,
) -> Option<Seq<char>> {
    match header {
        Some(name) if crate::net::any_covers(trusted, peer) => match crate::headers::header_text(
            headers,
            name@,
        ) {
            Some(value) if value.len() > 0 => Some(value),
            _ => None,
        },
        _ => None,
    }
}

fn fingerprint_header(
    header: &Option<String>,
    trusted: &TrustedProxies,
    peer: IpAddr,
    headers: &HeaderMap,
) -> (r: Option<String>)
    ensures
        match r {
            Some(value) => sent_fingerprint(
                *header,
                trusted.nets@,
                peer,
                crate::headers::fields(*headers),
            ) == Some(value@),
            None => sent_fingerprint(
                *header,
                trusted.nets@,
                peer,
                crate::headers::fields(*headers),
            ) is None,
        },
{
    match header {
        None => None,
        Some(name) => {
            if !trusted.contains(peer) {
                return None;
            }
            match text_of(headers, name.as_str()) {
                None => None,
                Some(value) => {
                    if chars_of(value.as_str()).len() == 0 {
                        None
                    } else {
                        Some(value)
                    }
                },
            }
        },
    }
}

/// How a fingerprint is logged.
pub open spec fn fingerprint_label(fingerprint: Option<Seq<char>>) -> Seq<char> {
    match fingerprint {
        None => "Skipped"@,
        Some(value) => "Provided("@ + crate::text::quoted(value) + ")"@,
    }
}

fn label_fingerprint(fingerprint: &Option<String>) -> (r: String)
    ensures
        r@ == fingerprint_label(crate::config::optional_text(*fingerprint)),
{
    match fingerprint {
        None => "Skipped".to_owned(),
        Some(value) => {
            let mut s = "Provided(".to_owned();
            s.append(quoted_text(value.as_str()).as_str());
            s.append(")");
            s
        },
    }
}

/// What a request is judged by, once it is counted.
pub open spec fn request_facts(
    state: AppState,
    peer: IpAddr,
    headers: Map<Seq<char>, Seq<u8>>,
    site_key: Uuid,
    now: Timestamp,
) -> RequestFacts {
    let ip = crate::risk::client_ip::resolved_client(peer, headers, state.trusted_proxies.nets@);
    let key = crate::risk::client_ip::counted_as(ip);
    RequestFacts {
        ip,
        headers,
        ip_count: crate::storage::rates::bumped(
            state.store.ip_rates.window(key),
            now.secs,
            RATE_WINDOW_SECS,
        ).count,
        ip_count_sustained: crate::storage::rates::bumped(
            state.store.ip_rates_sustained.window(key),
            now.secs,
            RATE_SUSTAINED_WINDOW_SECS,
        ).count,
        site_count: crate::storage::rates::bumped(
            crate::storage::rates::window_of(state.store.site_rates.windows@, site_key),
            now.secs,
            RATE_WINDOW_SECS,
        ).count,
        tls_fingerprint: sent_fingerprint(
            state.tls_fingerprint_header,
            state.trusted_proxies.nets@,
            peer,
            headers,
        ),
    }
}

/// The score of a request under the policy of its site.
pub open spec fn request_score(
    state: AppState,
    facts: RequestFacts,
    policy: EffectivePolicy,
) -> RiskScore {
    crate::risk::score::risk_scored(state.weights, state.risk, facts, policy.tiers)
}

/// What becomes of a request under the policy of its site.
pub open spec fn request_decision(
    state: AppState,
    facts: RequestFacts,
    policy: EffectivePolicy,
) -> PuzzleDecision {
    crate::api::decision::decided(
        request_score(state, facts, policy).tier,
        facts.ip_count,
        state.config.ip_hard_limit,
        state.store.challenges@.dom().len(),
        state.config.max_active_challenges,
        crate::risk::load::floor_of(state.config.load_ladder.levels@, facts.site_count),
        policy,
    )
}

/// What is logged of a request. The address is logged as its network where the operator
/// wants it so; the score is of the full one.
pub open spec fn request_record(
    state: AppState,
    facts: RequestFacts,
    policy: EffectivePolicy,
    site_key: Uuid,
    issued: Option<Uuid>,
) -> PuzzleRecordView {
    let score = request_score(state, facts, policy);
    let decision = request_decision(state, facts, policy);
    PuzzleRecordView {
        monitored: issued is Some && decision.monitored_block,
        challenge_id: issued,
        site_key,
        ip: if state.config.anonymize_log_ip {
            crate::risk::client_ip::anonymized(facts.ip)
        } else {
            facts.ip
        },
        ip_count: facts.ip_count,
        site_count: facts.site_count,
        score: score.total,
        tier: decision.tier,
        difficulty: if issued is Some {
            decision.difficulty->0
        } else {
            0
        },
        outcome: if issued is Some {
            "issued"@
        } else {
            "rejected"@
        },
        breakdown: score.breakdown,
        ip_reputation_category: score.ip_category,
        tls_fingerprint: fingerprint_label(facts.tls_fingerprint),
        user_agent: crate::headers::header_text(facts.headers, "user-agent"@),
    }
}

/// Between the two stores one request was counted, from an address to a site.
pub open spec fn counted_once(
    before: InMemoryStore,
    after: InMemoryStore,
    key: IpAddr,
    site_key: Uuid,
    now: i64,
) -> bool {
    &&& after.same_sites(before)
    &&& after.behavior_blobs == before.behavior_blobs
    &&& after.ip_rates.window(key) == Some(
        crate::storage::rates::bumped(before.ip_rates.window(key), now, RATE_WINDOW_SECS),
    )
    &&& after.ip_rates_sustained.window(key) == Some(
        crate::storage::rates::bumped(
            before.ip_rates_sustained.window(key),
            now,
            RATE_SUSTAINED_WINDOW_SECS,
        ),
    )
    &&& forall|other: IpAddr|
        other != key ==> #[trigger] after.ip_rates.window(other) == before.ip_rates.window(other)
    &&& forall|other: IpAddr|
        other != key ==> #[trigger] after.ip_rates_sustained.window(other)
            == before.ip_rates_sustained.window(other)
    &&& after.site_rates.windows@ == before.site_rates.windows@.insert(
        site_key,
        crate::storage::rates::bumped(
            crate::storage::rates::window_of(before.site_rates.windows@, site_key),
            now,
            RATE_WINDOW_SECS,
        ),
    )
}

/// When the visitor was first seen, by the challenge that a request replaces: where it is
/// held, and for the same site.
pub open spec fn carried_dwell(store: InMemoryStore, params: GetPuzzleParams) -> Option<Timestamp> {
    match params.refresh_of {
        None => None,
        Some(prior) => match store.challenge_of(prior) {
            Some(challenge) if challenge.site_key == params.site_key => Some(
                challenge.dwell_since,
            ),
            _ => None,
        },
    }
}

fn inherited_dwell(store: &InMemoryStore, params: &GetPuzzleParams) -> (r: Option<Timestamp>)
    ensures
        r == carried_dwell(*store, *params),
{
    match params.refresh_of {
        None => None,
        Some(prior) => match store.get_challenge(&prior) {
            None => None,
            Some(challenge) => {
                if challenge.site_key == params.site_key {
                    Some(challenge.dwell_since)
                } else {
                    None
                }
            },
        },
    }
}

/// A challenge that is issued at a time, with the given random parts.
pub open spec fn is_issued(
    state: AppState,
    challenge: Challenge,
    params: GetPuzzleParams,
    difficulty: u32,
    now: Timestamp,
    id: Uuid,
    prefix: Seq<u8>,
) -> bool {
    &&& challenge.id == id
    &&& challenge.site_key == params.site_key
    &&& challenge.algorithm == state.engine.config.algorithm
    &&& challenge.prefix@ == crate::crypto::hex_text(prefix)
    &&& challenge.difficulty == difficulty
    &&& challenge.created_at == now
    &&& challenge.dwell_since == (match carried_dwell(state.store, params) {
        Some(since) => since,
        None => now,
    })
    &&& challenge.expires_at == expiry(state, now)
    &&& challenge.attempts == 0
    &&& challenge.issued_to is None
}

/// When a challenge expires that is issued now.
pub open spec fn expiry(state: AppState, now: Timestamp) -> Timestamp {
    crate::time::later(now, state.engine.config.ttl_secs)
}

/// There is such a site, and it takes requests of this origin.
pub open spec fn is_taken(
    state: AppState,
    headers: Map<Seq<char>, Seq<u8>>,
    params: GetPuzzleParams,
) -> bool {
    state.store.site_of_key(params.site_key) matches Some(site) && origin_allowed(
        site.allowed_origins,
        headers,
    )
}

/// A request can be counted: none of its counts is used up.
pub open spec fn can_count(
    state: AppState,
    peer: IpAddr,
    headers: Map<Seq<char>, Seq<u8>>,
    params: GetPuzzleParams,
    now: Timestamp,
) -> bool {
    state.store.counts_request(
        crate::risk::client_ip::counted_as(
            crate::risk::client_ip::resolved_client(peer, headers, state.trusted_proxies.nets@),
        ),
        params.site_key,
        now.secs,
    )
}

/// The answer to a request, and what it changes.
pub open spec fn answers(
    before: AppState,
    after: AppState,
    peer: IpAddr,
    headers: Map<Seq<char>, Seq<u8>>,
    params: GetPuzzleParams,
    now: Timestamp,
    id: Uuid,
    prefix: Seq<u8>,
    r: Result<PuzzleAnswer, CaptchaError>,
) -> bool {
    &&& after.same_but_store(before)
    &&& after.wf()
    &&& match before.store.site_of_key(params.site_key) {
        None => r == Err::<PuzzleAnswer, CaptchaError>(CaptchaError::InvalidSiteKey)
            && after.store == before.store,
        Some(site) => if !origin_allowed(site.allowed_origins, headers) {
            r == Err::<PuzzleAnswer, CaptchaError>(CaptchaError::OriginNotAllowed) && after.store
                == before.store
        } else {
            r matches Ok(answer) && serves(
                before,
                after,
                peer,
                headers,
                params,
                now,
                id,
                prefix,
                site,
                answer,
            )
        },
    }
}

/// The answer to a request that its site takes, and what it changes: the request is counted,
/// and where it is not refused, a challenge is kept.
pub open spec fn serves(
    before: AppState,
    after: AppState,
    peer: IpAddr,
    headers: Map<Seq<char>, Seq<u8>>,
    params: GetPuzzleParams,
    now: Timestamp,
    id: Uuid,
    prefix: Seq<u8>,
    site: SiteView,
    answer: PuzzleAnswer,
) -> bool {
    let policy = crate::site::types::effective(site.policy, before.config);
    let facts = request_facts(before, peer, headers, params.site_key, now);
    let decision = request_decision(before, facts, policy);
    &&& counted_once(
        before.store,
        after.store,
        crate::risk::client_ip::counted_as(facts.ip),
        params.site_key,
        now.secs,
    )
    &&& if decision.enforced_tier == EscalationTier::Block {
        &&& answer.reply matches PuzzleReply::Blocked(body)
        &&& body@ == (BlockedResponseView {
            error: CaptchaError::RateLimited.description(),
            tier: decision.tier,
            info_urls: crate::api::types::info_view(before.info_urls),
        })
        &&& answer.record@ == request_record(before, facts, policy, params.site_key, None)
        &&& after.store.challenges@ == before.store.challenges@
    } else {
        &&& answer.reply matches PuzzleReply::Issued(body)
        &&& body@ == (PuzzleResponseView {
            challenge_id: id,
            algorithm: before.engine.config.algorithm,
            prefix: crate::crypto::hex_text(prefix),
            difficulty: decision.difficulty->0,
            expires_at: crate::time::date_written(expiry(before, now)),
            expires_in_secs: before.config.challenge_ttl_secs,
            tier: decision.enforced_tier,
            info_urls: crate::api::types::info_view(before.info_urls),
        })
        &&& answer.record@ == request_record(before, facts, policy, params.site_key, Some(id))
        &&& after.store.challenge_of(id) matches Some(challenge)
        &&& is_issued(before, challenge, params, decision.difficulty->0, now, id, prefix)
        &&& after.store.challenges@ == before.store.challenges@.insert(id, challenge)
    }
}

/// Answers a request for a puzzle at a given time, with given random parts.
pub fn get_puzzle_at(
    state: &mut AppState,
    peer: IpAddr,
    headers: &HeaderMap,
    params: &GetPuzzleParams,
    now: Timestamp,
    id: Uuid,
    prefix_bytes: &[u8],
) -> (r: Result<PuzzleAnswer, CaptchaError>)
    requires
        old(state).wf(),
        is_taken(*old(state), crate::headers::fields(*headers), *params) ==> {
            &&& crate::time::is_date(now)
            &&& now.nanos < 1_000_000_000
            &&& can_count(*old(state), peer, crate::headers::fields(*headers), *params, now)
        },
    ensures
        answers(
            *old(state),
            *final(state),
            peer,
            crate::headers::fields(*headers),
            *params,
            now,
            id,
            prefix_bytes@,
            r,
        ),
{
    let site = match state.store.get_site_by_key(&params.site_key) {
        Some(site) => site,
        None => {
            return Err(CaptchaError::InvalidSiteKey);
        },
    };
    if !takes_origin(&site.allowed_origins, headers) {
        return Err(CaptchaError::OriginNotAllowed);
    }
    let policy = site.policy.resolve(&state.config);
    let ip = client_ip(peer, headers, &state.trusted_proxies);
    let key = rate_key(ip);
    let ip_count = state.store.increment_ip_count_at(&key, now.secs);
    let ip_count_sustained = state.store.increment_ip_count_sustained_at(&key, now.secs);
    let site_count = state.store.increment_site_count_at(&params.site_key, now.secs);
    let fingerprint = fingerprint_header(
        &state.tls_fingerprint_header,
        &state.trusted_proxies,
        peer,
        headers,
    );
    let ctx = SignalContext {
        ip,
        headers,
        ip_count,
        ip_count_sustained,
        site_count,
        tls_fingerprint: match &fingerprint {
            Some(value) => TlsFingerprint::Provided(value.as_str()),
            None => TlsFingerprint::Skipped,
        },
    };
    let ghost facts = request_facts(
        *old(state),
        peer,
        crate::headers::fields(*headers),
        params.site_key,
        now,
    );
    assert(ctx@ =~= facts);
    let score = state.risk.score_with(&state.weights, &ctx, policy.tiers);
    let load_floor = state.config.load_ladder.floor_for(site_count);
    let decision = decide(
        score.tier,
        ip_count,
        state.config.ip_hard_limit,
        state.store.challenge_count(),
        state.config.max_active_challenges,
        load_floor,
        &policy,
    );
    assert(decision == request_decision(*old(state), facts, policy));
    let logged_ip = if state.config.anonymize_log_ip {
        anonymize_ip(ip)
    } else {
        ip
    };
    let label = label_fingerprint(&fingerprint);
    let user_agent = text_of(headers, "user-agent");
    let difficulty = match decision.difficulty {
        Some(difficulty) => difficulty,
        None => {
            assert(decision.enforced_tier == EscalationTier::Block);
            let body = BlockedResponse {
                error: CaptchaError::RateLimited.message(),
                tier: decision.tier,
                info_urls: clone_info(&state.info_urls),
            };
            let record = PuzzleRecord {
                monitored: false,
                challenge_id: None,
                site_key: params.site_key,
                ip: logged_ip,
                ip_count,
                site_count,
                score: score.total,
                tier: decision.tier,
                difficulty: 0,
                outcome: "rejected",
                breakdown: score.breakdown,
                ip_reputation_category: score.ip_category,
                tls_fingerprint: label,
                user_agent,
            };
            assert(record@ =~= request_record(
                *old(state),
                facts,
                policy,
                params.site_key,
                None,
            ));
            return Ok(PuzzleAnswer { reply: PuzzleReply::Blocked(body), record });
        },
    };
    assert(decision.enforced_tier != EscalationTier::Block);
    let dwell_since = match inherited_dwell(&state.store, params) {
        Some(since) => since,
        None => now,
    };
    let challenge = state.engine.assemble(
        id,
        prefix_bytes,
        params.site_key,
        difficulty,
        now,
        dwell_since,
    );
    let record = PuzzleRecord {
        monitored: decision.monitored_block,
        challenge_id: Some(id),
        site_key: params.site_key,
        ip: logged_ip,
        ip_count,
        site_count,
        score: score.total,
        tier: decision.tier,
        difficulty,
        outcome: "issued",
        breakdown: score.breakdown,
        ip_reputation_category: score.ip_category,
        tls_fingerprint: label,
        user_agent,
    };
    assert(record@ =~= request_record(*old(state), facts, policy, params.site_key, Some(id)));
    let body = PuzzleResponse {
        challenge_id: id,
        algorithm: challenge.algorithm,
        prefix: challenge.prefix.clone(),
        difficulty,
        expires_at: date_text(&challenge.expires_at),
        expires_in_secs: state.config.challenge_ttl_secs,
        tier: decision.enforced_tier,
        info_urls: clone_info(&state.info_urls),
    };
    state.store.store_challenge(&challenge);
    Ok(PuzzleAnswer { reply: PuzzleReply::Issued(body), record })
}

/// Answers a request for a puzzle, with a fresh identifier and a fresh prefix. There is no
/// answer to one that its site takes when a count is used up, and then nothing has changed.
pub fn get_puzzle(
    state: &mut AppState,
    peer: IpAddr,
    headers: &HeaderMap,
    params: &GetPuzzleParams,
) -> (r: Option<Result<PuzzleAnswer, CaptchaError>>)
    requires
        old(state).wf(),
    ensures
        match r {
            None => {
                &&& *final(state) == *old(state)
                &&& is_taken(*old(state), crate::headers::fields(*headers), *params)
                &&& exists|t: Timestamp|
                    crate::time::is_clock_time(t) && !#[trigger] can_count(
                        *old(state),
                        peer,
                        crate::headers::fields(*headers),
                        *params,
                        t,
                    )
            },
            Some(answer) => exists|t: Timestamp, id: Uuid, prefix: Seq<u8>|
                crate::time::is_clock_time(t) && crate::ident::is_v4(id) && prefix.len() == 16
                    && #[trigger] answers(
                    *old(state),
                    *final(state),
                    peer,
                    crate::headers::fields(*headers),
                    *params,
                    t,
                    id,
                    prefix,
                    answer,
                ),
        },
{
    let t = now();
    let ip = client_ip(peer, headers, &state.trusted_proxies);
    let taken = match state.store.get_site_by_key(&params.site_key) {
        Some(site) => takes_origin(&site.allowed_origins, headers),
        None => false,
    };
    if taken && !state.store.can_count_request(&rate_key(ip), &params.site_key, t.secs) {
        assert(!can_count(*state, peer, crate::headers::fields(*headers), *params, t));
        return None;
    }
    let id = fresh_uuid();
    let prefix = random_bytes::<16>();
    let answer = get_puzzle_at(state, peer, headers, params, t, id, &prefix);
    assert(answers(
        *old(state),
        *state,
        peer,
        crate::headers::fields(*headers),
        *params,
        t,
        id,
        prefix@,
        answer,
    ));
    Some(answer)
}

/// A request that replaces a challenge of its own site carries over when the visitor was
/// first seen, so that a chain of renewals keeps pointing at the first arrival. A challenge
/// of another site carries over nothing.
pub proof fn lemma_renewal_keeps_arrival(
    before: AppState,
    after: AppState,
    peer: IpAddr,
    headers: Map<Seq<char>, Seq<u8>>,
    params: GetPuzzleParams,
    now: Timestamp,
    id: Uuid,
    prefix: Seq<u8>,
    answer: PuzzleAnswer,
    prior: Challenge,
)
    requires
        answers(before, after, peer, headers, params, now, id, prefix, Ok(answer)),
        answer.reply is Issued,
        params.refresh_of matches Some(replaced) && before.store.challenge_of(replaced) == Some(
            prior,
        ),
    ensures
        after.store.challenge_of(id) matches Some(challenge) && challenge.dwell_since == (
        if prior.site_key == params.site_key {
            prior.dwell_since
        } else {
            now
        }),
{
}

/// A request that its site does not take, for its origin or because there is no such site,
/// is not counted.
pub proof fn lemma_refused_origin_is_not_counted(
    before: AppState,
    after: AppState,
    peer: IpAddr,
    headers: Map<Seq<char>, Seq<u8>>,
    params: GetPuzzleParams,
    now: Timestamp,
    id: Uuid,
    prefix: Seq<u8>,
    e: CaptchaError,
)
    requires
        answers(before, after, peer, headers, params, now, id, prefix, Err(e)),
    ensures
        after == before,
        e == CaptchaError::InvalidSiteKey || e == CaptchaError::OriginNotAllowed,
{
}

/// A site that lists no origin takes every request, and so does any site one without an origin;
/// else the origin must be on the list, whatever the case of its letters.
pub proof fn lemma_origins(
    allowed: Seq<Seq<char>>,
    headers: Map<Seq<char>, Seq<u8>>,
    origin: Seq<char>,
    i: int,
)
    ensures
        allowed.len() == 0 ==> origin_allowed(allowed, headers),
        crate::headers::header_text(headers, "origin"@) is None ==> origin_allowed(
            allowed,
            headers,
        ),
        crate::headers::header_text(headers, "origin"@) == Some(origin) && 0 <= i < allowed.len()
            && allowed[i] == crate::text::ascii_lower(origin) ==> origin_allowed(allowed, headers),
        crate::headers::header_text(headers, "origin"@) == Some(origin) && allowed.len() > 0 && (
        forall|k: int|
            0 <= k < allowed.len() ==> #[trigger] allowed[k] != crate::text::ascii_lower(origin))
            ==> !origin_allowed(allowed, headers),
{
}

/// A fingerprint counts only in the header that is configured, from a peer that is trusted, and
/// where it is not empty.
pub proof fn lemma_fingerprint_is_sent(
    header: Option<String>,
    trusted: Seq<crate::net::IpNet>,
    peer: IpAddr,
    headers: Map<Seq<char>, Seq<u8>>,
)
    ensures
        header is None ==> sent_fingerprint(header, trusted, peer, headers) is None,
        !crate::net::any_covers(trusted, peer) ==> sent_fingerprint(header, trusted, peer, headers)
            is None,
        header matches Some(name) ==> crate::net::any_covers(trusted, peer) ==> (match
        crate::headers::header_text(headers, name@) {
            None => sent_fingerprint(header, trusted, peer, headers) is None,
            Some(value) => if value.len() == 0 {
                sent_fingerprint(header, trusted, peer, headers) is None
            } else {
                sent_fingerprint(header, trusted, peer, headers) == Some(value)
            },
        }),
{
}

/// What a request is judged by: the address of the client and not that of a trusted proxy, its
/// counts with this request among them, and the fingerprint that was sent. An IPv6 client
/// shares its counts with the 64 bits of its network.
pub proof fn lemma_request_facts(
    state: AppState,
    peer: IpAddr,
    headers: Map<Seq<char>, Seq<u8>>,
    site_key: Uuid,
    now: Timestamp,
)
    ensures
        ({
            let facts = request_facts(state, peer, headers, site_key, now);
            let key = crate::risk::client_ip::counted_as(facts.ip);
            &&& facts.ip == crate::risk::client_ip::resolved_client(
                peer,
                headers,
                state.trusted_proxies.nets@,
            )
            &&& facts.headers == headers
            &&& state.store.ip_rates.window(key) is None ==> facts.ip_count == 1
            &&& state.store.ip_rates_sustained.window(key) is None ==> facts.ip_count_sustained
                == 1
            &&& !state.store.site_rates.windows@.contains_key(site_key) ==> facts.site_count == 1
            &&& state.store.ip_rates.window(key) matches Some(w) ==> w.count < u32::MAX
                ==> facts.ip_count == if now.secs - w.window_start < 60 {
                w.count + 1
            } else {
                1
            }
            &&& state.store.ip_rates_sustained.window(key) matches Some(w) ==> w.count < u32::MAX
                ==> facts.ip_count_sustained == if now.secs - w.window_start < 900 {
                w.count + 1
            } else {
                1
            }
            &&& state.store.site_rates.windows@.contains_key(site_key) ==> {
                let w = state.store.site_rates.windows@[site_key];
                w.count < u32::MAX ==> facts.site_count == if now.secs - w.window_start < 60 {
                    w.count + 1
                } else {
                    1
                }
            }
            &&& facts.tls_fingerprint == sent_fingerprint(
                state.tls_fingerprint_header,
                state.trusted_proxies.nets@,
                peer,
                headers,
            )
        }),
{
}

/// A puzzle that is told is the one that is kept: the same identifier, prefix, algorithm and
/// difficulty, for the site that was asked for, until the lifetime that is set is over. It is
/// logged as issued, with its difficulty.
pub proof fn lemma_puzzle_is_kept(
    before: AppState,
    after: AppState,
    peer: IpAddr,
    headers: Map<Seq<char>, Seq<u8>>,
    params: GetPuzzleParams,
    now: Timestamp,
    id: Uuid,
    prefix: Seq<u8>,
    answer: PuzzleAnswer,
)
    requires
        answers(before, after, peer, headers, params, now, id, prefix, Ok(answer)),
        answer.reply is Issued,
    ensures
        ({
            let body = answer.reply->Issued_0;
            let kept = after.store.challenges@[id];
            &&& after.store.challenges@.contains_key(id)
            &&& body.challenge_id == id
            &&& kept.id == id
            &&& kept.site_key == params.site_key
            &&& kept.prefix@ == body.prefix@
            &&& body.prefix@ == crate::crypto::hex_text(prefix)
            &&& kept.algorithm == body.algorithm
            &&& kept.algorithm == before.engine.config.algorithm
            &&& kept.difficulty == body.difficulty
            &&& kept.attempts == 0
            &&& kept.created_at == now
            &&& now.secs + before.engine.config.ttl_secs <= crate::time::MAX_SECS
                ==> kept.expires_at.secs == now.secs + before.engine.config.ttl_secs
            &&& kept.expires_at.nanos == now.nanos
            &&& body.expires_at@ == crate::time::rfc3339_text(
                kept.expires_at.secs,
                kept.expires_at.nanos,
            )
            &&& body.expires_in_secs == before.config.challenge_ttl_secs
            &&& params.refresh_of is None ==> kept.dwell_since == now
            &&& answer.record.challenge_id == Some(id)
            &&& answer.record.difficulty == body.difficulty
            &&& answer.record.outcome@ == "issued"@
            &&& answer.record.site_key == params.site_key
            &&& forall|other: u128|
                other != id ==> (#[trigger] after.store.challenges@.contains_key(other)
                    <==> before.store.challenges@.contains_key(other))
        }),
{
}

/// A refused request is told so, keeps no challenge, and is logged as rejected, with the tier
/// that refused it.
pub proof fn lemma_refused_request(
    before: AppState,
    after: AppState,
    peer: IpAddr,
    headers: Map<Seq<char>, Seq<u8>>,
    params: GetPuzzleParams,
    now: Timestamp,
    id: Uuid,
    prefix: Seq<u8>,
    answer: PuzzleAnswer,
)
    requires
        answers(before, after, peer, headers, params, now, id, prefix, Ok(answer)),
        answer.reply is Blocked,
    ensures
        after.store.challenges@ == before.store.challenges@,
        answer.reply->Blocked_0.error@ == "Rate limit exceeded"@,
        answer.reply->Blocked_0.tier == answer.record.tier,
        answer.record.challenge_id is None,
        answer.record.outcome@ == "rejected"@,
        answer.record.difficulty == 0,
        !answer.record.monitored,
{
}

/// Whether a request is refused, and what its puzzle is: the score of its four signals leads to
/// a tier, and the tier, the limit of the source, the room that is left and the load of the
/// site lead to the answer. Without the limit and with room, a score that reaches the block
/// threshold of a site that enforces is refused, and any other gets a puzzle.
pub proof fn lemma_score_decides(
    before: AppState,
    after: AppState,
    peer: IpAddr,
    headers: Map<Seq<char>, Seq<u8>>,
    params: GetPuzzleParams,
    now: Timestamp,
    id: Uuid,
    prefix: Seq<u8>,
    answer: PuzzleAnswer,
    site: SiteView,
)
    requires
        answers(before, after, peer, headers, params, now, id, prefix, Ok(answer)),
        before.store.site_of_key(params.site_key) == Some(site),
    ensures
        ({
            let facts = request_facts(before, peer, headers, params.site_key, now);
            let policy = crate::site::types::effective(site.policy, before.config);
            let score = crate::risk::score::risk_scored(
                before.weights,
                before.risk,
                facts,
                policy.tiers,
            );
            let calm = (before.config.ip_hard_limit == 0 || facts.ip_count
                <= before.config.ip_hard_limit) && (before.config.max_active_challenges == 0
                || before.store.challenges@.dom().len() < before.config.max_active_challenges);
            &&& answer.record.score == score.total
            &&& answer.record.breakdown == score.breakdown
            &&& answer.record.ip_reputation_category == score.ip_category
            &&& answer.record.ip_count == facts.ip_count
            &&& answer.record.site_count == facts.site_count
            &&& before.config.anonymize_log_ip ==> answer.record.ip
                == crate::risk::client_ip::anonymized(facts.ip)
            &&& !before.config.anonymize_log_ip ==> answer.record.ip == facts.ip
            &&& calm ==> answer.record.tier == score.tier
            &&& calm && policy.mode == crate::site::types::SiteMode::Enforce ==> (
            answer.reply is Blocked <==> score.total >= policy.tiers.block)
            &&& calm && policy.mode == crate::site::types::SiteMode::Monitor ==> answer.reply
                is Issued
            &&& calm && policy.mode == crate::site::types::SiteMode::Monitor ==> (
            answer.record.monitored <==> score.total >= policy.tiers.block)
            &&& policy.mode == crate::site::types::SiteMode::Enforce ==> !answer.record.monitored
        }),
{
}

/// A request is answered for the site that it names, and refused by name where there is none
/// or where its origin is not on the site's list.
pub proof fn lemma_refusals(
    before: AppState,
    after: AppState,
    peer: IpAddr,
    headers: Map<Seq<char>, Seq<u8>>,
    params: GetPuzzleParams,
    now: Timestamp,
    id: Uuid,
    prefix: Seq<u8>,
    r: Result<PuzzleAnswer, CaptchaError>,
)
    requires
        answers(before, after, peer, headers, params, now, id, prefix, r),
    ensures
        r == Err::<PuzzleAnswer, CaptchaError>(CaptchaError::InvalidSiteKey)
            <==> !before.store.sites@.contains_key(params.site_key),
        r == Err::<PuzzleAnswer, CaptchaError>(CaptchaError::OriginNotAllowed) <==> (
        before.store.site_of_key(params.site_key) matches Some(site) && !origin_allowed(
            site.allowed_origins,
            headers,
        )),
        r is Ok <==> is_taken(before, headers, params),
{
}

/// An answer comes with the information pages that are set, and what is logged of a request
/// comes with its user agent and its fingerprint.
pub proof fn lemma_answer_details(
    before: AppState,
    after: AppState,
    peer: IpAddr,
    headers: Map<Seq<char>, Seq<u8>>,
    params: GetPuzzleParams,
    now: Timestamp,
    id: Uuid,
    prefix: Seq<u8>,
    answer: PuzzleAnswer,
)
    requires
        answers(before, after, peer, headers, params, now, id, prefix, Ok(answer)),
    ensures
        answer.reply matches PuzzleReply::Issued(body) ==> crate::api::types::info_view(
            body.info_urls,
        ) == crate::api::types::info_view(before.info_urls),
        answer.reply matches PuzzleReply::Blocked(body) ==> crate::api::types::info_view(
            body.info_urls,
        ) == crate::api::types::info_view(before.info_urls),
        crate::config::optional_text(answer.record.user_agent) == crate::headers::header_text(
            headers,
            "user-agent"@,
        ),
        ({
            let fp = sent_fingerprint(
                before.tls_fingerprint_header,
                before.trusted_proxies.nets@,
                peer,
                headers,
            );
            &&& fp is None ==> answer.record.tls_fingerprint@ == "Skipped"@
            &&& fp matches Some(value) ==> answer.record.tls_fingerprint@ == "Provided("@
                + crate::text::quoted(value) + ")"@
        }),
        answer.reply matches PuzzleReply::Issued(body) ==> !answer.record.monitored ==> body.tier
            == answer.record.tier,
        answer.reply matches PuzzleReply::Issued(body) ==> answer.record.monitored ==> body.tier
            == EscalationTier::HardPow && answer.record.tier == EscalationTier::Block,
{
    if let PuzzleReply::Issued(body) = answer.reply {
        assert(body@.info_urls == crate::api::types::info_view(body.info_urls));
    }
    if let PuzzleReply::Blocked(body) = answer.reply {
        assert(body@.info_urls == crate::api::types::info_view(body.info_urls));
    }
}

/// A request that its site takes is counted once: for its address in both windows and for its
/// site, whether it gets a puzzle or not. Nobody else's count changes, no site does, and no
/// report is counted.
pub proof fn lemma_request_is_counted(
    before: AppState,
    after: AppState,
    peer: IpAddr,
    headers: Map<Seq<char>, Seq<u8>>,
    params: GetPuzzleParams,
    now: Timestamp,
    id: Uuid,
    prefix: Seq<u8>,
    answer: PuzzleAnswer,
    other: IpAddr,
    other_site: Uuid,
)
    requires
        answers(before, after, peer, headers, params, now, id, prefix, Ok(answer)),
    ensures
        ({
            let facts = request_facts(before, peer, headers, params.site_key, now);
            let key = crate::risk::client_ip::counted_as(facts.ip);
            &&& after.store.ip_rates.window(key) matches Some(w) && w.count == facts.ip_count
            &&& after.store.ip_rates_sustained.window(key) matches Some(w) && w.count
                == facts.ip_count_sustained
            &&& after.store.site_rates.windows@.contains_key(params.site_key)
            &&& after.store.site_rates.windows@[params.site_key].count == facts.site_count
            &&& other != key ==> after.store.ip_rates.window(other) == before.store.ip_rates.window(
                other,
            )
            &&& other != key ==> after.store.ip_rates_sustained.window(other)
                == before.store.ip_rates_sustained.window(other)
            &&& other_site != params.site_key ==> crate::storage::rates::window_of(
                after.store.site_rates.windows@,
                other_site,
            ) == crate::storage::rates::window_of(before.store.site_rates.windows@, other_site)
        }),
        after.store.sites == before.store.sites,
        after.store.secrets == before.store.secrets,
        after.store.behavior_blobs == before.store.behavior_blobs,
        after.config == before.config,
        after.failover == before.failover,
{
}

/// Where a request says that it renews a challenge that is not kept any more, the visitor
/// counts as seen for the first time.
pub proof fn lemma_unknown_renewal_starts_anew(
    before: AppState,
    after: AppState,
    peer: IpAddr,
    headers: Map<Seq<char>, Seq<u8>>,
    params: GetPuzzleParams,
    now: Timestamp,
    id: Uuid,
    prefix: Seq<u8>,
    answer: PuzzleAnswer,
)
    requires
        answers(before, after, peer, headers, params, now, id, prefix, Ok(answer)),
        answer.reply is Issued,
        params.refresh_of matches Some(prior) ==> !before.store.challenges@.contains_key(prior),
    ensures
        after.store.challenges@[id].dwell_since == now,
        after.store.challenges@[id].created_at == now,
{
}

/// A request can always be answered, unless one of its counts has reached what 32 bits hold.
pub proof fn lemma_can_count(
    state: AppState,
    peer: IpAddr,
    headers: Map<Seq<char>, Seq<u8>>,
    params: GetPuzzleParams,
    now: Timestamp,
)
    requires
        forall|ip: IpAddr|
            (#[trigger] state.store.ip_rates.window(ip)) matches Some(w) ==> w.count < 0xFFFF_FFFF,
        forall|ip: IpAddr|
            (#[trigger] state.store.ip_rates_sustained.window(ip)) matches Some(w) ==> w.count
                < 0xFFFF_FFFF,
        state.store.site_rates.windows@.contains_key(params.site_key)
            ==> state.store.site_rates.windows@[params.site_key].count < 0xFFFF_FFFF,
    ensures
        can_count(state, peer, headers, params, now),
{
}

} // verus!
