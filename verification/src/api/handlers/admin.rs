//! The answers to the operator: outages that are noted, and sites that are registered.
use axum::http::HeaderMap;
use vstd::prelude::*;
use vstd::string::*;

use crate::api::extract::{bearer_token, is_secret};
use crate::api::state::AppState;
use crate::api::types::{CreateSiteRequest, CreateSiteResponse, DeclareOutageRequest,
    OutagesResponse};
use crate::crypto::{hex_encode, random_bytes};
use crate::error::CaptchaError;
use crate::ident::{fresh_uuid, Uuid};
use crate::site::types::{normalize_origins, normalize_site_name, Site, SiteView};
use crate::text::{append_number, clone_texts};
use crate::time::{now, Timestamp};

verus! {

/// The longest outage that can be noted.
pub const MAX_DECLARED_OUTAGE_SECS: u64 = 86_400;

/// A request comes from the operator. In a build for development the check can be switched
/// off.
pub open spec fn is_operator(state: AppState, headers: Map<Seq<char>, Seq<u8>>) -> Result<
    (),
    CaptchaError,
> {
    if state.config.dev_disable_admin_auth && state.debug_build {
        Ok(())
    } else {
        match state.admin_token {
            None => Err(CaptchaError::NotFound),
            Some(expected) => match crate::api::extract::request_token(headers) {
                Some(token) if token == expected@ => Ok(()),
                _ => Err(CaptchaError::Unauthorized),
            },
        }
    }
}

/// Whether a request comes from the operator. Where there is no operator's token nothing is
/// found: that there could be something is not told.
pub fn require_admin_token(state: &AppState, headers: &HeaderMap) -> (r: Result<(), CaptchaError>)
    ensures
        r == is_operator(*state, crate::headers::fields(*headers)),
{
    if state.config.dev_disable_admin_auth && state.debug_build {
        return Ok(());
    }
    match &state.admin_token {
        None => Err(CaptchaError::NotFound),
        Some(expected) => match bearer_token(headers) {
            None => Err(CaptchaError::Unauthorized),
            Some(token) => {
                if is_secret(token.as_str(), expected.as_str()) {
                    Ok(())
                } else {
                    Err(CaptchaError::Unauthorized)
                }
            },
        },
    }
}

pub const FAILOVER_OFF: &'static str =
    "client failover is disabled — set FAILOVER_ENABLED=1 and FAILOVER_STATE_PATH to declare outage windows";

pub const WINDOW_MISSING: &'static str = "provide either duration_secs, or both start and end";

pub const WINDOW_REVERSED: &'static str = "end must be after start";

/// The outage that a request notes, or what is wrong with it. One that lasted until now goes
/// by its duration; otherwise both ends are needed.
pub open spec fn noted_window(body: DeclareOutageRequest, now: Timestamp) -> Result<
    (Timestamp, Timestamp),
    Seq<char>,
> {
    match body.duration_secs {
        Some(secs) => if secs == 0 || secs > MAX_DECLARED_OUTAGE_SECS {
            Err("duration_secs must be 1..="@ + crate::text::decimal(86_400))
        } else {
            Ok((Timestamp { secs: (now.secs - secs) as i64, nanos: now.nanos }, now))
        },
        None => match (body.start, body.end) {
            (Some(start), Some(end)) => if end.at() <= start.at() {
                Err(WINDOW_REVERSED@)
            } else if (end.at() - start.at()) / (crate::time::NANOS_PER_SEC as int)
                > MAX_DECLARED_OUTAGE_SECS {
                Err("declared window may not exceed "@ + crate::text::decimal(86_400) + "s"@)
            } else {
                Ok((start, end))
            },
            _ => Err(WINDOW_MISSING@),
        },
    }
}

fn window_to_note(body: &DeclareOutageRequest, now: Timestamp) -> (r: Result<
    (Timestamp, Timestamp),
    String,
>)
    requires
        now.secs - MAX_DECLARED_OUTAGE_SECS >= i64::MIN,
    ensures
        match r {
            Ok(window) => noted_window(*body, now) == Ok::<(Timestamp, Timestamp), Seq<char>>(
                window,
            ),
            Err(e) => noted_window(*body, now) == Err::<(Timestamp, Timestamp), Seq<char>>(e@),
        },
{
    match body.duration_secs {
        Some(secs) => {
            if secs == 0 || secs > MAX_DECLARED_OUTAGE_SECS {
                let mut m = "duration_secs must be 1..=".to_owned();
                append_number(&mut m, MAX_DECLARED_OUTAGE_SECS);
                return Err(m);
            }
            let start = Timestamp { secs: now.secs - secs as i64, nanos: now.nanos };
            Ok((start, now))
        },
        None => match (body.start, body.end) {
            (Some(start), Some(end)) => {
                let length: i128 = end.instant() - start.instant();
                if length <= 0 {
                    return Err(WINDOW_REVERSED.to_owned());
                }
                if length / 1_000_000_000 > MAX_DECLARED_OUTAGE_SECS as i128 {
                    let mut m = "declared window may not exceed ".to_owned();
                    append_number(&mut m, MAX_DECLARED_OUTAGE_SECS);
                    m.append("s");
                    return Err(m);
                }
                Ok((start, end))
            },
            _ => Err(WINDOW_MISSING.to_owned()),
        },
    }
}

/// The outages that are open, and how claims fared.
pub open spec fn reports_outages(state: AppState, now: Timestamp, r: OutagesResponse) -> bool {
    &&& r.enabled == state.failover.is_on()
    &&& r.grace_secs == state.config.failover_grace_secs
    &&& r.windows@ == crate::failover::open_windows(
        state.failover.state.windows@,
        now,
        state.failover.config.grace_secs,
    )
    &&& r.accepted_total == state.failover.accepted_total
    &&& r.refused_total == state.failover.refused_total
}

fn outages_payload(state: &AppState, now: Timestamp) -> (r: OutagesResponse)
    ensures
        reports_outages(*state, now, r),
{
    let (accepted_total, refused_total) = state.failover.counters();
    OutagesResponse {
        enabled: state.failover.enabled(),
        grace_secs: state.config.failover_grace_secs,
        windows: state.failover.active_windows_at(now),
        accepted_total,
        refused_total,
    }
}

/// The answer to a request that notes an outage, and what it changes.
pub open spec fn notes_outage(
    before: AppState,
    after: AppState,
    headers: Map<Seq<char>, Seq<u8>>,
    body: DeclareOutageRequest,
    now: Timestamp,
    r: Result<OutagesResponse, CaptchaError>,
) -> bool {
    match is_operator(before, headers) {
        Err(e) => r == Err::<OutagesResponse, CaptchaError>(e) && after == before,
        Ok(_) => if !before.failover.is_on() {
            r matches Err(e) && crate::api::types::is_bad_request(e, FAILOVER_OFF@) && after
                == before
        } else {
            match noted_window(body, now) {
                Err(message) => r matches Err(e) && crate::api::types::is_bad_request(e, message)
                    && after == before,
                Ok(window) => {
                    &&& r matches Ok(payload)
                    &&& reports_outages(after, now, payload)
                    &&& after == (AppState { failover: after.failover, ..before })
                    &&& after.failover.config == before.failover.config
                    &&& after.failover.accepts == before.failover.accepts
                    &&& after.failover.accepted_total == before.failover.accepted_total
                    &&& after.failover.refused_total == before.failover.refused_total
                    &&& after.failover.state.last_heartbeat == before.failover.state.last_heartbeat
                    &&& after.failover.state.windows@ == crate::failover::kept_windows(
                        before.failover.state.windows@.push(
                            crate::failover::OutageWindow {
                                start: window.0,
                                end: window.1,
                                source: crate::failover::OutageSource::Declared,
                            },
                        ),
                        now,
                        before.failover.config.grace_secs,
                    )
                },
            }
        },
    }
}

/// Notes an outage at a given time. What the process cannot see of itself, such as a broken
/// way to it, the operator tells it.
pub fn declare_outage_at(
    state: &mut AppState,
    headers: &HeaderMap,
    body: &DeclareOutageRequest,
    now: Timestamp,
) -> (r: Result<OutagesResponse, CaptchaError>)
    requires
        old(state).wf(),
        now.secs - MAX_DECLARED_OUTAGE_SECS >= i64::MIN,
    ensures
        final(state).wf(),
        notes_outage(*old(state), *final(state), crate::headers::fields(*headers), *body, now, r),
{
    match require_admin_token(state, headers) {
        Ok(()) => {},
        Err(e) => {
            return Err(e);
        },
    }
    if !state.failover.enabled() {
        return Err(CaptchaError::BadRequest(FAILOVER_OFF.to_owned()));
    }
    let (start, end) = match window_to_note(body, now) {
        Ok(window) => window,
        Err(message) => {
            return Err(CaptchaError::BadRequest(message));
        },
    };
    state.failover.declare_outage_at(start, end, now);
    assert(state.failover.claims() == old(state).failover.claims());
    Ok(outages_payload(state, now))
}

/// `declare_outage_at` at the current time.
pub fn declare_outage(
    state: &mut AppState,
    headers: &HeaderMap,
    body: &DeclareOutageRequest,
) -> (r: Result<OutagesResponse, CaptchaError>)
    requires
        old(state).wf(),
    ensures
        final(state).wf(),
        exists|t: Timestamp|
            crate::time::is_clock_time(t) && #[trigger] notes_outage(
                *old(state),
                *final(state),
                crate::headers::fields(*headers),
                *body,
                t,
                r,
            ),
{
    let t = now();
    let r = declare_outage_at(state, headers, body, t);
    assert(notes_outage(*old(state), *state, crate::headers::fields(*headers), *body, t, r));
    r
}

/// The outages that are open at a given time.
pub fn list_outages_at(state: &AppState, headers: &HeaderMap, now: Timestamp) -> (r: Result<
    OutagesResponse,
    CaptchaError,
>)
    ensures
        match is_operator(*state, crate::headers::fields(*headers)) {
            Err(e) => r == Err::<OutagesResponse, CaptchaError>(e),
            Ok(_) => r matches Ok(payload) && reports_outages(*state, now, payload),
        },
{
    match require_admin_token(state, headers) {
        Ok(()) => Ok(outages_payload(state, now)),
        Err(e) => Err(e),
    }
}

/// `list_outages_at` at the current time.
pub fn list_outages(state: &AppState, headers: &HeaderMap) -> (r: Result<
    OutagesResponse,
    CaptchaError,
>)
    ensures
        match is_operator(*state, crate::headers::fields(*headers)) {
            Err(e) => r == Err::<OutagesResponse, CaptchaError>(e),
            Ok(_) => r matches Ok(payload) && exists|t: Timestamp|
                crate::time::is_clock_time(t) && #[trigger] reports_outages(*state, t, payload),
        },
{
    list_outages_at(state, headers, now())
}

/// The site that a request registers, given its key and the random bytes of its secret, or
/// why it registers none.
pub open spec fn registered(
    state: AppState,
    headers: Map<Seq<char>, Seq<u8>>,
    body: CreateSiteRequest,
    now: Timestamp,
    site_key: Uuid,
    secret: Seq<u8>,
    r: Result<Site, CaptchaError>,
) -> bool {
    match is_operator(state, headers) {
        Err(e) => r == Err::<Site, CaptchaError>(e),
        Ok(_) => match crate::site::types::stored_name(body.name@) {
            Err(message) => r matches Err(e) && crate::api::types::is_bad_request(e, message),
            Ok(name) => match crate::site::types::stored_origin_list(
                crate::text::string_views(body.allowed_origins@),
            ) {
                Err(message) => r matches Err(e) && crate::api::types::is_bad_request(e, message),
                Ok(origins) => match crate::site::types::policy_problem(
                    crate::site::types::effective(body.policy, state.config),
                ) {
                    Some(message) => r matches Err(e) && crate::api::types::is_bad_request(
                        e,
                        message,
                    ),
                    None => r matches Ok(site) && site@ == (SiteView {
                        site_key,
                        secret_key: crate::crypto::hex_text(secret),
                        name,
                        created_at: now,
                        allowed_origins: origins,
                        policy: body.policy,
                    }),
                },
            },
        },
    }
}

/// The site that a request registers, with a given key and given random bytes for its
/// secret. It is not kept yet.
pub fn prepare_site_at(
    state: &AppState,
    headers: &HeaderMap,
    body: &CreateSiteRequest,
    now: Timestamp,
    site_key: Uuid,
    secret: &[u8],
) -> (r: Result<Site, CaptchaError>)
    ensures
        registered(*state, crate::headers::fields(*headers), *body, now, site_key, secret@, r),
{
    match require_admin_token(state, headers) {
        Ok(()) => {},
        Err(e) => {
            return Err(e);
        },
    }
    let name = match normalize_site_name(body.name.as_str()) {
        Ok(name) => name,
        Err(message) => {
            return Err(CaptchaError::BadRequest(message));
        },
    };
    let allowed_origins = match normalize_origins(body.allowed_origins.as_slice()) {
        Ok(origins) => origins,
        Err(message) => {
            return Err(CaptchaError::BadRequest(message));
        },
    };
    match body.policy.validate(&state.config) {
        Ok(()) => {},
        Err(message) => {
            return Err(CaptchaError::BadRequest(message));
        },
    }
    Ok(
        Site {
            site_key,
            secret_key: hex_encode(secret),
            name,
            created_at: now,
            allowed_origins,
            policy: body.policy,
        },
    )
}

/// `prepare_site_at` at the current time, with a fresh key and a fresh secret.
pub fn prepare_site(state: &AppState, headers: &HeaderMap, body: &CreateSiteRequest) -> (r: Result<
    Site,
    CaptchaError,
>)
    ensures
        exists|t: Timestamp, site_key: Uuid, secret: Seq<u8>|
            crate::ident::is_v4(site_key) && secret.len() == 32 && crate::time::is_clock_time(t)
                && #[trigger] registered(
                *state,
                crate::headers::fields(*headers),
                *body,
                t,
                site_key,
                secret,
                r,
            ),
{
    let t = now();
    let site_key = fresh_uuid();
    let secret = random_bytes::<32>();
    let r = prepare_site_at(state, headers, body, t, site_key, &secret);
    assert(registered(*state, crate::headers::fields(*headers), *body, t, site_key, secret@, r));
    r
}

impl CreateSiteResponse {
    /// What the operator is told of a site that was registered: the secret is told once.
    pub fn of(site: &Site) -> (r: Self)
        ensures
            r.site_key == site.site_key,
            r.secret_key@ == site.secret_key@,
            crate::text::string_views(r.allowed_origins@) == site@.allowed_origins,
            r.policy == site.policy,
    {
        CreateSiteResponse {
            site_key: site.site_key,
            secret_key: site.secret_key.clone(),
            allowed_origins: clone_texts(&site.allowed_origins),
            policy: site.policy,
        }
    }
}

/// Registers a site, with a fresh key and a fresh secret.
pub fn create_site(state: &mut AppState, headers: &HeaderMap, body: &CreateSiteRequest) -> (r:
    Result<CreateSiteResponse, CaptchaError>)
    requires
        old(state).wf(),
    ensures
        final(state).wf(),
        final(state).same_but_store(*old(state)),
        exists|
            t: Timestamp,
            site_key: Uuid,
            secret: Seq<u8>,
            prepared: Result<Site, CaptchaError>,
        |
            {
                &&& crate::ident::is_v4(site_key)
                &&& secret.len() == 32
                &&& crate::time::is_clock_time(t)
                &&& #[trigger] registered(
                    *old(state),
                    crate::headers::fields(*headers),
                    *body,
                    t,
                    site_key,
                    secret,
                    prepared,
                )
                &&& match prepared {
                    Err(e) => r == Err::<CreateSiteResponse, CaptchaError>(e) && *final(state)
                        == *old(state),
                    Ok(site) => {
                        &&& r matches Ok(told)
                        &&& told.site_key == site.site_key
                        &&& told.secret_key@ == site.secret_key@
                        &&& crate::text::string_views(told.allowed_origins@)
                            == site@.allowed_origins
                        &&& told.policy == site.policy
                        &&& final(state).store.site_of_key(told.site_key) == Some(site@)
                        &&& final(state).store.site_of_secret(told.secret_key@) == Some(site@)
                        &&& final(state).store.site_map() == old(state).store.site_map().insert(
                            site.site_key,
                            site@,
                        )
                        &&& final(state).store.secrets@ == old(state).store.secrets@.insert(
                            site.secret_key@,
                            site.site_key,
                        )
                        &&& final(state).store.challenges == old(state).store.challenges
                        &&& final(state).store.same_counts(old(state).store)
                    },
                }
            },
{
    let prepared = prepare_site(state, headers, body);
    match prepared {
        Err(e) => Err(e),
        Ok(site) => {
            state.store.store_site(&site);
            Ok(CreateSiteResponse::of(&site))
        },
    }
}

/// Who is the operator: whoever comes with the operator's token. Without such a token nothing
/// is found, and with another one, or none, a request is not authorised; only a build for
/// development can be told to ask for none.
pub proof fn lemma_operator(state: AppState, headers: Map<Seq<char>, Seq<u8>>)
    ensures
        state.config.dev_disable_admin_auth && state.debug_build ==> is_operator(state, headers)
            is Ok,
        !(state.config.dev_disable_admin_auth && state.debug_build) ==> {
            &&& state.admin_token is None ==> is_operator(state, headers) == Err::<
                (),
                CaptchaError,
            >(CaptchaError::NotFound)
            &&& state.admin_token matches Some(token) ==> {
                &&& crate::api::extract::request_token(headers) == Some(token@) ==> is_operator(
                    state,
                    headers,
                ) is Ok
                &&& crate::api::extract::request_token(headers) != Some(token@) ==> is_operator(
                    state,
                    headers,
                ) == Err::<(), CaptchaError>(CaptchaError::Unauthorized)
            }
        },
{
}

/// The outage that is noted: of a duration from one second to a day it ends now, whatever else
/// is given; else both of its ends are needed, in their order and at most a day apart.
pub proof fn lemma_noted_outage(body: DeclareOutageRequest, now: Timestamp)
    requires
        now.secs - 86_400 >= i64::MIN,
    ensures
        body.duration_secs matches Some(secs) ==> {
            &&& noted_window(body, now) is Ok <==> 1 <= secs <= 86_400
            &&& noted_window(body, now) matches Ok((start, end)) ==> end == now && start.secs
                == now.secs - secs && start.nanos == now.nanos
        },
        body.duration_secs is None ==> {
            &&& noted_window(body, now) is Ok <==> {
                &&& body.start is Some && body.end is Some
                &&& body.start->0.at() < body.end->0.at()
                &&& body.end->0.at() - body.start->0.at() < 86_401 * 1_000_000_000
            }
            &&& noted_window(body, now) matches Ok((start, end)) ==> body.start == Some(start)
                && body.end == Some(end)
        },
{
}

/// A site is registered as it was asked for: with its name and its origins as they are stored
/// and its policy as it is, under the key and with the secret that were made for it. Only the
/// operator registers sites, and only with a name, origins and a policy that are taken.
pub proof fn lemma_registered_site(
    state: AppState,
    headers: Map<Seq<char>, Seq<u8>>,
    body: CreateSiteRequest,
    now: Timestamp,
    site_key: Uuid,
    secret: Seq<u8>,
    r: Result<Site, CaptchaError>,
)
    requires
        registered(state, headers, body, now, site_key, secret, r),
    ensures
        r is Ok <==> {
            &&& is_operator(state, headers) is Ok
            &&& crate::site::types::stored_name(body.name@) is Ok
            &&& crate::site::types::stored_origin_list(
                crate::text::string_views(body.allowed_origins@),
            ) is Ok
            &&& crate::site::types::policy_problem(
                crate::site::types::effective(body.policy, state.config),
            ) is None
        },
        r matches Ok(site) ==> {
            &&& site.site_key == site_key
            &&& site.secret_key@ == crate::crypto::hex_text(secret)
            &&& site.name@ == crate::text::trim(body.name@)
            &&& site.created_at == now
            &&& crate::site::types::stored_origin_list(
                crate::text::string_views(body.allowed_origins@),
            ) == Ok::<Seq<Seq<char>>, Seq<char>>(
                crate::text::string_views(site.allowed_origins@),
            )
            &&& site.policy == body.policy
        },
        is_operator(state, headers) matches Err(e) ==> r == Err::<Site, CaptchaError>(e),
{
    if let Ok(site) = r {
        assert(site@.name == site.name@);
        assert(site@.secret_key == site.secret_key@);
    }
}

/// What is told of outages is what is open now, whether claims are honoured at all, and how
/// many were accepted and refused.
pub proof fn lemma_reported_outages(
    state: AppState,
    now: Timestamp,
    r: OutagesResponse,
    w: crate::failover::OutageWindow,
)
    requires
        reports_outages(state, now, r),
    ensures
        r.enabled <==> state.failover.config.enabled && state.failover.config.state_path is Some,
        r.grace_secs == state.config.failover_grace_secs,
        r.accepted_total == state.failover.accepted_total,
        r.refused_total == state.failover.refused_total,
        r.windows@.contains(w) <==> state.failover.state.windows@.contains(w) && w.start.at()
            <= now.at() && now.at() < w.end.at() + state.failover.config.grace_secs
            * 1_000_000_000,
{
    crate::failover::lemma_open_windows(
        state.failover.state.windows@,
        now,
        state.failover.config.grace_secs,
        w,
    );
}

/// An outage that the operator notes is known from then on, until its grace time is over, and
/// takes no other from what is known that could still cover a claim.
pub proof fn lemma_noted_outage_is_known(
    before: AppState,
    after: AppState,
    headers: Map<Seq<char>, Seq<u8>>,
    body: DeclareOutageRequest,
    now: Timestamp,
    payload: OutagesResponse,
    w: crate::failover::OutageWindow,
)
    requires
        notes_outage(before, after, headers, body, now, Ok(payload)),
    ensures
        is_operator(before, headers) is Ok,
        before.failover.config.enabled && before.failover.config.state_path is Some,
        noted_window(body, now) matches Ok((start, end)) && {
            let noted = crate::failover::OutageWindow {
                start,
                end,
                source: crate::failover::OutageSource::Declared,
            };
            &&& now.at() < end.at() + before.failover.config.grace_secs * 1_000_000_000
                ==> after.failover.state.windows@.contains(noted)
            &&& after.failover.state.windows@.contains(w) <==> (
            before.failover.state.windows@.contains(w) || w == noted) && now.at() < w.end.at()
                + before.failover.config.grace_secs * 1_000_000_000
        },
        after.store == before.store,
        after.failover.accepted_total == before.failover.accepted_total,
{
    let window = noted_window(body, now)->Ok_0;
    let noted = crate::failover::OutageWindow {
        start: window.0,
        end: window.1,
        source: crate::failover::OutageSource::Declared,
    };
    let all = before.failover.state.windows@.push(noted);
    let grace = before.failover.config.grace_secs;
    crate::failover::lemma_kept_windows(all, now, grace, w);
    crate::failover::lemma_kept_windows(all, now, grace, noted);
    assert(all[all.len() - 1] == noted);
    assert(all.contains(noted));
    if before.failover.state.windows@.contains(w) {
        let i = choose|i: int|
            0 <= i < before.failover.state.windows@.len() && before.failover.state.windows@[i] == w;
        assert(all[i] == w);
    }
    if all.contains(w) {
        let i = choose|i: int| 0 <= i < all.len() && all[i] == w;
        if i < all.len() - 1 {
            assert(before.failover.state.windows@[i] == w);
        }
    }
}

/// What is said of an outage that cannot be noted.
pub proof fn lemma_refused_outage(body: DeclareOutageRequest, now: Timestamp)
    ensures
        body.duration_secs matches Some(secs) ==> secs == 0 || secs > 86_400 ==> noted_window(
            body,
            now,
        ) == Err::<(Timestamp, Timestamp), Seq<char>>(
            "duration_secs must be 1..="@ + crate::text::decimal(86_400),
        ),
        body.duration_secs is None && (body.start is None || body.end is None) ==> noted_window(
            body,
            now,
        ) == Err::<(Timestamp, Timestamp), Seq<char>>(
            "provide either duration_secs, or both start and end"@,
        ),
        body.duration_secs is None && body.start is Some && body.end is Some
            && body.end->0.at() <= body.start->0.at() ==> noted_window(body, now) == Err::<
            (Timestamp, Timestamp),
            Seq<char>,
        >("end must be after start"@),
{
}

} // verus!
