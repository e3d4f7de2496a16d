//! The answer to a submission.
//!
//! A submission is looked up first, then its proof of work is checked, which may take
//! long, and then it is scored: the three steps are apart so that nothing is held while
//! the proof is checked.
use axum::http::HeaderMap;
use vstd::prelude::*;

use crate::api::extract::bearer_token;
use crate::api::state::AppState;
use crate::api::types::{FailoverClaim, ResolvedVerify, SolvedVerify, VerifyResponse};
use crate::dashboard::types::{VerifyRecord, VerifyRecordView};
use crate::error::CaptchaError;
use crate::failover::FailoverVerdict;
use crate::ident::Uuid;
use crate::puzzle::types::Challenge;
use crate::risk::behavior::{behavior_fingerprint, claims_activity, BehaviorPresence,
    BehaviorReport, BEHAVIOR_DUPLICATE_WINDOW_SECS};
use crate::risk::verify::{VerifyBreakdown, VerifyContext, VerifyDecision, VerifyScore};
use crate::site::types::{EffectivePolicy, SiteMode, SiteView};
use crate::storage::memory::InMemoryStore;
use crate::text::chars_of;
use crate::time::{elapsed_millis, now, Timestamp};

verus! {

/// A submission whose proof of work is to be checked.
#[derive(Debug)]
pub struct PendingVerify {
    pub challenge: Challenge,
    pub nonce: u64,
    pub policy: EffectivePolicy,
    /// Time since the visitor was first seen, by the server's clock.
    pub time_on_page_ms: u64,
    pub honeypot_tripped: bool,
    pub behavior: Option<BehaviorReport>,
}

/// The answer to a claim, and what is logged of it.
#[derive(Debug, Clone, Copy)]
pub struct FailoverAnswer {
    pub response: VerifyResponse,
    pub outcome: &'static str,
    pub score: VerifyScore,
    pub monitored: bool,
}

/// What is to be done with a submission.
#[derive(Debug)]
pub enum VerifyStep {
    /// Its proof of work is to be checked.
    Check(PendingVerify),
    /// It was a claim, and is answered.
    Answered(FailoverAnswer),
}

/// The answer to a solution, and what is logged of it.
#[derive(Debug, Clone, Copy)]
pub struct VerifyAnswer {
    pub response: VerifyResponse,
    pub record: VerifyRecord,
}

/// The site whose secret a request comes with.
pub open spec fn authorised_site(
    store: InMemoryStore,
    headers: Map<Seq<char>, Seq<u8>>,
) -> Option<SiteView> {
    match crate::api::extract::request_token(headers) {
        None => None,
        Some(secret) => store.site_of_secret(secret),
    }
}

/// A field that no visitor sees was filled in.
pub open spec fn is_tripped(honeypot: Option<String>) -> bool {
    honeypot matches Some(text) && text@.len() > 0
}

fn tripped(honeypot: &Option<String>) -> (r: bool)
    ensures
        r == is_tripped(*honeypot),
{
    match honeypot {
        Some(text) => chars_of(text.as_str()).len() > 0,
        None => false,
    }
}

pub open spec fn presence_of(behavior: Option<BehaviorReport>) -> BehaviorPresence {
    match behavior {
        Some(report) => BehaviorPresence::Present(report),
        None => BehaviorPresence::Absent,
    }
}

fn presence(behavior: Option<BehaviorReport>) -> (r: BehaviorPresence)
    ensures
        r == presence_of(behavior),
{
    match behavior {
        Some(report) => BehaviorPresence::Present(report),
        None => BehaviorPresence::Absent,
    }
}

/// What a claim is judged by: what the browser collected on its own. There is no challenge,
/// and so no time on the page.
pub open spec fn claim_context(claim: FailoverClaim) -> VerifyContext {
    VerifyContext {
        honeypot_tripped: is_tripped(claim.honeypot),
        time_on_page_ms: None,
        behavior: presence_of(claim.behavior),
        behavior_duplicate_count: 0,
    }
}

/// The score of a claim.
pub open spec fn claim_score(
    state: AppState,
    claim: FailoverClaim,
    policy: EffectivePolicy,
) -> VerifyScore {
    crate::risk::verify::scored(
        state.weights,
        claim_context(claim),
        state.verify_scorer.require_behavior,
        policy.verify,
    )
}

/// Whether a claim is accepted, and how that is logged. One that no outage supports is
/// refused whatever the mode of the site is; one that looks automated is refused unless the
/// site only monitors.
pub open spec fn claim_outcome(
    verdict: FailoverVerdict,
    decision: VerifyDecision,
    mode: SiteMode,
) -> (bool, Seq<char>) {
    if !(verdict is Accept) {
        (false, verdict.name())
    } else if decision == VerifyDecision::Block {
        (mode == SiteMode::Monitor, "failover_behavior_block"@)
    } else {
        (true, verdict.name())
    }
}

/// The answer to a claim, and what it changes: it is counted by the guard.
pub open spec fn answers_claim(
    before: AppState,
    after: AppState,
    site_key: Uuid,
    policy: EffectivePolicy,
    claim: FailoverClaim,
    now: Timestamp,
    r: Result<FailoverAnswer, CaptchaError>,
) -> bool {
    if claim.site_key != site_key {
        r == Err::<FailoverAnswer, CaptchaError>(CaptchaError::Unauthorized) && after == before
    } else {
        let verdict = before.failover.verdict(site_key, claim.issued_at_ms, now);
        let score = claim_score(before, claim, policy);
        let outcome = claim_outcome(verdict, score.decision, policy.mode);
        &&& r matches Ok(answer)
        &&& answer.response == (VerifyResponse { success: outcome.0, failover: outcome.0 })
        &&& answer.outcome@ == outcome.1
        &&& answer.score == score
        &&& answer.monitored == (policy.mode == SiteMode::Monitor)
        &&& after == (AppState { failover: after.failover, ..before })
        &&& after.failover.config == before.failover.config
        &&& after.failover.state == before.failover.state
        &&& after.failover.claims() == before.failover.counted(site_key, verdict, now)
        &&& after.failover.accepted_total == if verdict is Accept {
            crate::failover::next_count(before.failover.accepted_total)
        } else {
            before.failover.accepted_total
        }
        &&& after.failover.refused_total == if verdict is Accept {
            before.failover.refused_total
        } else {
            crate::failover::next_count(before.failover.refused_total)
        }
    }
}

/// Decides on a claim of a site at a given time. Two things are asked in turn: does the
/// service itself know of an outage that is still open, and does what the browser collected
/// look like a visitor?
pub fn verify_failover_at(
    state: &mut AppState,
    site_key: &Uuid,
    policy: &EffectivePolicy,
    claim: FailoverClaim,
    now: Timestamp,
) -> (r: Result<FailoverAnswer, CaptchaError>)
    requires
        old(state).wf(),
    ensures
        final(state).wf(),
        answers_claim(*old(state), *final(state), *site_key, *policy, claim, now, r),
{
    if claim.site_key != *site_key {
        return Err(CaptchaError::Unauthorized);
    }
    let verdict = state.failover.evaluate_counted_at(site_key, claim.issued_at_ms, now);
    let ctx = VerifyContext {
        honeypot_tripped: tripped(&claim.honeypot),
        time_on_page_ms: None,
        behavior: presence(claim.behavior),
        behavior_duplicate_count: 0,
    };
    let score = state.verify_scorer.score_with(&state.weights, &ctx, policy.verify);
    let monitored = policy.mode.is_monitor();
    let (success, outcome): (bool, &'static str) = if !verdict.accepted() {
        (false, verdict.outcome())
    } else {
        match score.decision {
            VerifyDecision::Block => (monitored, "failover_behavior_block"),
            _ => (true, verdict.outcome()),
        }
    };
    Ok(
        FailoverAnswer {
            response: VerifyResponse { success, failover: success },
            outcome,
            score,
            monitored,
        },
    )
}

/// A submission whose proof of work is to be checked.
pub open spec fn is_pending(
    pending: PendingVerify,
    challenge: Challenge,
    solved: SolvedVerify,
    policy: EffectivePolicy,
    now: Timestamp,
) -> bool {
    &&& pending.challenge == challenge
    &&& pending.nonce == solved.nonce
    &&& pending.policy == policy
    &&& pending.time_on_page_ms == crate::time::millis_between(challenge.dwell_since, now)
    &&& pending.honeypot_tripped == is_tripped(solved.honeypot)
    &&& pending.behavior == solved.behavior
}

/// What a submission leads to when it is looked up, and what that changes: a challenge that
/// has expired is dropped.
pub open spec fn looks_up(
    before: AppState,
    after: AppState,
    headers: Map<Seq<char>, Seq<u8>>,
    request: ResolvedVerify,
    now: Timestamp,
    r: Result<VerifyStep, CaptchaError>,
) -> bool {
    match authorised_site(before.store, headers) {
        None => r == Err::<VerifyStep, CaptchaError>(CaptchaError::Unauthorized) && after
            == before,
        Some(site) => {
            let policy = crate::site::types::effective(site.policy, before.config);
            match request {
                ResolvedVerify::Failover(claim) => match r {
                    Ok(VerifyStep::Answered(answer)) => answers_claim(
                        before,
                        after,
                        site.site_key,
                        policy,
                        claim,
                        now,
                        Ok(answer),
                    ),
                    Ok(VerifyStep::Check(_)) => false,
                    Err(e) => answers_claim(
                        before,
                        after,
                        site.site_key,
                        policy,
                        claim,
                        now,
                        Err(e),
                    ),
                },
                ResolvedVerify::Solved(solved) => match before.store.challenge_of(
                    solved.challenge_id,
                ) {
                    None => r == Err::<VerifyStep, CaptchaError>(CaptchaError::ChallengeNotFound)
                        && after == before,
                    Some(challenge) => if challenge.site_key != site.site_key {
                        r == Err::<VerifyStep, CaptchaError>(CaptchaError::Unauthorized) && after
                            == before
                    } else if challenge.expires_at.at() < now.at() {
                        &&& r == Err::<VerifyStep, CaptchaError>(CaptchaError::ChallengeExpired)
                        &&& after.same_but_store(before)
                        &&& after.store.same_sites(before.store)
                        &&& after.store.same_counts(before.store)
                        &&& after.store.challenges@ == before.store.challenges@.remove(
                            solved.challenge_id,
                        )
                    } else {
                        &&& r matches Ok(VerifyStep::Check(pending))
                        &&& is_pending(pending, challenge, solved, policy, now)
                        &&& after == before
                    },
                },
            }
        },
    }
}

/// Looks a submission up at a given time: whether it comes with a site's secret, and whether
/// its challenge is that site's and still open.
pub fn begin_verify_at(
    state: &mut AppState,
    headers: &HeaderMap,
    request: ResolvedVerify,
    now: Timestamp,
) -> (r: Result<VerifyStep, CaptchaError>)
    requires
        old(state).wf(),
    ensures
        final(state).wf(),
        looks_up(*old(state), *final(state), crate::headers::fields(*headers), request, now, r),
{
    let secret = match bearer_token(headers) {
        Some(secret) => secret,
        None => {
            return Err(CaptchaError::Unauthorized);
        },
    };
    let site = match state.store.get_site_by_secret(secret.as_str()) {
        Some(site) => site,
        None => {
            return Err(CaptchaError::Unauthorized);
        },
    };
    let policy = site.policy.resolve(&state.config);
    let solved = match request {
        ResolvedVerify::Failover(claim) => {
            return match verify_failover_at(state, &site.site_key, &policy, claim, now) {
                Ok(answer) => Ok(VerifyStep::Answered(answer)),
                Err(e) => Err(e),
            };
        },
        ResolvedVerify::Solved(solved) => solved,
    };
    let challenge = match state.store.get_challenge(&solved.challenge_id) {
        Some(challenge) => challenge,
        None => {
            return Err(CaptchaError::ChallengeNotFound);
        },
    };
    if challenge.site_key != site.site_key {
        return Err(CaptchaError::Unauthorized);
    }
    if challenge.expires_at.instant() < now.instant() {
        state.store.delete_challenge(&challenge.id);
        return Err(CaptchaError::ChallengeExpired);
    }
    let time_on_page_ms = elapsed_millis(&challenge.dwell_since, &now);
    Ok(
        VerifyStep::Check(
            PendingVerify {
                challenge,
                nonce: solved.nonce,
                policy,
                time_on_page_ms,
                honeypot_tripped: tripped(&solved.honeypot),
                behavior: solved.behavior,
            },
        ),
    )
}

/// A report is counted for duplicates: it was sent, and claims any activity.
pub open spec fn is_counted(behavior: Option<BehaviorReport>) -> bool {
    behavior matches Some(report) && crate::risk::behavior::is_active(report)
}

/// How often the site received the report of a submission, this time included.
pub open spec fn duplicate_count(store: InMemoryStore, pending: PendingVerify, now: i64) -> u32 {
    if is_counted(pending.behavior) {
        crate::storage::rates::bumped(
            store.behavior_blobs.window(
                pending.challenge.site_key,
                crate::risk::behavior::fingerprint(pending.behavior->0),
            ),
            now,
            BEHAVIOR_DUPLICATE_WINDOW_SECS,
        ).count
    } else {
        0
    }
}

/// What a submission is judged by.
pub open spec fn submission_context(
    store: InMemoryStore,
    pending: PendingVerify,
    now: i64,
) -> VerifyContext {
    VerifyContext {
        honeypot_tripped: pending.honeypot_tripped,
        time_on_page_ms: Some(pending.time_on_page_ms),
        behavior: presence_of(pending.behavior),
        behavior_duplicate_count: duplicate_count(store, pending, now),
    }
}

/// The score of a submission.
pub open spec fn submission_score(
    state: AppState,
    pending: PendingVerify,
    now: i64,
) -> VerifyScore {
    crate::risk::verify::scored(
        state.weights,
        submission_context(state.store, pending, now),
        state.verify_scorer.require_behavior,
        pending.policy.verify,
    )
}

/// How the flag of a driven browser is logged.
pub open spec fn webdriver_label(behavior: Option<BehaviorReport>) -> Seq<char> {
    match behavior {
        None => "no_blob"@,
        Some(report) => match report.webdriver {
            Some(true) => "true"@,
            Some(false) => "false"@,
            None => "absent"@,
        },
    }
}

fn label_webdriver(behavior: &Option<BehaviorReport>) -> (r: &'static str)
    ensures
        r@ == webdriver_label(*behavior),
{
    match behavior {
        None => "no_blob",
        Some(report) => match report.webdriver {
            Some(true) => "true",
            Some(false) => "false",
            None => "absent",
        },
    }
}

/// The answer to a submission whose proof of work is wrong.
pub open spec fn wrong_proof(pending: PendingVerify) -> VerifyRecordView {
    VerifyRecordView {
        monitored: false,
        challenge_id: pending.challenge.id,
        success: false,
        outcome: "pow_invalid"@,
        score: 0,
        breakdown: VerifyBreakdown { honeypot: 0, time_on_page: 0, behavior: 0 },
        time_on_page_ms: Some(pending.time_on_page_ms),
        webdriver: "n/a"@,
    }
}

/// What is logged of a submission whose proof of work is right. A site that only monitors
/// passes what it would refuse; that it would is logged.
pub open spec fn right_proof(pending: PendingVerify, score: VerifyScore) -> VerifyRecordView {
    let monitored = pending.policy.mode == SiteMode::Monitor && score.decision
        == VerifyDecision::Block;
    VerifyRecordView {
        monitored,
        challenge_id: pending.challenge.id,
        success: score.decision != VerifyDecision::Block || monitored,
        outcome: score.decision.name(),
        score: score.total,
        breakdown: score.breakdown,
        time_on_page_ms: Some(pending.time_on_page_ms),
        webdriver: webdriver_label(pending.behavior),
    }
}

/// A submission can be counted: a wrong one against its challenge, a right one by its
/// report.
pub open spec fn can_finish(state: AppState, pending: PendingVerify, valid: bool, now: i64) -> bool {
    if valid {
        is_counted(pending.behavior) ==> crate::storage::rates::has_room(
            state.store.behavior_blobs.window(
                pending.challenge.site_key,
                crate::risk::behavior::fingerprint(pending.behavior->0),
            ),
            now,
            BEHAVIOR_DUPLICATE_WINDOW_SECS,
        )
    } else {
        state.config.verify_max_attempts > 0 ==> (state.store.challenge_of(
            pending.challenge.id,
        ) matches Some(c) ==> c.attempts < u32::MAX)
    }
}

/// Whether a submission can be counted.
pub fn can_count(state: &AppState, pending: &PendingVerify, valid: bool, now: i64) -> (r: bool)
    requires
        state.wf(),
    ensures
        r == can_finish(*state, *pending, valid, now),
{
    if valid {
        match pending.behavior {
            None => true,
            Some(report) => !claims_activity(&report) || state.store.behavior_blobs.room(
                pending.challenge.site_key,
                behavior_fingerprint(&report),
                now,
            ),
        }
    } else {
        state.config.verify_max_attempts == 0 || match state.store.get_challenge(
            &pending.challenge.id,
        ) {
            None => true,
            Some(challenge) => challenge.attempts < u32::MAX,
        }
    }
}

/// What becomes of a submission once its proof of work is checked, and what that changes. A
/// wrong one counts against its challenge. A right one spends it: whoever comes second does
/// not find it.
pub open spec fn settles(
    before: AppState,
    after: AppState,
    pending: PendingVerify,
    valid: bool,
    now: i64,
    r: Result<VerifyAnswer, CaptchaError>,
) -> bool {
    let id = pending.challenge.id;
    &&& after.same_but_store(before)
    &&& after.store.same_sites(before.store)
    &&& after.store.ip_rates == before.store.ip_rates
    &&& after.store.ip_rates_sustained == before.store.ip_rates_sustained
    &&& after.store.site_rates == before.store.site_rates
    &&& if !valid {
        &&& r matches Ok(answer)
        &&& answer.response == (VerifyResponse { success: false, failover: false })
        &&& answer.record@ == wrong_proof(pending)
        &&& after.store.challenges@ == crate::storage::memory::after_failed_attempt(
            before.store.challenges@,
            id,
            before.config.verify_max_attempts,
        )
        &&& after.store.behavior_blobs == before.store.behavior_blobs
    } else if !before.store.challenges@.contains_key(id) {
        &&& r == Err::<VerifyAnswer, CaptchaError>(CaptchaError::ChallengeNotFound)
        &&& after.store.challenges@ == before.store.challenges@
        &&& after.store.behavior_blobs == before.store.behavior_blobs
    } else {
        let score = submission_score(before, pending, now);
        &&& r matches Ok(answer)
        &&& answer.record@ == right_proof(pending, score)
        &&& answer.response == (VerifyResponse {
            success: right_proof(pending, score).success,
            failover: false,
        })
        &&& after.store.challenges@ == before.store.challenges@.remove(id)
        &&& forall|site: Uuid, fp: u64| #[trigger]
            after.store.behavior_blobs.window(site, fp) == if is_counted(pending.behavior) && site
                == pending.challenge.site_key && fp == crate::risk::behavior::fingerprint(
                pending.behavior->0,
            ) {
                Some(
                    crate::storage::rates::bumped(
                        before.store.behavior_blobs.window(site, fp),
                        now,
                        BEHAVIOR_DUPLICATE_WINDOW_SECS,
                    ),
                )
            } else {
                before.store.behavior_blobs.window(site, fp)
            }
    }
}

/// Settles a submission whose proof of work was checked.
pub fn finish_verify_at(
    state: &mut AppState,
    pending: &PendingVerify,
    valid: bool,
    now: i64,
) -> (r: Result<VerifyAnswer, CaptchaError>)
    requires
        old(state).wf(),
        can_finish(*old(state), *pending, valid, now),
    ensures
        final(state).wf(),
        settles(*old(state), *final(state), *pending, valid, now, r),
{
    let id = pending.challenge.id;
    if !valid {
        state.store.register_failed_attempt(&id, state.config.verify_max_attempts);
        let record = VerifyRecord {
            monitored: false,
            challenge_id: id,
            success: false,
            outcome: "pow_invalid",
            score: 0,
            breakdown: VerifyBreakdown::default(),
            time_on_page_ms: Some(pending.time_on_page_ms),
            webdriver: "n/a",
        };
        assert(record@ =~= wrong_proof(*pending));
        return Ok(VerifyAnswer { response: VerifyResponse::solved(false), record });
    }
    match state.store.consume_challenge(&id) {
        Ok(()) => {},
        Err(e) => {
            assert(state.store.challenges@ =~= old(state).store.challenges@);
            return Err(e);
        },
    }
    let behavior_duplicate_count: u32 = match pending.behavior {
        Some(report) => {
            if claims_activity(&report) {
                state.store.increment_behavior_blob_count_at(
                    &pending.challenge.site_key,
                    behavior_fingerprint(&report),
                    now,
                )
            } else {
                0
            }
        },
        None => 0,
    };
    let ctx = VerifyContext {
        honeypot_tripped: pending.honeypot_tripped,
        time_on_page_ms: Some(pending.time_on_page_ms),
        behavior: presence(pending.behavior),
        behavior_duplicate_count,
    };
    assert(ctx == submission_context(old(state).store, *pending, now));
    let score = state.verify_scorer.score_with(&state.weights, &ctx, pending.policy.verify);
    let blocked = match score.decision {
        VerifyDecision::Block => true,
        _ => false,
    };
    let monitored = pending.policy.mode.is_monitor() && blocked;
    let success = !blocked || monitored;
    let record = VerifyRecord {
        monitored,
        challenge_id: id,
        success,
        outcome: score.decision.as_str(),
        score: score.total,
        breakdown: score.breakdown,
        time_on_page_ms: Some(pending.time_on_page_ms),
        webdriver: label_webdriver(&pending.behavior),
    };
    assert(record@ =~= right_proof(*pending, score));
    Ok(VerifyAnswer { response: VerifyResponse::solved(success), record })
}

/// What a submission is answered with.
#[derive(Debug, Clone, Copy)]
pub enum VerifyReply {
    Solution(VerifyAnswer),
    Claim(FailoverAnswer),
}

/// What the check of a proof of work comes to.
pub open spec fn may_come_to(pending: PendingVerify, valid: bool) -> bool {
    &&& valid == crate::puzzle::challenge::is_accepted(pending.challenge, pending.nonce)
    &&& valid ==> crate::puzzle::challenge::solves(pending.challenge, pending.nonce)
    &&& pending.challenge.algorithm is Sha256 ==> valid == crate::puzzle::challenge::solves(
        pending.challenge,
        pending.nonce,
    )
}

/// The answer to a submission as a whole: it is looked up, its proof of work is checked, and
/// it is settled.
pub open spec fn answers_submission(
    before: AppState,
    after: AppState,
    headers: Map<Seq<char>, Seq<u8>>,
    request: ResolvedVerify,
    now: Timestamp,
    found: Result<VerifyStep, CaptchaError>,
    between: AppState,
    valid: bool,
    r: Result<VerifyReply, CaptchaError>,
) -> bool {
    &&& looks_up(before, between, headers, request, now, found)
    &&& match found {
        Err(e) => r == Err::<VerifyReply, CaptchaError>(e) && after == between,
        Ok(VerifyStep::Answered(answer)) => r == Ok::<VerifyReply, CaptchaError>(
            VerifyReply::Claim(answer),
        ) && after == between,
        Ok(VerifyStep::Check(pending)) => may_come_to(pending, valid) && match r {
            Ok(VerifyReply::Solution(answer)) => settles(
                between,
                after,
                pending,
                valid,
                now.secs,
                Ok(answer),
            ),
            Ok(VerifyReply::Claim(_)) => false,
            Err(e) => settles(between, after, pending, valid, now.secs, Err(e)),
        },
    }
}

/// Answers a submission. There is no answer when a count is used up, and then nothing has
/// changed.
pub fn verify(state: &mut AppState, headers: &HeaderMap, request: ResolvedVerify) -> (r: Option<
    Result<VerifyReply, CaptchaError>,
>)
    requires
        old(state).wf(),
    ensures
        final(state).wf(),
        match r {
            None => *final(state) == *old(state) && exists|
                pending: PendingVerify,
                valid: bool,
                t: Timestamp,
            |
                crate::time::is_clock_time(t) && may_come_to(pending, valid) && looks_up(
                    *old(state),
                    *old(state),
                    crate::headers::fields(*headers),
                    request,
                    t,
                    Ok(VerifyStep::Check(pending)),
                ) && !#[trigger] can_finish(*old(state), pending, valid, t.secs),
            Some(reply) => exists|
                t: Timestamp,
                found: Result<VerifyStep, CaptchaError>,
                between: AppState,
                valid: bool,
            |
                crate::time::is_clock_time(t) && #[trigger] answers_submission(
                    *old(state),
                    *final(state),
                    crate::headers::fields(*headers),
                    request,
                    t,
                    found,
                    between,
                    valid,
                    reply,
                ),
        },
{
    let t = now();
    let found = begin_verify_at(state, headers, request, t);
    let ghost between = *state;
    let ghost outcome = found;
    match found {
        Err(e) => {
            assert(answers_submission(
                *old(state),
                *state,
                crate::headers::fields(*headers),
                request,
                t,
                outcome,
                between,
                false,
                Err(e),
            ));
            Some(Err(e))
        },
        Ok(VerifyStep::Answered(answer)) => {
            assert(answers_submission(
                *old(state),
                *state,
                crate::headers::fields(*headers),
                request,
                t,
                outcome,
                between,
                false,
                Ok(VerifyReply::Claim(answer)),
            ));
            Some(Ok(VerifyReply::Claim(answer)))
        },
        Ok(VerifyStep::Check(pending)) => {
            let valid = state.engine.verify(&pending.challenge, pending.nonce);
            assert(may_come_to(pending, valid));
            if !can_count(state, &pending, valid, t.secs) {
                assert(!can_finish(*old(state), pending, valid, t.secs));
                return None;
            }
            let settled = finish_verify_at(state, &pending, valid, t.secs);
            let reply: Result<VerifyReply, CaptchaError> = match settled {
                Ok(answer) => Ok(VerifyReply::Solution(answer)),
                Err(e) => Err(e),
            };
            assert(answers_submission(
                *old(state),
                *state,
                crate::headers::fields(*headers),
                request,
                t,
                outcome,
                between,
                valid,
                reply,
            ));
            Some(reply)
        },
    }
}

/// A challenge passes once: after a right solution was settled, no submission for the same
/// challenge gets as far as having its proof of work checked.
pub proof fn lemma_no_replay(
    before: AppState,
    after: AppState,
    pending: PendingVerify,
    settled_at: i64,
    answer: VerifyAnswer,
    then: AppState,
    headers: Map<Seq<char>, Seq<u8>>,
    solved: SolvedVerify,
    now: Timestamp,
    r: Result<VerifyStep, CaptchaError>,
)
    requires
        settles(before, after, pending, true, settled_at, Ok(answer)),
        solved.challenge_id == pending.challenge.id,
        looks_up(after, then, headers, ResolvedVerify::Solved(solved), now, r),
    ensures
        r == Err::<VerifyStep, CaptchaError>(CaptchaError::ChallengeNotFound) || r == Err::<
            VerifyStep,
            CaptchaError,
        >(CaptchaError::Unauthorized),
        then == after,
{
}

/// Of two submissions for the same challenge that were both looked up before either was
/// settled, the second one to be settled with a right solution does not pass.
pub proof fn lemma_race_has_one_winner(
    before: AppState,
    after: AppState,
    then: AppState,
    first: PendingVerify,
    second: PendingVerify,
    first_at: i64,
    second_at: i64,
    answer: VerifyAnswer,
    r: Result<VerifyAnswer, CaptchaError>,
)
    requires
        first.challenge.id == second.challenge.id,
        settles(before, after, first, true, first_at, Ok(answer)),
        settles(after, then, second, true, second_at, r),
    ensures
        r == Err::<VerifyAnswer, CaptchaError>(CaptchaError::ChallengeNotFound),
{
}

/// A wrong proof of work never passes, whatever the mode of the site is, and a right one is
/// refused only for its score, and then only by a site that enforces.
pub proof fn lemma_who_passes(
    before: AppState,
    after: AppState,
    pending: PendingVerify,
    valid: bool,
    now: i64,
    answer: VerifyAnswer,
)
    requires
        settles(before, after, pending, valid, now, Ok(answer)),
    ensures
        !valid ==> !answer.response.success,
        valid ==> (answer.response.success <==> submission_score(before, pending, now).decision
            != VerifyDecision::Block || pending.policy.mode == SiteMode::Monitor),
        answer.record.success == answer.response.success,
        !answer.response.failover,
{
}

/// A claim that the service does not know an outage for is refused by every site, and so is
/// one whose author is another site than its subject.
pub proof fn lemma_unattested_claim_is_refused(
    before: AppState,
    after: AppState,
    site_key: Uuid,
    policy: EffectivePolicy,
    claim: FailoverClaim,
    now: Timestamp,
    r: Result<FailoverAnswer, CaptchaError>,
)
    requires
        answers_claim(before, after, site_key, policy, claim, now, r),
        crate::failover::open_source(
            before.failover.state.windows@,
            now,
            before.failover.config.grace_secs,
        ) is None || claim.site_key != site_key,
    ensures
        r matches Ok(answer) ==> !answer.response.success && !answer.response.failover,
{
}

/// A submission is checked exactly where it comes with the secret of the site that its challenge
/// was issued for, and the challenge is kept and not over; else it is refused for the first of
/// these that does not hold. A challenge that is over is dropped.
pub proof fn lemma_lookup_of_solution(
    before: AppState,
    after: AppState,
    headers: Map<Seq<char>, Seq<u8>>,
    solved: SolvedVerify,
    now: Timestamp,
    r: Result<VerifyStep, CaptchaError>,
)
    requires
        looks_up(before, after, headers, ResolvedVerify::Solved(solved), now, r),
    ensures
        ({
            let site = authorised_site(before.store, headers);
            let known = before.store.challenges@.contains_key(solved.challenge_id);
            let challenge = before.store.challenges@[solved.challenge_id];
            &&& site is None ==> r == Err::<VerifyStep, CaptchaError>(CaptchaError::Unauthorized)
            &&& site is Some && !known ==> r == Err::<VerifyStep, CaptchaError>(
                CaptchaError::ChallengeNotFound,
            )
            &&& site is Some && known && challenge.site_key != site->0.site_key ==> r == Err::<
                VerifyStep,
                CaptchaError,
            >(CaptchaError::Unauthorized)
            &&& site is Some && known && challenge.site_key == site->0.site_key
                && challenge.expires_at.at() < now.at() ==> r == Err::<VerifyStep, CaptchaError>(
                CaptchaError::ChallengeExpired,
            ) && !after.store.challenges@.contains_key(solved.challenge_id)
            &&& r is Ok <==> site is Some && known && challenge.site_key == site->0.site_key
                && challenge.expires_at.at() >= now.at()
            &&& !(r matches Err(CaptchaError::ChallengeExpired)) ==> after == before
        }),
{
}

/// What is checked and judged of a submission is what was submitted, against the challenge that
/// was kept: its nonce, its report, and whether its honeypot holds anything. How long the
/// visitor stayed is counted from when they were first seen, by the clock of the service.
pub proof fn lemma_submission_is_carried_over(
    before: AppState,
    after: AppState,
    headers: Map<Seq<char>, Seq<u8>>,
    solved: SolvedVerify,
    now: Timestamp,
    pending: PendingVerify,
)
    requires
        looks_up(
            before,
            after,
            headers,
            ResolvedVerify::Solved(solved),
            now,
            Ok(VerifyStep::Check(pending)),
        ),
    ensures
        before.store.challenges@.contains_key(solved.challenge_id),
        pending.challenge == before.store.challenges@[solved.challenge_id],
        pending.nonce == solved.nonce,
        pending.behavior == solved.behavior,
        solved.honeypot is None ==> !pending.honeypot_tripped,
        solved.honeypot matches Some(text) ==> (pending.honeypot_tripped <==> text@.len() > 0),
        pending.time_on_page_ms == crate::time::millis_between(pending.challenge.dwell_since, now),
        authorised_site(before.store, headers) matches Some(site) && pending.policy
            == crate::site::types::effective(site.policy, before.config),
{
}

/// A token whose document has a filled honeypot is judged with the honeypot tripped: what it
/// scores includes the weight of the honeypot, and a site that enforces refuses it wherever
/// that weight reaches its block threshold.
pub proof fn lemma_honeypot_of_token_counts(
    request: crate::api::types::VerifyRequest,
    token: Seq<char>,
    p: crate::api::types::TokenPayload,
    resolved: Result<ResolvedVerify, CaptchaError>,
    solved: SolvedVerify,
    before: AppState,
    between: AppState,
    after: AppState,
    headers: Map<Seq<char>, Seq<u8>>,
    now: Timestamp,
    pending: PendingVerify,
    answer: VerifyAnswer,
)
    requires
        crate::api::types::given_token(request.token) == Some(token),
        crate::crypto::is_hex_text(token),
        crate::api::types::is_resolution(
            resolved,
            crate::api::types::resolution_with(request, Some(p)),
        ),
        resolved == Ok::<ResolvedVerify, CaptchaError>(ResolvedVerify::Solved(solved)),
        p.honeypot matches Some(text) && text@.len() > 0,
        looks_up(
            before,
            between,
            headers,
            ResolvedVerify::Solved(solved),
            now,
            Ok(VerifyStep::Check(pending)),
        ),
        settles(between, after, pending, true, now.secs, Ok(answer)),
    ensures
        answer.record.breakdown.honeypot == between.weights.honeypot_tripped,
        between.weights.honeypot_tripped >= pending.policy.verify.block_min && pending.policy.mode
            == SiteMode::Enforce ==> !answer.response.success,
{
    crate::api::types::lemma_token_is_carried_over(request, token, p, resolved);
}

/// What a right solution is judged by: whether the honeypot was tripped, the time on the page,
/// the report, and how often the site received that report within ten minutes, this time
/// included. A report without activity is not counted.
pub proof fn lemma_submission_context(store: InMemoryStore, pending: PendingVerify, now: i64)
    ensures
        ({
            let ctx = submission_context(store, pending, now);
            &&& ctx.honeypot_tripped == pending.honeypot_tripped
            &&& ctx.time_on_page_ms == Some(pending.time_on_page_ms)
            &&& pending.behavior is None ==> ctx.behavior is Absent && ctx.behavior_duplicate_count
                == 0
            &&& pending.behavior matches Some(b) ==> {
                &&& ctx.behavior == BehaviorPresence::Present(b)
                &&& b.mouse_moves == 0 && b.touches == 0 && b.interactions == 0
                    ==> ctx.behavior_duplicate_count == 0
                &&& b.mouse_moves > 0 || b.touches > 0 || b.interactions > 0 ==> {
                    let seen = store.behavior_blobs.window(
                        pending.challenge.site_key,
                        crate::risk::behavior::fingerprint(b),
                    );
                    &&& seen is None ==> ctx.behavior_duplicate_count == 1
                    &&& seen matches Some(w) ==> w.count < u32::MAX
                        ==> ctx.behavior_duplicate_count == if now - w.window_start < 600 {
                        w.count + 1
                    } else {
                        1
                    }
                }
            }
        }),
{
}

/// What is told and logged of a settled submission: a wrong one fails, unscored; a right one
/// passes unless its score reaches the block threshold of a site that enforces, and its
/// challenge is spent either way. Neither is ever told as a claim.
pub proof fn lemma_settled_submission(
    before: AppState,
    after: AppState,
    pending: PendingVerify,
    valid: bool,
    now: i64,
    answer: VerifyAnswer,
)
    requires
        settles(before, after, pending, valid, now, Ok(answer)),
    ensures
        !answer.response.failover,
        answer.record.challenge_id == pending.challenge.id,
        answer.record.success == answer.response.success,
        answer.record.time_on_page_ms == Some(pending.time_on_page_ms),
        !valid ==> {
            &&& !answer.response.success
            &&& answer.record.outcome@ == "pow_invalid"@
            &&& answer.record.score == 0
            &&& !answer.record.monitored
        },
        valid ==> {
            let score = crate::risk::verify::scored(
                before.weights,
                submission_context(before.store, pending, now),
                before.verify_scorer.require_behavior,
                pending.policy.verify,
            );
            let refused = score.total >= pending.policy.verify.block_min;
            &&& !after.store.challenges@.contains_key(pending.challenge.id)
            &&& answer.record.score == score.total
            &&& answer.record.breakdown == score.breakdown
            &&& pending.policy.mode == SiteMode::Enforce ==> (answer.response.success <==> !refused)
            &&& pending.policy.mode == SiteMode::Monitor ==> answer.response.success
            &&& answer.record.monitored <==> refused && pending.policy.mode == SiteMode::Monitor
            &&& refused ==> answer.record.outcome@ == "block"@
            &&& !refused && score.total >= pending.policy.verify.shadow_min
                ==> answer.record.outcome@ == "shadow_fail"@
            &&& !refused && score.total < pending.policy.verify.shadow_min ==> answer.record.outcome@
                == "pass"@
            &&& pending.behavior is None ==> answer.record.webdriver@ == "no_blob"@
            &&& pending.behavior matches Some(b) ==> answer.record.webdriver@ == (match b.webdriver {
                Some(true) => "true"@,
                Some(false) => "false"@,
                None => "absent"@,
            })
        },
{
}

/// A claim is accepted exactly where it is the claim of the site that submits it, the guard
/// accepts it, and the site only monitors or its honeypot and its report do not reach the block
/// threshold. What passes without a puzzle is told so.
pub proof fn lemma_claim_is_answered(
    before: AppState,
    after: AppState,
    site_key: Uuid,
    policy: EffectivePolicy,
    claim: FailoverClaim,
    now: Timestamp,
    r: Result<FailoverAnswer, CaptchaError>,
)
    requires
        answers_claim(before, after, site_key, policy, claim, now, r),
    ensures
        claim.site_key != site_key <==> r == Err::<FailoverAnswer, CaptchaError>(
            CaptchaError::Unauthorized,
        ),
        r matches Ok(answer) ==> {
            let accepted = before.failover.verdict(site_key, claim.issued_at_ms, now) is Accept;
            let refused = answer.score.total >= policy.verify.block_min;
            &&& answer.response.success <==> accepted && (!refused || policy.mode
                == SiteMode::Monitor)
            &&& answer.response.failover == answer.response.success
            &&& claim.honeypot matches Some(text) ==> text@.len() > 0
                ==> answer.score.breakdown.honeypot == before.weights.honeypot_tripped
            &&& claim.honeypot is None ==> answer.score.breakdown.honeypot == 0
            &&& answer.score.breakdown.time_on_page == 0
            &&& accepted && refused ==> answer.outcome@ == "failover_behavior_block"@
            &&& accepted && !refused ==> answer.outcome@ == "failover_pass"@
        },
        r is Err ==> after == before,
{
}

/// The site that a submission comes from is the one whose secret is its bearer token.
pub proof fn lemma_authorised_site(store: InMemoryStore, headers: Map<Seq<char>, Seq<u8>>)
    ensures
        authorised_site(store, headers) matches Some(site) ==> (
        crate::api::extract::request_token(headers) matches Some(secret)
            && store.secrets@.contains_key(secret) && store.site_of_key(store.secrets@[secret])
            == Some(site)),
        crate::api::extract::request_token(headers) is None ==> authorised_site(store, headers)
            is None,
        crate::api::extract::request_token(headers) matches Some(secret)
            ==> !store.secrets@.contains_key(secret) ==> authorised_site(store, headers) is None,
{
}

/// A wrong solution counts against its challenge, which is dropped with the last that the limit
/// allows; a right one counts its report for its site, where the report claims activity. Other
/// challenges, other reports, sites and requests' counts stay as they are.
pub proof fn lemma_submission_is_counted(
    before: AppState,
    after: AppState,
    pending: PendingVerify,
    valid: bool,
    now: i64,
    answer: VerifyAnswer,
    other: u128,
    site: Uuid,
    fp: u64,
)
    requires
        settles(before, after, pending, valid, now, Ok(answer)),
    ensures
        other != pending.challenge.id ==> (after.store.challenges@.contains_key(other)
            <==> before.store.challenges@.contains_key(other)),
        ({
            let id = pending.challenge.id;
            let limit = before.config.verify_max_attempts;
            let held = before.store.challenges@.contains_key(id);
            let so_far = before.store.challenges@[id].attempts;
            &&& !valid && held && limit > 0 && so_far + 1 < limit ==> {
                &&& after.store.challenges@.contains_key(id)
                &&& after.store.challenges@[id].attempts == so_far + 1
                &&& after.store.challenges@[id].difficulty
                    == before.store.challenges@[id].difficulty
                &&& after.store.challenges@[id].expires_at
                    == before.store.challenges@[id].expires_at
            }
            &&& !valid && held && limit > 0 && so_far + 1 >= limit
                ==> !after.store.challenges@.contains_key(id)
            &&& !valid && limit == 0 ==> after.store.challenges@ == before.store.challenges@
        }),
        valid ==> (pending.behavior matches Some(b) ==> (b.mouse_moves > 0 || b.touches > 0
            || b.interactions > 0) ==> (after.store.behavior_blobs.window(
            pending.challenge.site_key,
            crate::risk::behavior::fingerprint(b),
        ) matches Some(w) && w.count == submission_context(
            before.store,
            pending,
            now,
        ).behavior_duplicate_count)),
        site != pending.challenge.site_key || pending.behavior is None || !valid
            ==> after.store.behavior_blobs.window(site, fp) == before.store.behavior_blobs.window(
            site,
            fp,
        ),
        after.store.sites == before.store.sites,
        after.store.secrets == before.store.secrets,
        after.store.ip_rates == before.store.ip_rates,
        after.store.site_rates == before.store.site_rates,
        after.config == before.config,
        after.failover == before.failover,
{
}

/// A claim that the guard accepts is counted as accepted and against its site, whatever its
/// report says; any other is counted as refused. Outages and all else stay as they are.
pub proof fn lemma_claim_counts(
    before: AppState,
    after: AppState,
    site_key: Uuid,
    policy: EffectivePolicy,
    claim: FailoverClaim,
    now: Timestamp,
    answer: FailoverAnswer,
)
    requires
        answers_claim(before, after, site_key, policy, claim, now, Ok(answer)),
        before.failover.accepted_total < u64::MAX,
        before.failover.refused_total < u64::MAX,
    ensures
        ({
            let accepted = before.failover.verdict(site_key, claim.issued_at_ms, now) is Accept;
            &&& accepted ==> after.failover.accepted_total == before.failover.accepted_total + 1
                && after.failover.refused_total == before.failover.refused_total
            &&& !accepted ==> after.failover.refused_total == before.failover.refused_total + 1
                && after.failover.accepted_total == before.failover.accepted_total
            &&& accepted && before.failover.config.max_per_min > 0
                ==> crate::failover::times_of(after.failover.claims(), site_key)
                == crate::failover::recent(
                crate::failover::times_of(before.failover.claims(), site_key),
                now,
            ).push(now)
            &&& !accepted ==> after.failover.claims() == before.failover.claims()
        }),
        after.failover.state == before.failover.state,
        after.store == before.store,
        after.config == before.config,
{
}

/// A submission can always be settled, unless the count of its report, or of the wrong solutions
/// for its challenge, has reached what 32 bits hold.
pub proof fn lemma_can_finish(state: AppState, pending: PendingVerify, valid: bool, now: i64)
    requires
        forall|site: Uuid, fp: u64|
            (#[trigger] state.store.behavior_blobs.window(site, fp)) matches Some(w) ==> w.count
                < 0xFFFF_FFFF,
        state.store.challenges@.contains_key(pending.challenge.id)
            ==> state.store.challenges@[pending.challenge.id].attempts < 0xFFFF_FFFF,
    ensures
        can_finish(state, pending, valid, now),
{
}

/// A claim is scored by what the browser collected, as a submission is: its honeypot and its
/// report. There is no time on the page, and no repetition is counted.
pub proof fn lemma_claim_is_scored(
    before: AppState,
    after: AppState,
    site_key: Uuid,
    policy: EffectivePolicy,
    claim: FailoverClaim,
    now: Timestamp,
    answer: FailoverAnswer,
)
    requires
        answers_claim(before, after, site_key, policy, claim, now, Ok(answer)),
    ensures
        answer.score == crate::risk::verify::scored(
            before.weights,
            VerifyContext {
                honeypot_tripped: claim.honeypot is Some && claim.honeypot->0@.len() > 0,
                time_on_page_ms: None,
                behavior: match claim.behavior {
                    Some(b) => BehaviorPresence::Present(b),
                    None => BehaviorPresence::Absent,
                },
                behavior_duplicate_count: 0,
            },
            before.verify_scorer.require_behavior,
            policy.verify,
        ),
        answer.monitored <==> policy.mode == SiteMode::Monitor,
{
}

/// The check of a proof of work comes to what the challenge accepts.
pub proof fn lemma_check_of_proof(pending: PendingVerify, valid: bool)
    requires
        may_come_to(pending, valid),
    ensures
        valid <==> crate::puzzle::challenge::is_accepted(pending.challenge, pending.nonce),
{
}

} // verus!
