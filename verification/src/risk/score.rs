//! Scoring of a request for a puzzle.
use axum::http::HeaderMap;
use vstd::prelude::*;

use crate::net::IpAddr;
use crate::risk::reputation::{score_ip_reputation_with, IpCategory, ReputationStore};
use crate::risk::signals::{score_header_anomaly_with, score_rate_with};
use crate::risk::tier::{EscalationTier, TierThresholds};
use crate::risk::tls_fingerprint::{score_tls_fingerprint_with, FingerprintBlocklist,
    TlsFingerprint};
use crate::risk::weights::SignalWeights;

verus! {

/// What a request is judged by.
pub struct SignalContext<'a> {
    pub ip: IpAddr,
    pub headers: &'a HeaderMap,
    /// Requests from the address within the last minute.
    pub ip_count: u32,
    /// Requests from the address within the sustained window.
    pub ip_count_sustained: u32,
    /// Requests to the site within the last minute.
    pub site_count: u32,
    pub tls_fingerprint: TlsFingerprint<'a>,
}

/// What a request is judged by, with its texts as sequences of characters.
#[verifier::ext_equal]
pub struct RequestFacts {
    pub ip: IpAddr,
    pub headers: Map<Seq<char>, Seq<u8>>,
    pub ip_count: u32,
    pub ip_count_sustained: u32,
    pub site_count: u32,
    pub tls_fingerprint: Option<Seq<char>>,
}

impl<'a> View for SignalContext<'a> {
    type V = RequestFacts;

    open spec fn view(&self) -> RequestFacts {
        RequestFacts {
            ip: self.ip,
            headers: crate::headers::fields(*self.headers),
            ip_count: self.ip_count,
            ip_count_sustained: self.ip_count_sustained,
            site_count: self.site_count,
            tls_fingerprint: self.tls_fingerprint@,
        }
    }
}

/// What each signal contributed.
#[derive(Debug, Clone, Copy, PartialEq, Eq, Structural)]
pub struct SignalBreakdown {
    pub rate: u32,
    pub header_anomaly: u32,
    pub ip_reputation: u32,
    pub tls_fingerprint: u32,
}

impl Default for SignalBreakdown {
    fn default() -> (r: Self)
        ensures
            r == (SignalBreakdown {
                rate: 0,
                header_anomaly: 0,
                ip_reputation: 0,
                tls_fingerprint: 0,
            }),
    {
        SignalBreakdown { rate: 0, header_anomaly: 0, ip_reputation: 0, tls_fingerprint: 0 }
    }
}

/// A scored request.
#[derive(Debug, Clone, Copy, PartialEq, Eq, Structural)]
pub struct RiskScore {
    pub total: u32,
    pub breakdown: SignalBreakdown,
    pub tier: EscalationTier,
    /// What kind of network the request came from, where it is listed.
    pub ip_category: Option<IpCategory>,
}

/// The lists that requests are held against.
pub struct RiskScorer {
    pub thresholds: TierThresholds,
    pub reputation: ReputationStore,
    pub tls_blocklist: FingerprintBlocklist,
}

/// What a request scores in all.
pub open spec fn risk_total(w: SignalWeights, scorer: RiskScorer, ctx: RequestFacts) -> nat {
    crate::risk::signals::rate_score(w, ctx.ip_count, ctx.ip_count_sustained, ctx.site_count)
        + crate::risk::signals::header_score(w, ctx.headers)
        + crate::risk::reputation::reputation_score(w, category(scorer, ctx))
        + crate::risk::tls_fingerprint::fingerprint_score(
        w,
        ctx.tls_fingerprint,
        scorer.tls_blocklist@,
    )
}

/// What kind of network a request came from.
pub open spec fn category(scorer: RiskScorer, ctx: RequestFacts) -> Option<IpCategory> {
    crate::risk::reputation::first_match(scorer.reputation.list.entries@, ctx.ip)
}

/// The score of a request.
pub open spec fn risk_scored(
    w: SignalWeights,
    scorer: RiskScorer,
    ctx: RequestFacts,
    tiers: TierThresholds,
) -> RiskScore {
    RiskScore {
        total: crate::risk::weights::capped(risk_total(w, scorer, ctx)),
        breakdown: SignalBreakdown {
            rate: crate::risk::weights::capped(
                crate::risk::signals::rate_score(
                    w,
                    ctx.ip_count,
                    ctx.ip_count_sustained,
                    ctx.site_count,
                ),
            ),
            header_anomaly: crate::risk::weights::capped(
                crate::risk::signals::header_score(w, ctx.headers),
            ),
            ip_reputation: crate::risk::reputation::reputation_score(
                w,
                category(scorer, ctx),
            ) as u32,
            tls_fingerprint: crate::risk::tls_fingerprint::fingerprint_score(
                w,
                ctx.tls_fingerprint,
                scorer.tls_blocklist@,
            ) as u32,
        },
        tier: tiers.tier_of(risk_total(w, scorer, ctx)),
        ip_category: category(scorer, ctx),
    }
}

impl RiskScorer {
    pub fn new(
        thresholds: TierThresholds,
        reputation: ReputationStore,
        tls_blocklist: FingerprintBlocklist,
    ) -> (r: Self)
        ensures
            r.thresholds == thresholds,
            r.reputation == reputation,
            r.tls_blocklist == tls_blocklist,
    {
        RiskScorer { thresholds, reputation, tls_blocklist }
    }

    /// `score_with` at the default weights and the scorer's own thresholds.
    pub fn score(&self, ctx: &SignalContext<'_>) -> (r: RiskScore)
        ensures
            r == risk_scored(
                crate::risk::weights::default_weights(),
                *self,
                ctx@,
                self.thresholds,
            ),
            r.total == risk_total(crate::risk::weights::default_weights(), *self, ctx@),
    {
        self.score_with(&SignalWeights::default(), ctx, self.thresholds)
    }

    /// The score of a request, and its tier by the given thresholds. Every signal counts
    /// only where its input is there: no list means no score from it.
    pub fn score_with(
        &self,
        w: &SignalWeights,
        ctx: &SignalContext<'_>,
        tiers: TierThresholds,
    ) -> (r: RiskScore)
        ensures
            r == risk_scored(*w, *self, ctx@, tiers),
            r.total == crate::risk::weights::capped(
                (r.breakdown.rate + r.breakdown.header_anomaly + r.breakdown.ip_reputation
                    + r.breakdown.tls_fingerprint) as nat,
            ),
    {
        let ip_category = self.reputation.lookup(ctx.ip);
        let breakdown = SignalBreakdown {
            rate: score_rate_with(w, ctx.ip_count, ctx.ip_count_sustained, ctx.site_count),
            header_anomaly: score_header_anomaly_with(w, ctx.headers),
            ip_reputation: score_ip_reputation_with(w, ip_category),
            tls_fingerprint: score_tls_fingerprint_with(
                w,
                ctx.tls_fingerprint,
                &self.tls_blocklist,
            ),
        };
        let total: u32 = breakdown.rate.saturating_add(breakdown.header_anomaly).saturating_add(
            breakdown.ip_reputation,
        ).saturating_add(breakdown.tls_fingerprint);
        let tier = tiers.classify(total);
        RiskScore { total, breakdown, tier, ip_category }
    }
}

/// The optional signals are off until they are configured: without lists and without a
/// fingerprint, only rates and headers score.
pub proof fn lemma_unconfigured_signals_are_silent(
    w: SignalWeights,
    scorer: RiskScorer,
    ctx: RequestFacts,
)
    requires
        scorer.reputation.list.entries@.len() == 0,
        ctx.tls_fingerprint is None,
    ensures
        risk_total(w, scorer, ctx) == crate::risk::signals::rate_score(
            w,
            ctx.ip_count,
            ctx.ip_count_sustained,
            ctx.site_count,
        ) + crate::risk::signals::header_score(w, ctx.headers),
{
}

/// Rates alone never block a request by default, nor do they lead to a visual challenge: a
/// flood with clean headers gets puzzles.
pub proof fn lemma_rates_alone_never_block(scorer: RiskScorer, ctx: RequestFacts)
    requires
        category(scorer, ctx) is None,
        ctx.tls_fingerprint is None,
        crate::risk::signals::header_score(
            crate::risk::weights::default_weights(),
            ctx.headers,
        ) == 0,
    ensures
        ({
            let tiers = TierThresholds { checkbox: 20, hard_pow: 40, visual: 65, block: 85 };
            let w = crate::risk::weights::default_weights();
            risk_scored(w, scorer, ctx, tiers).tier.severity()
                <= EscalationTier::HardPow.severity()
        }),
{
    crate::risk::signals::lemma_default_rate_ceiling(
        ctx.ip_count,
        ctx.ip_count_sustained,
        ctx.site_count,
    );
}

/// The lowest band of a rate, on an otherwise clean request, costs the visitor nothing by
/// default, in either window: a shared address reaches it.
pub proof fn lemma_lowest_band_is_no_friction(scorer: RiskScorer, ctx: RequestFacts)
    requires
        category(scorer, ctx) is None,
        ctx.tls_fingerprint is None,
        crate::risk::signals::header_score(
            crate::risk::weights::default_weights(),
            ctx.headers,
        ) == 0,
        ctx.ip_count <= crate::risk::signals::RATE_IP_HIGH,
        ctx.ip_count_sustained <= crate::risk::signals::RATE_IP_SUSTAINED_HIGH,
        ctx.site_count <= crate::risk::signals::RATE_SITE_VERY_HIGH,
    ensures
        ({
            let tiers = TierThresholds { checkbox: 20, hard_pow: 40, visual: 65, block: 85 };
            let w = crate::risk::weights::default_weights();
            risk_scored(w, scorer, ctx, tiers).tier == EscalationTier::InvisiblePass
        }),
{
}

/// Missing fetch metadata, on an otherwise clean request, cost the visitor nothing by
/// default: old browsers and some proxies leave them out.
pub proof fn lemma_missing_metadata_is_no_friction(scorer: RiskScorer, ctx: RequestFacts)
    requires
        category(scorer, ctx) is None,
        ctx.tls_fingerprint is None,
        crate::risk::signals::rate_score(
            crate::risk::weights::default_weights(),
            ctx.ip_count,
            ctx.ip_count_sustained,
            ctx.site_count,
        ) == 0,
        crate::headers::header_text(ctx.headers, "user-agent"@) matches Some(ua) && {
            let lower = crate::text::ascii_lower(ua);
            &&& ua.len() >= crate::risk::signals::UA_MIN_LEN
            &&& !crate::risk::signals::names_a_tool(lower)
            &&& crate::text::contains(lower, "chrome/"@) ==> crate::headers::sent(
                ctx.headers,
                "sec-ch-ua"@,
            )
        },
        crate::headers::sent(ctx.headers, "accept-language"@),
        crate::headers::sent(ctx.headers, "accept-encoding"@),
    ensures
        ({
            let tiers = TierThresholds { checkbox: 20, hard_pow: 40, visual: 65, block: 85 };
            let w = crate::risk::weights::default_weights();
            risk_scored(w, scorer, ctx, tiers).tier == EscalationTier::InvisiblePass
        }),
{
}

/// A request's score is the sum of its four signals, each with what it is worth, or the highest
/// score where the sum is more; and its tier is that of the sum.
pub proof fn lemma_request_score(
    w: SignalWeights,
    scorer: RiskScorer,
    ctx: RequestFacts,
    tiers: TierThresholds,
)
    ensures
        ({
            let score = risk_scored(w, scorer, ctx, tiers);
            let rate = crate::risk::signals::rate_score(
                w,
                ctx.ip_count,
                ctx.ip_count_sustained,
                ctx.site_count,
            );
            let header = crate::risk::signals::header_score(w, ctx.headers);
            let ip = crate::risk::reputation::reputation_score(w, score.ip_category);
            let tls = crate::risk::tls_fingerprint::fingerprint_score(
                w,
                ctx.tls_fingerprint,
                scorer.tls_blocklist@,
            );
            let total = rate + header + ip + tls;
            &&& total <= u32::MAX ==> {
                &&& score.total == total
                &&& score.breakdown.rate == rate
                &&& score.breakdown.header_anomaly == header
                &&& score.breakdown.ip_reputation == ip
                &&& score.breakdown.tls_fingerprint == tls
            }
            &&& total > u32::MAX ==> score.total == u32::MAX
            &&& score.tier == tiers.tier_of(total)
            &&& score.tier == tiers.tier_of(score.total as nat)
            &&& score.ip_category == crate::risk::reputation::first_match(
                scorer.reputation.list.entries@,
                ctx.ip,
            )
        }),
{
}

} // verus!
