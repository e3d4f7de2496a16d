//! Scoring at submit time, with what was not observable when the puzzle was issued.
use vstd::prelude::*;

use crate::risk::behavior::{score_behavior_with, score_duplicate_blob_with,
    score_impossible_timing_with, BehaviorPresence};
use crate::risk::weights::SignalWeights;

verus! {

/// What a submission is judged by.
#[derive(Debug, Clone, Copy, PartialEq, Eq, Structural)]
pub struct VerifyContext {
    pub honeypot_tripped: bool,
    /// Time since the visitor was first seen, by the server's clock; none on the
    /// failover path.
    pub time_on_page_ms: Option<u64>,
    pub behavior: BehaviorPresence,
    /// How often the site received this very report within the window, this time
    /// included; zero where it was not counted.
    pub behavior_duplicate_count: u32,
}

/// What each signal contributed.
#[derive(Debug, Clone, Copy, PartialEq, Eq, Structural)]
pub struct VerifyBreakdown {
    pub honeypot: u32,
    pub time_on_page: u32,
    pub behavior: u32,
}

impl Default for VerifyBreakdown {
    fn default() -> (r: Self)
        ensures
            r == (VerifyBreakdown { honeypot: 0, time_on_page: 0, behavior: 0 }),
    {
        VerifyBreakdown { honeypot: 0, time_on_page: 0, behavior: 0 }
    }
}

/// A scored submission.
#[derive(Debug, Clone, Copy, PartialEq, Eq, Structural)]
pub struct VerifyScore {
    pub total: u32,
    pub breakdown: VerifyBreakdown,
    pub decision: VerifyDecision,
}

/// What becomes of a submission, in rising order of severity.
#[derive(Debug, Clone, Copy, PartialEq, Eq, Structural)]
pub enum VerifyDecision {
    /// Passes.
    Pass,
    /// Passes, and is logged for review.
    ShadowFail,
    /// Fails.
    Block,
}

impl VerifyDecision {
    pub open spec fn severity(self) -> int {
        match self {
            VerifyDecision::Pass => 0,
            VerifyDecision::ShadowFail => 1,
            VerifyDecision::Block => 2,
        }
    }

    pub open spec fn name(self) -> Seq<char> {
        match self {
            VerifyDecision::Pass => "pass"@,
            VerifyDecision::ShadowFail => "shadow_fail"@,
            VerifyDecision::Block => "block"@,
        }
    }

    /// The name of a decision in the decision log.
    pub fn as_str(&self) -> (r: &'static str)
        ensures
            r@ == self.name(),
    {
        match self {
            VerifyDecision::Pass => "pass",
            VerifyDecision::ShadowFail => "shadow_fail",
            VerifyDecision::Block => "block",
        }
    }
}

/// The scores at which a submission is logged, and at which it fails.
#[derive(Debug, Clone, Copy, PartialEq, Eq, Structural)]
pub struct VerifyThresholds {
    pub shadow_min: u32,
    pub block_min: u32,
}

impl Default for VerifyThresholds {
    fn default() -> (r: Self)
        ensures
            r == (VerifyThresholds { shadow_min: 30, block_min: 60 }),
    {
        VerifyThresholds { shadow_min: 30, block_min: 60 }
    }
}

impl VerifyThresholds {
    /// The decision on a score.
    pub open spec fn decide(self, total: nat) -> VerifyDecision {
        if total >= self.block_min {
            VerifyDecision::Block
        } else if total >= self.shadow_min {
            VerifyDecision::ShadowFail
        } else {
            VerifyDecision::Pass
        }
    }
}

/// A honeypot that was filled in: conclusive on its own.
pub const HONEYPOT_TRIPPED_SCORE: u32 = 100;

pub const TIME_VERY_SHORT_MS: u64 = 500;

pub const TIME_SHORT_MS: u64 = 2_000;

pub const TIME_VERY_SHORT_SCORE: u32 = 50;

pub const TIME_SHORT_SCORE: u32 = 25;

/// The submission came from another address than the puzzle was issued to: below the
/// shadow threshold on its own, since mobile clients change their address.
pub const REMOTE_IP_MISMATCH_SCORE: u32 = 20;

/// What the time on the page is worth.
pub open spec fn dwell_score(w: SignalWeights, ms: Option<u64>) -> nat {
    match ms {
        None => 0,
        Some(t) => if t < TIME_VERY_SHORT_MS {
            w.time_very_short as nat
        } else if t < TIME_SHORT_MS {
            w.time_short as nat
        } else {
            0
        },
    }
}

/// `score_time_on_page_with` at the default weights.
pub fn score_time_on_page(ms: Option<u64>) -> (r: u32)
    ensures
        r == dwell_score(crate::risk::weights::default_weights(), ms),
{
    score_time_on_page_with(&SignalWeights::default(), ms)
}

/// What the time on the page is worth: the shorter, the more. Where it is not known it is
/// worth nothing.
pub fn score_time_on_page_with(w: &SignalWeights, ms: Option<u64>) -> (r: u32)
    ensures
        r == dwell_score(*w, ms),
{
    match ms {
        None => 0,
        Some(t) => if t < TIME_VERY_SHORT_MS {
            w.time_very_short
        } else if t < TIME_SHORT_MS {
            w.time_short
        } else {
            0
        },
    }
}

/// `score_remote_ip_with` at the default weights.
pub fn score_remote_ip(mismatch: bool) -> (r: u32)
    ensures
        r == (if mismatch {
            REMOTE_IP_MISMATCH_SCORE
        } else {
            0
        }),
{
    score_remote_ip_with(&SignalWeights::default(), mismatch)
}

/// What it is worth that a submission came from another address than the puzzle was
/// issued to.
pub fn score_remote_ip_with(w: &SignalWeights, mismatch: bool) -> (r: u32)
    ensures
        r == (if mismatch {
            w.remote_ip_mismatch
        } else {
            0
        }),
{
    if mismatch {
        w.remote_ip_mismatch
    } else {
        0
    }
}

/// Scores submissions.
#[derive(Debug, Clone, Copy, PartialEq, Eq, Structural)]
pub struct VerifyScorer {
    /// A report that was not sent is scored like an empty one.
    pub require_behavior: bool,
}

/// What the behaviour report of a submission is worth: its counters, its timeline and
/// how often it was seen are three separate facts and add up.
pub open spec fn behavior_component(
    w: SignalWeights,
    ctx: VerifyContext,
    require_behavior: bool,
) -> nat {
    if ctx.behavior is Absent && require_behavior {
        w.behavior_flatline as nat
    } else {
        crate::risk::behavior::behavior_score(w, ctx.behavior)
            + crate::risk::behavior::timing_score(w, ctx.behavior, ctx.time_on_page_ms)
            + crate::risk::behavior::duplicate_score(
            w,
            ctx.behavior,
            ctx.behavior_duplicate_count,
        )
    }
}

pub open spec fn honeypot_component(w: SignalWeights, ctx: VerifyContext) -> nat {
    if ctx.honeypot_tripped {
        w.honeypot_tripped as nat
    } else {
        0
    }
}

/// What a submission scores in all.
pub open spec fn verify_total(w: SignalWeights, ctx: VerifyContext, require_behavior: bool) -> nat {
    honeypot_component(w, ctx) + dwell_score(w, ctx.time_on_page_ms) + behavior_component(
        w,
        ctx,
        require_behavior,
    )
}

/// The score of a submission.
pub open spec fn scored(
    w: SignalWeights,
    ctx: VerifyContext,
    require_behavior: bool,
    thresholds: VerifyThresholds,
) -> VerifyScore {
    let total = verify_total(w, ctx, require_behavior);
    VerifyScore {
        total: crate::risk::weights::capped(total),
        breakdown: VerifyBreakdown {
            honeypot: honeypot_component(w, ctx) as u32,
            time_on_page: dwell_score(w, ctx.time_on_page_ms) as u32,
            behavior: crate::risk::weights::capped(behavior_component(w, ctx, require_behavior)),
        },
        decision: thresholds.decide(total),
    }
}

impl VerifyScorer {
    pub fn new(require_behavior: bool) -> (r: Self)
        ensures
            r.require_behavior == require_behavior,
    {
        VerifyScorer { require_behavior }
    }

    /// `score_with` at the default weights.
    pub fn score(&self, ctx: &VerifyContext, thresholds: VerifyThresholds) -> (r: VerifyScore)
        ensures
            r == scored(
                crate::risk::weights::default_weights(),
                *ctx,
                self.require_behavior,
                thresholds,
            ),
            r.total == verify_total(
                crate::risk::weights::default_weights(),
                *ctx,
                self.require_behavior,
            ),
    {
        self.score_with(&SignalWeights::default(), ctx, thresholds)
    }

    /// The score of a submission, and the decision by the thresholds of its site.
    pub fn score_with(
        &self,
        w: &SignalWeights,
        ctx: &VerifyContext,
        thresholds: VerifyThresholds,
    ) -> (r: VerifyScore)
        ensures
            r == scored(*w, *ctx, self.require_behavior, thresholds),
            r.total == crate::risk::weights::capped(
                (r.breakdown.honeypot + r.breakdown.time_on_page + r.breakdown.behavior) as nat,
            ),
    {
        let absent = match ctx.behavior {
            BehaviorPresence::Absent => true,
            BehaviorPresence::Present(_) => false,
        };
        let breakdown = VerifyBreakdown {
            honeypot: if ctx.honeypot_tripped {
                w.honeypot_tripped
            } else {
                0
            },
            time_on_page: score_time_on_page_with(w, ctx.time_on_page_ms),
            behavior: if absent && self.require_behavior {
                w.behavior_flatline
            } else {
                score_behavior_with(w, ctx.behavior).saturating_add(
                    score_impossible_timing_with(w, ctx.behavior, ctx.time_on_page_ms),
                ).saturating_add(
                    score_duplicate_blob_with(w, ctx.behavior, ctx.behavior_duplicate_count),
                )
            },
        };
        let total: u32 = breakdown.honeypot.saturating_add(breakdown.time_on_page).saturating_add(
            breakdown.behavior,
        );
        let decision = if total >= thresholds.block_min {
            VerifyDecision::Block
        } else if total >= thresholds.shadow_min {
            VerifyDecision::ShadowFail
        } else {
            VerifyDecision::Pass
        };
        VerifyScore { total, breakdown, decision }
    }
}

/// A higher score never leads to a milder decision, whatever the thresholds are.
pub proof fn lemma_decision_monotone(thresholds: VerifyThresholds, lower: nat, higher: nat)
    requires
        lower <= higher,
    ensures
        thresholds.decide(lower).severity() <= thresholds.decide(higher).severity(),
{
}

/// A honeypot that was filled in fails a submission on its own, wherever its weight
/// reaches the block threshold.
pub proof fn lemma_honeypot_blocks(
    w: SignalWeights,
    ctx: VerifyContext,
    require_behavior: bool,
    thresholds: VerifyThresholds,
)
    requires
        ctx.honeypot_tripped,
        w.honeypot_tripped >= thresholds.block_min,
    ensures
        scored(w, ctx, require_behavior, thresholds).decision == VerifyDecision::Block,
{
}

/// Requiring a report changes nothing for a submission that has one.
pub proof fn lemma_required_report_present(w: SignalWeights, ctx: VerifyContext)
    requires
        ctx.behavior is Present,
    ensures
        verify_total(w, ctx, true) == verify_total(w, ctx, false),
{
}

/// Where a report is required, leaving it out is worth exactly what an empty one is.
pub proof fn lemma_required_report_absent(w: SignalWeights, ctx: VerifyContext)
    requires
        ctx.behavior is Absent,
    ensures
        behavior_component(w, ctx, true) == crate::risk::behavior::report_score(
            w,
            crate::risk::behavior::BehaviorReport {
                mouse_moves: 0,
                touches: 0,
                interactions: 0,
                first_interaction_ms: None,
                webdriver: None,
                automation: None,
                headless: None,
            },
        ),
{
}

/// By default an implausible report is logged, and a report that is implausible in both
/// ways fails: a claimed interaction from before the visit, and counters that a site has
/// seen too often. Neither fails a submission by itself.
pub proof fn lemma_implausible_report(ctx: VerifyContext, require_behavior: bool)
    requires
        !ctx.honeypot_tripped,
        dwell_score(crate::risk::weights::default_weights(), ctx.time_on_page_ms) == 0,
        ctx.behavior is Present,
        crate::risk::behavior::behavior_score(
            crate::risk::weights::default_weights(),
            ctx.behavior,
        ) == 0,
    ensures
        ({
            let w = crate::risk::weights::default_weights();
            let impossible = crate::risk::behavior::timing_score(
                w,
                ctx.behavior,
                ctx.time_on_page_ms,
            ) > 0;
            let repeated = crate::risk::behavior::duplicate_score(
                w,
                ctx.behavior,
                ctx.behavior_duplicate_count,
            ) > 0;
            let thresholds = VerifyThresholds { shadow_min: 30, block_min: 60 };
            scored(w, ctx, require_behavior, thresholds).decision == if impossible && repeated {
                VerifyDecision::Block
            } else if impossible || repeated {
                VerifyDecision::ShadowFail
            } else {
                VerifyDecision::Pass
            }
        }),
{
}

/// By default the counters of a report fail no submission by one mark: a page without any
/// activity and a driven browser are logged, a headless hint alone passes. A report that
/// is required and was not sent is logged too.
pub proof fn lemma_single_marks_do_not_block(ctx: VerifyContext)
    requires
        !ctx.honeypot_tripped,
        dwell_score(crate::risk::weights::default_weights(), ctx.time_on_page_ms) == 0,
        crate::risk::behavior::timing_score(
            crate::risk::weights::default_weights(),
            ctx.behavior,
            ctx.time_on_page_ms,
        ) == 0,
        crate::risk::behavior::duplicate_score(
            crate::risk::weights::default_weights(),
            ctx.behavior,
            ctx.behavior_duplicate_count,
        ) == 0,
    ensures
        ({
            let w = crate::risk::weights::default_weights();
            let thresholds = VerifyThresholds { shadow_min: 30, block_min: 60 };
            match ctx.behavior {
                crate::risk::behavior::BehaviorPresence::Absent => {
                    &&& scored(w, ctx, true, thresholds).decision == VerifyDecision::ShadowFail
                    &&& scored(w, ctx, false, thresholds).decision == VerifyDecision::Pass
                },
                crate::risk::behavior::BehaviorPresence::Present(b) => {
                    let driven = b.webdriver == Some(true) || b.automation == Some(true);
                    let headless = b.headless == Some(true);
                    let trail = b.interactions
                        > crate::risk::behavior::BEHAVIOR_ISOLATED_INTERACTION_MAX;
                    let decision = scored(w, ctx, false, thresholds).decision;
                    &&& trail && driven ==> decision == VerifyDecision::ShadowFail
                    &&& trail && !driven ==> decision == VerifyDecision::Pass
                    &&& !crate::risk::behavior::is_active(b) && b.first_interaction_ms is None
                        && !driven && !headless ==> decision == VerifyDecision::ShadowFail
                },
            }
        }),
{
}

/// The time on the page scores below half a second, less below two seconds, and nothing from
/// then on or where it is not known.
pub proof fn lemma_time_on_page(w: SignalWeights, ms: u64)
    ensures
        ms < 500 ==> dwell_score(w, Some(ms)) == w.time_very_short,
        500 <= ms < 2000 ==> dwell_score(w, Some(ms)) == w.time_short,
        ms >= 2000 ==> dwell_score(w, Some(ms)) == 0,
        dwell_score(w, None) == 0,
{
}

/// The parts of a score add up, each with what it is worth: the honeypot, the time on the page
/// and of the report its counters, its timeline and its repetitions. A total that reaches the
/// block threshold blocks, one that reaches only the shadow threshold is logged, and one that
/// reaches neither passes.
pub proof fn lemma_submission_score(
    w: SignalWeights,
    ctx: VerifyContext,
    require_behavior: bool,
    thresholds: VerifyThresholds,
)
    ensures
        ({
            let score = scored(w, ctx, require_behavior, thresholds);
            let report = if ctx.behavior is Absent && require_behavior {
                w.behavior_flatline as nat
            } else {
                crate::risk::behavior::behavior_score(w, ctx.behavior)
                    + crate::risk::behavior::timing_score(w, ctx.behavior, ctx.time_on_page_ms)
                    + crate::risk::behavior::duplicate_score(
                    w,
                    ctx.behavior,
                    ctx.behavior_duplicate_count,
                )
            };
            let total = (if ctx.honeypot_tripped {
                w.honeypot_tripped as nat
            } else {
                0
            }) + dwell_score(w, ctx.time_on_page_ms) + report;
            &&& total <= u32::MAX ==> score.total == total
            &&& total > u32::MAX ==> score.total == u32::MAX
            &&& score.breakdown.honeypot == if ctx.honeypot_tripped {
                w.honeypot_tripped
            } else {
                0
            }
            &&& score.breakdown.time_on_page == dwell_score(w, ctx.time_on_page_ms)
            &&& report <= u32::MAX ==> score.breakdown.behavior == report
            &&& score.decision == VerifyDecision::Block <==> score.total >= thresholds.block_min
            &&& score.decision == VerifyDecision::Pass <==> score.total < thresholds.block_min
                && score.total < thresholds.shadow_min
        }),
{
}

/// The names under which decisions are logged.
pub proof fn lemma_decision_names()
    ensures
        VerifyDecision::Pass.name() == "pass"@,
        VerifyDecision::ShadowFail.name() == "shadow_fail"@,
        VerifyDecision::Block.name() == "block"@,
{
}

} // verus!
