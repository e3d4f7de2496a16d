//! What becomes of a request for a puzzle, once it is scored.
use vstd::prelude::*;

use crate::risk::tier::{difficulty_for, EscalationTier};
use crate::site::types::{EffectivePolicy, SiteMode};

verus! {

/// The share of the room for challenges, in percent, at which sources that flood begin to
/// be refused.
pub const SHED_PRESSURE_PERCENT: usize = 80;

/// What becomes of a request.
#[derive(Debug, Clone, Copy, PartialEq, Eq, Structural)]
pub struct PuzzleDecision {
    /// The source is over its limit.
    pub hard_capped: bool,
    /// There is no room for another challenge.
    pub over_capacity: bool,
    /// The source is refused because it floods while room runs short.
    pub shed_flooder: bool,
    /// The verdict, as it is logged.
    pub tier: EscalationTier,
    /// The verdict is a refusal that is not acted upon.
    pub monitored_block: bool,
    /// What is acted upon.
    pub enforced_tier: EscalationTier,
    /// The difficulty of the puzzle, where one is issued.
    pub difficulty: Option<u32>,
}

/// A product as a machine word that stops at its largest value.
pub open spec fn stops_at_max(n: nat) -> nat {
    if n > usize::MAX {
        usize::MAX as nat
    } else {
        n
    }
}

/// Challenges take up so much of their room that sources that flood are refused. Without a
/// limit there is always room.
pub open spec fn is_under_pressure(active: nat, max_active: usize) -> bool {
    max_active > 0 && stops_at_max(active * 100) >= stops_at_max(
        max_active as nat * SHED_PRESSURE_PERCENT as nat,
    )
}

/// There is no room for another challenge.
pub open spec fn is_full(active: nat, max_active: usize) -> bool {
    max_active > 0 && active >= max_active
}

/// A source has made more requests within the minute than its limit allows.
pub open spec fn is_capped(ip_count: u32, ip_hard_limit: u32) -> bool {
    ip_hard_limit > 0 && ip_count > ip_hard_limit
}

/// The larger of two numbers, but at most a third.
pub open spec fn raised(difficulty: u32, floor: u32, max: u32) -> u32 {
    let up = if difficulty >= floor {
        difficulty
    } else {
        floor
    };
    if up <= max {
        up
    } else {
        max
    }
}

/// What becomes of a request that is scored with a tier.
pub open spec fn decided(
    scored: EscalationTier,
    ip_count: u32,
    ip_hard_limit: u32,
    active: nat,
    max_active: usize,
    load_floor: u32,
    policy: EffectivePolicy,
) -> PuzzleDecision {
    let hard_capped = is_capped(ip_count, ip_hard_limit);
    let over_capacity = is_full(active, max_active);
    let shed_flooder = is_under_pressure(active, max_active) && hard_capped;
    let tier = if over_capacity || shed_flooder {
        EscalationTier::Block
    } else if hard_capped {
        EscalationTier::HardPow
    } else {
        scored
    };
    let monitored_block = policy.mode == SiteMode::Monitor && tier == EscalationTier::Block
        && !over_capacity && !shed_flooder;
    let enforced_tier = if monitored_block {
        EscalationTier::HardPow
    } else {
        tier
    };
    PuzzleDecision {
        hard_capped,
        over_capacity,
        shed_flooder,
        tier,
        monitored_block,
        enforced_tier,
        difficulty: match crate::risk::tier::tier_difficulty(
            enforced_tier,
            policy.default_difficulty,
            policy.max_difficulty,
        ) {
            None => None,
            Some(base) => if hard_capped || monitored_block {
                Some(policy.max_difficulty)
            } else {
                Some(raised(base, load_floor, policy.max_difficulty))
            },
        },
    }
}

fn product(a: usize, b: usize) -> (r: usize)
    ensures
        r == stops_at_max(a as nat * b as nat),
{
    match a.checked_mul(b) {
        Some(n) => n,
        None => usize::MAX,
    }
}

/// What becomes of a request that is scored with a tier.
///
/// A source over its limit is slowed down and not refused, since many visitors may stand
/// behind one address, unless room for challenges runs short. A full store refuses
/// everybody. A site that only monitors refuses nobody for the score; it is not spared the
/// two other refusals, which protect the service and judge no visitor.
pub fn decide(
    scored: EscalationTier,
    ip_count: u32,
    ip_hard_limit: u32,
    active: usize,
    max_active: usize,
    load_floor: u32,
    policy: &EffectivePolicy,
) -> (r: PuzzleDecision)
    ensures
        r == decided(
            scored,
            ip_count,
            ip_hard_limit,
            active as nat,
            max_active,
            load_floor,
            *policy,
        ),
{
    let hard_capped = ip_hard_limit > 0 && ip_count > ip_hard_limit;
    let (over_capacity, under_pressure) = if max_active > 0 {
        (
            active >= max_active,
            product(active, 100) >= product(max_active, SHED_PRESSURE_PERCENT),
        )
    } else {
        (false, false)
    };
    let shed_flooder = under_pressure && hard_capped;
    let tier = if over_capacity || shed_flooder {
        EscalationTier::Block
    } else if hard_capped {
        EscalationTier::HardPow
    } else {
        scored
    };
    let monitored_block = policy.mode.is_monitor() && tier == EscalationTier::Block
        && !over_capacity && !shed_flooder;
    let enforced_tier = if monitored_block {
        EscalationTier::HardPow
    } else {
        tier
    };
    let max = policy.max_difficulty;
    let difficulty = match difficulty_for(enforced_tier, policy.default_difficulty, max) {
        None => None,
        Some(base) => {
            let floored = if base >= load_floor {
                base
            } else {
                load_floor
            };
            let floored = if (hard_capped || monitored_block) && floored < max {
                max
            } else {
                floored
            };
            Some(
                if floored <= max {
                    floored
                } else {
                    max
                },
            )
        },
    };
    PuzzleDecision {
        hard_capped,
        over_capacity,
        shed_flooder,
        tier,
        monitored_block,
        enforced_tier,
        difficulty,
    }
}

/// A puzzle is issued exactly where the request is not refused, and it is never harder than
/// the site's maximum.
pub proof fn lemma_puzzle_unless_refused(
    scored: EscalationTier,
    ip_count: u32,
    ip_hard_limit: u32,
    active: nat,
    max_active: usize,
    load_floor: u32,
    policy: EffectivePolicy,
)
    requires
        scored != EscalationTier::VisualChallenge,
    ensures
        ({
            let d = decided(
                scored,
                ip_count,
                ip_hard_limit,
                active,
                max_active,
                load_floor,
                policy,
            );
            &&& d.difficulty is Some <==> d.enforced_tier != EscalationTier::Block
            &&& d.difficulty matches Some(n) ==> n <= policy.max_difficulty
        }),
{
}

/// A site that only monitors refuses nobody for the score.
pub proof fn lemma_monitor_refuses_for_room_only(
    scored: EscalationTier,
    ip_count: u32,
    ip_hard_limit: u32,
    active: nat,
    max_active: usize,
    load_floor: u32,
    policy: EffectivePolicy,
)
    requires
        policy.mode == SiteMode::Monitor,
    ensures
        ({
            let d = decided(
                scored,
                ip_count,
                ip_hard_limit,
                active,
                max_active,
                load_floor,
                policy,
            );
            &&& d.enforced_tier == EscalationTier::Block ==> d.over_capacity || d.shed_flooder
            &&& d.monitored_block ==> d.tier == EscalationTier::Block && d.difficulty == Some(
                policy.max_difficulty,
            )
        }),
{
}

/// A full store refuses everybody, whatever the site's mode is.
pub proof fn lemma_full_store_refuses(
    scored: EscalationTier,
    ip_count: u32,
    ip_hard_limit: u32,
    active: nat,
    max_active: usize,
    load_floor: u32,
    policy: EffectivePolicy,
)
    requires
        0 < max_active <= active,
    ensures
        decided(
            scored,
            ip_count,
            ip_hard_limit,
            active,
            max_active,
            load_floor,
            policy,
        ).enforced_tier == EscalationTier::Block,
{
}

/// While there is room, a source over its limit is slowed down as far as the site allows and
/// not refused, and one within its limit is treated by its score.
pub proof fn lemma_source_limit(
    scored: EscalationTier,
    ip_count: u32,
    ip_hard_limit: u32,
    active: nat,
    max_active: usize,
    load_floor: u32,
    policy: EffectivePolicy,
)
    requires
        !is_full(active, max_active),
    ensures
        ({
            let d = decided(
                scored,
                ip_count,
                ip_hard_limit,
                active,
                max_active,
                load_floor,
                policy,
            );
            &&& is_capped(ip_count, ip_hard_limit) && !is_under_pressure(active, max_active)
                ==> d.enforced_tier == EscalationTier::HardPow && d.difficulty == Some(
                policy.max_difficulty,
            )
            &&& is_capped(ip_count, ip_hard_limit) && is_under_pressure(active, max_active)
                ==> d.enforced_tier == EscalationTier::Block
            &&& !is_capped(ip_count, ip_hard_limit) ==> d.tier == scored && !d.shed_flooder
        }),
{
}

/// The load of a site refuses nobody, and makes no puzzle easier.
pub proof fn lemma_load_only_slows(
    scored: EscalationTier,
    ip_count: u32,
    ip_hard_limit: u32,
    active: nat,
    max_active: usize,
    load_floor: u32,
    policy: EffectivePolicy,
)
    ensures
        ({
            let idle = decided(scored, ip_count, ip_hard_limit, active, max_active, 0, policy);
            let loaded = decided(
                scored,
                ip_count,
                ip_hard_limit,
                active,
                max_active,
                load_floor,
                policy,
            );
            &&& loaded.enforced_tier == idle.enforced_tier
            &&& loaded.difficulty is Some == idle.difficulty is Some
            &&& idle.difficulty matches Some(n) ==> loaded.difficulty->0 >= n
        }),
{
}

/// A full store is also one where room runs short, so that sources that flood are refused
/// before everybody is.
pub proof fn lemma_flooders_are_shed_first(active: nat, max_active: usize)
    requires
        is_full(active, max_active),
    ensures
        is_under_pressure(active, max_active),
{
}

/// When a source is over its limit, when the store is full and when room runs short: a limit
/// of zero is none, a source may use up its limit, and room runs short from four fifths on.
pub proof fn lemma_limits(ip_count: u32, ip_hard_limit: u32, active: nat, max_active: usize)
    requires
        active * 100 <= usize::MAX,
        max_active * 100 <= usize::MAX,
    ensures
        is_capped(ip_count, ip_hard_limit) <==> ip_hard_limit != 0 && ip_count >= ip_hard_limit + 1,
        is_full(active, max_active) <==> max_active != 0 && max_active <= active,
        is_under_pressure(active, max_active) <==> max_active != 0 && 5 * active >= 4
            * max_active,
{
}

/// A request that is neither over its source's limit nor short of room is treated by its
/// score: it is logged with its tier, and a site that enforces acts upon that tier. Its puzzle
/// has the tier's difficulty, the load's where that is more, and at most the maximum.
pub proof fn lemma_ordinary_request(
    scored: EscalationTier,
    ip_count: u32,
    ip_hard_limit: u32,
    active: nat,
    max_active: usize,
    load_floor: u32,
    policy: EffectivePolicy,
)
    requires
        ip_hard_limit == 0 || ip_count <= ip_hard_limit,
        max_active == 0 || active < max_active,
    ensures
        ({
            let d = decided(
                scored,
                ip_count,
                ip_hard_limit,
                active,
                max_active,
                load_floor,
                policy,
            );
            &&& d.tier == scored
            &&& !d.hard_capped && !d.over_capacity && !d.shed_flooder
            &&& policy.mode == SiteMode::Enforce || scored != EscalationTier::Block
                ==> d.enforced_tier == scored && !d.monitored_block
            &&& policy.mode == SiteMode::Monitor && scored == EscalationTier::Block ==> {
                &&& d.monitored_block
                &&& d.enforced_tier == EscalationTier::HardPow
                &&& d.difficulty == Some(policy.max_difficulty)
            }
            &&& scored == EscalationTier::InvisiblePass || scored == EscalationTier::Checkbox
                || scored == EscalationTier::HardPow ==> {
                let base = policy.default_difficulty as int + (
                if scored == EscalationTier::InvisiblePass {
                    0int
                } else if scored == EscalationTier::Checkbox {
                    2
                } else {
                    4
                });
                let wanted = if base >= load_floor {
                    base
                } else {
                    load_floor as int
                };
                d.difficulty == Some(
                    if wanted <= policy.max_difficulty {
                        wanted as u32
                    } else {
                        policy.max_difficulty
                    },
                )
            }
        }),
{
}

/// A source over its limit gets the hardest puzzle of the site while four fifths of the room
/// are not used, and is refused from then on; nobody is refused for the limit of another.
pub proof fn lemma_flooding_source(
    scored: EscalationTier,
    ip_count: u32,
    ip_hard_limit: u32,
    active: nat,
    max_active: usize,
    load_floor: u32,
    policy: EffectivePolicy,
)
    requires
        0 < ip_hard_limit < ip_count,
        active * 100 <= usize::MAX,
        max_active * 100 <= usize::MAX,
    ensures
        ({
            let d = decided(
                scored,
                ip_count,
                ip_hard_limit,
                active,
                max_active,
                load_floor,
                policy,
            );
            &&& d.hard_capped
            &&& max_active == 0 || 5 * active < 4 * max_active ==> {
                &&& d.tier == EscalationTier::HardPow
                &&& d.enforced_tier == EscalationTier::HardPow
                &&& d.difficulty == Some(policy.max_difficulty)
            }
            &&& max_active > 0 && 5 * active >= 4 * max_active ==> {
                &&& d.tier == EscalationTier::Block
                &&& d.enforced_tier == EscalationTier::Block
                &&& d.difficulty is None
                &&& d.shed_flooder
            }
        }),
{
}

} // verus!
