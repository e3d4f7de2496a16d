//! From a risk score to an escalation tier, and from a tier to a difficulty.
use vstd::prelude::*;

verus! {

/// What a request is answered with, in rising order of severity.
#[derive(Debug, Clone, Copy, PartialEq, Eq, Structural)]
pub enum EscalationTier {
    InvisiblePass,
    Checkbox,
    HardPow,
    VisualChallenge,
    Block,
}

impl EscalationTier {
    /// The place of a tier in the order of severity.
    pub open spec fn severity(self) -> int {
        match self {
            EscalationTier::InvisiblePass => 0,
            EscalationTier::Checkbox => 1,
            EscalationTier::HardPow => 2,
            EscalationTier::VisualChallenge => 3,
            EscalationTier::Block => 4,
        }
    }

    pub open spec fn name(self) -> Seq<char> {
        match self {
            EscalationTier::InvisiblePass => "invisible_pass"@,
            EscalationTier::Checkbox => "checkbox"@,
            EscalationTier::HardPow => "hard_pow"@,
            EscalationTier::VisualChallenge => "visual_challenge"@,
            EscalationTier::Block => "block"@,
        }
    }

    /// The name of a tier on the wire and in the decision log.
    pub fn as_str(&self) -> (r: &'static str)
        ensures
            r@ == self.name(),
    {
        match self {
            EscalationTier::InvisiblePass => "invisible_pass",
            EscalationTier::Checkbox => "checkbox",
            EscalationTier::HardPow => "hard_pow",
            EscalationTier::VisualChallenge => "visual_challenge",
            EscalationTier::Block => "block",
        }
    }
}

/// The scores at which the tiers begin.
#[derive(Debug, Clone, Copy, PartialEq, Eq, Structural)]
pub struct TierThresholds {
    pub checkbox: u32,
    pub hard_pow: u32,
    pub visual: u32,
    pub block: u32,
}

impl Default for TierThresholds {
    fn default() -> (r: Self)
        ensures
            r == (TierThresholds { checkbox: 20, hard_pow: 40, visual: 65, block: 85 }),
    {
        TierThresholds { checkbox: 20, hard_pow: 40, visual: 65, block: 85 }
    }
}

impl TierThresholds {
    /// The tier of a score: the most severe whose threshold the score reaches.
    pub open spec fn tier_of(self, score: nat) -> EscalationTier {
        if score >= self.block {
            EscalationTier::Block
        } else if score >= self.visual {
            EscalationTier::VisualChallenge
        } else if score >= self.hard_pow {
            EscalationTier::HardPow
        } else if score >= self.checkbox {
            EscalationTier::Checkbox
        } else {
            EscalationTier::InvisiblePass
        }
    }

    pub fn classify(&self, score: u32) -> (r: EscalationTier)
        ensures
            r == self.tier_of(score as nat),
    {
        if score >= self.block {
            EscalationTier::Block
        } else if score >= self.visual {
            EscalationTier::VisualChallenge
        } else if score >= self.hard_pow {
            EscalationTier::HardPow
        } else if score >= self.checkbox {
            EscalationTier::Checkbox
        } else {
            EscalationTier::InvisiblePass
        }
    }
}

/// The difficulty of the puzzle of a tier, at most `max_difficulty`. There is none for
/// the tiers that issue no proof of work.
pub open spec fn tier_difficulty(
    tier: EscalationTier,
    default_difficulty: u32,
    max_difficulty: u32,
) -> Option<u32> {
    let bumped = default_difficulty + 2 * tier.severity();
    match tier {
        EscalationTier::VisualChallenge | EscalationTier::Block => None,
        _ => Some(
            if bumped <= max_difficulty {
                bumped as u32
            } else {
                max_difficulty
            },
        ),
    }
}

/// `tier_difficulty`: the base difficulty, raised by two bits for each step of
/// severity.
pub fn difficulty_for(tier: EscalationTier, default_difficulty: u32, max_difficulty: u32) -> (r:
    Option<u32>)
    ensures
        r == tier_difficulty(tier, default_difficulty, max_difficulty),
{
    let bump: u32 = match tier {
        EscalationTier::InvisiblePass => 0,
        EscalationTier::Checkbox => 2,
        EscalationTier::HardPow => 4,
        EscalationTier::VisualChallenge | EscalationTier::Block => return None,
    };
    let raised = default_difficulty.saturating_add(bump);
    if raised <= max_difficulty {
        Some(raised)
    } else {
        Some(max_difficulty)
    }
}

/// A higher score never leads to a milder tier, whatever the thresholds are.
pub proof fn lemma_tier_monotone(thresholds: TierThresholds, lower: nat, higher: nat)
    requires
        lower <= higher,
    ensures
        thresholds.tier_of(lower).severity() <= thresholds.tier_of(higher).severity(),
{
}

/// A more severe tier never has an easier puzzle, and no puzzle is harder than the
/// maximum.
pub proof fn lemma_tier_difficulty_monotone(
    milder: EscalationTier,
    harsher: EscalationTier,
    default_difficulty: u32,
    max_difficulty: u32,
)
    requires
        milder.severity() <= harsher.severity(),
    ensures
        tier_difficulty(harsher, default_difficulty, max_difficulty) matches Some(d) ==> {
            &&& d <= max_difficulty
            &&& tier_difficulty(milder, default_difficulty, max_difficulty) matches Some(e)
            &&& e <= d
        },
{
}

/// With no band of its own for the visual challenge, every score below the block
/// threshold leads to a puzzle.
pub proof fn lemma_no_visual_band(thresholds: TierThresholds, score: nat, base: u32, max: u32)
    requires
        thresholds.visual >= thresholds.block,
    ensures
        thresholds.tier_of(score) != EscalationTier::VisualChallenge,
        score < thresholds.block <==> tier_difficulty(thresholds.tier_of(score), base, max) is Some,
{
}

/// Where the thresholds rise, a score is in the tier whose threshold it reaches while it does
/// not reach the next one.
pub proof fn lemma_tier_bands(t: TierThresholds, score: nat)
    requires
        t.checkbox <= t.hard_pow <= t.visual <= t.block,
    ensures
        t.tier_of(score) == EscalationTier::InvisiblePass <==> score < t.checkbox,
        t.tier_of(score) == EscalationTier::Checkbox <==> t.checkbox <= score < t.hard_pow,
        t.tier_of(score) == EscalationTier::HardPow <==> t.hard_pow <= score < t.visual,
        t.tier_of(score) == EscalationTier::VisualChallenge <==> t.visual <= score < t.block,
        t.tier_of(score) == EscalationTier::Block <==> score >= t.block,
{
}

/// The block threshold comes first: a score that reaches it is blocked whatever the other
/// thresholds are, and no other score is.
pub proof fn lemma_block_threshold(t: TierThresholds, score: nat)
    ensures
        t.tier_of(score) == EscalationTier::Block <==> score >= t.block,
{
}

/// The puzzles of the tiers: the base difficulty, two bits more, four bits more, each at most
/// the maximum; and no puzzle for the visual challenge and for blocking.
pub proof fn lemma_tier_difficulties(base: u32, max: u32)
    ensures
        tier_difficulty(EscalationTier::InvisiblePass, base, max) == Some(
            if base <= max {
                base
            } else {
                max
            },
        ),
        tier_difficulty(EscalationTier::Checkbox, base, max) == Some(
            if base + 2 <= max {
                (base + 2) as u32
            } else {
                max
            },
        ),
        tier_difficulty(EscalationTier::HardPow, base, max) == Some(
            if base + 4 <= max {
                (base + 4) as u32
            } else {
                max
            },
        ),
        tier_difficulty(EscalationTier::VisualChallenge, base, max) is None,
        tier_difficulty(EscalationTier::Block, base, max) is None,
{
}

/// The names of the tiers.
pub proof fn lemma_tier_names()
    ensures
        EscalationTier::InvisiblePass.name() == "invisible_pass"@,
        EscalationTier::Checkbox.name() == "checkbox"@,
        EscalationTier::HardPow.name() == "hard_pow"@,
        EscalationTier::VisualChallenge.name() == "visual_challenge"@,
        EscalationTier::Block.name() == "block"@,
{
}

} // verus!
