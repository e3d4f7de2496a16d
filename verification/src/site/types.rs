//! Sites, and what each of them may change about the scoring of its visitors.
use vstd::prelude::*;
use vstd::string::*;

use crate::config::{AppConfig, MIN_DIFFICULTY};
use crate::ident::Uuid;
use crate::risk::tier::TierThresholds;
use crate::risk::verify::VerifyThresholds;
use crate::text::{append_number, begins_with_text, byte_len, chars_of, clone_texts, lowered, piece,
    position, string_of, trimmed, white_space};
use crate::time::Timestamp;

verus! {

/// A registered site.
#[derive(Debug)]
pub struct Site {
    pub site_key: Uuid,
    pub secret_key: String,
    pub name: String,
    pub created_at: Timestamp,
    /// The origins that may embed the site's widget; any, where there are none.
    pub allowed_origins: Vec<String>,
    pub policy: SitePolicy,
}

/// A site with its texts as sequences of characters.
#[verifier::ext_equal]
pub struct SiteView {
    pub site_key: Uuid,
    pub secret_key: Seq<char>,
    pub name: Seq<char>,
    pub created_at: Timestamp,
    pub allowed_origins: Seq<Seq<char>>,
    pub policy: SitePolicy,
}

impl View for Site {
    type V = SiteView;

    open spec fn view(&self) -> SiteView {
        SiteView {
            site_key: self.site_key,
            secret_key: self.secret_key@,
            name: self.name@,
            created_at: self.created_at,
            allowed_origins: crate::text::string_views(self.allowed_origins@),
            policy: self.policy,
        }
    }
}

impl Clone for Site {
    fn clone(&self) -> (r: Self)
        ensures
            r@ == self@,
    {
        Site {
            site_key: self.site_key,
            secret_key: self.secret_key.clone(),
            name: self.name.clone(),
            created_at: self.created_at,
            allowed_origins: clone_texts(&self.allowed_origins),
            policy: self.policy,
        }
    }
}

/// What a site overrides of the server's configuration. What it does not override it
/// inherits, later changes included.
#[derive(Debug, Clone, Copy, PartialEq, Eq, Structural)]
pub struct SitePolicy {
    pub tier_checkbox_min: Option<u32>,
    pub tier_hard_pow_min: Option<u32>,
    pub tier_block_min: Option<u32>,
    pub verify_shadow_min: Option<u32>,
    pub verify_block_min: Option<u32>,
    pub default_difficulty: Option<u32>,
    pub max_difficulty: Option<u32>,
    pub mode: Option<SiteMode>,
}

/// A policy that overrides nothing.
pub open spec fn empty_policy() -> SitePolicy {
    SitePolicy {
        tier_checkbox_min: None,
        tier_hard_pow_min: None,
        tier_block_min: None,
        verify_shadow_min: None,
        verify_block_min: None,
        default_difficulty: None,
        max_difficulty: None,
        mode: None,
    }
}

impl Default for SitePolicy {
    fn default() -> (r: Self)
        ensures
            r == empty_policy(),
    {
        SitePolicy {
            tier_checkbox_min: None,
            tier_hard_pow_min: None,
            tier_block_min: None,
            verify_shadow_min: None,
            verify_block_min: None,
            default_difficulty: None,
            max_difficulty: None,
            mode: None,
        }
    }
}

/// Whether the verdicts on a site's visitors are acted on.
#[derive(Debug, Clone, Copy, PartialEq, Eq, Structural)]
pub enum SiteMode {
    /// They are.
    Enforce,
    /// They are recorded, and refuse nobody. What a score is does not change.
    Monitor,
}

impl Default for SiteMode {
    fn default() -> (r: Self)
        ensures
            r == SiteMode::Enforce,
    {
        SiteMode::Enforce
    }
}

impl SiteMode {
    pub fn is_monitor(self) -> (r: bool)
        ensures
            r == (self == SiteMode::Monitor),
    {
        match self {
            SiteMode::Monitor => true,
            SiteMode::Enforce => false,
        }
    }
}

/// A policy laid over the server's configuration.
#[derive(Debug, Clone, Copy, PartialEq, Eq, Structural)]
pub struct EffectivePolicy {
    pub tiers: TierThresholds,
    pub verify: VerifyThresholds,
    pub default_difficulty: u32,
    pub max_difficulty: u32,
    pub mode: SiteMode,
}

pub open spec fn or_else(own: Option<u32>, inherited: u32) -> u32 {
    match own {
        Some(v) => v,
        None => inherited,
    }
}

/// What holds for a site: its own settings, and the server's where it has none. There is
/// no band for a visual challenge.
pub open spec fn effective(policy: SitePolicy, config: AppConfig) -> EffectivePolicy {
    EffectivePolicy {
        tiers: TierThresholds {
            checkbox: or_else(policy.tier_checkbox_min, config.tier_checkbox_min),
            hard_pow: or_else(policy.tier_hard_pow_min, config.tier_hard_pow_min),
            visual: or_else(policy.tier_block_min, config.tier_block_min),
            block: or_else(policy.tier_block_min, config.tier_block_min),
        },
        verify: VerifyThresholds {
            shadow_min: or_else(policy.verify_shadow_min, config.verify_shadow_min),
            block_min: or_else(policy.verify_block_min, config.verify_block_min),
        },
        default_difficulty: or_else(policy.default_difficulty, config.default_difficulty),
        max_difficulty: or_else(policy.max_difficulty, config.max_difficulty),
        mode: match policy.mode {
            Some(mode) => mode,
            None => SiteMode::Enforce,
        },
    }
}

pub const NO_WORK_PROBLEM: &'static str =
    " — both must be at least 1 once merged with the server defaults. A difficulty of 0 accepts any nonce without computing a hash, so every visitor to this site passes the proof-of-work.";

pub const CLAMP_PROBLEM: &'static str =
    " once merged with the server defaults. max_difficulty clamps every issued puzzle, so the base difficulty would silently be the lower value and no tier could escalate.";

pub const TIER_ORDER_PROBLEM: &'static str =
    "tier thresholds must be non-decreasing once merged with the server defaults, got checkbox=";

pub const TIER_ORDER_REASON: &'static str =
    ". Out of order, the higher tier wins every comparison and the bands in between are never reachable.";

pub const SHADOW_PROBLEM: &'static str =
    " once merged with the server defaults — the shadow band would be empty and every flagged submission would hard-block instead of being logged for review.";

pub const TIER_BLOCK_PROBLEM: &'static str =
    "tier_block_min must be at least 1 — 0 blocks every visitor to this site, including humans, before a puzzle is ever issued.";

pub const VERIFY_BLOCK_PROBLEM: &'static str =
    "verify_block_min must be at least 1 — 0 fails every submission for this site, including correctly solved ones.";

/// What is wrong with a policy as it takes effect, if anything is. The first problem
/// decides.
pub open spec fn policy_problem(e: EffectivePolicy) -> Option<Seq<char>> {
    if e.default_difficulty < MIN_DIFFICULTY || e.max_difficulty < MIN_DIFFICULTY {
        Some(
            "default_difficulty="@ + crate::text::decimal(e.default_difficulty as nat)
                + " / max_difficulty="@ + crate::text::decimal(e.max_difficulty as nat)
                + NO_WORK_PROBLEM@,
        )
    } else if e.default_difficulty > e.max_difficulty {
        Some(
            "default_difficulty="@ + crate::text::decimal(e.default_difficulty as nat)
                + " exceeds max_difficulty="@ + crate::text::decimal(e.max_difficulty as nat)
                + CLAMP_PROBLEM@,
        )
    } else if !(e.tiers.checkbox <= e.tiers.hard_pow <= e.tiers.block) {
        Some(
            TIER_ORDER_PROBLEM@ + crate::text::decimal(e.tiers.checkbox as nat) + " hard_pow="@
                + crate::text::decimal(e.tiers.hard_pow as nat) + " block="@
                + crate::text::decimal(e.tiers.block as nat) + TIER_ORDER_REASON@,
        )
    } else if e.verify.shadow_min > e.verify.block_min {
        Some(
            "verify_shadow_min="@ + crate::text::decimal(e.verify.shadow_min as nat)
                + " must not exceed verify_block_min="@ + crate::text::decimal(
                e.verify.block_min as nat,
            ) + SHADOW_PROBLEM@,
        )
    } else if e.tiers.block == 0 {
        Some(TIER_BLOCK_PROBLEM@)
    } else if e.verify.block_min == 0 {
        Some(VERIFY_BLOCK_PROBLEM@)
    } else {
        None
    }
}

impl SitePolicy {
    /// Whether nothing is overridden.
    pub fn is_empty(&self) -> (r: bool)
        ensures
            r == (*self == empty_policy()),
    {
        *self == SitePolicy::default()
    }

    /// The policy laid over the server's configuration.
    pub fn resolve(&self, config: &AppConfig) -> (r: EffectivePolicy)
        ensures
            r == effective(*self, *config),
    {
        let block = self.tier_block_min.unwrap_or(config.tier_block_min);
        EffectivePolicy {
            tiers: TierThresholds {
                checkbox: self.tier_checkbox_min.unwrap_or(config.tier_checkbox_min),
                hard_pow: self.tier_hard_pow_min.unwrap_or(config.tier_hard_pow_min),
                visual: block,
                block,
            },
            verify: VerifyThresholds {
                shadow_min: self.verify_shadow_min.unwrap_or(config.verify_shadow_min),
                block_min: self.verify_block_min.unwrap_or(config.verify_block_min),
            },
            default_difficulty: self.default_difficulty.unwrap_or(config.default_difficulty),
            max_difficulty: self.max_difficulty.unwrap_or(config.max_difficulty),
            mode: match self.mode {
                Some(mode) => mode,
                None => SiteMode::default(),
            },
        }
    }

    /// Whether the policy, as it would take effect, protects the site and lets its
    /// visitors pass. What is judged is the result of the overlay, so that an override
    /// that only breaks together with the server's settings is found.
    pub fn validate(&self, config: &AppConfig) -> (r: Result<(), String>)
        ensures
            match policy_problem(effective(*self, *config)) {
                None => r is Ok,
                Some(message) => r is Err && r->Err_0@ == message,
            },
    {
        let e = self.resolve(config);
        if e.default_difficulty < MIN_DIFFICULTY || e.max_difficulty < MIN_DIFFICULTY {
            let mut m = "default_difficulty=".to_owned();
            append_number(&mut m, e.default_difficulty as u64);
            m.append(" / max_difficulty=");
            append_number(&mut m, e.max_difficulty as u64);
            m.append(NO_WORK_PROBLEM);
            return Err(m);
        }
        if e.default_difficulty > e.max_difficulty {
            let mut m = "default_difficulty=".to_owned();
            append_number(&mut m, e.default_difficulty as u64);
            m.append(" exceeds max_difficulty=");
            append_number(&mut m, e.max_difficulty as u64);
            m.append(CLAMP_PROBLEM);
            return Err(m);
        }
        if !(e.tiers.checkbox <= e.tiers.hard_pow && e.tiers.hard_pow <= e.tiers.block) {
            let mut m = TIER_ORDER_PROBLEM.to_owned();
            append_number(&mut m, e.tiers.checkbox as u64);
            m.append(" hard_pow=");
            append_number(&mut m, e.tiers.hard_pow as u64);
            m.append(" block=");
            append_number(&mut m, e.tiers.block as u64);
            m.append(TIER_ORDER_REASON);
            return Err(m);
        }
        if e.verify.shadow_min > e.verify.block_min {
            let mut m = "verify_shadow_min=".to_owned();
            append_number(&mut m, e.verify.shadow_min as u64);
            m.append(" must not exceed verify_block_min=");
            append_number(&mut m, e.verify.block_min as u64);
            m.append(SHADOW_PROBLEM);
            return Err(m);
        }
        if e.tiers.block == 0 {
            return Err(TIER_BLOCK_PROBLEM.to_owned());
        }
        if e.verify.block_min == 0 {
            return Err(VERIFY_BLOCK_PROBLEM.to_owned());
        }
        Ok(())
    }
}

/// How many origins a site may list.
pub const MAX_ALLOWED_ORIGINS: usize = 32;

/// How long the name of a site may be, in bytes.
pub const MAX_SITE_NAME_LEN: usize = 200;

/// The name of a site as it is stored.
pub open spec fn stored_name(raw: Seq<char>) -> Result<Seq<char>, Seq<char>> {
    let name = crate::text::trim(raw);
    if name.len() == 0 {
        Err("name is required"@)
    } else if vstd::utf8::encode_utf8(name).len() > MAX_SITE_NAME_LEN {
        Err("name must be 200 characters or fewer"@)
    } else {
        Ok(name)
    }
}

/// The name of a site as it is stored: without white space at its ends, not empty and
/// not too long.
pub fn normalize_site_name(raw: &str) -> (r: Result<String, String>)
    ensures
        match r {
            Ok(name) => stored_name(raw@) == Ok::<Seq<char>, Seq<char>>(name@),
            Err(e) => stored_name(raw@) == Err::<Seq<char>, Seq<char>>(e@),
        },
{
    let cs = chars_of(raw);
    let name = trimmed(cs.as_slice());
    if name.len() == 0 {
        return Err("name is required".to_owned());
    }
    let name = string_of(name.as_slice());
    if byte_len(name.as_str()) > MAX_SITE_NAME_LEN {
        return Err("name must be 200 characters or fewer".to_owned());
    }
    Ok(name)
}

/// What stands behind the scheme of an origin.
pub open spec fn authority(origin: Seq<char>) -> Option<Seq<char>> {
    if "https://"@.is_prefix_of(origin) {
        Some(origin.skip("https://"@.len() as int))
    } else if "http://"@.is_prefix_of(origin) {
        Some(origin.skip("http://"@.len() as int))
    } else {
        None
    }
}

/// A host, with a port or without: not empty, and without path, query or fragment.
pub open spec fn is_authority(s: Seq<char>) -> bool {
    s.len() > 0 && crate::text::index_of(s, '/') is None && crate::text::index_of(s, '?') is None
        && crate::text::index_of(s, '#') is None
}

pub open spec fn has_white_space(s: Seq<char>) -> bool {
    exists|i: int| 0 <= i < s.len() && crate::text::is_white_space(#[trigger] s[i])
}

/// An origin as it is stored: in lower case, without white space at its ends. What is no
/// origin is no such thing.
pub open spec fn stored_origin(raw: Seq<char>) -> Option<Seq<char>> {
    let origin = crate::text::trim(raw);
    let lower = crate::text::ascii_lower(origin);
    if origin.len() == 0 || has_white_space(origin) {
        None
    } else {
        match authority(lower) {
            Some(rest) => if is_authority(rest) {
                Some(lower)
            } else {
                None
            },
            None => None,
        }
    }
}

fn any_white_space(cs: &[char]) -> (r: bool)
    ensures
        r == has_white_space(cs@),
{
    let n = cs.len();
    for i in 0..n
        invariant
            n == cs@.len(),
            forall|j: int| 0 <= j < i ==> !crate::text::is_white_space(#[trigger] cs@[j]),
    {
        if white_space(cs[i]) {
            assert(crate::text::is_white_space(cs@[i as int]));
            return true;
        }
    }
    false
}

/// An origin as it is stored: `http(s)://host`, with a port or without, in lower case. The
/// error is the text that is none.
pub fn normalize_origin(raw: &str) -> (r: Result<String, String>)
    ensures
        match stored_origin(raw@) {
            Some(origin) => r is Ok && r->Ok_0@ == origin,
            None => r is Err && r->Err_0@ == raw@,
        },
{
    let cs = chars_of(raw);
    let origin = trimmed(cs.as_slice());
    if origin.len() == 0 || any_white_space(origin.as_slice()) {
        return Err(raw.to_owned());
    }
    let lower = lowered(origin.as_slice());
    let n = lower.len();
    let scheme: usize = if begins_with_text(lower.as_slice(), "https://") {
        chars_of("https://").len()
    } else if begins_with_text(lower.as_slice(), "http://") {
        chars_of("http://").len()
    } else {
        return Err(raw.to_owned());
    };
    let rest = piece(lower.as_slice(), scheme, n);
    assert(rest@ =~= lower@.skip(scheme as int));
    assert(authority(lower@) == Some(rest@));
    let rest = rest.as_slice();
    if rest.len() == 0 || position(rest, '/').is_some() || position(rest, '?').is_some()
        || position(rest, '#').is_some() {
        return Err(raw.to_owned());
    }
    Ok(string_of(lower.as_slice()))
}

/// The origins of a list as they are stored, or what is wrong with the list.
pub open spec fn stored_origins(raw: Seq<Seq<char>>) -> Result<Seq<Seq<char>>, Seq<char>>
    decreases raw.len(),
{
    if raw.len() == 0 {
        Ok(Seq::empty())
    } else {
        match stored_origins(raw.drop_last()) {
            Err(e) => Err(e),
            Ok(origins) => match stored_origin(raw.last()) {
                Some(origin) => Ok(origins.push(origin)),
                None => Err("invalid origin: "@ + raw.last()),
            },
        }
    }
}

/// The origins of a list as they are stored, where it is not too long.
pub open spec fn stored_origin_list(raw: Seq<Seq<char>>) -> Result<Seq<Seq<char>>, Seq<char>> {
    if raw.len() > MAX_ALLOWED_ORIGINS {
        Err("too many allowed_origins (max 32)"@)
    } else {
        stored_origins(raw)
    }
}

proof fn lemma_stored_origins_prefix(raw: Seq<Seq<char>>, k: int)
    requires
        0 <= k <= raw.len(),
        stored_origins(raw.take(k)) is Err,
    ensures
        stored_origins(raw) == stored_origins(raw.take(k)),
    decreases raw.len() - k,
{
    if k < raw.len() {
        assert(raw.take(k + 1).drop_last() == raw.take(k));
        lemma_stored_origins_prefix(raw, k + 1);
    } else {
        assert(raw.take(k) == raw);
    }
}

/// The origins of a list as they are stored. A list that is too long is an error, and so
/// is the first entry that is no origin.
pub fn normalize_origins(raw: &[String]) -> (r: Result<Vec<String>, String>)
    ensures
        match stored_origin_list(crate::text::string_views(raw@)) {
            Ok(origins) => r is Ok && crate::text::string_views(r->Ok_0@) == origins,
            Err(e) => r is Err && r->Err_0@ == e,
        },
{
    let n = raw.len();
    if n > MAX_ALLOWED_ORIGINS {
        return Err("too many allowed_origins (max 32)".to_owned());
    }
    let ghost all = crate::text::string_views(raw@);
    let mut out: Vec<String> = Vec::new();
    let mut i: usize = 0;
    assert(all.take(0).len() == 0);
    assert(crate::text::string_views(out@) =~= Seq::empty());
    while i < n
        invariant
            i <= n,
            n == raw@.len(),
            n <= MAX_ALLOWED_ORIGINS,
            all == crate::text::string_views(raw@),
            stored_origins(all.take(i as int)) == Ok::<Seq<Seq<char>>, Seq<char>>(
                crate::text::string_views(out@),
            ),
        decreases n - i,
    {
        assert(all.take(i + 1).drop_last() == all.take(i as int));
        assert(all.take(i + 1).last() == raw@[i as int]@);
        match normalize_origin(raw[i].as_str()) {
            Ok(origin) => {
                let ghost before = crate::text::string_views(out@);
                let ghost text = origin@;
                out.push(origin);
                assert(crate::text::string_views(out@) =~= before.push(text));
            },
            Err(bad) => {
                proof {
                    lemma_stored_origins_prefix(all, i + 1);
                }
                let mut e = "invalid origin: ".to_owned();
                e.append(bad.as_str());
                return Err(e);
            },
        }
        i += 1;
    }
    assert(all.take(n as int) == all);
    Ok(out)
}

/// A policy that overrides nothing leaves the server's settings as they are.
pub proof fn lemma_empty_policy_inherits(config: AppConfig)
    ensures
        effective(empty_policy(), config).tiers.checkbox == config.tier_checkbox_min,
        effective(empty_policy(), config).tiers.hard_pow == config.tier_hard_pow_min,
        effective(empty_policy(), config).tiers.block == config.tier_block_min,
        effective(empty_policy(), config).verify.shadow_min == config.verify_shadow_min,
        effective(empty_policy(), config).verify.block_min == config.verify_block_min,
        effective(empty_policy(), config).default_difficulty == config.default_difficulty,
        effective(empty_policy(), config).max_difficulty == config.max_difficulty,
        effective(empty_policy(), config).mode == SiteMode::Enforce,
{
}

/// Monitoring changes no threshold and no difficulty, and so makes no policy valid or
/// invalid.
pub proof fn lemma_mode_changes_no_threshold(policy: SitePolicy, config: AppConfig, mode: SiteMode)
    ensures
        effective(SitePolicy { mode: Some(mode), ..policy }, config) == (EffectivePolicy {
            mode,
            ..effective(policy, config)
        }),
        policy_problem(effective(SitePolicy { mode: Some(mode), ..policy }, config))
            == policy_problem(effective(policy, config)),
{
}

/// Under a valid policy every puzzle takes work, some visitor can pass, and every tier
/// but the one for blocking issues a puzzle.
pub proof fn lemma_valid_policy(policy: SitePolicy, config: AppConfig, score: nat)
    requires
        policy_problem(effective(policy, config)) is None,
    ensures
        ({
            let e = effective(policy, config);
            let d = crate::risk::tier::tier_difficulty(
                e.tiers.tier_of(score),
                e.default_difficulty,
                e.max_difficulty,
            );
            &&& e.tiers.tier_of(0) != crate::risk::tier::EscalationTier::Block
            &&& e.verify.decide(0) != crate::risk::verify::VerifyDecision::Block
            &&& score < e.tiers.block <==> d is Some
            &&& d matches Some(bits) ==> MIN_DIFFICULTY <= e.default_difficulty <= bits
                <= e.max_difficulty
        }),
{
}

/// A name that was stored once is stored as it is.
pub proof fn lemma_stored_name_idempotent(raw: Seq<char>)
    ensures
        stored_name(raw) matches Ok(name) ==> stored_name(name) == Ok::<Seq<char>, Seq<char>>(name),
{
    crate::text::lemma_trim(raw);
}

/// An origin that was stored once is stored as it is.
pub proof fn lemma_stored_origin_idempotent(raw: Seq<char>)
    ensures
        stored_origin(raw) matches Some(origin) ==> stored_origin(origin) == Some(origin),
{
    if let Some(lower) = stored_origin(raw) {
        let origin = crate::text::trim(raw);
        crate::text::lemma_trim(raw);
        crate::text::lemma_ascii_lower(origin);
        assert(!has_white_space(lower)) by {
            if has_white_space(lower) {
                let i = choose|i: int|
                    0 <= i < lower.len() && crate::text::is_white_space(#[trigger] lower[i]);
                assert(crate::text::is_white_space(origin[i]));
            }
        }
        assert(!crate::text::is_white_space(lower[0]));
        assert(!crate::text::is_white_space(lower[lower.len() - 1]));
        assert(crate::text::trim_start(lower) == lower);
        assert(crate::text::trim_end(lower) == lower);
    }
}

/// What a site sets holds for it, and what it does not set holds as the server has it, each
/// setting on its own.
pub proof fn lemma_overlay(policy: SitePolicy, config: AppConfig)
    ensures
        ({
            let e = effective(policy, config);
            &&& policy.tier_checkbox_min matches Some(v) ==> e.tiers.checkbox == v
            &&& policy.tier_checkbox_min is None ==> e.tiers.checkbox == config.tier_checkbox_min
            &&& policy.tier_hard_pow_min matches Some(v) ==> e.tiers.hard_pow == v
            &&& policy.tier_hard_pow_min is None ==> e.tiers.hard_pow == config.tier_hard_pow_min
            &&& policy.tier_block_min matches Some(v) ==> e.tiers.block == v
            &&& policy.tier_block_min is None ==> e.tiers.block == config.tier_block_min
            &&& e.tiers.visual == e.tiers.block
            &&& policy.verify_shadow_min matches Some(v) ==> e.verify.shadow_min == v
            &&& policy.verify_shadow_min is None ==> e.verify.shadow_min
                == config.verify_shadow_min
            &&& policy.verify_block_min matches Some(v) ==> e.verify.block_min == v
            &&& policy.verify_block_min is None ==> e.verify.block_min == config.verify_block_min
            &&& policy.default_difficulty matches Some(v) ==> e.default_difficulty == v
            &&& policy.default_difficulty is None ==> e.default_difficulty
                == config.default_difficulty
            &&& policy.max_difficulty matches Some(v) ==> e.max_difficulty == v
            &&& policy.max_difficulty is None ==> e.max_difficulty == config.max_difficulty
            &&& e.mode == SiteMode::Monitor <==> policy.mode == Some(SiteMode::Monitor)
        }),
{
}

/// A policy is taken exactly where every puzzle takes work and none is harder than the maximum,
/// the thresholds do not fall, and neither block threshold is zero.
pub proof fn lemma_policy_is_taken(e: EffectivePolicy)
    ensures
        policy_problem(e) is None <==> {
            &&& 1 <= e.default_difficulty <= e.max_difficulty
            &&& e.tiers.checkbox <= e.tiers.hard_pow <= e.tiers.block
            &&& e.verify.shadow_min <= e.verify.block_min
            &&& e.tiers.block > 0
            &&& e.verify.block_min > 0
        },
{
}

/// A name is stored without the white space around it, where something is left that has at
/// most two hundred bytes; else it is refused for the one reason or the other.
pub proof fn lemma_stored_name(raw: Seq<char>)
    ensures
        stored_name(raw) matches Ok(name) ==> {
            &&& name == crate::text::trim(raw)
            &&& 0 < name.len()
            &&& vstd::utf8::encode_utf8(name).len() <= 200
        },
        stored_name(raw) is Ok <==> crate::text::trim(raw).len() > 0 && vstd::utf8::encode_utf8(
            crate::text::trim(raw),
        ).len() <= 200,
        (forall|i: int| 0 <= i < raw.len() ==> crate::text::is_white_space(#[trigger] raw[i]))
            ==> stored_name(raw) == Err::<Seq<char>, Seq<char>>("name is required"@),
{
    crate::text::lemma_trim_is_middle(raw);
}

/// An origin is stored in lower case and without the white space around it, exactly where it is
/// a scheme, http:// or https://, and a rest that is not empty and has no slash, no question
/// mark, no number sign and no white space.
pub proof fn lemma_stored_origin(raw: Seq<char>)
    ensures
        stored_origin(raw) matches Some(origin) ==> origin == crate::text::ascii_lower(
            crate::text::trim(raw),
        ),
        stored_origin(raw) is Some <==> exists|scheme: Seq<char>, host: Seq<char>|
            {
                &&& crate::text::ascii_lower(crate::text::trim(raw)) == #[trigger] (scheme + host)
                &&& scheme == "http://"@ || scheme == "https://"@
                &&& host.len() > 0
                &&& forall|i: int|
                    0 <= i < host.len() ==> (#[trigger] host[i]) != '/' && host[i] != '?' && host[i]
                        != '#' && !crate::text::is_white_space(host[i])
            },
{
    reveal_strlit("http://");
    reveal_strlit("https://");
    let origin = crate::text::trim(raw);
    let lower = crate::text::ascii_lower(origin);
    crate::text::lemma_ascii_lower(origin);
    if stored_origin(raw) is Some {
        let scheme = if "https://"@.is_prefix_of(lower) {
            "https://"@
        } else {
            "http://"@
        };
        let host = lower.skip(scheme.len() as int);
        assert(lower =~= scheme + host);
        crate::text::lemma_index_of(host, '/');
        crate::text::lemma_index_of(host, '?');
        crate::text::lemma_index_of(host, '#');
        assert forall|i: int| 0 <= i < host.len() implies (#[trigger] host[i]) != '/' && host[i]
            != '?' && host[i] != '#' && !crate::text::is_white_space(host[i]) by {
            assert(host[i] == lower[i + scheme.len()]);
            assert(crate::text::is_white_space(lower[i + scheme.len()])
                == crate::text::is_white_space(origin[i + scheme.len()]));
        }
    }
    if exists|scheme: Seq<char>, host: Seq<char>|
        {
            &&& lower == #[trigger] (scheme + host)
            &&& scheme == "http://"@ || scheme == "https://"@
            &&& host.len() > 0
            &&& forall|i: int|
                0 <= i < host.len() ==> (#[trigger] host[i]) != '/' && host[i] != '?' && host[i]
                    != '#' && !crate::text::is_white_space(host[i])
        } {
        let (scheme, host) = choose|scheme: Seq<char>, host: Seq<char>|
            {
                &&& lower == #[trigger] (scheme + host)
                &&& scheme == "http://"@ || scheme == "https://"@
                &&& host.len() > 0
                &&& forall|i: int|
                    0 <= i < host.len() ==> (#[trigger] host[i]) != '/' && host[i] != '?' && host[i]
                        != '#' && !crate::text::is_white_space(host[i])
            };
        assert(scheme.is_prefix_of(lower));
        assert(lower.skip(scheme.len() as int) =~= host);
        if scheme == "http://"@ {
            assert(lower[4] == ':');
            assert("https://"@[4] == 's');
            assert(!"https://"@.is_prefix_of(lower));
        }
        crate::text::lemma_index_of(host, '/');
        crate::text::lemma_index_of(host, '?');
        crate::text::lemma_index_of(host, '#');
        assert(is_authority(host));
        if has_white_space(origin) {
            let i = choose|i: int|
                0 <= i < origin.len() && crate::text::is_white_space(#[trigger] origin[i]);
            assert(crate::text::is_white_space(lower[i]));
            if i < scheme.len() {
                assert(lower[i] == scheme[i]);
            } else {
                assert(lower[i] == host[i - scheme.len()]);
            }
        }
    }
}

/// A list of origins is stored entry by entry, in its order and with none left out; it is
/// refused where one entry is none, or where it has more than thirty-two.
pub proof fn lemma_stored_origins(raw: Seq<Seq<char>>)
    ensures
        stored_origins(raw) matches Ok(origins) ==> {
            &&& origins.len() == raw.len()
            &&& forall|i: int|
                0 <= i < raw.len() ==> stored_origin(#[trigger] raw[i]) == Some(origins[i])
        },
        stored_origins(raw) is Err <==> exists|i: int|
            0 <= i < raw.len() && stored_origin(#[trigger] raw[i]) is None,
        stored_origin_list(raw) is Ok <==> raw.len() <= 32 && stored_origins(raw) is Ok,
        raw.len() <= 32 ==> stored_origin_list(raw) == stored_origins(raw),
    decreases raw.len(),
{
    if raw.len() > 0 {
        let before = raw.drop_last();
        lemma_stored_origins(before);
        if stored_origins(raw) is Ok {
            let origins = stored_origins(raw)->Ok_0;
            assert forall|i: int| 0 <= i < raw.len() implies stored_origin(#[trigger] raw[i])
                == Some(origins[i]) by {
                if i < raw.len() - 1 {
                    assert(before[i] == raw[i]);
                }
            }
        } else if stored_origins(before) is Err {
            let i = choose|i: int|
                0 <= i < before.len() && stored_origin(#[trigger] before[i]) is None;
            assert(raw[i] == before[i]);
        } else {
            assert(stored_origin(raw[raw.len() - 1]) is None);
        }
    }
}

/// The view of a site shows each of its fields under its own name.
pub proof fn lemma_site_view(site: Site)
    ensures
        site@.site_key == site.site_key,
        site@.secret_key == site.secret_key@,
        site@.name == site.name@,
        site@.created_at == site.created_at,
        site@.allowed_origins.len() == site.allowed_origins@.len(),
        forall|i: int|
            0 <= i < site.allowed_origins@.len() ==> #[trigger] site@.allowed_origins[i]
                == site.allowed_origins@[i]@,
        site@.policy == site.policy,
{
}

} // verus!
