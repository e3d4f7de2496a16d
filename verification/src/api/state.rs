//! What the service answers from.
use vstd::prelude::*;

use crate::api::types::InfoUrls;
use crate::config::{AppConfig, MIN_DIFFICULTY};
use crate::failover::{FailoverGuard, FailoverState};
use crate::puzzle::challenge::PuzzleEngine;
use crate::puzzle::types::{PuzzleConfig, MAX_LIFETIME_SECS};
use crate::risk::reputation::ReputationStore;
use crate::risk::score::RiskScorer;
use crate::risk::tier::TierThresholds;
use crate::risk::tls_fingerprint::{FingerprintBlocklist, TrustedProxies};
use crate::risk::verify::{VerifyScorer, VerifyThresholds};
use crate::risk::weights::SignalWeights;
use crate::storage::memory::InMemoryStore;
use crate::text::clone_text;
use crate::time::Timestamp;

verus! {

/// What the service answers from.
pub struct AppState {
    pub store: InMemoryStore,
    pub engine: PuzzleEngine,
    pub risk: RiskScorer,
    pub verify_scorer: VerifyScorer,
    pub weights: SignalWeights,
    /// The header that holds the TLS fingerprint; without one the signal is off.
    pub tls_fingerprint_header: Option<String>,
    /// The proxies whose headers are believed.
    pub trusted_proxies: TrustedProxies,
    /// The token of the operator; without one there is nothing to operate.
    pub admin_token: Option<String>,
    pub info_urls: Option<InfoUrls>,
    pub failover: FailoverGuard,
    pub config: AppConfig,
    /// The build is for development.
    pub debug_build: bool,
}

impl AppState {
    /// The parts are in order, and the lifetime of a challenge is a number of seconds that
    /// can be added to a date.
    pub open spec fn wf(self) -> bool {
        &&& self.store.wf()
        &&& self.failover.within_limits()
        &&& self.engine.config.ttl_secs <= MAX_LIFETIME_SECS
    }

    /// The two differ in their stores at most.
    pub open spec fn same_but_store(self, other: AppState) -> bool {
        self == (AppState { store: self.store, ..other })
    }

    /// The state that a service starts with, by its configuration and by what it read: the
    /// stored sites, the lists, the weights and what an earlier run left of the outages. A
    /// build that is not for development has no way round the operator's token.
    pub open spec fn starts_with(
        self,
        config: AppConfig,
        store: InMemoryStore,
        reputation: ReputationStore,
        tls_blocklist: FingerprintBlocklist,
        trusted_proxies: TrustedProxies,
        weights: SignalWeights,
        persisted: FailoverState,
        debug_build: bool,
        now: Timestamp,
    ) -> bool {
        &&& self.store == store
        &&& self.engine.config == (PuzzleConfig {
            algorithm: config.puzzle_algorithm,
            default_difficulty: config.default_difficulty,
            min_difficulty: MIN_DIFFICULTY,
            max_difficulty: config.max_difficulty,
            ttl_secs: config.challenge_ttl_secs,
        })
        &&& self.risk == (RiskScorer {
            thresholds: TierThresholds {
                checkbox: config.tier_checkbox_min,
                hard_pow: config.tier_hard_pow_min,
                visual: config.tier_block_min,
                block: config.tier_block_min,
            },
            reputation,
            tls_blocklist,
        })
        &&& self.verify_scorer.require_behavior == config.verify_require_behavior
        &&& self.weights == weights
        &&& self.tls_fingerprint_header == config.tls_fingerprint_header
        &&& self.trusted_proxies == trusted_proxies
        &&& self.admin_token == (match config.admin_token {
            Some(token) if token@.len() > 0 => config.admin_token,
            _ => None,
        })
        &&& self.info_urls is None <==> config.info_about_url is None
            && config.info_privacy_url is None && config.info_terms_url is None
        &&& self.info_urls matches Some(urls) ==> urls.about == config.info_about_url
            && urls.privacy == config.info_privacy_url && urls.terms == config.info_terms_url
        &&& self.failover.config.enabled == config.failover_enabled
        &&& self.failover.config.state_path == config.failover_state_path
        &&& self.failover.config.heartbeat_interval_secs == config.failover_heartbeat_interval_secs
        &&& self.failover.config.min_gap_secs == config.failover_min_gap_secs
        &&& self.failover.config.grace_secs == config.failover_grace_secs
        &&& self.failover.config.max_per_min == config.failover_max_per_min
        &&& self.failover.state.last_heartbeat == Some(now)
        &&& self.failover.state.windows@ == crate::failover::kept_windows(
            crate::failover::attested_at_start(persisted, config.failover_min_gap_secs, now),
            now,
            config.failover_grace_secs,
        )
        &&& self.failover.claims() == Map::<u128, Seq<Timestamp>>::empty()
        &&& self.failover.accepted_total == 0
        &&& self.failover.refused_total == 0
        &&& self.config == (AppConfig {
            dev_disable_admin_auth: config.dev_disable_admin_auth && debug_build,
            ..config
        })
        &&& self.debug_build == debug_build
    }

    /// The state that a service starts with.
    pub fn start_at(
        config: AppConfig,
        store: InMemoryStore,
        reputation: ReputationStore,
        tls_blocklist: FingerprintBlocklist,
        trusted_proxies: TrustedProxies,
        weights: SignalWeights,
        persisted: FailoverState,
        debug_build: bool,
        now: Timestamp,
    ) -> (r: Self)
        requires
            store.wf(),
            config.challenge_ttl_secs <= MAX_LIFETIME_SECS,
        ensures
            r.wf(),
            r.starts_with(
                config,
                store,
                reputation,
                tls_blocklist,
                trusted_proxies,
                weights,
                persisted,
                debug_build,
                now,
            ),
    {
        let engine = PuzzleEngine::new(
            PuzzleConfig {
                algorithm: config.puzzle_algorithm,
                default_difficulty: config.default_difficulty,
                min_difficulty: MIN_DIFFICULTY,
                max_difficulty: config.max_difficulty,
                ttl_secs: config.challenge_ttl_secs,
            },
        );
        let risk = RiskScorer::new(
            tier_thresholds_from_config(&config),
            reputation,
            tls_blocklist,
        );
        let verify_scorer = VerifyScorer::new(config.verify_require_behavior);
        let tls_fingerprint_header = clone_text(&config.tls_fingerprint_header);
        let admin_token = admin_token_from_config(&config);
        let info_urls = info_urls_from_config(&config);
        let failover = FailoverGuard::load_at(config.failover_config(), persisted, now);
        let mut config = config;
        config.dev_disable_admin_auth = config.dev_disable_admin_auth && debug_build;
        AppState {
            store,
            engine,
            risk,
            verify_scorer,
            weights,
            tls_fingerprint_header,
            trusted_proxies,
            admin_token,
            info_urls,
            failover,
            config,
            debug_build,
        }
    }
}

/// How many memory-hard verifications may run at once for each processor.
pub const VERIFY_PERMITS_PER_CORE: usize = 2;

/// How many memory-hard verifications may run at once, given the number of processors where
/// it is known.
pub fn verify_permits(parallelism: Option<usize>) -> (r: usize)
    requires
        parallelism matches Some(n) ==> n * VERIFY_PERMITS_PER_CORE <= usize::MAX,
    ensures
        r == (match parallelism {
            Some(n) => n * VERIFY_PERMITS_PER_CORE,
            None => VERIFY_PERMITS_PER_CORE as int,
        }),
{
    match parallelism {
        Some(n) => n * VERIFY_PERMITS_PER_CORE,
        None => VERIFY_PERMITS_PER_CORE,
    }
}

/// The operator's own information pages, where there is one.
pub fn info_urls_from_config(config: &AppConfig) -> (r: Option<InfoUrls>)
    ensures
        r is None <==> config.info_about_url is None && config.info_privacy_url is None
            && config.info_terms_url is None,
        r matches Some(urls) ==> urls.about == config.info_about_url && urls.privacy
            == config.info_privacy_url && urls.terms == config.info_terms_url,
{
    let urls = InfoUrls {
        about: clone_text(&config.info_about_url),
        privacy: clone_text(&config.info_privacy_url),
        terms: clone_text(&config.info_terms_url),
    };
    if urls.is_empty() {
        None
    } else {
        Some(urls)
    }
}

/// The thresholds of the configuration. There is no band for a visual challenge.
pub fn tier_thresholds_from_config(config: &AppConfig) -> (r: TierThresholds)
    ensures
        r == (TierThresholds {
            checkbox: config.tier_checkbox_min,
            hard_pow: config.tier_hard_pow_min,
            visual: config.tier_block_min,
            block: config.tier_block_min,
        }),
{
    TierThresholds {
        checkbox: config.tier_checkbox_min,
        hard_pow: config.tier_hard_pow_min,
        visual: config.tier_block_min,
        block: config.tier_block_min,
    }
}

pub fn verify_thresholds_from_config(config: &AppConfig) -> (r: VerifyThresholds)
    ensures
        r == (VerifyThresholds {
            shadow_min: config.verify_shadow_min,
            block_min: config.verify_block_min,
        }),
{
    VerifyThresholds { shadow_min: config.verify_shadow_min, block_min: config.verify_block_min }
}

/// The operator's token, where there is one: an empty one is none.
pub fn admin_token_from_config(config: &AppConfig) -> (r: Option<String>)
    ensures
        r == (match config.admin_token {
            Some(token) if token@.len() > 0 => config.admin_token,
            _ => None,
        }),
{
    match &config.admin_token {
        Some(token) => {
            if crate::text::chars_of(token.as_str()).len() > 0 {
                Some(token.clone())
            } else {
                None
            }
        },
        None => None,
    }
}

/// What a service starts with follows its configuration: new challenges have its algorithm and
/// its lifetime, requests its thresholds, and only a build for development can go without the
/// operator's token. An empty token is none.
pub proof fn lemma_started_service(
    state: AppState,
    config: AppConfig,
    store: InMemoryStore,
    reputation: ReputationStore,
    tls_blocklist: FingerprintBlocklist,
    trusted_proxies: TrustedProxies,
    weights: SignalWeights,
    persisted: FailoverState,
    debug_build: bool,
    now: Timestamp,
)
    requires
        state.starts_with(
            config,
            store,
            reputation,
            tls_blocklist,
            trusted_proxies,
            weights,
            persisted,
            debug_build,
            now,
        ),
    ensures
        state.engine.config.algorithm == config.puzzle_algorithm,
        state.engine.config.ttl_secs == config.challenge_ttl_secs,
        state.engine.config.default_difficulty == config.default_difficulty,
        state.engine.config.max_difficulty == config.max_difficulty,
        state.risk.thresholds.checkbox == config.tier_checkbox_min,
        state.risk.thresholds.hard_pow == config.tier_hard_pow_min,
        state.risk.thresholds.block == config.tier_block_min,
        state.risk.reputation == reputation,
        state.risk.tls_blocklist == tls_blocklist,
        state.store == store,
        state.weights == weights,
        state.trusted_proxies == trusted_proxies,
        state.verify_scorer.require_behavior == config.verify_require_behavior,
        state.tls_fingerprint_header == config.tls_fingerprint_header,
        config.admin_token is None ==> state.admin_token is None,
        config.admin_token matches Some(t) ==> (t@.len() == 0 ==> state.admin_token is None) && (
        t@.len() > 0 ==> state.admin_token == config.admin_token),
        !debug_build ==> !state.config.dev_disable_admin_auth,
        debug_build ==> state.config.dev_disable_admin_auth == config.dev_disable_admin_auth,
        state.config.anonymize_log_ip == config.anonymize_log_ip,
        state.config.ip_hard_limit == config.ip_hard_limit,
        state.config.max_active_challenges == config.max_active_challenges,
        state.config.verify_max_attempts == config.verify_max_attempts,
        state.failover.config.enabled == config.failover_enabled,
        state.failover.config.grace_secs == config.failover_grace_secs,
        state.failover.config.max_per_min == config.failover_max_per_min,
        state.failover.accepted_total == 0 && state.failover.refused_total == 0,
{
}

} // verus!
