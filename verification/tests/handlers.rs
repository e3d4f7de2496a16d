use axum::http::{HeaderMap, HeaderValue};
use bollwark::api::decision::decide;
use bollwark::api::handlers::admin::{create_site, declare_outage, declare_outage_at, list_outages,
    list_outages_at, prepare_site, prepare_site_at, require_admin_token};
use bollwark::api::handlers::puzzle::{get_puzzle, get_puzzle_at, takes_origin, PuzzleAnswer,
    PuzzleReply};
use bollwark::api::handlers::verify::{begin_verify_at, finish_verify_at, verify,
    verify_failover_at, PendingVerify, VerifyAnswer, VerifyReply, VerifyStep};
use bollwark::api::state::{admin_token_from_config, info_urls_from_config,
    tier_thresholds_from_config, verify_permits, verify_thresholds_from_config, AppState};
use bollwark::api::types::{BlockedResponse, CreateSiteRequest, DeclareOutageRequest,
    FailoverClaim, GetPuzzleParams, InfoUrls, PuzzleResponse, ResolvedVerify, SolvedVerify};
use bollwark::config::AppConfig;
use bollwark::dashboard::routes::{delete_site, rotate_site_with};
use bollwark::error::CaptchaError;
use bollwark::failover::{FailoverConfig, FailoverGuard, FailoverState};
use bollwark::ident::uuid_text;
use bollwark::net::{parse_ip, IpAddr};
use bollwark::puzzle::challenge::{solve_challenge, PuzzleEngine};
use bollwark::puzzle::types::{Algorithm, PuzzleConfig};
use bollwark::risk::behavior::{BehaviorReport, BEHAVIOR_DUPLICATE_SCORE};
use bollwark::risk::load::LoadLadder;
use bollwark::risk::reputation::{CidrListReputation, IpCategory, ReputationStore};
use bollwark::risk::score::RiskScorer;
use bollwark::risk::tier::EscalationTier;
use bollwark::risk::tls_fingerprint::{FingerprintBlocklist, TrustedProxies, FINGERPRINT_BAD_SCORE};
use bollwark::risk::verify::VerifyScorer;
use bollwark::risk::weights::SignalWeights;
use bollwark::site::types::{Site, SiteMode, SitePolicy};
use bollwark::storage::memory::InMemoryStore;
use bollwark::time::{Timestamp, MAX_SECS};

const T0: Timestamp = Timestamp { secs: 1_700_000_000, nanos: 0 };
const SITE: u128 = 0x11;
const OTHER: u128 = 0x22;

fn later(secs: i64) -> Timestamp {
    Timestamp::new(T0.secs + secs, 0)
}

fn site(site_key: u128, secret: &str) -> Site {
    Site {
        site_key,
        secret_key: secret.to_string(),
        name: "n".to_string(),
        created_at: T0,
        allowed_origins: Vec::new(),
        policy: SitePolicy::default(),
    }
}

fn config() -> AppConfig {
    AppConfig {
        puzzle_algorithm: Algorithm::Sha256,
        admin_token: Some("operator".to_string()),
        ..AppConfig::default()
    }
}

fn state_of(config: AppConfig) -> AppState {
    let engine = PuzzleEngine::new(PuzzleConfig {
        algorithm: config.puzzle_algorithm,
        default_difficulty: config.default_difficulty,
        max_difficulty: config.max_difficulty,
        ttl_secs: config.challenge_ttl_secs,
        ..PuzzleConfig::default()
    });
    let failover = FailoverGuard::load_at(
        FailoverConfig {
            enabled: true,
            state_path: Some("state".to_string()),
            ..FailoverConfig::default()
        },
        FailoverState::default(),
        T0,
    );
    AppState {
        store: InMemoryStore::with_sites(vec![site(SITE, "secret"), site(OTHER, "elsewhere")]),
        engine,
        risk: RiskScorer::new(
            tier_thresholds_from_config(&config),
            ReputationStore::empty(),
            FingerprintBlocklist::empty(),
        ),
        verify_scorer: VerifyScorer::new(config.verify_require_behavior),
        weights: SignalWeights::default(),
        tls_fingerprint_header: None,
        trusted_proxies: TrustedProxies::empty(),
        admin_token: admin_token_from_config(&config),
        info_urls: info_urls_from_config(&config),
        failover,
        config,
        debug_build: false,
    }
}

fn state() -> AppState {
    state_of(config())
}

fn browser() -> HeaderMap {
    let mut h = HeaderMap::new();
    h.insert(
        "user-agent",
        HeaderValue::from_static(
            "Mozilla/5.0 (Macintosh; Intel Mac OS X 14_0) AppleWebKit/605.1.15",
        ),
    );
    h.insert("accept-language", HeaderValue::from_static("en-US,en;q=0.9"));
    h.insert("accept-encoding", HeaderValue::from_static("gzip, deflate, br"));
    h.insert("sec-fetch-mode", HeaderValue::from_static("cors"));
    h
}

fn params() -> GetPuzzleParams {
    GetPuzzleParams {
        site_key: SITE,
        refresh_of: None,
    }
}

fn peer() -> IpAddr {
    parse_ip("203.0.113.77").unwrap()
}

fn ask(s: &mut AppState, h: &HeaderMap, now: Timestamp, id: u128) -> PuzzleAnswer {
    get_puzzle_at(s, peer(), h, &params(), now, id, &[0xab; 16]).unwrap()
}

fn issued(a: PuzzleAnswer) -> PuzzleResponse {
    match a.reply {
        PuzzleReply::Issued(body) => body,
        PuzzleReply::Blocked(body) => panic!("{body:?}"),
    }
}

fn blocked(a: PuzzleAnswer) -> BlockedResponse {
    match a.reply {
        PuzzleReply::Issued(body) => panic!("{body:?}"),
        PuzzleReply::Blocked(body) => body,
    }
}

fn bearer(token: &str) -> HeaderMap {
    let mut h = HeaderMap::new();
    h.insert("authorization", HeaderValue::from_str(&format!("Bearer {token}")).unwrap());
    h
}

fn solution(challenge_id: u128, nonce: u64) -> ResolvedVerify {
    ResolvedVerify::Solved(SolvedVerify {
        challenge_id,
        nonce,
        honeypot: None,
        behavior: None,
    })
}

fn pending(s: &mut AppState, request: ResolvedVerify, now: Timestamp) -> PendingVerify {
    match begin_verify_at(s, &bearer("secret"), request, now).unwrap() {
        VerifyStep::Check(p) => p,
        VerifyStep::Answered(a) => panic!("{a:?}"),
    }
}

/// Looks a submission up, checks its proof of work and settles it.
fn submit(
    s: &mut AppState,
    request: ResolvedVerify,
    now: Timestamp,
) -> Result<VerifyAnswer, CaptchaError> {
    match begin_verify_at(s, &bearer("secret"), request, now)? {
        VerifyStep::Check(p) => {
            let valid = s.engine.verify(&p.challenge, p.nonce);
            finish_verify_at(s, &p, valid, now.secs)
        }
        VerifyStep::Answered(a) => panic!("{a:?}"),
    }
}

fn right_nonce(s: &AppState, id: u128) -> u64 {
    let c = s.store.get_challenge(&id).unwrap();
    solve_challenge(&c.prefix, c.difficulty).unwrap()
}

fn wrong_nonce(s: &AppState, id: u128) -> u64 {
    let c = s.store.get_challenge(&id).unwrap();
    (0..).find(|n| !s.engine.verify(&c, *n)).unwrap()
}

#[test]
fn a_clean_visitor_gets_the_default_puzzle() {
    let mut s = state();
    let a = ask(&mut s, &browser(), T0, 7);
    assert_eq!(a.record.outcome, "issued");
    assert_eq!(a.record.score, 0);
    assert_eq!(a.record.challenge_id, Some(7));
    assert_eq!(a.record.tls_fingerprint, "Skipped");
    assert!(a.record.user_agent.as_deref().unwrap().starts_with("Mozilla"));
    // The log holds the network only.
    assert_eq!(a.record.ip, parse_ip("203.0.113.0").unwrap());
    let body = issued(a);
    assert_eq!(body.challenge_id, 7);
    assert_eq!(body.prefix, "ab".repeat(16));
    assert_eq!(body.difficulty, 5);
    assert_eq!(body.tier, EscalationTier::InvisiblePass);
    assert_eq!(body.expires_in_secs, 300);
    assert_eq!(body.expires_at, "2023-11-14T22:18:20+00:00");
    assert!(body.info_urls.is_none());
    let c = s.store.get_challenge(&7).unwrap();
    assert_eq!(c.dwell_since, T0);
    assert_eq!(c.expires_at, later(300));
}

#[test]
fn the_full_address_is_logged_where_the_operator_wants_it() {
    let mut s = state_of(AppConfig {
        anonymize_log_ip: false,
        ..config()
    });
    assert_eq!(ask(&mut s, &browser(), T0, 7).record.ip, peer());
}

#[test]
fn an_unknown_site_gets_nothing() {
    let mut s = state();
    let p = GetPuzzleParams {
        site_key: 99,
        refresh_of: None,
    };
    let r = get_puzzle_at(&mut s, peer(), &browser(), &p, T0, 7, &[0; 16]);
    assert!(matches!(r, Err(CaptchaError::InvalidSiteKey)));
    assert!(s.store.site_rates.windows.is_empty());
}

#[test]
fn an_origin_that_is_not_listed_is_refused_and_not_counted() {
    let mut s = state();
    s.store
        .update_site_origins(&SITE, vec!["https://shop.example".to_string()])
        .unwrap();
    let mut h = browser();
    h.insert("origin", HeaderValue::from_static("https://evil.example"));
    let r = get_puzzle_at(&mut s, peer(), &h, &params(), T0, 7, &[0; 16]);
    assert!(matches!(r, Err(CaptchaError::OriginNotAllowed)));
    h.insert("origin", HeaderValue::from_static("HTTPS://Shop.Example"));
    let a = get_puzzle_at(&mut s, peer(), &h, &params(), T0, 7, &[0; 16]).unwrap();
    assert_eq!(a.record.ip_count, 1);
    assert_eq!(a.record.site_count, 1);
    // No origin comes from the site's own pages.
    h.remove("origin");
    assert!(get_puzzle_at(&mut s, peer(), &h, &params(), T0, 8, &[0; 16]).is_ok());
    assert!(takes_origin(&Vec::new(), &bearer("x")));
}

#[test]
fn a_script_is_blocked() {
    let mut s = state_of(AppConfig {
        info_about_url: Some("https://about.example".to_string()),
        ..config()
    });
    s.risk.reputation = ReputationStore::new(
        CidrListReputation::parse("203.0.113.0/24 tor").unwrap(),
    );
    let a = ask(&mut s, &HeaderMap::new(), T0, 7);
    assert_eq!(a.record.outcome, "rejected");
    assert_eq!(a.record.difficulty, 0);
    assert_eq!(a.record.challenge_id, None);
    assert_eq!(a.record.ip_reputation_category, Some(IpCategory::Tor));
    assert!(!a.record.monitored);
    let body = blocked(a);
    assert_eq!(body.tier, EscalationTier::Block);
    assert_eq!(body.error, CaptchaError::RateLimited.message());
    assert_eq!(
        body.info_urls.unwrap().about.as_deref(),
        Some("https://about.example")
    );
    assert_eq!(s.store.challenge_count(), 0);
}

#[test]
fn a_monitored_site_issues_what_it_would_block() {
    let mut s = state();
    s.store
        .update_site_policy(
            &SITE,
            SitePolicy {
                mode: Some(SiteMode::Monitor),
                tier_checkbox_min: Some(1),
                tier_hard_pow_min: Some(2),
                tier_block_min: Some(3),
                ..SitePolicy::default()
            },
        )
        .unwrap();
    let a = ask(&mut s, &HeaderMap::new(), T0, 7);
    assert!(a.record.monitored);
    assert_eq!(a.record.tier, EscalationTier::Block);
    assert_eq!(a.record.outcome, "issued");
    let body = issued(a);
    assert_eq!(body.tier, EscalationTier::HardPow);
    assert_eq!(body.difficulty, 10);
}

#[test]
fn a_flooding_address_pays_the_highest_price() {
    let mut s = state_of(AppConfig {
        ip_hard_limit: 2,
        ..config()
    });
    for id in 0..2 {
        assert_eq!(issued(ask(&mut s, &browser(), T0, id)).difficulty, 5);
    }
    let third = issued(ask(&mut s, &browser(), T0, 3));
    assert_eq!(third.difficulty, 10);
    assert_eq!(third.tier, EscalationTier::HardPow);
    // A minute later it is a visitor like any other.
    assert_eq!(issued(ask(&mut s, &browser(), later(60), 4)).difficulty, 5);
}

#[test]
fn a_full_store_sheds_everybody_and_a_filling_one_the_flooder() {
    let mut s = state_of(AppConfig {
        ip_hard_limit: 3,
        max_active_challenges: 5,
        ..config()
    });
    for id in 0..3 {
        issued(ask(&mut s, &browser(), T0, id));
    }
    // Three of five: the flooder still gets a puzzle, and with four of five no more.
    issued(ask(&mut s, &browser(), T0, 3));
    assert_eq!(
        blocked(ask(&mut s, &browser(), T0, 4)).tier,
        EscalationTier::Block
    );
    let stranger = parse_ip("198.51.100.1").unwrap();
    let get = |s: &mut AppState, id: u128| {
        get_puzzle_at(s, stranger, &browser(), &params(), T0, id, &[0; 16]).unwrap()
    };
    issued(get(&mut s, 5));
    assert_eq!(s.store.challenge_count(), 5);
    blocked(get(&mut s, 6));
}

#[test]
fn a_busy_site_asks_more_of_everybody() {
    let mut s = state_of(AppConfig {
        load_ladder: LoadLadder::parse("2:8").unwrap(),
        ..config()
    });
    assert_eq!(issued(ask(&mut s, &browser(), T0, 1)).difficulty, 5);
    assert_eq!(issued(ask(&mut s, &browser(), T0, 2)).difficulty, 8);
}

#[test]
fn the_fingerprint_of_a_trusted_proxy_counts() {
    let mut s = state();
    s.tls_fingerprint_header = Some("X-JA4".to_string());
    s.trusted_proxies = TrustedProxies::parse("203.0.113.77/32").unwrap();
    s.risk.tls_blocklist = FingerprintBlocklist::parse("bad\"one").unwrap();
    let mut h = browser();
    h.insert("x-ja4", HeaderValue::from_static("bad\"one"));
    let a = ask(&mut s, &h, T0, 1);
    assert_eq!(a.record.breakdown.tls_fingerprint, FINGERPRINT_BAD_SCORE);
    assert_eq!(a.record.tls_fingerprint, "Provided(\"bad\\\"one\")");
    // Anybody else could have made it up.
    s.trusted_proxies = TrustedProxies::empty();
    let a = ask(&mut s, &h, T0, 2);
    assert_eq!(a.record.breakdown.tls_fingerprint, 0);
    assert_eq!(a.record.tls_fingerprint, "Skipped");
}

#[test]
fn a_renewal_keeps_the_first_arrival() {
    let mut s = state();
    ask(&mut s, &browser(), T0, 1);
    let renew = |s: &mut AppState, site_key: u128, of: u128, id: u128, now: Timestamp| {
        let p = GetPuzzleParams {
            site_key,
            refresh_of: Some(of),
        };
        get_puzzle_at(s, peer(), &browser(), &p, now, id, &[0; 16]).unwrap();
        s.store.get_challenge(&id).unwrap().dwell_since
    };
    assert_eq!(renew(&mut s, SITE, 1, 2, later(200)), T0);
    assert_eq!(renew(&mut s, SITE, 2, 3, later(400)), T0);
    // Neither another site's challenge nor an unknown one carries anything over.
    assert_eq!(renew(&mut s, OTHER, 1, 4, later(200)), later(200));
    assert_eq!(renew(&mut s, SITE, 77, 5, later(200)), later(200));
}

#[test]
fn two_requests_get_two_puzzles() {
    let mut s = state();
    let mut get = || issued(get_puzzle(&mut s, peer(), &browser(), &params()).unwrap().unwrap());
    let (a, b) = (get(), get());
    assert_ne!(a.challenge_id, b.challenge_id);
    assert_ne!(a.prefix, b.prefix);
    assert_eq!(a.prefix.len(), 32);
    assert_eq!(uuid::Uuid::from_u128(a.challenge_id).get_version_num(), 4);
}

#[test]
fn a_solution_passes_once() {
    let mut s = state();
    ask(&mut s, &browser(), T0, 7);
    let nonce = right_nonce(&s, 7);
    let a = submit(&mut s, solution(7, nonce), later(10)).unwrap();
    assert!(a.response.success);
    assert!(!a.response.failover);
    assert_eq!(a.record.outcome, "pass");
    assert_eq!(a.record.time_on_page_ms, Some(10_000));
    assert_eq!(a.record.webdriver, "no_blob");
    let again = submit(&mut s, solution(7, nonce), later(11));
    assert!(matches!(again, Err(CaptchaError::ChallengeNotFound)));
}

#[test]
fn of_two_submissions_at_once_one_passes() {
    let mut s = state();
    ask(&mut s, &browser(), T0, 7);
    let nonce = right_nonce(&s, 7);
    let a = pending(&mut s, solution(7, nonce), later(10));
    let b = pending(&mut s, solution(7, nonce), later(10));
    assert!(finish_verify_at(&mut s, &a, true, T0.secs).unwrap().response.success);
    let second = finish_verify_at(&mut s, &b, true, T0.secs);
    assert!(matches!(second, Err(CaptchaError::ChallengeNotFound)));
}

#[test]
fn a_wrong_solution_may_be_mended_until_the_attempts_are_used_up() {
    let mut s = state_of(AppConfig {
        verify_max_attempts: 2,
        ..config()
    });
    ask(&mut s, &browser(), T0, 7);
    let wrong = wrong_nonce(&s, 7);
    let a = submit(&mut s, solution(7, wrong), later(10)).unwrap();
    assert!(!a.response.success);
    assert_eq!(a.record.outcome, "pow_invalid");
    assert_eq!(a.record.webdriver, "n/a");
    assert_eq!(s.store.get_challenge(&7).unwrap().attempts, 1);
    submit(&mut s, solution(7, wrong), later(10)).unwrap();
    let gone = submit(&mut s, solution(7, wrong), later(10));
    assert!(matches!(gone, Err(CaptchaError::ChallengeNotFound)));
}

#[test]
fn a_submission_comes_with_the_secret_of_its_site() {
    let mut s = state();
    ask(&mut s, &browser(), T0, 7);
    let nonce = right_nonce(&s, 7);
    for h in [HeaderMap::new(), bearer("nobody"), bearer("elsewhere")] {
        let r = begin_verify_at(&mut s, &h, solution(7, nonce), later(1));
        assert!(matches!(r, Err(CaptchaError::Unauthorized)));
    }
    assert!(s.store.get_challenge(&7).is_some());
}

#[test]
fn an_expired_challenge_is_dropped() {
    let mut s = state();
    ask(&mut s, &browser(), T0, 7);
    let nonce = right_nonce(&s, 7);
    // Its last moment still counts.
    pending(&mut s, solution(7, nonce), later(300));
    let after = Timestamp::new(T0.secs + 300, 1);
    let r = submit(&mut s, solution(7, nonce), after);
    assert!(matches!(r, Err(CaptchaError::ChallengeExpired)));
    assert!(s.store.get_challenge(&7).is_none());
}

#[test]
fn a_right_solution_can_still_be_refused() {
    let mut s = state();
    for (id, monitor) in [(1, false), (2, true)] {
        if monitor {
            let policy = SitePolicy {
                mode: Some(SiteMode::Monitor),
                ..SitePolicy::default()
            };
            s.store.update_site_policy(&SITE, policy).unwrap();
        }
        ask(&mut s, &browser(), T0, id);
        let nonce = right_nonce(&s, id);
        let request = ResolvedVerify::Solved(SolvedVerify {
            challenge_id: id,
            nonce,
            honeypot: Some("filled in".to_string()),
            behavior: None,
        });
        let a = submit(&mut s, request, later(10)).unwrap();
        assert_eq!(a.response.success, monitor);
        assert_eq!(a.record.outcome, "block");
        assert_eq!(a.record.monitored, monitor);
        assert!(a.record.score >= 60);
    }
}

#[test]
fn the_same_report_again_and_again_is_held_against_it() {
    let mut s = state();
    let report = BehaviorReport {
        mouse_moves: 40,
        interactions: 3,
        first_interaction_ms: Some(900),
        webdriver: Some(false),
        automation: Some(false),
        headless: Some(false),
        ..BehaviorReport::default()
    };
    for id in 1..=5 {
        ask(&mut s, &browser(), T0, id);
        let nonce = right_nonce(&s, id);
        let request = ResolvedVerify::Solved(SolvedVerify {
            challenge_id: id,
            nonce,
            honeypot: None,
            behavior: Some(report),
        });
        let a = submit(&mut s, request, later(10)).unwrap();
        let expected = if id < 5 { 0 } else { BEHAVIOR_DUPLICATE_SCORE };
        assert_eq!(a.record.breakdown.behavior, expected, "{id}");
        assert_eq!(a.record.webdriver, "false");
    }
}

#[test]
fn a_quick_submission_is_scored_by_the_servers_clock() {
    let mut s = state();
    ask(&mut s, &browser(), T0, 7);
    let nonce = right_nonce(&s, 7);
    let soon = Timestamp::new(T0.secs, 400_000_000);
    let a = submit(&mut s, solution(7, nonce), soon).unwrap();
    assert_eq!(a.record.time_on_page_ms, Some(400));
    assert_eq!(a.record.breakdown.time_on_page, 50);
    assert_eq!(a.record.outcome, "shadow_fail");
    assert!(a.response.success);
}

#[test]
fn a_submission_is_answered_in_one_step_too() {
    let mut s = state();
    let body = issued(get_puzzle(&mut s, peer(), &browser(), &params()).unwrap().unwrap());
    let nonce = right_nonce(&s, body.challenge_id);
    match verify(&mut s, &bearer("secret"), solution(body.challenge_id, nonce)) {
        Some(Ok(VerifyReply::Solution(a))) => {
            assert_eq!(a.record.challenge_id, body.challenge_id);
            assert!(a.response.success);
        }
        other => panic!("{other:?}"),
    }
    let again = verify(&mut s, &bearer("secret"), solution(body.challenge_id, nonce));
    assert!(matches!(again, Some(Err(CaptchaError::ChallengeNotFound))));
}

fn claim(site_key: u128, honeypot: Option<String>) -> FailoverClaim {
    FailoverClaim {
        site_key,
        issued_at_ms: T0.secs * 1000,
        honeypot,
        behavior: None,
    }
}

#[test]
fn a_claim_is_accepted_during_a_known_outage_only() {
    let mut s = state();
    let answer = |s: &mut AppState| {
        match begin_verify_at(
            s,
            &bearer("secret"),
            ResolvedVerify::Failover(claim(SITE, None)),
            T0,
        ) {
            Ok(VerifyStep::Answered(a)) => a,
            other => panic!("{other:?}"),
        }
    };
    let refused = answer(&mut s);
    assert!(!refused.response.success && !refused.response.failover);
    assert_eq!(refused.outcome, "failover_unattested");
    s.failover.declare_outage_at(later(-60), T0, T0);
    let accepted = answer(&mut s);
    assert!(accepted.response.success && accepted.response.failover);
    assert_eq!(accepted.outcome, "failover_pass");
    assert_eq!(s.failover.counters(), (1, 1));
}

#[test]
fn a_claim_that_looks_automated_is_refused() {
    let mut s = state();
    s.failover.declare_outage_at(later(-60), T0, T0);
    for (mode, success) in [(SiteMode::Enforce, false), (SiteMode::Monitor, true)] {
        let policy = SitePolicy {
            mode: Some(mode),
            ..SitePolicy::default()
        }
        .resolve(&s.config);
        let c = claim(SITE, Some("x".to_string()));
        let a = verify_failover_at(&mut s, &SITE, &policy, c, T0).unwrap();
        assert_eq!(a.response.success, success);
        assert_eq!(a.outcome, "failover_behavior_block");
        assert_eq!(a.monitored, success);
    }
}

#[test]
fn a_claim_is_for_the_site_that_makes_it() {
    let mut s = state();
    let policy = SitePolicy::default().resolve(&s.config);
    let r = verify_failover_at(&mut s, &SITE, &policy, claim(OTHER, None), T0);
    assert!(matches!(r, Err(CaptchaError::Unauthorized)));
    assert_eq!(s.failover.counters(), (0, 0));
}

#[test]
fn the_operator_is_known_by_a_token() {
    let mut s = state();
    assert!(require_admin_token(&s, &bearer("operator")).is_ok());
    for h in [HeaderMap::new(), bearer("operator "), bearer("operatoR"), bearer("op")] {
        let r = require_admin_token(&s, &h);
        assert!(matches!(r, Err(CaptchaError::Unauthorized)));
    }
    s.admin_token = None;
    let r = require_admin_token(&s, &bearer("operator"));
    assert!(matches!(r, Err(CaptchaError::NotFound)));
    s.config.dev_disable_admin_auth = true;
    assert!(require_admin_token(&s, &HeaderMap::new()).is_err());
    s.debug_build = true;
    assert!(require_admin_token(&s, &HeaderMap::new()).is_ok());
}

fn outage(duration_secs: Option<u64>, start: Option<i64>, end: Option<i64>) -> DeclareOutageRequest {
    DeclareOutageRequest {
        duration_secs,
        start: start.map(later),
        end: end.map(later),
    }
}

#[test]
fn outages_are_noted_by_their_length_or_their_ends() {
    let mut s = state();
    let h = bearer("operator");
    let r = declare_outage_at(&mut s, &h, &outage(Some(120), None, None), T0).unwrap();
    assert!(r.enabled);
    assert_eq!(r.grace_secs, 300);
    assert_eq!(r.windows.len(), 1);
    assert_eq!((r.windows[0].start, r.windows[0].end), (later(-120), T0));
    let r = declare_outage_at(&mut s, &h, &outage(None, Some(-500), Some(86_400 - 500)), T0);
    assert_eq!(r.unwrap().windows.len(), 2);
    assert_eq!(list_outages_at(&s, &h, T0).unwrap().windows.len(), 2);
    assert_eq!(list_outages_at(&s, &h, later(10_000)).unwrap().windows.len(), 1);
    assert!(matches!(
        list_outages(&s, &HeaderMap::new()),
        Err(CaptchaError::Unauthorized)
    ));
    assert!(list_outages(&s, &h).unwrap().windows.is_empty());
}

#[test]
fn what_is_no_outage_is_refused() {
    let mut s = state();
    let h = bearer("operator");
    let cases = [
        (outage(Some(0), None, None), "duration_secs must be 1..=86400"),
        (outage(Some(86_401), None, None), "duration_secs must be 1..=86400"),
        (
            outage(None, Some(0), None),
            "provide either duration_secs, or both start and end",
        ),
        (
            outage(None, None, None),
            "provide either duration_secs, or both start and end",
        ),
        (outage(None, Some(5), Some(5)), "end must be after start"),
        (
            outage(None, Some(0), Some(86_401)),
            "declared window may not exceed 86400s",
        ),
    ];
    for (body, message) in cases {
        match declare_outage_at(&mut s, &h, &body, T0) {
            Err(CaptchaError::BadRequest(m)) => assert_eq!(m, message),
            other => panic!("{other:?}"),
        }
    }
    assert!(matches!(
        declare_outage(&mut s, &HeaderMap::new(), &outage(Some(1), None, None)),
        Err(CaptchaError::Unauthorized)
    ));
    assert!(declare_outage(&mut s, &h, &outage(Some(1), None, None)).is_ok());
    s.failover = FailoverGuard::disabled();
    match declare_outage_at(&mut s, &h, &outage(Some(1), None, None), T0) {
        Err(CaptchaError::BadRequest(m)) => assert!(m.starts_with("client failover is disabled")),
        other => panic!("{other:?}"),
    }
}

fn new_site() -> CreateSiteRequest {
    CreateSiteRequest {
        name: "  Shop ".to_string(),
        allowed_origins: vec!["https://Shop.Example".to_string()],
        policy: SitePolicy::default(),
    }
}

#[test]
fn a_site_is_registered_with_a_secret_of_its_own() {
    let mut s = state();
    let h = bearer("operator");
    let told = create_site(&mut s, &h, &new_site()).unwrap();
    assert_eq!(told.secret_key.len(), 64);
    assert_eq!(told.allowed_origins, vec!["https://shop.example"]);
    let kept = s.store.get_site_by_secret(&told.secret_key).unwrap();
    assert_eq!(kept.site_key, told.site_key);
    assert_eq!(kept.name, "Shop");
    let again = create_site(&mut s, &h, &new_site()).unwrap();
    assert_ne!(again.secret_key, told.secret_key);
    assert_eq!(s.store.site_count(), 4);
    assert_eq!(uuid::Uuid::from_u128(told.site_key).get_version_num(), 4);
}

#[test]
fn a_site_is_prepared_from_what_is_given() {
    let s = state();
    let site = prepare_site_at(&s, &bearer("operator"), &new_site(), T0, 5, &[1, 0xff]).unwrap();
    assert_eq!(site.secret_key, "01ff");
    assert_eq!(site.site_key, 5);
    assert_eq!(site.created_at, T0);
    assert!(matches!(
        prepare_site(&s, &HeaderMap::new(), &new_site()),
        Err(CaptchaError::Unauthorized)
    ));
}

#[test]
fn a_site_that_cannot_be_is_not_registered() {
    let s = state();
    let refused = |body: CreateSiteRequest| match prepare_site(&s, &bearer("operator"), &body) {
        Err(CaptchaError::BadRequest(m)) => m,
        other => panic!("{other:?}"),
    };
    let mut body = new_site();
    body.name = " ".to_string();
    assert!(!refused(body).is_empty());
    let mut body = new_site();
    body.allowed_origins = vec!["nonsense".to_string()];
    assert!(refused(body).contains("nonsense"));
    let mut body = new_site();
    body.policy.default_difficulty = Some(0);
    assert!(!refused(body).is_empty());
}

#[test]
fn settings_become_state() {
    let c = AppConfig {
        info_about_url: Some("a".to_string()),
        info_privacy_url: Some("p".to_string()),
        admin_token: Some(String::new()),
        ..config()
    };
    let urls = info_urls_from_config(&c).unwrap();
    assert_eq!(urls.about.as_deref(), Some("a"));
    assert_eq!(urls.missing(), vec!["INFO_TERMS_URL"]);
    assert!(InfoUrls::default().is_empty());
    assert!(info_urls_from_config(&config()).is_none());
    assert_eq!(admin_token_from_config(&config()).as_deref(), Some("operator"));
    let tiers = tier_thresholds_from_config(&c);
    assert_eq!((tiers.checkbox, tiers.hard_pow, tiers.block), (20, 40, 85));
    let v = verify_thresholds_from_config(&c);
    assert_eq!((v.shadow_min, v.block_min), (30, 60));
    assert_eq!(verify_permits(Some(4)), 8);
    assert_eq!(verify_permits(None), 2);
}

#[test]
fn decisions_compose() {
    let s = state();
    let policy = SitePolicy::default().resolve(&s.config);
    let d = decide(EscalationTier::Checkbox, 1, 0, 0, 0, 99, &policy);
    // A floor never goes beyond the highest difficulty.
    assert_eq!(d.difficulty, Some(10));
    assert!(!d.hard_capped && !d.over_capacity && !d.shed_flooder);
    // Without a limit nothing is counted against an address, nor against the store.
    let d = decide(EscalationTier::InvisiblePass, u32::MAX, 0, usize::MAX, 0, 0, &policy);
    assert_eq!(d.difficulty, Some(5));
    let d = decide(EscalationTier::InvisiblePass, 2, 1, 80, 100, 0, &policy);
    assert!(d.shed_flooder && d.hard_capped && !d.over_capacity);
    assert_eq!(d.difficulty, None);
    // What sheds load is not lifted by monitoring.
    let monitor = SitePolicy {
        mode: Some(SiteMode::Monitor),
        ..SitePolicy::default()
    }
    .resolve(&s.config);
    let d = decide(EscalationTier::InvisiblePass, 1, 0, 100, 100, 0, &monitor);
    assert_eq!(d.enforced_tier, EscalationTier::Block);
    assert!(!d.monitored_block);
    let d = decide(EscalationTier::Block, 1, 0, 0, 100, 0, &monitor);
    assert_eq!(d.enforced_tier, EscalationTier::HardPow);
    assert_eq!(d.difficulty, Some(10));
}

fn started(config: AppConfig, weights: SignalWeights) -> AppState {
    AppState::start_at(
        config,
        InMemoryStore::with_sites(vec![site(SITE, "secret")]),
        ReputationStore::empty(),
        FingerprintBlocklist::empty(),
        TrustedProxies::empty(),
        weights,
        FailoverState::default(),
        false,
        T0,
    )
}

#[test]
fn a_service_links_to_pages_that_are_set() {
    assert!(started(config(), SignalWeights::default()).info_urls.is_none());
    let mut set = config();
    set.info_terms_url = Some("https://terms.example".to_string());
    let links = started(set, SignalWeights::default()).info_urls.unwrap();
    assert_eq!(links.terms.as_deref(), Some("https://terms.example"));
    assert!(links.about.is_none() && links.privacy.is_none());
}

#[test]
fn a_service_starts_with_any_weights() {
    let mut weights = SignalWeights::default();
    weights.ua_missing = u32::MAX;
    weights.accept_language_missing = 7;
    weights.ip_tor = u32::MAX;
    let mut s = started(config(), weights);
    // A request without headers would score more than 32 bits hold.
    let a = ask(&mut s, &HeaderMap::new(), T0, 1);
    assert_eq!(a.record.score, u32::MAX);
    assert_eq!(a.record.tier, EscalationTier::Block);
    // A clean one scores nothing.
    let a = ask(&mut s, &browser(), T0, 2);
    assert_eq!(a.record.score, 0);
}

#[test]
fn a_challenge_expires_within_the_calendar() {
    let last = Timestamp::new(MAX_SECS, 0);
    let mut s = state();
    issued(ask(&mut s, &browser(), last, 9));
    assert_eq!(s.store.get_challenge(&9).unwrap().expires_at, last);
}

#[test]
fn changes_to_one_site_leave_the_other_sites_alone() {
    let mut s = state();
    issued(ask(&mut s, &browser(), T0, 9));
    let mut h = HeaderMap::new();
    h.insert("authorization", HeaderValue::from_static("Bearer operator"));
    let body = CreateSiteRequest {
        name: "third".to_string(),
        allowed_origins: Vec::new(),
        policy: SitePolicy::default(),
    };
    let told = create_site(&mut s, &h, &body).unwrap();
    assert!(s.store.get_challenge(&9).is_some());
    assert_eq!(s.store.get_site_by_secret("elsewhere").unwrap().site_key, OTHER);

    rotate_site_with(&mut s.store, &uuid_text(SITE), &[7; 32]).unwrap();
    assert!(s.store.get_site_by_secret("secret").is_none());
    assert_eq!(s.store.get_site_by_secret(&"07".repeat(32)).unwrap().site_key, SITE);
    assert_eq!(s.store.get_site_by_secret("elsewhere").unwrap().site_key, OTHER);

    delete_site(&mut s.store, &uuid_text(SITE)).unwrap();
    assert!(s.store.get_site_by_secret(&"07".repeat(32)).is_none());
    assert_eq!(s.store.get_site_by_secret("elsewhere").unwrap().site_key, OTHER);
    assert_eq!(
        s.store.get_site_by_secret(&told.secret_key).unwrap().site_key,
        told.site_key
    );
    assert!(delete_site(&mut s.store, &uuid_text(SITE)).is_err());
    assert_eq!(s.store.get_site_by_secret("elsewhere").unwrap().site_key, OTHER);
}
