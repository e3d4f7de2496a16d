use axum::http::{HeaderMap, HeaderValue};
use bollwark::net::parse_ip;
use bollwark::risk::reputation::{CidrListReputation, ReputationStore};
use bollwark::risk::score::{RiskScorer, SignalContext};
use bollwark::risk::tier::{EscalationTier, TierThresholds};
use bollwark::risk::tls_fingerprint::{FingerprintBlocklist, TlsFingerprint};

fn scorer() -> RiskScorer {
    RiskScorer::new(
        TierThresholds::default(),
        ReputationStore::empty(),
        FingerprintBlocklist::empty(),
    )
}

fn scorer_with_reputation(content: &str) -> RiskScorer {
    RiskScorer::new(
        TierThresholds::default(),
        ReputationStore::new(CidrListReputation::parse(content).unwrap()),
        FingerprintBlocklist::empty(),
    )
}

fn scorer_with_tls_blocklist(content: &str) -> RiskScorer {
    RiskScorer::new(
        TierThresholds::default(),
        ReputationStore::empty(),
        FingerprintBlocklist::parse(content).unwrap(),
    )
}

fn clean_headers() -> HeaderMap {
    let mut h = HeaderMap::new();
    h.insert(
        "user-agent",
        HeaderValue::from_static(
            "Mozilla/5.0 (Macintosh; Intel Mac OS X 14_0) AppleWebKit/605.1.15",
        ),
    );
    h.insert("accept-language", HeaderValue::from_static("en-US,en;q=0.9"));
    h.insert("accept-encoding", HeaderValue::from_static("gzip, deflate, br"));
    // What every browser attaches on its own.
    h.insert("sec-fetch-mode", HeaderValue::from_static("cors"));
    h
}

fn ctx<'a>(
    headers: &'a HeaderMap,
    ip: &str,
    ip_count: u32,
    site_count: u32,
) -> SignalContext<'a> {
    SignalContext {
        ip: parse_ip(ip).unwrap(),
        headers,
        ip_count,
        ip_count_sustained: 0,
        site_count,
        tls_fingerprint: TlsFingerprint::Skipped,
    }
}

#[test]
fn clean_request_yields_invisible_pass() {
    let headers = clean_headers();
    let result = scorer().score(&ctx(&headers, "127.0.0.1", 1, 1));
    assert_eq!(result.total, 0);
    assert_eq!(result.tier, EscalationTier::InvisiblePass);
}

#[test]
fn high_rate_alone_reaches_hard_pow() {
    let headers = clean_headers();
    let result = scorer().score(&ctx(&headers, "127.0.0.1", 55, 600));
    assert_eq!(result.breakdown.rate, 45);
    assert_eq!(result.tier, EscalationTier::HardPow);
}

#[test]
fn missing_ua_alone_reaches_checkbox() {
    let mut headers = clean_headers();
    headers.remove("user-agent");
    let result = scorer().score(&ctx(&headers, "127.0.0.1", 1, 1));
    assert_eq!(result.breakdown.header_anomaly, 30);
    assert_eq!(result.tier, EscalationTier::Checkbox);
}

#[test]
fn suspicious_ua_plus_very_high_rate_blocks() {
    let mut headers = clean_headers();
    headers.insert("user-agent", HeaderValue::from_static("curl/8.0"));
    headers.remove("accept-language");
    headers.remove("accept-encoding");
    let result = scorer().score(&ctx(&headers, "127.0.0.1", 55, 600));
    assert_eq!(result.total, 90);
    assert_eq!(result.tier, EscalationTier::Block);
}

#[test]
fn datacenter_ip_alone_reaches_hard_pow() {
    // 30 and nothing else: above the checkbox threshold, below that of the hard puzzle.
    let headers = clean_headers();
    let s = scorer_with_reputation("10.0.0.0/8 datacenter\n");
    let result = s.score(&ctx(&headers, "10.5.6.7", 1, 1));
    assert_eq!(result.breakdown.ip_reputation, 30);
    assert_eq!(result.tier, EscalationTier::Checkbox);
}

#[test]
fn tor_ip_alone_reaches_hard_pow() {
    // Tor = 40 → HardPow exactly at threshold
    let headers = clean_headers();
    let s = scorer_with_reputation("198.51.100.0/24 tor\n");
    let result = s.score(&ctx(&headers, "198.51.100.42", 1, 1));
    assert_eq!(result.breakdown.ip_reputation, 40);
    assert_eq!(result.tier, EscalationTier::HardPow);
}

#[test]
fn known_bad_tls_fingerprint_adds_score() {
    let headers = clean_headers();
    let s = scorer_with_tls_blocklist("badfp\n");
    let mut c = ctx(&headers, "127.0.0.1", 1, 1);
    c.tls_fingerprint = TlsFingerprint::Provided("badfp");
    let result = s.score(&c);
    assert_eq!(result.breakdown.tls_fingerprint, 35);
}

#[test]
fn unknown_tls_fingerprint_adds_zero() {
    let headers = clean_headers();
    let s = scorer_with_tls_blocklist("badfp\n");
    let mut c = ctx(&headers, "127.0.0.1", 1, 1);
    c.tls_fingerprint = TlsFingerprint::Provided("legit-chrome-fp");
    let result = s.score(&c);
    assert_eq!(result.breakdown.tls_fingerprint, 0);
}

#[test]
fn rates_alone_give_puzzles_and_no_refusal() {
    let headers = clean_headers();
    let mut c = ctx(&headers, "127.0.0.1", u32::MAX, u32::MAX);
    c.ip_count_sustained = u32::MAX;
    let result = scorer().score(&c);
    assert_eq!(result.total, 45);
    assert_eq!(result.tier, EscalationTier::HardPow);
}

#[test]
fn the_lowest_bands_cost_the_visitor_nothing() {
    let headers = clean_headers();
    let mut c = ctx(&headers, "127.0.0.1", 20, 500);
    c.ip_count_sustained = 180;
    let result = scorer().score(&c);
    assert_eq!(result.total, 16);
    assert_eq!(result.tier, EscalationTier::InvisiblePass);
}

#[test]
fn missing_fetch_metadata_cost_the_visitor_nothing() {
    let mut headers = clean_headers();
    headers.remove("sec-fetch-mode");
    let result = scorer().score(&ctx(&headers, "127.0.0.1", 1, 1));
    assert_eq!(result.total, 15);
    assert_eq!(result.tier, EscalationTier::InvisiblePass);
}
