use bollwark::net::{parse_ip, IpAddr};
use bollwark::risk::tls_fingerprint::{FINGERPRINT_BAD_SCORE, FingerprintBlocklist, TlsFingerprint, TrustedProxies, score_tls_fingerprint};

fn ip(s: &str) -> IpAddr {
    parse_ip(s).unwrap()
}

#[test]
fn trusted_proxies_parses_comma_list() {
    let p = TrustedProxies::parse("10.0.0.0/8, 192.168.0.0/16").unwrap();
    assert_eq!(p.len(), 2);
    assert!(p.contains(ip("10.5.6.7")));
    assert!(p.contains(ip("192.168.1.1")));
    assert!(!p.contains(ip("8.8.8.8")));
}

#[test]
fn trusted_proxies_parses_whitespace_list() {
    let p = TrustedProxies::parse("10.0.0.0/8\n192.168.0.0/16").unwrap();
    assert_eq!(p.len(), 2);
}

#[test]
fn trusted_proxies_empty_input_is_empty() {
    let p = TrustedProxies::parse("").unwrap();
    assert!(p.is_empty());
}

#[test]
fn trusted_proxies_rejects_bad_cidr() {
    assert!(TrustedProxies::parse("nope").is_err());
}

#[test]
fn blocklist_parses_lines() {
    let content = "\
        # known-bad fingerprints\n\
        t13d1715h2_5b57614c22b0_5c2c66f702b6\n\
        \n\
        t13d301100_286b2c61aa14_e74b73c89e6c # python-requests\n\
    ";
    let bl = FingerprintBlocklist::parse(content).unwrap();
    assert_eq!(bl.len(), 2);
    assert!(bl.contains("t13d1715h2_5b57614c22b0_5c2c66f702b6"));
    assert!(bl.contains("t13d301100_286b2c61aa14_e74b73c89e6c"));
    assert!(!bl.contains("unknown"));
}

#[test]
fn skipped_scores_zero() {
    let bl = FingerprintBlocklist::empty();
    assert_eq!(score_tls_fingerprint(TlsFingerprint::Skipped, &bl), 0);
}

#[test]
fn unmatched_scores_zero() {
    let bl = FingerprintBlocklist::parse("known\n").unwrap();
    assert_eq!(
        score_tls_fingerprint(TlsFingerprint::Provided("benign-chrome"), &bl),
        0
    );
}

#[test]
fn matched_scores_bad() {
    let bl = FingerprintBlocklist::parse("badfp\n").unwrap();
    assert_eq!(
        score_tls_fingerprint(TlsFingerprint::Provided("badfp"), &bl),
        FINGERPRINT_BAD_SCORE
    );
}
