use axum::http::HeaderMap;
use bollwark::risk::behavior::{self, BehaviorPresence, BehaviorReport};
use bollwark::risk::reputation::{self, IpCategory};
use bollwark::risk::signals;
use bollwark::risk::tls_fingerprint::{self, FingerprintBlocklist, TlsFingerprint};
use bollwark::risk::verify;
use bollwark::risk::weights::SignalWeights;

#[test]
fn defaults_are_the_constants() {
    let d = SignalWeights::default();
    assert_eq!(d.ua_missing, signals::UA_MISSING_SCORE);
    assert_eq!(d.ip_tor, reputation::SCORE_TOR);
    assert_eq!(d.behavior_duplicate, behavior::BEHAVIOR_DUPLICATE_SCORE);
    assert!(d.overrides().is_empty());
    assert_eq!(SignalWeights::names().len(), 27);
}

#[test]
fn parse_overrides_a_subset_and_keeps_the_rest() {
    let w = SignalWeights::parse(r#"{ "UA_MISSING_SCORE": 5, "SCORE_TOR": 99 }"#).unwrap();
    assert_eq!(w.ua_missing, 5);
    assert_eq!(w.ip_tor, 99);
    assert_eq!(w.ua_suspicious, signals::UA_SUSPICIOUS_SCORE);
    assert_eq!(
        w.overrides(),
        vec![
            ("UA_MISSING_SCORE", signals::UA_MISSING_SCORE, 5),
            ("SCORE_TOR", reputation::SCORE_TOR, 99),
        ]
    );
    assert_eq!(
        SignalWeights::parse("{}").unwrap(),
        SignalWeights::default()
    );
}

#[test]
fn parse_refuses_unknown_names_and_non_integers() {
    let err = SignalWeights::parse(r#"{ "UA_MISING_SCORE": 5 }"#).unwrap_err();
    assert!(err.contains("unknown weight"), "{err}");
    for bad in [
        r#"{ "UA_MISSING_SCORE": -1 }"#,
        r#"{ "UA_MISSING_SCORE": 1.5 }"#,
        r#"{ "UA_MISSING_SCORE": "30" }"#,
        r#"{ "UA_MISSING_SCORE": 4294967296 }"#,
        "[]",
    ] {
        assert!(SignalWeights::parse(bad).is_err(), "{bad}");
    }
}

/// The plumbing: every scorer reads the table it is handed.
#[test]
fn scorers_read_the_weights_they_are_given() {
    let mut w = SignalWeights::default();
    w.ua_missing = 7;
    w.rate_ip_elevated = 3;
    w.ip_tor = 11;
    w.tls_fingerprint_bad = 13;
    w.time_very_short = 17;
    w.remote_ip_mismatch = 19;
    w.behavior_flatline = 23;

    assert_eq!(
        signals::score_header_anomaly_with(&w, &HeaderMap::new()),
        7 + signals::ACCEPT_LANGUAGE_MISSING_SCORE + signals::ACCEPT_ENCODING_MISSING_SCORE
    );
    assert_eq!(signals::score_rate_with(&w, 15, 0, 0), 3);
    assert_eq!(
        reputation::score_ip_reputation_with(&w, Some(IpCategory::Tor)),
        11
    );
    let list = FingerprintBlocklist::parse("bad\n").unwrap();
    assert_eq!(
        tls_fingerprint::score_tls_fingerprint_with(&w, TlsFingerprint::Provided("bad"), &list),
        13
    );
    assert_eq!(verify::score_time_on_page_with(&w, Some(100)), 17);
    assert_eq!(verify::score_remote_ip_with(&w, true), 19);
    assert_eq!(
        behavior::score_behavior_with(&w, BehaviorPresence::Present(BehaviorReport::default())),
        23
    );
    // And the plain forms are the defaults, since nothing was installed.
    assert_eq!(
        verify::score_remote_ip(true),
        verify::REMOTE_IP_MISMATCH_SCORE
    );
}

#[test]
fn a_score_has_a_highest_value() {
    let mut w = SignalWeights::default();
    w.rate_ip_very_high = u32::MAX;
    w.behavior_flatline = u32::MAX - 10;
    w.behavior_automation = 11;
    // 51 requests of an address, 501 of the site.
    assert_eq!(signals::score_rate_with(&w, 51, 0, 501), u32::MAX);
    let mut report = BehaviorReport::default();
    assert_eq!(
        behavior::score_behavior_with(&w, BehaviorPresence::Present(report)),
        u32::MAX - 10
    );
    report.webdriver = Some(true);
    assert_eq!(behavior::score_behavior_with(&w, BehaviorPresence::Present(report)), u32::MAX);
}
