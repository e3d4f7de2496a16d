use axum::http::{HeaderMap, HeaderValue};
use bollwark::risk::signals::{ACCEPT_ENCODING_MISSING_SCORE, ACCEPT_LANGUAGE_MISSING_SCORE, CLIENT_HINTS_MISSING_SCORE, RATE_IP_SCORE_ELEVATED, RATE_IP_SCORE_HIGH, RATE_IP_SCORE_VERY_HIGH, RATE_IP_SUSTAINED_ELEVATED, RATE_SITE_SCORE_VERY_HIGH, SEC_FETCH_MISSING_SCORE, UA_MISSING_SCORE, UA_SUSPICIOUS_SCORE, score_header_anomaly, score_rate};

// --- Rates ---

#[test]
fn rate_zero_yields_zero() {
    assert_eq!(score_rate(0, 0, 0), 0);
}

#[test]
fn rate_very_high_ip_only() {
    // 55 > 50 → 30
    assert_eq!(score_rate(55, 0, 0), RATE_IP_SCORE_VERY_HIGH);
}

#[test]
fn rate_moderate_ip() {
    // 25 > 20 → 15
    assert_eq!(score_rate(25, 0, 0), RATE_IP_SCORE_HIGH);
}

#[test]
fn rate_elevated_ip() {
    // 15 > 10 → 8
    assert_eq!(score_rate(15, 0, 0), RATE_IP_SCORE_ELEVATED);
}

#[test]
fn rate_very_high_site_only() {
    assert_eq!(score_rate(0, 0, 600), RATE_SITE_SCORE_VERY_HIGH);
}

#[test]
fn rate_combined() {
    // 30 + 15 = 45
    assert_eq!(
        score_rate(55, 0, 600),
        RATE_IP_SCORE_VERY_HIGH + RATE_SITE_SCORE_VERY_HIGH
    );
}

// --- Sustained (15 min) window ---

#[test]
fn rate_sustained_at_threshold_is_zero() {
    assert_eq!(score_rate(9, RATE_IP_SUSTAINED_ELEVATED, 0), 0);
}

#[test]
fn rate_sustained_bands_fire_while_the_minute_is_quiet() {
    // 9/min never trips the 60 s window; held for 15 min it walks the bands.
    assert_eq!(score_rate(9, 91, 0), RATE_IP_SCORE_ELEVATED);
    assert_eq!(score_rate(9, 181, 0), RATE_IP_SCORE_HIGH);
    assert_eq!(score_rate(9, 451, 0), RATE_IP_SCORE_VERY_HIGH);
}

#[test]
fn rate_windows_take_the_worse_band_not_the_sum() {
    // Both windows very high: still 30, the ceiling is unchanged.
    assert_eq!(score_rate(55, 500, 0), RATE_IP_SCORE_VERY_HIGH);
    // Minute high beats sustained elevated.
    assert_eq!(score_rate(25, 91, 0), RATE_IP_SCORE_HIGH);
    // Sustained high beats minute elevated.
    assert_eq!(score_rate(15, 181, 0), RATE_IP_SCORE_HIGH);
}

#[test]
fn rate_sustained_stacks_with_site_like_the_minute_window() {
    assert_eq!(
        score_rate(9, 451, 600),
        RATE_IP_SCORE_VERY_HIGH + RATE_SITE_SCORE_VERY_HIGH
    );
}

// --- Headers ---

fn headers_browser_like() -> HeaderMap {
    let mut h = HeaderMap::new();
    h.insert(
        "user-agent",
        HeaderValue::from_static(
            "Mozilla/5.0 (Macintosh; Intel Mac OS X 14_0) AppleWebKit/605.1.15",
        ),
    );
    h.insert("accept-language", HeaderValue::from_static("en-US,en;q=0.9"));
    h.insert("accept-encoding", HeaderValue::from_static("gzip, deflate, br"));
    // What a browser's `fetch()` attaches on its own.
    h.insert("sec-fetch-mode", HeaderValue::from_static("cors"));
    h.insert("sec-fetch-site", HeaderValue::from_static("cross-site"));
    h.insert("sec-fetch-dest", HeaderValue::from_static("empty"));
    h
}

const CHROME_UA: &str = "Mozilla/5.0 (Windows NT 10.0; Win64; x64) AppleWebKit/537.36 \
                         (KHTML, like Gecko) Chrome/128.0.0.0 Safari/537.36";

fn headers_chrome_like() -> HeaderMap {
    let mut h = headers_browser_like();
    h.insert("user-agent", HeaderValue::from_str(CHROME_UA).unwrap());
    h.insert(
        "sec-ch-ua",
        HeaderValue::from_static(
            r#""Chromium";v="128", "Not;A=Brand";v="24", "Google Chrome";v="128""#,
        ),
    );
    h
}

fn strip_fetch_metadata(h: &mut HeaderMap) {
    for name in ["sec-fetch-mode", "sec-fetch-site", "sec-fetch-dest"] {
        h.remove(name);
    }
}

#[test]
fn clean_browser_headers_score_zero() {
    assert_eq!(score_header_anomaly(&headers_browser_like()), 0);
}

#[test]
fn clean_chrome_headers_score_zero() {
    assert_eq!(score_header_anomaly(&headers_chrome_like()), 0);
}

#[test]
fn browser_ua_without_fetch_metadata_scores() {
    let mut h = headers_browser_like();
    strip_fetch_metadata(&mut h);
    assert_eq!(score_header_anomaly(&h), SEC_FETCH_MISSING_SCORE);
}

#[test]
fn one_fetch_metadata_header_counts_as_present() {
    let mut h = headers_browser_like();
    h.remove("sec-fetch-mode");
    h.remove("sec-fetch-dest");
    assert_eq!(score_header_anomaly(&h), 0);
}

#[test]
fn chrome_ua_without_client_hints_scores() {
    let mut h = headers_chrome_like();
    h.remove("sec-ch-ua");
    assert_eq!(score_header_anomaly(&h), CLIENT_HINTS_MISSING_SCORE);
}

#[test]
fn webkit_ua_without_client_hints_is_clean() {
    // `headers_browser_like` is Safari-shaped; WebKit never sends UA-CH.
    let h = headers_browser_like();
    assert!(!h.contains_key("sec-ch-ua"));
    assert_eq!(score_header_anomaly(&h), 0);
}

#[test]
fn http_library_with_copied_chrome_ua_scores_like_a_missing_ua() {
    let mut h = headers_chrome_like();
    strip_fetch_metadata(&mut h);
    h.remove("sec-ch-ua");
    assert_eq!(
        score_header_anomaly(&h),
        SEC_FETCH_MISSING_SCORE + CLIENT_HINTS_MISSING_SCORE
    );
    assert_eq!(score_header_anomaly(&h), UA_MISSING_SCORE);
}

#[test]
fn non_browser_ua_without_fetch_metadata_is_not_impersonation() {
    // An honest server-side client claims neither Mozilla nor Chromium.
    let mut h = headers_browser_like();
    strip_fetch_metadata(&mut h);
    h.insert("user-agent", HeaderValue::from_static("AcmeFormsBackend/2.0"));
    assert_eq!(score_header_anomaly(&h), 0);
}

#[test]
fn missing_user_agent_scores() {
    let mut h = headers_browser_like();
    h.remove("user-agent");
    assert_eq!(score_header_anomaly(&h), UA_MISSING_SCORE);
}

#[test]
fn suspicious_user_agent_scores() {
    let mut h = headers_browser_like();
    h.insert("user-agent", HeaderValue::from_static("curl/8.0.1"));
    assert_eq!(score_header_anomaly(&h), UA_SUSPICIOUS_SCORE);
}

#[test]
fn short_user_agent_scores() {
    let mut h = headers_browser_like();
    h.insert("user-agent", HeaderValue::from_static("UA/1"));
    assert_eq!(score_header_anomaly(&h), UA_SUSPICIOUS_SCORE);
}

#[test]
fn python_user_agent_scores() {
    let mut h = headers_browser_like();
    h.insert("user-agent", HeaderValue::from_static("python-requests/2.31.0"));
    assert_eq!(score_header_anomaly(&h), UA_SUSPICIOUS_SCORE);
}

#[test]
fn missing_accept_language_scores() {
    let mut h = headers_browser_like();
    h.remove("accept-language");
    assert_eq!(score_header_anomaly(&h), ACCEPT_LANGUAGE_MISSING_SCORE);
}

#[test]
fn missing_accept_encoding_scores() {
    let mut h = headers_browser_like();
    h.remove("accept-encoding");
    assert_eq!(score_header_anomaly(&h), ACCEPT_ENCODING_MISSING_SCORE);
}

#[test]
fn all_anomalies_additive() {
    let h = HeaderMap::new();
    assert_eq!(
        score_header_anomaly(&h),
        UA_MISSING_SCORE + ACCEPT_LANGUAGE_MISSING_SCORE + ACCEPT_ENCODING_MISSING_SCORE
    );
}
