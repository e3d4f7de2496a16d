use axum::http::{HeaderMap, HeaderValue};
use bollwark::net::{parse_ip, IpAddr};
use bollwark::risk::client_ip::{anonymize_ip, client_ip, rate_key};
use bollwark::risk::tls_fingerprint::{TrustedProxies};

fn ip(s: &str) -> IpAddr {
    parse_ip(s).unwrap()
}

fn headers_with_xff(value: &str) -> HeaderMap {
    let mut h = HeaderMap::new();
    h.insert("x-forwarded-for", HeaderValue::from_str(value).unwrap());
    h
}

#[test]
fn no_trusted_proxies_returns_peer() {
    let trusted = TrustedProxies::empty();
    let h = headers_with_xff("8.8.8.8");
    assert_eq!(client_ip(ip("10.0.0.1"), &h, &trusted), ip("10.0.0.1"));
}

#[test]
fn untrusted_peer_ignores_xff() {
    let trusted = TrustedProxies::parse("10.0.0.0/8").unwrap();
    let h = headers_with_xff("8.8.8.8");
    // Peer is 1.2.3.4 — not in 10/8 — so XFF is ignored.
    assert_eq!(client_ip(ip("1.2.3.4"), &h, &trusted), ip("1.2.3.4"));
}

#[test]
fn trusted_peer_no_xff_returns_peer() {
    let trusted = TrustedProxies::parse("10.0.0.0/8").unwrap();
    let h = HeaderMap::new();
    assert_eq!(client_ip(ip("10.0.0.1"), &h, &trusted), ip("10.0.0.1"));
}

#[test]
fn single_proxy_extracts_client() {
    let trusted = TrustedProxies::parse("10.0.0.0/8").unwrap();
    let h = headers_with_xff("8.8.8.8");
    assert_eq!(client_ip(ip("10.0.0.1"), &h, &trusted), ip("8.8.8.8"));
}

#[test]
fn multi_hop_skips_trusted() {
    let trusted = TrustedProxies::parse("10.0.0.0/8").unwrap();
    // client=8.8.8.8, then trusted hop 10.0.0.5, then peer=10.0.0.1.
    let h = headers_with_xff("8.8.8.8, 10.0.0.5");
    assert_eq!(client_ip(ip("10.0.0.1"), &h, &trusted), ip("8.8.8.8"));
}

#[test]
fn all_trusted_returns_leftmost() {
    let trusted = TrustedProxies::parse("10.0.0.0/8").unwrap();
    let h = headers_with_xff("10.0.0.9, 10.0.0.5");
    assert_eq!(client_ip(ip("10.0.0.1"), &h, &trusted), ip("10.0.0.9"));
}

#[test]
fn untrusted_attacker_in_chain_does_not_promote_past_first() {
    // Attacker prepends a forged client. Proxy appends the real client,
    // so XFF reads `forged, real-client`. Rightmost-untrusted picks the
    // real client and ignores the forgery.
    let trusted = TrustedProxies::parse("10.0.0.0/8").unwrap();
    let h = headers_with_xff("evil-prepend, 8.8.8.8");
    // "evil-prepend" doesn't parse as an IP and is dropped during parsing.
    // Real client wins.
    assert_eq!(client_ip(ip("10.0.0.1"), &h, &trusted), ip("8.8.8.8"));
}

#[test]
fn ipv4_with_port_is_handled() {
    let trusted = TrustedProxies::parse("10.0.0.0/8").unwrap();
    let h = headers_with_xff("8.8.8.8:443");
    assert_eq!(client_ip(ip("10.0.0.1"), &h, &trusted), ip("8.8.8.8"));
}

#[test]
fn bracketed_ipv6_with_port_is_handled() {
    let trusted = TrustedProxies::parse("10.0.0.0/8").unwrap();
    let h = headers_with_xff("[2001:db8::1]:443");
    assert_eq!(client_ip(ip("10.0.0.1"), &h, &trusted), ip("2001:db8::1"));
}

#[test]
fn malformed_xff_falls_back_to_peer() {
    let trusted = TrustedProxies::parse("10.0.0.0/8").unwrap();
    let h = headers_with_xff("not-an-ip, also-bad");
    assert_eq!(client_ip(ip("10.0.0.1"), &h, &trusted), ip("10.0.0.1"));
}

#[test]
fn anonymize_ipv4_clears_last_octet() {
    assert_eq!(anonymize_ip(ip("203.0.113.42")), ip("203.0.113.0"));
    // Already-zeroed host stays put (idempotent).
    assert_eq!(anonymize_ip(ip("203.0.113.0")), ip("203.0.113.0"));
}

#[test]
fn anonymize_ipv6_clears_to_48() {
    // First 48 bits (three hextets) retained, everything after zeroed.
    assert_eq!(
        anonymize_ip(ip("2001:db8:abcd:1234:5678:9abc:def0:1")),
        ip("2001:db8:abcd::")
    );
}

#[test]
fn rate_key_ipv4_is_identity() {
    assert_eq!(rate_key(ip("203.0.113.42")), ip("203.0.113.42"));
}

#[test]
fn rate_key_ipv6_buckets_to_64() {
    // Two hosts in the same /64 share one rate key…
    assert_eq!(
        rate_key(ip("2001:db8:abcd:1234:5678:9abc:def0:1")),
        ip("2001:db8:abcd:1234::")
    );
    assert_eq!(
        rate_key(ip("2001:db8:abcd:1234:ffff:ffff:ffff:ffff")),
        ip("2001:db8:abcd:1234::")
    );
    // …but different /64s do not.
    assert_ne!(
        rate_key(ip("2001:db8:abcd:1234::1")),
        rate_key(ip("2001:db8:abcd:1235::1"))
    );
}

#[test]
fn rate_key_ipv4_mapped_ipv6_counts_as_ipv4() {
    // Dual-stack listeners hand us `::ffff:a.b.c.d`; the /64 truncation
    // must not collapse all IPv4 clients into one bucket.
    assert_eq!(rate_key(ip("::ffff:203.0.113.9")), ip("203.0.113.9"));
    assert_ne!(
        rate_key(ip("::ffff:203.0.113.9")),
        rate_key(ip("::ffff:203.0.113.10"))
    );
}

#[test]
fn rate_key_is_idempotent() {
    for s in ["198.51.100.7", "2001:db8:abcd:1234::ff", "::ffff:1.2.3.4"] {
        let once = rate_key(ip(s));
        assert_eq!(rate_key(once), once);
    }
}

#[test]
fn anonymize_is_idempotent() {
    for s in ["198.51.100.7", "2001:db8:abcd:1234::ff"] {
        let once = anonymize_ip(ip(s));
        assert_eq!(anonymize_ip(once), once);
    }
}
