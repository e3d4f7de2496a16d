use bollwark::net::{parse_ip, IpAddr};
use bollwark::risk::reputation::{CidrListReputation, IpCategory, ReputationStore, SCORE_DATACENTER, SCORE_RESIDENTIAL, SCORE_TOR, SCORE_VPN, score_ip_reputation};

fn ip(s: &str) -> IpAddr {
    parse_ip(s).unwrap()
}

#[test]
fn empty_list_returns_none() {
    let rep = CidrListReputation::empty();
    assert_eq!(rep.lookup(ip("10.0.0.1")), None);
}

#[test]
fn parses_simple_list() {
    let content = "\
        # comment line\n\
        10.0.0.0/8 datacenter\n\
        \n\
        192.168.0.0/16 vpn\n\
        2001:db8::/32 tor\n\
    ";
    let rep = CidrListReputation::parse(content).unwrap();
    assert_eq!(rep.len(), 3);
    assert_eq!(rep.lookup(ip("10.5.6.7")), Some(IpCategory::Datacenter));
    assert_eq!(rep.lookup(ip("192.168.1.1")), Some(IpCategory::Vpn));
    assert_eq!(rep.lookup(ip("2001:db8::1")), Some(IpCategory::Tor));
    assert_eq!(rep.lookup(ip("8.8.8.8")), None);
}

#[test]
fn ignores_inline_comments_and_blank_lines() {
    let content = "10.0.0.0/8 datacenter # hosting provider X\n\n\n";
    let rep = CidrListReputation::parse(content).unwrap();
    assert_eq!(rep.len(), 1);
}

#[test]
fn unknown_category_skipped() {
    let content = "10.0.0.0/8 mystery_category\n";
    let rep = CidrListReputation::parse(content).unwrap();
    assert_eq!(rep.len(), 0);
}

#[test]
fn malformed_cidr_errors() {
    let content = "not.a.cidr datacenter\n";
    let result = CidrListReputation::parse(content);
    assert!(result.is_err());
}

#[test]
fn first_match_wins() {
    // Overlapping ranges — first listed wins.
    let content = "10.0.0.0/8 datacenter\n10.0.0.0/16 vpn\n";
    let rep = CidrListReputation::parse(content).unwrap();
    assert_eq!(rep.lookup(ip("10.0.0.1")), Some(IpCategory::Datacenter));
}

#[test]
fn score_mapping() {
    assert_eq!(score_ip_reputation(Some(IpCategory::Tor)), SCORE_TOR);
    assert_eq!(
        score_ip_reputation(Some(IpCategory::Datacenter)),
        SCORE_DATACENTER
    );
    assert_eq!(score_ip_reputation(Some(IpCategory::Vpn)), SCORE_VPN);
    assert_eq!(
        score_ip_reputation(Some(IpCategory::Residential)),
        SCORE_RESIDENTIAL
    );
    assert_eq!(score_ip_reputation(None), 0);
}

#[test]
fn store_swap_publishes_new_list() {
    let mut store = ReputationStore::empty();
    assert_eq!(store.lookup(ip("10.0.0.1")), None);
    store.replace(CidrListReputation::parse("10.0.0.0/8 datacenter\n").unwrap());
    assert_eq!(store.lookup(ip("10.0.0.1")), Some(IpCategory::Datacenter));
    // Swap to a different list — old entry is gone, new one is live.
    store.replace(CidrListReputation::parse("203.0.113.0/24 tor\n").unwrap());
    assert_eq!(store.lookup(ip("10.0.0.1")), None);
    assert_eq!(store.lookup(ip("203.0.113.7")), Some(IpCategory::Tor));
}
