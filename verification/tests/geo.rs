use bollwark::dashboard::geo::GeoIp;
use bollwark::net::{parse_ip, IpAddr};

/// A text of a database: its type and its length, and then the text.
fn text(s: &str) -> Vec<u8> {
    let mut out = vec![0x40 | s.len() as u8];
    out.extend_from_slice(s.as_bytes());
    out
}

/// A number of a database, of the type that a control byte gives.
fn number(control: u8, value: &[u8]) -> Vec<u8> {
    let mut out = vec![control | value.len() as u8];
    out.extend_from_slice(value);
    out
}

fn map(entries: &[(&str, Vec<u8>)]) -> Vec<u8> {
    let mut out = vec![0xe0 | entries.len() as u8];
    for (key, value) in entries {
        out.extend(text(key));
        out.extend_from_slice(value);
    }
    out
}

/// A database of one node: the lower half of the addresses is in Germany, of the upper half
/// nothing is known.
fn database(ip_version: u8) -> Vec<u8> {
    let mut out = vec![0, 0, 17, 0, 0, 1];
    out.extend_from_slice(&[0; 16]);
    out.extend(map(&[("country", map(&[("iso_code", text("DE"))]))]));
    out.extend_from_slice(b"\xab\xcd\xefMaxMind.com");
    out.extend(map(&[
        ("binary_format_major_version", number(0xa0, &[2])),
        ("binary_format_minor_version", number(0xa0, &[])),
        ("build_epoch", vec![0x01, 0x02, 0x01]),
        ("database_type", text("Country")),
        ("description", map(&[("en", text("Countries"))])),
        ("ip_version", number(0xa0, &[ip_version])),
        ("languages", vec![0x00, 0x04]),
        ("node_count", number(0xc0, &[1])),
        ("record_size", number(0xa0, &[24])),
    ]));
    out
}

#[test]
fn a_country_is_looked_up_by_address() {
    let v4 = GeoIp::open(database(4)).unwrap();
    assert_eq!(v4.country(parse_ip("1.2.3.4").unwrap()).as_deref(), Some("DE"));
    assert_eq!(v4.country(parse_ip("127.255.255.255").unwrap()).as_deref(), Some("DE"));
    assert_eq!(v4.country(parse_ip("128.0.0.0").unwrap()), None);
    // A database of the one family knows nothing of the other.
    assert_eq!(v4.country(IpAddr::V6(1)), None);

    let v6 = GeoIp::open(database(6)).unwrap();
    assert_eq!(v6.country(parse_ip("2001:db8::1").unwrap()).as_deref(), Some("DE"));
    assert_eq!(v6.country(parse_ip("fe80::1").unwrap()), None);
}

#[test]
fn a_database_that_cannot_be_read_is_told() {
    assert!(GeoIp::open(Vec::new()).is_err());
    assert!(GeoIp::open(b"no database".to_vec()).is_err());
    assert!(GeoIp::open(database(5)).is_err());
    let whole = database(4);
    assert!(GeoIp::open(whole[..whole.len() - 1].to_vec()).is_err());
}

#[test]
fn a_record_that_cannot_be_read_gives_no_country() {
    let mut broken = database(4);
    // The code is now a number.
    let at = broken.windows(3).position(|w| w == b"\x42DE").unwrap();
    broken[at] = 0xa2;
    let geoip = GeoIp::open(broken).unwrap();
    assert_eq!(geoip.country(parse_ip("1.2.3.4").unwrap()), None);
}
