use axum::http::{HeaderMap, HeaderValue};
use bollwark::config::{AppConfig, Environment};
use bollwark::error::CaptchaError;
use bollwark::headers::text_of;
use bollwark::ident::{parse_uuid, uuid_text};
use bollwark::net::{parse_ip, IpAddr, IpNet};
use bollwark::puzzle::challenge::{compute_argon2id, compute_hash, compute_sha256, hash_accepted,
    solve_challenge, PuzzleEngine};
use bollwark::puzzle::types::{Algorithm, Argon2idParams, ChallengeKind, PuzzleConfig};
use bollwark::risk::cookie::CookieSigner;
use bollwark::risk::load::LoadLadder;
use bollwark::risk::tier::EscalationTier;
use bollwark::startup::{dashboard_setup, difficulty_warnings, effective_difficulty, peak_mib,
    DashboardSetup};
use bollwark::time::{date_text, elapsed_millis, now, parse_date, Timestamp, MAX_SECS};
use bollwark::watcher::{should_reload, DirectoryEvent, FileEvent};
use hmac::{KeyInit, Mac};

#[test]
fn every_error_has_its_status() {
    let cases = [
        (CaptchaError::ChallengeNotFound, 404, "Challenge not found"),
        (CaptchaError::ChallengeExpired, 410, "Challenge expired"),
        (CaptchaError::ChallengeAlreadyUsed, 409, "Challenge already used"),
        (CaptchaError::InvalidSolution, 200, "Invalid solution"),
        (CaptchaError::InvalidSiteKey, 400, "Invalid site key"),
        (CaptchaError::Unauthorized, 401, "Unauthorized"),
        (CaptchaError::NotFound, 404, "Not found"),
        (CaptchaError::RateLimited, 429, "Rate limit exceeded"),
        (CaptchaError::OriginNotAllowed, 403, "Origin not allowed"),
        (CaptchaError::BadRequest("x".to_string()), 400, "Bad request: x"),
    ];
    for (e, status, message) in cases {
        assert_eq!(e.message(), message);
        assert_eq!(e.response(), (status, message.to_string()));
    }
    // What went wrong inside is not told.
    let e = CaptchaError::Storage("disk".to_string());
    assert_eq!(e.message(), "Storage error: disk");
    assert_eq!(e.response(), (500, "Internal error".to_string()));
}

#[test]
fn headers_are_found_by_name() {
    let mut h = HeaderMap::new();
    assert_eq!(text_of(&h, "accept"), None);
    h.append("accept", HeaderValue::from_static("a"));
    h.append("accept", HeaderValue::from_static("b"));
    // The first value, by the name in any case.
    assert_eq!(text_of(&h, "accept").as_deref(), Some("a"));
    assert_eq!(text_of(&h, "ACCEPT").as_deref(), Some("a"));
    // No name of a header is one of a field.
    assert_eq!(text_of(&h, "accept "), None);
    assert_eq!(text_of(&h, ""), None);
    h.insert("accept", HeaderValue::from_bytes(&[0xff]).unwrap());
    assert_eq!(text_of(&h, "accept"), None);
}

#[test]
fn what_a_header_says_agrees_with_the_header_type() {
    for bytes in [&b"plain"[..], b"tab\there", b"", b"\x7e", b"caf\xc3\xa9"] {
        let mut h = HeaderMap::new();
        let value = HeaderValue::from_bytes(bytes).unwrap();
        h.insert("x", value.clone());
        assert_eq!(text_of(&h, "x").as_deref(), value.to_str().ok(), "{bytes:?}");
    }
}

#[test]
fn addresses_are_read() {
    assert_eq!(parse_ip("1.2.3.4"), Some(IpAddr::V4(0x01020304)));
    assert_eq!(parse_ip("::1"), Some(IpAddr::V6(1)));
    assert_eq!(parse_ip("2001:db8::ff"), Some(IpAddr::V6(0x20010db8_00000000_00000000_000000ff)));
    for text in ["", "1.2.3", "1.2.3.4:80", "[::1]", "host"] {
        assert_eq!(parse_ip(text), None, "{text}");
    }
    let net = IpNet::V4(0x0a000000, 8);
    assert!(net.contains(&IpAddr::V4(0x0affffff)));
    assert!(!net.contains(&IpAddr::V4(0x0b000000)));
    assert!(!net.contains(&IpAddr::V6(0x0a000000)));
    assert!(IpNet::V6(0, 0).contains(&IpAddr::V6(u128::MAX)));
    assert!(!IpNet::V6(7, 128).contains(&IpAddr::V6(8)));
}

#[test]
fn identifiers_are_written_and_read() {
    let id = 0x550e8400_e29b_41d4_a716_446655440000;
    let text = "550e8400-e29b-41d4-a716-446655440000";
    assert_eq!(uuid_text(id), text);
    assert_eq!(parse_uuid(text), Ok(id));
    assert_eq!(parse_uuid(&text.to_uppercase()), Ok(id));
    assert_eq!(parse_uuid(&text.replace('-', "")), Ok(id));
    assert!(parse_uuid("550e8400").is_err());
    assert_eq!(parse_uuid(&uuid_text(0)), Ok(0));
    assert_eq!(parse_uuid(&uuid_text(u128::MAX)), Ok(u128::MAX));
}

#[test]
fn dates_are_written_and_read() {
    for (secs, nanos, text) in [
        (0, 0, "1970-01-01T00:00:00+00:00"),
        (1_700_000_000, 5_000, "2023-11-14T22:13:20.000005+00:00"),
        (-62_167_219_200, 0, "0000-01-01T00:00:00+00:00"),
        (253_402_300_799, 999_999_999, "9999-12-31T23:59:59.999999999+00:00"),
    ] {
        let t = Timestamp::new(secs, nanos);
        assert_eq!(date_text(&t), text);
        assert_eq!(parse_date(text), Ok(t));
    }
    // Another zone is the same moment.
    assert_eq!(parse_date("1970-01-01T01:00:00+01:00"), Ok(Timestamp::new(0, 0)));
    assert!(parse_date("1970-01-01").is_err());
    assert!(now().secs > 1_700_000_000);
    assert!(now().nanos < 1_000_000_000);
}

#[test]
fn time_that_runs_backwards_is_no_time() {
    let a = Timestamp::new(10, 0);
    let b = Timestamp::new(12, 345_999_999);
    assert_eq!(elapsed_millis(&a, &b), 2345);
    assert_eq!(elapsed_millis(&b, &a), 0);
    assert_eq!(a.plus_secs(5), Timestamp::new(15, 0));
    // The calendar ends.
    assert_eq!(a.plus_secs(u64::MAX), Timestamp::new(MAX_SECS, 0));
    assert_eq!(Timestamp::new(MAX_SECS - 5, 7).plus_secs(5), Timestamp::new(MAX_SECS, 7));
    assert_eq!(Timestamp::from_millis(-1), Some(Timestamp::new(-1, 999_000_000)));
    assert_eq!(Timestamp::from_millis(1_500), Some(Timestamp::new(1, 500_000_000)));
    assert_eq!(Timestamp::from_millis(i64::MAX), None);
    assert_eq!(Timestamp::from_millis(i64::MIN), None);
}

#[test]
fn the_hashes_are_those_of_the_outside_crates() {
    use_digest("deadbeef", 42);
    let params = Argon2idParams {
        m_cost: 64,
        t_cost: 1,
        p_cost: 1,
    };
    let hash = compute_argon2id("deadbeef", 7, params).unwrap();
    let mut expected = [0u8; 32];
    argon2::Argon2::new(
        argon2::Algorithm::Argon2id,
        argon2::Version::V0x13,
        argon2::Params::new(64, 1, 1, Some(32)).unwrap(),
    )
    .hash_password_into(&7u64.to_le_bytes(), b"deadbeef", &mut expected)
    .unwrap();
    assert_eq!(hash, expected);
    // A salt of less than eight bytes is none.
    assert_eq!(compute_argon2id("short", 7, params), None);
}

fn use_digest(prefix: &str, nonce: u64) {
    let mut input = prefix.as_bytes().to_vec();
    input.extend_from_slice(&nonce.to_le_bytes());
    let expected: [u8; 32] = <sha2::Sha256 as sha2::Digest>::digest(&input).into();
    assert_eq!(compute_sha256(prefix, nonce), expected);
    assert_eq!(compute_hash(prefix, nonce), expected);
}

#[test]
fn a_hash_is_accepted_by_its_zero_bits() {
    let mut hash = [0xffu8; 32];
    hash[0] = 0;
    hash[1] = 0x1f;
    assert!(hash_accepted(&Some(hash), 11));
    assert!(!hash_accepted(&Some(hash), 12));
    assert!(!hash_accepted(&None, 0));
    assert!(hash_accepted(&Some([0; 32]), 256));
    assert!(!hash_accepted(&Some([0; 32]), 257));
}

#[test]
fn a_challenge_is_assembled_from_its_parts() {
    let engine = PuzzleEngine::new(PuzzleConfig {
        algorithm: Algorithm::Sha256,
        ttl_secs: 30,
        ..PuzzleConfig::default()
    });
    let now = Timestamp::new(1_000, 5);
    let c = engine.assemble(1, &[0xca, 0xfe], 2, 6, now, Timestamp::new(900, 0));
    assert_eq!((c.id, c.site_key, c.difficulty), (1, 2, 6));
    assert_eq!(c.prefix, "cafe");
    assert_eq!(c.expires_at, Timestamp::new(1_030, 5));
    assert_eq!(c.dwell_since, Timestamp::new(900, 0));
    let nonce = solve_challenge(&c.prefix, 6).unwrap();
    assert!(engine.verify(&c, nonce));
    assert_eq!(ChallengeKind::default(), ChallengeKind::Pow);
}

#[test]
fn a_cookie_carries_a_real_tag() {
    let signer = CookieSigner::new(b"key".to_vec());
    let token = signer.issue(1_700_000_000);
    let bytes = 1_700_000_000u64.to_be_bytes();
    let mut mac = <hmac::Hmac<sha2::Sha256> as KeyInit>::new_from_slice(b"key").unwrap();
    mac.update(&bytes);
    let tag = mac.finalize().into_bytes();
    assert_eq!(token, format!("{}.{}", hex::encode(bytes), hex::encode(tag)));
    assert_eq!(signer.verify(&token, 1_700_000_005), Some(1_700_000_000));
    assert_eq!(CookieSigner::new(b"other".to_vec()).verify(&token, 1_700_000_005), None);
}

fn event(kind: FileEvent, names: Vec<Option<&str>>) -> DirectoryEvent {
    DirectoryEvent {
        kind,
        names: names.into_iter().map(|n| n.map(|n| n.to_string())).collect(),
    }
}

#[test]
fn the_list_is_read_again_when_it_changed() {
    let target = Some("list.txt".to_string());
    let changed = event(FileEvent::DataModified, vec![None, Some("list.txt")]);
    let other = event(FileEvent::Created, vec![Some("other.txt")]);
    let read = event(FileEvent::Accessed, vec![Some("list.txt")]);
    assert!(!should_reload(&vec![], &target));
    assert!(!should_reload(&vec![other, read], &target));
    assert!(!should_reload(&vec![event(FileEvent::Removed, vec![Some("list.txt")])], &None));
    assert!(should_reload(&vec![event(FileEvent::Other, vec![]), changed], &target));
    for kind in [
        FileEvent::Created,
        FileEvent::Removed,
        FileEvent::DataModified,
        FileEvent::NameModified,
        FileEvent::Modified,
    ] {
        assert!(kind.is_content_change());
    }
    for kind in [
        FileEvent::MetadataModified,
        FileEvent::OtherModified,
        FileEvent::Accessed,
        FileEvent::Other,
    ] {
        assert!(!kind.is_content_change());
    }
}

#[test]
fn hard_puzzles_are_warned_of() {
    let mut c = AppConfig::default();
    assert!(difficulty_warnings(&c).is_empty());
    c.default_difficulty = 13;
    c.max_difficulty = 18;
    assert_eq!(
        difficulty_warnings(&c),
        vec![("DEFAULT_DIFFICULTY", 13), ("MAX_DIFFICULTY", 18)]
    );
    c.puzzle_algorithm = Algorithm::Sha256;
    assert!(difficulty_warnings(&c).is_empty());
}

#[test]
fn what_a_tier_comes_to_is_told() {
    let c = AppConfig::default();
    assert_eq!(effective_difficulty(EscalationTier::InvisiblePass, &c), "5");
    assert_eq!(effective_difficulty(EscalationTier::HardPow, &c), "9");
    assert_eq!(effective_difficulty(EscalationTier::Block, &c), "block (429)");
    assert_eq!(peak_mib(8, 8192), 64);
}

#[test]
fn a_dashboard_needs_a_token() {
    let mut c = AppConfig::default();
    assert_eq!(dashboard_setup(&c), DashboardSetup::Off);
    c.admin_db_path = Some("log.db".to_string());
    assert_eq!(dashboard_setup(&c), DashboardSetup::MissingToken);
    c.admin_token = Some(String::new());
    assert_eq!(dashboard_setup(&c), DashboardSetup::MissingToken);
    c.admin_token = Some("t".to_string());
    assert_eq!(dashboard_setup(&c), DashboardSetup::On);
}

fn env(vars: &[(&str, &str)]) -> Environment {
    let mut e = Environment::new();
    for (name, value) in vars {
        e.set(name, value);
    }
    e
}

#[test]
fn an_empty_environment_gives_the_defaults() {
    let c = AppConfig::from_env(&Environment::new()).unwrap();
    assert_eq!(format!("{c:?}"), format!("{:?}", AppConfig::default()));
}

#[test]
fn settings_come_from_the_environment() {
    let c = AppConfig::from_env(&env(&[
        ("PUZZLE_ALGORITHM", "sha256"),
        ("TIER_BLOCK_MIN", "70"),
        ("CLEANUP_INTERVAL_SECS", "0"),
        ("IP_HARD_LIMIT", "not a number"),
        ("LOAD_LADDER", "10:20"),
        ("INFO_ABOUT_URL", " https://about.example "),
        ("INFO_TERMS_URL", "  "),
        ("ANONYMIZE_LOG_IP", "false"),
        ("FAILOVER_ENABLED", "yes"),
        ("ADMIN_TOKEN", "t"),
    ]))
    .unwrap();
    assert_eq!(c.puzzle_algorithm, Algorithm::Sha256);
    assert_eq!(c.default_difficulty, 18);
    assert_eq!(c.tier_block_min, 70);
    assert_eq!(c.cleanup_interval_secs, 1);
    assert_eq!(c.ip_hard_limit, 500);
    assert_eq!(c.load_ladder.floor_for(10), 20);
    assert_eq!(c.info_about_url.as_deref(), Some("https://about.example"));
    assert_eq!(c.info_terms_url, None);
    assert!(!c.anonymize_log_ip);
    assert!(c.failover_enabled);
    assert_eq!(c.admin_token.as_deref(), Some("t"));
    let f = c.failover_config();
    assert!(f.enabled && f.state_path.is_none());
    assert_eq!((f.min_gap_secs, f.grace_secs, f.max_per_min), (60, 300, 600));
}

#[test]
fn addresses_are_logged_as_networks_unless_that_is_switched_off() {
    for (word, on) in [
        ("maybe", true),
        ("", true),
        ("true", true),
        ("1", true),
        ("0", false),
        ("false", false),
        (" No ", false),
        ("OFF", false),
    ] {
        let c = AppConfig::from_env(&env(&[("ANONYMIZE_LOG_IP", word)])).unwrap();
        assert_eq!(c.anonymize_log_ip, on, "{word:?}");
    }
    assert!(AppConfig::from_env(&env(&[])).unwrap().anonymize_log_ip);
}

#[test]
fn an_address_to_listen_on_is_read_or_the_default() {
    for (text, expected) in [
        ("127.0.0.1:8080", "127.0.0.1:8080"),
        ("[::1]:80", "[::1]:80"),
        ("127.0.0.1", "0.0.0.0:3000"),
        ("localhost:80", "0.0.0.0:3000"),
        ("", "0.0.0.0:3000"),
    ] {
        let c = AppConfig::from_env(&env(&[("LISTEN_ADDR", text)])).unwrap();
        assert_eq!(c.listen_addr, expected, "{text:?}");
    }
}

#[test]
fn bad_settings_stop_the_service() {
    let problem = |vars: &[(&str, &str)]| AppConfig::from_env(&env(vars)).unwrap_err();
    assert!(problem(&[("DEFAULT_DIFFICULTY", "0")]).contains("DEFAULT_DIFFICULTY=0"));
    assert!(problem(&[("CHALLENGE_TTL_SECS", "0")]).contains("CHALLENGE_TTL_SECS=0"));
    assert!(problem(&[("LOG_RETENTION_HOURS", "999999")]).contains("LOG_RETENTION_HOURS"));
    assert!(problem(&[("LOAD_LADDER", "ten:20")]).contains("LOAD_LADDER"));
    assert!(problem(&[("INFO_PRIVACY_URL", "/privacy")]).starts_with("INFO_PRIVACY_URL="));
    let e = problem(&[("ARGON2_M_COST", "1")]);
    let inner = argon2::Params::new(1, 2, 1, None).unwrap_err();
    assert!(e.contains(&inner.to_string()), "{e}");
}

#[test]
fn a_ladder_has_steps() {
    let l = LoadLadder::parse("100:20, 500:24").unwrap();
    assert_eq!([0, 99, 100, 499, 500].map(|n| l.floor_for(n)), [0, 0, 20, 20, 24]);
}
