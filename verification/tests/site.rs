use bollwark::config::{AppConfig};
use bollwark::site::types::{MAX_ALLOWED_ORIGINS, MAX_SITE_NAME_LEN, SiteMode, SitePolicy, normalize_origin, normalize_origins, normalize_site_name};
use serde_json::Value;

#[test]
fn a_site_name_is_trimmed_before_it_is_judged() {
    assert_eq!(normalize_site_name("  checkout  ").unwrap(), "checkout");
    // Whitespace-only is empty, not a 3-character name.
    assert_eq!(
        normalize_site_name("   "),
        Err("name is required".to_string())
    );
}

#[test]
fn a_site_name_is_length_capped() {
    assert!(normalize_site_name(&"a".repeat(MAX_SITE_NAME_LEN)).is_ok());
    assert!(normalize_site_name(&"a".repeat(MAX_SITE_NAME_LEN + 1)).is_err());
    // The trim happens first, so padding a legal name over the cap is
    // still legal — otherwise a paste with a trailing newline would fail.
    assert!(normalize_site_name(&format!("  {}  ", "a".repeat(MAX_SITE_NAME_LEN))).is_ok());
}

#[test]
fn normalize_accepts_https_http_and_port() {
    assert_eq!(
        normalize_origin("https://example.com").unwrap(),
        "https://example.com"
    );
    assert_eq!(
        normalize_origin("http://example.com").unwrap(),
        "http://example.com"
    );
    assert_eq!(
        normalize_origin("https://example.com:8443").unwrap(),
        "https://example.com:8443"
    );
}

#[test]
fn normalize_lowercases_and_trims() {
    assert_eq!(
        normalize_origin("  HTTPS://Example.COM  ").unwrap(),
        "https://example.com"
    );
}

#[test]
fn normalize_rejects_path_trailing_slash_query_fragment() {
    assert!(normalize_origin("https://example.com/path").is_err());
    assert!(normalize_origin("https://example.com/").is_err());
    assert!(normalize_origin("https://example.com?a=1").is_err());
    assert!(normalize_origin("https://example.com#frag").is_err());
}

#[test]
fn normalize_rejects_bare_hostname_empty_and_whitespace() {
    assert!(normalize_origin("example.com").is_err());
    assert!(normalize_origin("").is_err());
    assert!(normalize_origin("   ").is_err());
    assert!(normalize_origin("https://exa mple.com").is_err());
    // Scheme with empty authority.
    assert!(normalize_origin("https://").is_err());
}

#[test]
fn normalize_origin_error_carries_offending_value() {
    assert_eq!(normalize_origin("example.com").unwrap_err(), "example.com");
}

#[test]
fn normalize_origins_list_and_cap() {
    let ok = vec![
        "https://a.example".to_string(),
        "HTTP://B.example".to_string(),
    ];
    assert_eq!(
        normalize_origins(&ok).unwrap(),
        vec!["https://a.example", "http://b.example"]
    );

    let bad = vec!["https://ok.example".to_string(), "nope".to_string()];
    assert_eq!(normalize_origins(&bad).unwrap_err(), "invalid origin: nope");

    let too_many: Vec<String> = (0..MAX_ALLOWED_ORIGINS + 1)
        .map(|i| format!("https://s{i}.example"))
        .collect();
    assert!(
        normalize_origins(&too_many)
            .unwrap_err()
            .contains("too many")
    );
}

// --- SitePolicy ---

/// Config with the documented defaults, so each policy test states only
/// the override it cares about.
fn cfg() -> AppConfig {
    AppConfig::default()
}

/// A policy as the admin API writes it: what is inherited is left out.
fn to_json(p: &SitePolicy) -> Value {
    let mut m = serde_json::Map::new();
    let numbers = [
        ("tier_checkbox_min", p.tier_checkbox_min),
        ("tier_hard_pow_min", p.tier_hard_pow_min),
        ("tier_block_min", p.tier_block_min),
        ("verify_shadow_min", p.verify_shadow_min),
        ("verify_block_min", p.verify_block_min),
        ("default_difficulty", p.default_difficulty),
        ("max_difficulty", p.max_difficulty),
    ];
    for (name, value) in numbers {
        if let Some(n) = value {
            m.insert(name.to_string(), Value::from(n));
        }
    }
    if let Some(mode) = p.mode {
        let name = if mode.is_monitor() { "monitor" } else { "enforce" };
        m.insert("mode".to_string(), Value::from(name));
    }
    Value::Object(m)
}

fn from_json(text: &str) -> SitePolicy {
    let v: Value = serde_json::from_str(text).unwrap();
    let number = |name: &str| v.get(name).and_then(|n| n.as_u64()).map(|n| n as u32);
    SitePolicy {
        tier_checkbox_min: number("tier_checkbox_min"),
        tier_hard_pow_min: number("tier_hard_pow_min"),
        tier_block_min: number("tier_block_min"),
        verify_shadow_min: number("verify_shadow_min"),
        verify_block_min: number("verify_block_min"),
        default_difficulty: number("default_difficulty"),
        max_difficulty: number("max_difficulty"),
        mode: v.get("mode").and_then(|m| m.as_str()).map(|m| match m {
            "monitor" => SiteMode::Monitor,
            "enforce" => SiteMode::Enforce,
            other => panic!("unknown mode {other}"),
        }),
    }
}

#[test]
fn empty_policy_resolves_to_the_global_config() {
    let c = cfg();
    let e = SitePolicy::default().resolve(&c);
    assert_eq!(e.tiers.checkbox, c.tier_checkbox_min);
    assert_eq!(e.tiers.hard_pow, c.tier_hard_pow_min);
    assert_eq!(e.tiers.block, c.tier_block_min);
    assert_eq!(e.verify.shadow_min, c.verify_shadow_min);
    assert_eq!(e.verify.block_min, c.verify_block_min);
    assert_eq!(e.default_difficulty, c.default_difficulty);
    assert_eq!(e.max_difficulty, c.max_difficulty);
}

#[test]
fn partial_override_keeps_inheriting_the_rest() {
    let c = cfg();
    let p = SitePolicy {
        tier_block_min: Some(70),
        ..Default::default()
    };
    let e = p.resolve(&c);
    assert_eq!(e.tiers.block, 70);
    // Untouched fields still track the global values.
    assert_eq!(e.tiers.checkbox, c.tier_checkbox_min);
    assert_eq!(e.default_difficulty, c.default_difficulty);
}

#[test]
fn default_policy_is_empty_and_serializes_to_an_empty_object() {
    assert!(SitePolicy::default().is_empty());
    assert_eq!(to_json(&SitePolicy::default()).to_string(), "{}");
    assert!(
        !SitePolicy {
            tier_block_min: Some(70),
            ..Default::default()
        }
        .is_empty()
    );
}

#[test]
fn policy_round_trips_through_json() {
    let p = SitePolicy {
        tier_checkbox_min: Some(10),
        verify_block_min: Some(30),
        ..Default::default()
    };
    let json = to_json(&p).to_string();
    assert_eq!(from_json(&json), p);
}

#[test]
fn empty_policy_validates() {
    assert!(SitePolicy::default().validate(&cfg()).is_ok());
}

#[test]
fn rejects_zero_difficulty() {
    // 0 leading zero bits means every nonce verifies — the PoW is off.
    let err = SitePolicy {
        default_difficulty: Some(0),
        ..Default::default()
    }
    .validate(&cfg())
    .unwrap_err();
    assert!(err.contains("at least 1"), "{err}");

    assert!(
        SitePolicy {
            max_difficulty: Some(0),
            ..Default::default()
        }
        .validate(&cfg())
        .is_err()
    );
}

#[test]
fn rejects_default_difficulty_above_max() {
    let err = SitePolicy {
        default_difficulty: Some(20),
        max_difficulty: Some(10),
        ..Default::default()
    }
    .validate(&cfg())
    .unwrap_err();
    assert!(err.contains("exceeds max_difficulty"), "{err}");
}

#[test]
fn rejects_out_of_order_tier_thresholds() {
    let err = SitePolicy {
        tier_checkbox_min: Some(50),
        tier_hard_pow_min: Some(40),
        ..Default::default()
    }
    .validate(&cfg())
    .unwrap_err();
    assert!(err.contains("non-decreasing"), "{err}");
}

#[test]
fn rejects_partial_override_that_only_breaks_against_the_globals() {
    // block_min alone looks fine; merged with the global checkbox=20 /
    // hard_pow=40 it puts Block underneath both. This is the case that
    // validating the *supplied* fields instead of the resolved ones
    // would let through.
    let c = cfg();
    assert!(c.tier_checkbox_min > 10);
    let err = SitePolicy {
        tier_block_min: Some(10),
        ..Default::default()
    }
    .validate(&c)
    .unwrap_err();
    assert!(err.contains("non-decreasing"), "{err}");
}

#[test]
fn rejects_shadow_above_block_on_the_verify_side() {
    let err = SitePolicy {
        verify_shadow_min: Some(90),
        verify_block_min: Some(60),
        ..Default::default()
    }
    .validate(&cfg())
    .unwrap_err();
    assert!(err.contains("verify_shadow_min"), "{err}");
}

#[test]
fn rejects_zero_block_thresholds() {
    // Both of these match every score, so the site is fully down rather
    // than strictly policed.
    let err = SitePolicy {
        tier_checkbox_min: Some(0),
        tier_hard_pow_min: Some(0),
        tier_block_min: Some(0),
        ..Default::default()
    }
    .validate(&cfg())
    .unwrap_err();
    assert!(err.contains("tier_block_min"), "{err}");

    let err = SitePolicy {
        verify_shadow_min: Some(0),
        verify_block_min: Some(0),
        ..Default::default()
    }
    .validate(&cfg())
    .unwrap_err();
    assert!(err.contains("verify_block_min"), "{err}");
}

#[test]
fn mode_defaults_to_enforce_and_round_trips() {
    assert_eq!(
        SitePolicy::default().resolve(&cfg()).mode,
        SiteMode::Enforce
    );
    assert!(!SitePolicy::default().resolve(&cfg()).mode.is_monitor());

    let p = SitePolicy {
        mode: Some(SiteMode::Monitor),
        ..Default::default()
    };
    assert!(p.resolve(&cfg()).mode.is_monitor());
    // Wire form is the snake_case name, so the admin API reads as
    // {"mode":"monitor"} rather than a bare boolean.
    assert_eq!(to_json(&p).to_string(), r#"{"mode":"monitor"}"#);
    assert_eq!(
        from_json(r#"{"mode":"monitor"}"#),
        p
    );
}

#[test]
fn monitor_mode_is_not_an_override_and_needs_no_validation() {
    // Monitoring changes what happens to a verdict, never how one is
    // computed, so it can't produce an invalid threshold set.
    let p = SitePolicy {
        mode: Some(SiteMode::Monitor),
        ..Default::default()
    };
    assert!(p.validate(&cfg()).is_ok());
    // ...and it leaves every threshold inheriting.
    let e = p.resolve(&cfg());
    assert_eq!(e.tiers.block, cfg().tier_block_min);
    assert_eq!(e.verify.block_min, cfg().verify_block_min);
}

#[test]
fn accepts_a_realistic_stricter_login_policy() {
    // The motivating case: a login form that should escalate sooner and
    // hard-block on any behavioural flag.
    let p = SitePolicy {
        tier_checkbox_min: Some(10),
        tier_hard_pow_min: Some(25),
        tier_block_min: Some(60),
        verify_shadow_min: Some(20),
        verify_block_min: Some(30),
        ..Default::default()
    };
    assert!(p.validate(&cfg()).is_ok());
    assert_eq!(p.resolve(&cfg()).tiers.hard_pow, 25);
}
