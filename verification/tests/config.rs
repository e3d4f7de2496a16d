use bollwark::config::{AppConfig};
use bollwark::puzzle::types::{Algorithm, Argon2idParams};

/// Each case below is a value that leaves the process running and healthy
/// while silently providing no protection (or refusing every solve), which
/// is why they abort the boot rather than being clamped.
#[test]
#[should_panic(expected = "must be at least 1")]
fn rejects_zero_max_difficulty() {
    // MAX_DIFFICULTY clamps DEFAULT_DIFFICULTY, so a zero here disables the
    // PoW even though DEFAULT_DIFFICULTY looks correct — the subtle case.
    AppConfig {
        max_difficulty: 0,
        ..AppConfig::default()
    }
    .validated()
    .unwrap();
}

#[test]
#[should_panic(expected = "must be at least 1")]
fn rejects_zero_default_difficulty() {
    AppConfig {
        default_difficulty: 0,
        ..AppConfig::default()
    }
    .validated()
    .unwrap();
}

#[test]
#[should_panic(expected = "not a valid Argon2id parameter set")]
fn rejects_out_of_range_argon2_params() {
    AppConfig {
        puzzle_algorithm: Algorithm::Argon2id(Argon2idParams {
            m_cost: 1,
            t_cost: 2,
            p_cost: 1,
        }),
        ..AppConfig::default()
    }
    .validated()
    .unwrap();
}

#[test]
#[should_panic(expected = "CHALLENGE_TTL_SECS")]
fn rejects_overflowing_ttl() {
    AppConfig {
        challenge_ttl_secs: u64::MAX,
        ..AppConfig::default()
    }
    .validated()
    .unwrap();
}

#[test]
#[should_panic(expected = "CHALLENGE_TTL_SECS")]
fn rejects_zero_ttl() {
    AppConfig {
        challenge_ttl_secs: 0,
        ..AppConfig::default()
    }
    .validated()
    .unwrap();
}

#[test]
#[should_panic(expected = "LOG_RETENTION_HOURS")]
fn rejects_overflowing_retention() {
    AppConfig {
        log_retention_hours: u64::MAX,
        ..AppConfig::default()
    }
    .validated()
    .unwrap();
}

#[test]
fn accepts_defaults_and_documented_edge_values() {
    // The shipped defaults must pass, or every deployment breaks on upgrade.
    AppConfig::default().validated().unwrap();
    // 0 is the documented "disable pruning" value and must stay valid.
    AppConfig {
        log_retention_hours: 0,
        ..AppConfig::default()
    }
    .validated()
    .unwrap();
    // A difficulty of exactly 1 is the lowest that still requires work.
    AppConfig {
        default_difficulty: 1,
        max_difficulty: 1,
        ..AppConfig::default()
    }
    .validated()
    .unwrap();
    // SHA-256 deployments carry no Argon2 params to validate.
    AppConfig {
        puzzle_algorithm: Algorithm::Sha256,
        default_difficulty: 18,
        max_difficulty: 28,
        ..AppConfig::default()
    }
    .validated()
    .unwrap();
}
