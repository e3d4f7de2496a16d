use bollwark::puzzle::challenge::{PuzzleEngine, compute_argon2id, has_leading_zero_bits, solve_argon2id_challenge, solve_challenge};
use bollwark::puzzle::types::{Algorithm, Argon2idParams, PuzzleConfig};

#[test]
fn test_has_leading_zero_bits_zero() {
    let hash = [0u8; 32];
    assert!(has_leading_zero_bits(&hash, 0));
    assert!(has_leading_zero_bits(&hash, 8));
    assert!(has_leading_zero_bits(&hash, 256));
}

#[test]
fn test_has_leading_zero_bits_one_bit() {
    // 0x7F = 0111_1111 → 1 leading zero
    let mut hash = [0xFFu8; 32];
    hash[0] = 0x7F;
    assert!(has_leading_zero_bits(&hash, 1));
    assert!(!has_leading_zero_bits(&hash, 2));
}

#[test]
fn test_has_leading_zero_bits_exact_byte_boundary() {
    let mut hash = [0xFFu8; 32];
    hash[0] = 0x00;
    assert!(has_leading_zero_bits(&hash, 8));
    assert!(!has_leading_zero_bits(&hash, 9));
}

#[test]
fn test_has_leading_zero_bits_cross_byte() {
    let mut hash = [0xFFu8; 32];
    hash[0] = 0x00;
    hash[1] = 0x0F; // 0000_1111 → 4 more leading zeros
    assert!(has_leading_zero_bits(&hash, 12));
    assert!(!has_leading_zero_bits(&hash, 13));
}

#[test]
fn test_generate_and_verify() {
    let config = PuzzleConfig {
        algorithm: Algorithm::Sha256,
        default_difficulty: 8,
        min_difficulty: 4,
        max_difficulty: 16,
        ttl_secs: 300,
    };
    let engine = PuzzleEngine::new(config);
    let challenge = engine.generate(uuid::Uuid::new_v4().as_u128(), 8);

    let nonce = solve_challenge(&challenge.prefix, challenge.difficulty).unwrap();
    assert!(engine.verify(&challenge, nonce));
}

#[test]
fn test_verify_rejects_wrong_nonce() {
    let config = PuzzleConfig {
        algorithm: Algorithm::Sha256,
        default_difficulty: 16,
        min_difficulty: 4,
        max_difficulty: 28,
        ttl_secs: 300,
    };
    let engine = PuzzleEngine::new(config);
    let challenge = engine.generate(uuid::Uuid::new_v4().as_u128(), 16);

    // Nonce u64::MAX is extremely unlikely to be valid
    assert!(!engine.verify(&challenge, u64::MAX));
}

#[test]
fn test_solve_low_difficulty() {
    let config = PuzzleConfig {
        algorithm: Algorithm::Sha256,
        default_difficulty: 4,
        min_difficulty: 4,
        max_difficulty: 16,
        ttl_secs: 300,
    };
    let engine = PuzzleEngine::new(config);
    let challenge = engine.generate(uuid::Uuid::new_v4().as_u128(), 4);

    let nonce = solve_challenge(&challenge.prefix, challenge.difficulty).unwrap();
    assert!(engine.verify(&challenge, nonce));
}

// --- Argon2id ---

fn argon_test_params() -> Argon2idParams {
    // Minimum-cost params keep the test fast: 8 KiB memory, 1 iteration,
    // 1 lane. Real-world server config would use the defaults (8 MiB / 2 / 1).
    Argon2idParams {
        m_cost: 8,
        t_cost: 1,
        p_cost: 1,
    }
}

#[test]
fn test_argon2id_generate_and_verify() {
    let config = PuzzleConfig {
        algorithm: Algorithm::Argon2id(argon_test_params()),
        default_difficulty: 4,
        min_difficulty: 1,
        max_difficulty: 8,
        ttl_secs: 300,
    };
    let engine = PuzzleEngine::new(config);
    let challenge = engine.generate(uuid::Uuid::new_v4().as_u128(), 4);
    assert!(matches!(challenge.algorithm, Algorithm::Argon2id(_)));

    let nonce =
        solve_argon2id_challenge(&challenge.prefix, challenge.difficulty, argon_test_params())
            .unwrap();
    assert!(engine.verify(&challenge, nonce));
}

#[test]
fn test_argon2id_rejects_wrong_nonce() {
    let config = PuzzleConfig {
        algorithm: Algorithm::Argon2id(argon_test_params()),
        default_difficulty: 4,
        min_difficulty: 1,
        max_difficulty: 8,
        ttl_secs: 300,
    };
    let engine = PuzzleEngine::new(config);
    // One prefix in sixteen happens to take any given nonce: those are passed over.
    let challenge = loop {
        let c = engine.generate(uuid::Uuid::new_v4().as_u128(), 4);
        let hash = compute_argon2id(&c.prefix, u64::MAX, argon_test_params()).unwrap();
        if !has_leading_zero_bits(&hash, 4) {
            break c;
        }
    };
    assert!(!engine.verify(&challenge, u64::MAX));
}

#[test]
fn test_argon2id_invalid_params_dont_crash() {
    // m_cost = 0 is invalid for Argon2id. compute_argon2id should return
    // None and verify() should treat that as a failed solution rather
    // than panic.
    let bad = Argon2idParams {
        m_cost: 0,
        t_cost: 1,
        p_cost: 1,
    };
    assert!(compute_argon2id("deadbeef", 0, bad).is_none());
}

#[test]
fn a_prefix_is_sixteen_bytes_in_lower_case_digits() {
    let engine = PuzzleEngine::new(PuzzleConfig::default());
    let c = engine.generate(1, 4);
    assert_eq!(c.prefix.len(), 32);
    assert!(c.prefix.chars().all(|d| matches!(d, '0'..='9' | 'a'..='f')));
    assert_eq!(c.dwell_since, c.created_at);
    assert_ne!(c.prefix, engine.generate(1, 4).prefix);
}
