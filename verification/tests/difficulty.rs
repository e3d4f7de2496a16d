use bollwark::puzzle::difficulty::{DifficultyCalculator};

fn calc() -> DifficultyCalculator {
    DifficultyCalculator {
        default: 20,
        min: 16,
        max: 28,
    }
}

#[test]
fn test_default_difficulty() {
    assert_eq!(calc().compute(0, 0), 20);
}

#[test]
fn test_high_ip_rate() {
    assert_eq!(calc().compute(55, 0), 24);
}

#[test]
fn test_moderate_ip_rate() {
    assert_eq!(calc().compute(25, 0), 22);
}

#[test]
fn test_high_site_rate() {
    assert_eq!(calc().compute(0, 600), 22);
}

#[test]
fn test_combined_signals() {
    // ip > 50 (+4) + site > 500 (+2) = 20 + 6 = 26
    assert_eq!(calc().compute(55, 600), 26);
}

#[test]
fn test_clamp_max() {
    // ip > 50 (+4) + site > 500 (+2) = 20 + 6 = 26, within max=28
    let calc = DifficultyCalculator {
        default: 26,
        min: 16,
        max: 28,
    };
    // 26 + 4 + 2 = 32, clamped to 28
    assert_eq!(calc.compute(55, 600), 28);
}

#[test]
fn test_clamp_min() {
    let calc = DifficultyCalculator {
        default: 14,
        min: 16,
        max: 28,
    };
    assert_eq!(calc.compute(0, 0), 16);
}
