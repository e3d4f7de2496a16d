use bollwark::risk::tier::{EscalationTier, TierThresholds, difficulty_for};

#[test]
fn classify_invisible_below_checkbox_threshold() {
    let t = TierThresholds::default();
    assert_eq!(t.classify(0), EscalationTier::InvisiblePass);
    assert_eq!(t.classify(19), EscalationTier::InvisiblePass);
}

#[test]
fn classify_boundary_values() {
    let t = TierThresholds::default();
    assert_eq!(t.classify(20), EscalationTier::Checkbox);
    assert_eq!(t.classify(39), EscalationTier::Checkbox);
    assert_eq!(t.classify(40), EscalationTier::HardPow);
    assert_eq!(t.classify(64), EscalationTier::HardPow);
    assert_eq!(t.classify(65), EscalationTier::VisualChallenge);
    assert_eq!(t.classify(84), EscalationTier::VisualChallenge);
    assert_eq!(t.classify(85), EscalationTier::Block);
    assert_eq!(t.classify(200), EscalationTier::Block);
}

#[test]
fn difficulty_mapping_clamps_to_max() {
    assert_eq!(difficulty_for(EscalationTier::HardPow, 26, 28), Some(28));
    assert_eq!(difficulty_for(EscalationTier::Checkbox, 26, 28), Some(28));
}

#[test]
fn difficulty_mapping_invisible_is_base() {
    assert_eq!(
        difficulty_for(EscalationTier::InvisiblePass, 20, 28),
        Some(20)
    );
}

#[test]
fn difficulty_mapping_block_and_visual_are_none() {
    assert_eq!(difficulty_for(EscalationTier::Block, 20, 28), None);
    assert_eq!(
        difficulty_for(EscalationTier::VisualChallenge, 20, 28),
        None
    );
}

#[test]
fn serializes_as_snake_case() {
    assert_eq!(
        serde_json::to_string(EscalationTier::InvisiblePass.as_str()).unwrap(),
        "\"invisible_pass\""
    );
    assert_eq!(
        serde_json::to_string(EscalationTier::HardPow.as_str()).unwrap(),
        "\"hard_pow\""
    );
    assert_eq!(
        serde_json::to_string(EscalationTier::VisualChallenge.as_str()).unwrap(),
        "\"visual_challenge\""
    );
}
