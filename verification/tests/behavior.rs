use bollwark::risk::behavior::{BEHAVIOR_AUTOMATION_SCORE, BEHAVIOR_DUPLICATE_MIN, BEHAVIOR_DUPLICATE_SCORE, BEHAVIOR_FLATLINE_SCORE, BEHAVIOR_HEADLESS_SCORE, BEHAVIOR_IMPOSSIBLE_TIMING_SCORE, BEHAVIOR_IMPOSSIBLE_TIMING_SLACK_MS, BEHAVIOR_INSTANT_INTERACTION_MS, BEHAVIOR_INSTANT_INTERACTION_SCORE, BEHAVIOR_ISOLATED_INTERACTION_MAX, BEHAVIOR_NO_POINTER_SCORE, BehaviorPresence, BehaviorReport, behavior_fingerprint, claims_activity, score_behavior, score_duplicate_blob, score_impossible_timing};

fn report() -> BehaviorReport {
    BehaviorReport {
        mouse_moves: 12,
        touches: 0,
        interactions: 3,
        first_interaction_ms: Some(800),
        webdriver: Some(false),
        automation: Some(false),
        headless: Some(false),
    }
}

#[test]
fn absent_is_neutral() {
    assert_eq!(score_behavior(BehaviorPresence::Absent), 0);
}

#[test]
fn organic_interaction_passes() {
    assert_eq!(score_behavior(BehaviorPresence::Present(report())), 0);
}

#[test]
fn touch_only_user_passes() {
    let mut r = report();
    r.mouse_moves = 0;
    r.touches = 5;
    assert_eq!(score_behavior(BehaviorPresence::Present(r)), 0);
}

#[test]
fn flatline_scores_high() {
    let r = BehaviorReport::default();
    assert_eq!(
        score_behavior(BehaviorPresence::Present(r)),
        BEHAVIOR_FLATLINE_SCORE
    );
}

#[test]
fn isolated_click_without_pointer_scores() {
    // One interaction, no cursor: the synthetic-click driver this signal
    // was written for.
    let r = BehaviorReport {
        mouse_moves: 0,
        touches: 0,
        interactions: 1,
        first_interaction_ms: Some(1_500),
        ..Default::default()
    };
    assert_eq!(
        score_behavior(BehaviorPresence::Present(r)),
        BEHAVIOR_NO_POINTER_SCORE
    );
}

#[test]
fn keyboard_only_visitor_scores_nothing() {
    // Tab, type, Tab, activate, Tab, submit — pointer-free by definition,
    // but nothing about it resembles a driver. This scoring 15 was a
    // penalty for how someone navigates; the widget is keyboard-operable
    // on purpose, so the scorer must not contradict that.
    let r = BehaviorReport {
        mouse_moves: 0,
        touches: 0,
        interactions: 24,
        first_interaction_ms: Some(1_500),
        ..Default::default()
    };
    assert_eq!(score_behavior(BehaviorPresence::Present(r)), 0);
}

#[test]
fn no_pointer_penalty_stops_at_the_isolated_interaction_boundary() {
    let at_boundary = BehaviorReport {
        mouse_moves: 0,
        touches: 0,
        interactions: BEHAVIOR_ISOLATED_INTERACTION_MAX,
        first_interaction_ms: Some(1_500),
        ..Default::default()
    };
    let past_boundary = BehaviorReport {
        interactions: BEHAVIOR_ISOLATED_INTERACTION_MAX + 1,
        ..at_boundary
    };
    assert_eq!(
        score_behavior(BehaviorPresence::Present(at_boundary)),
        BEHAVIOR_NO_POINTER_SCORE
    );
    assert_eq!(score_behavior(BehaviorPresence::Present(past_boundary)), 0);
}

#[test]
fn flatline_is_unaffected_by_the_interaction_gate() {
    // Zero interactions still takes the flatline branch, which is checked
    // first — the interaction minimum must not accidentally downgrade a total flatline.
    let r = BehaviorReport {
        mouse_moves: 0,
        touches: 0,
        interactions: 0,
        ..Default::default()
    };
    assert_eq!(
        score_behavior(BehaviorPresence::Present(r)),
        BEHAVIOR_FLATLINE_SCORE
    );
}

#[test]
fn instant_interaction_compounds() {
    let r = BehaviorReport {
        mouse_moves: 0,
        touches: 0,
        interactions: 1,
        first_interaction_ms: Some(10),
        ..Default::default()
    };
    // no_pointer (15) + instant (20)
    assert_eq!(
        score_behavior(BehaviorPresence::Present(r)),
        BEHAVIOR_NO_POINTER_SCORE + BEHAVIOR_INSTANT_INTERACTION_SCORE
    );
}

#[test]
fn instant_first_interaction_with_organic_trail_scores_zero() {
    // Already typing when a late-loading widget mounts: the first
    // interaction lands instantly, but the trail behind it is not
    // driver-shaped. Pointer-free too, so without the minimum this would be 35 —
    // straight into the shadow band, and a block under a tight policy.
    let r = BehaviorReport {
        mouse_moves: 0,
        touches: 0,
        interactions: 8,
        first_interaction_ms: Some(10),
        ..Default::default()
    };
    assert_eq!(score_behavior(BehaviorPresence::Present(r)), 0);
}

#[test]
fn instant_interaction_penalty_stops_at_the_isolated_boundary() {
    // Mid-scroll at mount is the non-keyboard version of the same
    // misfire: `scroll` sets first_interaction_ms, `mousemove` does not.
    let at_boundary = BehaviorReport {
        mouse_moves: 5,
        touches: 0,
        interactions: BEHAVIOR_ISOLATED_INTERACTION_MAX,
        first_interaction_ms: Some(10),
        ..Default::default()
    };
    let past_boundary = BehaviorReport {
        interactions: BEHAVIOR_ISOLATED_INTERACTION_MAX + 1,
        ..at_boundary
    };
    // Pointer present, so this isolates the instant-interaction term.
    assert_eq!(
        score_behavior(BehaviorPresence::Present(at_boundary)),
        BEHAVIOR_INSTANT_INTERACTION_SCORE
    );
    assert_eq!(score_behavior(BehaviorPresence::Present(past_boundary)), 0);
}

#[test]
fn instant_threshold_is_inclusive_low() {
    let r = BehaviorReport {
        mouse_moves: 5,
        touches: 0,
        interactions: 1,
        first_interaction_ms: Some(BEHAVIOR_INSTANT_INTERACTION_MS),
        ..Default::default()
    };
    // Exactly at threshold: not penalised
    assert_eq!(score_behavior(BehaviorPresence::Present(r)), 0);
}

#[test]
fn no_first_interaction_doesnt_trigger_instant() {
    let r = BehaviorReport {
        mouse_moves: 5,
        touches: 0,
        interactions: 0,
        first_interaction_ms: None,
        ..Default::default()
    };
    assert_eq!(score_behavior(BehaviorPresence::Present(r)), 0);
}

#[test]
fn webdriver_flag_alone_lands_in_shadow_band() {
    let r = BehaviorReport {
        mouse_moves: 30,
        interactions: 5,
        first_interaction_ms: Some(1_500),
        webdriver: Some(true),
        ..Default::default()
    };
    // Otherwise organic, but webdriver=true → 30 → shadow_min boundary.
    assert_eq!(
        score_behavior(BehaviorPresence::Present(r)),
        BEHAVIOR_AUTOMATION_SCORE
    );
}

#[test]
fn webdriver_plus_flatline_scores_block_band() {
    let r = BehaviorReport {
        webdriver: Some(true),
        ..Default::default()
    };
    // Flatline (30) + webdriver (30) = 60 → block_min boundary.
    assert_eq!(
        score_behavior(BehaviorPresence::Present(r)),
        BEHAVIOR_FLATLINE_SCORE + BEHAVIOR_AUTOMATION_SCORE
    );
}

#[test]
fn automation_artifacts_score_like_webdriver() {
    // A driver that scrubbed navigator.webdriver but left cdc_ globals
    // behind — the case the artifact probe exists to catch.
    let r = BehaviorReport {
        mouse_moves: 30,
        interactions: 5,
        first_interaction_ms: Some(1_500),
        webdriver: Some(false),
        automation: Some(true),
        ..Default::default()
    };
    assert_eq!(
        score_behavior(BehaviorPresence::Present(r)),
        BEHAVIOR_AUTOMATION_SCORE
    );
}

#[test]
fn webdriver_and_automation_saturate() {
    // Both markers describe one fact (driven browser), so they must not
    // sum — otherwise every driven browser lands at block_min and the
    // "organic interaction ⇒ ShadowFail" stance is silently reversed.
    let r = BehaviorReport {
        mouse_moves: 30,
        interactions: 5,
        first_interaction_ms: Some(1_500),
        webdriver: Some(true),
        automation: Some(true),
        ..Default::default()
    };
    assert_eq!(
        score_behavior(BehaviorPresence::Present(r)),
        BEHAVIOR_AUTOMATION_SCORE
    );
}

#[test]
fn headless_alone_stays_below_shadow_band() {
    // 20 < the default VERIFY_SHADOW_MIN of 30 — a false positive on an
    // otherwise-organic visitor must not change their outcome.
    let mut r = report();
    r.headless = Some(true);
    assert_eq!(
        score_behavior(BehaviorPresence::Present(r)),
        BEHAVIOR_HEADLESS_SCORE
    );
}

#[test]
fn headless_compounds_with_automation() {
    let r = BehaviorReport {
        mouse_moves: 30,
        interactions: 5,
        first_interaction_ms: Some(1_500),
        webdriver: Some(true),
        headless: Some(true),
        ..Default::default()
    };
    assert_eq!(
        score_behavior(BehaviorPresence::Present(r)),
        BEHAVIOR_AUTOMATION_SCORE + BEHAVIOR_HEADLESS_SCORE
    );
}

#[test]
fn new_probes_absent_scores_like_legacy_widget() {
    // Older widgets omit both fields entirely — they must stay neutral so
    // existing integrations don't shift on rollout.
    let r = BehaviorReport {
        mouse_moves: 30,
        touches: 0,
        interactions: 5,
        first_interaction_ms: Some(1_500),
        webdriver: Some(false),
        automation: None,
        headless: None,
    };
    assert_eq!(score_behavior(BehaviorPresence::Present(r)), 0);
}

#[test]
fn webdriver_false_does_not_score() {
    let r = BehaviorReport {
        mouse_moves: 30,
        interactions: 5,
        first_interaction_ms: Some(1_500),
        webdriver: Some(false),
        ..Default::default()
    };
    assert_eq!(score_behavior(BehaviorPresence::Present(r)), 0);
}

#[test]
fn webdriver_missing_does_not_score() {
    let r = BehaviorReport {
        mouse_moves: 30,
        interactions: 5,
        first_interaction_ms: Some(1_500),
        webdriver: None,
        ..Default::default()
    };
    assert_eq!(score_behavior(BehaviorPresence::Present(r)), 0);
}

// ── Impossible timing ──

#[test]
fn impossible_timing_is_absent_safe() {
    assert_eq!(
        score_impossible_timing(BehaviorPresence::Absent, Some(1_000)),
        0
    );
}

#[test]
fn impossible_timing_needs_a_server_dwell() {
    // The failover path has no challenge and so no dwell — nothing to
    // contradict, and it must not become a free penalty during an outage.
    let r = BehaviorReport {
        first_interaction_ms: Some(600_000),
        interactions: 3,
        ..report()
    };
    assert_eq!(
        score_impossible_timing(BehaviorPresence::Present(r), None),
        0
    );
}

#[test]
fn impossible_timing_ignores_a_missing_first_interaction() {
    // A pointer-only visitor never sets the field; absence can't lie.
    let r = BehaviorReport {
        first_interaction_ms: None,
        ..report()
    };
    assert_eq!(
        score_impossible_timing(BehaviorPresence::Present(r), Some(0)),
        0
    );
}

#[test]
fn impossible_timing_boundary_is_the_slack() {
    let dwell = 2_000;
    let at_slack = BehaviorReport {
        first_interaction_ms: Some(dwell + BEHAVIOR_IMPOSSIBLE_TIMING_SLACK_MS),
        ..report()
    };
    let past_slack = BehaviorReport {
        first_interaction_ms: Some(dwell + BEHAVIOR_IMPOSSIBLE_TIMING_SLACK_MS + 1),
        ..report()
    };
    assert_eq!(
        score_impossible_timing(BehaviorPresence::Present(at_slack), Some(dwell)),
        0,
        "exactly one slack ahead is still explainable by the puzzle fetch"
    );
    assert_eq!(
        score_impossible_timing(BehaviorPresence::Present(past_slack), Some(dwell)),
        BEHAVIOR_IMPOSSIBLE_TIMING_SCORE
    );
}

#[test]
fn organic_widget_timings_are_never_impossible() {
    // The ordinary case: the interaction predates the submit, so the
    // claim is below the dwell and the slack is not even consulted.
    let r = report(); // first_interaction_ms = 800
    assert_eq!(
        score_impossible_timing(BehaviorPresence::Present(r), Some(30_000)),
        0
    );
}

#[test]
fn keyboard_only_visitor_is_untouched_by_the_plausibility_checks() {
    // Pointer-free with a real interaction trail. `first_interaction_ms`
    // is set (keydown does set it, unlike mousemove), so this visitor is
    // in scope for the timing check and must still score nothing.
    let keyboard = BehaviorReport {
        mouse_moves: 0,
        touches: 0,
        interactions: 24,
        first_interaction_ms: Some(1_500),
        ..Default::default()
    };
    let p = BehaviorPresence::Present(keyboard);
    assert_eq!(score_behavior(p), 0);
    assert_eq!(score_impossible_timing(p, Some(1_500)), 0);
    assert_eq!(score_duplicate_blob(p, BEHAVIOR_DUPLICATE_MIN - 1), 0);
}

// ── Duplicate blobs ──

#[test]
fn duplicate_is_absent_safe() {
    assert_eq!(
        score_duplicate_blob(BehaviorPresence::Absent, BEHAVIOR_DUPLICATE_MIN * 10),
        0
    );
}

#[test]
fn duplicate_boundary_is_the_threshold() {
    let p = BehaviorPresence::Present(report());
    assert_eq!(score_duplicate_blob(p, BEHAVIOR_DUPLICATE_MIN - 1), 0);
    assert_eq!(
        score_duplicate_blob(p, BEHAVIOR_DUPLICATE_MIN),
        BEHAVIOR_DUPLICATE_SCORE
    );
}

#[test]
fn flatline_is_excluded_from_dedup() {
    // Every visitor who submits without touching the page produces this
    // exact blob, so repeats are expected — and it already scores +30.
    let flat = BehaviorReport::default();
    assert!(!claims_activity(&flat));
    assert_eq!(
        score_duplicate_blob(
            BehaviorPresence::Present(flat),
            BEHAVIOR_DUPLICATE_MIN * 100
        ),
        0
    );
    // A flatline carrying only environment probes is still a flatline.
    let probed = BehaviorReport {
        webdriver: Some(false),
        automation: Some(false),
        headless: Some(false),
        ..Default::default()
    };
    assert!(!claims_activity(&probed));
}

#[test]
fn any_single_counter_makes_a_blob_eligible_for_dedup() {
    for r in [
        BehaviorReport {
            mouse_moves: 1,
            ..Default::default()
        },
        BehaviorReport {
            touches: 1,
            ..Default::default()
        },
        BehaviorReport {
            interactions: 1,
            ..Default::default()
        },
    ] {
        assert!(claims_activity(&r));
    }
}

#[test]
fn both_plausibility_checks_stack() {
    // Independent facts: one is about this submission's internal
    // consistency, the other about the population of submissions. Unlike
    // webdriver/automation they are not two views of one thing, so they
    // sum — and a client that trips both has earned block_min.
    let r = BehaviorReport {
        mouse_moves: 20,
        interactions: 2,
        first_interaction_ms: Some(120_000),
        ..Default::default()
    };
    let p = BehaviorPresence::Present(r);
    let total = score_behavior(p)
        + score_impossible_timing(p, Some(1_000))
        + score_duplicate_blob(p, BEHAVIOR_DUPLICATE_MIN);
    assert_eq!(
        total,
        BEHAVIOR_IMPOSSIBLE_TIMING_SCORE + BEHAVIOR_DUPLICATE_SCORE
    );
}

// ── Fingerprint ──

#[test]
fn fingerprint_is_stable_and_field_sensitive() {
    let a = report();
    assert_eq!(behavior_fingerprint(&a), behavior_fingerprint(&report()));

    for changed in [
        BehaviorReport {
            mouse_moves: a.mouse_moves + 1,
            ..a
        },
        BehaviorReport {
            touches: a.touches + 1,
            ..a
        },
        BehaviorReport {
            interactions: a.interactions + 1,
            ..a
        },
        BehaviorReport {
            first_interaction_ms: Some(801),
            ..a
        },
        BehaviorReport {
            first_interaction_ms: None,
            ..a
        },
        BehaviorReport {
            webdriver: Some(true),
            ..a
        },
        BehaviorReport {
            automation: None,
            ..a
        },
        BehaviorReport {
            headless: Some(true),
            ..a
        },
    ] {
        assert_ne!(
            behavior_fingerprint(&a),
            behavior_fingerprint(&changed),
            "every wire field must be covered by the fingerprint"
        );
    }
}

/// A report as the widget's JSON writes it: what is left out is zero or absent.
fn from_json(text: &str) -> BehaviorReport {
    let v: serde_json::Value = serde_json::from_str(text).unwrap();
    let count = |name: &str| v.get(name).and_then(|n| n.as_u64()).unwrap_or(0) as u32;
    BehaviorReport {
        mouse_moves: count("mouse_moves"),
        touches: count("touches"),
        interactions: count("interactions"),
        first_interaction_ms: v.get("first_interaction_ms").and_then(|n| n.as_u64()),
        webdriver: v.get("webdriver").and_then(|f| f.as_bool()),
        automation: v.get("automation").and_then(|f| f.as_bool()),
        headless: v.get("headless").and_then(|f| f.as_bool()),
    }
}

#[test]
fn fingerprint_ignores_json_shape() {
    // The parsed report is hashed, not its text: another order of the keys, or a default
    // that is written out, gives the same fingerprint.
    let a = from_json(r#"{"mouse_moves":12,"interactions":3,"first_interaction_ms":800}"#);
    let b = from_json(
        r#"{ "first_interaction_ms" : 800 , "interactions": 3, "touches": 0,
             "mouse_moves": 12 }"#,
    );
    assert_eq!(behavior_fingerprint(&a), behavior_fingerprint(&b));
}
