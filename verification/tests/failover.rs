use bollwark::failover::{read_state, FailoverConfig, FailoverGuard, FailoverState, FailoverVerdict,
    OutageSource, OutageWindow};
use bollwark::time::{now, Timestamp};
use uuid::Uuid;

fn cfg() -> FailoverConfig {
    FailoverConfig {
        enabled: true,
        state_path: Some("failover.json".to_string()),
        heartbeat_interval_secs: 15,
        min_gap_secs: 60,
        grace_secs: 300,
        max_per_min: 5,
    }
}

fn site_key() -> u128 {
    Uuid::new_v4().as_u128()
}

/// The point that lies some seconds before or behind another.
fn shifted(t: Timestamp, secs: i64) -> Timestamp {
    Timestamp::new(t.secs + secs, t.nanos)
}

fn millis(t: Timestamp) -> i64 {
    t.secs * 1000 + (t.nanos / 1_000_000) as i64
}

fn fresh() -> FailoverGuard {
    FailoverGuard::load(cfg(), FailoverState::default())
}

#[test]
fn first_boot_attests_nothing() {
    let mut guard = fresh();
    assert!(guard.active_windows().is_empty());
    assert_eq!(
        guard.evaluate(&site_key(), millis(now())),
        FailoverVerdict::Unattested,
        "a fresh deployment must not hand out a fail-open window"
    );
}

#[test]
fn heartbeat_gap_across_restart_attests_a_window() {
    // A process that was last alive 10 minutes ago.
    let stale = FailoverState {
        last_heartbeat: Some(shifted(now(), -600)),
        windows: vec![],
    };
    let mut guard = FailoverGuard::load(cfg(), stale);
    let windows = guard.active_windows();
    assert_eq!(windows.len(), 1);
    assert_eq!(windows[0].source, OutageSource::HeartbeatGap);
    assert!(matches!(
        guard.evaluate(&site_key(), millis(now())),
        FailoverVerdict::Accept { .. }
    ));
}

#[test]
fn short_gap_is_not_an_outage() {
    let recent = FailoverState {
        last_heartbeat: Some(shifted(now(), -5)),
        windows: vec![],
    };
    let guard = FailoverGuard::load(cfg(), recent);
    assert!(
        guard.active_windows().is_empty(),
        "a normal restart is not an outage"
    );
}

#[test]
fn declared_window_is_honored_then_expires_after_grace() {
    let mut guard = fresh();
    let now = now();
    guard.declare_outage(shifted(now, -300), now);

    let site = site_key();
    assert!(guard.evaluate_at(&site, millis(now), now).accepted());

    // Grace is 300s; 301s past the window's close it must stop covering.
    let after = shifted(now, 301);
    assert_eq!(
        guard.evaluate_at(&site, millis(after), after),
        FailoverVerdict::Unattested,
        "a closed window must not stay open past its grace tail"
    );
}

#[test]
fn backdated_claim_cannot_reopen_a_stale_window() {
    let mut guard = fresh();
    let now = now();
    guard.declare_outage(shifted(now, -300), now);

    // A claim stamped inside the old window, long after grace has elapsed. The window check
    // keys on the time of the decision, so this fails.
    let much_later = shifted(now, 7200);
    assert_eq!(
        guard.evaluate_at(&site_key(), millis(shifted(now, -240)), much_later),
        FailoverVerdict::Unattested
    );
}

#[test]
fn future_dated_claim_is_stale() {
    let mut guard = fresh();
    let now = now();
    guard.declare_outage(shifted(now, -60), now);
    assert_eq!(
        guard.evaluate_at(&site_key(), millis(shifted(now, 3600)), now),
        FailoverVerdict::StaleClaim
    );
}

#[test]
fn per_site_cap_bounds_accepted_claims() {
    let mut guard = fresh(); // max_per_min = 5
    let now = now();
    guard.declare_outage(shifted(now, -60), now);

    let site = site_key();
    for i in 0..5 {
        assert!(
            guard.evaluate_at(&site, millis(now), now).accepted(),
            "claim {i} should be within the cap"
        );
    }
    assert_eq!(
        guard.evaluate_at(&site, millis(now), now),
        FailoverVerdict::RateLimited
    );

    // A different site has its own budget.
    assert!(guard.evaluate_at(&site_key(), millis(now), now).accepted());
}

#[test]
fn disabled_without_state_path() {
    let mut c = FailoverConfig {
        enabled: true,
        ..FailoverConfig::default()
    };
    c.state_path = None;
    let mut guard = FailoverGuard::load(c, FailoverState::default());
    assert!(!guard.enabled());
    assert_eq!(
        guard.evaluate(&site_key(), millis(now())),
        FailoverVerdict::Disabled
    );
}

#[test]
fn corrupt_state_file_degrades_to_nothing_attested() {
    let parsed = serde_json::from_slice::<serde_json::Value>(b"{not json");
    let state = read_state(parsed.map(|_| fresh().state).map_err(|e| e.to_string()));
    assert!(state.last_heartbeat.is_none());
    let guard = FailoverGuard::load(cfg(), state);
    assert!(guard.active_windows().is_empty());
}

#[test]
fn declared_window_survives_a_restart() {
    let now = now();
    let mut first = fresh();
    first.declare_outage(shifted(now, -60), shifted(now, 600));
    // A restart starts from the state that the last run left.
    let mut guard = FailoverGuard::load(cfg(), first.state);
    assert_eq!(guard.active_windows().len(), 1);
    assert!(guard.evaluate(&site_key(), millis(bollwark::time::now())).accepted());
}

const T0: Timestamp = Timestamp { secs: 1_700_000_000, nanos: 0 };

fn open_guard(max_per_min: u32) -> FailoverGuard {
    let mut guard = FailoverGuard::load_at(
        FailoverConfig { max_per_min, ..cfg() },
        FailoverState::default(),
        T0,
    );
    guard.declare_outage_at(shifted(T0, -60), T0, T0);
    guard
}

#[test]
fn a_gap_of_exactly_the_minimum_is_an_outage() {
    for (gap, count) in [(59, 0), (60, 1)] {
        let state = FailoverState {
            last_heartbeat: Some(shifted(T0, -gap)),
            windows: vec![],
        };
        let guard = FailoverGuard::load_at(cfg(), state, T0);
        assert_eq!(guard.active_windows_at(T0).len(), count);
    }
}

#[test]
fn the_end_of_the_grace_is_not_included() {
    let mut guard = open_guard(0);
    let last = Timestamp::new(T0.secs + 299, 999_999_999);
    assert!(guard.evaluate_at(&1, millis(last), last).accepted());
    let end = shifted(T0, 300);
    assert_eq!(
        guard.evaluate_at(&1, millis(end), end),
        FailoverVerdict::Unattested
    );
    assert!(guard.active_windows_at(end).is_empty());
}

#[test]
fn the_skew_of_a_client_is_tolerated() {
    let mut guard = open_guard(0);
    let at = |secs: i64| millis(shifted(T0, secs));
    assert!(guard.evaluate_at(&1, at(300), T0).accepted());
    assert_eq!(guard.evaluate_at(&1, at(300) + 1, T0), FailoverVerdict::StaleClaim);
    assert!(guard.evaluate_at(&1, at(-600), T0).accepted());
    assert_eq!(guard.evaluate_at(&1, at(-600) - 1, T0), FailoverVerdict::StaleClaim);
    assert_eq!(guard.evaluate_at(&1, i64::MIN, T0), FailoverVerdict::StaleClaim);
    assert_eq!(guard.evaluate_at(&1, i64::MAX, T0), FailoverVerdict::StaleClaim);
}

#[test]
fn the_budget_of_a_site_is_renewed_every_minute() {
    let mut guard = open_guard(1);
    assert!(guard.evaluate_at(&1, millis(T0), T0).accepted());
    let soon = shifted(T0, 59);
    assert_eq!(guard.evaluate_at(&1, millis(soon), soon), FailoverVerdict::RateLimited);
    let later = shifted(T0, 60);
    assert!(guard.evaluate_at(&1, millis(later), later).accepted());
}

#[test]
fn the_minute_of_the_limit_rolls() {
    let mut guard = open_guard(2);
    let mut ask = |secs: i64, site: u128| {
        let t = shifted(T0, secs);
        guard.evaluate_at(&site, millis(t), t).accepted()
    };
    assert!(ask(0, 1));
    assert!(ask(59, 1));
    assert!(!ask(59, 1));
    // The first claim is a minute old, the second is not.
    assert!(ask(60, 1));
    assert!(!ask(61, 1));
    assert!(!ask(118, 1));
    assert!(ask(119, 1));
    // Another site has a budget of its own.
    assert!(ask(119, 2));
    assert!(ask(119, 2));
    assert!(!ask(119, 2));
}

#[test]
fn an_outage_that_has_not_begun_is_kept() {
    let mut guard = FailoverGuard::load_at(cfg(), FailoverState::default(), T0);
    guard.declare_outage_at(shifted(T0, 100), shifted(T0, 200), T0);
    assert!(guard.active_windows_at(T0).is_empty());
    assert_eq!(guard.evaluate_at(&1, millis(T0), T0), FailoverVerdict::Unattested);
    guard.heartbeat_at(shifted(T0, 15));
    let mut guard = FailoverGuard::load_at(cfg(), guard.state, shifted(T0, 30));
    let during = shifted(T0, 150);
    assert_eq!(guard.active_windows_at(during).len(), 1);
    assert!(guard.evaluate_at(&1, millis(during), during).accepted());
    // With the end of its grace time it goes.
    guard.heartbeat_at(shifted(T0, 499));
    assert_eq!(guard.state.windows.len(), 1);
    guard.heartbeat_at(shifted(T0, 500));
    assert!(guard.state.windows.is_empty());
}

#[test]
fn without_a_limit_every_claim_is_within_it() {
    let mut guard = open_guard(0);
    for _ in 0..50 {
        assert!(guard.evaluate_at(&1, millis(T0), T0).accepted());
    }
}

#[test]
fn verdicts_are_counted_and_named() {
    let mut guard = open_guard(1);
    assert_eq!(
        guard.evaluate_counted_at(&1, millis(T0), T0),
        FailoverVerdict::Accept {
            source: OutageSource::Declared
        }
    );
    assert_eq!(
        guard.evaluate_counted_at(&1, millis(T0), T0).outcome(),
        "failover_rate_limited"
    );
    assert_eq!(guard.counters(), (1, 1));
    let named = [
        (FailoverVerdict::Disabled, "failover_disabled"),
        (FailoverVerdict::Unattested, "failover_unattested"),
        (FailoverVerdict::StaleClaim, "failover_stale"),
        (
            FailoverVerdict::Accept {
                source: OutageSource::HeartbeatGap,
            },
            "failover_pass",
        ),
    ];
    for (verdict, name) in named {
        assert_eq!(verdict.outcome(), name);
    }
}

#[test]
fn a_heartbeat_drops_windows_that_are_over() {
    let mut guard = open_guard(0);
    let old = OutageWindow {
        start: shifted(T0, -5000),
        end: shifted(T0, -4000),
        source: OutageSource::Declared,
    };
    guard.state.windows.push(old);
    guard.heartbeat_at(T0);
    assert_eq!(guard.state.last_heartbeat, Some(T0));
    assert_eq!(guard.state.windows.len(), 1);
    guard.heartbeat();
    assert!(guard.state.windows.is_empty());
    assert_eq!(guard.heartbeat_interval_secs(), 15);
}

#[test]
fn a_guard_that_is_off_refuses() {
    let mut guard = FailoverGuard::disabled();
    assert!(!guard.enabled());
    assert_eq!(guard.evaluate(&1, millis(now())), FailoverVerdict::Disabled);
}
