use bollwark::error::CaptchaError;
use bollwark::net::{parse_ip, IpAddr};
use bollwark::puzzle::types::{Algorithm, Challenge};
use bollwark::risk::behavior::BEHAVIOR_DUPLICATE_WINDOW_SECS;
use bollwark::site::types::{Site, SitePolicy};
use bollwark::storage::memory::InMemoryStore;
use bollwark::storage::rows::{row_of_site, site_from_row, SiteRow};
use bollwark::time::{now, Timestamp};
use uuid::Uuid;

fn new_id() -> u128 {
    Uuid::new_v4().as_u128()
}

fn make_challenge(site_key: u128, ttl_secs: i64) -> Challenge {
    let now = now();
    Challenge {
        id: new_id(),
        site_key,
        algorithm: Algorithm::Sha256,
        prefix: "deadbeef".into(),
        difficulty: 8,
        created_at: now,
        dwell_since: now,
        expires_at: Timestamp::new(now.secs + ttl_secs, now.nanos),
        attempts: 0,
        issued_to: None,
    }
}

fn make_site() -> Site {
    // Random secret so two sites in the same test don't collide.
    let secret = format!("secret-{}", Uuid::new_v4().simple());
    Site {
        site_key: new_id(),
        secret_key: secret,
        name: "Test Site".into(),
        created_at: now(),
        allowed_origins: Vec::new(),
        policy: SitePolicy::default(),
    }
}

/// The rows of a store, as a database would hold them.
fn saved(store: &InMemoryStore) -> Vec<SiteRow> {
    store.list_sites().iter().map(row_of_site).collect()
}

/// A store that is opened on rows.
fn reopened(rows: Vec<SiteRow>) -> Result<InMemoryStore, CaptchaError> {
    let mut sites = Vec::new();
    for row in rows {
        sites.push(site_from_row(
            &row.site_key,
            row.secret_key,
            row.name,
            &row.created_at,
            &row.allowed_origins,
            Ok(row.policy),
        )?);
    }
    Ok(InMemoryStore::with_sites(sites))
}

#[test]
fn test_challenge_crud() {
    let mut store = InMemoryStore::new();
    let challenge = make_challenge(new_id(), 300);

    store.store_challenge(&challenge);
    let fetched = store.get_challenge(&challenge.id).unwrap();
    assert_eq!(fetched.id, challenge.id);

    store.delete_challenge(&challenge.id);
    assert!(store.get_challenge(&challenge.id).is_none());
}

#[test]
fn test_consume_challenge_removes_once() {
    let mut store = InMemoryStore::new();
    let challenge = make_challenge(new_id(), 300);

    store.store_challenge(&challenge);
    store.consume_challenge(&challenge.id).unwrap();

    assert!(store.get_challenge(&challenge.id).is_none());
    let second = store.consume_challenge(&challenge.id);
    assert!(matches!(second, Err(CaptchaError::ChallengeNotFound)));
}

#[test]
fn test_register_failed_attempt_evicts_at_cap() {
    let mut store = InMemoryStore::new();
    let challenge = make_challenge(new_id(), 300);
    store.store_challenge(&challenge);

    // Below the cap the challenge stays live.
    assert!(!store.register_failed_attempt(&challenge.id, 3));
    assert!(!store.register_failed_attempt(&challenge.id, 3));
    assert!(store.get_challenge(&challenge.id).is_some());

    // The third failed attempt reaches the cap and evicts it.
    assert!(store.register_failed_attempt(&challenge.id, 3));
    assert!(store.get_challenge(&challenge.id).is_none());
}

#[test]
fn test_register_failed_attempt_disabled_when_zero() {
    let mut store = InMemoryStore::new();
    let challenge = make_challenge(new_id(), 300);
    store.store_challenge(&challenge);

    // max_attempts = 0 disables the cap: never evicts, never increments.
    for _ in 0..1000 {
        assert!(!store.register_failed_attempt(&challenge.id, 0));
    }
    assert!(store.get_challenge(&challenge.id).is_some());
    assert_eq!(store.get_challenge(&challenge.id).unwrap().attempts, 0);
}

#[test]
fn test_register_failed_attempt_missing_challenge() {
    let mut store = InMemoryStore::new();
    // A never-existed / already-consumed challenge is a no-op, not an error.
    assert!(!store.register_failed_attempt(&new_id(), 3));
}

#[test]
fn test_challenge_count() {
    let mut store = InMemoryStore::new();
    assert_eq!(store.challenge_count(), 0);
    let a = make_challenge(new_id(), 300);
    let b = make_challenge(new_id(), 300);
    store.store_challenge(&a);
    store.store_challenge(&b);
    assert_eq!(store.challenge_count(), 2);
    store.consume_challenge(&a.id).unwrap();
    assert_eq!(store.challenge_count(), 1);
}

#[test]
fn test_site_crud() {
    let mut store = InMemoryStore::new();
    let site = make_site();

    store.store_site(&site);

    let by_key = store.get_site_by_key(&site.site_key).unwrap();
    assert_eq!(by_key.name, site.name);

    let by_secret = store.get_site_by_secret(&site.secret_key).unwrap();
    assert_eq!(by_secret.site_key, site.site_key);
}

#[test]
fn test_site_not_found() {
    let store = InMemoryStore::new();
    assert!(store.get_site_by_key(&new_id()).is_none());
    assert!(store.get_site_by_secret("nonexistent").is_none());
}

#[test]
fn test_sustained_ip_counter_is_independent_of_the_minute_counter() {
    let mut store = InMemoryStore::new();
    let ip: IpAddr = parse_ip("127.0.0.1").unwrap();

    for _ in 0..3 {
        store.increment_ip_count(&ip);
    }
    // The sustained map has seen nothing yet; it starts its own count.
    assert_eq!(store.increment_ip_count_sustained(&ip), 1);
    assert_eq!(store.increment_ip_count_sustained(&ip), 2);
    // And the minute counter was not touched by those increments.
    assert_eq!(store.increment_ip_count(&ip), 4);
}

#[test]
fn test_ip_rate_counter() {
    let mut store = InMemoryStore::new();
    let ip: IpAddr = parse_ip("127.0.0.1").unwrap();

    assert_eq!(store.increment_ip_count(&ip), 1);
    assert_eq!(store.increment_ip_count(&ip), 2);
    assert_eq!(store.increment_ip_count(&ip), 3);
}

#[test]
fn test_site_rate_counter() {
    let mut store = InMemoryStore::new();
    let site_key = new_id();

    assert_eq!(store.increment_site_count(&site_key), 1);
    assert_eq!(store.increment_site_count(&site_key), 2);
}

#[test]
fn test_behavior_blob_counter_is_per_site_and_per_fingerprint() {
    let mut store = InMemoryStore::new();
    let site = new_id();
    let other_site = new_id();

    assert_eq!(store.increment_behavior_blob_count(&site, 42), 1);
    assert_eq!(store.increment_behavior_blob_count(&site, 42), 2);
    // A different blob on the same site is a separate count...
    assert_eq!(store.increment_behavior_blob_count(&site, 43), 1);
    // ...and so is the same blob on a different site: one tenant's traffic
    // must never push another tenant's visitors over the threshold.
    assert_eq!(store.increment_behavior_blob_count(&other_site, 42), 1);
}

#[test]
fn test_cleanup_reclaims_stale_behavior_blob_windows() {
    let mut store = InMemoryStore::new();
    let site = new_id();
    // Past twice the dedup window, which is what the sweep reclaims on. Without the sweep
    // this map would grow for the process lifetime.
    let long_ago = now().secs - BEHAVIOR_DUPLICATE_WINDOW_SECS * 3;
    store.increment_behavior_blob_count_at(&site, 7, long_ago);
    assert!(store.behavior_blobs.sites[&site].windows.contains_key(&7));

    store.cleanup_expired();

    // Assert on the map, not on a fresh count: an increment rolls a stale window over by
    // itself, so a count of 1 would look identical whether or not the sweep ever ran.
    assert!(
        match store.behavior_blobs.sites.get(&site) {
            Some(counts) => !counts.windows.contains_key(&7),
            None => true,
        },
        "the sweeper must reclaim the dedup map, not just the rate windows"
    );
}

#[test]
fn test_rotate_site_secret_in_memory() {
    let mut store = InMemoryStore::new();
    let site = make_site();
    store.store_site(&site);

    let new_secret = "rotated-secret".to_string();
    store
        .rotate_site_secret(&site.site_key, new_secret.clone())
        .unwrap();

    // Old secret no longer resolves.
    assert!(store.get_site_by_secret(&site.secret_key).is_none());
    // New secret resolves.
    let by_new = store.get_site_by_secret(&new_secret).unwrap();
    assert_eq!(by_new.site_key, site.site_key);
    assert_eq!(by_new.secret_key, new_secret);
}

#[test]
fn test_rotate_site_secret_not_found() {
    let mut store = InMemoryStore::new();
    let result = store.rotate_site_secret(&new_id(), "x".into());
    assert!(matches!(result, Err(CaptchaError::NotFound)));
}

#[test]
fn test_delete_site_in_memory() {
    let mut store = InMemoryStore::new();
    let site = make_site();
    store.store_site(&site);

    store.delete_site(&site.site_key).unwrap();

    assert!(store.get_site_by_key(&site.site_key).is_none());
    assert!(store.get_site_by_secret(&site.secret_key).is_none());
}

#[test]
fn test_delete_site_not_found() {
    let mut store = InMemoryStore::new();
    let result = store.delete_site(&new_id());
    assert!(matches!(result, Err(CaptchaError::NotFound)));
}

#[test]
fn test_rotate_and_delete_persist_across_reopen() {
    let site_a = make_site();
    let site_b = make_site();
    let mut first = InMemoryStore::new();
    first.store_site(&site_a);
    first.store_site(&site_b);
    first
        .rotate_site_secret(&site_a.site_key, "rotated".into())
        .unwrap();
    first.delete_site(&site_b.site_key).unwrap();

    let store = reopened(saved(&first)).unwrap();
    assert_eq!(store.site_count(), 1);
    let reloaded = store
        .get_site_by_secret("rotated")
        .expect("rotated secret resolves after reopen");
    assert_eq!(reloaded.site_key, site_a.site_key);
    assert!(
        store.get_site_by_key(&site_b.site_key).is_none(),
        "deleted site should not reload"
    );
}

#[test]
fn test_site_persistence_round_trip() {
    let site = make_site();
    let mut first = InMemoryStore::new();
    first.store_site(&site);

    let store = reopened(saved(&first)).unwrap();
    assert_eq!(store.site_count(), 1);
    let by_key = store
        .get_site_by_key(&site.site_key)
        .expect("site reloaded by key");
    assert_eq!(by_key.name, site.name);
    assert_eq!(by_key.created_at, site.created_at);
    let by_secret = store
        .get_site_by_secret(&site.secret_key)
        .expect("site reloaded by secret");
    assert_eq!(by_secret.site_key, site.site_key);
}

#[test]
fn test_allowed_origins_round_trip() {
    let mut site = make_site();
    site.allowed_origins = vec![
        "https://a.example".to_string(),
        "https://b.example:8443".to_string(),
    ];
    let mut first = InMemoryStore::new();
    first.store_site(&site);

    let store = reopened(saved(&first)).unwrap();
    let reloaded = store.get_site_by_key(&site.site_key).expect("site reloaded");
    assert_eq!(reloaded.allowed_origins, site.allowed_origins);
}

#[test]
fn test_update_site_origins_persists_across_reopen() {
    let site = make_site();
    let mut first = InMemoryStore::new();
    first.store_site(&site);
    // Site starts with no restriction; set one.
    first
        .update_site_origins(&site.site_key, vec!["https://only.example".to_string()])
        .unwrap();

    let store = reopened(saved(&first)).unwrap();
    let reloaded = store.get_site_by_key(&site.site_key).expect("site reloaded");
    assert_eq!(reloaded.allowed_origins, vec!["https://only.example"]);
}

#[test]
fn test_update_site_origins_not_found() {
    let mut store = InMemoryStore::new();
    let result = store.update_site_origins(&new_id(), vec!["https://x.example".to_string()]);
    assert!(matches!(result, Err(CaptchaError::NotFound)));
}

#[test]
fn test_update_site_name_persists_across_reopen() {
    let site = make_site();
    let mut first = InMemoryStore::new();
    first.store_site(&site);
    first
        .update_site_name(&site.site_key, "renamed".to_string())
        .unwrap();

    let store = reopened(saved(&first)).unwrap();
    let reloaded = store.get_site_by_key(&site.site_key).expect("site reloaded");
    assert_eq!(reloaded.name, "renamed");
}

#[test]
fn test_update_site_name_leaves_the_secret_lookup_intact() {
    let mut store = InMemoryStore::new();
    let site = make_site();
    store.store_site(&site);

    store
        .update_site_name(&site.site_key, "  renamed  ".to_string())
        .unwrap();

    let found = store
        .get_site_by_secret(&site.secret_key)
        .expect("the secret still resolves");
    assert_eq!(found.site_key, site.site_key);
    // Trimming is `normalize_site_name`'s job, not the store's: it writes what it is handed.
    assert_eq!(found.name, "  renamed  ");
}

#[test]
fn test_update_site_name_not_found() {
    let mut store = InMemoryStore::new();
    let result = store.update_site_name(&new_id(), "whatever".to_string());
    assert!(matches!(result, Err(CaptchaError::NotFound)));
}

#[test]
fn test_policy_round_trips_through_persistence() {
    let policy = SitePolicy {
        tier_checkbox_min: Some(10),
        tier_hard_pow_min: Some(25),
        tier_block_min: Some(60),
        ..Default::default()
    };
    let mut first = InMemoryStore::new();
    let mut site = make_site();
    site.policy = policy;
    first.store_site(&site);

    // The policy must come back identical, or a restart silently reverts a tenant to the
    // looser global thresholds.
    let store = reopened(saved(&first)).unwrap();
    let reloaded = store.get_site_by_key(&site.site_key).unwrap();
    assert_eq!(reloaded.policy, policy);
}

#[test]
fn test_update_site_policy_persists_and_clears() {
    let site = make_site();
    let mut first = InMemoryStore::new();
    first.store_site(&site);
    first
        .update_site_policy(
            &site.site_key,
            SitePolicy {
                verify_block_min: Some(30),
                ..Default::default()
            },
        )
        .unwrap();

    let mut second = reopened(saved(&first)).unwrap();
    let reloaded = second.get_site_by_key(&site.site_key).unwrap();
    assert_eq!(reloaded.policy.verify_block_min, Some(30));

    // Clearing stores nothing, not an empty document: an emptied policy must be
    // indistinguishable from a site that never had one.
    second
        .update_site_policy(&site.site_key, SitePolicy::default())
        .unwrap();
    let rows = saved(&second);
    assert_eq!(rows[0].policy, None);
    let store = reopened(rows).unwrap();
    let reloaded = store.get_site_by_key(&site.site_key).unwrap();
    assert!(reloaded.policy.is_empty());
}

#[test]
fn test_update_site_policy_unknown_site_is_not_found() {
    let mut store = InMemoryStore::new();
    let result = store.update_site_policy(&new_id(), SitePolicy::default());
    assert!(matches!(result, Err(CaptchaError::NotFound)));
}

#[test]
fn test_unparseable_policy_column_refuses_to_load() {
    // A corrupt policy must not degrade to "no overrides": that would silently restore the
    // looser global thresholds for a site whose operator deliberately tightened them.
    let row = row_of_site(&make_site());
    let key = row.site_key.clone();
    let error = serde_json::from_str::<serde_json::Value>("not json").unwrap_err().to_string();
    let r = site_from_row(
        &row.site_key,
        row.secret_key,
        row.name,
        &row.created_at,
        &row.allowed_origins,
        Err(error.clone()),
    );
    match r {
        Err(CaptchaError::Storage(detail)) => {
            assert_eq!(detail, format!("bad policy for site {key} in db: {error}"));
        }
        other => panic!("{other:?}"),
    }
}

#[test]
fn test_cleanup_expired() {
    let mut store = InMemoryStore::new();
    let expired = make_challenge(new_id(), -10); // already expired
    let valid = make_challenge(new_id(), 300);

    store.store_challenge(&expired);
    store.store_challenge(&valid);

    store.cleanup_expired();

    assert!(store.get_challenge(&expired.id).is_none());
    assert!(store.get_challenge(&valid.id).is_some());
}

#[test]
fn rows_that_cannot_be_read_are_named() {
    let row = row_of_site(&make_site());
    let read = |key: &str, created: &str| {
        site_from_row(key, "s".into(), "n".into(), created, "", Ok(None))
    };
    match read("not-a-key", &row.created_at) {
        Err(CaptchaError::Storage(detail)) => {
            let e = Uuid::parse_str("not-a-key").unwrap_err();
            assert_eq!(detail, format!("bad site_key in db: {e}"));
        }
        other => panic!("{other:?}"),
    }
    match read(&row.site_key, "yesterday") {
        Err(CaptchaError::Storage(detail)) => {
            let e = chrono::DateTime::parse_from_rfc3339("yesterday").unwrap_err();
            assert_eq!(detail, format!("bad created_at in db: {e}"));
        }
        other => panic!("{other:?}"),
    }
}

#[test]
fn a_row_is_written_in_plain_text() {
    let site = Site {
        site_key: 0x550e8400_e29b_41d4_a716_446655440000,
        secret_key: "s".into(),
        name: "n".into(),
        created_at: Timestamp::new(1_700_000_000, 500_000_000),
        allowed_origins: vec!["https://a".into(), "https://b".into()],
        policy: SitePolicy::default(),
    };
    let row = row_of_site(&site);
    assert_eq!(row.site_key, "550e8400-e29b-41d4-a716-446655440000");
    assert_eq!(row.created_at, "2023-11-14T22:13:20.500+00:00");
    assert_eq!(row.allowed_origins, "https://a https://b");
    assert!(row.policy.is_none());
}

#[test]
fn sites_are_listed_by_age() {
    let mut store = InMemoryStore::new();
    let ages = [30, 10, 20, 10];
    for age in ages {
        let mut site = make_site();
        site.created_at = Timestamp::new(age, 0);
        store.store_site(&site);
    }
    let listed: Vec<i64> = store.list_sites().iter().map(|s| s.created_at.secs).collect();
    assert_eq!(listed, vec![10, 10, 20, 30]);
}

#[test]
fn of_two_rows_for_a_site_the_later_counts() {
    let mut a = make_site();
    a.name = "first".into();
    let mut b = a.clone();
    b.name = "second".into();
    b.secret_key = "other".into();
    let store = InMemoryStore::with_sites(vec![a.clone(), b]);
    assert_eq!(store.site_count(), 1);
    assert_eq!(store.get_site_by_key(&a.site_key).unwrap().name, "second");
    assert_eq!(store.get_site_by_secret("other").unwrap().site_key, a.site_key);
}

#[test]
fn counts_start_anew_once_their_window_is_over() {
    let mut store = InMemoryStore::new();
    let ip = parse_ip("2001:db8::1").unwrap();
    assert_eq!(store.increment_ip_count_at(&ip, 1000), 1);
    assert_eq!(store.increment_ip_count_at(&ip, 1059), 2);
    assert_eq!(store.increment_ip_count_at(&ip, 1060), 1);
    assert_eq!(store.increment_ip_count_sustained_at(&ip, 1000), 1);
    assert_eq!(store.increment_ip_count_sustained_at(&ip, 1899), 2);
    assert_eq!(store.increment_ip_count_sustained_at(&ip, 1900), 1);
    assert_eq!(store.increment_site_count_at(&5, 1000), 1);
    assert_eq!(store.increment_site_count_at(&5, 1060), 1);
    // The two families of addresses are counted apart.
    assert_eq!(store.increment_ip_count_at(&IpAddr::V4(7), 0), 1);
    assert_eq!(store.increment_ip_count_at(&IpAddr::V6(7), 0), 1);
}

#[test]
fn the_sweep_changes_no_count() {
    let mut swept = InMemoryStore::new();
    let mut kept = InMemoryStore::new();
    let ip = IpAddr::V4(1);
    for t in [0, 10, 50, 70, 100, 300] {
        swept.cleanup_expired_at(Timestamp::new(t, 0));
        assert_eq!(
            swept.increment_ip_count_at(&ip, t),
            kept.increment_ip_count_at(&ip, t)
        );
    }
}

#[test]
fn a_challenge_that_expires_now_is_swept() {
    let mut store = InMemoryStore::default();
    let mut c = make_challenge(1, 0);
    c.expires_at = Timestamp::new(100, 0);
    store.store_challenge(&c);
    store.cleanup_expired_at(Timestamp::new(99, 999_999_999));
    assert_eq!(store.challenge_count(), 1);
    store.cleanup_expired_at(Timestamp::new(100, 0));
    assert_eq!(store.challenge_count(), 0);
}
