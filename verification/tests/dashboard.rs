use axum::http::{HeaderMap, HeaderValue};
use std::collections::HashMap;

use bollwark::config::AppConfig;
use bollwark::dashboard::families::{bot_family, browser_family, tally};
use bollwark::dashboard::log::{gather, is_migrated, is_told, prune_cutoff, prune_cutoff_at,
    sweep_secs, tier_column, Gather, Queued, MAX_INSERT_BATCH};
use bollwark::dashboard::query::{analytics, bot_probability, bucket_of_columns, bucket_secs_for,
    dense_buckets, epoch_date, family_counts, fires_of_columns, histogram, row_to_session,
    since_epoch, stats_of_columns, SessionColumns, StatCounts, VerifyColumns, STAT_COLUMNS};
use bollwark::dashboard::routes::{analytics_hours, check_auth, delete_site, rotate_site,
    rotate_site_with, session_limit, site_filter, site_key_of, store_refusal,
    update_site_origins, update_site_policy};
use bollwark::dashboard::sql;
use bollwark::dashboard::types::{Analytics, CountryCount, NetworkTypeCount, Session, SignalFires,
    TimeBucket};
use bollwark::error::CaptchaError;
use bollwark::ident::uuid_text;
use bollwark::risk::tier::EscalationTier;
use bollwark::site::types::{Site, SitePolicy};
use bollwark::storage::memory::InMemoryStore;
use bollwark::time::Timestamp;
use rusqlite::Connection;

fn opened() -> Connection {
    let conn = Connection::open_in_memory().unwrap();
    conn.execute_batch(sql::SCHEMA).unwrap();
    conn
}

fn integers(row: &rusqlite::Row<'_>, from: usize, count: usize) -> Vec<Option<i64>> {
    (from..from + count).map(|i| row.get(i).unwrap()).collect()
}

fn stats_of(conn: &Connection) -> (StatCounts, [f64; 3]) {
    conn.query_row(sql::STATS, [], |r| {
        let averages = [
            r.get(STAT_COLUMNS)?,
            r.get(STAT_COLUMNS + 1)?,
            r.get(STAT_COLUMNS + 2)?,
        ];
        Ok((stats_of_columns(&integers(r, 0, STAT_COLUMNS)), averages))
    })
    .unwrap()
}

fn session_of(conn: &Connection, id: i64) -> Session {
    conn.query_row(sql::GET, [id], |r| {
        let verified: Option<String> = r.get(18)?;
        let verify = match verified {
            None => None,
            Some(ts) => Some(VerifyColumns {
                ts,
                outcome: r.get(19)?,
                success: r.get(20)?,
                score: r.get(21)?,
                sig_honeypot: r.get(22)?,
                sig_time_on_page: r.get(23)?,
                sig_behavior: r.get(24)?,
                sig_remote_ip: r.get(25)?,
                time_on_page_ms: r.get(26)?,
                webdriver: r.get(27)?,
                monitored: r.get(28)?,
            }),
        };
        Ok(row_to_session(SessionColumns {
            id: r.get(0)?,
            ts: r.get(1)?,
            challenge_id: r.get(2)?,
            site_key: r.get(3)?,
            ip: r.get(4)?,
            user_agent: r.get(5)?,
            outcome: r.get(6)?,
            score: r.get(7)?,
            tier: r.get(8)?,
            difficulty: r.get(9)?,
            ip_count: r.get(10)?,
            site_count: r.get(11)?,
            tls_fingerprint: r.get(12)?,
            sig_rate: r.get(13)?,
            sig_header_anomaly: r.get(14)?,
            sig_ip_reputation: r.get(15)?,
            sig_tls_fingerprint: r.get(16)?,
            monitored: r.get(17)?,
            verify,
        }))
    })
    .unwrap()
}

fn analytics_of(conn: &Connection, hours: u32, now_epoch: i64, site_key: Option<&str>) -> Analytics {
    let since = epoch_date(since_epoch(hours, now_epoch));
    let mut bucket_rows: Vec<(i64, TimeBucket)> = Vec::new();
    let mut stmt = conn.prepare(sql::BUCKETS).unwrap();
    let bucket_secs = bucket_secs_for(hours);
    let mut rows = stmt
        .query((since.as_str(), site_key, bucket_secs))
        .unwrap();
    while let Some(r) = rows.next().unwrap() {
        bucket_rows.push((r.get(0).unwrap(), bucket_of_columns(&integers(r, 1, 12))));
    }
    let pairs = |statement: &str| -> Vec<(rusqlite::types::Value, i64)> {
        let mut stmt = conn.prepare(statement).unwrap();
        let mut rows = stmt.query((since.as_str(), site_key)).unwrap();
        let mut out = Vec::new();
        while let Some(r) = rows.next().unwrap() {
            out.push((r.get(0).unwrap(), r.get(1).unwrap()));
        }
        out
    };
    let text = |v: rusqlite::types::Value| match v {
        rusqlite::types::Value::Text(t) => Some(t),
        _ => None,
    };
    let mut bin_rows: Vec<(i64, u64)> = Vec::new();
    for (bin, count) in pairs(sql::BINS) {
        match bin {
            rusqlite::types::Value::Integer(b) => bin_rows.push((b, count as u64)),
            other => panic!("{other:?}"),
        }
    }
    let agents: Vec<(Option<String>, u64)> = pairs(sql::AGENTS)
        .into_iter()
        .map(|(ua, count)| (text(ua), count as u64))
        .collect();
    let network_types = pairs(sql::NETWORK_TYPES)
        .into_iter()
        .map(|(name, count)| NetworkTypeCount {
            name: text(name).unwrap(),
            count: count as u64,
        })
        .collect();
    let countries = pairs(sql::COUNTRIES)
        .into_iter()
        .map(|(name, count)| CountryCount {
            name: text(name).unwrap(),
            count: count as u64,
        })
        .collect();
    let fires: SignalFires = conn
        .query_row(sql::FIRES, (since.as_str(), site_key), |r| {
            Ok(fires_of_columns(&integers(r, 0, 8)))
        })
        .unwrap();
    analytics(
        hours,
        now_epoch,
        &bucket_rows,
        &bin_rows,
        &agents,
        network_types,
        countries,
        fires,
    )
}

/// Guards the positional mapping from columns to fields. The SELECT list and the
/// construction are aligned only by index, so an off-by-one would silently return wrong
/// numbers. Insert known rows and assert the aggregates.
#[test]
fn stats_mapping_is_aligned() {
    let conn = opened();
    // Two puzzle rows (one HardPow, one Block); c1 also gets a verify row.
    conn.execute_batch(
        "INSERT INTO puzzle_decisions
           (ts, challenge_id, site_key, ip, ip_count, site_count, score, tier, difficulty,
            outcome, sig_rate, sig_header_anomaly, sig_ip_reputation,
            sig_tls_fingerprint, tls_fingerprint, user_agent)
         VALUES
           ('2026-01-01T00:00:00Z','c1','s','1.2.3.4',1,1,45,'HardPow',12,'issued',
            30,15,0,0,'Skipped',NULL),
           ('2026-01-01T00:00:01Z','c2','s','1.2.3.4',2,2,90,'Block',0,'rejected',
            30,30,30,0,'Skipped',NULL);
         INSERT INTO verify_decisions
           (ts, challenge_id, success, outcome, score, sig_honeypot, sig_time_on_page,
            sig_behavior, time_on_page_ms, webdriver)
         VALUES
           ('2026-01-01T00:00:02Z','c1',1,'pass',0,0,0,0,5000,'false');",
    )
    .unwrap();

    let (stats, averages) = stats_of(&conn);

    assert_eq!(stats.total_sessions, 2);
    assert_eq!(stats.verified_sessions, 1);

    assert_eq!(stats.tiers.invisible_pass, 0);
    assert_eq!(stats.tiers.checkbox, 0);
    assert_eq!(stats.tiers.hard_pow, 1);
    assert_eq!(stats.tiers.block, 1);

    // Nothing above was monitored, so both counters read zero.
    assert_eq!(stats.outcomes.puzzle_monitored, 0);
    assert_eq!(stats.outcomes.verify_monitored, 0);

    // Outcomes.
    assert_eq!(stats.outcomes.puzzle_issued, 1);
    assert_eq!(stats.outcomes.puzzle_rejected, 1);
    assert_eq!(stats.outcomes.verify_pass, 1);

    assert_eq!(stats.puzzle_signals.rate, 60);
    assert_eq!(stats.puzzle_signals.header_anomaly, 45);
    assert_eq!(stats.puzzle_signals.ip_reputation, 30);
    assert_eq!(averages, [67.5, 0.0, 67.5]);
}

/// A challenge takes more than one submission before it is spent; its session stays one.
#[test]
fn a_session_has_the_latest_submission() {
    let conn = opened();
    conn.execute_batch(
        "INSERT INTO puzzle_decisions
           (ts, challenge_id, site_key, ip, ip_count, site_count, score, tier, difficulty,
            outcome, sig_rate, sig_header_anomaly, sig_ip_reputation,
            sig_tls_fingerprint, tls_fingerprint, user_agent)
         VALUES
           ('1970-01-01T00:10:00+00:00','c1','s','1.2.3.4',1,1,45,'HardPow',12,'issued',
            30,15,0,0,'Skipped',NULL),
           ('1969-12-31T23:59:00+00:00',NULL,'s','1.2.3.4',1,1,90,'Block',0,'rejected',
            30,15,0,0,'Skipped',NULL);
         INSERT INTO verify_decisions
           (ts, challenge_id, success, outcome, score, sig_honeypot, sig_time_on_page,
            sig_behavior, time_on_page_ms, webdriver)
         VALUES
           ('1970-01-01T00:10:02+00:00','c1',0,'pow_invalid',0,0,0,0,5000,'n/a'),
           ('1970-01-01T00:10:03+00:00','c1',0,'pow_invalid',0,0,0,0,6000,'n/a'),
           ('1970-01-01T00:10:04+00:00','c1',1,'pass',10,0,10,0,7000,'false');",
    )
    .unwrap();
    let listed: i64 = conn
        .prepare(sql::LIST)
        .unwrap()
        .query_map([10], |r| r.get::<_, i64>(0))
        .unwrap()
        .count() as i64;
    assert_eq!(listed, 2);
    let session = session_of(&conn, 1);
    assert_eq!(session.verify.unwrap().outcome, "pass");
    assert!(session_of(&conn, 2).verify.is_none());
    let (stats, _) = stats_of(&conn);
    assert_eq!(stats.total_sessions, 2);
    assert_eq!(stats.verified_sessions, 1);
    assert_eq!(stats.outcomes.verify_pass, 1);
    assert_eq!(stats.outcomes.verify_pow_invalid, 0);
    assert_eq!(stats.puzzle_signals.rate, 60);
    // The window begins before the epoch; every row is in one of its buckets.
    let a = analytics_of(&conn, 1, 3500, None);
    assert_eq!(a.buckets.len(), 13);
    assert_eq!(a.buckets[0].puzzles, 1);
    assert_eq!(a.buckets[3].puzzles, 1);
    assert_eq!(a.buckets.iter().map(|b| b.puzzles).sum::<u64>(), 2);
    assert_eq!(a.bot_histogram.iter().sum::<u64>(), 2);
    assert_eq!(a.signal_fires.time_on_page, 1);
}

#[test]
fn an_empty_log_sums_up_to_nothing() {
    let (stats, averages) = stats_of(&opened());
    assert_eq!(stats.total_sessions, 0);
    assert_eq!(stats.outcomes.puzzle_issued, 0);
    assert_eq!(stats.tiers.block, 0);
    assert_eq!(averages, [0.0, 0.0, 0.0]);
}

/// Same positional-alignment guard for the analytics: known rows in, exact bucket counts /
/// histogram / browser families / fire counts out. Uses a fixed time so bucket boundaries are
/// deterministic.
#[test]
fn analytics_mapping_is_aligned() {
    let conn = opened();

    // now = 2026-01-02T00:00:00Z. Window: 24h → 3600s buckets.
    let now_epoch = 1_767_312_000;
    let ts_in = "2026-01-01T12:30:00+00:00"; // in window
    let ts_in2 = "2026-01-01T12:45:00+00:00"; // same bucket as ts_in
    let ts_out = "2025-12-30T00:00:00+00:00"; // outside window

    conn.execute_batch(&format!(
        "INSERT INTO puzzle_decisions
           (ts, challenge_id, site_key, ip, ip_count, site_count, score, tier, difficulty,
            outcome, sig_rate, sig_header_anomaly, sig_ip_reputation,
            sig_tls_fingerprint, ip_reputation_category, tls_fingerprint, user_agent, country)
         VALUES
           ('{ts_in}','c1','s1','1.2.3.0',1,1,10,'InvisiblePass',18,'issued',
            10,0,0,0,NULL,'Skipped','Mozilla/5.0 Chrome/120.0 Safari/537.36','US'),
           ('{ts_in2}','c2','s1','1.2.3.0',2,2,95,'Block',0,'rejected',
            30,35,30,0,'datacenter','Skipped','curl/8.4.0','US'),
           ('{ts_in2}','c3','s2','5.6.7.0',1,1,5,'InvisiblePass',18,'issued',
            0,5,0,0,NULL,'Skipped',NULL,'DE'),
           ('{ts_out}','c4','s1','1.2.3.0',1,1,50,'HardPow',24,'issued',
            50,0,0,0,'tor','Skipped','Mozilla/5.0 Firefox/121.0','FR');
         INSERT INTO verify_decisions
           (ts, challenge_id, success, outcome, score, sig_honeypot, sig_time_on_page,
            sig_behavior, time_on_page_ms, webdriver)
         VALUES
           ('{ts_in}','c1',1,'pass',0,0,0,0,5000,'false');"
    ))
    .unwrap();

    let a = analytics_of(&conn, 24, now_epoch, None);

    assert_eq!(a.window_hours, 24);
    assert_eq!(a.bucket_secs, 3600);

    // Dense series: 24h window aligned to the hour + the current bucket.
    assert_eq!(a.buckets.len(), 25);
    assert!(a.buckets.iter().all(|b| !b.t.is_empty()));

    // All three in-window rows share the 12:00 bucket.
    let busy = a
        .buckets
        .iter()
        .find(|b| b.t.starts_with("2026-01-01T12:00:00"))
        .unwrap();
    assert_eq!(busy.puzzles, 3);
    assert_eq!(busy.verifies, 1);
    assert_eq!(busy.issued, 2);
    assert_eq!(busy.rejected, 1);
    assert_eq!(busy.pass, 1);
    assert_eq!(busy.tier_invisible_pass, 2);
    assert_eq!(busy.tier_block, 1);
    // The out-of-window row contributes nowhere.
    assert_eq!(a.buckets.iter().map(|b| b.puzzles).sum::<u64>(), 3);

    // Histogram: scores 10 (bin 1), 95 (bin 9), 5 (bin 0).
    assert_eq!(a.bot_histogram[0], 1);
    assert_eq!(a.bot_histogram[1], 1);
    assert_eq!(a.bot_histogram[9], 1);
    assert_eq!(a.bot_histogram.iter().sum::<u64>(), 3);

    // Browsers: Chrome, bot/script (curl), (none) — Firefox is outside the window.
    let by_name: HashMap<_, _> = a
        .browsers
        .iter()
        .map(|b| (b.name.as_str(), b.count))
        .collect();
    assert_eq!(by_name.get("Chrome"), Some(&1));
    assert_eq!(by_name.get("bot/script"), Some(&1));
    assert_eq!(by_name.get("(none)"), Some(&1));
    assert_eq!(by_name.get("Firefox"), None);

    // Bots: only the curl row is automated; Chrome and NULL contribute nothing.
    assert_eq!(a.bots.len(), 1);
    assert_eq!(a.bots[0].name, "curl/wget");
    assert_eq!(a.bots[0].count, 1);

    // Signal fires (in-window only).
    assert_eq!(a.signal_fires.rate, 2);
    assert_eq!(a.signal_fires.header_anomaly, 2);
    assert_eq!(a.signal_fires.ip_reputation, 1);
    assert_eq!(a.signal_fires.honeypot, 0);

    // Network types: only the in-window datacenter row (c2) counts.
    assert_eq!(a.network_types.len(), 1);
    assert_eq!(a.network_types[0].name, "datacenter");
    assert_eq!(a.network_types[0].count, 1);

    // Countries: in-window US (c1, c2) and DE (c3), sorted by count desc.
    assert_eq!(a.countries.len(), 2);
    assert_eq!(a.countries[0].name, "US");
    assert_eq!(a.countries[0].count, 2);
    assert_eq!(a.countries[1].name, "DE");
    assert_eq!(a.countries[1].count, 1);

    // Site filter narrows to s2's single clean request.
    let s2 = analytics_of(&conn, 24, now_epoch, Some("s2"));
    assert_eq!(s2.buckets.iter().map(|b| b.puzzles).sum::<u64>(), 1);
    assert_eq!(s2.bot_histogram[0], 1);
    assert_eq!(s2.bot_histogram.iter().sum::<u64>(), 1);
    // s2 has no reputation-matched traffic.
    assert!(s2.network_types.is_empty());
    // s2's only request is the DE one.
    assert_eq!(s2.countries.len(), 1);
    assert_eq!(s2.countries[0].name, "DE");
    assert_eq!(s2.countries[0].count, 1);
}

/// The crawler tokens all contain "bot", so ordering bugs would silently fold every crawler
/// into "Other scripted"; real-browser UAs must map to no family at all.
#[test]
fn bot_family_classifies_by_specificity() {
    let f = |ua: &str| bot_family(Some(ua));

    assert_eq!(
        f("Mozilla/5.0 HeadlessChrome/120.0"),
        Some("Headless browser")
    );
    assert_eq!(
        f("Mozilla/5.0 (compatible; GPTBot/1.0)"),
        Some("Claims AI crawler")
    );
    assert_eq!(
        f("Mozilla/5.0 (compatible; ClaudeBot/1.0)"),
        Some("Claims AI crawler")
    );
    assert_eq!(
        f("Mozilla/5.0 (compatible; Googlebot/2.1; +http://www.google.com/bot.html)"),
        Some("Claims search crawler")
    );
    assert_eq!(f("curl/8.4.0"), Some("curl/wget"));
    assert_eq!(f("Wget/1.21"), Some("curl/wget"));
    assert_eq!(f("python-requests/2.31.0"), Some("Python"));
    assert_eq!(f("Go-http-client/2.0"), Some("Go"));
    assert_eq!(f("SomeRandomBot/0.1"), Some("Other scripted"));

    assert_eq!(f("Mozilla/5.0 Chrome/120.0 Safari/537.36"), None);
    assert_eq!(bot_family(None), None);
}

/// A monitored block must stay counted as a block *and* be identifiable as unenforced.
/// Excluding it from the block counts would make monitor mode report nothing, which is the
/// only thing it exists to do.
#[test]
fn monitored_rows_are_counted_as_blocks_and_flagged() {
    let conn = opened();

    conn.execute_batch(
        "INSERT INTO puzzle_decisions
           (ts, challenge_id, site_key, ip, ip_count, site_count, score, tier, difficulty,
            outcome, monitored, sig_rate, sig_header_anomaly, sig_ip_reputation,
            sig_tls_fingerprint, tls_fingerprint, user_agent)
         VALUES
           ('2026-01-01T00:00:00Z','c1','s','1.2.3.4',1,1,90,'Block',16,'issued',1,
            30,30,30,0,'Skipped',NULL);
         INSERT INTO verify_decisions
           (ts, challenge_id, success, outcome, score, sig_honeypot, sig_time_on_page,
            sig_behavior, time_on_page_ms, webdriver, monitored)
         VALUES
           ('2026-01-01T00:00:02Z','c1',1,'block',100,100,0,0,5000,'false',1);",
    )
    .unwrap();

    let (stats, _) = stats_of(&conn);
    // The outcome is still visible as a block...
    assert_eq!(stats.outcomes.verify_block, 1);
    assert_eq!(stats.tiers.block, 1);
    // ...and distinguishable from an enforced one.
    assert_eq!(stats.outcomes.puzzle_monitored, 1);
    assert_eq!(stats.outcomes.verify_monitored, 1);
    // The puzzle was issued despite the Block tier — that pairing is the on-disk signature of
    // a monitored request.
    assert_eq!(stats.outcomes.puzzle_issued, 1);
    assert_eq!(stats.outcomes.puzzle_rejected, 0);

    // The session view surfaces both flags for the detail panel.
    let session = session_of(&conn, 1);
    assert!(session.monitored);
    let verify = session.verify.expect("verify section");
    assert!(verify.monitored);
    assert!(verify.success);
}

#[test]
fn prune_before_drops_only_old_rows() {
    let conn = opened();

    // Two puzzle rows (one old, one fresh), each with a verify row whose ts tracks its
    // puzzle. Cutoff sits between the two days.
    conn.execute_batch(
        "INSERT INTO puzzle_decisions
           (ts, challenge_id, site_key, ip, ip_count, site_count, score, tier, difficulty,
            outcome, sig_rate, sig_header_anomaly, sig_ip_reputation,
            sig_tls_fingerprint, tls_fingerprint, user_agent)
         VALUES
           ('2026-01-01T00:00:00+00:00','old','s','1.2.3.4',1,1,10,'Checkbox',12,'issued',
            10,0,0,0,'Skipped',NULL),
           ('2026-01-05T00:00:00+00:00','new','s','1.2.3.4',1,1,10,'Checkbox',12,'issued',
            10,0,0,0,'Skipped',NULL);
         INSERT INTO verify_decisions
           (ts, challenge_id, success, outcome, score, sig_honeypot, sig_time_on_page,
            sig_behavior, time_on_page_ms, webdriver)
         VALUES
           ('2026-01-01T00:00:02+00:00','old',1,'pass',0,0,0,0,5000,'false'),
           ('2026-01-05T00:00:02+00:00','new',1,'pass',0,0,0,0,5000,'false');",
    )
    .unwrap();

    let prune_before = |cutoff: &str| {
        conn.execute(sql::PRUNE_VERIFIES, [cutoff]).unwrap()
            + conn.execute(sql::PRUNE_PUZZLES, [cutoff]).unwrap()
    };
    let removed = prune_before("2026-01-03T00:00:00+00:00");
    assert_eq!(removed, 2, "one puzzle + one verify from the old day");

    let puzzles: i64 = conn
        .query_row("SELECT COUNT(*) FROM puzzle_decisions", [], |r| r.get(0))
        .unwrap();
    let verifies: i64 = conn
        .query_row("SELECT COUNT(*) FROM verify_decisions", [], |r| r.get(0))
        .unwrap();
    assert_eq!(puzzles, 1);
    assert_eq!(verifies, 1);

    let survivor: String = conn
        .query_row("SELECT challenge_id FROM puzzle_decisions", [], |r| r.get(0))
        .unwrap();
    assert_eq!(survivor, "new");

    // A cutoff before everything is a no-op.
    assert_eq!(prune_before("2025-01-01T00:00:00+00:00"), 0);
}

#[test]
fn the_statements_that_write_agree_with_the_tables() {
    let conn = opened();
    conn.execute(
        sql::INSERT_PUZZLE,
        rusqlite::params_from_iter(
            [
                "2026-01-01T00:00:00+00:00", "c", "s", "1.2.3.0", "1", "2", "3", "Block", "4",
                "issued", "1", "5", "6", "7", "8", "tor", "Skipped", "ua", "DE",
            ],
        ),
    )
    .unwrap();
    conn.execute(
        sql::INSERT_VERIFY,
        rusqlite::params_from_iter(
            ["2026-01-01T00:00:01+00:00", "c", "0", "block", "9", "10", "11", "12", "13", "n/a", "1"],
        ),
    )
    .unwrap();
    let s = session_of(&conn, 1);
    assert_eq!(s.challenge_id.as_deref(), Some("c"));
    assert_eq!((s.ip_count, s.site_count, s.puzzle_score, s.difficulty), (1, 2, 3, 4));
    let b = s.puzzle_breakdown;
    assert_eq!((b.rate, b.header_anomaly, b.ip_reputation, b.tls_fingerprint), (5, 6, 7, 8));
    let v = s.verify.unwrap();
    assert_eq!((v.score, v.time_on_page_ms), (9, Some(13)));
    let b = v.breakdown;
    assert_eq!((b.honeypot, b.time_on_page, b.behavior, b.remote_ip), (10, 11, 12, 0));
    assert!(!v.success && v.monitored);
    assert_eq!(s.bot_probability, 9);
    // The list has the columns of the single session.
    let listed: String = conn.query_row(sql::LIST, [1], |r| r.get(27)).unwrap();
    assert_eq!(listed, "n/a");
    let active: (String, i64, i64) = conn
        .query_row(sql::SITE_ACTIVITY, [], |r| Ok((r.get(0)?, r.get(1)?, r.get(2)?)))
        .unwrap();
    assert_eq!(active, ("s".to_string(), 1, 1));
}

#[test]
fn the_likelihood_of_a_bot_is_the_higher_score() {
    assert_eq!(bot_probability(30, None), 30);
    assert_eq!(bot_probability(30, Some(50)), 50);
    assert_eq!(bot_probability(50, Some(30)), 50);
    assert_eq!(bot_probability(0, Some(250)), 100);
}

#[test]
fn a_row_that_holds_too_much_is_cut_to_its_type() {
    let conn = opened();
    conn.execute_batch(
        "INSERT INTO puzzle_decisions
           (ts, challenge_id, site_key, ip, ip_count, site_count, score, tier, difficulty,
            outcome, sig_rate, sig_header_anomaly, sig_ip_reputation,
            sig_tls_fingerprint, tls_fingerprint, user_agent)
         VALUES ('t',NULL,'s','i',4294967296,-1,7,'Block',0,'rejected',0,0,0,0,'Skipped',NULL);",
    )
    .unwrap();
    let s = session_of(&conn, 1);
    assert_eq!((s.ip_count, s.site_count), (0, u32::MAX));
    assert!(s.verify.is_none());
    assert_eq!(s.bot_probability, 7);
}

#[test]
fn buckets_grow_with_the_window() {
    let lengths: Vec<i64> = [0, 2, 3, 12, 13, 48, 49, 240, 241, 720]
        .into_iter()
        .map(bucket_secs_for)
        .collect();
    assert_eq!(
        lengths,
        vec![300, 300, 1800, 1800, 3600, 3600, 21600, 21600, 86400, 86400]
    );
    assert_eq!(since_epoch(24, 1_767_312_123), 1_767_225_600);
    // Down, also before the epoch.
    assert_eq!(since_epoch(1, 0), -3600);
    assert_eq!(since_epoch(1, -100), -3900);
    assert_eq!(since_epoch(1, 3500), -300);
    let early = dense_buckets(&Vec::new(), 1, 3500);
    assert_eq!(early.len(), 13);
    assert_eq!(early[0].t, "1969-12-31T23:55:00+00:00");
    for hours in [1, 2, 3, 12, 13, 48, 49, 240, 241, 720] {
        let n = dense_buckets(&Vec::new(), hours, 1_767_312_123).len();
        assert!(n <= 49, "{hours}: {n}");
    }
    assert_eq!(epoch_date(0), "1970-01-01T00:00:00+00:00");
    assert_eq!(epoch_date(i64::MAX), "");
}

#[test]
fn the_histogram_has_ten_bins() {
    let h = histogram(&vec![(0, 4), (9, 2), (-3, 5), (12, 7)]);
    assert_eq!(h, vec![5, 0, 0, 0, 0, 0, 0, 0, 0, 7]);
}

#[test]
fn families_are_counted_and_ordered() {
    let rows = vec![
        (Some("Mozilla/5.0 Firefox/121.0".to_string()), 2),
        (Some("Mozilla/5.0 FxiOS/1".to_string()), 3),
        (Some("curl/8".to_string()), 4),
        (Some("wget".to_string()), 1),
        (Some("python".to_string()), 9),
        (None, 5),
    ];
    let (browsers, bots) = family_counts(&rows);
    let names: Vec<(&str, u64)> = browsers.iter().map(|b| (b.name.as_str(), b.count)).collect();
    assert_eq!(names, vec![("bot/script", 14), ("(none)", 5), ("Firefox", 5)]);
    let names: Vec<(&str, u64)> = bots.iter().map(|b| (b.name.as_str(), b.count)).collect();
    assert_eq!(names, vec![("Python", 9), ("curl/wget", 5)]);
    assert_eq!(tally(&vec![("b", 1), ("a", 1), ("b", 0)]), vec![("a", 1), ("b", 1)]);
}

#[test]
fn browsers_are_told_apart() {
    let cases = [
        (None, "(none)"),
        (Some("Chrome/1 Edg/1"), "Edge"),
        (Some("Chrome/1 OPR/1"), "Opera"),
        (Some("Opera"), "Opera"),
        (Some("firefox/1"), "Firefox"),
        (Some("CriOS/1 Safari/1"), "Chrome"),
        (Some("Version/17 Safari/605"), "Safari"),
        (Some("Lynx"), "Other"),
        (Some("go-http-client"), "bot/script"),
    ];
    for (ua, family) in cases {
        assert_eq!(browser_family(ua), family, "{ua:?}");
        if bot_family(ua).is_some() {
            assert_eq!(family, "bot/script");
        }
    }
}

#[test]
fn the_writer_gathers_a_bounded_batch() {
    assert_eq!(gather(1, Queued::Insert), Gather::Join);
    assert_eq!(gather(MAX_INSERT_BATCH - 2, Queued::Insert), Gather::Join);
    assert_eq!(gather(MAX_INSERT_BATCH - 1, Queued::Insert), Gather::JoinAndWrite);
    assert_eq!(gather(1, Queued::Control), Gather::WriteThenRun);
    assert_eq!(gather(1, Queued::Nothing), Gather::Write);
}

#[test]
fn tiers_are_logged_by_name() {
    let tiers = [
        EscalationTier::InvisiblePass,
        EscalationTier::Checkbox,
        EscalationTier::HardPow,
        EscalationTier::VisualChallenge,
        EscalationTier::Block,
    ];
    for tier in tiers {
        assert_eq!(tier_column(tier), format!("{tier:?}"));
    }
}

#[test]
fn a_change_of_the_schema_is_made_once() {
    let conn = opened();
    let e = conn
        .execute("ALTER TABLE puzzle_decisions ADD COLUMN country TEXT", [])
        .unwrap_err();
    assert!(is_migrated(&e.to_string()));
    let e = conn
        .execute("ALTER TABLE puzzle_decisions DROP COLUMN score_full", [])
        .unwrap_err();
    assert!(is_migrated(&e.to_string()));
    let e = conn.execute("ALTER TABLE nothing ADD COLUMN x TEXT", []).unwrap_err();
    assert!(!is_migrated(&e.to_string()));
}

#[test]
fn the_operator_is_told_at_every_doubling() {
    let told: Vec<u64> = (0..70).filter(|n| is_told(*n)).collect();
    assert_eq!(told, vec![1, 2, 4, 8, 16, 32, 64]);
    assert!(is_told(1 << 63));
    assert!(!is_told(u64::MAX));
}

#[test]
fn old_decisions_are_dropped_by_date() {
    let now = Timestamp::new(1_700_000_000, 5_000_000);
    assert_eq!(
        prune_cutoff_at(72, now).as_deref(),
        Some("2023-11-11T22:13:20.005+00:00")
    );
    assert_eq!(prune_cutoff_at(u64::MAX, now), None);
    assert_eq!(prune_cutoff_at(2_562_047_788_015, now), None);
    assert!(prune_cutoff(1).unwrap() < prune_cutoff(0).unwrap());
    assert_eq!([0, 1, 24, 72].map(sweep_secs), [60, 150, 3600, 3600]);
}

fn store() -> InMemoryStore {
    InMemoryStore::with_sites(vec![Site {
        site_key: 0x77,
        secret_key: "old".to_string(),
        name: "n".to_string(),
        created_at: Timestamp::new(0, 0),
        allowed_origins: Vec::new(),
        policy: SitePolicy::default(),
    }])
}

#[test]
fn the_dashboard_asks_for_the_token() {
    let mut h = HeaderMap::new();
    let refused = check_auth("t", &h).unwrap_err();
    assert_eq!((refused.status, refused.message.as_str()), (401, "missing bearer token"));
    h.insert("authorization", HeaderValue::from_static("Bearer u"));
    let refused = check_auth("t", &h).unwrap_err();
    assert_eq!((refused.status, refused.message.as_str()), (401, "invalid token"));
    h.insert("authorization", HeaderValue::from_static("Bearer t"));
    assert!(check_auth("t", &h).is_ok());
}

#[test]
fn what_is_asked_for_is_bounded() {
    assert_eq!([None, Some(0), Some(5), Some(5000)].map(session_limit), [100, 0, 5, 1000]);
    assert_eq!([None, Some(0), Some(5), Some(5000)].map(analytics_hours), [24, 1, 5, 720]);
    assert_eq!(site_filter(Some(String::new())), None);
    assert_eq!(site_filter(Some("s".to_string())).as_deref(), Some("s"));
    assert_eq!(site_filter(None), None);
}

#[test]
fn sites_are_named_by_their_key() {
    assert_eq!(site_key_of(&uuid_text(0x77)).unwrap(), 0x77);
    let refused = site_key_of("77").unwrap_err();
    assert_eq!((refused.status, refused.message.as_str()), (400, "invalid site_key"));
    let refused = store_refusal(&CaptchaError::NotFound, "failed");
    assert_eq!((refused.status, refused.message.as_str()), (404, "site not found"));
    let refused = store_refusal(&CaptchaError::Storage("disk".to_string()), "failed");
    assert_eq!((refused.status, refused.message.as_str()), (500, "failed"));
}

#[test]
fn a_secret_is_replaced() {
    let mut s = store();
    let (key, secret) = rotate_site_with(&mut s, &uuid_text(0x77), &[0xde, 0xad]).unwrap();
    assert_eq!((key, secret.as_str()), (0x77, "dead"));
    assert!(s.get_site_by_secret("old").is_none());
    assert_eq!(s.get_site_by_secret("dead").unwrap().site_key, 0x77);
    let (_, fresh) = rotate_site(&mut s, &uuid_text(0x77)).unwrap();
    assert_eq!(fresh.len(), 64);
    assert!(s.get_site_by_secret("dead").is_none());
    assert_eq!(rotate_site(&mut s, &uuid_text(1)).unwrap_err().status, 404);
    assert_eq!(rotate_site(&mut s, "x").unwrap_err().status, 400);
}

#[test]
fn a_policy_and_origins_are_replaced() {
    let mut s = store();
    let id = uuid_text(0x77);
    let config = AppConfig::default();
    let policy = SitePolicy {
        tier_block_min: Some(70),
        ..SitePolicy::default()
    };
    assert_eq!(update_site_policy(&mut s, &config, &id, policy).unwrap(), 0x77);
    assert_eq!(s.get_site_by_key(&0x77).unwrap().policy, policy);
    let bad = SitePolicy {
        default_difficulty: Some(0),
        ..SitePolicy::default()
    };
    assert_eq!(update_site_policy(&mut s, &config, &id, bad).unwrap_err().status, 400);
    assert_eq!(s.get_site_by_key(&0x77).unwrap().policy, policy);
    let origins = vec!["https://A.example".to_string()];
    let (_, stored) = update_site_origins(&mut s, &id, &origins).unwrap();
    assert_eq!(stored, vec!["https://a.example"]);
    let refused = update_site_origins(&mut s, &id, &vec!["x y".to_string()]).unwrap_err();
    assert_eq!(refused.status, 400);
    assert_eq!(s.get_site_by_key(&0x77).unwrap().allowed_origins, stored);
}

#[test]
fn a_site_is_forgotten() {
    let mut s = store();
    let id = uuid_text(0x77);
    assert_eq!(delete_site(&mut s, &id).unwrap(), 0x77);
    assert!(s.get_site_by_secret("old").is_none());
    assert_eq!(delete_site(&mut s, &id).unwrap_err().status, 404);
    assert_eq!(delete_site(&mut s, "").unwrap_err().status, 400);
}
