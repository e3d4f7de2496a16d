//! The tables of the decision log, and what is asked of them.
//!
//! A statement and the function that reads its rows agree on the order of the columns: the
//! columns of `STATS` are those of `stats_of_columns`, behind them the three averages, and
//! so on.
//!
//! A session is one decision on a request for a puzzle. Where there was more than one
//! submission for its challenge, the session has the latest.
use vstd::prelude::*;

verus! {

/// The tables of the log.
pub const SCHEMA: &'static str = "
CREATE TABLE IF NOT EXISTS puzzle_decisions (
    id              INTEGER PRIMARY KEY AUTOINCREMENT,
    ts              TEXT    NOT NULL,
    challenge_id    TEXT,
    site_key        TEXT    NOT NULL,
    ip              TEXT    NOT NULL,
    ip_count        INTEGER NOT NULL,
    site_count      INTEGER NOT NULL,
    score           INTEGER NOT NULL,
    tier            TEXT    NOT NULL,
    difficulty      INTEGER NOT NULL,
    outcome         TEXT    NOT NULL,
    monitored       INTEGER NOT NULL DEFAULT 0,
    sig_rate              INTEGER NOT NULL,
    sig_header_anomaly    INTEGER NOT NULL,
    sig_ip_reputation     INTEGER NOT NULL,
    sig_tls_fingerprint   INTEGER NOT NULL,
    ip_reputation_category TEXT,
    tls_fingerprint TEXT    NOT NULL,
    user_agent      TEXT,
    country         TEXT
);
CREATE INDEX IF NOT EXISTS idx_puzzle_ts ON puzzle_decisions(ts DESC);
CREATE INDEX IF NOT EXISTS idx_puzzle_challenge ON puzzle_decisions(challenge_id);

CREATE TABLE IF NOT EXISTS verify_decisions (
    id              INTEGER PRIMARY KEY AUTOINCREMENT,
    ts              TEXT    NOT NULL,
    challenge_id    TEXT    NOT NULL,
    success         INTEGER NOT NULL,
    outcome         TEXT    NOT NULL,
    score           INTEGER NOT NULL,
    sig_honeypot       INTEGER NOT NULL,
    sig_time_on_page   INTEGER NOT NULL,
    sig_behavior       INTEGER NOT NULL,
    sig_remote_ip      INTEGER NOT NULL DEFAULT 0,
    time_on_page_ms INTEGER,
    webdriver       TEXT    NOT NULL,
    monitored       INTEGER NOT NULL DEFAULT 0
);
CREATE INDEX IF NOT EXISTS idx_verify_challenge ON verify_decisions(challenge_id);
CREATE INDEX IF NOT EXISTS idx_verify_ts ON verify_decisions(ts DESC);
";

/// Adds one decision on a request for a puzzle.
pub const INSERT_PUZZLE: &'static str = "INSERT INTO puzzle_decisions (
    ts, challenge_id, site_key, ip, ip_count, site_count,
    score, tier, difficulty, outcome, monitored,
    sig_rate, sig_header_anomaly, sig_ip_reputation, sig_tls_fingerprint,
    ip_reputation_category, tls_fingerprint, user_agent, country
 ) VALUES (
    ?1, ?2, ?3, ?4, ?5, ?6,
    ?7, ?8, ?9, ?10, ?11,
    ?12, ?13, ?14, ?15,
    ?16, ?17, ?18, ?19
 )";

/// Adds one decision on a submission.
pub const INSERT_VERIFY: &'static str = "INSERT INTO verify_decisions (
    ts, challenge_id, success, outcome, score,
    sig_honeypot, sig_time_on_page, sig_behavior,
    time_on_page_ms, webdriver, monitored
 ) VALUES (
    ?1, ?2, ?3, ?4, ?5,
    ?6, ?7, ?8,
    ?9, ?10, ?11
 )";

/// Drops the decisions on submissions that are older than a date. The dates of the log are
/// of one layout, so that their order as texts is their order in time.
pub const PRUNE_VERIFIES: &'static str = "DELETE FROM verify_decisions WHERE ts < ?1";

/// Drops the decisions on requests for puzzles that are older than a date.
pub const PRUNE_PUZZLES: &'static str = "DELETE FROM puzzle_decisions WHERE ts < ?1";

/// The latest sessions, in the columns of `SessionColumns`.
pub const LIST: &'static str = "SELECT
    p.id, p.ts, p.challenge_id, p.site_key, p.ip, p.user_agent,
    p.outcome, p.score, p.tier, p.difficulty, p.ip_count, p.site_count,
    p.tls_fingerprint,
    p.sig_rate, p.sig_header_anomaly, p.sig_ip_reputation, p.sig_tls_fingerprint,
    p.monitored,
    v.ts, v.outcome, v.success, v.score,
    v.sig_honeypot, v.sig_time_on_page, v.sig_behavior, v.sig_remote_ip,
    v.time_on_page_ms, v.webdriver, v.monitored
FROM puzzle_decisions p
LEFT JOIN verify_decisions v ON v.id = (
    SELECT MAX(l.id) FROM verify_decisions l WHERE l.challenge_id = p.challenge_id
 )
ORDER BY p.id DESC
LIMIT ?1";

/// One session, in the columns of `LIST`.
pub const GET: &'static str = "SELECT
    p.id, p.ts, p.challenge_id, p.site_key, p.ip, p.user_agent,
    p.outcome, p.score, p.tier, p.difficulty, p.ip_count, p.site_count,
    p.tls_fingerprint,
    p.sig_rate, p.sig_header_anomaly, p.sig_ip_reputation, p.sig_tls_fingerprint,
    p.monitored,
    v.ts, v.outcome, v.success, v.score,
    v.sig_honeypot, v.sig_time_on_page, v.sig_behavior, v.sig_remote_ip,
    v.time_on_page_ms, v.webdriver, v.monitored
FROM puzzle_decisions p
LEFT JOIN verify_decisions v ON v.id = (
    SELECT MAX(l.id) FROM verify_decisions l WHERE l.challenge_id = p.challenge_id
 )
WHERE p.id = ?1";

/// What is summed up over the whole log: the columns of `stats_of_columns`, then the
/// average score of the requests, that of the submissions, and the average likelihood of a
/// bot.
pub const STATS: &'static str = "SELECT
    COUNT(*),
    COUNT(v.id),
    COALESCE(SUM(p.sig_rate), 0),
    COALESCE(SUM(p.sig_header_anomaly), 0),
    COALESCE(SUM(p.sig_ip_reputation), 0),
    COALESCE(SUM(p.sig_tls_fingerprint), 0),
    COALESCE(SUM(v.sig_honeypot), 0),
    COALESCE(SUM(v.sig_time_on_page), 0),
    COALESCE(SUM(v.sig_behavior), 0),
    COALESCE(SUM(v.sig_remote_ip), 0),
    SUM(CASE WHEN p.outcome = 'issued'   THEN 1 ELSE 0 END),
    SUM(CASE WHEN p.outcome = 'rejected' THEN 1 ELSE 0 END),
    SUM(CASE WHEN v.outcome = 'pass'         THEN 1 ELSE 0 END),
    SUM(CASE WHEN v.outcome = 'shadow_fail'  THEN 1 ELSE 0 END),
    SUM(CASE WHEN v.outcome = 'block'        THEN 1 ELSE 0 END),
    SUM(CASE WHEN v.outcome = 'pow_invalid'  THEN 1 ELSE 0 END),
    SUM(CASE WHEN p.tier = 'InvisiblePass'    THEN 1 ELSE 0 END),
    SUM(CASE WHEN p.tier = 'Checkbox'         THEN 1 ELSE 0 END),
    SUM(CASE WHEN p.tier = 'HardPow'          THEN 1 ELSE 0 END),
    SUM(CASE WHEN p.tier = 'Block'            THEN 1 ELSE 0 END),
    SUM(CASE WHEN p.monitored = 1 THEN 1 ELSE 0 END),
    SUM(CASE WHEN v.monitored = 1 THEN 1 ELSE 0 END),
    COALESCE(AVG(p.score), 0.0),
    COALESCE(AVG(v.score), 0.0),
    COALESCE(AVG(MIN(MAX(p.score, COALESCE(v.score, 0)), 100)), 0.0)
 FROM puzzle_decisions p
 LEFT JOIN verify_decisions v ON v.id = (
    SELECT MAX(l.id) FROM verify_decisions l WHERE l.challenge_id = p.challenge_id
 )";

/// The counts of each stretch of time, as its start and the columns of `bucket_of_columns`:
/// since a date, of one site or of all, in stretches of some seconds. A start is rounded
/// down, before the epoch too.
pub const BUCKETS: &'static str = "SELECT
    CAST(strftime('%s', p.ts) AS INTEGER)
        - (CAST(strftime('%s', p.ts) AS INTEGER) % ?3 + ?3) % ?3 AS bucket,
    COUNT(*),
    COUNT(v.id),
    SUM(CASE WHEN p.outcome = 'issued'   THEN 1 ELSE 0 END),
    SUM(CASE WHEN p.outcome = 'rejected' THEN 1 ELSE 0 END),
    SUM(CASE WHEN v.outcome = 'pass'        THEN 1 ELSE 0 END),
    SUM(CASE WHEN v.outcome = 'shadow_fail' THEN 1 ELSE 0 END),
    SUM(CASE WHEN v.outcome = 'block'       THEN 1 ELSE 0 END),
    SUM(CASE WHEN v.outcome = 'pow_invalid' THEN 1 ELSE 0 END),
    SUM(CASE WHEN p.tier = 'InvisiblePass' THEN 1 ELSE 0 END),
    SUM(CASE WHEN p.tier = 'Checkbox'      THEN 1 ELSE 0 END),
    SUM(CASE WHEN p.tier = 'HardPow'       THEN 1 ELSE 0 END),
    SUM(CASE WHEN p.tier = 'Block'         THEN 1 ELSE 0 END)
 FROM puzzle_decisions p
 LEFT JOIN verify_decisions v ON v.id = (
    SELECT MAX(l.id) FROM verify_decisions l WHERE l.challenge_id = p.challenge_id
 )
 WHERE p.ts >= ?1 AND (?2 IS NULL OR p.site_key = ?2)
 GROUP BY bucket";

/// How many sessions fall into each tenth of the likelihood of a bot.
pub const BINS: &'static str = "SELECT
    MIN(MIN(MAX(p.score, COALESCE(v.score, 0)), 100) / 10, 9) AS bin,
    COUNT(*)
 FROM puzzle_decisions p
 LEFT JOIN verify_decisions v ON v.id = (
    SELECT MAX(l.id) FROM verify_decisions l WHERE l.challenge_id = p.challenge_id
 )
 WHERE p.ts >= ?1 AND (?2 IS NULL OR p.site_key = ?2)
 GROUP BY bin";

/// How often each signal added to a score, in the columns of `fires_of_columns`.
pub const FIRES: &'static str = "SELECT
    SUM(CASE WHEN p.sig_rate            > 0 THEN 1 ELSE 0 END),
    SUM(CASE WHEN p.sig_header_anomaly  > 0 THEN 1 ELSE 0 END),
    SUM(CASE WHEN p.sig_ip_reputation   > 0 THEN 1 ELSE 0 END),
    SUM(CASE WHEN p.sig_tls_fingerprint > 0 THEN 1 ELSE 0 END),
    SUM(CASE WHEN COALESCE(v.sig_honeypot, 0)     > 0 THEN 1 ELSE 0 END),
    SUM(CASE WHEN COALESCE(v.sig_time_on_page, 0) > 0 THEN 1 ELSE 0 END),
    SUM(CASE WHEN COALESCE(v.sig_behavior, 0)     > 0 THEN 1 ELSE 0 END),
    SUM(CASE WHEN COALESCE(v.sig_remote_ip, 0)    > 0 THEN 1 ELSE 0 END)
 FROM puzzle_decisions p
 LEFT JOIN verify_decisions v ON v.id = (
    SELECT MAX(l.id) FROM verify_decisions l WHERE l.challenge_id = p.challenge_id
 )
 WHERE p.ts >= ?1 AND (?2 IS NULL OR p.site_key = ?2)";

/// How often each agent came.
pub const AGENTS: &'static str = "SELECT p.user_agent, COUNT(*)
 FROM puzzle_decisions p
 WHERE p.ts >= ?1 AND (?2 IS NULL OR p.site_key = ?2)
 GROUP BY p.user_agent";

/// How often each kind of network was seen, the most frequent first.
pub const NETWORK_TYPES: &'static str = "SELECT p.ip_reputation_category, COUNT(*)
 FROM puzzle_decisions p
 WHERE p.ts >= ?1 AND (?2 IS NULL OR p.site_key = ?2)
   AND p.ip_reputation_category IS NOT NULL
 GROUP BY p.ip_reputation_category
 ORDER BY COUNT(*) DESC, p.ip_reputation_category ASC";

/// How often each country was seen, the most frequent first.
pub const COUNTRIES: &'static str = "SELECT p.country, COUNT(*)
 FROM puzzle_decisions p
 WHERE p.ts >= ?1 AND (?2 IS NULL OR p.site_key = ?2)
   AND p.country IS NOT NULL
 GROUP BY p.country
 ORDER BY COUNT(*) DESC, p.country ASC";

/// What each site saw: how many requests and submissions, when the last one came, and the
/// average likelihood of a bot.
pub const SITE_ACTIVITY: &'static str = "SELECT
    p.site_key,
    COUNT(*),
    COUNT(v.id),
    MAX(p.ts),
    COALESCE(AVG(MIN(MAX(p.score, COALESCE(v.score, 0)), 100)), 0.0)
 FROM puzzle_decisions p
 LEFT JOIN verify_decisions v ON v.id = (
    SELECT MAX(l.id) FROM verify_decisions l WHERE l.challenge_id = p.challenge_id
 )
 GROUP BY p.site_key";

} // verus!
