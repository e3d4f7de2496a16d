//! The rows of the decision log, and the figures drawn from them.
use vstd::prelude::*;

use crate::ident::Uuid;
use crate::net::IpAddr;
use crate::risk::reputation::IpCategory;
use crate::risk::score::SignalBreakdown;
use crate::risk::tier::EscalationTier;
use crate::risk::verify::VerifyBreakdown;

verus! {

/// A decision on a request for a puzzle.
#[derive(Debug)]
pub struct PuzzleRecord {
    /// The tier is a refusal that was not acted upon: the site only monitors.
    pub monitored: bool,
    /// The challenge that was issued, if one was.
    pub challenge_id: Option<Uuid>,
    pub site_key: Uuid,
    /// The client's address as it is logged.
    pub ip: IpAddr,
    pub ip_count: u32,
    pub site_count: u32,
    pub score: u32,
    /// The verdict, whether it was acted upon or not.
    pub tier: EscalationTier,
    pub difficulty: u32,
    pub outcome: &'static str,
    pub breakdown: SignalBreakdown,
    pub ip_reputation_category: Option<IpCategory>,
    pub tls_fingerprint: String,
    pub user_agent: Option<String>,
}

/// A decision on a request for a puzzle, with its texts as sequences of characters.
#[verifier::ext_equal]
pub struct PuzzleRecordView {
    pub monitored: bool,
    pub challenge_id: Option<Uuid>,
    pub site_key: Uuid,
    pub ip: IpAddr,
    pub ip_count: u32,
    pub site_count: u32,
    pub score: u32,
    pub tier: EscalationTier,
    pub difficulty: u32,
    pub outcome: Seq<char>,
    pub breakdown: SignalBreakdown,
    pub ip_reputation_category: Option<IpCategory>,
    pub tls_fingerprint: Seq<char>,
    pub user_agent: Option<Seq<char>>,
}

impl View for PuzzleRecord {
    type V = PuzzleRecordView;

    open spec fn view(&self) -> PuzzleRecordView {
        PuzzleRecordView {
            monitored: self.monitored,
            challenge_id: self.challenge_id,
            site_key: self.site_key,
            ip: self.ip,
            ip_count: self.ip_count,
            site_count: self.site_count,
            score: self.score,
            tier: self.tier,
            difficulty: self.difficulty,
            outcome: self.outcome@,
            breakdown: self.breakdown,
            ip_reputation_category: self.ip_reputation_category,
            tls_fingerprint: self.tls_fingerprint@,
            user_agent: crate::config::optional_text(self.user_agent),
        }
    }
}

/// A decision on a submission.
#[derive(Debug, Clone, Copy)]
pub struct VerifyRecord {
    /// The outcome is a refusal that was not acted upon: the site only monitors.
    pub monitored: bool,
    pub challenge_id: Uuid,
    pub success: bool,
    pub outcome: &'static str,
    pub score: u32,
    pub breakdown: VerifyBreakdown,
    pub time_on_page_ms: Option<u64>,
    pub webdriver: &'static str,
}

/// A decision on a submission, with its texts as sequences of characters.
#[verifier::ext_equal]
pub struct VerifyRecordView {
    pub monitored: bool,
    pub challenge_id: Uuid,
    pub success: bool,
    pub outcome: Seq<char>,
    pub score: u32,
    pub breakdown: VerifyBreakdown,
    pub time_on_page_ms: Option<u64>,
    pub webdriver: Seq<char>,
}

impl View for VerifyRecord {
    type V = VerifyRecordView;

    open spec fn view(&self) -> VerifyRecordView {
        VerifyRecordView {
            monitored: self.monitored,
            challenge_id: self.challenge_id,
            success: self.success,
            outcome: self.outcome@,
            score: self.score,
            breakdown: self.breakdown,
            time_on_page_ms: self.time_on_page_ms,
            webdriver: self.webdriver@,
        }
    }
}

/// A row of the log as the operator sees it: a decision on a request for a puzzle, and
/// the one on the submission where there was one.
#[derive(Debug)]
pub struct Session {
    pub monitored: bool,
    pub id: i64,
    pub ts: String,
    pub challenge_id: Option<String>,
    pub site_key: String,
    pub ip: String,
    pub user_agent: Option<String>,
    pub puzzle_outcome: String,
    pub puzzle_score: u32,
    pub tier: String,
    pub difficulty: u32,
    pub ip_count: u32,
    pub site_count: u32,
    pub tls_fingerprint: String,
    pub puzzle_breakdown: PuzzleBreakdownDto,
    pub verify: Option<VerifySection>,
    /// How likely the visitor is a bot, from 0 to 100.
    pub bot_probability: u32,
}

#[derive(Debug, Clone, Copy, PartialEq, Eq, Structural)]
pub struct PuzzleBreakdownDto {
    pub rate: u32,
    pub header_anomaly: u32,
    pub ip_reputation: u32,
    pub tls_fingerprint: u32,
}

#[derive(Debug)]
pub struct VerifySection {
    pub monitored: bool,
    pub ts: String,
    pub outcome: String,
    pub success: bool,
    pub score: u32,
    pub time_on_page_ms: Option<u64>,
    pub webdriver: String,
    pub breakdown: VerifyBreakdownDto,
}

#[derive(Debug, Clone, Copy, PartialEq, Eq, Structural)]
pub struct VerifyBreakdownDto {
    pub honeypot: u32,
    pub time_on_page: u32,
    pub behavior: u32,
    pub remote_ip: u32,
}

/// Sums of the signals of requests for puzzles.
#[derive(Debug, Clone, Copy, PartialEq, Eq, Structural)]
pub struct PuzzleSignalSums {
    pub rate: u64,
    pub header_anomaly: u64,
    pub ip_reputation: u64,
    pub tls_fingerprint: u64,
}

/// Sums of the signals of submissions.
#[derive(Debug, Clone, Copy, PartialEq, Eq, Structural)]
pub struct VerifySignalSums {
    pub honeypot: u64,
    pub time_on_page: u64,
    pub behavior: u64,
    pub remote_ip: u64,
}

/// How often each outcome came. The monitored ones are counted among the others too.
#[derive(Debug, Clone, Copy, PartialEq, Eq, Structural)]
pub struct OutcomeCounts {
    pub puzzle_issued: u64,
    pub puzzle_rejected: u64,
    pub verify_pass: u64,
    pub verify_shadow_fail: u64,
    pub verify_block: u64,
    pub verify_pow_invalid: u64,
    pub puzzle_monitored: u64,
    pub verify_monitored: u64,
}

/// How often each tier came.
#[derive(Debug, Clone, Copy, PartialEq, Eq, Structural)]
pub struct TierCounts {
    pub invisible_pass: u64,
    pub checkbox: u64,
    pub hard_pow: u64,
    pub block: u64,
}

/// What came within one stretch of time.
#[derive(Debug)]
pub struct TimeBucket {
    /// The start, as text.
    pub t: String,
    pub puzzles: u64,
    pub verifies: u64,
    pub issued: u64,
    pub rejected: u64,
    pub pass: u64,
    pub shadow_fail: u64,
    pub block: u64,
    pub pow_invalid: u64,
    pub tier_invisible_pass: u64,
    pub tier_checkbox: u64,
    pub tier_hard_pow: u64,
    pub tier_block: u64,
}

/// What came within one stretch of time, with its start as a sequence of characters.
#[verifier::ext_equal]
pub struct TimeBucketView {
    pub t: Seq<char>,
    pub puzzles: u64,
    pub verifies: u64,
    pub issued: u64,
    pub rejected: u64,
    pub pass: u64,
    pub shadow_fail: u64,
    pub block: u64,
    pub pow_invalid: u64,
    pub tier_invisible_pass: u64,
    pub tier_checkbox: u64,
    pub tier_hard_pow: u64,
    pub tier_block: u64,
}

impl View for TimeBucket {
    type V = TimeBucketView;

    open spec fn view(&self) -> TimeBucketView {
        TimeBucketView {
            t: self.t@,
            puzzles: self.puzzles,
            verifies: self.verifies,
            issued: self.issued,
            rejected: self.rejected,
            pass: self.pass,
            shadow_fail: self.shadow_fail,
            block: self.block,
            pow_invalid: self.pow_invalid,
            tier_invisible_pass: self.tier_invisible_pass,
            tier_checkbox: self.tier_checkbox,
            tier_hard_pow: self.tier_hard_pow,
            tier_block: self.tier_block,
        }
    }
}

/// Nothing came.
pub open spec fn empty_bucket() -> TimeBucketView {
    TimeBucketView {
        t: Seq::empty(),
        puzzles: 0,
        verifies: 0,
        issued: 0,
        rejected: 0,
        pass: 0,
        shadow_fail: 0,
        block: 0,
        pow_invalid: 0,
        tier_invisible_pass: 0,
        tier_checkbox: 0,
        tier_hard_pow: 0,
        tier_block: 0,
    }
}

impl Default for TimeBucket {
    fn default() -> (r: Self)
        ensures
            r@ == empty_bucket(),
    {
        let r = TimeBucket {
            t: String::new(),
            puzzles: 0,
            verifies: 0,
            issued: 0,
            rejected: 0,
            pass: 0,
            shadow_fail: 0,
            block: 0,
            pow_invalid: 0,
            tier_invisible_pass: 0,
            tier_checkbox: 0,
            tier_hard_pow: 0,
            tier_block: 0,
        };
        assert(r@ =~= empty_bucket());
        r
    }
}

impl TimeBucket {
    /// The same counts under a start.
    pub fn starting(&self, t: String) -> (r: Self)
        ensures
            r@ == (TimeBucketView { t: t@, ..self@ }),
    {
        TimeBucket {
            t,
            puzzles: self.puzzles,
            verifies: self.verifies,
            issued: self.issued,
            rejected: self.rejected,
            pass: self.pass,
            shadow_fail: self.shadow_fail,
            block: self.block,
            pow_invalid: self.pow_invalid,
            tier_invisible_pass: self.tier_invisible_pass,
            tier_checkbox: self.tier_checkbox,
            tier_hard_pow: self.tier_hard_pow,
            tier_block: self.tier_block,
        }
    }
}

/// How many sessions a browser family has.
#[derive(Debug)]
pub struct BrowserCount {
    pub name: String,
    pub count: u64,
}

/// How many sessions a bot family has.
#[derive(Debug)]
pub struct BotCount {
    pub name: String,
    pub count: u64,
}

/// How many sessions a type of network has.
#[derive(Debug)]
pub struct NetworkTypeCount {
    pub name: String,
    pub count: u64,
}

/// How many sessions a country has.
#[derive(Debug)]
pub struct CountryCount {
    pub name: String,
    pub count: u64,
}

/// In how many sessions each signal scored.
#[derive(Debug, Clone, Copy, PartialEq, Eq, Structural)]
pub struct SignalFires {
    pub rate: u64,
    pub header_anomaly: u64,
    pub ip_reputation: u64,
    pub tls_fingerprint: u64,
    pub honeypot: u64,
    pub time_on_page: u64,
    pub behavior: u64,
    pub remote_ip: u64,
}

/// The figures of a window of time.
#[derive(Debug)]
pub struct Analytics {
    pub window_hours: u32,
    pub bucket_secs: u32,
    /// Every bucket of the window, also those in which nothing came.
    pub buckets: Vec<TimeBucket>,
    /// Sessions by how likely their visitors are bots, in ten bins.
    pub bot_histogram: Vec<u64>,
    pub browsers: Vec<BrowserCount>,
    pub bots: Vec<BotCount>,
    pub network_types: Vec<NetworkTypeCount>,
    pub countries: Vec<CountryCount>,
    pub signal_fires: SignalFires,
}

/// The views of the records leave nothing out: two records with the same view agree in every
/// field.
pub proof fn lemma_record_views(a: PuzzleRecord, b: PuzzleRecord, c: VerifyRecord, d: VerifyRecord)
    ensures
        a@ == b@ ==> a.monitored == b.monitored && a.challenge_id == b.challenge_id && a.site_key
            == b.site_key && a.ip == b.ip && a.ip_count == b.ip_count && a.site_count
            == b.site_count && a.score == b.score && a.tier == b.tier && a.difficulty
            == b.difficulty && a.outcome@ == b.outcome@ && a.breakdown == b.breakdown
            && a.ip_reputation_category == b.ip_reputation_category && a.tls_fingerprint@
            == b.tls_fingerprint@ && crate::config::optional_text(a.user_agent)
            == crate::config::optional_text(b.user_agent),
        c@ == d@ ==> c.monitored == d.monitored && c.challenge_id == d.challenge_id && c.success
            == d.success && c.outcome@ == d.outcome@ && c.score == d.score && c.breakdown
            == d.breakdown && c.time_on_page_ms == d.time_on_page_ms && c.webdriver@
            == d.webdriver@,
        a@.monitored == a.monitored && a@.challenge_id == a.challenge_id && a@.site_key
            == a.site_key && a@.ip == a.ip && a@.ip_count == a.ip_count && a@.site_count
            == a.site_count && a@.score == a.score && a@.tier == a.tier && a@.difficulty
            == a.difficulty && a@.outcome == a.outcome@ && a@.breakdown == a.breakdown,
        c@.monitored == c.monitored && c@.challenge_id == c.challenge_id && c@.success == c.success
            && c@.outcome == c.outcome@ && c@.score == c.score && c@.breakdown == c.breakdown,
{
}

/// The view of a bucket shows each of its counts under its own name.
pub proof fn lemma_bucket_view(b: TimeBucket)
    ensures
        b@.t == b.t@ && b@.puzzles == b.puzzles && b@.verifies == b.verifies && b@.issued
            == b.issued && b@.rejected == b.rejected && b@.pass == b.pass && b@.shadow_fail
            == b.shadow_fail && b@.block == b.block && b@.pow_invalid == b.pow_invalid
            && b@.tier_invisible_pass == b.tier_invisible_pass && b@.tier_checkbox
            == b.tier_checkbox && b@.tier_hard_pow == b.tier_hard_pow && b@.tier_block
            == b.tier_block,
{
}

} // verus!
