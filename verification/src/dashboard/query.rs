//! Reading of the log of decisions: the figures that the operator is shown, from what the
//! database counts.
use vstd::prelude::*;
use vstd::string::*;

use crate::dashboard::families::{bot_family, browser_family, tally};
use crate::dashboard::types::{Analytics, BotCount, BrowserCount, CountryCount, NetworkTypeCount,
    OutcomeCounts, PuzzleBreakdownDto, PuzzleSignalSums, Session, SignalFires, TierCounts,
    TimeBucket, TimeBucketView, VerifyBreakdownDto, VerifySection, VerifySignalSums};
use crate::time::{date_text, Timestamp, MAX_SECS, MIN_SECS};

verus! {

/// How likely a visitor is a bot: the higher of the two scores, but at most 100.
pub open spec fn likelihood(puzzle: u32, verify: Option<u32>) -> u32 {
    let combined = match verify {
        Some(v) if v > puzzle => v,
        _ => puzzle,
    };
    if combined > 100 {
        100
    } else {
        combined
    }
}

/// How likely a visitor is a bot. Either score is enough on its own.
pub fn bot_probability(puzzle: u32, verify: Option<u32>) -> (r: u32)
    ensures
        r == likelihood(puzzle, verify),
{
    let combined = match verify {
        Some(v) => if v > puzzle {
            v
        } else {
            puzzle
        },
        None => puzzle,
    };
    if combined > 100 {
        100
    } else {
        combined
    }
}

/// Neither score is outweighed by the other, and a further score never makes a visitor less
/// suspicious.
pub proof fn lemma_likelihood_bounds(puzzle: u32, verify: u32)
    ensures
        likelihood(puzzle, Some(verify)) <= 100,
        likelihood(puzzle, Some(verify)) >= likelihood(puzzle, None),
        likelihood(puzzle, Some(verify)) == likelihood(verify, Some(puzzle)),
{
}

/// The columns of a decision on a submission, as the database holds them.
#[derive(Debug)]
pub struct VerifyColumns {
    pub ts: String,
    pub outcome: String,
    pub success: i64,
    pub score: i64,
    pub sig_honeypot: i64,
    pub sig_time_on_page: i64,
    pub sig_behavior: i64,
    pub sig_remote_ip: i64,
    pub time_on_page_ms: Option<i64>,
    pub webdriver: String,
    pub monitored: i64,
}

/// The columns of a decision on a request for a puzzle, as the database holds them, and those
/// of the submission where there was one.
#[derive(Debug)]
pub struct SessionColumns {
    pub id: i64,
    pub ts: String,
    pub challenge_id: Option<String>,
    pub site_key: String,
    pub ip: String,
    pub user_agent: Option<String>,
    pub outcome: String,
    pub score: i64,
    pub tier: String,
    pub difficulty: i64,
    pub ip_count: i64,
    pub site_count: i64,
    pub tls_fingerprint: String,
    pub sig_rate: i64,
    pub sig_header_anomaly: i64,
    pub sig_ip_reputation: i64,
    pub sig_tls_fingerprint: i64,
    pub monitored: i64,
    pub verify: Option<VerifyColumns>,
}

/// The part of a session that its submission gives.
pub open spec fn is_section_of(section: VerifySection, v: VerifyColumns) -> bool {
    &&& section.monitored == (v.monitored != 0)
    &&& section.ts == v.ts
    &&& section.outcome == v.outcome
    &&& section.success == (v.success != 0)
    &&& section.score == v.score as u32
    &&& section.time_on_page_ms == (match v.time_on_page_ms {
        Some(ms) => Some(ms as u64),
        None => None,
    })
    &&& section.webdriver == v.webdriver
    &&& section.breakdown == (VerifyBreakdownDto {
        honeypot: v.sig_honeypot as u32,
        time_on_page: v.sig_time_on_page as u32,
        behavior: v.sig_behavior as u32,
        remote_ip: v.sig_remote_ip as u32,
    })
}

/// The session that a row gives.
pub open spec fn is_session_of(session: Session, row: SessionColumns) -> bool {
    &&& session.monitored == (row.monitored != 0)
    &&& session.id == row.id
    &&& session.ts == row.ts
    &&& session.challenge_id == row.challenge_id
    &&& session.site_key == row.site_key
    &&& session.ip == row.ip
    &&& session.user_agent == row.user_agent
    &&& session.puzzle_outcome == row.outcome
    &&& session.puzzle_score == row.score as u32
    &&& session.tier == row.tier
    &&& session.difficulty == row.difficulty as u32
    &&& session.ip_count == row.ip_count as u32
    &&& session.site_count == row.site_count as u32
    &&& session.tls_fingerprint == row.tls_fingerprint
    &&& session.puzzle_breakdown == (PuzzleBreakdownDto {
        rate: row.sig_rate as u32,
        header_anomaly: row.sig_header_anomaly as u32,
        ip_reputation: row.sig_ip_reputation as u32,
        tls_fingerprint: row.sig_tls_fingerprint as u32,
    })
    &&& match (session.verify, row.verify) {
        (Some(section), Some(v)) => is_section_of(section, v),
        (None, None) => true,
        _ => false,
    }
    &&& session.bot_probability == likelihood(
        row.score as u32,
        match row.verify {
            Some(v) => Some(v.score as u32),
            None => None,
        },
    )
}

/// The session that a row gives.
pub fn row_to_session(row: SessionColumns) -> (r: Session)
    ensures
        is_session_of(r, row),
{
    let puzzle_score = #[verifier::truncate]
    (row.score as u32);
    let verify: Option<VerifySection> = match row.verify {
        None => None,
        Some(v) => Some(
            VerifySection {
                monitored: v.monitored != 0,
                ts: v.ts,
                outcome: v.outcome,
                success: v.success != 0,
                score: #[verifier::truncate]
                (v.score as u32),
                time_on_page_ms: match v.time_on_page_ms {
                    Some(ms) => Some(
                        #[verifier::truncate]
                        (ms as u64),
                    ),
                    None => None,
                },
                webdriver: v.webdriver,
                breakdown: VerifyBreakdownDto {
                    honeypot: #[verifier::truncate]
                    (v.sig_honeypot as u32),
                    time_on_page: #[verifier::truncate]
                    (v.sig_time_on_page as u32),
                    behavior: #[verifier::truncate]
                    (v.sig_behavior as u32),
                    remote_ip: #[verifier::truncate]
                    (v.sig_remote_ip as u32),
                },
            },
        ),
    };
    let verify_score: Option<u32> = match &verify {
        Some(section) => Some(section.score),
        None => None,
    };
    Session {
        monitored: row.monitored != 0,
        id: row.id,
        ts: row.ts,
        challenge_id: row.challenge_id,
        site_key: row.site_key,
        ip: row.ip,
        user_agent: row.user_agent,
        puzzle_outcome: row.outcome,
        puzzle_score,
        tier: row.tier,
        difficulty: #[verifier::truncate]
        (row.difficulty as u32),
        ip_count: #[verifier::truncate]
        (row.ip_count as u32),
        site_count: #[verifier::truncate]
        (row.site_count as u32),
        tls_fingerprint: row.tls_fingerprint,
        puzzle_breakdown: PuzzleBreakdownDto {
            rate: #[verifier::truncate]
            (row.sig_rate as u32),
            header_anomaly: #[verifier::truncate]
            (row.sig_header_anomaly as u32),
            ip_reputation: #[verifier::truncate]
            (row.sig_ip_reputation as u32),
            tls_fingerprint: #[verifier::truncate]
            (row.sig_tls_fingerprint as u32),
        },
        verify,
        bot_probability: bot_probability(puzzle_score, verify_score),
    }
}

/// The length of a bucket for a window of so many hours, so that there are never many.
pub open spec fn bucket_length(hours: u32) -> int {
    if hours <= 2 {
        300
    } else if hours <= 12 {
        1800
    } else if hours <= 48 {
        3600
    } else if hours <= 240 {
        21600
    } else {
        86400
    }
}

pub fn bucket_secs_for(hours: u32) -> (r: i64)
    ensures
        r == bucket_length(hours),
{
    if hours <= 2 {
        300
    } else if hours <= 12 {
        1800
    } else if hours <= 48 {
        3600
    } else if hours <= 240 {
        21600
    } else {
        86400
    }
}

/// A window of a length that can be asked for is shown in at most 49 buckets, the one that is
/// not over included.
pub proof fn lemma_few_buckets(hours: u32, now_epoch: i64)
    requires
        1 <= hours <= 720,
    ensures
        bucket_count(hours, now_epoch) <= 49,
{
    let b = bucket_length(hours);
    let start = now_epoch - hours * 3600;
    let since = window_start(hours, now_epoch);
    assert(hours * 3600 <= 48 * b);
    lemma_aligned(start, b);
    assert((now_epoch - since) / b < 49) by (nonlinear_arith)
        requires
            now_epoch - since < 49 * b,
            b > 0,
    ;
}

/// The last multiple of a length that is not behind a time.
pub open spec fn aligned(start: int, length: int) -> int {
    start / length * length
}

proof fn lemma_aligned(start: int, length: int)
    requires
        length > 0,
    ensures
        0 <= start - aligned(start, length) < length,
{
    assert(0 <= start - start / length * length < length) by (nonlinear_arith)
        requires
            length > 0,
    ;
}

/// The start of the window of the last hours, at the start of a bucket. Buckets are counted
/// from the epoch.
pub open spec fn window_start(hours: u32, now_epoch: i64) -> int {
    aligned(now_epoch - hours * 3600, bucket_length(hours))
}

/// The number of buckets of a window: from its start, up to and with the one that is not
/// over.
pub open spec fn bucket_count(hours: u32, now_epoch: i64) -> int {
    (now_epoch - window_start(hours, now_epoch)) / bucket_length(hours) + 1
}

/// The start of the window of the last hours.
pub fn since_epoch(hours: u32, now_epoch: i64) -> (r: i64)
    requires
        window_start(hours, now_epoch) >= i64::MIN,
    ensures
        r == window_start(hours, now_epoch),
        r <= now_epoch,
{
    let bucket = bucket_secs_for(hours);
    proof {
        lemma_aligned(now_epoch - hours * 3600, bucket as int);
    }
    let start: i64 = now_epoch - hours as i64 * 3600;
    if start >= 0 {
        let whole: i64 = start / bucket;
        whole * bucket
    } else {
        let size: i128 = -(start as i128);
        let length: i128 = bucket as i128;
        let whole: i128 = (size + length - 1) / length;
        proof {
            lemma_rounded_down(start as int, bucket as int);
        }
        (-(whole * length)) as i64
    }
}

proof fn lemma_rounded_down(start: int, length: int)
    requires
        start < 0,
        length > 0,
    ensures
        -((-start + length - 1) / length * length) == aligned(start, length),
        -start <= (-start + length - 1) / length * length < -start + length,
{
    let up = (-start + length - 1) / length;
    let down = start / length;
    assert(up * length <= -start + length - 1 < up * length + length) by (nonlinear_arith)
        requires
            length > 0,
            up == (-start + length - 1) / length,
    ;
    lemma_aligned(start, length);
    assert(up == -down) by (nonlinear_arith)
        requires
            length > 0,
            up * length <= -start + length - 1 < up * length + length,
            0 <= start - down * length < length,
    ;
    assert((-down) * length == -(down * length)) by (nonlinear_arith);
}

/// Every moment of the window lies in one of its buckets: the first starts when the window
/// does or before it, and the last is not over.
pub proof fn lemma_window_is_covered(hours: u32, now_epoch: i64)
    ensures
        ({
            let b = bucket_length(hours);
            let start = window_start(hours, now_epoch);
            &&& start <= now_epoch - hours * 3600 < start + b
            &&& start + (bucket_count(hours, now_epoch) - 1) * b <= now_epoch < start
                + bucket_count(hours, now_epoch) * b
        }),
{
    let b = bucket_length(hours);
    let start = window_start(hours, now_epoch);
    lemma_aligned(now_epoch - hours * 3600, b);
    let span = now_epoch - start;
    assert(span / b * b <= span < (span / b + 1) * b) by (nonlinear_arith)
        requires
            b > 0,
    ;
}

/// A second since the epoch as text; nothing, where it is no date.
pub open spec fn epoch_text(epoch: int) -> Seq<char> {
    if MIN_SECS <= epoch <= MAX_SECS {
        crate::time::rfc3339_text(epoch as i64, 0)
    } else {
        Seq::empty()
    }
}

/// A second since the epoch as text; nothing, where it is no date.
pub fn epoch_date(epoch: i64) -> (r: String)
    ensures
        r@ == epoch_text(epoch as int),
{
    if epoch < MIN_SECS || MAX_SECS < epoch {
        let none = String::new();
        assert(none@ =~= Seq::<char>::empty());
        none
    } else {
        date_text(&Timestamp { secs: epoch, nanos: 0 })
    }
}

/// What came within the bucket that starts at a time, by the rows of the database: the last
/// one for it, or nothing.
pub open spec fn bucket_at(rows: Seq<(i64, TimeBucket)>, epoch: int) -> TimeBucketView
    decreases rows.len(),
{
    if rows.len() == 0 {
        crate::dashboard::types::empty_bucket()
    } else if rows.last().0 == epoch {
        rows.last().1@
    } else {
        bucket_at(rows.drop_last(), epoch)
    }
}

/// The buckets of a window, also those in which nothing came.
pub open spec fn is_dense(
    buckets: Seq<TimeBucket>,
    rows: Seq<(i64, TimeBucket)>,
    hours: u32,
    now_epoch: i64,
) -> bool {
    &&& buckets.len() == bucket_count(hours, now_epoch)
    &&& forall|i: int|
        0 <= i < buckets.len() ==> (#[trigger] buckets[i])@ == bucket_starting(
            rows,
            window_start(hours, now_epoch) + i * bucket_length(hours),
        )
}

/// The bucket that starts at a time.
pub open spec fn bucket_starting(rows: Seq<(i64, TimeBucket)>, epoch: int) -> TimeBucketView {
    TimeBucketView { t: epoch_text(epoch), ..bucket_at(rows, epoch) }
}

fn find_bucket(rows: &Vec<(i64, TimeBucket)>, epoch: i64) -> (r: TimeBucket)
    ensures
        r@ == bucket_starting(rows@, epoch as int),
{
    let mut n = rows.len();
    assert(rows@.take(n as int) =~= rows@);
    while n > 0
        invariant
            n <= rows@.len(),
            bucket_at(rows@.take(n as int), epoch as int) == bucket_at(rows@, epoch as int),
        decreases n,
    {
        assert(rows@.take(n as int).drop_last() =~= rows@.take(n - 1));
        if rows[n - 1].0 == epoch {
            return rows[n - 1].1.starting(epoch_date(epoch));
        }
        n -= 1;
    }
    TimeBucket::default().starting(epoch_date(epoch))
}

/// The buckets of the window of the last hours, also those in which nothing came, from what
/// the database counted.
pub fn dense_buckets(rows: &Vec<(i64, TimeBucket)>, hours: u32, now_epoch: i64) -> (r: Vec<
    TimeBucket,
>)
    requires
        window_start(hours, now_epoch) >= i64::MIN,
        now_epoch + 86400 <= i64::MAX,
    ensures
        is_dense(r@, rows@, hours, now_epoch),
{
    let bucket = bucket_secs_for(hours);
    let since = since_epoch(hours, now_epoch);
    let mut out: Vec<TimeBucket> = Vec::new();
    let mut epoch = since;
    while epoch <= now_epoch
        invariant
            bucket == bucket_length(hours),
            0 < bucket <= 86400,
            since == window_start(hours, now_epoch),
            now_epoch + 86400 <= i64::MAX,
            epoch == since + out@.len() * bucket,
            epoch <= now_epoch + bucket,
            forall|i: int|
                0 <= i < out@.len() ==> (#[trigger] out@[i])@ == bucket_starting(
                    rows@,
                    since + i * bucket,
                ),
        decreases now_epoch + bucket - epoch,
    {
        let ghost before = out@;
        out.push(find_bucket(rows, epoch));
        assert forall|i: int| 0 <= i < out@.len() implies (#[trigger] out@[i])@ == bucket_starting(
            rows@,
            since + i * bucket,
        ) by {
            if i < before.len() {
                assert(out@[i] == before[i]);
            }
        }
        assert((before.len() + 1) * bucket == before.len() * bucket + bucket) by (nonlinear_arith);
        epoch = epoch + bucket;
    }
    proof {
        let n = out@.len() as int;
        assert((now_epoch - since) / (bucket as int) + 1 == n) by (nonlinear_arith)
            requires
                bucket > 0,
                since + n * bucket > now_epoch,
                since + n * bucket <= now_epoch + bucket,
                n >= 0,
        ;
    }
    out
}

/// The bin of a histogram that a number belongs to.
pub open spec fn bin_of(bin: i64) -> int {
    if bin < 0 {
        0
    } else if bin > 9 {
        9
    } else {
        bin as int
    }
}

/// The histogram that rows of bins and counts give: of two rows for a bin the later counts.
pub open spec fn histogram_of(rows: Seq<(i64, u64)>) -> Seq<u64>
    decreases rows.len(),
{
    if rows.len() == 0 {
        Seq::new(10, |i: int| 0u64)
    } else {
        histogram_of(rows.drop_last()).update(bin_of(rows.last().0), rows.last().1)
    }
}

/// The histogram of how likely visitors are bots, from what the database counted.
pub fn histogram(rows: &Vec<(i64, u64)>) -> (r: Vec<u64>)
    ensures
        r@ == histogram_of(rows@),
        r@.len() == 10,
{
    let mut bins: Vec<u64> = vec![0u64, 0, 0, 0, 0, 0, 0, 0, 0, 0];
    assert(bins@ =~= histogram_of(rows@.take(0)));
    let n = rows.len();
    for i in 0..n
        invariant
            n == rows@.len(),
            bins@.len() == 10,
            bins@ == histogram_of(rows@.take(i as int)),
    {
        assert(rows@.take(i + 1).drop_last() =~= rows@.take(i as int));
        let (bin, count) = rows[i];
        let at: usize = if bin < 0 {
            0
        } else if bin > 9 {
            9
        } else {
            bin as usize
        };
        bins.set(at, count);
    }
    assert(rows@.take(n as int) =~= rows@);
    bins
}

/// The user agents that were logged, with the number of sessions of each.
pub open spec fn agent_views(rows: Seq<(Option<String>, u64)>) -> Seq<(Option<Seq<char>>, u64)> {
    Seq::new(rows.len(), |i: int| (crate::config::optional_text(rows[i].0), rows[i].1))
}

/// User agents by browser family.
pub open spec fn by_browser(agents: Seq<(Option<Seq<char>>, u64)>) -> Seq<(Seq<char>, u64)> {
    Seq::new(
        agents.len(),
        |i: int| (crate::dashboard::families::browser_of(agents[i].0), agents[i].1),
    )
}

/// The user agents of bots by bot family.
pub open spec fn by_bot(agents: Seq<(Option<Seq<char>>, u64)>) -> Seq<(Seq<char>, u64)>
    decreases agents.len(),
{
    if agents.len() == 0 {
        Seq::empty()
    } else {
        let before = by_bot(agents.drop_last());
        match crate::dashboard::families::bot_of(agents.last().0) {
            Some(family) => before.push((family, agents.last().1)),
            None => before,
        }
    }
}

/// All sessions.
pub open spec fn sessions(agents: Seq<(Option<Seq<char>>, u64)>) -> nat
    decreases agents.len(),
{
    if agents.len() == 0 {
        0
    } else {
        sessions(agents.drop_last()) + agents.last().1 as nat
    }
}

proof fn lemma_families_within(agents: Seq<(Option<Seq<char>>, u64)>)
    ensures
        crate::dashboard::families::grand_total(by_browser(agents)) == sessions(agents),
        crate::dashboard::families::grand_total(by_bot(agents)) <= sessions(agents),
    decreases agents.len(),
{
    if agents.len() > 0 {
        let front = agents.drop_last();
        lemma_families_within(front);
        assert(by_browser(agents).drop_last() =~= by_browser(front));
        match crate::dashboard::families::bot_of(agents.last().0) {
            Some(family) => {
                assert(by_bot(agents).drop_last() =~= by_bot(front));
            },
            None => {},
        }
    }
}

pub open spec fn browser_views(v: Seq<BrowserCount>) -> Seq<(Seq<char>, u64)> {
    Seq::new(v.len(), |i: int| (v[i].name@, v[i].count))
}

pub open spec fn bot_views(v: Seq<BotCount>) -> Seq<(Seq<char>, u64)> {
    Seq::new(v.len(), |i: int| (v[i].name@, v[i].count))
}

fn label(agent: &Option<String>) -> (r: Option<&str>)
    ensures
        crate::dashboard::families::optional_str(r) == crate::config::optional_text(*agent),
{
    match agent {
        Some(ua) => Some(ua.as_str()),
        None => None,
    }
}

/// How many sessions each browser family has, and each bot family, from the user agents that
/// were logged. The largest families come first.
pub fn family_counts(rows: &Vec<(Option<String>, u64)>) -> (r: (Vec<BrowserCount>, Vec<BotCount>))
    requires
        sessions(agent_views(rows@)) <= u64::MAX,
    ensures
        crate::dashboard::families::is_tally(
            by_browser(agent_views(rows@)),
            browser_views(r.0@),
        ),
        crate::dashboard::families::is_tally(by_bot(agent_views(rows@)), bot_views(r.1@)),
{
    let ghost agents = agent_views(rows@);
    let mut browsers: Vec<(&'static str, u64)> = Vec::new();
    let mut bots: Vec<(&'static str, u64)> = Vec::new();
    let n = rows.len();
    assert(crate::dashboard::families::entry_views(browsers@) =~= by_browser(agents.take(0)));
    assert(crate::dashboard::families::entry_views(bots@) =~= by_bot(agents.take(0)));
    for i in 0..n
        invariant
            n == rows@.len(),
            agents == agent_views(rows@),
            crate::dashboard::families::entry_views(browsers@) == by_browser(
                agents.take(i as int),
            ),
            crate::dashboard::families::entry_views(bots@) == by_bot(agents.take(i as int)),
    {
        let ghost next = agents.take(i + 1);
        assert(next.drop_last() =~= agents.take(i as int));
        assert(next.last() == agents[i as int]);
        let ghost browsers_before = crate::dashboard::families::entry_views(browsers@);
        let ghost bots_before = crate::dashboard::families::entry_views(bots@);
        let count = rows[i].1;
        let browser = browser_family(label(&rows[i].0));
        browsers.push((browser, count));
        assert(crate::dashboard::families::entry_views(browsers@) =~= browsers_before.push(
            (browser@, count),
        ));
        assert(by_browser(next) =~= by_browser(agents.take(i as int)).push((browser@, count)));
        match bot_family(label(&rows[i].0)) {
            Some(family) => {
                bots.push((family, count));
                assert(crate::dashboard::families::entry_views(bots@) =~= bots_before.push(
                    (family@, count),
                ));
            },
            None => {},
        }
    }
    assert(agents.take(n as int) =~= agents);
    proof {
        lemma_families_within(agents);
    }
    let browser_tally = tally(&browsers);
    let bot_tally = tally(&bots);
    let mut browser_counts: Vec<BrowserCount> = Vec::new();
    let m = browser_tally.len();
    for i in 0..m
        invariant
            m == browser_tally@.len(),
            browser_counts@.len() == i,
            forall|j: int|
                0 <= j < i ==> (#[trigger] browser_counts@[j]).name@ == browser_tally@[j].0@
                    && browser_counts@[j].count == browser_tally@[j].1,
    {
        browser_counts.push(
            BrowserCount { name: browser_tally[i].0.to_owned(), count: browser_tally[i].1 },
        );
    }
    assert(browser_views(browser_counts@) =~= crate::dashboard::families::entry_views(
        browser_tally@,
    ));
    let mut bot_counts: Vec<BotCount> = Vec::new();
    let k = bot_tally.len();
    for i in 0..k
        invariant
            k == bot_tally@.len(),
            bot_counts@.len() == i,
            forall|j: int|
                0 <= j < i ==> (#[trigger] bot_counts@[j]).name@ == bot_tally@[j].0@
                    && bot_counts@[j].count == bot_tally@[j].1,
    {
        bot_counts.push(BotCount { name: bot_tally[i].0.to_owned(), count: bot_tally[i].1 });
    }
    assert(bot_views(bot_counts@) =~= crate::dashboard::families::entry_views(bot_tally@));
    (browser_counts, bot_counts)
}

/// A number that the database counted: a sum over nothing is nothing, and counts as zero.
pub open spec fn counted(columns: Seq<Option<i64>>, i: int) -> u64 {
    match columns[i] {
        Some(n) => n as u64,
        None => 0,
    }
}

fn count_at(columns: &Vec<Option<i64>>, i: usize) -> (r: u64)
    requires
        i < columns@.len(),
    ensures
        r == counted(columns@, i as int),
{
    match columns[i] {
        Some(n) => #[verifier::truncate]
        (n as u64),
        None => 0,
    }
}

/// The counts of a bucket, without its start.
pub open spec fn bucket_counts(columns: Seq<Option<i64>>) -> TimeBucketView {
    TimeBucketView {
        t: Seq::empty(),
        puzzles: counted(columns, 0),
        verifies: counted(columns, 1),
        issued: counted(columns, 2),
        rejected: counted(columns, 3),
        pass: counted(columns, 4),
        shadow_fail: counted(columns, 5),
        block: counted(columns, 6),
        pow_invalid: counted(columns, 7),
        tier_invisible_pass: counted(columns, 8),
        tier_checkbox: counted(columns, 9),
        tier_hard_pow: counted(columns, 10),
        tier_block: counted(columns, 11),
    }
}

/// In how many sessions each signal scored.
pub open spec fn fire_counts(columns: Seq<Option<i64>>) -> SignalFires {
    SignalFires {
        rate: counted(columns, 0),
        header_anomaly: counted(columns, 1),
        ip_reputation: counted(columns, 2),
        tls_fingerprint: counted(columns, 3),
        honeypot: counted(columns, 4),
        time_on_page: counted(columns, 5),
        behavior: counted(columns, 6),
        remote_ip: counted(columns, 7),
    }
}

/// The counts of a bucket, in the order in which the database gives them. Its start is not
/// among them.
pub fn bucket_of_columns(columns: &Vec<Option<i64>>) -> (r: TimeBucket)
    requires
        columns@.len() == 12,
    ensures
        r@ == bucket_counts(columns@),
        r@ == (TimeBucketView {
            t: Seq::empty(),
            puzzles: counted(columns@, 0),
            verifies: counted(columns@, 1),
            issued: counted(columns@, 2),
            rejected: counted(columns@, 3),
            pass: counted(columns@, 4),
            shadow_fail: counted(columns@, 5),
            block: counted(columns@, 6),
            pow_invalid: counted(columns@, 7),
            tier_invisible_pass: counted(columns@, 8),
            tier_checkbox: counted(columns@, 9),
            tier_hard_pow: counted(columns@, 10),
            tier_block: counted(columns@, 11),
        }),
{
    let r = TimeBucket {
        t: String::new(),
        puzzles: count_at(columns, 0),
        verifies: count_at(columns, 1),
        issued: count_at(columns, 2),
        rejected: count_at(columns, 3),
        pass: count_at(columns, 4),
        shadow_fail: count_at(columns, 5),
        block: count_at(columns, 6),
        pow_invalid: count_at(columns, 7),
        tier_invisible_pass: count_at(columns, 8),
        tier_checkbox: count_at(columns, 9),
        tier_hard_pow: count_at(columns, 10),
        tier_block: count_at(columns, 11),
    };
    assert(r.t@ =~= Seq::<char>::empty());
    r
}

/// In how many sessions each signal scored, in the order in which the database gives it.
pub fn fires_of_columns(columns: &Vec<Option<i64>>) -> (r: SignalFires)
    requires
        columns@.len() == 8,
    ensures
        r == fire_counts(columns@),
        r == (SignalFires {
            rate: counted(columns@, 0),
            header_anomaly: counted(columns@, 1),
            ip_reputation: counted(columns@, 2),
            tls_fingerprint: counted(columns@, 3),
            honeypot: counted(columns@, 4),
            time_on_page: counted(columns@, 5),
            behavior: counted(columns@, 6),
            remote_ip: counted(columns@, 7),
        }),
{
    SignalFires {
        rate: count_at(columns, 0),
        header_anomaly: count_at(columns, 1),
        ip_reputation: count_at(columns, 2),
        tls_fingerprint: count_at(columns, 3),
        honeypot: count_at(columns, 4),
        time_on_page: count_at(columns, 5),
        behavior: count_at(columns, 6),
        remote_ip: count_at(columns, 7),
    }
}

/// The counts over all sessions. The averages stand beside them.
#[derive(Debug, Clone, Copy, PartialEq, Eq, Structural)]
pub struct StatCounts {
    pub total_sessions: u64,
    pub verified_sessions: u64,
    pub puzzle_signals: PuzzleSignalSums,
    pub verify_signals: VerifySignalSums,
    pub outcomes: OutcomeCounts,
    pub tiers: TierCounts,
}

/// The number of counts over all sessions that the database gives.
pub const STAT_COLUMNS: usize = 22;

/// The counts over all sessions, in the order in which the database gives them.
pub open spec fn stats_of(columns: Seq<Option<i64>>) -> StatCounts {
    StatCounts {
        total_sessions: counted(columns, 0),
        verified_sessions: counted(columns, 1),
        puzzle_signals: PuzzleSignalSums {
            rate: counted(columns, 2),
            header_anomaly: counted(columns, 3),
            ip_reputation: counted(columns, 4),
            tls_fingerprint: counted(columns, 5),
        },
        verify_signals: VerifySignalSums {
            honeypot: counted(columns, 6),
            time_on_page: counted(columns, 7),
            behavior: counted(columns, 8),
            remote_ip: counted(columns, 9),
        },
        outcomes: OutcomeCounts {
            puzzle_issued: counted(columns, 10),
            puzzle_rejected: counted(columns, 11),
            verify_pass: counted(columns, 12),
            verify_shadow_fail: counted(columns, 13),
            verify_block: counted(columns, 14),
            verify_pow_invalid: counted(columns, 15),
            puzzle_monitored: counted(columns, 20),
            verify_monitored: counted(columns, 21),
        },
        tiers: TierCounts {
            invisible_pass: counted(columns, 16),
            checkbox: counted(columns, 17),
            hard_pow: counted(columns, 18),
            block: counted(columns, 19),
        },
    }
}

/// The counts over all sessions, in the order in which the database gives them.
pub fn stats_of_columns(columns: &Vec<Option<i64>>) -> (r: StatCounts)
    requires
        columns@.len() == STAT_COLUMNS,
    ensures
        r == stats_of(columns@),
{
    StatCounts {
        total_sessions: count_at(columns, 0),
        verified_sessions: count_at(columns, 1),
        puzzle_signals: PuzzleSignalSums {
            rate: count_at(columns, 2),
            header_anomaly: count_at(columns, 3),
            ip_reputation: count_at(columns, 4),
            tls_fingerprint: count_at(columns, 5),
        },
        verify_signals: VerifySignalSums {
            honeypot: count_at(columns, 6),
            time_on_page: count_at(columns, 7),
            behavior: count_at(columns, 8),
            remote_ip: count_at(columns, 9),
        },
        outcomes: OutcomeCounts {
            puzzle_issued: count_at(columns, 10),
            puzzle_rejected: count_at(columns, 11),
            verify_pass: count_at(columns, 12),
            verify_shadow_fail: count_at(columns, 13),
            verify_block: count_at(columns, 14),
            verify_pow_invalid: count_at(columns, 15),
            puzzle_monitored: count_at(columns, 20),
            verify_monitored: count_at(columns, 21),
        },
        tiers: TierCounts {
            invisible_pass: count_at(columns, 16),
            checkbox: count_at(columns, 17),
            hard_pow: count_at(columns, 18),
            block: count_at(columns, 19),
        },
    }
}

/// The figures of the last hours, from what the database counted.
pub fn analytics(
    hours: u32,
    now_epoch: i64,
    bucket_rows: &Vec<(i64, TimeBucket)>,
    bin_rows: &Vec<(i64, u64)>,
    agents: &Vec<(Option<String>, u64)>,
    network_types: Vec<NetworkTypeCount>,
    countries: Vec<CountryCount>,
    signal_fires: SignalFires,
) -> (r: Analytics)
    requires
        window_start(hours, now_epoch) >= i64::MIN,
        now_epoch + 86400 <= i64::MAX,
        sessions(agent_views(agents@)) <= u64::MAX,
    ensures
        r.window_hours == hours,
        r.bucket_secs == bucket_length(hours),
        is_dense(r.buckets@, bucket_rows@, hours, now_epoch),
        r.bot_histogram@ == histogram_of(bin_rows@),
        crate::dashboard::families::is_tally(
            by_browser(agent_views(agents@)),
            browser_views(r.browsers@),
        ),
        crate::dashboard::families::is_tally(by_bot(agent_views(agents@)), bot_views(r.bots@)),
        r.network_types == network_types,
        r.countries == countries,
        r.signal_fires == signal_fires,
{
    let (browsers, bots) = family_counts(agents);
    Analytics {
        window_hours: hours,
        bucket_secs: bucket_secs_for(hours) as u32,
        buckets: dense_buckets(bucket_rows, hours, now_epoch),
        bot_histogram: histogram(bin_rows),
        browsers,
        bots,
        network_types,
        countries,
        signal_fires,
    }
}

/// How likely a visitor is a bot: the larger of the scores, cut off at a hundred. A submission
/// that was not made counts as nothing.
pub proof fn lemma_likelihood(puzzle: u32, verify: u32)
    ensures
        puzzle <= 100 ==> likelihood(puzzle, None) == puzzle,
        puzzle > 100 ==> likelihood(puzzle, None) == 100,
        puzzle <= 100 && verify <= puzzle ==> likelihood(puzzle, Some(verify)) == puzzle,
        puzzle <= verify <= 100 ==> likelihood(puzzle, Some(verify)) == verify,
        puzzle > 100 || verify > 100 ==> likelihood(puzzle, Some(verify)) == 100,
{
}

/// The lengths of buckets: five minutes up to two hours, half an hour up to twelve, an hour up
/// to two days, six hours up to ten days, and a day from then on.
pub proof fn lemma_bucket_lengths(hours: u32)
    ensures
        hours <= 2 ==> bucket_length(hours) == 5 * 60,
        3 <= hours <= 12 ==> bucket_length(hours) == 30 * 60,
        13 <= hours <= 48 ==> bucket_length(hours) == 60 * 60,
        49 <= hours <= 240 ==> bucket_length(hours) == 6 * 60 * 60,
        hours >= 241 ==> bucket_length(hours) == 24 * 60 * 60,
{
}

/// A bucket shows what the database counted for its start, and nothing where it counted
/// nothing.
pub proof fn lemma_bucket_is_its_row(rows: Seq<(i64, TimeBucket)>, epoch: int, k: int)
    ensures
        (forall|i: int| 0 <= i < rows.len() ==> (#[trigger] rows[i]).0 != epoch) ==> {
            let b = bucket_starting(rows, epoch);
            b.puzzles == 0 && b.verifies == 0 && b.issued == 0 && b.rejected == 0 && b.pass == 0
                && b.shadow_fail == 0 && b.block == 0 && b.pow_invalid == 0
                && b.tier_invisible_pass == 0 && b.tier_checkbox == 0 && b.tier_hard_pow == 0
                && b.tier_block == 0
        },
        0 <= k < rows.len() && rows[k].0 == epoch && (forall|i: int|
            k < i < rows.len() ==> (#[trigger] rows[i]).0 != epoch) ==> {
            let b = bucket_starting(rows, epoch);
            let row = rows[k].1;
            b.puzzles == row.puzzles && b.verifies == row.verifies && b.issued == row.issued
                && b.rejected == row.rejected && b.pass == row.pass && b.shadow_fail
                == row.shadow_fail && b.block == row.block && b.pow_invalid == row.pow_invalid
                && b.tier_invisible_pass == row.tier_invisible_pass && b.tier_checkbox
                == row.tier_checkbox && b.tier_hard_pow == row.tier_hard_pow && b.tier_block
                == row.tier_block
        },
        MIN_SECS <= epoch <= MAX_SECS ==> bucket_starting(rows, epoch).t
            == crate::time::rfc3339_text(epoch as i64, 0),
    decreases rows.len(),
{
    if rows.len() > 0 {
        let before = rows.drop_last();
        lemma_bucket_is_its_row(before, epoch, k);
        if forall|i: int| 0 <= i < rows.len() ==> (#[trigger] rows[i]).0 != epoch {
            assert(rows[rows.len() - 1].0 != epoch);
            assert forall|i: int| 0 <= i < before.len() implies (#[trigger] before[i]).0
                != epoch by {
                assert(before[i] == rows[i]);
            }
        }
        if 0 <= k < rows.len() && rows[k].0 == epoch && (forall|i: int|
            k < i < rows.len() ==> (#[trigger] rows[i]).0 != epoch) {
            if k < rows.len() - 1 {
                assert(rows[rows.len() - 1].0 != epoch);
                assert(before[k] == rows[k]);
                assert forall|i: int| k < i < before.len() implies (#[trigger] before[i]).0
                    != epoch by {
                    assert(before[i] == rows[i]);
                }
            }
        }
    }
}

/// The bars of the histogram: each shows what was counted for it, and nothing where nothing
/// was; what lies below the first or above the last is counted there.
pub proof fn lemma_histogram(rows: Seq<(i64, u64)>, bin: int, k: int)
    requires
        0 <= bin < 10,
    ensures
        histogram_of(rows).len() == 10,
        (forall|i: int| 0 <= i < rows.len() ==> bin_of((#[trigger] rows[i]).0) != bin)
            ==> histogram_of(rows)[bin] == 0,
        0 <= k < rows.len() && bin_of(rows[k].0) == bin && (forall|i: int|
            k < i < rows.len() ==> bin_of((#[trigger] rows[i]).0) != bin) ==> histogram_of(
            rows,
        )[bin] == rows[k].1,
    decreases rows.len(),
{
    if rows.len() > 0 {
        let before = rows.drop_last();
        lemma_histogram(before, bin, k);
        assert(0 <= bin_of(rows.last().0) < 10);
        if forall|i: int| 0 <= i < rows.len() ==> bin_of((#[trigger] rows[i]).0) != bin {
            assert(bin_of(rows[rows.len() - 1].0) != bin);
            assert forall|i: int| 0 <= i < before.len() implies bin_of((#[trigger] before[i]).0)
                != bin by {
                assert(before[i] == rows[i]);
            }
        }
        if 0 <= k < rows.len() && bin_of(rows[k].0) == bin && (forall|i: int|
            k < i < rows.len() ==> bin_of((#[trigger] rows[i]).0) != bin) {
            if k < rows.len() - 1 {
                assert(bin_of(rows[rows.len() - 1].0) != bin);
                assert(before[k] == rows[k]);
                assert forall|i: int| k < i < before.len() implies bin_of(
                    (#[trigger] before[i]).0,
                ) != bin by {
                    assert(before[i] == rows[i]);
                }
            }
        }
    }
}

/// The bars are numbered from zero to nine.
pub proof fn lemma_bins(bin: i64)
    ensures
        0 <= bin <= 9 ==> bin_of(bin) == bin,
        bin <= 0 ==> bin_of(bin) == 0,
        bin >= 9 ==> bin_of(bin) == 9,
{
}

/// A session shows its row, field by field, and its submission where there was one.
pub proof fn lemma_session_shows_row(session: Session, row: SessionColumns)
    requires
        is_session_of(session, row),
    ensures
        session.id == row.id,
        session.ts@ == row.ts@,
        session.challenge_id == row.challenge_id,
        session.site_key@ == row.site_key@,
        session.ip@ == row.ip@,
        session.user_agent == row.user_agent,
        session.puzzle_outcome@ == row.outcome@,
        session.tier@ == row.tier@,
        session.tls_fingerprint@ == row.tls_fingerprint@,
        session.monitored <==> row.monitored != 0,
        0 <= row.score <= u32::MAX ==> session.puzzle_score == row.score,
        0 <= row.difficulty <= u32::MAX ==> session.difficulty == row.difficulty,
        0 <= row.ip_count <= u32::MAX ==> session.ip_count == row.ip_count,
        0 <= row.site_count <= u32::MAX ==> session.site_count == row.site_count,
        0 <= row.sig_rate <= u32::MAX ==> session.puzzle_breakdown.rate == row.sig_rate,
        0 <= row.sig_header_anomaly <= u32::MAX ==> session.puzzle_breakdown.header_anomaly
            == row.sig_header_anomaly,
        0 <= row.sig_ip_reputation <= u32::MAX ==> session.puzzle_breakdown.ip_reputation
            == row.sig_ip_reputation,
        0 <= row.sig_tls_fingerprint <= u32::MAX ==> session.puzzle_breakdown.tls_fingerprint
            == row.sig_tls_fingerprint,
        session.verify is Some <==> row.verify is Some,
        row.verify matches Some(v) ==> {
            let s = session.verify->0;
            &&& s.ts@ == v.ts@
            &&& s.outcome@ == v.outcome@
            &&& s.webdriver@ == v.webdriver@
            &&& s.success <==> v.success != 0
            &&& s.monitored <==> v.monitored != 0
            &&& 0 <= v.score <= u32::MAX ==> s.score == v.score
            &&& 0 <= v.sig_honeypot <= u32::MAX ==> s.breakdown.honeypot == v.sig_honeypot
            &&& 0 <= v.sig_time_on_page <= u32::MAX ==> s.breakdown.time_on_page
                == v.sig_time_on_page
            &&& 0 <= v.sig_behavior <= u32::MAX ==> s.breakdown.behavior == v.sig_behavior
            &&& 0 <= v.sig_remote_ip <= u32::MAX ==> s.breakdown.remote_ip == v.sig_remote_ip
            &&& s.time_on_page_ms is Some <==> v.time_on_page_ms is Some
            &&& v.time_on_page_ms matches Some(ms) ==> ms >= 0 ==> s.time_on_page_ms == Some(
                ms as u64,
            )
        },
        row.verify is None && 0 <= row.score <= u32::MAX ==> session.bot_probability == likelihood(
            row.score as u32,
            None,
        ),
        row.verify matches Some(v) ==> 0 <= row.score <= u32::MAX && 0 <= v.score <= u32::MAX
            ==> session.bot_probability == likelihood(row.score as u32, Some(v.score as u32)),
{
}

/// The counts over all sessions are the columns of the database in their order: sessions and
/// submissions, the sums of the signals, the outcomes, the tiers, and what was only monitored.
pub proof fn lemma_stat_columns(columns: Seq<Option<i64>>, n: Seq<u64>)
    requires
        columns.len() == 22,
        n.len() == 22,
        forall|i: int|
            0 <= i < 22 ==> (columns[i] matches Some(c) ==> c >= 0 && c == #[trigger] n[i]),
        forall|i: int| 0 <= i < 22 ==> (columns[i] is None ==> #[trigger] n[i] == 0),
    ensures
        ({
            let s = stats_of(columns);
            &&& s.total_sessions == n[0]
            &&& s.verified_sessions == n[1]
            &&& s.puzzle_signals.rate == n[2]
            &&& s.puzzle_signals.header_anomaly == n[3]
            &&& s.puzzle_signals.ip_reputation == n[4]
            &&& s.puzzle_signals.tls_fingerprint == n[5]
            &&& s.verify_signals.honeypot == n[6]
            &&& s.verify_signals.time_on_page == n[7]
            &&& s.verify_signals.behavior == n[8]
            &&& s.verify_signals.remote_ip == n[9]
            &&& s.outcomes.puzzle_issued == n[10]
            &&& s.outcomes.puzzle_rejected == n[11]
            &&& s.outcomes.verify_pass == n[12]
            &&& s.outcomes.verify_shadow_fail == n[13]
            &&& s.outcomes.verify_block == n[14]
            &&& s.outcomes.verify_pow_invalid == n[15]
            &&& s.tiers.invisible_pass == n[16]
            &&& s.tiers.checkbox == n[17]
            &&& s.tiers.hard_pow == n[18]
            &&& s.tiers.block == n[19]
            &&& s.outcomes.puzzle_monitored == n[20]
            &&& s.outcomes.verify_monitored == n[21]
        }),
{
}

/// Every session is counted for the browser family of its user agent, and for the bot family
/// where it has one.
pub proof fn lemma_agents_are_counted(
    agents: Seq<(Option<Seq<char>>, u64)>,
    agent: (Option<Seq<char>>, u64),
)
    ensures
        by_browser(agents.push(agent)) == by_browser(agents).push(
            (crate::dashboard::families::browser_of(agent.0), agent.1),
        ),
        crate::dashboard::families::bot_of(agent.0) is None ==> by_bot(agents.push(agent))
            == by_bot(agents),
        crate::dashboard::families::bot_of(agent.0) matches Some(family) ==> by_bot(
            agents.push(agent),
        ) == by_bot(agents).push((family, agent.1)),
        by_browser(Seq::empty()).len() == 0,
        by_bot(Seq::empty()).len() == 0,
{
    assert(agents.push(agent).drop_last() =~= agents);
    assert(by_browser(agents.push(agent)) =~= by_browser(agents).push(
        (crate::dashboard::families::browser_of(agent.0), agent.1),
    ));
}

/// The buckets of a window stand one behind the other without a gap, from its start to now, each
/// with what was counted for it.
pub proof fn lemma_dense_buckets(
    buckets: Seq<TimeBucket>,
    rows: Seq<(i64, TimeBucket)>,
    hours: u32,
    now_epoch: i64,
    i: int,
)
    requires
        is_dense(buckets, rows, hours, now_epoch),
        0 <= i < buckets.len(),
    ensures
        ({
            let start = window_start(hours, now_epoch) + i * bucket_length(hours);
            let shown = bucket_at(rows, start);
            &&& MIN_SECS <= start <= MAX_SECS ==> buckets[i].t@ == crate::time::rfc3339_text(
                start as i64,
                0,
            )
            &&& buckets[i].puzzles == shown.puzzles
            &&& buckets[i].verifies == shown.verifies
            &&& buckets[i].issued == shown.issued
            &&& buckets[i].rejected == shown.rejected
            &&& buckets[i].pass == shown.pass
            &&& buckets[i].shadow_fail == shown.shadow_fail
            &&& buckets[i].block == shown.block
            &&& buckets[i].pow_invalid == shown.pow_invalid
            &&& buckets[i].tier_invisible_pass == shown.tier_invisible_pass
            &&& buckets[i].tier_checkbox == shown.tier_checkbox
            &&& buckets[i].tier_hard_pow == shown.tier_hard_pow
            &&& buckets[i].tier_block == shown.tier_block
        }),
{
    assert(buckets[i]@ == bucket_starting(
        rows,
        window_start(hours, now_epoch) + i * bucket_length(hours),
    ));
}

/// A bucket and the fires of the signals are the columns of the database in their order; a sum
/// over nothing is zero.
pub proof fn lemma_count_columns(n: Seq<u64>, columns: Seq<Option<i64>>)
    requires
        n.len() == columns.len(),
        forall|i: int|
            0 <= i < columns.len() ==> (columns[i] matches Some(c) ==> c >= 0 && c
                == #[trigger] n[i]),
        forall|i: int| 0 <= i < columns.len() ==> (columns[i] is None ==> #[trigger] n[i] == 0),
    ensures
        columns.len() == 12 ==> {
            let b = bucket_counts(columns);
            b.puzzles == n[0] && b.verifies == n[1] && b.issued == n[2] && b.rejected == n[3]
                && b.pass == n[4] && b.shadow_fail == n[5] && b.block == n[6] && b.pow_invalid
                == n[7] && b.tier_invisible_pass == n[8] && b.tier_checkbox == n[9]
                && b.tier_hard_pow == n[10] && b.tier_block == n[11]
        },
        columns.len() == 8 ==> {
            let f = fire_counts(columns);
            f.rate == n[0] && f.header_anomaly == n[1] && f.ip_reputation == n[2]
                && f.tls_fingerprint == n[3] && f.honeypot == n[4] && f.time_on_page == n[5]
                && f.behavior == n[6] && f.remote_ip == n[7]
        },
{
}

/// A second that is no date of the calendar has no text.
pub proof fn lemma_epoch_text(epoch: int)
    ensures
        -8_334_601_228_800 <= epoch <= 8_210_266_876_799 ==> epoch_text(epoch)
            == crate::time::rfc3339_text(epoch as i64, 0),
        epoch < -8_334_601_228_800 || epoch > 8_210_266_876_799 ==> epoch_text(epoch).len() == 0,
{
}

} // verus!
