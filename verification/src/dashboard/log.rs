//! Writing of the log of decisions.
//!
//! Decisions are queued and written in batches by a single writer. A full queue drops
//! decisions and never holds up a request.
use vstd::prelude::*;

use crate::risk::tier::EscalationTier;
use crate::text::{chars_of, has_text};
use crate::time::{date_text, now, Timestamp, MIN_SECS};

verus! {

/// How many decisions can wait to be written.
pub const CHANNEL_CAPACITY: usize = 8192;

/// How many decisions are written together at most.
pub const MAX_INSERT_BATCH: usize = 256;

/// What the queue gives when it is asked for the next message without waiting.
#[derive(Debug, Clone, Copy, PartialEq, Eq, Structural)]
pub enum Queued {
    /// A decision to be written.
    Insert,
    /// A request to clear, to prune or to flush.
    Control,
    /// Nothing, or no queue any more.
    Nothing,
}

/// What the writer does with a message that it got while it gathers a batch.
#[derive(Debug, Clone, Copy, PartialEq, Eq, Structural)]
pub enum Gather {
    /// The message joins the batch, and the next one is asked for.
    Join,
    /// The message joins the batch, which is then written.
    JoinAndWrite,
    /// The batch is written, and then the message is carried out, so that the order holds.
    WriteThenRun,
    /// The batch is written.
    Write,
}

/// What the writer does with the next message, with so many in its batch.
pub open spec fn gathered(batched: usize, next: Queued) -> Gather {
    match next {
        Queued::Insert => if batched + 1 < MAX_INSERT_BATCH {
            Gather::Join
        } else {
            Gather::JoinAndWrite
        },
        Queued::Control => Gather::WriteThenRun,
        Queued::Nothing => Gather::Write,
    }
}

/// What the writer does with the next message. It asks for one only while its batch is not
/// full.
pub fn gather(batched: usize, next: Queued) -> (r: Gather)
    requires
        batched < MAX_INSERT_BATCH,
    ensures
        r == gathered(batched, next),
{
    match next {
        Queued::Insert => if batched + 1 < MAX_INSERT_BATCH {
            Gather::Join
        } else {
            Gather::JoinAndWrite
        },
        Queued::Control => Gather::WriteThenRun,
        Queued::Nothing => Gather::Write,
    }
}

/// A batch never outgrows its limit: gathering goes on only while one more fits.
pub proof fn lemma_batch_is_bounded(batched: usize, next: Queued)
    requires
        batched < MAX_INSERT_BATCH,
    ensures
        gathered(batched, next) == Gather::Join ==> batched + 1 < MAX_INSERT_BATCH,
        gathered(batched, next) == Gather::JoinAndWrite ==> batched + 1 == MAX_INSERT_BATCH,
{
}

/// The name of a tier in the log.
pub open spec fn tier_name(tier: EscalationTier) -> Seq<char> {
    match tier {
        EscalationTier::InvisiblePass => "InvisiblePass"@,
        EscalationTier::Checkbox => "Checkbox"@,
        EscalationTier::HardPow => "HardPow"@,
        EscalationTier::VisualChallenge => "VisualChallenge"@,
        EscalationTier::Block => "Block"@,
    }
}

/// The name of a tier in the log. The database counts the tiers by these names.
pub fn tier_column(tier: EscalationTier) -> (r: &'static str)
    ensures
        r@ == tier_name(tier),
{
    match tier {
        EscalationTier::InvisiblePass => "InvisiblePass",
        EscalationTier::Checkbox => "Checkbox",
        EscalationTier::HardPow => "HardPow",
        EscalationTier::VisualChallenge => "VisualChallenge",
        EscalationTier::Block => "Block",
    }
}

/// The errors of a change to the schema that mean that it was made before.
pub open spec fn was_migrated(message: Seq<char>) -> bool {
    crate::text::contains(message, "no such column"@) || crate::text::contains(
        message,
        "duplicate column name"@,
    )
}

/// Whether the error of a change to the schema means that it was made before.
pub fn is_migrated(message: &str) -> (r: bool)
    ensures
        r == was_migrated(message@),
{
    let cs = chars_of(message);
    has_text(cs.as_slice(), "no such column") || has_text(cs.as_slice(), "duplicate column name")
}

/// A power of two.
pub open spec fn is_power_of_two(n: u64) -> bool
    decreases n,
{
    n == 1 || (n > 1 && n % 2 == 0 && is_power_of_two(n / 2))
}

/// Whether the operator is told of a dropped decision, the `dropped`-th: at every doubling.
pub fn is_told(dropped: u64) -> (r: bool)
    ensures
        r == is_power_of_two(dropped),
{
    let mut n: u64 = dropped;
    while n > 1 && n % 2 == 0
        invariant
            is_power_of_two(n) == is_power_of_two(dropped),
        decreases n,
    {
        n = n / 2;
    }
    n == 1
}

/// A number of hours that can be told from now: the span is within the milliseconds that 64
/// bits hold, and does not lead out of the calendar.
pub open spec fn is_window(retention_hours: u64, now: Timestamp) -> bool {
    &&& retention_hours * 3600 <= i64::MAX / 1000
    &&& now.secs - retention_hours * 3600 >= MIN_SECS
}

/// The time before which decisions are dropped.
pub open spec fn cutoff(retention_hours: u64, now: Timestamp) -> Timestamp {
    Timestamp { secs: (now.secs - retention_hours * 3600) as i64, nanos: now.nanos }
}

/// The time before which decisions are dropped, as text. It orders as the times do that are
/// logged, so that texts can be compared. A span that cannot be told gives none, and nothing
/// is dropped.
pub fn prune_cutoff_at(retention_hours: u64, now: Timestamp) -> (r: Option<String>)
    requires
        crate::time::is_date(now),
        now.nanos < 1_000_000_000,
    ensures
        match r {
            Some(text) => is_window(retention_hours, now) && text@ == crate::time::date_written(
                cutoff(retention_hours, now),
            ),
            None => !is_window(retention_hours, now),
        },
{
    let span: u128 = retention_hours as u128 * 3600;
    if span > 9_223_372_036_854_775 {
        return None;
    }
    let secs: i128 = now.secs as i128 - span as i128;
    if secs < MIN_SECS as i128 {
        return None;
    }
    Some(date_text(&Timestamp { secs: secs as i64, nanos: now.nanos }))
}

/// `prune_cutoff_at` at the current time.
pub fn prune_cutoff(retention_hours: u64) -> (r: Option<String>)
    ensures
        exists|t: Timestamp|
            crate::time::is_clock_time(t) && match r {
                Some(text) => #[trigger] is_window(retention_hours, t) && text@
                    == crate::time::date_written(cutoff(retention_hours, t)),
                None => !is_window(retention_hours, t),
            },
{
    let t = now();
    let r = prune_cutoff_at(retention_hours, t);
    assert(is_window(retention_hours, t) == r is Some);
    r
}

/// The seconds between two sweeps of the log, where decisions are kept for so many hours.
pub open spec fn sweep_interval(retention_hours: int) -> int {
    let secs = retention_hours * 3600 / 24;
    if secs < 60 {
        60
    } else if secs > 3600 {
        3600
    } else {
        secs
    }
}

/// How often decisions are dropped: 24 times within their time, but at least once an hour
/// and at most once a minute.
pub fn sweep_secs(retention_hours: u64) -> (r: u64)
    requires
        retention_hours * 3600 <= u64::MAX,
    ensures
        r == sweep_interval(retention_hours as int),
        r == (if retention_hours * 150 < 60 {
            60
        } else if retention_hours * 150 > 3600 {
            3600
        } else {
            retention_hours * 150
        }),
{
    let secs: u64 = retention_hours * 3600 / 24;
    if secs < 60 {
        60
    } else if secs > 3600 {
        3600
    } else {
        secs
    }
}

/// What the writer does: it gathers decisions until a batch has 256 of them, writes what it has
/// before it carries anything else out, and writes what it has where nothing more waits.
pub proof fn lemma_gathering(batched: usize)
    requires
        batched < 256,
    ensures
        batched <= 254 ==> gathered(batched, Queued::Insert) == Gather::Join,
        batched == 255 ==> gathered(batched, Queued::Insert) == Gather::JoinAndWrite,
        gathered(batched, Queued::Control) == Gather::WriteThenRun,
        gathered(batched, Queued::Nothing) == Gather::Write,
{
}

/// The names of the tiers in the log.
pub proof fn lemma_tier_columns()
    ensures
        tier_name(EscalationTier::InvisiblePass) == "InvisiblePass"@,
        tier_name(EscalationTier::Checkbox) == "Checkbox"@,
        tier_name(EscalationTier::HardPow) == "HardPow"@,
        tier_name(EscalationTier::VisualChallenge) == "VisualChallenge"@,
        tier_name(EscalationTier::Block) == "Block"@,
{
}

/// The operator is told at one, at two, and at twice of every number that they are told at; in
/// between they are not.
pub proof fn lemma_told_at_doublings(n: u64)
    ensures
        is_power_of_two(1),
        !is_power_of_two(0),
        0 < n <= u64::MAX / 2 ==> is_power_of_two((2 * n) as u64) == is_power_of_two(n),
        n > 1 && n % 2 == 1 ==> !is_power_of_two(n),
{
}

/// Decisions are kept for the hours that are set: what is dropped is older than that, to the
/// nanosecond.
pub proof fn lemma_cutoff(retention_hours: u64, now: Timestamp)
    requires
        is_window(retention_hours, now),
    ensures
        cutoff(retention_hours, now).at() == now.at() - retention_hours * 3600
            * crate::time::NANOS_PER_SEC,
        cutoff(retention_hours, now).nanos == now.nanos,
{
    let c = cutoff(retention_hours, now);
    assert(c.secs == now.secs - retention_hours * 3600);
    assert(c.secs * 1_000_000_000 == now.secs * 1_000_000_000 - retention_hours * 3600
        * 1_000_000_000) by (nonlinear_arith)
        requires
            c.secs == now.secs - retention_hours * 3600,
    ;
}

/// The errors that mean that a change to the schema was made before.
pub proof fn lemma_migrated(message: Seq<char>)
    ensures
        was_migrated(message) <==> crate::text::contains(message, "no such column"@)
            || crate::text::contains(message, "duplicate column name"@),
{
}

/// The log is swept at least once an hour and at most once a minute; from one hour to a day it
/// is swept twenty-four times within the time that decisions are kept.
pub proof fn lemma_sweep_interval(hours: int)
    requires
        hours >= 0,
    ensures
        60 <= sweep_interval(hours) <= 3600,
        1 <= hours <= 24 ==> sweep_interval(hours) * 24 == hours * 3600,
        hours > 24 ==> sweep_interval(hours) == 3600,
{
}

/// Every time that the log can be kept for, up to ten years, can be told from the present.
pub proof fn lemma_retention_can_be_told(retention_hours: u64, now: Timestamp)
    requires
        retention_hours <= 87_600,
        now.secs >= 0,
    ensures
        is_window(retention_hours, now),
{
}

} // verus!
