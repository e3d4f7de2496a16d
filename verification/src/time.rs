//! Points in time, as a number of seconds since the Unix epoch and the
//! nanoseconds behind them.
use vstd::prelude::*;

verus! {

pub const NANOS_PER_SEC: i128 = 1_000_000_000;

pub const NANOS_PER_MILLI: i128 = 1_000_000;

/// A point in time, in UTC.
#[derive(Debug, Clone, Copy, PartialEq, Eq, Structural)]
pub struct Timestamp {
    /// Whole seconds since 1970-01-01T00:00:00Z.
    pub secs: i64,
    /// Nanoseconds behind the whole second.
    pub nanos: u32,
}

impl Timestamp {
    /// Nanoseconds since the Unix epoch.
    pub open spec fn at(self) -> int {
        self.secs * NANOS_PER_SEC + self.nanos
    }

    pub fn new(secs: i64, nanos: u32) -> (r: Timestamp)
        ensures
            r == (Timestamp { secs, nanos }),
    {
        Timestamp { secs, nanos }
    }

    /// Nanoseconds since the Unix epoch.
    pub fn instant(&self) -> (r: i128)
        ensures
            r == self.at(),
            -9_223_372_036_854_775_808_000_000_000 <= r <= 9_223_372_036_860_000_000_000_000_000,
    {
        self.secs as i128 * 1_000_000_000 + self.nanos as i128
    }

    /// The point `secs` seconds later, or in the last second of the calendar where that is
    /// earlier.
    pub fn plus_secs(&self, secs: u64) -> (r: Timestamp)
        ensures
            r == later(*self, secs),
    {
        let sum: i128 = self.secs as i128 + secs as i128;
        if sum <= MAX_SECS as i128 {
            Timestamp { secs: sum as i64, nanos: self.nanos }
        } else {
            Timestamp { secs: MAX_SECS, nanos: self.nanos }
        }
    }

    /// The point that lies the given number of milliseconds behind the epoch, where it is
    /// a date of the calendar that is kept.
    pub fn from_millis(millis: i64) -> (r: Option<Timestamp>)
        ensures
            r is Some == is_representable(millis),
            r matches Some(t) ==> t.at() == millis * NANOS_PER_MILLI && t.nanos < 1_000_000_000,
    {
        if millis < MIN_MILLIS || MAX_MILLIS < millis {
            return None;
        }
        let rem: i64 = millis % 1000;
        let (secs, ms): (i64, i64) = if rem < 0 {
            (millis / 1000 - 1, rem + 1000)
        } else {
            (millis / 1000, rem)
        };
        Some(Timestamp { secs, nanos: ms as u32 * 1_000_000 })
    }
}

/// The first millisecond of the year -262143.
pub const MIN_MILLIS: i64 = -8_334_601_228_800_000;

/// The last millisecond of the year 262142.
pub const MAX_MILLIS: i64 = 8_210_266_876_799_999;

/// The first second of the year -262143.
pub const MIN_SECS: i64 = -8_334_601_228_800;

/// The last second of the year 262142.
pub const MAX_SECS: i64 = 8_210_266_876_799;

/// The point `secs` seconds later, or in the last second of the calendar where that is earlier.
pub open spec fn later(t: Timestamp, secs: u64) -> Timestamp {
    Timestamp {
        secs: if t.secs + secs <= MAX_SECS {
            (t.secs + secs) as i64
        } else {
            MAX_SECS
        },
        nanos: t.nanos,
    }
}

/// The dates of the calendar that is kept, in milliseconds since the epoch: those of the
/// years from -262143 to 262142.
pub open spec fn is_representable(millis: i64) -> bool {
    MIN_MILLIS <= millis <= MAX_MILLIS
}

/// Whole milliseconds from `from` to `to`: none when `to` does not lie behind
/// `from`, and at most what 64 bits hold.
pub open spec fn millis_between(from: Timestamp, to: Timestamp) -> u64 {
    let d = to.at() - from.at();
    if d <= 0 {
        0
    } else if d / (NANOS_PER_MILLI as int) > u64::MAX {
        u64::MAX
    } else {
        (d / (NANOS_PER_MILLI as int)) as u64
    }
}

pub fn elapsed_millis(from: &Timestamp, to: &Timestamp) -> (r: u64)
    ensures
        r == millis_between(*from, *to),
{
    let d: i128 = to.instant() - from.instant();
    if d <= 0 {
        0
    } else {
        let ms: i128 = d / 1_000_000;
        if ms > u64::MAX as i128 {
            u64::MAX
        } else {
            ms as u64
        }
    }
}

/// A time that a clock can show: a date of the calendar, not before the epoch.
pub open spec fn is_clock_time(t: Timestamp) -> bool {
    0 <= t.secs <= MAX_SECS && t.nanos < 1_000_000_000
}

/// The current time by `chrono::Utc::now`. Of the result only the range of
/// `chrono::DateTime` is claimed, that it does not lie before the epoch, and that the
/// nanoseconds are below one second: the function takes the time since the epoch.
#[verifier::external_body]
fn utc_now() -> (r: (i64, u32))
    ensures
        0 <= r.0 <= MAX_SECS,
        r.1 < 1_000_000_000,
{
    let now = chrono::Utc::now();
    (now.timestamp(), now.timestamp_subsec_nanos())
}

/// The current time.
pub fn now() -> (r: Timestamp)
    ensures
        is_clock_time(r),
{
    let (secs, nanos) = utc_now();
    Timestamp { secs, nanos }
}

/// A date of the calendar. The nanoseconds reach into a second second only behind a
/// minute's last one, which stands for a leap second.
pub open spec fn is_date(t: Timestamp) -> bool {
    &&& MIN_SECS <= t.secs <= MAX_SECS
    &&& t.nanos < 1_000_000_000 || (t.nanos < 2_000_000_000 && t.secs % 60 == 59)
}

/// The first second of the year 0.
pub const FIRST_FOUR_DIGIT_SECS: i64 = -62_167_219_200;

/// The last second of the year 9999.
pub const LAST_FOUR_DIGIT_SECS: i64 = 253_402_300_799;

/// A date whose year has at most four digits, outside of leap seconds.
pub open spec fn is_common_date(t: Timestamp) -> bool {
    FIRST_FOUR_DIGIT_SECS <= t.secs <= LAST_FOUR_DIGIT_SECS && t.nanos < 1_000_000_000
}

/// The text that `chrono::DateTime::<Utc>::to_rfc3339` writes for a date.
pub uninterp spec fn rfc3339_text(secs: i64, nanos: u32) -> Seq<char>;

/// The text of a date.
pub open spec fn date_written(t: Timestamp) -> Seq<char> {
    rfc3339_text(t.secs, t.nanos)
}

/// What `chrono::DateTime::parse_from_rfc3339` reads from a text, as seconds since the
/// epoch and the nanoseconds behind them, or what is wrong with it.
pub uninterp spec fn rfc3339_of_text(text: Seq<char>) -> Result<(i64, u32), Seq<char>>;

/// `chrono::DateTime::<Utc>::to_rfc3339`: the claim is that the text depends on the date
/// alone.
#[verifier::external_body]
fn to_rfc3339(t: &Timestamp) -> (r: String)
    requires
        is_date(*t),
    ensures
        r@ == rfc3339_text(t.secs, t.nanos),
{
    chrono::DateTime::<chrono::Utc>::from_timestamp(t.secs, t.nanos).unwrap().to_rfc3339()
}

/// `chrono::DateTime::parse_from_rfc3339`, turned to UTC: the claim is that the result, and
/// the text of the error, depend on the text alone, and that what `to_rfc3339` wrote of a
/// year with four digits, as RFC 3339 wants it, is read back.
#[verifier::external_body]
fn from_rfc3339(text: &str) -> (r: Result<(i64, u32), String>)
    ensures
        match r {
            Ok(parts) => rfc3339_of_text(text@) == Ok::<(i64, u32), Seq<char>>(parts),
            Err(e) => rfc3339_of_text(text@) == Err::<(i64, u32), Seq<char>>(e@),
        },
        forall|t: Timestamp|
            is_common_date(t) && text@ == #[trigger] date_written(t) ==> r is Ok && r->Ok_0.0
                == t.secs && r->Ok_0.1 == t.nanos,
{
    match chrono::DateTime::parse_from_rfc3339(text) {
        Ok(t) => Ok((t.timestamp(), t.timestamp_subsec_nanos())),
        Err(e) => Err(e.to_string()),
    }
}

/// A date as text.
pub fn date_text(t: &Timestamp) -> (r: String)
    requires
        is_date(*t),
    ensures
        r@ == rfc3339_text(t.secs, t.nanos),
{
    to_rfc3339(t)
}

/// The date that a text writes. What `date_text` wrote is read back.
pub fn parse_date(text: &str) -> (r: Result<Timestamp, String>)
    ensures
        match r {
            Ok(t) => rfc3339_of_text(text@) == Ok::<(i64, u32), Seq<char>>((t.secs, t.nanos)),
            Err(e) => rfc3339_of_text(text@) == Err::<(i64, u32), Seq<char>>(e@),
        },
        forall|t: Timestamp|
            is_common_date(t) && text@ == #[trigger] date_written(t) ==> r is Ok && r->Ok_0 == t,
{
    match from_rfc3339(text) {
        Ok(parts) => Ok(Timestamp { secs: parts.0, nanos: parts.1 }),
        Err(e) => Err(e),
    }
}

/// The milliseconds between two times are whole ones, and never more than have passed: none
/// where the second does not lie behind the first, and no more are granted for a clock that
/// runs backwards.
pub proof fn lemma_millis_between(from: Timestamp, to: Timestamp)
    ensures
        to.at() <= from.at() ==> millis_between(from, to) == 0,
        to.at() > from.at() && to.at() - from.at() < 0x1_0000_0000_0000_0000 * 1_000_000 ==> {
            let ms = millis_between(from, to);
            ms * 1_000_000 <= to.at() - from.at() < (ms + 1) * 1_000_000
        },
{
}

/// A point so many seconds later lies exactly so much later, as long as the calendar lasts.
pub proof fn lemma_later(t: Timestamp, secs: u64)
    ensures
        t.secs + secs <= MAX_SECS ==> later(t, secs).at() == t.at() + secs * 1_000_000_000,
        t.secs + secs > MAX_SECS ==> later(t, secs).secs == MAX_SECS,
        later(t, secs).nanos == t.nanos,
{
    if t.secs + secs <= MAX_SECS {
        let r = later(t, secs);
        assert(r.secs == t.secs + secs);
        assert(r.secs * 1_000_000_000 == t.secs * 1_000_000_000 + secs * 1_000_000_000)
            by (nonlinear_arith)
            requires
                r.secs == t.secs + secs,
        ;
    }
}

/// The calendar that is kept: the years from -262143 to 262142, to the millisecond.
pub proof fn lemma_calendar(millis: i64)
    ensures
        is_representable(millis) <==> -8_334_601_228_800_000 <= millis <= 8_210_266_876_799_999,
{
}

} // verus!
