//! Client failover: an embedding form stays usable while this service cannot be
//! reached, without making "the service was down" a way around it.
//!
//! A widget that could not fetch a puzzle submits a claim in place of a token. Nothing
//! could have signed it, so it is honoured only while this service itself knows that it
//! was unable to serve, only within a grace time of that outage, and only so often for
//! each site and minute.
use std::collections::HashMap;
use vstd::prelude::*;

use crate::ident::Uuid;
use crate::time::{now, Timestamp};

verus! {

/// How an outage came to be known.
#[derive(Debug, Clone, Copy, PartialEq, Eq, Structural)]
pub enum OutageSource {
    /// The process was not running: its heartbeat has a gap.
    HeartbeatGap,
    /// An operator said so.
    Declared,
}

/// A time, its end not included, during which no puzzles could be served.
#[derive(Debug, Clone, Copy, PartialEq, Eq, Structural)]
pub struct OutageWindow {
    pub start: Timestamp,
    pub end: Timestamp,
    pub source: OutageSource,
}

/// A number of seconds in nanoseconds.
pub open spec fn secs_as_nanos(secs: int) -> int {
    secs * crate::time::NANOS_PER_SEC
}

impl OutageWindow {
    /// The time lies in the window, or less than `grace_secs` behind it.
    pub open spec fn is_open(self, now: Timestamp, grace_secs: u64) -> bool {
        self.start.at() <= now.at() < self.end.at() + secs_as_nanos(grace_secs as int)
    }

    /// The window can cover a claim, now or later: its grace time is not over.
    pub open spec fn can_cover(self, now: Timestamp, grace_secs: u64) -> bool {
        now.at() < self.end.at() + secs_as_nanos(grace_secs as int)
    }

    fn is_of_use(&self, now: &Timestamp, grace_secs: u64) -> (r: bool)
        ensures
            r == self.can_cover(*now, grace_secs),
    {
        now.instant() < self.end.instant() + grace_secs as i128 * 1_000_000_000
    }

    fn covers(&self, now: &Timestamp, grace_secs: u64) -> (r: bool)
        ensures
            r == self.is_open(*now, grace_secs),
    {
        let t = now.instant();
        let close: i128 = self.end.instant() + grace_secs as i128 * 1_000_000_000;
        self.start.instant() <= t && t < close
    }
}

/// The windows that are open at a time, in their order.
pub open spec fn open_windows(
    windows: Seq<OutageWindow>,
    now: Timestamp,
    grace_secs: u64,
) -> Seq<OutageWindow>
    decreases windows.len(),
{
    if windows.len() == 0 {
        Seq::empty()
    } else {
        let before = open_windows(windows.drop_last(), now, grace_secs);
        if windows.last().is_open(now, grace_secs) {
            before.push(windows.last())
        } else {
            before
        }
    }
}

/// The windows that can cover a claim at a time or later, in their order: those that are
/// open, and those that have not begun.
pub open spec fn kept_windows(
    windows: Seq<OutageWindow>,
    now: Timestamp,
    grace_secs: u64,
) -> Seq<OutageWindow>
    decreases windows.len(),
{
    if windows.len() == 0 {
        Seq::empty()
    } else {
        let before = kept_windows(windows.drop_last(), now, grace_secs);
        if windows.last().can_cover(now, grace_secs) {
            before.push(windows.last())
        } else {
            before
        }
    }
}

/// What outlives a restart.
#[derive(Debug)]
pub struct FailoverState {
    /// When the process was last alive; never, on its first start.
    pub last_heartbeat: Option<Timestamp>,
    pub windows: Vec<OutageWindow>,
}

impl Default for FailoverState {
    fn default() -> (r: Self)
        ensures
            r.last_heartbeat is None,
            r.windows@.len() == 0,
    {
        FailoverState { last_heartbeat: None, windows: Vec::new() }
    }
}

/// The state that an earlier run left, by what reading its file came to. A file that is not
/// there, or that cannot be read, counts as nothing: then no outage is known, and every claim
/// is refused.
pub fn read_state(parsed: Result<FailoverState, String>) -> (r: FailoverState)
    ensures
        match parsed {
            Ok(state) => r == state,
            Err(_) => r.last_heartbeat is None && r.windows@.len() == 0,
        },
{
    match parsed {
        Ok(state) => state,
        Err(_) => FailoverState::default(),
    }
}

/// What becomes of a claim.
#[derive(Debug, Clone, Copy, PartialEq, Eq, Structural)]
pub enum FailoverVerdict {
    /// An outage is known that is still open.
    Accept { source: OutageSource },
    /// Failover is off, or has no state that outlives a restart.
    Disabled,
    /// No outage is known that is still open.
    Unattested,
    /// The claim's own time cannot be.
    StaleClaim,
    /// The site has used up its claims of the minute.
    RateLimited,
}

impl FailoverVerdict {
    pub open spec fn name(self) -> Seq<char> {
        match self {
            FailoverVerdict::Accept { .. } => "failover_pass"@,
            FailoverVerdict::Disabled => "failover_disabled"@,
            FailoverVerdict::Unattested => "failover_unattested"@,
            FailoverVerdict::StaleClaim => "failover_stale"@,
            FailoverVerdict::RateLimited => "failover_rate_limited"@,
        }
    }

    /// The name of the verdict in the decision log.
    pub fn outcome(&self) -> (r: &'static str)
        ensures
            r@ == self.name(),
    {
        match self {
            FailoverVerdict::Accept { .. } => "failover_pass",
            FailoverVerdict::Disabled => "failover_disabled",
            FailoverVerdict::Unattested => "failover_unattested",
            FailoverVerdict::StaleClaim => "failover_stale",
            FailoverVerdict::RateLimited => "failover_rate_limited",
        }
    }

    pub fn accepted(&self) -> (r: bool)
        ensures
            r == (self is Accept),
    {
        match self {
            FailoverVerdict::Accept { .. } => true,
            _ => false,
        }
    }
}

#[derive(Debug)]
pub struct FailoverConfig {
    pub enabled: bool,
    /// Where the state is kept.
    pub state_path: Option<String>,
    pub heartbeat_interval_secs: u64,
    /// The shortest gap in the heartbeat that counts as an outage.
    pub min_gap_secs: u64,
    /// How long behind an outage claims are honoured.
    pub grace_secs: u64,
    /// Accepted claims per site and minute; zero for no limit.
    pub max_per_min: u32,
}

/// The configuration of a guard that nothing is set for.
pub open spec fn default_config() -> FailoverConfig {
    FailoverConfig {
        enabled: false,
        state_path: None,
        heartbeat_interval_secs: 15,
        min_gap_secs: 60,
        grace_secs: 300,
        max_per_min: 600,
    }
}

impl Default for FailoverConfig {
    fn default() -> (r: Self)
        ensures
            r == default_config(),
    {
        FailoverConfig {
            enabled: false,
            state_path: None,
            heartbeat_interval_secs: 15,
            min_gap_secs: 60,
            grace_secs: 300,
            max_per_min: 600,
        }
    }
}

/// How far the clock of a client may be off.
pub const CLOCK_SKEW_SECS: u64 = 300;

/// Decides on claims.
#[derive(Debug)]
pub struct FailoverGuard {
    pub config: FailoverConfig,
    pub state: FailoverState,
    /// When the claims of each site were accepted that count against it.
    pub accepts: HashMap<u128, Vec<Timestamp>>,
    pub accepted_total: u64,
    pub refused_total: u64,
}

/// The number behind a number that is counted; it starts anew behind the largest.
pub open spec fn next_count(n: u64) -> u64 {
    if n == u64::MAX {
        0
    } else {
        (n + 1) as u64
    }
}

/// The source of the first window that is open.
pub open spec fn open_source(
    windows: Seq<OutageWindow>,
    now: Timestamp,
    grace_secs: u64,
) -> Option<OutageSource> {
    let open = open_windows(windows, now, grace_secs);
    if open.len() == 0 {
        None
    } else {
        Some(open[0].source)
    }
}

/// The claim's own time lies in the future, or further back than any window that is
/// still open, by more than the tolerated skew.
pub open spec fn is_stale(issued_at_ms: i64, now: Timestamp, grace_secs: u64) -> bool {
    let issued = issued_at_ms * crate::time::NANOS_PER_MILLI;
    ||| !crate::time::is_representable(issued_at_ms)
    ||| issued > now.at() + secs_as_nanos(CLOCK_SKEW_SECS as int)
    ||| issued < now.at() - secs_as_nanos(grace_secs as int) - secs_as_nanos(
        CLOCK_SKEW_SECS as int,
    )
}

/// The times of a list that lie less than a minute back.
pub open spec fn recent(times: Seq<Timestamp>, now: Timestamp) -> Seq<Timestamp>
    decreases times.len(),
{
    if times.len() == 0 {
        Seq::empty()
    } else {
        let before = recent(times.drop_last(), now);
        if now.at() - times.last().at() < secs_as_nanos(60) {
            before.push(times.last())
        } else {
            before
        }
    }
}

/// A site has claims left, given when its claims were accepted: the minute rolls.
pub open spec fn has_budget(times: Seq<Timestamp>, now: Timestamp, cap: u32) -> bool {
    cap == 0 || recent(times, now).len() < cap
}

/// When the claims of a site were accepted.
pub open spec fn times_of(accepts: Map<u128, Seq<Timestamp>>, site: Uuid) -> Seq<Timestamp> {
    if accepts.contains_key(site) {
        accepts[site]
    } else {
        Seq::empty()
    }
}

/// The accepted claims of the sites after one more of a site: those that still count, and
/// the new one. Without a limit nothing is kept.
pub open spec fn with_claim(
    accepts: Map<u128, Seq<Timestamp>>,
    site: Uuid,
    now: Timestamp,
    cap: u32,
) -> Map<u128, Seq<Timestamp>> {
    if cap > 0 {
        accepts.insert(site, recent(times_of(accepts, site), now).push(now))
    } else {
        accepts
    }
}

impl FailoverGuard {
    /// Failover is on, and its state outlives a restart.
    pub open spec fn is_on(self) -> bool {
        self.config.enabled && self.config.state_path is Some
    }

    /// What becomes of a claim.
    pub open spec fn verdict(self, site: Uuid, issued_at_ms: i64, now: Timestamp) -> FailoverVerdict {
        if !self.is_on() {
            FailoverVerdict::Disabled
        } else {
            match open_source(self.state.windows@, now, self.config.grace_secs) {
                None => FailoverVerdict::Unattested,
                Some(source) => if is_stale(issued_at_ms, now, self.config.grace_secs) {
                    FailoverVerdict::StaleClaim
                } else if !has_budget(
                    times_of(self.claims(), site),
                    now,
                    self.config.max_per_min,
                ) {
                    FailoverVerdict::RateLimited
                } else {
                    FailoverVerdict::Accept { source }
                },
            }
        }
    }

    /// When the claims of each site were accepted that count against it.
    pub open spec fn claims(self) -> Map<u128, Seq<Timestamp>> {
        self.accepts@.map_values(|v: Vec<Timestamp>| v@)
    }

    /// The accepted claims after a claim was judged: an accepted one counts against its site,
    /// where there is a limit.
    pub open spec fn counted(
        self,
        site: Uuid,
        verdict: FailoverVerdict,
        now: Timestamp,
    ) -> Map<u128, Seq<Timestamp>> {
        if verdict is Accept {
            with_claim(self.claims(), site, now, self.config.max_per_min)
        } else {
            self.claims()
        }
    }

    /// No more claims of a site are kept than the limit allows.
    pub open spec fn within_limits(self) -> bool {
        self.config.max_per_min > 0 ==> forall|site: u128| #[trigger]
            self.claims().contains_key(site) ==> self.claims()[site].len()
                <= self.config.max_per_min
    }

    /// Starts at a given time with what an earlier run left behind. A gap in the
    /// heartbeat of at least `min_gap_secs` is an outage; the first start knows of none.
    pub fn load_at(config: FailoverConfig, persisted: FailoverState, now: Timestamp) -> (r: Self)
        ensures
            r.config == config,
            r.state.last_heartbeat == Some(now),
            r.state.windows@ == kept_windows(
                attested_at_start(persisted, config.min_gap_secs, now),
                now,
                config.grace_secs,
            ),
            r.claims() == Map::<u128, Seq<Timestamp>>::empty(),
            r.accepted_total == 0,
            r.refused_total == 0,
            r.within_limits(),
    {
        let mut windows = persisted.windows;
        if let Some(last) = persisted.last_heartbeat {
            let gap: i128 = now.instant() - last.instant();
            if gap >= config.min_gap_secs as i128 * 1_000_000_000 {
                windows.push(
                    OutageWindow { start: last, end: now, source: OutageSource::HeartbeatGap },
                );
            }
        }
        let mut state = FailoverState { last_heartbeat: Some(now), windows };
        prune(&mut state, &now, config.grace_secs);
        let guard = FailoverGuard {
            config,
            state,
            accepts: HashMap::new(),
            accepted_total: 0,
            refused_total: 0,
        };
        assert(guard.claims() =~= Map::<u128, Seq<Timestamp>>::empty());
        guard
    }

    /// `load_at` at the current time.
    pub fn load(config: FailoverConfig, persisted: FailoverState) -> (r: Self)
        ensures
            r.config == config,
            r.state.last_heartbeat matches Some(t) && crate::time::is_clock_time(t)
                && r.state.windows@ == kept_windows(
                attested_at_start(persisted, config.min_gap_secs, t),
                t,
                config.grace_secs,
            ),
            r.claims() == Map::<u128, Seq<Timestamp>>::empty(),
            r.accepted_total == 0,
            r.refused_total == 0,
            r.within_limits(),
    {
        Self::load_at(config, persisted, now())
    }

    /// A guard that refuses every claim.
    pub fn disabled() -> (r: Self)
        ensures
            !r.is_on(),
            r.config == default_config(),
            r.state.last_heartbeat matches Some(t) && crate::time::is_clock_time(t),
            r.state.windows@.len() == 0,
            r.claims() == Map::<u128, Seq<Timestamp>>::empty(),
            r.accepted_total == 0,
            r.refused_total == 0,
            r.within_limits(),
    {
        Self::load(FailoverConfig::default(), FailoverState::default())
    }

    pub fn enabled(&self) -> (r: bool)
        ensures
            r == self.is_on(),
    {
        self.config.enabled && self.config.state_path.is_some()
    }

    pub fn heartbeat_interval_secs(&self) -> (r: u64)
        ensures
            r == self.config.heartbeat_interval_secs,
    {
        self.config.heartbeat_interval_secs
    }

    /// Notes that the process is alive.
    pub fn heartbeat_at(&mut self, now: Timestamp)
        ensures
            final(self).config == old(self).config,
            final(self).state.last_heartbeat == Some(now),
            final(self).state.windows@ == kept_windows(
                old(self).state.windows@,
                now,
                old(self).config.grace_secs,
            ),
            final(self).accepts == old(self).accepts,
            final(self).accepted_total == old(self).accepted_total,
            final(self).refused_total == old(self).refused_total,
    {
        self.state.last_heartbeat = Some(now);
        prune(&mut self.state, &now, self.config.grace_secs);
    }

    /// `heartbeat_at` at the current time.
    pub fn heartbeat(&mut self)
        ensures
            final(self).config == old(self).config,
            final(self).state.last_heartbeat matches Some(t) && crate::time::is_clock_time(t)
                && final(self).state.windows@ == kept_windows(old(self).state.windows@, t, old(self).config.grace_secs),
            final(self).accepts == old(self).accepts,
            final(self).accepted_total == old(self).accepted_total,
            final(self).refused_total == old(self).refused_total,
    {
        self.heartbeat_at(now());
    }

    /// Notes an outage that an operator knows of. It is kept unless it is over.
    pub fn declare_outage_at(&mut self, start: Timestamp, end: Timestamp, now: Timestamp) -> (r:
        OutageWindow)
        ensures
            r == (OutageWindow { start, end, source: OutageSource::Declared }),
            final(self).config == old(self).config,
            final(self).state.last_heartbeat == old(self).state.last_heartbeat,
            final(self).state.windows@ == kept_windows(
                old(self).state.windows@.push(r),
                now,
                old(self).config.grace_secs,
            ),
            final(self).accepts == old(self).accepts,
            final(self).accepted_total == old(self).accepted_total,
            final(self).refused_total == old(self).refused_total,
    {
        let window = OutageWindow { start, end, source: OutageSource::Declared };
        self.state.windows.push(window);
        prune(&mut self.state, &now, self.config.grace_secs);
        window
    }

    /// `declare_outage_at` at the current time.
    pub fn declare_outage(&mut self, start: Timestamp, end: Timestamp) -> (r: OutageWindow)
        ensures
            r == (OutageWindow { start, end, source: OutageSource::Declared }),
            final(self).config == old(self).config,
            final(self).state.last_heartbeat == old(self).state.last_heartbeat,
            exists|t: Timestamp|
                crate::time::is_clock_time(t) && final(self).state.windows@
                    == #[trigger] kept_windows(
                    old(self).state.windows@.push(r),
                    t,
                    old(self).config.grace_secs,
                ),
            final(self).accepts == old(self).accepts,
            final(self).accepted_total == old(self).accepted_total,
            final(self).refused_total == old(self).refused_total,
    {
        self.declare_outage_at(start, end, now())
    }

    /// The outages that are open.
    pub fn active_windows_at(&self, now: Timestamp) -> (r: Vec<OutageWindow>)
        ensures
            r@ == open_windows(self.state.windows@, now, self.config.grace_secs),
    {
        still_open(&self.state.windows, &now, self.config.grace_secs)
    }

    /// `active_windows_at` at the current time.
    pub fn active_windows(&self) -> (r: Vec<OutageWindow>)
        ensures
            exists|t: Timestamp|
                crate::time::is_clock_time(t) && r@ == #[trigger] open_windows(
                    self.state.windows@,
                    t,
                    self.config.grace_secs,
                ),
    {
        self.active_windows_at(now())
    }

    /// How many claims were accepted, and how many refused.
    pub fn counters(&self) -> (r: (u64, u64))
        ensures
            r == (self.accepted_total, self.refused_total),
    {
        (self.accepted_total, self.refused_total)
    }

    /// Decides on a claim and counts the verdict.
    pub fn evaluate_counted_at(
        &mut self,
        site_key: &Uuid,
        issued_at_ms: i64,
        now: Timestamp,
    ) -> (r: FailoverVerdict)
        requires
            old(self).within_limits(),
        ensures
            r == old(self).verdict(*site_key, issued_at_ms, now),
            final(self).config == old(self).config,
            final(self).state == old(self).state,
            final(self).claims() == old(self).counted(*site_key, r, now),
            final(self).accepted_total == if r is Accept {
                next_count(old(self).accepted_total)
            } else {
                old(self).accepted_total
            },
            final(self).refused_total == if r is Accept {
                old(self).refused_total
            } else {
                next_count(old(self).refused_total)
            },
            final(self).within_limits(),
    {
        let verdict = self.evaluate_at(site_key, issued_at_ms, now);
        if verdict.accepted() {
            self.accepted_total = self.accepted_total.wrapping_add(1);
        } else {
            self.refused_total = self.refused_total.wrapping_add(1);
        }
        verdict
    }

    /// `evaluate_counted_at` at the current time.
    pub fn evaluate(&mut self, site_key: &Uuid, issued_at_ms: i64) -> (r: FailoverVerdict)
        requires
            old(self).within_limits(),
        ensures
            exists|t: Timestamp|
                {
                    &&& crate::time::is_clock_time(t)
                    &&& r == #[trigger] old(self).verdict(*site_key, issued_at_ms, t)
                    &&& final(self).claims() == old(self).counted(*site_key, r, t)
                },
            final(self).config == old(self).config,
            final(self).state == old(self).state,
            final(self).accepted_total == if r is Accept {
                next_count(old(self).accepted_total)
            } else {
                old(self).accepted_total
            },
            final(self).refused_total == if r is Accept {
                old(self).refused_total
            } else {
                next_count(old(self).refused_total)
            },
            final(self).within_limits(),
    {
        let t = now();
        let r = self.evaluate_counted_at(site_key, issued_at_ms, t);
        assert(r == old(self).verdict(*site_key, issued_at_ms, t));
        r
    }

    /// Decides on a claim at a given time. An open outage is looked for by the time of
    /// the decision, never by that of the claim, which its author chose.
    pub fn evaluate_at(&mut self, site_key: &Uuid, issued_at_ms: i64, now: Timestamp) -> (r:
        FailoverVerdict)
        requires
            old(self).within_limits(),
        ensures
            r == old(self).verdict(*site_key, issued_at_ms, now),
            final(self).config == old(self).config,
            final(self).state == old(self).state,
            final(self).claims() == old(self).counted(*site_key, r, now),
            final(self).accepted_total == old(self).accepted_total,
            final(self).refused_total == old(self).refused_total,
            final(self).within_limits(),
    {
        if !self.enabled() {
            return FailoverVerdict::Disabled;
        }
        let grace_secs = self.config.grace_secs;
        let open = still_open(&self.state.windows, &now, grace_secs);
        if open.len() == 0 {
            return FailoverVerdict::Unattested;
        }
        let source = open[0].source;
        let issued_at = match Timestamp::from_millis(issued_at_ms) {
            Some(t) => t,
            None => {
                return FailoverVerdict::StaleClaim;
            },
        };
        let skew: i128 = CLOCK_SKEW_SECS as i128 * 1_000_000_000;
        let grace: i128 = grace_secs as i128 * 1_000_000_000;
        let t = now.instant();
        let issued = issued_at.instant();
        if issued > t + skew || issued < t - grace - skew {
            return FailoverVerdict::StaleClaim;
        }
        if !self.take_budget(site_key, now) {
            return FailoverVerdict::RateLimited;
        }
        FailoverVerdict::Accept { source }
    }

    /// Counts a claim against its site, where it has claims left.
    fn take_budget(&mut self, site_key: &Uuid, now: Timestamp) -> (r: bool)
        requires
            old(self).within_limits(),
        ensures
            r == has_budget(
                times_of(old(self).claims(), *site_key),
                now,
                old(self).config.max_per_min,
            ),
            final(self).config == old(self).config,
            final(self).state == old(self).state,
            final(self).accepted_total == old(self).accepted_total,
            final(self).refused_total == old(self).refused_total,
            final(self).claims() == if r {
                with_claim(old(self).claims(), *site_key, now, old(self).config.max_per_min)
            } else {
                old(self).claims()
            },
            final(self).within_limits(),
    {
        if self.config.max_per_min == 0 {
            return true;
        }
        let mut counting: Vec<Timestamp> = match self.accepts.get(site_key) {
            Some(times) => still_counting(times, &now),
            None => Vec::new(),
        };
        assert(counting@ =~= recent(times_of(old(self).claims(), *site_key), now));
        if counting.len() as u64 >= self.config.max_per_min as u64 {
            return false;
        }
        counting.push(now);
        self.accepts.insert(*site_key, counting);
        assert(self.claims() =~= with_claim(
            old(self).claims(),
            *site_key,
            now,
            old(self).config.max_per_min,
        ));
        true
    }
}

fn still_counting(times: &Vec<Timestamp>, now: &Timestamp) -> (r: Vec<Timestamp>)
    ensures
        r@ == recent(times@, *now),
{
    let mut out: Vec<Timestamp> = Vec::new();
    let n = times.len();
    let t = now.instant();
    assert(out@ =~= recent(times@.take(0), *now));
    for i in 0..n
        invariant
            n == times@.len(),
            t == now.at(),
            out@ == recent(times@.take(i as int), *now),
    {
        assert(times@.take(i + 1).drop_last() == times@.take(i as int));
        let time = times[i];
        assert(-9_223_372_036_854_775_808_000_000_000 <= time.at());
        if t - time.instant() < 60_000_000_000 {
            out.push(time);
        }
    }
    assert(times@.take(n as int) == times@);
    out
}

/// The outages that are known when a process starts.
pub open spec fn attested_at_start(
    persisted: FailoverState,
    min_gap_secs: u64,
    now: Timestamp,
) -> Seq<OutageWindow> {
    match persisted.last_heartbeat {
        Some(last) if now.at() - last.at() >= secs_as_nanos(min_gap_secs as int) => {
            persisted.windows@.push(
                OutageWindow { start: last, end: now, source: OutageSource::HeartbeatGap },
            )
        },
        _ => persisted.windows@,
    }
}

fn still_open(windows: &Vec<OutageWindow>, now: &Timestamp, grace_secs: u64) -> (r: Vec<
    OutageWindow,
>)
    ensures
        r@ == open_windows(windows@, *now, grace_secs),
{
    let mut out: Vec<OutageWindow> = Vec::new();
    let n = windows.len();
    assert(out@ =~= open_windows(windows@.take(0), *now, grace_secs));
    for i in 0..n
        invariant
            n == windows@.len(),
            out@ == open_windows(windows@.take(i as int), *now, grace_secs),
    {
        assert(windows@.take(i + 1).drop_last() == windows@.take(i as int));
        if windows[i].covers(now, grace_secs) {
            out.push(windows[i]);
        }
    }
    assert(windows@.take(n as int) == windows@);
    out
}

/// Drops the windows that can no longer cover any claim.
fn prune(state: &mut FailoverState, now: &Timestamp, grace_secs: u64)
    ensures
        final(state).last_heartbeat == old(state).last_heartbeat,
        final(state).windows@ == kept_windows(old(state).windows@, *now, grace_secs),
{
    let mut kept: Vec<OutageWindow> = Vec::new();
    let n = state.windows.len();
    let ghost windows = state.windows@;
    assert(kept@ =~= kept_windows(windows.take(0), *now, grace_secs));
    for i in 0..n
        invariant
            n == windows.len(),
            windows == state.windows@,
            kept@ == kept_windows(windows.take(i as int), *now, grace_secs),
    {
        assert(windows.take(i + 1).drop_last() == windows.take(i as int));
        if state.windows[i].is_of_use(now, grace_secs) {
            kept.push(state.windows[i]);
        }
    }
    assert(windows.take(n as int) == windows);
    state.windows = kept;
}

/// A window is kept exactly when it is there and can cover a claim, now or later; every open
/// window is kept.
pub proof fn lemma_kept_windows(
    windows: Seq<OutageWindow>,
    now: Timestamp,
    grace_secs: u64,
    w: OutageWindow,
)
    ensures
        kept_windows(windows, now, grace_secs).contains(w) <==> windows.contains(w) && w.can_cover(
            now,
            grace_secs,
        ),
        w.is_open(now, grace_secs) ==> w.can_cover(now, grace_secs),
        kept_windows(windows, now, grace_secs).len() <= windows.len(),
    decreases windows.len(),
{
    if windows.len() > 0 {
        let rest = windows.drop_last();
        lemma_kept_windows(rest, now, grace_secs, w);
        let before = kept_windows(rest, now, grace_secs);
        let all = kept_windows(windows, now, grace_secs);
        if windows.contains(w) && w.can_cover(now, grace_secs) {
            let i = choose|i: int| 0 <= i < windows.len() && windows[i] == w;
            if i < rest.len() {
                assert(rest[i] == w);
                let j = choose|j: int| 0 <= j < before.len() && before[j] == w;
                assert(all[j] == w);
            } else {
                assert(all[all.len() - 1] == w);
            }
        }
        if all.contains(w) {
            let j = choose|j: int| 0 <= j < all.len() && all[j] == w;
            if j < before.len() {
                assert(before[j] == w);
                let i = choose|i: int| 0 <= i < rest.len() && rest[i] == w;
                assert(windows[i] == w);
            } else {
                assert(windows[windows.len() - 1] == w);
            }
        }
    }
}

/// A window is among the open ones exactly when it is there and open.
pub proof fn lemma_open_windows(
    windows: Seq<OutageWindow>,
    now: Timestamp,
    grace_secs: u64,
    w: OutageWindow,
)
    ensures
        open_windows(windows, now, grace_secs).contains(w) <==> windows.contains(w) && w.is_open(
            now,
            grace_secs,
        ),
        open_windows(windows, now, grace_secs).len() <= windows.len(),
    decreases windows.len(),
{
    if windows.len() > 0 {
        let rest = windows.drop_last();
        lemma_open_windows(rest, now, grace_secs, w);
        let before = open_windows(rest, now, grace_secs);
        let all = open_windows(windows, now, grace_secs);
        if windows.contains(w) && w.is_open(now, grace_secs) {
            let i = choose|i: int| 0 <= i < windows.len() && windows[i] == w;
            if i < rest.len() {
                assert(rest[i] == w);
                let j = choose|j: int| 0 <= j < before.len() && before[j] == w;
                assert(all[j] == w);
            } else {
                assert(all[all.len() - 1] == w);
            }
        }
        if all.contains(w) {
            let j = choose|j: int| 0 <= j < all.len() && all[j] == w;
            if j < before.len() {
                assert(before[j] == w);
                let i = choose|i: int| 0 <= i < rest.len() && rest[i] == w;
                assert(windows[i] == w);
            } else {
                assert(windows[windows.len() - 1] == w);
            }
        }
    }
}

/// A claim is accepted only where a known outage is open: whatever time a claim gives
/// itself, it opens no outage that is over.
pub proof fn lemma_accept_needs_open_window(
    guard: FailoverGuard,
    site: Uuid,
    issued_at_ms: i64,
    now: Timestamp,
)
    ensures
        guard.verdict(site, issued_at_ms, now) is Accept ==> guard.is_on() && exists|i: int|
            0 <= i < guard.state.windows@.len() && (#[trigger] guard.state.windows@[i]).is_open(
                now,
                guard.config.grace_secs,
            ),
        guard.is_on() && (forall|i: int|
            0 <= i < guard.state.windows@.len() ==> !(#[trigger] guard.state.windows@[i]).is_open(
                now,
                guard.config.grace_secs,
            )) ==> guard.verdict(site, issued_at_ms, now) == FailoverVerdict::Unattested,
        !guard.is_on() ==> guard.verdict(site, issued_at_ms, now) == FailoverVerdict::Disabled,
{
    let windows = guard.state.windows@;
    let open = open_windows(windows, now, guard.config.grace_secs);
    if open.len() > 0 {
        lemma_open_windows(windows, now, guard.config.grace_secs, open[0]);
        assert(open.contains(open[0]));
        let i = choose|i: int| 0 <= i < windows.len() && windows[i] == open[0];
        assert(windows[i].is_open(now, guard.config.grace_secs));
    }
}

/// A first start knows of no outage, nor does one after a shorter gap than counts.
pub proof fn lemma_no_outage_without_gap(
    persisted: FailoverState,
    min_gap_secs: u64,
    now: Timestamp,
    grace_secs: u64,
)
    requires
        persisted.windows@.len() == 0,
        persisted.last_heartbeat matches Some(last) ==> now.at() - last.at() < secs_as_nanos(
            min_gap_secs as int,
        ),
    ensures
        kept_windows(attested_at_start(persisted, min_gap_secs, now), now, grace_secs).len() == 0,
{
}

/// After a gap that counts, the outage is known, and stays open for the grace time.
pub proof fn lemma_gap_attests_outage(
    persisted: FailoverState,
    last: Timestamp,
    min_gap_secs: u64,
    start: Timestamp,
    grace_secs: u64,
    later: Timestamp,
)
    requires
        persisted.last_heartbeat == Some(last),
        start.at() - last.at() >= secs_as_nanos(min_gap_secs as int),
        start.at() <= later.at() < start.at() + secs_as_nanos(grace_secs as int),
    ensures
        ({
            let w = OutageWindow { start: last, end: start, source: OutageSource::HeartbeatGap };
            &&& kept_windows(
                attested_at_start(persisted, min_gap_secs, start),
                start,
                grace_secs,
            ).contains(w)
            &&& w.is_open(later, grace_secs)
        }),
{
    let w = OutageWindow { start: last, end: start, source: OutageSource::HeartbeatGap };
    let all = attested_at_start(persisted, min_gap_secs, start);
    assert(all[all.len() - 1] == w);
    lemma_kept_windows(all, start, grace_secs, w);
}

/// Dropping windows loses nothing: what is open later is the same whether windows were
/// dropped before, by a heartbeat, a declaration or a restart, or not.
pub proof fn lemma_restart_keeps_open_windows(
    windows: Seq<OutageWindow>,
    before: Timestamp,
    after: Timestamp,
    grace_secs: u64,
)
    requires
        before.at() <= after.at(),
    ensures
        open_windows(kept_windows(windows, before, grace_secs), after, grace_secs)
            == open_windows(windows, after, grace_secs),
    decreases windows.len(),
{
    if windows.len() > 0 {
        let rest = windows.drop_last();
        lemma_restart_keeps_open_windows(rest, before, after, grace_secs);
        let kept = kept_windows(rest, before, grace_secs);
        if windows.last().can_cover(before, grace_secs) {
            assert(kept.push(windows.last()).drop_last() == kept);
        }
    }
}

/// Accepting a claim of one site leaves the claims of every other as they were.
pub proof fn lemma_budgets_are_per_site(
    guard: FailoverGuard,
    site: Uuid,
    other: Uuid,
    verdict: FailoverVerdict,
    now: Timestamp,
)
    requires
        site != other,
    ensures
        times_of(guard.counted(site, verdict, now), other) == times_of(guard.claims(), other),
{
}

/// Once as many claims of a site were accepted within the last minute as the limit allows,
/// the next one is refused.
pub proof fn lemma_limit_holds_for_the_minute(
    guard: FailoverGuard,
    site: Uuid,
    issued_at_ms: i64,
    now: Timestamp,
)
    requires
        guard.config.max_per_min > 0,
        recent(times_of(guard.claims(), site), now).len() >= guard.config.max_per_min,
    ensures
        !(guard.verdict(site, issued_at_ms, now) is Accept),
{
}

/// The accepted claims that are kept after calls for budget, each of a site at a time, one
/// after the other.
pub open spec fn claims_after(calls: Seq<(Uuid, Timestamp)>, cap: u32) -> Map<u128, Seq<Timestamp>>
    decreases calls.len(),
{
    if calls.len() == 0 {
        Map::empty()
    } else {
        let before = claims_after(calls.drop_last(), cap);
        let (site, now) = calls.last();
        if has_budget(times_of(before, site), now, cap) {
            with_claim(before, site, now, cap)
        } else {
            before
        }
    }
}

/// When calls for budget of a site were granted.
pub open spec fn granted(calls: Seq<(Uuid, Timestamp)>, cap: u32, site: Uuid) -> Seq<Timestamp>
    decreases calls.len(),
{
    if calls.len() == 0 {
        Seq::empty()
    } else {
        let before = granted(calls.drop_last(), cap, site);
        let kept = claims_after(calls.drop_last(), cap);
        if calls.last().0 == site && has_budget(times_of(kept, site), calls.last().1, cap) {
            before.push(calls.last().1)
        } else {
            before
        }
    }
}

/// How many times of a list lie in the minute that starts at a point.
pub open spec fn within_minute(times: Seq<Timestamp>, from: int) -> nat
    decreases times.len(),
{
    if times.len() == 0 {
        0
    } else {
        within_minute(times.drop_last(), from) + if from <= times.last().at() < from
            + secs_as_nanos(60) {
            1nat
        } else {
            0
        }
    }
}

/// The calls come in the order of their times.
pub open spec fn in_order(calls: Seq<(Uuid, Timestamp)>) -> bool {
    forall|i: int, j: int|
        0 <= i <= j < calls.len() ==> (#[trigger] calls[i]).1.at() <= (
        #[trigger] calls[j]).1.at()
}

proof fn lemma_recent_again(times: Seq<Timestamp>, before: Timestamp, after: Timestamp)
    requires
        before.at() <= after.at(),
    ensures
        recent(recent(times, before), after) == recent(times, after),
    decreases times.len(),
{
    if times.len() > 0 {
        let rest = times.drop_last();
        lemma_recent_again(rest, before, after);
        let kept = recent(rest, before);
        if before.at() - times.last().at() < secs_as_nanos(60) {
            assert(kept.push(times.last()).drop_last() == kept);
        }
    }
}

proof fn lemma_minute_is_recent(times: Seq<Timestamp>, from: int, now: Timestamp)
    requires
        from <= now.at() < from + secs_as_nanos(60),
    ensures
        within_minute(times, from) <= recent(times, now).len(),
    decreases times.len(),
{
    if times.len() > 0 {
        lemma_minute_is_recent(times.drop_last(), from, now);
    }
}

proof fn lemma_kept_claims_count(calls: Seq<(Uuid, Timestamp)>, cap: u32, site: Uuid, now: Timestamp)
    requires
        cap > 0,
        in_order(calls),
        calls.len() > 0 ==> calls.last().1.at() <= now.at(),
    ensures
        recent(times_of(claims_after(calls, cap), site), now) == recent(
            granted(calls, cap, site),
            now,
        ),
    decreases calls.len(),
{
    if calls.len() > 0 {
        let rest = calls.drop_last();
        let (asked, at) = calls.last();
        assert forall|i: int, j: int| 0 <= i <= j < rest.len() implies (
        #[trigger] rest[i]).1.at() <= (#[trigger] rest[j]).1.at() by {
            assert(rest[i] == calls[i] && rest[j] == calls[j]);
        }
        if rest.len() > 0 {
            assert(rest.last() == calls[calls.len() - 2]);
            assert(calls[calls.len() - 2].1.at() <= calls[calls.len() - 1].1.at());
        }
        lemma_kept_claims_count(rest, cap, site, now);
        let kept = claims_after(rest, cap);
        let times = times_of(kept, site);
        let given = granted(rest, cap, site);
        if asked == site && has_budget(times, at, cap) {
            lemma_recent_again(times, at, now);
            let counting = recent(times, at);
            assert(counting.push(at).drop_last() == counting);
            assert(given.push(at).drop_last() == given);
            assert(times_of(with_claim(kept, site, at, cap), site) == counting.push(at));
        }
    }
}

/// The limit is one of a rolling minute: whatever sixty seconds one looks at, no more calls
/// for budget of a site were granted within them than the limit allows, as long as the clock
/// does not run backwards.
pub proof fn lemma_rolling_minute(calls: Seq<(Uuid, Timestamp)>, cap: u32, site: Uuid, from: int)
    requires
        cap > 0,
        in_order(calls),
    ensures
        within_minute(granted(calls, cap, site), from) <= cap,
    decreases calls.len(),
{
    if calls.len() > 0 {
        let rest = calls.drop_last();
        let now = calls.last().1;
        assert forall|i: int, j: int| 0 <= i <= j < rest.len() implies (
        #[trigger] rest[i]).1.at() <= (#[trigger] rest[j]).1.at() by {
            assert(rest[i] == calls[i] && rest[j] == calls[j]);
        }
        lemma_rolling_minute(rest, cap, site, from);
        if rest.len() > 0 {
            assert(rest.last() == calls[calls.len() - 2]);
            assert(calls[calls.len() - 2].1.at() <= calls[calls.len() - 1].1.at());
        }
        let given = granted(rest, cap, site);
        let kept = claims_after(rest, cap);
        if calls.last().0 == site && has_budget(times_of(kept, site), now, cap) {
            assert(given.push(now).drop_last() == given);
            if from <= now.at() < from + secs_as_nanos(60) {
                lemma_kept_claims_count(rest, cap, site, now);
                lemma_minute_is_recent(given, from, now);
            }
        }
    }
}

/// Without a limit no claim is refused for its number.
pub proof fn lemma_no_limit(guard: FailoverGuard, site: Uuid, issued_at_ms: i64, now: Timestamp)
    requires
        guard.config.max_per_min == 0,
    ensures
        guard.verdict(site, issued_at_ms, now) != FailoverVerdict::RateLimited,
{
}

/// An outage is open from its first nanosecond on until its grace time is over, counted from
/// its end; before that it is kept.
pub proof fn lemma_open_outage(w: OutageWindow, now: Timestamp, grace_secs: u64)
    ensures
        w.is_open(now, grace_secs) <==> w.start.at() <= now.at() && now.at() - w.end.at()
            < grace_secs * 1_000_000_000,
        w.can_cover(now, grace_secs) <==> now.at() - w.end.at() < grace_secs * 1_000_000_000,
        w.start.at() <= now.at() < w.end.at() ==> w.is_open(now, grace_secs),
{
}

/// What becomes of a claim: failover must be on and its state kept, an outage must be open, the
/// claim's own time must lie between its grace time and five minutes back and five minutes
/// ahead, and fewer claims of its site than the limit must have been accepted within the last
/// minute. The first of these that does not hold names the refusal.
pub proof fn lemma_verdict(guard: FailoverGuard, site: Uuid, issued_at_ms: i64, now: Timestamp)
    ensures
        ({
            let on = guard.config.enabled && guard.config.state_path is Some;
            let windows = open_windows(guard.state.windows@, now, guard.config.grace_secs);
            let issued = issued_at_ms * 1_000_000;
            let in_time = crate::time::is_representable(issued_at_ms) && issued - now.at() <= 300
                * 1_000_000_000 && now.at() - issued <= (guard.config.grace_secs + 300)
                * 1_000_000_000;
            let within = guard.config.max_per_min == 0 || recent(
                times_of(guard.claims(), site),
                now,
            ).len() < guard.config.max_per_min;
            let v = guard.verdict(site, issued_at_ms, now);
            &&& v == FailoverVerdict::Disabled <==> !on
            &&& v == FailoverVerdict::Unattested <==> on && windows.len() == 0
            &&& v == FailoverVerdict::StaleClaim <==> on && windows.len() > 0 && !in_time
            &&& v == FailoverVerdict::RateLimited <==> on && windows.len() > 0 && in_time && !within
            &&& on && windows.len() > 0 && in_time && within ==> v == (FailoverVerdict::Accept {
                source: windows[0].source,
            })
        }),
{
}

/// The claims that count against a site are those of the last sixty seconds, every one of them
/// and no other.
pub proof fn lemma_recent(times: Seq<Timestamp>, t: Timestamp, now: Timestamp)
    ensures
        now.at() - t.at() < 60 * 1_000_000_000 ==> recent(times.push(t), now) == recent(
            times,
            now,
        ).push(t),
        now.at() - t.at() >= 60 * 1_000_000_000 ==> recent(times.push(t), now) == recent(
            times,
            now,
        ),
        recent(Seq::empty(), now) == Seq::<Timestamp>::empty(),
{
    assert(times.push(t).drop_last() =~= times);
}

/// An accepted claim counts against its own site from then on, and the others of the last
/// minute stay with it.
pub proof fn lemma_claim_is_counted(
    accepts: Map<u128, Seq<Timestamp>>,
    site: Uuid,
    other: Uuid,
    now: Timestamp,
    cap: u32,
)
    requires
        cap > 0,
    ensures
        times_of(with_claim(accepts, site, now, cap), site) == recent(
            times_of(accepts, site),
            now,
        ).push(now),
        other != site ==> times_of(with_claim(accepts, site, now, cap), other) == times_of(
            accepts,
            other,
        ),
        recent(times_of(with_claim(accepts, site, now, cap), site), now).len() >= 1,
{
    let kept = recent(times_of(accepts, site), now);
    assert(kept.push(now).drop_last() =~= kept);
}

/// The names under which verdicts are logged.
pub proof fn lemma_verdict_names(source: OutageSource)
    ensures
        (FailoverVerdict::Accept { source }).name() == "failover_pass"@,
        FailoverVerdict::Disabled.name() == "failover_disabled"@,
        FailoverVerdict::Unattested.name() == "failover_unattested"@,
        FailoverVerdict::StaleClaim.name() == "failover_stale"@,
        FailoverVerdict::RateLimited.name() == "failover_rate_limited"@,
{
}

/// What is known when a process starts: what an earlier run knew, and where its last heartbeat
/// lies at least the shortest gap back, the outage since then.
pub proof fn lemma_known_at_start(persisted: FailoverState, min_gap_secs: u64, now: Timestamp)
    ensures
        persisted.last_heartbeat is None ==> attested_at_start(persisted, min_gap_secs, now)
            == persisted.windows@,
        persisted.last_heartbeat matches Some(last) ==> {
            let known = attested_at_start(persisted, min_gap_secs, now);
            &&& now.at() - last.at() < min_gap_secs * 1_000_000_000 ==> known == persisted.windows@
            &&& now.at() - last.at() >= min_gap_secs * 1_000_000_000 ==> {
                &&& known.len() == persisted.windows@.len() + 1
                &&& known.drop_last() == persisted.windows@
                &&& known.last().start == last
                &&& known.last().end == now
                &&& known.last().source == OutageSource::HeartbeatGap
            }
        },
{
    if persisted.last_heartbeat is Some {
        let last = persisted.last_heartbeat->0;
        let w = OutageWindow { start: last, end: now, source: OutageSource::HeartbeatGap };
        assert(persisted.windows@.push(w).drop_last() =~= persisted.windows@);
    }
}

/// Open and kept outages stay in their order, and nothing is made up.
pub proof fn lemma_windows_in_order(
    windows: Seq<OutageWindow>,
    w: OutageWindow,
    now: Timestamp,
    grace_secs: u64,
)
    ensures
        w.is_open(now, grace_secs) ==> open_windows(windows.push(w), now, grace_secs)
            == open_windows(windows, now, grace_secs).push(w),
        !w.is_open(now, grace_secs) ==> open_windows(windows.push(w), now, grace_secs)
            == open_windows(windows, now, grace_secs),
        w.can_cover(now, grace_secs) ==> kept_windows(windows.push(w), now, grace_secs)
            == kept_windows(windows, now, grace_secs).push(w),
        !w.can_cover(now, grace_secs) ==> kept_windows(windows.push(w), now, grace_secs)
            == kept_windows(windows, now, grace_secs),
        open_windows(Seq::empty(), now, grace_secs).len() == 0,
        kept_windows(Seq::empty(), now, grace_secs).len() == 0,
{
    assert(windows.push(w).drop_last() =~= windows);
}

/// Counting goes up by one.
pub proof fn lemma_next_count(n: u64)
    ensures
        n < u64::MAX ==> next_count(n) == n + 1,
{
}

} // verus!
