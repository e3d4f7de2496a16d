//! Counting within windows of time.
use std::collections::HashMap;
use vstd::prelude::*;

use crate::ident::Uuid;
use crate::net::IpAddr;
use crate::storage::maps::{keys_of, remove_all};

verus! {

/// How often something happened since the start of its window, in seconds since the
/// epoch.
#[derive(Debug, Clone, Copy, PartialEq, Eq, Structural)]
pub struct RateWindow {
    pub count: u32,
    pub window_start: i64,
}

/// The window of a key at a time: it starts anew once its length is over.
pub open spec fn window_at(window: Option<RateWindow>, now: i64, window_secs: i64) -> RateWindow {
    match window {
        Some(w) if now - w.window_start < window_secs => w,
        _ => RateWindow { count: 0, window_start: now },
    }
}

/// The window of a key after one more count.
pub open spec fn bumped(window: Option<RateWindow>, now: i64, window_secs: i64) -> RateWindow {
    let w = window_at(window, now, window_secs);
    RateWindow { count: (w.count + 1) as u32, window_start: w.window_start }
}

/// One more count is within what 32 bits hold.
pub open spec fn has_room(window: Option<RateWindow>, now: i64, window_secs: i64) -> bool {
    window_at(window, now, window_secs).count < u32::MAX
}

/// A window that is not older than twice its length.
pub open spec fn is_fresh(window: RateWindow, now: i64, window_secs: i64) -> bool {
    now - window.window_start < 2 * window_secs
}

/// Counts by key, each within its own window of the same length.
#[derive(Debug)]
pub struct RateWindows {
    pub windows: HashMap<u128, RateWindow>,
    pub window_secs: i64,
}

pub open spec fn window_of(windows: Map<u128, RateWindow>, key: u128) -> Option<RateWindow> {
    if windows.contains_key(key) {
        Some(windows[key])
    } else {
        None
    }
}

/// The windows that are fresh.
pub open spec fn fresh_windows(
    windows: Map<u128, RateWindow>,
    now: i64,
    window_secs: i64,
) -> Map<u128, RateWindow> {
    windows.restrict(Set::new(|k: u128| is_fresh(windows[k], now, window_secs)))
}

impl RateWindows {
    pub fn new(window_secs: i64) -> (r: Self)
        ensures
            r.windows@ == Map::<u128, RateWindow>::empty(),
            r.window_secs == window_secs,
    {
        RateWindows { windows: HashMap::new(), window_secs }
    }

    /// Counts a key once more, in a new window where the last one is over. Gives the new
    /// count.
    pub fn increment(&mut self, key: u128, now: i64) -> (r: u32)
        requires
            has_room(window_of(old(self).windows@, key), now, old(self).window_secs),
        ensures
            final(self).window_secs == old(self).window_secs,
            final(self).windows@ == old(self).windows@.insert(
                key,
                bumped(window_of(old(self).windows@, key), now, old(self).window_secs),
            ),
            r == bumped(window_of(old(self).windows@, key), now, old(self).window_secs).count,
    {
        let mut window = match self.windows.get(&key) {
            Some(w) => *w,
            None => RateWindow { count: 0, window_start: now },
        };
        if now as i128 - window.window_start as i128 >= self.window_secs as i128 {
            window = RateWindow { count: 0, window_start: now };
        }
        assert(window == window_at(window_of(old(self).windows@, key), now, old(self).window_secs));
        window.count = window.count + 1;
        self.windows.insert(key, window);
        window.count
    }

    /// Whether a key can be counted once more.
    pub fn room(&self, key: u128, now: i64) -> (r: bool)
        ensures
            r == has_room(window_of(self.windows@, key), now, self.window_secs),
    {
        match self.windows.get(&key) {
            None => true,
            Some(w) => w.count < u32::MAX || now as i128 - w.window_start as i128
                >= self.window_secs as i128,
        }
    }

    /// Drops the windows that are not fresh.
    pub fn retain_fresh(&mut self, now: i64)
        ensures
            final(self).window_secs == old(self).window_secs,
            final(self).windows@ == fresh_windows(
                old(self).windows@,
                now,
                old(self).window_secs,
            ),
    {
        let stale = self.stale_keys(now);
        remove_all(&mut self.windows, &stale);
        assert(self.windows@ =~= fresh_windows(old(self).windows@, now, self.window_secs));
    }

    fn stale_keys(&self, now: i64) -> (r: Vec<u128>)
        ensures
            forall|k: u128|
                r@.contains(k) <==> self.windows@.contains_key(k) && !is_fresh(
                    self.windows@[k],
                    now,
                    self.window_secs,
                ),
    {
        let keys = keys_of(&self.windows);
        let mut stale: Vec<u128> = Vec::new();
        let limit: i128 = self.window_secs as i128 * 2;
        let n = keys.len();
        let mut i: usize = 0;
        while i < n
            invariant
                i <= n,
                n == keys@.len(),
                limit == self.window_secs * 2,
                keys@.to_set() == self.windows@.dom(),
                forall|j: int|
                    0 <= j < i && !is_fresh(
                        self.windows@[#[trigger] keys@[j]],
                        now,
                        self.window_secs,
                    ) ==> stale@.contains(keys@[j]),
                forall|j: int|
                    0 <= j < stale@.len() ==> self.windows@.contains_key(#[trigger] stale@[j])
                        && !is_fresh(self.windows@[stale@[j]], now, self.window_secs),
            decreases n - i,
        {
            let ghost before = stale@;
            let key = keys[i];
            assert(keys@.to_set().contains(key));
            if let Some(w) = self.windows.get(&key) {
                if !(now as i128 - (w.window_start as i128) < limit) {
                    stale.push(key);
                    assert(stale@[before.len() as int] == key);
                }
            }
            assert forall|k: u128| before.contains(k) implies stale@.contains(k) by {
                let j = choose|j: int| 0 <= j < before.len() && before[j] == k;
                assert(stale@[j] == k);
            }
            i += 1;
        }
        assert forall|k: u128|
            stale@.contains(k) <==> self.windows@.contains_key(k) && !is_fresh(
                self.windows@[k],
                now,
                self.window_secs,
            ) by {
            if self.windows@.contains_key(k) {
                assert(keys@.to_set().contains(k));
                let j = choose|j: int| 0 <= j < keys@.len() && keys@[j] == k;
                assert(keys@[j] == k);
            }
        }
        stale
    }
}

/// Counts by address: the two families never share a count.
#[derive(Debug)]
pub struct IpRates {
    pub v4: RateWindows,
    pub v6: RateWindows,
}

impl IpRates {
    /// All counts are over windows of the given length.
    pub open spec fn over(self, window_secs: i64) -> bool {
        self.v4.window_secs == window_secs && self.v6.window_secs == window_secs
    }

    /// The window of an address.
    pub open spec fn window(self, ip: IpAddr) -> Option<RateWindow> {
        match ip {
            IpAddr::V4(x) => window_of(self.v4.windows@, x as u128),
            IpAddr::V6(x) => window_of(self.v6.windows@, x),
        }
    }

    pub fn new(window_secs: i64) -> (r: Self)
        ensures
            r.over(window_secs),
            forall|ip: IpAddr| (#[trigger] r.window(ip)) is None,
    {
        IpRates { v4: RateWindows::new(window_secs), v6: RateWindows::new(window_secs) }
    }

    /// Counts an address once more. No other count changes.
    pub fn increment(&mut self, ip: &IpAddr, now: i64) -> (r: u32)
        requires
            old(self).over(old(self).v4.window_secs),
            has_room(old(self).window(*ip), now, old(self).v4.window_secs),
        ensures
            final(self).over(old(self).v4.window_secs),
            final(self).window(*ip) == Some(
                bumped(old(self).window(*ip), now, old(self).v4.window_secs),
            ),
            r == bumped(old(self).window(*ip), now, old(self).v4.window_secs).count,
            forall|other: IpAddr|
                other != *ip ==> #[trigger] final(self).window(other) == old(self).window(other),
    {
        match ip {
            IpAddr::V4(x) => self.v4.increment(*x as u128, now),
            IpAddr::V6(x) => self.v6.increment(*x, now),
        }
    }

    /// Whether an address can be counted once more.
    pub fn room(&self, ip: &IpAddr, now: i64) -> (r: bool)
        requires
            self.over(self.v4.window_secs),
        ensures
            r == has_room(self.window(*ip), now, self.v4.window_secs),
    {
        match ip {
            IpAddr::V4(x) => self.v4.room(*x as u128, now),
            IpAddr::V6(x) => self.v6.room(*x, now),
        }
    }

    /// Drops the windows that are not fresh.
    pub fn retain_fresh(&mut self, now: i64)
        requires
            old(self).over(old(self).v4.window_secs),
        ensures
            final(self).over(old(self).v4.window_secs),
            forall|ip: IpAddr| #[trigger]
                final(self).window(ip) == fresh_or_none(
                    old(self).window(ip),
                    now,
                    old(self).v4.window_secs,
                ),
    {
        self.v4.retain_fresh(now);
        self.v6.retain_fresh(now);
    }
}

/// A window, where it is fresh.
pub open spec fn fresh_or_none(window: Option<RateWindow>, now: i64, window_secs: i64) -> Option<
    RateWindow,
> {
    match window {
        Some(w) if is_fresh(w, now, window_secs) => Some(w),
        _ => None,
    }
}

/// Counts by site and fingerprint.
#[derive(Debug)]
pub struct BlobRates {
    pub sites: HashMap<u128, RateWindows>,
    pub window_secs: i64,
}

impl BlobRates {
    /// All counts are over windows of the same length.
    pub open spec fn wf(self) -> bool {
        forall|site: u128| #[trigger]
            self.sites@.contains_key(site) ==> self.sites@[site].window_secs == self.window_secs
    }

    /// The window of a fingerprint at a site.
    pub open spec fn window(self, site: Uuid, fingerprint: u64) -> Option<RateWindow> {
        if self.sites@.contains_key(site) {
            window_of(self.sites@[site].windows@, fingerprint as u128)
        } else {
            None
        }
    }

    pub fn new(window_secs: i64) -> (r: Self)
        ensures
            r.wf(),
            r.window_secs == window_secs,
            forall|site: Uuid, fp: u64| (#[trigger] r.window(site, fp)) is None,
    {
        BlobRates { sites: HashMap::new(), window_secs }
    }

    /// Whether a fingerprint can be counted once more at a site.
    pub fn room(&self, site: Uuid, fingerprint: u64, now: i64) -> (r: bool)
        requires
            self.wf(),
        ensures
            r == has_room(self.window(site, fingerprint), now, self.window_secs),
    {
        match self.sites.get(&site) {
            None => true,
            Some(windows) => windows.room(fingerprint as u128, now),
        }
    }

    /// Counts a fingerprint at a site once more. No other count changes: neither that of
    /// another fingerprint nor that of another site.
    pub fn increment(&mut self, site: Uuid, fingerprint: u64, now: i64) -> (r: u32)
        requires
            old(self).wf(),
            has_room(old(self).window(site, fingerprint), now, old(self).window_secs),
        ensures
            final(self).wf(),
            final(self).window_secs == old(self).window_secs,
            final(self).window(site, fingerprint) == Some(
                bumped(old(self).window(site, fingerprint), now, old(self).window_secs),
            ),
            r == bumped(old(self).window(site, fingerprint), now, old(self).window_secs).count,
            forall|s: Uuid, f: u64|
                !(s == site && f == fingerprint) ==> #[trigger] final(self).window(s, f) == old(
                    self,
                ).window(s, f),
    {
        let mut counts = match self.sites.remove(&site) {
            Some(counts) => counts,
            None => RateWindows::new(self.window_secs),
        };
        let r = counts.increment(fingerprint as u128, now);
        self.sites.insert(site, counts);
        r
    }

    /// Drops the windows that are not fresh.
    pub fn retain_fresh(&mut self, now: i64)
        requires
            old(self).wf(),
        ensures
            final(self).wf(),
            final(self).window_secs == old(self).window_secs,
            forall|site: Uuid, fp: u64| #[trigger]
                final(self).window(site, fp) == fresh_or_none(
                    old(self).window(site, fp),
                    now,
                    old(self).window_secs,
                ),
    {
        let keys = keys_of(&self.sites);
        let ghost before = *self;
        let n = keys.len();
        let mut i: usize = 0;
        while i < n
            invariant
                i <= n,
                n == keys@.len(),
                keys@.no_duplicates(),
                keys@.to_set() == before.sites@.dom(),
                self.wf(),
                self.window_secs == before.window_secs,
                forall|j: int, fp: u64|
                    0 <= j < i ==> #[trigger] self.window(keys@[j], fp) == fresh_or_none(
                        before.window(keys@[j], fp),
                        now,
                        before.window_secs,
                    ),
                forall|j: int| i <= j < n ==> self.sites@.contains_key(#[trigger] keys@[j]),
                forall|j: int|
                    i <= j < n ==> self.sites@[#[trigger] keys@[j]] == before.sites@[keys@[j]],
                forall|s: u128| #[trigger]
                    self.sites@.contains_key(s) ==> before.sites@.contains_key(s),
            decreases n - i,
        {
            let key = keys[i];
            let ghost mid = *self;
            assert(self.sites@.contains_key(keys@[i as int]));
            assert(keys@.to_set().contains(key));
            let ghost was = before.sites@[key];
            assert(mid.sites@[keys@[i as int]] == was);
            if let Some(mut counts) = self.sites.remove(&key) {
                assert(counts == was);
                counts.retain_fresh(now);
                let ghost kept = counts.windows@;
                assert(kept == fresh_windows(was.windows@, now, before.window_secs));
                if counts.windows.len() > 0 {
                    self.sites.insert(key, counts);
                } else {
                    assert(counts.windows@ =~= Map::empty()) by {
                        assert(counts.windows@.dom().len() == 0);
                        assert(counts.windows@.dom() =~= Set::empty());
                    }
                }
                assert forall|fp: u64| #[trigger] self.window(key, fp) == fresh_or_none(
                    before.window(key, fp),
                    now,
                    before.window_secs,
                ) by {
                    assert(window_of(kept, fp as u128) == fresh_or_none(
                        window_of(was.windows@, fp as u128),
                        now,
                        before.window_secs,
                    ));
                    assert(self.window(key, fp) == window_of(kept, fp as u128));
                }
            }
            assert forall|j: int, fp: u64|
                0 <= j < i + 1 implies #[trigger] self.window(keys@[j], fp) == fresh_or_none(
                before.window(keys@[j], fp),
                now,
                before.window_secs,
            ) by {
                if j < i {
                    assert(keys@[j] != key);
                    assert(self.window(keys@[j], fp) == mid.window(keys@[j], fp));
                }
            }
            i += 1;
        }
        assert forall|site: Uuid, fp: u64| #[trigger] self.window(site, fp) == fresh_or_none(
            before.window(site, fp),
            now,
            before.window_secs,
        ) by {
            if before.sites@.contains_key(site) {
                assert(keys@.to_set().contains(site));
                let j = choose|j: int| 0 <= j < keys@.len() && keys@[j] == site;
                assert(self.window(keys@[j], fp) == fresh_or_none(
                    before.window(keys@[j], fp),
                    now,
                    before.window_secs,
                ));
            }
        }
    }
}

/// Dropping windows that are not fresh never loses a count that still matters: a window
/// within its length is fresh.
pub proof fn lemma_live_window_is_fresh(window: RateWindow, now: i64, window_secs: i64)
    requires
        window_secs >= 0,
        now - window.window_start < window_secs,
    ensures
        is_fresh(window, now, window_secs),
        bumped(Some(window), now, window_secs) == bumped(
            fresh_or_none(Some(window), now, window_secs),
            now,
            window_secs,
        ),
{
}

/// A sweep changes no later count: what was dropped would have started anew anyway.
pub proof fn lemma_sweep_changes_no_count(
    window: Option<RateWindow>,
    sweep: i64,
    now: i64,
    window_secs: i64,
)
    requires
        window_secs >= 0,
        sweep <= now,
    ensures
        bumped(window, now, window_secs) == bumped(
            fresh_or_none(window, sweep, window_secs),
            now,
            window_secs,
        ),
{
}

/// Within a window every count adds one and the window stays where it began; the first count at
/// or behind its end begins a new one.
pub proof fn lemma_window_counts(w: RateWindow, now: i64, window_secs: i64)
    requires
        w.count < u32::MAX,
        window_secs > 0,
    ensures
        now < w.window_start + window_secs ==> bumped(Some(w), now, window_secs).count == w.count
            + 1 && bumped(Some(w), now, window_secs).window_start == w.window_start,
        now >= w.window_start + window_secs ==> bumped(Some(w), now, window_secs).count == 1
            && bumped(Some(w), now, window_secs).window_start == now,
        bumped(None, now, window_secs).count == 1,
        bumped(None, now, window_secs).window_start == now,
{
}

/// The window after counts at the given times, one after the other.
pub open spec fn after_counts(times: Seq<i64>, window_secs: i64) -> Option<RateWindow>
    decreases times.len(),
{
    if times.len() == 0 {
        None
    } else {
        Some(bumped(after_counts(times.drop_last(), window_secs), times.last(), window_secs))
    }
}

/// As many counts as come within one window of the first are counted, none of them lost and
/// none twice.
pub proof fn lemma_all_are_counted(times: Seq<i64>, window_secs: i64)
    requires
        0 < times.len() <= u32::MAX,
        window_secs > 0,
        forall|i: int|
            0 <= i < times.len() ==> times[0] <= #[trigger] times[i] < times[0] + window_secs,
    ensures
        after_counts(times, window_secs) == Some(
            RateWindow { count: times.len() as u32, window_start: times[0] },
        ),
    decreases times.len(),
{
    let before = times.drop_last();
    if before.len() > 0 {
        assert forall|i: int| 0 <= i < before.len() implies before[0] <= #[trigger] before[i]
            < before[0] + window_secs by {
            assert(before[i] == times[i]);
        }
        lemma_all_are_counted(before, window_secs);
        assert(times[times.len() - 1] < times[0] + window_secs);
    } else {
        assert(after_counts(before, window_secs) is None);
    }
}

/// A window is dropped by a sweep exactly where it began at least twice its length ago.
pub proof fn lemma_sweep(window: RateWindow, now: i64, window_secs: i64)
    ensures
        fresh_or_none(Some(window), now, window_secs) == Some(window) <==> now
            - window.window_start < 2 * window_secs,
        fresh_or_none(None, now, window_secs) is None,
{
}

/// The windows that a sweep leaves are as they were, and are those that are not old.
pub proof fn lemma_fresh_windows(windows: Map<u128, RateWindow>, now: i64, window_secs: i64, k: u128)
    ensures
        fresh_windows(windows, now, window_secs).contains_key(k) <==> windows.contains_key(k)
            && now - windows[k].window_start < 2 * window_secs,
        fresh_windows(windows, now, window_secs).contains_key(k) ==> fresh_windows(
            windows,
            now,
            window_secs,
        )[k] == windows[k],
        window_of(fresh_windows(windows, now, window_secs), k) == fresh_or_none(
            window_of(windows, k),
            now,
            window_secs,
        ),
{
}

/// One more can be counted unless the window that a time falls into has counted as many as 32
/// bits hold.
pub proof fn lemma_room(w: RateWindow, now: i64, window_secs: i64)
    ensures
        has_room(None, now, window_secs),
        w.count < 0xFFFF_FFFF ==> has_room(Some(w), now, window_secs),
        w.count == 0xFFFF_FFFF && now - w.window_start < window_secs ==> !has_room(
            Some(w),
            now,
            window_secs,
        ),
        now - w.window_start >= window_secs ==> has_room(Some(w), now, window_secs),
{
}

} // verus!
