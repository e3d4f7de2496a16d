//! A floor under the difficulty that rises with the traffic of a site: when a whole
//! site is hot, every visitor does more work.
use vstd::prelude::*;
use vstd::string::*;

use crate::text::{chars_of, cut, pieces, quoted_text, string_of, trimmed, unsigned, Separator};

verus! {

/// One rung: from so many requests in the rate window on, the floor is `difficulty`.
#[derive(Debug, Clone, Copy, PartialEq, Eq, Structural)]
pub struct LoadLevel {
    pub visitor_threshold: u32,
    pub difficulty: u32,
}

/// What one entry of a ladder says: a threshold and a difficulty with a colon between
/// them. A blank entry says nothing.
pub open spec fn read_level(entry: Seq<char>) -> Result<Option<LoadLevel>, Seq<char>> {
    let entry = crate::text::trim(entry);
    if entry.len() == 0 {
        Ok(None)
    } else {
        match crate::text::split_once(entry, ':') {
            None => Err(
                "load ladder entry "@ + crate::text::quoted(entry) + " is missing ':'"@,
            ),
            Some((threshold, difficulty)) => match (
                crate::text::parse_unsigned(crate::text::trim(threshold), u32::MAX as nat),
                crate::text::parse_unsigned(crate::text::trim(difficulty), u32::MAX as nat),
            ) {
                (None, _) => Err(
                    "load ladder threshold "@ + crate::text::quoted(threshold)
                        + " is not a number"@,
                ),
                (_, None) => Err(
                    "load ladder difficulty "@ + crate::text::quoted(difficulty)
                        + " is not a number"@,
                ),
                (Some(t), Some(d)) => Ok(
                    Some(LoadLevel { visitor_threshold: t as u32, difficulty: d as u32 }),
                ),
            },
        }
    }
}

/// What the entries of a ladder say, in their order, or the first error.
pub open spec fn read_levels(entries: Seq<Seq<char>>) -> Result<Seq<LoadLevel>, Seq<char>>
    decreases entries.len(),
{
    if entries.len() == 0 {
        Ok(Seq::empty())
    } else {
        match read_levels(entries.drop_last()) {
            Err(e) => Err(e),
            Ok(levels) => match read_level(entries.last()) {
                Err(e) => Err(e),
                Ok(None) => Ok(levels),
                Ok(Some(level)) => Ok(levels.push(level)),
            },
        }
    }
}

proof fn lemma_read_levels_prefix(entries: Seq<Seq<char>>, k: int)
    requires
        0 <= k <= entries.len(),
        read_levels(entries.take(k)) is Err,
    ensures
        read_levels(entries) == read_levels(entries.take(k)),
    decreases entries.len() - k,
{
    if k < entries.len() {
        assert(entries.take(k + 1).drop_last() == entries.take(k));
        lemma_read_levels_prefix(entries, k + 1);
    } else {
        assert(entries.take(k) == entries);
    }
}

/// Rungs with thresholds that do not rise.
pub open spec fn is_descending(levels: Seq<LoadLevel>) -> bool {
    forall|i: int, j: int|
        0 <= i < j < levels.len() ==> levels[i].visitor_threshold >= levels[j].visitor_threshold
}

/// Descending rungs with one more at its place, behind those of the same threshold.
pub open spec fn insert_level(levels: Seq<LoadLevel>, level: LoadLevel) -> Seq<LoadLevel>
    decreases levels.len(),
{
    if levels.len() == 0 || levels.last().visitor_threshold >= level.visitor_threshold {
        levels.push(level)
    } else {
        insert_level(levels.drop_last(), level).push(levels.last())
    }
}

/// The rungs by descending threshold; those of the same threshold keep their order.
pub open spec fn descending(levels: Seq<LoadLevel>) -> Seq<LoadLevel>
    decreases levels.len(),
{
    if levels.len() == 0 {
        Seq::empty()
    } else {
        insert_level(descending(levels.drop_last()), levels.last())
    }
}

proof fn lemma_insert_level(levels: Seq<LoadLevel>, level: LoadLevel, at: int)
    requires
        0 <= at <= levels.len(),
        at == 0 || levels[at - 1].visitor_threshold >= level.visitor_threshold,
        forall|j: int|
            at <= j < levels.len() ==> levels[j].visitor_threshold < level.visitor_threshold,
    ensures
        insert_level(levels, level) == levels.insert(at, level),
    decreases levels.len(),
{
    if at == levels.len() {
        assert(levels.insert(at, level) =~= levels.push(level));
    } else {
        lemma_insert_level(levels.drop_last(), level, at);
        assert(levels.insert(at, level) =~= levels.drop_last().insert(at, level).push(
            levels.last(),
        ));
    }
}

/// The first rung whose threshold the count reaches.
pub open spec fn first_rung(levels: Seq<LoadLevel>, site_count: u32) -> Option<LoadLevel>
    decreases levels.len(),
{
    if levels.len() == 0 {
        None
    } else {
        match first_rung(levels.drop_last(), site_count) {
            Some(level) => Some(level),
            None => if site_count >= levels.last().visitor_threshold {
                Some(levels.last())
            } else {
                None
            },
        }
    }
}

/// The floor that rungs set: the difficulty of the first whose threshold the count
/// reaches, or none.
pub open spec fn floor_of(levels: Seq<LoadLevel>, site_count: u32) -> u32 {
    match first_rung(levels, site_count) {
        Some(level) => level.difficulty,
        None => 0,
    }
}

/// The rungs that a ladder writes, by descending threshold, or the first error.
pub open spec fn read_ladder(text: Seq<char>) -> Result<Seq<LoadLevel>, Seq<char>> {
    match read_levels(crate::text::split(text, Separator::Char(','))) {
        Ok(levels) => Ok(descending(levels)),
        Err(e) => Err(e),
    }
}

/// The rungs of a site's load, by descending threshold.
#[derive(Debug)]
pub struct LoadLadder {
    pub levels: Vec<LoadLevel>,
}

impl Default for LoadLadder {
    /// A ladder without rungs: it never raises a difficulty.
    fn default() -> (r: Self)
        ensures
            r.levels@.len() == 0,
    {
        LoadLadder { levels: Vec::new() }
    }
}

impl LoadLadder {
    fn read_one(entry: &[char]) -> (r: Result<Option<LoadLevel>, String>)
        ensures
            match r {
                Ok(level) => read_level(entry@) == Ok::<Option<LoadLevel>, Seq<char>>(level),
                Err(e) => read_level(entry@) == Err::<Option<LoadLevel>, Seq<char>>(e@),
            },
    {
        let entry = trimmed(entry);
        if entry.len() == 0 {
            return Ok(None);
        }
        match cut(entry.as_slice(), ':') {
            None => {
                let mut e = "load ladder entry ".to_owned();
                e.append(quoted_text(string_of(entry.as_slice()).as_str()).as_str());
                e.append(" is missing ':'");
                Err(e)
            },
            Some((threshold, difficulty)) => {
                let t = trimmed(threshold.as_slice());
                let d = trimmed(difficulty.as_slice());
                match unsigned(t.as_slice(), 0xFFFF_FFFF) {
                    None => {
                        let mut e = "load ladder threshold ".to_owned();
                        e.append(quoted_text(string_of(threshold.as_slice()).as_str()).as_str());
                        e.append(" is not a number");
                        Err(e)
                    },
                    Some(t) => match unsigned(d.as_slice(), 0xFFFF_FFFF) {
                        None => {
                            let mut e = "load ladder difficulty ".to_owned();
                            e.append(
                                quoted_text(string_of(difficulty.as_slice()).as_str()).as_str(),
                            );
                            e.append(" is not a number");
                            Err(e)
                        },
                        Some(d) => Ok(
                            Some(LoadLevel { visitor_threshold: t as u32, difficulty: d as u32 }),
                        ),
                    },
                }
            },
        }
    }

    /// Puts a rung at its place.
    fn add(&mut self, level: LoadLevel)
        ensures
            final(self).levels@ == insert_level(old(self).levels@, level),
    {
        let mut at = self.levels.len();
        while at > 0 && self.levels[at - 1].visitor_threshold < level.visitor_threshold
            invariant
                at <= self.levels@.len(),
                self.levels@ == old(self).levels@,
                forall|j: int|
                    at <= j < self.levels@.len() ==> self.levels@[j].visitor_threshold
                        < level.visitor_threshold,
            decreases at,
        {
            at -= 1;
        }
        proof {
            lemma_insert_level(self.levels@, level, at as int);
        }
        self.levels.insert(at, level);
    }

    /// Reads a ladder: `threshold:difficulty` pairs, separated by commas, in any order.
    /// Blank entries are skipped; anything malformed is an error.
    pub fn parse(spec_text: &str) -> (r: Result<Self, String>)
        ensures
            match r {
                Ok(ladder) => read_ladder(spec_text@) == Ok::<Seq<LoadLevel>, Seq<char>>(
                    ladder.levels@,
                ),
                Err(e) => read_ladder(spec_text@) == Err::<Seq<LoadLevel>, Seq<char>>(e@),
            },
            match read_levels(crate::text::split(spec_text@, Separator::Char(','))) {
                Ok(levels) => r is Ok && r->Ok_0.levels@ == descending(levels),
                Err(e) => r is Err && r->Err_0@ == e,
            },
    {
        let cs = chars_of(spec_text);
        let entries = pieces(cs.as_slice(), Separator::Char(','));
        let ghost all = crate::text::split(spec_text@, Separator::Char(','));
        let ghost mut read: Seq<LoadLevel> = Seq::empty();
        let mut ladder = LoadLadder { levels: Vec::new() };
        let n = entries.len();
        let mut i: usize = 0;
        assert(all.take(0).len() == 0);
        while i < n
            invariant
                i <= n,
                n == entries@.len(),
                all == crate::text::views(entries@),
                all == crate::text::split(spec_text@, Separator::Char(',')),
                read_levels(all.take(i as int)) == Ok::<Seq<LoadLevel>, Seq<char>>(read),
                ladder.levels@ == descending(read),
            decreases n - i,
        {
            assert(all.take(i + 1).drop_last() == all.take(i as int));
            assert(all.take(i + 1).last() == entries@[i as int]@);
            proof {
                if read_levels(all.take(i + 1)) is Err {
                    lemma_read_levels_prefix(all, i + 1);
                }
            }
            match Self::read_one(entries[i].as_slice()) {
                Err(e) => {
                    return Err(e);
                },
                Ok(None) => {},
                Ok(Some(level)) => {
                    ladder.add(level);
                    proof {
                        assert(read.push(level).drop_last() == read);
                        read = read.push(level);
                    }
                },
            }
            i += 1;
        }
        assert(all.take(n as int) == all);
        Ok(ladder)
    }

    /// The floor at the current number of requests to the site: that of the highest
    /// rung that the number reaches, or none.
    pub fn floor_for(&self, site_count: u32) -> (r: u32)
        ensures
            r == floor_of(self.levels@, site_count),
    {
        let n = self.levels.len();
        for i in 0..n
            invariant
                n == self.levels@.len(),
                first_rung(self.levels@.take(i as int), site_count) is None,
        {
            assert(self.levels@.take(i + 1).drop_last() == self.levels@.take(i as int));
            if site_count >= self.levels[i].visitor_threshold {
                proof {
                    lemma_first_rung_prefix(self.levels@, i + 1, site_count);
                }
                return self.levels[i].difficulty;
            }
        }
        assert(self.levels@.take(n as int) == self.levels@);
        0
    }
}

proof fn lemma_first_rung_prefix(levels: Seq<LoadLevel>, k: int, site_count: u32)
    requires
        0 <= k <= levels.len(),
        first_rung(levels.take(k), site_count) is Some,
    ensures
        first_rung(levels, site_count) == first_rung(levels.take(k), site_count),
    decreases levels.len() - k,
{
    if k < levels.len() {
        assert(levels.take(k + 1).drop_last() == levels.take(k));
        lemma_first_rung_prefix(levels, k + 1, site_count);
    } else {
        assert(levels.take(k) == levels);
    }
}

/// Sorting makes thresholds descend.
pub proof fn lemma_descending_is_descending(levels: Seq<LoadLevel>)
    ensures
        is_descending(descending(levels)),
        descending(levels).len() == levels.len(),
    decreases levels.len(),
{
    if levels.len() > 0 {
        lemma_descending_is_descending(levels.drop_last());
        lemma_insert_keeps_descending(descending(levels.drop_last()), levels.last());
    }
}

proof fn lemma_insert_keeps_descending(levels: Seq<LoadLevel>, level: LoadLevel)
    requires
        is_descending(levels),
    ensures
        is_descending(insert_level(levels, level)),
        insert_level(levels, level).len() == levels.len() + 1,
        forall|i: int|
            0 <= i <= levels.len() ==> (#[trigger] insert_level(levels, level)[i]) == level || exists|
                j: int,
            |
                0 <= j < levels.len() && levels[j] == insert_level(levels, level)[i],
    decreases levels.len(),
{
    if levels.len() == 0 || levels.last().visitor_threshold >= level.visitor_threshold {
    } else {
        let rest = levels.drop_last();
        lemma_insert_keeps_descending(rest, level);
        let inner = insert_level(rest, level);
        let all = inner.push(levels.last());
        assert forall|i: int| 0 <= i <= levels.len() implies (#[trigger] insert_level(
            levels,
            level,
        )[i]) == level || exists|j: int|
            0 <= j < levels.len() && levels[j] == insert_level(levels, level)[i] by {
            if i < levels.len() {
                assert(insert_level(levels, level)[i] == inner[i]);
                if inner[i] != level {
                    let j = choose|j: int| 0 <= j < rest.len() && rest[j] == inner[i];
                    assert(levels[j] == inner[i]);
                }
            } else {
                assert(levels[levels.len() - 1] == insert_level(levels, level)[i]);
            }
        }
        assert forall|i: int, j: int| 0 <= i < j < all.len() implies all[i].visitor_threshold
            >= all[j].visitor_threshold by {
            if j == all.len() - 1 {
                assert(all[i] == inner[i]);
                if inner[i] != level {
                    let m = choose|m: int| 0 <= m < rest.len() && rest[m] == inner[i];
                    assert(levels[m] == inner[i]);
                }
            }
        }
    }
}

/// Of two rungs, the one that decides: the higher of those that the count reaches, the
/// earlier where they are equal.
pub open spec fn deciding_rung(
    sofar: Option<LoadLevel>,
    level: LoadLevel,
    site_count: u32,
) -> Option<LoadLevel> {
    if site_count < level.visitor_threshold {
        sofar
    } else {
        match sofar {
            Some(best) => if level.visitor_threshold > best.visitor_threshold {
                Some(level)
            } else {
                Some(best)
            },
            None => Some(level),
        }
    }
}

/// The highest rung that the count reaches, of rungs in any order.
pub open spec fn highest_rung(levels: Seq<LoadLevel>, site_count: u32) -> Option<LoadLevel>
    decreases levels.len(),
{
    if levels.len() == 0 {
        None
    } else {
        deciding_rung(highest_rung(levels.drop_last(), site_count), levels.last(), site_count)
    }
}

proof fn lemma_first_rung_at_least_last(levels: Seq<LoadLevel>, site_count: u32)
    requires
        is_descending(levels),
        first_rung(levels, site_count) is Some,
    ensures
        levels.len() > 0,
        first_rung(levels, site_count)->0.visitor_threshold >= levels.last().visitor_threshold,
    decreases levels.len(),
{
    let rest = levels.drop_last();
    if first_rung(rest, site_count) is Some {
        lemma_first_rung_at_least_last(rest, site_count);
    }
}

proof fn lemma_insert_level_rung(levels: Seq<LoadLevel>, level: LoadLevel, site_count: u32)
    requires
        is_descending(levels),
    ensures
        first_rung(insert_level(levels, level), site_count) == deciding_rung(
            first_rung(levels, site_count),
            level,
            site_count,
        ),
    decreases levels.len(),
{
    if levels.len() == 0 || levels.last().visitor_threshold >= level.visitor_threshold {
        assert(levels.push(level).drop_last() == levels);
        if first_rung(levels, site_count) is Some {
            lemma_first_rung_at_least_last(levels, site_count);
        }
    } else {
        let rest = levels.drop_last();
        lemma_insert_level_rung(rest, level, site_count);
        assert(insert_level(rest, level).push(levels.last()).drop_last() == insert_level(
            rest,
            level,
        ));
    }
}

/// The floor of a ladder is that of the highest rung that the count reaches, whatever
/// order the rungs were given in.
pub proof fn lemma_floor_is_highest_rung(levels: Seq<LoadLevel>, site_count: u32)
    ensures
        first_rung(descending(levels), site_count) == highest_rung(levels, site_count),
    decreases levels.len(),
{
    if levels.len() > 0 {
        lemma_floor_is_highest_rung(levels.drop_last(), site_count);
        lemma_descending_is_descending(levels.drop_last());
        lemma_insert_level_rung(descending(levels.drop_last()), levels.last(), site_count);
    }
}

/// The highest rung that a count reaches is reached, and no reached rung is higher.
/// There is none only where no rung is reached.
pub proof fn lemma_highest_rung(levels: Seq<LoadLevel>, site_count: u32)
    ensures
        match highest_rung(levels, site_count) {
            Some(best) => {
                &&& levels.contains(best)
                &&& best.visitor_threshold <= site_count
                &&& forall|i: int|
                    0 <= i < levels.len() && (#[trigger] levels[i]).visitor_threshold <= site_count
                        ==> levels[i].visitor_threshold <= best.visitor_threshold
            },
            None => forall|i: int|
                0 <= i < levels.len() ==> (#[trigger] levels[i]).visitor_threshold > site_count,
        },
    decreases levels.len(),
{
    if levels.len() > 0 {
        let rest = levels.drop_last();
        lemma_highest_rung(rest, site_count);
        assert(levels[levels.len() - 1] == levels.last());
        assert forall|i: int| 0 <= i < rest.len() implies levels[i] == rest[i] by {}
        match highest_rung(rest, site_count) {
            Some(b) => {
                let k = choose|k: int| 0 <= k < rest.len() && rest[k] == b;
                assert(levels[k] == b);
            },
            None => {},
        }
    }
}

/// The floor of a ladder is set by a rung that the count reaches while it reaches no higher
/// one; below all rungs there is no floor. The order in which the rungs were written does not
/// matter where their thresholds differ.
pub proof fn lemma_floor(levels: Seq<LoadLevel>, site_count: u32, k: int)
    requires
        forall|i: int, j: int|
            0 <= i < j < levels.len() ==> (#[trigger] levels[i]).visitor_threshold != (
            #[trigger] levels[j]).visitor_threshold,
    ensures
        (forall|i: int|
            0 <= i < levels.len() ==> (#[trigger] levels[i]).visitor_threshold > site_count)
            ==> floor_of(descending(levels), site_count) == 0,
        0 <= k < levels.len() && levels[k].visitor_threshold <= site_count && (forall|i: int|
            0 <= i < levels.len() && (#[trigger] levels[i]).visitor_threshold <= site_count
                ==> levels[i].visitor_threshold <= levels[k].visitor_threshold) ==> floor_of(
            descending(levels),
            site_count,
        ) == levels[k].difficulty,
{
    lemma_floor_is_highest_rung(levels, site_count);
    lemma_highest_rung(levels, site_count);
    if highest_rung(levels, site_count) is Some {
        let best = highest_rung(levels, site_count)->0;
        let b = choose|b: int| 0 <= b < levels.len() && levels[b] == best;
        if 0 <= k < levels.len() && levels[k].visitor_threshold <= site_count && (forall|i: int|
            0 <= i < levels.len() && (#[trigger] levels[i]).visitor_threshold <= site_count
                ==> levels[i].visitor_threshold <= levels[k].visitor_threshold) {
            assert(levels[b].visitor_threshold <= levels[k].visitor_threshold);
            assert(levels[k].visitor_threshold <= best.visitor_threshold);
            if b < k {
                assert(levels[b].visitor_threshold != levels[k].visitor_threshold);
            } else if k < b {
                assert(levels[k].visitor_threshold != levels[b].visitor_threshold);
            }
        }
    }
}

/// A rung is written as its threshold, a colon and its difficulty, in decimal digits; what has
/// no colon, or no numbers around the first one, is refused, and a blank entry says nothing.
pub proof fn lemma_rung_is_read(threshold: u32, difficulty: u32, entry: Seq<char>)
    ensures
        (forall|i: int| 0 <= i < entry.len() ==> crate::text::is_white_space(#[trigger] entry[i]))
            ==> read_level(entry) == Ok::<Option<LoadLevel>, Seq<char>>(None),
        read_level(entry) matches Ok(Some(level)) ==> {
            let e = crate::text::trim(entry);
            exists|i: int|
                {
                    &&& 0 <= i < e.len()
                    &&& #[trigger] e[i] == ':'
                    &&& forall|j: int| 0 <= j < i ==> e[j] != ':'
                    &&& crate::text::parse_unsigned(
                        crate::text::trim(e.take(i)),
                        u32::MAX as nat,
                    ) == Some(level.visitor_threshold as nat)
                    &&& crate::text::parse_unsigned(
                        crate::text::trim(e.skip(i + 1)),
                        u32::MAX as nat,
                    ) == Some(level.difficulty as nat)
                }
        },
        crate::text::trim(entry).len() > 0 && (forall|i: int|
            0 <= i < crate::text::trim(entry).len() ==> crate::text::trim(entry)[i] != ':')
            ==> read_level(entry) is Err,
{
    crate::text::lemma_trim_is_middle(entry);
    let e = crate::text::trim(entry);
    crate::text::lemma_index_of(e, ':');
    if e.len() > 0 && crate::text::index_of(e, ':') is Some {
        let i = crate::text::index_of(e, ':')->0;
        assert(e[i] == ':');
    }
}

/// A ladder is read entry by entry: blank ones are skipped, and the first error is the result.
pub proof fn lemma_read_levels(entries: Seq<Seq<char>>, entry: Seq<char>)
    ensures
        read_levels(Seq::empty()) == Ok::<Seq<LoadLevel>, Seq<char>>(Seq::empty()),
        read_levels(entries) is Err ==> read_levels(entries.push(entry)) == read_levels(entries),
        read_levels(entries) matches Ok(levels) ==> {
            &&& read_level(entry) matches Err(e) ==> read_levels(entries.push(entry)) == Err::<
                Seq<LoadLevel>,
                Seq<char>,
            >(e)
            &&& read_level(entry) matches Ok(None) ==> read_levels(entries.push(entry)) == Ok::<
                Seq<LoadLevel>,
                Seq<char>,
            >(levels)
            &&& read_level(entry) matches Ok(Some(level)) ==> read_levels(entries.push(entry))
                == Ok::<Seq<LoadLevel>, Seq<char>>(levels.push(level))
        },
{
    assert(entries.push(entry).drop_last() =~= entries);
}

proof fn lemma_plain_number(n: u32)
    ensures
        crate::text::trim(crate::text::decimal(n as nat)) == crate::text::decimal(n as nat),
        crate::text::parse_unsigned(crate::text::decimal(n as nat), u32::MAX as nat) == Some(
            n as nat,
        ),
        crate::text::decimal(n as nat).len() > 0,
        forall|i: int|
            0 <= i < crate::text::decimal(n as nat).len() ==> 48 <= (#[trigger] crate::text::decimal(
                n as nat,
            )[i]) as int <= 57,
{
    let d = crate::text::decimal(n as nat);
    crate::text::lemma_decimal_is_read_back(n as nat, u32::MAX as nat);
    crate::text::lemma_decimal_text(n as nat);
    assert(!crate::text::is_white_space(d[0]));
    assert(!crate::text::is_white_space(d[d.len() - 1]));
    assert(crate::text::trim_start(d) == d);
    assert(crate::text::trim_end(d) == d);
}

/// A rung that is written as `threshold:difficulty`, in decimal digits, is that rung.
pub proof fn lemma_rung_as_written(threshold: u32, difficulty: u32)
    ensures
        read_level(
            crate::text::decimal(threshold as nat) + seq![':'] + crate::text::decimal(
                difficulty as nat,
            ),
        ) == Ok::<Option<LoadLevel>, Seq<char>>(
            Some(LoadLevel { visitor_threshold: threshold, difficulty }),
        ),
{
    let a = crate::text::decimal(threshold as nat);
    let b = crate::text::decimal(difficulty as nat);
    lemma_plain_number(threshold);
    lemma_plain_number(difficulty);
    let entry = a + seq![':'] + b;
    assert(entry[0] == a[0]);
    assert(entry.last() == b[b.len() - 1]);
    assert(crate::text::trim_start(entry) == entry);
    assert(crate::text::trim_end(entry) == entry);
    crate::text::lemma_index_of(entry, ':');
    assert(entry[a.len() as int] == ':');
    let i = crate::text::index_of(entry, ':')->0;
    if i < a.len() {
        assert(entry[i] == a[i]);
    }
    assert(entry.take(i) =~= a);
    assert(entry.skip(i + 1) =~= b);
}

/// Two rungs with a comma between them are both read; the floor between their thresholds is
/// that of the lower one, and above them that of the higher one, in whatever order they stand.
pub proof fn lemma_two_rungs(low: LoadLevel, high: LoadLevel, swapped: bool, site_count: u32)
    requires
        low.visitor_threshold < high.visitor_threshold,
    ensures
        ({
            let l = crate::text::decimal(low.visitor_threshold as nat) + seq![':']
                + crate::text::decimal(low.difficulty as nat);
            let h = crate::text::decimal(high.visitor_threshold as nat) + seq![':']
                + crate::text::decimal(high.difficulty as nat);
            let text = if swapped {
                h.push(',') + l
            } else {
                l.push(',') + h
            };
            &&& read_ladder(text) matches Ok(levels)
            &&& levels.len() == 2
            &&& site_count < low.visitor_threshold ==> floor_of(levels, site_count) == 0
            &&& low.visitor_threshold <= site_count < high.visitor_threshold ==> floor_of(
                levels,
                site_count,
            ) == low.difficulty
            &&& site_count >= high.visitor_threshold ==> floor_of(levels, site_count)
                == high.difficulty
        }),
{
    let l = crate::text::decimal(low.visitor_threshold as nat) + seq![':'] + crate::text::decimal(
        low.difficulty as nat,
    );
    let h = crate::text::decimal(high.visitor_threshold as nat) + seq![':'] + crate::text::decimal(
        high.difficulty as nat,
    );
    lemma_rung_as_written(low.visitor_threshold, low.difficulty);
    lemma_rung_as_written(high.visitor_threshold, high.difficulty);
    lemma_rung_has_no_comma(low);
    lemma_rung_has_no_comma(high);
    let sep = Separator::Char(',');
    crate::text::lemma_one_piece(l, sep);
    crate::text::lemma_one_piece(h, sep);
    let (a, b, x, y) = if swapped {
        (h, l, high, low)
    } else {
        (l, h, low, high)
    };
    crate::text::lemma_split_at_separator(a, ',', b, sep);
    let entries = seq![a, b];
    assert(crate::text::split(a.push(',') + b, sep) =~= entries);
    assert(entries.drop_last() =~= seq![a]);
    assert(seq![a].drop_last() =~= Seq::<Seq<char>>::empty());
    assert(read_levels(seq![a].drop_last()) == Ok::<Seq<LoadLevel>, Seq<char>>(Seq::empty()));
    assert(Seq::<LoadLevel>::empty().push(x) =~= seq![x]);
    assert(seq![a].last() == a);
    assert(read_level(a) == Ok::<Option<LoadLevel>, Seq<char>>(Some(x)));
    assert(read_level(b) == Ok::<Option<LoadLevel>, Seq<char>>(Some(y)));
    assert(read_levels(seq![a]) == Ok::<Seq<LoadLevel>, Seq<char>>(seq![x]));
    assert(entries.last() == b);
    assert(seq![x].push(y) =~= seq![x, y]);
    let levels = seq![x, y];
    assert(read_levels(entries) == Ok::<Seq<LoadLevel>, Seq<char>>(levels));
    lemma_descending_is_descending(levels);
    assert(levels[0] == x && levels[1] == y);
    lemma_floor(levels, site_count, if swapped { 0 } else { 1 });
    lemma_floor(levels, site_count, if swapped { 1 } else { 0 });
}

proof fn lemma_rung_has_no_comma(level: LoadLevel)
    ensures
        ({
            let text = crate::text::decimal(level.visitor_threshold as nat) + seq![':']
                + crate::text::decimal(level.difficulty as nat);
            forall|i: int|
                0 <= i < text.len() ==> !Separator::Char(',').separates(#[trigger] text[i])
        }),
{
    let a = crate::text::decimal(level.visitor_threshold as nat);
    let b = crate::text::decimal(level.difficulty as nat);
    lemma_plain_number(level.visitor_threshold);
    lemma_plain_number(level.difficulty);
    let text = a + seq![':'] + b;
    assert forall|i: int| 0 <= i < text.len() implies !Separator::Char(',').separates(
        #[trigger] text[i],
    ) by {
        if i < a.len() {
            assert(text[i] == a[i]);
        } else if i > a.len() {
            assert(text[i] == b[i - a.len() - 1]);
        }
    }
}

/// Of two rungs with the same threshold the one that was written first counts.
pub proof fn lemma_equal_rungs(first: LoadLevel, second: LoadLevel, site_count: u32)
    requires
        first.visitor_threshold == second.visitor_threshold,
        site_count >= first.visitor_threshold,
    ensures
        floor_of(descending(seq![first, second]), site_count) == first.difficulty,
{
    let levels = seq![first, second];
    lemma_floor_is_highest_rung(levels, site_count);
    assert(levels.drop_last() =~= seq![first]);
    assert(seq![first].drop_last() =~= Seq::<LoadLevel>::empty());
    assert(highest_rung(seq![first].drop_last(), site_count) is None);
    assert(highest_rung(seq![first], site_count) == Some(first));
}

} // verus!
