//! User agents by family, and how many sessions each family has.
use vstd::prelude::*;
use vstd::string::*;

use crate::text::{chars_of, code_point, has_text, lowered, same};

verus! {

/// A user agent, in lower case, names a script.
pub open spec fn is_scripted(ua: Seq<char>) -> bool {
    ||| crate::text::contains(ua, "bot"@)
    ||| crate::text::contains(ua, "crawler"@)
    ||| crate::text::contains(ua, "spider"@)
    ||| crate::text::contains(ua, "curl"@)
    ||| crate::text::contains(ua, "wget"@)
    ||| crate::text::contains(ua, "python"@)
    ||| crate::text::contains(ua, "go-http"@)
    ||| crate::text::contains(ua, "headless"@)
}

/// The browser family of a user agent. Browsers that are built on another one name that one
/// too, so the more specific names come first.
pub open spec fn browser_of(ua: Option<Seq<char>>) -> Seq<char> {
    match ua {
        None => "(none)"@,
        Some(ua) => {
            let l = crate::text::ascii_lower(ua);
            if is_scripted(l) {
                "bot/script"@
            } else if crate::text::contains(l, "edg/"@) {
                "Edge"@
            } else if crate::text::contains(l, "opr/"@) || crate::text::contains(l, "opera"@) {
                "Opera"@
            } else if crate::text::contains(l, "firefox/"@) || crate::text::contains(
                l,
                "fxios/"@,
            ) {
                "Firefox"@
            } else if crate::text::contains(l, "chrome/"@) || crate::text::contains(l, "crios/"@) {
                "Chrome"@
            } else if crate::text::contains(l, "safari/"@) {
                "Safari"@
            } else {
                "Other"@
            }
        },
    }
}

pub open spec fn optional_str(ua: Option<&str>) -> Option<Seq<char>> {
    match ua {
        Some(ua) => Some(ua@),
        None => None,
    }
}

/// The browser family of a user agent.
pub fn browser_family(ua: Option<&str>) -> (r: &'static str)
    ensures
        r@ == browser_of(optional_str(ua)),
{
    match ua {
        None => "(none)",
        Some(ua) => {
            let lower = lowered(chars_of(ua).as_slice());
            let l = lower.as_slice();
            if has_text(l, "bot") || has_text(l, "crawler") || has_text(l, "spider") || has_text(
                l,
                "curl",
            ) || has_text(l, "wget") || has_text(l, "python") || has_text(l, "go-http")
                || has_text(l, "headless") {
                "bot/script"
            } else if has_text(l, "edg/") {
                "Edge"
            } else if has_text(l, "opr/") || has_text(l, "opera") {
                "Opera"
            } else if has_text(l, "firefox/") || has_text(l, "fxios/") {
                "Firefox"
            } else if has_text(l, "chrome/") || has_text(l, "crios/") {
                "Chrome"
            } else if has_text(l, "safari/") {
                "Safari"
            } else {
                "Other"
            }
        },
    }
}

/// The bot family of a user agent, where it is one of a bot. The names of crawlers hold
/// the word that the last family goes by, so they come first.
pub open spec fn bot_of(ua: Option<Seq<char>>) -> Option<Seq<char>> {
    match ua {
        None => None,
        Some(ua) => {
            let l = crate::text::ascii_lower(ua);
            if crate::text::contains(l, "headless"@) {
                Some("Headless browser"@)
            } else if crate::text::contains(l, "gptbot"@) || crate::text::contains(l, "claudebot"@)
                || crate::text::contains(l, "perplexitybot"@) || crate::text::contains(
                l,
                "ccbot"@,
            ) || crate::text::contains(l, "bytespider"@) {
                Some("Claims AI crawler"@)
            } else if crate::text::contains(l, "googlebot"@) || crate::text::contains(
                l,
                "bingbot"@,
            ) || crate::text::contains(l, "duckduckbot"@) {
                Some("Claims search crawler"@)
            } else if crate::text::contains(l, "curl"@) || crate::text::contains(l, "wget"@) {
                Some("curl/wget"@)
            } else if crate::text::contains(l, "python"@) {
                Some("Python"@)
            } else if crate::text::contains(l, "go-http"@) {
                Some("Go"@)
            } else if crate::text::contains(l, "bot"@) || crate::text::contains(l, "crawler"@)
                || crate::text::contains(l, "spider"@) {
                Some("Other scripted"@)
            } else {
                None
            }
        },
    }
}

/// The bot family of a user agent, where it is one of a bot. What names itself a crawler only
/// claims to be one: crawlers do not run the widget.
pub fn bot_family(ua: Option<&str>) -> (r: Option<&'static str>)
    ensures
        optional_str(r) == bot_of(optional_str(ua)),
{
    match ua {
        None => None,
        Some(ua) => {
            let lower = lowered(chars_of(ua).as_slice());
            let l = lower.as_slice();
            if has_text(l, "headless") {
                Some("Headless browser")
            } else if has_text(l, "gptbot") || has_text(l, "claudebot") || has_text(
                l,
                "perplexitybot",
            ) || has_text(l, "ccbot") || has_text(l, "bytespider") {
                Some("Claims AI crawler")
            } else if has_text(l, "googlebot") || has_text(l, "bingbot") || has_text(
                l,
                "duckduckbot",
            ) {
                Some("Claims search crawler")
            } else if has_text(l, "curl") || has_text(l, "wget") {
                Some("curl/wget")
            } else if has_text(l, "python") {
                Some("Python")
            } else if has_text(l, "go-http") {
                Some("Go")
            } else if has_text(l, "bot") || has_text(l, "crawler") || has_text(l, "spider") {
                Some("Other scripted")
            } else {
                None
            }
        },
    }
}

/// Every user agent of a bot family is of the one browser family for scripts, and no other
/// is.
pub proof fn lemma_bots_are_scripts(ua: Seq<char>)
    ensures
        bot_of(Some(ua)) is Some <==> is_scripted(crate::text::ascii_lower(ua)),
{
    let l = crate::text::ascii_lower(ua);
    lemma_part_of_part(l, "gptbot"@, "bot"@, 3);
    lemma_part_of_part(l, "claudebot"@, "bot"@, 6);
    lemma_part_of_part(l, "perplexitybot"@, "bot"@, 10);
    lemma_part_of_part(l, "ccbot"@, "bot"@, 2);
    lemma_part_of_part(l, "bytespider"@, "spider"@, 4);
    lemma_part_of_part(l, "googlebot"@, "bot"@, 6);
    lemma_part_of_part(l, "bingbot"@, "bot"@, 4);
    lemma_part_of_part(l, "duckduckbot"@, "bot"@, 8);
    reveal_strlit("gptbot");
    reveal_strlit("claudebot");
    reveal_strlit("perplexitybot");
    reveal_strlit("ccbot");
    reveal_strlit("bytespider");
    reveal_strlit("googlebot");
    reveal_strlit("bingbot");
    reveal_strlit("duckduckbot");
    reveal_strlit("bot");
    reveal_strlit("spider");
    assert("gptbot"@.subrange(3, 6) =~= "bot"@);
    assert("claudebot"@.subrange(6, 9) =~= "bot"@);
    assert("perplexitybot"@.subrange(10, 13) =~= "bot"@);
    assert("ccbot"@.subrange(2, 5) =~= "bot"@);
    assert("bytespider"@.subrange(4, 10) =~= "spider"@);
    assert("googlebot"@.subrange(6, 9) =~= "bot"@);
    assert("bingbot"@.subrange(4, 7) =~= "bot"@);
    assert("duckduckbot"@.subrange(8, 11) =~= "bot"@);
}

proof fn lemma_part_of_part(hay: Seq<char>, whole: Seq<char>, part: Seq<char>, at: int)
    ensures
        crate::text::contains(hay, whole) && crate::text::occurs_at(whole, part, at)
            ==> crate::text::contains(hay, part),
{
    if crate::text::contains(hay, whole) && crate::text::occurs_at(whole, part, at) {
        let i = choose|i: int| crate::text::occurs_at(hay, whole, i);
        assert(hay.subrange(i + at, i + at + part.len()) =~= hay.subrange(
            i,
            i + whole.len(),
        ).subrange(at, at + part.len()));
        assert(crate::text::occurs_at(hay, part, i + at));
    }
}

/// The first text stands before the second in a dictionary.
pub open spec fn text_before(a: Seq<char>, b: Seq<char>) -> bool
    decreases a.len(),
{
    if b.len() == 0 {
        false
    } else if a.len() == 0 {
        true
    } else if a[0] as int != b[0] as int {
        (a[0] as int) < (b[0] as int)
    } else {
        text_before(a.skip(1), b.skip(1))
    }
}

fn stands_before(a: &[char], b: &[char]) -> (r: bool)
    ensures
        r == text_before(a@, b@),
{
    let n = a.len();
    let m = b.len();
    let mut i: usize = 0;
    assert(a@.skip(0) =~= a@);
    assert(b@.skip(0) =~= b@);
    while i < n && i < m && code_point(a[i]) == code_point(b[i])
        invariant
            i <= n,
            i <= m,
            n == a@.len(),
            m == b@.len(),
            text_before(a@.skip(i as int), b@.skip(i as int)) == text_before(a@, b@),
        decreases n - i,
    {
        assert(a@.skip(i as int).skip(1) =~= a@.skip(i + 1));
        assert(b@.skip(i as int).skip(1) =~= b@.skip(i + 1));
        i += 1;
    }
    if i >= m {
        false
    } else if i >= n {
        true
    } else {
        code_point(a[i]) < code_point(b[i])
    }
}

/// Names with numbers.
pub open spec fn entry_views(v: Seq<(&'static str, u64)>) -> Seq<(Seq<char>, u64)> {
    Seq::new(v.len(), |i: int| (v[i].0@, v[i].1))
}

/// The sum of the numbers under a name.
pub open spec fn total_of(entries: Seq<(Seq<char>, u64)>, name: Seq<char>) -> nat
    decreases entries.len(),
{
    if entries.len() == 0 {
        0
    } else {
        total_of(entries.drop_last(), name) + if entries.last().0 == name {
            entries.last().1 as nat
        } else {
            0
        }
    }
}

/// The sum of all numbers.
pub open spec fn grand_total(entries: Seq<(Seq<char>, u64)>) -> nat
    decreases entries.len(),
{
    if entries.len() == 0 {
        0
    } else {
        grand_total(entries.drop_last()) + entries.last().1 as nat
    }
}

/// A name occurs.
pub open spec fn names(entries: Seq<(Seq<char>, u64)>, name: Seq<char>) -> bool {
    exists|i: int| 0 <= i < entries.len() && (#[trigger] entries[i]).0 == name
}

/// The first stands before the second: with the larger number, or with the same number and
/// the name that comes first.
pub open spec fn ranks_before(a: (Seq<char>, u64), b: (Seq<char>, u64)) -> bool {
    a.1 > b.1 || (a.1 == b.1 && text_before(a.0, b.0))
}

/// The names that occur, each once with the sum of its numbers, the largest first.
pub open spec fn is_tally(entries: Seq<(Seq<char>, u64)>, tally: Seq<(Seq<char>, u64)>) -> bool {
    &&& forall|i: int|
        0 <= i < tally.len() ==> names(entries, (#[trigger] tally[i]).0) && tally[i].1 == total_of(
            entries,
            tally[i].0,
        )
    &&& forall|name: Seq<char>| #[trigger] names(entries, name) ==> names(tally, name)
    &&& is_ranked(tally)
}

pub open spec fn is_ranked(tally: Seq<(Seq<char>, u64)>) -> bool {
    forall|i: int, j: int|
        0 <= i < j < tally.len() ==> ranks_before(#[trigger] tally[i], #[trigger] tally[j])
}

/// Every name stands once.
pub open spec fn stands_once(v: Seq<(Seq<char>, u64)>) -> bool {
    forall|i: int, j: int|
        0 <= i < j < v.len() ==> (#[trigger] v[i]).0 != (#[trigger] v[j]).0
}

proof fn lemma_text_before_total(a: Seq<char>, b: Seq<char>)
    ensures
        a == b || text_before(a, b) || text_before(b, a),
    decreases a.len(),
{
    if a.len() == 0 && b.len() == 0 {
        assert(a =~= b);
    } else if a.len() > 0 && b.len() > 0 && a[0] as int == b[0] as int {
        lemma_text_before_total(a.skip(1), b.skip(1));
        if a.skip(1) == b.skip(1) {
            assert(a =~= seq![a[0]] + a.skip(1));
            assert(b =~= seq![b[0]] + b.skip(1));
        }
    }
}

proof fn lemma_text_before_transitive(a: Seq<char>, b: Seq<char>, c: Seq<char>)
    requires
        text_before(a, b),
        text_before(b, c),
    ensures
        text_before(a, c),
    decreases a.len(),
{
    if a.len() > 0 && a[0] as int == b[0] as int && b[0] as int == c[0] as int {
        lemma_text_before_transitive(a.skip(1), b.skip(1), c.skip(1));
    }
}

proof fn lemma_ranks_transitive(a: (Seq<char>, u64), b: (Seq<char>, u64), c: (Seq<char>, u64))
    requires
        ranks_before(a, b),
        ranks_before(b, c),
    ensures
        ranks_before(a, c),
{
    if a.1 == b.1 && b.1 == c.1 {
        lemma_text_before_transitive(a.0, b.0, c.0);
    }
}

proof fn lemma_total_within(entries: Seq<(Seq<char>, u64)>, name: Seq<char>)
    ensures
        total_of(entries, name) <= grand_total(entries),
    decreases entries.len(),
{
    if entries.len() > 0 {
        lemma_total_within(entries.drop_last(), name);
    }
}

proof fn lemma_grand_total_grows(entries: Seq<(Seq<char>, u64)>, k: int)
    requires
        0 <= k <= entries.len(),
    ensures
        grand_total(entries.take(k)) <= grand_total(entries),
    decreases entries.len(),
{
    if k < entries.len() {
        lemma_grand_total_grows(entries.drop_last(), k);
        assert(entries.drop_last().take(k) =~= entries.take(k));
    } else {
        assert(entries.take(k) =~= entries);
    }
}

/// Sums that belong to entries: each name once, with the sum of its numbers.
pub open spec fn sums_up(entries: Seq<(Seq<char>, u64)>, sums: Seq<(Seq<char>, u64)>) -> bool {
    &&& forall|i: int|
        0 <= i < sums.len() ==> names(entries, (#[trigger] sums[i]).0) && sums[i].1 == total_of(
            entries,
            sums[i].0,
        )
    &&& forall|name: Seq<char>| #[trigger] names(entries, name) ==> names(sums, name)
    &&& stands_once(sums)
}

proof fn lemma_one_more(
    entries: Seq<(Seq<char>, u64)>,
    entry: (Seq<char>, u64),
    name: Seq<char>,
)
    ensures
        total_of(entries.push(entry), name) == total_of(entries, name) + if entry.0 == name {
            entry.1 as nat
        } else {
            0
        },
        names(entries.push(entry), name) <==> names(entries, name) || entry.0 == name,
        !names(entries, name) ==> total_of(entries, name) == 0,
    decreases entries.len(),
{
    let more = entries.push(entry);
    assert(more.drop_last() =~= entries);
    if names(entries, name) {
        let i = choose|i: int| 0 <= i < entries.len() && (#[trigger] entries[i]).0 == name;
        assert(more[i].0 == name);
    }
    if entry.0 == name {
        assert(more[entries.len() as int].0 == name);
    }
    if names(more, name) && entry.0 != name {
        let i = choose|i: int| 0 <= i < more.len() && (#[trigger] more[i]).0 == name;
        assert(entries[i].0 == name);
    }
    if entries.len() > 0 {
        lemma_one_more(entries.drop_last(), entries.last(), name);
        assert(entries.drop_last().push(entries.last()) =~= entries);
    }
}

proof fn lemma_added_to(
    entries: Seq<(Seq<char>, u64)>,
    entry: (Seq<char>, u64),
    sums: Seq<(Seq<char>, u64)>,
    at: int,
    new: u64,
)
    requires
        sums_up(entries, sums),
        0 <= at < sums.len(),
        sums[at].0 == entry.0,
        new == sums[at].1 + entry.1,
    ensures
        sums_up(entries.push(entry), sums.update(at, (entry.0, new))),
{
    let more = entries.push(entry);
    let after = sums.update(at, (entry.0, new));
    assert forall|i: int| 0 <= i < after.len() implies names(more, (#[trigger] after[i]).0)
        && after[i].1 == total_of(more, after[i].0) by {
        assert(after[i].0 == sums[i].0);
        lemma_one_more(entries, entry, sums[i].0);
        if i != at {
            if i < at {
                assert(sums[i].0 != sums[at].0);
            } else {
                assert(sums[at].0 != sums[i].0);
            }
        }
    }
    assert forall|name: Seq<char>| #[trigger] names(more, name) implies names(after, name) by {
        lemma_one_more(entries, entry, name);
        if name == entry.0 {
            assert(after[at].0 == name);
        } else {
            let i = choose|i: int| 0 <= i < sums.len() && (#[trigger] sums[i]).0 == name;
            assert(after[i].0 == name);
        }
    }
    assert forall|i: int, j: int| 0 <= i < j < after.len() implies (#[trigger] after[i]).0 != (
    #[trigger] after[j]).0 by {
        assert(after[i].0 == sums[i].0);
        assert(after[j].0 == sums[j].0);
    }
}

proof fn lemma_added_new(
    entries: Seq<(Seq<char>, u64)>,
    entry: (Seq<char>, u64),
    sums: Seq<(Seq<char>, u64)>,
)
    requires
        sums_up(entries, sums),
        forall|i: int| 0 <= i < sums.len() ==> (#[trigger] sums[i]).0 != entry.0,
    ensures
        sums_up(entries.push(entry), sums.push(entry)),
{
    let more = entries.push(entry);
    let after = sums.push(entry);
    assert(!names(entries, entry.0)) by {
        if names(entries, entry.0) {
            assert(names(sums, entry.0));
        }
    }
    assert forall|i: int| 0 <= i < after.len() implies names(more, (#[trigger] after[i]).0)
        && after[i].1 == total_of(more, after[i].0) by {
        lemma_one_more(entries, entry, after[i].0);
        if i < sums.len() {
            assert(after[i] == sums[i]);
        }
    }
    assert forall|name: Seq<char>| #[trigger] names(more, name) implies names(after, name) by {
        lemma_one_more(entries, entry, name);
        if name == entry.0 {
            assert(after[sums.len() as int].0 == name);
        } else {
            let i = choose|i: int| 0 <= i < sums.len() && (#[trigger] sums[i]).0 == name;
            assert(after[i].0 == name);
        }
    }
    assert forall|i: int, j: int| 0 <= i < j < after.len() implies (#[trigger] after[i]).0 != (
    #[trigger] after[j]).0 by {
        assert(after[i] == sums[i]);
        if j < sums.len() {
            assert(after[j] == sums[j]);
        }
    }
}

fn position_of(sums: &Vec<(&'static str, u64)>, name: &str) -> (r: Option<usize>)
    ensures
        match r {
            Some(i) => i < sums@.len() && sums@[i as int].0@ == name@,
            None => forall|i: int| 0 <= i < sums@.len() ==> (#[trigger] sums@[i]).0@ != name@,
        },
{
    let n = sums.len();
    for i in 0..n
        invariant
            n == sums@.len(),
            forall|j: int| 0 <= j < i ==> (#[trigger] sums@[j]).0@ != name@,
    {
        if same(sums[i].0, name) {
            return Some(i);
        }
    }
    None
}

fn summed(entries: &Vec<(&'static str, u64)>) -> (r: Vec<(&'static str, u64)>)
    requires
        grand_total(entry_views(entries@)) <= u64::MAX,
    ensures
        sums_up(entry_views(entries@), entry_views(r@)),
{
    let ghost all = entry_views(entries@);
    let mut sums: Vec<(&'static str, u64)> = Vec::new();
    let n = entries.len();
    assert(sums_up(all.take(0), entry_views(sums@)));
    for i in 0..n
        invariant
            n == entries@.len(),
            all == entry_views(entries@),
            grand_total(all) <= u64::MAX,
            sums_up(all.take(i as int), entry_views(sums@)),
    {
        let (name, count) = entries[i];
        let ghost before = all.take(i as int);
        let ghost views = entry_views(sums@);
        let ghost entry = all[i as int];
        assert(all.take(i + 1) =~= before.push(entry));
        match position_of(&sums, name) {
            Some(at) => {
                proof {
                    assert(views[at as int].0 == entry.0);
                    lemma_one_more(before, entry, entry.0);
                    lemma_total_within(before.push(entry), entry.0);
                    lemma_grand_total_grows(all, i + 1);
                }
                let new: u64 = sums[at].1 + count;
                proof {
                    lemma_added_to(before, entry, views, at as int, new);
                }
                sums.set(at, (name, new));
                assert(entry_views(sums@) =~= views.update(at as int, (entry.0, new)));
            },
            None => {
                proof {
                    assert forall|k: int| 0 <= k < views.len() implies (#[trigger] views[k]).0
                        != entry.0 by {
                        assert(sums@[k].0@ != name@);
                    }
                    lemma_added_new(before, entry, views);
                }
                sums.push((name, count));
                assert(entry_views(sums@) =~= views.push(entry));
            },
        }
    }
    assert(all.take(n as int) =~= all);
    sums
}

fn ranks(a: &(&'static str, u64), b: &(&'static str, u64)) -> (r: bool)
    ensures
        r == ranks_before((a.0@, a.1), (b.0@, b.1)),
{
    a.1 > b.1 || (a.1 == b.1 && stands_before(chars_of(a.0).as_slice(), chars_of(b.0).as_slice()))
}

fn insert_ranked(tally: &mut Vec<(&'static str, u64)>, entry: (&'static str, u64)) -> (at: usize)
    requires
        is_ranked(entry_views(old(tally)@)),
        forall|i: int| 0 <= i < old(tally)@.len() ==> (#[trigger] old(tally)@[i]).0@ != entry.0@,
    ensures
        at <= old(tally)@.len(),
        final(tally)@ == old(tally)@.insert(at as int, entry),
        is_ranked(entry_views(final(tally)@)),
{
    let ghost views = entry_views(tally@);
    let ghost x = (entry.0@, entry.1);
    let n = tally.len();
    let mut at: usize = 0;
    while at < n && ranks(&tally[at], &entry)
        invariant
            at <= n,
            n == tally@.len(),
            tally@ == old(tally)@,
            views == entry_views(tally@),
            x == (entry.0@, entry.1),
            forall|i: int| 0 <= i < at ==> ranks_before(#[trigger] views[i], x),
        decreases n - at,
    {
        at += 1;
    }
    proof {
        assert forall|j: int| at <= j < n implies ranks_before(x, #[trigger] views[j]) by {
            let first = views[at as int];
            assert(!ranks_before(first, x));
            assert(old(tally)@[at as int].0@ != entry.0@);
            lemma_text_before_total(first.0, x.0);
            assert(ranks_before(x, first));
            if j > at {
                assert(ranks_before(first, views[j]));
                lemma_ranks_transitive(x, first, views[j]);
            }
        }
    }
    tally.insert(at, entry);
    let ghost after = entry_views(tally@);
    assert(after =~= views.insert(at as int, x));
    assert forall|i: int, j: int| 0 <= i < j < after.len() implies ranks_before(
        #[trigger] after[i],
        #[trigger] after[j],
    ) by {
        let bi = if i < at {
            i
        } else {
            i - 1
        };
        let bj = if j < at {
            j
        } else {
            j - 1
        };
        if i != at {
            assert(after[i] == views[bi]);
        }
        if j != at {
            assert(after[j] == views[bj]);
        }
    }
    at
}

proof fn lemma_insert_holds(
    v: Seq<(Seq<char>, u64)>,
    at: int,
    x: (Seq<char>, u64),
    e: (Seq<char>, u64),
)
    requires
        0 <= at <= v.len(),
    ensures
        v.insert(at, x).contains(e) <==> v.contains(e) || e == x,
{
    let after = v.insert(at, x);
    assert(after[at] == x);
    if v.contains(e) {
        let k = choose|k: int| 0 <= k < v.len() && v[k] == e;
        assert(after[if k < at {
            k
        } else {
            k + 1
        }] == e);
    }
    if after.contains(e) && e != x {
        let k = choose|k: int| 0 <= k < after.len() && after[k] == e;
        assert(v[if k < at {
            k
        } else {
            k - 1
        }] == e);
    }
}

/// The two hold the same entries.
spec fn holds_same(a: Seq<(Seq<char>, u64)>, b: Seq<(Seq<char>, u64)>) -> bool {
    forall|e: (Seq<char>, u64)| #[trigger] a.contains(e) <==> b.contains(e)
}

proof fn lemma_same_step(
    out: Seq<(Seq<char>, u64)>,
    taken: Seq<(Seq<char>, u64)>,
    at: int,
    x: (Seq<char>, u64),
)
    requires
        holds_same(out, taken),
        0 <= at <= out.len(),
    ensures
        holds_same(out.insert(at, x), taken.push(x)),
{
    assert(taken.push(x) =~= taken.insert(taken.len() as int, x));
    assert forall|e: (Seq<char>, u64)| #[trigger]
        out.insert(at, x).contains(e) <==> taken.push(x).contains(e) by {
        lemma_insert_holds(out, at, x, e);
        lemma_insert_holds(taken, taken.len() as int, x, e);
    }
}

proof fn lemma_ranked_sums(
    entries: Seq<(Seq<char>, u64)>,
    sums: Seq<(Seq<char>, u64)>,
    ranked: Seq<(Seq<char>, u64)>,
)
    requires
        sums_up(entries, sums),
        holds_same(ranked, sums),
        is_ranked(ranked),
    ensures
        is_tally(entries, ranked),
{
    assert forall|i: int| 0 <= i < ranked.len() implies names(entries, (#[trigger] ranked[i]).0)
        && ranked[i].1 == total_of(entries, ranked[i].0) by {
        assert(ranked.contains(ranked[i]));
        let j = choose|j: int| 0 <= j < sums.len() && sums[j] == ranked[i];
        assert(names(entries, sums[j].0));
    }
    assert forall|name: Seq<char>| #[trigger] names(entries, name) implies names(ranked, name) by {
        let j = choose|j: int| 0 <= j < sums.len() && (#[trigger] sums[j]).0 == name;
        assert(sums.contains(sums[j]));
        assert(ranked.contains(sums[j]));
        let k = choose|k: int| 0 <= k < ranked.len() && ranked[k] == sums[j];
        assert(ranked[k].0 == name);
    }
}

/// The names that occur, each once with the sum of its numbers, the largest first and
/// those with the same sum by name.
pub fn tally(entries: &Vec<(&'static str, u64)>) -> (r: Vec<(&'static str, u64)>)
    requires
        grand_total(entry_views(entries@)) <= u64::MAX,
    ensures
        is_tally(entry_views(entries@), entry_views(r@)),
{
    let sums = summed(entries);
    let ghost views = entry_views(sums@);
    let mut out: Vec<(&'static str, u64)> = Vec::new();
    let n = sums.len();
    assert(entry_views(out@) =~= views.take(0));
    for i in 0..n
        invariant
            n == sums@.len(),
            views == entry_views(sums@),
            stands_once(views),
            is_ranked(entry_views(out@)),
            holds_same(entry_views(out@), views.take(i as int)),
    {
        let ghost before = entry_views(out@);
        let entry = sums[i];
        let ghost x = views[i as int];
        assert forall|k: int| 0 <= k < out@.len() implies (#[trigger] out@[k]).0@ != entry.0@ by {
            assert(before.contains(before[k]));
            assert(views.take(i as int).contains(before[k]));
            let j = choose|j: int| 0 <= j < i && views.take(i as int)[j] == before[k];
            assert(views[j].0 != views[i as int].0);
        }
        let at = insert_ranked(&mut out, entry);
        assert(entry_views(out@) =~= before.insert(at as int, x));
        assert(views.take(i + 1) =~= views.take(i as int).push(x));
        proof {
            lemma_same_step(before, views.take(i as int), at as int, x);
        }
    }
    assert(views.take(n as int) =~= views);
    proof {
        lemma_ranked_sums(entry_views(entries@), views, entry_views(out@));
    }
    out
}

/// The browser families by the words that user agents hold, in any case of the letters: scripts
/// come before all browsers, and of the browsers those that name another one too come before
/// it.
pub proof fn lemma_browser_words(ua: Seq<char>)
    ensures
        ({
            let l = crate::text::ascii_lower(ua);
            let script = crate::text::contains(l, "bot"@) || crate::text::contains(l, "crawler"@)
                || crate::text::contains(l, "spider"@) || crate::text::contains(l, "curl"@)
                || crate::text::contains(l, "wget"@) || crate::text::contains(l, "python"@)
                || crate::text::contains(l, "go-http"@) || crate::text::contains(l, "headless"@);
            let edge = crate::text::contains(l, "edg/"@);
            let opera = crate::text::contains(l, "opr/"@) || crate::text::contains(l, "opera"@);
            let firefox = crate::text::contains(l, "firefox/"@) || crate::text::contains(
                l,
                "fxios/"@,
            );
            let chrome = crate::text::contains(l, "chrome/"@) || crate::text::contains(
                l,
                "crios/"@,
            );
            let safari = crate::text::contains(l, "safari/"@);
            let family = browser_of(Some(ua));
            &&& script ==> family == "bot/script"@
            &&& !script && edge ==> family == "Edge"@
            &&& !script && !edge && opera ==> family == "Opera"@
            &&& !script && !edge && !opera && firefox ==> family == "Firefox"@
            &&& !script && !edge && !opera && !firefox && chrome ==> family == "Chrome"@
            &&& !script && !edge && !opera && !firefox && !chrome && safari ==> family == "Safari"@
            &&& !script && !edge && !opera && !firefox && !chrome && !safari ==> family == "Other"@
        }),
        browser_of(None) == "(none)"@,
{
}

/// The bot families by the words that user agents hold, in any case of the letters; a user
/// agent that holds none of the words of scripts is of no bot family.
pub proof fn lemma_bot_words(ua: Seq<char>)
    ensures
        ({
            let l = crate::text::ascii_lower(ua);
            let headless = crate::text::contains(l, "headless"@);
            let ai = crate::text::contains(l, "gptbot"@) || crate::text::contains(l, "claudebot"@)
                || crate::text::contains(l, "perplexitybot"@) || crate::text::contains(
                l,
                "ccbot"@,
            ) || crate::text::contains(l, "bytespider"@);
            let search = crate::text::contains(l, "googlebot"@) || crate::text::contains(
                l,
                "bingbot"@,
            ) || crate::text::contains(l, "duckduckbot"@);
            let fetch = crate::text::contains(l, "curl"@) || crate::text::contains(l, "wget"@);
            let python = crate::text::contains(l, "python"@);
            let go = crate::text::contains(l, "go-http"@);
            let other = crate::text::contains(l, "bot"@) || crate::text::contains(l, "crawler"@)
                || crate::text::contains(l, "spider"@);
            let family = bot_of(Some(ua));
            &&& headless ==> family == Some("Headless browser"@)
            &&& !headless && ai ==> family == Some("Claims AI crawler"@)
            &&& !headless && !ai && search ==> family == Some("Claims search crawler"@)
            &&& !headless && !ai && !search && fetch ==> family == Some("curl/wget"@)
            &&& !headless && !ai && !search && !fetch && python ==> family == Some("Python"@)
            &&& !headless && !ai && !search && !fetch && !python && go ==> family == Some("Go"@)
            &&& !headless && !ai && !search && !fetch && !python && !go && other ==> family == Some(
                "Other scripted"@,
            )
            &&& !headless && !ai && !search && !fetch && !python && !go && !other ==> family is None
        }),
        bot_of(None) is None,
{
}

/// A tally names every name once, with the sum of its numbers, by falling number and then by
/// name; and the sums leave nothing out.
pub proof fn lemma_tally(entries: Seq<(Seq<char>, u64)>, tally: Seq<(Seq<char>, u64)>, i: int, j: int)
    requires
        is_tally(entries, tally),
    ensures
        0 <= i < tally.len() ==> tally[i].1 == total_of(entries, tally[i].0),
        0 <= i < j < tally.len() ==> tally[i].1 >= tally[j].1 && tally[i].0 != tally[j].0,
        0 <= i < j < tally.len() && tally[i].1 == tally[j].1 ==> text_before(
            tally[i].0,
            tally[j].0,
        ),
        0 <= i < entries.len() ==> exists|k: int|
            0 <= k < tally.len() && (#[trigger] tally[k]).0 == entries[i].0,
{
    if 0 <= i < j < tally.len() {
        assert(ranks_before(tally[i], tally[j]));
        if tally[i].0 == tally[j].0 {
            lemma_not_before_itself(tally[i].0);
        }
    }
    if 0 <= i < entries.len() {
        assert(names(entries, entries[i].0));
        assert(names(tally, entries[i].0));
    }
}

proof fn lemma_not_before_itself(a: Seq<char>)
    ensures
        !text_before(a, a),
    decreases a.len(),
{
    if a.len() > 0 {
        lemma_not_before_itself(a.skip(1));
    }
}

/// The sum under a name grows with each entry of that name and with no other.
pub proof fn lemma_total_of(entries: Seq<(Seq<char>, u64)>, entry: (Seq<char>, u64), name: Seq<char>)
    ensures
        entry.0 == name ==> total_of(entries.push(entry), name) == total_of(entries, name)
            + entry.1,
        entry.0 != name ==> total_of(entries.push(entry), name) == total_of(entries, name),
        total_of(Seq::empty(), name) == 0,
{
    assert(entries.push(entry).drop_last() =~= entries);
}

/// One text stands before another in a dictionary: where they first differ it has the lower
/// character, or it ends where the other goes on.
pub proof fn lemma_text_before(common: Seq<char>, a: char, b: char, x: Seq<char>, y: Seq<char>)
    ensures
        text_before(common + seq![a] + x, common + seq![b] + y) <==> (a as int) < (b as int) || (a
            as int == b as int && text_before(x, y)),
        text_before(common, common + seq![b] + y),
        !text_before(common + seq![b] + y, common),
    decreases common.len(),
{
    let s = common + seq![a] + x;
    let t = common + seq![b] + y;
    if common.len() == 0 {
        assert(s.skip(1) =~= x);
        assert(t.skip(1) =~= y);
    } else {
        let rest = common.skip(1);
        lemma_text_before(rest, a, b, x, y);
        assert(s.skip(1) =~= rest + seq![a] + x);
        assert(t.skip(1) =~= rest + seq![b] + y);
        assert(s[0] == t[0]);
        assert(common[0] == t[0]);
    }
}

} // verus!
