//! IP reputation: what kind of network an address belongs to, by a list of networks.
use vstd::prelude::*;
use vstd::string::*;

use crate::net::{parse_net, IpAddr, IpNet};
use crate::risk::weights::SignalWeights;
use crate::text::{chars_of, decimal_text, is_text, lowered, pieces, quoted_text, string_of,
    trimmed, up_to, words_of, Separator};

verus! {

/// What kind of network an address belongs to.
#[derive(Debug, Clone, Copy, PartialEq, Eq, Structural)]
pub enum IpCategory {
    Datacenter,
    Tor,
    Vpn,
    Residential,
}

/// The category that a word names, in any case of its letters.
pub open spec fn category_of(word: Seq<char>) -> Option<IpCategory> {
    let w = crate::text::ascii_lower(word);
    if w == "datacenter"@ || w == "dc"@ || w == "hosting"@ {
        Some(IpCategory::Datacenter)
    } else if w == "tor"@ {
        Some(IpCategory::Tor)
    } else if w == "vpn"@ || w == "proxy"@ {
        Some(IpCategory::Vpn)
    } else if w == "residential"@ || w == "isp"@ {
        Some(IpCategory::Residential)
    } else {
        None
    }
}

impl IpCategory {
    fn parse(word: &[char]) -> (r: Option<Self>)
        ensures
            r == category_of(word@),
    {
        let w = lowered(word);
        let w = w.as_slice();
        if is_text(w, "datacenter") || is_text(w, "dc") || is_text(w, "hosting") {
            Some(IpCategory::Datacenter)
        } else if is_text(w, "tor") {
            Some(IpCategory::Tor)
        } else if is_text(w, "vpn") || is_text(w, "proxy") {
            Some(IpCategory::Vpn)
        } else if is_text(w, "residential") || is_text(w, "isp") {
            Some(IpCategory::Residential)
        } else {
            None
        }
    }

    pub open spec fn name(self) -> Seq<char> {
        match self {
            IpCategory::Datacenter => "datacenter"@,
            IpCategory::Tor => "tor"@,
            IpCategory::Vpn => "vpn"@,
            IpCategory::Residential => "residential"@,
        }
    }

    /// The canonical lower-case name, the same for every alias.
    pub fn as_str(self) -> (r: &'static str)
        ensures
            r@ == self.name(),
    {
        match self {
            IpCategory::Datacenter => "datacenter",
            IpCategory::Tor => "tor",
            IpCategory::Vpn => "vpn",
            IpCategory::Residential => "residential",
        }
    }
}

/// The category of the first network that covers the address.
pub open spec fn first_match(entries: Seq<(IpNet, IpCategory)>, ip: IpAddr) -> Option<IpCategory>
    decreases entries.len(),
{
    if entries.len() == 0 {
        None
    } else if entries[0].0.covers(ip) {
        Some(entries[0].1)
    } else {
        first_match(entries.skip(1), ip)
    }
}

/// What counts of a line of a list file: the words before any comment.
pub open spec fn line_words(line: Seq<char>) -> Seq<Seq<char>> {
    crate::text::words(crate::text::trim(crate::text::before_char(line, '#')))
}

/// What one line, the `number`-th counted from one, adds to the list. A line without
/// words adds nothing, nor does one with an unknown category.
pub open spec fn read_line(line: Seq<char>, number: nat) -> Result<
    Option<(IpNet, IpCategory)>,
    Seq<char>,
> {
    let words = line_words(line);
    if words.len() == 0 {
        Ok(None)
    } else if words.len() == 1 {
        Err("line "@ + crate::text::decimal(number) + ": missing category"@)
    } else {
        match crate::net::net_of_text(words[0]) {
            Err(e) => Err(
                "line "@ + crate::text::decimal(number) + ": bad cidr "@ + crate::text::quoted(
                    words[0],
                ) + ": "@ + e,
            ),
            Ok(net) => match category_of(words[1]) {
                Some(category) => Ok(Some((net, category))),
                None => Ok(None),
            },
        }
    }
}

/// The entries that lines add, in their order, or the first error.
pub open spec fn read_lines(lines: Seq<Seq<char>>) -> Result<Seq<(IpNet, IpCategory)>, Seq<char>>
    decreases lines.len(),
{
    if lines.len() == 0 {
        Ok(Seq::empty())
    } else {
        match read_lines(lines.drop_last()) {
            Err(e) => Err(e),
            Ok(entries) => match read_line(lines.last(), lines.len()) {
                Err(e) => Err(e),
                Ok(None) => Ok(entries),
                Ok(Some(entry)) => Ok(entries.push(entry)),
            },
        }
    }
}

proof fn lemma_read_lines_prefix(lines: Seq<Seq<char>>, k: int)
    requires
        0 <= k <= lines.len(),
        read_lines(lines.take(k)) is Err,
    ensures
        read_lines(lines) == read_lines(lines.take(k)),
    decreases lines.len() - k,
{
    if k < lines.len() {
        assert(lines.take(k + 1).drop_last() == lines.take(k));
        lemma_read_lines_prefix(lines, k + 1);
    } else {
        assert(lines.take(k) == lines);
    }
}

/// A list of networks with their categories.
#[derive(Debug)]
pub struct CidrListReputation {
    pub entries: Vec<(IpNet, IpCategory)>,
}

impl CidrListReputation {
    pub fn empty() -> (r: Self)
        ensures
            r.entries@.len() == 0,
    {
        CidrListReputation { entries: Vec::new() }
    }

    fn read_one(line: &[char], number: usize) -> (r: Result<Option<(IpNet, IpCategory)>, String>)
        ensures
            match r {
                Ok(entry) => read_line(line@, number as nat) == Ok::<
                    Option<(IpNet, IpCategory)>,
                    Seq<char>,
                >(entry),
                Err(e) => read_line(line@, number as nat) == Err::<
                    Option<(IpNet, IpCategory)>,
                    Seq<char>,
                >(e@),
            },
    {
        let content = up_to(line, '#');
        let content = trimmed(content.as_slice());
        let words = words_of(content.as_slice());
        let ghost all = line_words(line@);
        assert(all == crate::text::views(words@));
        if words.len() == 0 {
            return Ok(None);
        }
        let mut message = "line ".to_owned();
        message.append(decimal_text(number as u64).as_str());
        if words.len() == 1 {
            message.append(": missing category");
            return Err(message);
        }
        let cidr = string_of(words[0].as_slice());
        match parse_net(cidr.as_str()) {
            Err(e) => {
                message.append(": bad cidr ");
                message.append(quoted_text(cidr.as_str()).as_str());
                message.append(": ");
                message.append(e.as_str());
                Err(message)
            },
            Ok(net) => match IpCategory::parse(words[1].as_slice()) {
                Some(category) => Ok(Some((net, category))),
                None => Ok(None),
            },
        }
    }

    /// Reads a list: one `<cidr> <category>` on each line, with comments behind `#`.
    pub fn parse(content: &str) -> (r: Result<Self, String>)
        ensures
            match r {
                Ok(list) => read_lines(crate::text::lines(content@)) == Ok::<
                    Seq<(IpNet, IpCategory)>,
                    Seq<char>,
                >(list.entries@),
                Err(e) => read_lines(crate::text::lines(content@)) == Err::<
                    Seq<(IpNet, IpCategory)>,
                    Seq<char>,
                >(e@),
            },
    {
        let cs = chars_of(content);
        let lines = pieces(cs.as_slice(), Separator::Char('\n'));
        let ghost all = crate::text::lines(content@);
        let mut entries: Vec<(IpNet, IpCategory)> = Vec::new();
        let n = lines.len();
        let mut i: usize = 0;
        assert(all.take(0).len() == 0);
        while i < n
            invariant
                i <= n,
                n == lines@.len(),
                all == crate::text::views(lines@),
                all == crate::text::lines(content@),
                read_lines(all.take(i as int)) == Ok::<Seq<(IpNet, IpCategory)>, Seq<char>>(
                    entries@,
                ),
            decreases n - i,
        {
            assert(all.take(i + 1).drop_last() == all.take(i as int));
            assert(all.take(i + 1).last() == lines@[i as int]@);
            proof {
                if read_lines(all.take(i + 1)) is Err {
                    lemma_read_lines_prefix(all, i + 1);
                }
            }
            match Self::read_one(lines[i].as_slice(), i + 1) {
                Err(e) => {
                    return Err(e);
                },
                Ok(None) => {},
                Ok(Some(entry)) => {
                    entries.push(entry);
                },
            }
            i += 1;
        }
        assert(all.take(n as int) == all);
        Ok(CidrListReputation { entries })
    }

    /// The category of an address: that of the first network on the list that holds
    /// it.
    pub fn lookup(&self, ip: IpAddr) -> (r: Option<IpCategory>)
        ensures
            r == first_match(self.entries@, ip),
    {
        let n = self.entries.len();
        let mut i: usize = 0;
        assert(self.entries@.skip(0) == self.entries@);
        while i < n
            invariant
                i <= n,
                n == self.entries@.len(),
                first_match(self.entries@, ip) == first_match(self.entries@.skip(i as int), ip),
            decreases n - i,
        {
            if self.entries[i].0.contains(&ip) {
                return Some(self.entries[i].1);
            }
            assert(self.entries@.skip(i as int).skip(1) == self.entries@.skip(i + 1));
            i += 1;
        }
        None
    }

    pub fn len(&self) -> (r: usize)
        ensures
            r == self.entries@.len(),
    {
        self.entries.len()
    }

    pub fn is_empty(&self) -> (r: bool)
        ensures
            r == (self.entries@.len() == 0),
    {
        self.entries.len() == 0
    }
}

/// The list that is in force. A reload replaces it as a whole; a list that could not
/// be read leaves it as it is.
#[derive(Debug)]
pub struct ReputationStore {
    pub list: CidrListReputation,
}

impl ReputationStore {
    pub fn new(initial: CidrListReputation) -> (r: Self)
        ensures
            r.list == initial,
    {
        ReputationStore { list: initial }
    }

    pub fn empty() -> (r: Self)
        ensures
            r.list.entries@.len() == 0,
    {
        Self::new(CidrListReputation::empty())
    }

    pub fn lookup(&self, ip: IpAddr) -> (r: Option<IpCategory>)
        ensures
            r == first_match(self.list.entries@, ip),
    {
        self.list.lookup(ip)
    }

    pub fn replace(&mut self, next: CidrListReputation)
        ensures
            final(self).list == next,
    {
        self.list = next;
    }

    /// Reads the list anew from a file's content. Where it cannot be read, the list in
    /// force stays.
    pub fn reload(&mut self, content: &str) -> (r: Result<usize, String>)
        ensures
            match read_lines(crate::text::lines(content@)) {
                Ok(entries) => {
                    &&& r == Ok::<usize, String>(final(self).list.entries@.len() as usize)
                    &&& final(self).list.entries@ == entries
                },
                Err(e) => {
                    &&& r is Err
                    &&& r->Err_0@ == e
                    &&& *final(self) == *old(self)
                },
            },
    {
        match CidrListReputation::parse(content) {
            Ok(next) => {
                let n = next.len();
                self.replace(next);
                Ok(n)
            },
            Err(e) => Err(e),
        }
    }
}

pub const SCORE_TOR: u32 = 40;

pub const SCORE_DATACENTER: u32 = 30;

pub const SCORE_VPN: u32 = 20;

pub const SCORE_RESIDENTIAL: u32 = 0;

/// What a category is worth.
pub open spec fn reputation_score(w: SignalWeights, category: Option<IpCategory>) -> nat {
    match category {
        Some(IpCategory::Tor) => w.ip_tor as nat,
        Some(IpCategory::Datacenter) => w.ip_datacenter as nat,
        Some(IpCategory::Vpn) => w.ip_vpn as nat,
        Some(IpCategory::Residential) => w.ip_residential as nat,
        None => 0,
    }
}

/// `score_ip_reputation_with` at the default weights.
pub fn score_ip_reputation(category: Option<IpCategory>) -> (r: u32)
    ensures
        r == reputation_score(crate::risk::weights::default_weights(), category),
{
    score_ip_reputation_with(&SignalWeights::default(), category)
}

/// What the category of an address is worth; an unlisted address is worth nothing.
pub fn score_ip_reputation_with(w: &SignalWeights, category: Option<IpCategory>) -> (r: u32)
    ensures
        r == reputation_score(*w, category),
{
    match category {
        Some(IpCategory::Tor) => w.ip_tor,
        Some(IpCategory::Datacenter) => w.ip_datacenter,
        Some(IpCategory::Vpn) => w.ip_vpn,
        Some(IpCategory::Residential) => w.ip_residential,
        None => 0,
    }
}

/// An entry behind the first one that covers an address does not matter to it.
pub proof fn lemma_first_match_wins(
    entries: Seq<(IpNet, IpCategory)>,
    later: Seq<(IpNet, IpCategory)>,
    ip: IpAddr,
)
    requires
        first_match(entries, ip) is Some,
    ensures
        first_match(entries + later, ip) == first_match(entries, ip),
    decreases entries.len(),
{
    if !entries[0].0.covers(ip) {
        lemma_first_match_wins(entries.skip(1), later, ip);
        assert((entries + later).skip(1) =~= entries.skip(1) + later);
    }
}

/// The category of an address is that of a network on the list that covers it and that no
/// earlier one does; there is none exactly where no network covers it.
pub proof fn lemma_first_match(entries: Seq<(IpNet, IpCategory)>, ip: IpAddr, k: int)
    ensures
        first_match(entries, ip) is None <==> forall|i: int|
            0 <= i < entries.len() ==> !(#[trigger] entries[i]).0.covers(ip),
        0 <= k < entries.len() && entries[k].0.covers(ip) && (forall|i: int|
            0 <= i < k ==> !(#[trigger] entries[i]).0.covers(ip)) ==> first_match(entries, ip)
            == Some(entries[k].1),
    decreases entries.len(),
{
    if entries.len() > 0 {
        let rest = entries.skip(1);
        lemma_first_match(rest, ip, k - 1);
        if !entries[0].0.covers(ip) {
            assert forall|i: int| 0 <= i < rest.len() implies rest[i] == #[trigger] entries[i
                + 1] by {}
            if forall|i: int| 0 <= i < rest.len() ==> !(#[trigger] rest[i]).0.covers(ip) {
                assert forall|i: int| 0 <= i < entries.len() implies !(
                #[trigger] entries[i]).0.covers(ip) by {
                    if i > 0 {
                        assert(rest[i - 1] == entries[i]);
                    }
                }
            }
            if forall|i: int| 0 <= i < entries.len() ==> !(#[trigger] entries[i]).0.covers(ip) {
                assert forall|i: int| 0 <= i < rest.len() implies !(
                #[trigger] rest[i]).0.covers(ip) by {
                    assert(rest[i] == entries[i + 1]);
                }
            }
            if 0 <= k < entries.len() && entries[k].0.covers(ip) && (forall|i: int|
                0 <= i < k ==> !(#[trigger] entries[i]).0.covers(ip)) {
                assert(k > 0);
                assert(rest[k - 1] == entries[k]);
                assert forall|i: int| 0 <= i < k - 1 implies !(#[trigger] rest[i]).0.covers(
                    ip,
                ) by {
                    assert(rest[i] == entries[i + 1]);
                }
            }
        }
    }
}

/// The words that name a category, in any case of the letters, and that no other word does.
pub proof fn lemma_category_words(word: Seq<char>)
    ensures
        ({
            let w = crate::text::ascii_lower(word);
            &&& category_of(word) == Some(IpCategory::Datacenter) <==> w == "datacenter"@ || w
                == "dc"@ || w == "hosting"@
            &&& category_of(word) == Some(IpCategory::Tor) <==> w == "tor"@
            &&& category_of(word) == Some(IpCategory::Vpn) <==> w == "vpn"@ || w == "proxy"@
            &&& category_of(word) == Some(IpCategory::Residential) <==> w == "residential"@ || w
                == "isp"@
        }),
        category_of(word) == category_of(crate::text::ascii_lower(word)),
{
    reveal_strlit("datacenter");
    reveal_strlit("dc");
    reveal_strlit("hosting");
    reveal_strlit("tor");
    reveal_strlit("vpn");
    reveal_strlit("proxy");
    reveal_strlit("residential");
    reveal_strlit("isp");
    crate::text::lemma_ascii_lower(word);
    assert("datacenter"@[0] == 'd' && "dc"@[0] == 'd' && "hosting"@[0] == 'h' && "tor"@[0] == 't'
        && "vpn"@[0] == 'v' && "proxy"@[0] == 'p' && "residential"@[0] == 'r' && "isp"@[0] == 'i');
}

/// The names under which categories are logged, each of which names its category.
pub proof fn lemma_category_names(category: IpCategory)
    ensures
        category == IpCategory::Datacenter ==> category.name() == "datacenter"@,
        category == IpCategory::Tor ==> category.name() == "tor"@,
        category == IpCategory::Vpn ==> category.name() == "vpn"@,
        category == IpCategory::Residential ==> category.name() == "residential"@,
        category_of(category.name()) == Some(category),
{
    lemma_category_words(category.name());
    reveal_strlit("datacenter");
    reveal_strlit("tor");
    reveal_strlit("vpn");
    reveal_strlit("residential");
    let n = category.name();
    assert forall|i: int| 0 <= i < n.len() implies crate::text::ascii_lower_char(#[trigger] n[i])
        == n[i] by {}
    assert(crate::text::ascii_lower(n) =~= n);
}

/// What a line adds to the list: a line with nothing before its comment adds nothing; one with
/// a single word is an error; of two or more words the first is the network and the second the
/// category, and a category that is not known adds nothing.
pub proof fn lemma_list_line(line: Seq<char>, number: nat)
    ensures
        ({
            let words = crate::text::words(
                crate::text::trim(crate::text::before_char(line, '#')),
            );
            &&& words.len() == 0 ==> read_line(line, number) == Ok::<
                Option<(IpNet, IpCategory)>,
                Seq<char>,
            >(None)
            &&& words.len() == 1 ==> read_line(line, number) is Err
            &&& words.len() >= 2 ==> (read_line(line, number) is Err <==> crate::net::net_of_text(
                words[0],
            ) is Err)
            &&& words.len() >= 2 ==> (read_line(line, number) matches Ok(Some(entry)) ==> {
                &&& crate::net::net_of_text(words[0]) == Ok::<IpNet, Seq<char>>(entry.0)
                &&& category_of(words[1]) == Some(entry.1)
            })
            &&& words.len() >= 2 ==> (read_line(line, number) matches Ok(None) ==> category_of(
                words[1],
            ) is None)
        }),
{
}

/// A list is read line by line: the entries keep their order, the first error is the result,
/// and lines are numbered from one.
pub proof fn lemma_read_lines(lines: Seq<Seq<char>>, line: Seq<char>)
    ensures
        read_lines(Seq::empty()) == Ok::<Seq<(IpNet, IpCategory)>, Seq<char>>(Seq::empty()),
        read_lines(lines) is Err ==> read_lines(lines.push(line)) == read_lines(lines),
        read_lines(lines) matches Ok(entries) ==> {
            &&& read_line(line, lines.len() + 1) matches Err(e) ==> read_lines(lines.push(line))
                == Err::<Seq<(IpNet, IpCategory)>, Seq<char>>(e)
            &&& read_line(line, lines.len() + 1) matches Ok(None) ==> read_lines(lines.push(line))
                == Ok::<Seq<(IpNet, IpCategory)>, Seq<char>>(entries)
            &&& read_line(line, lines.len() + 1) matches Ok(Some(entry)) ==> read_lines(
                lines.push(line),
            ) == Ok::<Seq<(IpNet, IpCategory)>, Seq<char>>(entries.push(entry))
        },
{
    assert(lines.push(line).drop_last() =~= lines);
}

/// What each category is worth, and that an address on no list is worth nothing.
pub proof fn lemma_reputation_scores(w: SignalWeights)
    ensures
        reputation_score(w, Some(IpCategory::Tor)) == w.ip_tor,
        reputation_score(w, Some(IpCategory::Datacenter)) == w.ip_datacenter,
        reputation_score(w, Some(IpCategory::Vpn)) == w.ip_vpn,
        reputation_score(w, Some(IpCategory::Residential)) == w.ip_residential,
        reputation_score(w, None) == 0,
{
}

} // verus!
