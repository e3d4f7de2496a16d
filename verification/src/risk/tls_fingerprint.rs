//! TLS fingerprints, read from a header that a trusted reverse proxy sets.
use vstd::hash_map::StringHashMap;
use vstd::prelude::*;
use vstd::string::*;

use crate::net::{parse_net, IpAddr, IpNet};
use crate::risk::weights::SignalWeights;
use crate::text::{chars_of, pieces, quoted_text, string_of, trimmed, up_to, words_of, Separator};

verus! {

/// The networks of the proxies whose headers are believed.
#[derive(Debug)]
pub struct TrustedProxies {
    pub nets: Vec<IpNet>,
}

/// The networks that list entries write, in their order, or the first error. Blank
/// entries are skipped.
pub open spec fn read_nets(entries: Seq<Seq<char>>) -> Result<Seq<IpNet>, Seq<char>>
    decreases entries.len(),
{
    if entries.len() == 0 {
        Ok(Seq::empty())
    } else {
        match read_nets(entries.drop_last()) {
            Err(e) => Err(e),
            Ok(nets) => {
                let entry = crate::text::trim(entries.last());
                if entry.len() == 0 {
                    Ok(nets)
                } else {
                    match crate::net::net_of_text(entry) {
                        Ok(net) => Ok(nets.push(net)),
                        Err(e) => Err("bad cidr "@ + crate::text::quoted(entry) + ": "@ + e),
                    }
                }
            },
        }
    }
}

/// The networks that a list of proxies writes, or the first error.
pub open spec fn read_proxies(text: Seq<char>) -> Result<Seq<IpNet>, Seq<char>> {
    read_nets(crate::text::split(text, Separator::CommaOrWhiteSpace))
}

proof fn lemma_read_nets_prefix(entries: Seq<Seq<char>>, k: int)
    requires
        0 <= k <= entries.len(),
        read_nets(entries.take(k)) is Err,
    ensures
        read_nets(entries) == read_nets(entries.take(k)),
    decreases entries.len() - k,
{
    if k < entries.len() {
        assert(entries.take(k + 1).drop_last() == entries.take(k));
        lemma_read_nets_prefix(entries, k + 1);
    } else {
        assert(entries.take(k) == entries);
    }
}

impl TrustedProxies {
    pub fn empty() -> (r: Self)
        ensures
            r.nets@.len() == 0,
    {
        TrustedProxies { nets: Vec::new() }
    }

    /// Reads a list of networks, separated by commas or white space. The first one
    /// that is malformed is an error.
    pub fn parse(spec_text: &str) -> (r: Result<Self, String>)
        ensures
            match r {
                Ok(list) => read_proxies(spec_text@) == Ok::<Seq<IpNet>, Seq<char>>(list.nets@),
                Err(e) => read_proxies(spec_text@) == Err::<Seq<IpNet>, Seq<char>>(e@),
            },
            match r {
                Ok(list) => read_nets(
                    crate::text::split(spec_text@, Separator::CommaOrWhiteSpace),
                ) == Ok::<Seq<IpNet>, Seq<char>>(list.nets@),
                Err(e) => read_nets(
                    crate::text::split(spec_text@, Separator::CommaOrWhiteSpace),
                ) == Err::<Seq<IpNet>, Seq<char>>(e@),
            },
    {
        let cs = chars_of(spec_text);
        let entries = pieces(cs.as_slice(), Separator::CommaOrWhiteSpace);
        let ghost all = crate::text::split(spec_text@, Separator::CommaOrWhiteSpace);
        let mut nets: Vec<IpNet> = Vec::new();
        let n = entries.len();
        let mut i: usize = 0;
        assert(all.take(0).len() == 0);
        while i < n
            invariant
                i <= n,
                n == entries@.len(),
                all == crate::text::views(entries@),
                all == crate::text::split(spec_text@, Separator::CommaOrWhiteSpace),
                read_nets(all.take(i as int)) == Ok::<Seq<IpNet>, Seq<char>>(nets@),
            decreases n - i,
        {
            assert(all.take(i + 1).drop_last() == all.take(i as int));
            assert(all.take(i + 1).last() == entries@[i as int]@);
            proof {
                if read_nets(all.take(i + 1)) is Err {
                    lemma_read_nets_prefix(all, i + 1);
                }
            }
            let entry = trimmed(entries[i].as_slice());
            if entry.len() > 0 {
                let text = string_of(entry.as_slice());
                match parse_net(text.as_str()) {
                    Ok(net) => {
                        nets.push(net);
                    },
                    Err(e) => {
                        let mut message = "bad cidr ".to_owned();
                        message.append(quoted_text(text.as_str()).as_str());
                        message.append(": ");
                        message.append(e.as_str());
                        return Err(message);
                    },
                }
            }
            i += 1;
        }
        assert(all.take(n as int) == all);
        Ok(TrustedProxies { nets })
    }

    /// Whether an address belongs to one of the networks.
    pub fn contains(&self, ip: IpAddr) -> (r: bool)
        ensures
            r == crate::net::any_covers(self.nets@, ip),
    {
        let n = self.nets.len();
        for i in 0..n
            invariant
                n == self.nets@.len(),
                forall|j: int| 0 <= j < i ==> !(#[trigger] self.nets@[j]).covers(ip),
        {
            if self.nets[i].contains(&ip) {
                return true;
            }
        }
        false
    }

    pub fn is_empty(&self) -> (r: bool)
        ensures
            r == (self.nets@.len() == 0),
    {
        self.nets.len() == 0
    }

    pub fn len(&self) -> (r: usize)
        ensures
            r == self.nets@.len(),
    {
        self.nets.len()
    }
}

/// The fingerprints that lines list: the first word of each, before any comment.
pub open spec fn listed_fingerprints(lines: Seq<Seq<char>>) -> Set<Seq<char>>
    decreases lines.len(),
{
    if lines.len() == 0 {
        Set::empty()
    } else {
        let before = listed_fingerprints(lines.drop_last());
        let words = crate::risk::reputation::line_words(lines.last());
        if words.len() == 0 {
            before
        } else {
            before.insert(words[0])
        }
    }
}

/// A set of fingerprints that are known to be bad.
pub struct FingerprintBlocklist {
    set: StringHashMap<bool>,
}

impl View for FingerprintBlocklist {
    type V = Set<Seq<char>>;

    closed spec fn view(&self) -> Set<Seq<char>> {
        self.set@.dom()
    }
}

impl FingerprintBlocklist {
    pub fn empty() -> (r: Self)
        ensures
            r@ == Set::<Seq<char>>::empty(),
    {
        let r = FingerprintBlocklist { set: StringHashMap::new() };
        assert(r@ =~= Set::<Seq<char>>::empty());
        r
    }

    /// Reads a list: one fingerprint on each line, with comments behind `#`. Any content
    /// can be read.
    pub fn parse(content: &str) -> (r: Result<Self, String>)
        ensures
            r matches Ok(list) && list@ == listed_fingerprints(crate::text::lines(content@)),
    {
        let cs = chars_of(content);
        let lines = pieces(cs.as_slice(), Separator::Char('\n'));
        let ghost all = crate::text::lines(content@);
        let mut set: StringHashMap<bool> = StringHashMap::new();
        let n = lines.len();
        assert(set@.dom() =~= listed_fingerprints(all.take(0)));
        for i in 0..n
            invariant
                n == lines@.len(),
                all == crate::text::views(lines@),
                set@.dom() == listed_fingerprints(all.take(i as int)),
        {
            assert(all.take(i + 1).drop_last() == all.take(i as int));
            assert(all.take(i + 1).last() == lines@[i as int]@);
            let content = up_to(lines[i].as_slice(), '#');
            let content = trimmed(content.as_slice());
            let words = words_of(content.as_slice());
            let ghost found = crate::risk::reputation::line_words(lines@[i as int]@);
            assert(found == crate::text::views(words@));
            if words.len() > 0 {
                let ghost before = set@;
                set.insert(string_of(words[0].as_slice()), true);
                assert(set@.dom() =~= before.dom().insert(words@[0]@));
            }
        }
        assert(all.take(n as int) == all);
        Ok(FingerprintBlocklist { set })
    }

    /// Whether a fingerprint is on the list, to the letter.
    pub fn contains(&self, fp: &str) -> (r: bool)
        ensures
            r == self@.contains(fp@),
    {
        self.set.contains_key(fp)
    }

    pub fn len(&self) -> (r: usize)
        ensures
            r == self@.len(),
    {
        self.set.len()
    }

    pub fn is_empty(&self) -> (r: bool)
        ensures
            r == (self@ == Set::<Seq<char>>::empty()),
    {
        let r = self.set.is_empty();
        proof {
            if self@ =~= Set::<Seq<char>>::empty() {
                assert(self.set@ =~= Map::<Seq<char>, bool>::empty());
            }
        }
        r
    }
}

/// What is known of the TLS fingerprint of a request.
#[derive(Debug, Clone, Copy)]
pub enum TlsFingerprint<'a> {
    /// The signal is off, the peer is not trusted, or the header was not sent.
    Skipped,
    /// The value that a trusted peer sent.
    Provided(&'a str),
}

impl<'a> View for TlsFingerprint<'a> {
    type V = Option<Seq<char>>;

    open spec fn view(&self) -> Option<Seq<char>> {
        match self {
            TlsFingerprint::Skipped => None,
            TlsFingerprint::Provided(value) => Some(value@),
        }
    }
}

pub const FINGERPRINT_BAD_SCORE: u32 = 35;

/// What a fingerprint is worth.
pub open spec fn fingerprint_score(
    w: SignalWeights,
    fp: Option<Seq<char>>,
    bad: Set<Seq<char>>,
) -> nat {
    match fp {
        None => 0,
        Some(value) => if bad.contains(value) {
            w.tls_fingerprint_bad as nat
        } else {
            0
        },
    }
}

/// `score_tls_fingerprint_with` at the default weights.
pub fn score_tls_fingerprint(fp: TlsFingerprint<'_>, list: &FingerprintBlocklist) -> (r: u32)
    ensures
        r == fingerprint_score(crate::risk::weights::default_weights(), fp@, list@),
{
    score_tls_fingerprint_with(&SignalWeights::default(), fp, list)
}

/// What a fingerprint is worth: nothing unless it was provided and is on the list.
pub fn score_tls_fingerprint_with(
    w: &SignalWeights,
    fp: TlsFingerprint<'_>,
    list: &FingerprintBlocklist,
) -> (r: u32)
    ensures
        r == fingerprint_score(*w, fp@, list@),
{
    match fp {
        TlsFingerprint::Skipped => 0,
        TlsFingerprint::Provided(value) => if list.contains(value) {
            w.tls_fingerprint_bad
        } else {
            0
        },
    }
}

/// A fingerprint scores exactly where it was sent and is on the list, to the letter.
pub proof fn lemma_fingerprint_scores(w: SignalWeights, fp: Seq<char>, bad: Set<Seq<char>>)
    ensures
        bad.contains(fp) ==> fingerprint_score(w, Some(fp), bad) == w.tls_fingerprint_bad,
        !bad.contains(fp) ==> fingerprint_score(w, Some(fp), bad) == 0,
        fingerprint_score(w, None, bad) == 0,
{
}

/// What a list holds is the first word of each of its lines, up to any `#`, and nothing else.
pub proof fn lemma_listed_fingerprints(lines: Seq<Seq<char>>, fp: Seq<char>)
    ensures
        listed_fingerprints(lines).contains(fp) <==> exists|i: int|
            0 <= i < lines.len() && {
                let words = crate::text::words(
                    crate::text::trim(crate::text::before_char(#[trigger] lines[i], '#')),
                );
                words.len() > 0 && words[0] == fp
            },
    decreases lines.len(),
{
    if lines.len() > 0 {
        let before = lines.drop_last();
        lemma_listed_fingerprints(before, fp);
        let last = lines.len() - 1;
        let own = crate::text::words(
            crate::text::trim(crate::text::before_char(lines[last], '#')),
        );
        if listed_fingerprints(lines).contains(fp) {
            if own.len() > 0 && own[0] == fp {
            } else {
                let i = choose|i: int|
                    0 <= i < before.len() && {
                        let words = crate::text::words(
                            crate::text::trim(crate::text::before_char(#[trigger] before[i], '#')),
                        );
                        words.len() > 0 && words[0] == fp
                    };
                assert(lines[i] == before[i]);
            }
        }
        if exists|i: int|
            0 <= i < lines.len() && {
                let words = crate::text::words(
                    crate::text::trim(crate::text::before_char(#[trigger] lines[i], '#')),
                );
                words.len() > 0 && words[0] == fp
            } {
            let i = choose|i: int|
                0 <= i < lines.len() && {
                    let words = crate::text::words(
                        crate::text::trim(crate::text::before_char(#[trigger] lines[i], '#')),
                    );
                    words.len() > 0 && words[0] == fp
                };
            if i < last {
                assert(before[i] == lines[i]);
            }
        }
    }
}

/// The networks of a list are those of its entries, in their order. A blank entry adds none,
/// and one that writes no network is the error, unless an earlier one is.
pub proof fn lemma_read_nets(entries: Seq<Seq<char>>, entry: Seq<char>)
    ensures
        read_nets(Seq::empty()) == Ok::<Seq<IpNet>, Seq<char>>(Seq::empty()),
        read_nets(entries) is Err ==> read_nets(entries.push(entry)) == read_nets(entries),
        (forall|i: int| 0 <= i < entry.len() ==> crate::text::is_white_space(#[trigger] entry[i]))
            ==> read_nets(entries.push(entry)) == read_nets(entries),
        read_nets(entries) matches Ok(nets) ==> crate::text::trim(entry).len() > 0 ==> {
            &&& crate::net::net_of_text(crate::text::trim(entry)) matches Ok(net) ==> read_nets(
                entries.push(entry),
            ) == Ok::<Seq<IpNet>, Seq<char>>(nets.push(net))
            &&& crate::net::net_of_text(crate::text::trim(entry)) matches Err(e) ==> read_nets(
                entries.push(entry),
            ) == Err::<Seq<IpNet>, Seq<char>>(
                "bad cidr "@ + crate::text::quoted(crate::text::trim(entry)) + ": "@ + e,
            )
        },
{
    assert(entries.push(entry).drop_last() =~= entries);
    crate::text::lemma_trim_is_middle(entry);
}

proof fn lemma_read_nets_concat(a: Seq<Seq<char>>, b: Seq<Seq<char>>)
    ensures
        read_nets(a) is Err ==> read_nets(a + b) == read_nets(a),
        read_nets(a) is Ok && read_nets(b) is Err ==> read_nets(a + b) == read_nets(b),
        read_nets(a) is Ok && read_nets(b) is Ok ==> read_nets(a + b) == Ok::<
            Seq<IpNet>,
            Seq<char>,
        >(read_nets(a)->Ok_0 + read_nets(b)->Ok_0),
    decreases b.len(),
{
    if b.len() == 0 {
        assert(a + b =~= a);
        if read_nets(a) is Ok {
            assert(read_nets(a)->Ok_0 + Seq::<IpNet>::empty() =~= read_nets(a)->Ok_0);
        }
    } else {
        lemma_read_nets_concat(a, b.drop_last());
        assert((a + b).drop_last() =~= a + b.drop_last());
        assert((a + b).last() == b.last());
        if read_nets(a) is Ok && read_nets(b) is Ok {
            assert(read_nets(a + b)->Ok_0 =~= read_nets(a)->Ok_0 + read_nets(b)->Ok_0);
        }
    }
}

/// A comma and any white space separate the networks of a list: two lists with one of them in
/// between have the networks of both. A blank list has none.
pub proof fn lemma_proxy_list(a: Seq<char>, c: char, b: Seq<char>)
    requires
        c == ',' || crate::text::is_white_space(c),
    ensures
        read_proxies(a) is Ok && read_proxies(b) is Ok ==> read_proxies(a.push(c) + b) == Ok::<
            Seq<IpNet>,
            Seq<char>,
        >(read_proxies(a)->Ok_0 + read_proxies(b)->Ok_0),
        read_proxies(a) is Err ==> read_proxies(a.push(c) + b) == read_proxies(a),
        read_proxies(a) is Ok && read_proxies(b) is Err ==> read_proxies(a.push(c) + b)
            == read_proxies(b),
        read_proxies(Seq::empty()) == Ok::<Seq<IpNet>, Seq<char>>(Seq::empty()),
{
    let sep = Separator::CommaOrWhiteSpace;
    crate::text::lemma_split_at_separator(a, c, b, sep);
    lemma_read_nets_concat(crate::text::split(a, sep), crate::text::split(b, sep));
    let blank = seq![Seq::<char>::empty()];
    assert(blank.drop_last() =~= Seq::<Seq<char>>::empty());
    assert(read_nets(blank.drop_last()) == Ok::<Seq<IpNet>, Seq<char>>(Seq::empty()));
    assert(crate::text::trim(Seq::<char>::empty()).len() == 0);
}

/// One network, without comma or white space in it, is a list of one.
pub proof fn lemma_one_proxy(text: Seq<char>, net: IpNet)
    requires
        text.len() > 0,
        forall|i: int|
            0 <= i < text.len() ==> text[i] != ',' && !crate::text::is_white_space(
                #[trigger] text[i],
            ),
        crate::net::net_of_text(text) == Ok::<IpNet, Seq<char>>(net),
    ensures
        read_proxies(text) == Ok::<Seq<IpNet>, Seq<char>>(seq![net]),
{
    let sep = Separator::CommaOrWhiteSpace;
    crate::text::lemma_one_piece(text, sep);
    let one = seq![text];
    assert(one.drop_last() =~= Seq::<Seq<char>>::empty());
    assert(read_nets(one.drop_last()) == Ok::<Seq<IpNet>, Seq<char>>(Seq::empty()));
    assert(crate::text::trim_start(text) == text);
    assert(!crate::text::is_white_space(text[text.len() - 1]));
    assert(crate::text::trim_end(text) == text);
    assert(Seq::<IpNet>::empty().push(net) =~= seq![net]);
}

} // verus!
