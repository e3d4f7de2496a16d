//! Signed trust cookies. A token is the time of its issue and a tag over it; nothing
//! needs to be stored to check one.
use vstd::prelude::*;
use vstd::string::*;

use crate::bytes::{u64_be, u64_from_be};
use crate::crypto::{hex_decode, hex_encode, hmac_tag, hmac_tag_matches};
use crate::text::{begins_with_text, chars_of, cut, piece, pieces, string_of, trimmed, Separator};
use crate::time::{now, Timestamp};

verus! {

pub const COOKIE_NAME: &'static str = "__captcha_trust";

/// Thirty days.
pub const COOKIE_MAX_AGE_SECS: u64 = 2_592_000;

/// How far in the future a token may claim to have been issued.
pub const COOKIE_SKEW_SECS: u64 = 60;

/// The token that a key signs for a time.
pub open spec fn token_of(key: Seq<u8>, issued_at: u64) -> Seq<char> {
    let time = crate::bytes::be_bytes(issued_at as nat, 8);
    crate::crypto::hex_text(time) + "."@ + crate::crypto::hex_text(
        crate::crypto::hmac_sha256(key, time),
    )
}

/// The time that a token was issued at, by its own account, where it is one.
pub open spec fn token_time(value: Seq<char>) -> Option<(Seq<u8>, Seq<u8>)> {
    match crate::text::split_once(value, '.') {
        None => None,
        Some((time, tag)) => if crate::crypto::is_hex_text(time) && crate::crypto::hex_bytes(
            time,
        ).len() == 8 && crate::crypto::is_hex_text(tag) {
            Some((crate::crypto::hex_bytes(time), crate::crypto::hex_bytes(tag)))
        } else {
            None
        },
    }
}

/// The time of issue of a token that the key signed, and that does not lie in the
/// future by more than the tolerated skew.
pub open spec fn accepted_token(key: Seq<u8>, value: Seq<char>, now_secs: u64) -> Option<nat> {
    match token_time(value) {
        None => None,
        Some((time, tag)) => if tag == crate::crypto::hmac_sha256(key, time)
            && crate::bytes::be_value(time) <= now_secs + COOKIE_SKEW_SECS {
            Some(crate::bytes::be_value(time))
        } else {
            None
        },
    }
}

/// Issues and checks tokens under one key.
#[derive(Debug)]
pub struct CookieSigner {
    pub key: Vec<u8>,
}

impl CookieSigner {
    pub fn new(secret: Vec<u8>) -> (r: Self)
        ensures
            r.key@ == secret@,
    {
        CookieSigner { key: secret }
    }

    /// A token issued at the given time.
    pub fn issue(&self, now_secs: u64) -> (r: String)
        ensures
            r@ == token_of(self.key@, now_secs),
    {
        let time = u64_be(now_secs);
        let tag = self.mac(time.as_slice());
        let mut token = hex_encode(time.as_slice());
        token.append(".");
        token.append(hex_encode(tag.as_slice()).as_str());
        token
    }

    /// The time of issue of a token. There is none for anything malformed, signed by
    /// another key, or issued in the future.
    pub fn verify(&self, value: &str, now_secs: u64) -> (r: Option<u64>)
        ensures
            match r {
                Some(t) => accepted_token(self.key@, value@, now_secs) == Some(t as nat),
                None => accepted_token(self.key@, value@, now_secs) is None,
            },
    {
        let cs = chars_of(value);
        let (time_hex, tag_hex) = match cut(cs.as_slice(), '.') {
            None => {
                return None;
            },
            Some(parts) => parts,
        };
        let time = match hex_decode(string_of(time_hex.as_slice()).as_str()) {
            None => {
                return None;
            },
            Some(time) => time,
        };
        if time.len() != 8 {
            return None;
        }
        let tag = match hex_decode(string_of(tag_hex.as_slice()).as_str()) {
            None => {
                return None;
            },
            Some(tag) => tag,
        };
        if !hmac_tag_matches(self.key.as_slice(), time.as_slice(), tag.as_slice()) {
            return None;
        }
        let issued_at = u64_from_be(time.as_slice());
        if issued_at > now_secs.saturating_add(COOKIE_SKEW_SECS) {
            return None;
        }
        Some(issued_at)
    }

    fn mac(&self, msg: &[u8]) -> (r: [u8; 32])
        ensures
            r@ == crate::crypto::hmac_sha256(self.key@, msg@),
    {
        hmac_tag(self.key.as_slice(), msg)
    }
}

/// The whole seconds from the Unix epoch to a point in time; zero for one before it.
pub open spec fn secs_since_epoch(t: Timestamp) -> u64 {
    if t.secs < 0 {
        0
    } else {
        t.secs as u64
    }
}

/// The whole seconds from the Unix epoch to a point in time; zero for one before it.
pub fn epoch_secs(t: &Timestamp) -> (r: u64)
    ensures
        r == secs_since_epoch(*t),
{
    if t.secs < 0 {
        0
    } else {
        t.secs as u64
    }
}

/// `epoch_secs` of the current time.
pub fn now_secs() -> (r: u64)
    ensures
        exists|t: Timestamp|
            crate::time::is_clock_time(t) && r == #[trigger] secs_since_epoch(t),
{
    let t = now();
    epoch_secs(&t)
}

/// The `SameSite` attribute of the cookie. `CrossSite`, which is written `None`, lets it
/// flow on cross-origin requests, and needs `Secure`.
#[derive(Debug, Clone, Copy, PartialEq, Eq, Structural)]
pub enum CookieSameSite {
    Lax,
    CrossSite,
}

impl CookieSameSite {
    pub open spec fn attribute(self) -> Seq<char> {
        match self {
            CookieSameSite::Lax => "Lax"@,
            CookieSameSite::CrossSite => "None"@,
        }
    }

    fn as_attribute(&self) -> (r: &'static str)
        ensures
            r@ == self.attribute(),
    {
        match self {
            CookieSameSite::Lax => "Lax",
            CookieSameSite::CrossSite => "None",
        }
    }
}

/// The value of the `Set-Cookie` header for a token.
pub open spec fn cookie_to_set(token: Seq<char>, secure: bool, same_site: CookieSameSite) -> Seq<
    char,
> {
    "__captcha_trust="@ + token + "; Max-Age=2592000; Path=/; HttpOnly; SameSite="@
        + same_site.attribute() + (if secure {
        "; Secure"@
    } else {
        Seq::empty()
    })
}

/// The value of the `Set-Cookie` header for a token.
pub fn set_cookie_header(token: &str, secure: bool, same_site: CookieSameSite) -> (r: String)
    ensures
        r@ == cookie_to_set(token@, secure, same_site),
        r@ == "__captcha_trust="@ + token@ + "; Max-Age=2592000; Path=/; HttpOnly; SameSite="@
            + same_site.attribute() + (if secure {
            "; Secure"@
        } else {
            Seq::empty()
        }),
{
    let mut s = "__captcha_trust=".to_owned();
    s.append(token);
    s.append("; Max-Age=2592000; Path=/; HttpOnly; SameSite=");
    s.append(same_site.as_attribute());
    if secure {
        s.append("; Secure");
    }
    s
}

/// The value of the first trust cookie among the pairs of a `Cookie` header.
pub open spec fn trust_cookie(pairs: Seq<Seq<char>>) -> Option<Seq<char>>
    decreases pairs.len(),
{
    if pairs.len() == 0 {
        None
    } else {
        let pair = crate::text::trim(pairs[0]);
        if "__captcha_trust="@.is_prefix_of(pair) {
            Some(pair.skip("__captcha_trust="@.len() as int))
        } else {
            trust_cookie(pairs.skip(1))
        }
    }
}

/// The value of the trust cookie in a `Cookie` header.
pub open spec fn sent_cookie(cookie_header: Seq<char>) -> Option<Seq<char>> {
    trust_cookie(crate::text::split(cookie_header, Separator::Char(';')))
}

/// The value of the trust cookie in a `Cookie` header, where there is one.
pub fn extract_cookie(cookie_header: &str) -> (r: Option<String>)
    ensures
        crate::config::optional_text(r) == sent_cookie(cookie_header@),
        match r {
            Some(value) => trust_cookie(
                crate::text::split(cookie_header@, Separator::Char(';')),
            ) == Some(value@),
            None => trust_cookie(
                crate::text::split(cookie_header@, Separator::Char(';')),
            ) is None,
        },
{
    let cs = chars_of(cookie_header);
    let pairs = pieces(cs.as_slice(), Separator::Char(';'));
    let ghost all = crate::text::views(pairs@);
    let name = chars_of("__captcha_trust=");
    let n = pairs.len();
    let mut i: usize = 0;
    assert(all.skip(0) == all);
    while i < n
        invariant
            i <= n,
            n == pairs@.len(),
            all == crate::text::views(pairs@),
            all == crate::text::split(cookie_header@, Separator::Char(';')),
            name@ == "__captcha_trust="@,
            trust_cookie(all) == trust_cookie(all.skip(i as int)),
        decreases n - i,
    {
        let pair = trimmed(pairs[i].as_slice());
        assert(all.skip(i as int)[0] == pairs@[i as int]@);
        if begins_with_text(pair.as_slice(), "__captcha_trust=") {
            let value = piece(pair.as_slice(), name.len(), pair.len());
            assert(value@ =~= pair@.skip(name@.len() as int));
            return Some(string_of(value.as_slice()));
        }
        assert(all.skip(i as int).skip(1) == all.skip(i + 1));
        i += 1;
    }
    None
}

/// A token that a key issued is accepted under that key, with the time it was issued
/// at, from that time less the tolerated skew on.
pub proof fn lemma_token_round_trip(key: Seq<u8>, issued_at: u64, now_secs: u64)
    ensures
        accepted_token(key, token_of(key, issued_at), now_secs) == if issued_at <= now_secs
            + COOKIE_SKEW_SECS {
            Some(issued_at as nat)
        } else {
            None
        },
{
    let time = crate::bytes::be_bytes(issued_at as nat, 8);
    let tag = crate::crypto::hmac_sha256(key, time);
    let a = crate::crypto::hex_text(time);
    let b = crate::crypto::hex_text(tag);
    let token = token_of(key, issued_at);
    reveal_strlit(".");
    crate::bytes::lemma_u64_be_round_trip(issued_at);
    crate::crypto::lemma_hex_round_trip(time);
    crate::crypto::lemma_hex_round_trip(tag);
    crate::text::lemma_index_of(token, '.');
    assert(token[a.len() as int] == '.');
    assert forall|j: int| 0 <= j < a.len() implies token[j] != '.' by {
        assert(token[j] == a[j]);
        assert(crate::crypto::is_hex_digit(a[j]));
    }
    assert(crate::text::index_of(token, '.') == Some(a.len() as int));
    assert(token.take(a.len() as int) =~= a);
    assert(token.skip(a.len() as int + 1) =~= b);
}

proof fn lemma_token_chars(key: Seq<u8>, issued_at: u64, i: int)
    requires
        0 <= i < token_of(key, issued_at).len(),
    ensures
        token_of(key, issued_at)[i] != ';',
        !crate::text::is_white_space(token_of(key, issued_at)[i]),
{
    reveal_strlit(".");
    let time = crate::bytes::be_bytes(issued_at as nat, 8);
    let tag = crate::crypto::hmac_sha256(key, time);
    let a = crate::crypto::hex_text(time);
    let b = crate::crypto::hex_text(tag);
    crate::crypto::lemma_hex_round_trip(time);
    crate::crypto::lemma_hex_round_trip(tag);
    let token = token_of(key, issued_at);
    if i < a.len() {
        assert(token[i] == a[i]);
        assert(crate::crypto::is_hex_digit(a[i]));
    } else if i == a.len() {
        assert(token[i] == '.');
    } else {
        assert(token[i] == b[i - a.len() - 1]);
        assert(crate::crypto::is_hex_digit(b[i - a.len() - 1]));
    }
}

/// The trust cookie that a browser sends back is found in its header, and the key that issued
/// it accepts it.
pub proof fn lemma_cookie_is_read_back(key: Seq<u8>, issued_at: u64, now_secs: u64)
    requires
        issued_at <= now_secs + COOKIE_SKEW_SECS,
    ensures
        ({
            let token = token_of(key, issued_at);
            &&& trust_cookie(
                crate::text::split("__captcha_trust="@ + token, Separator::Char(';')),
            ) == Some(token)
            &&& accepted_token(key, token, now_secs) == Some(issued_at as nat)
        }),
{
    let token = token_of(key, issued_at);
    let name = "__captcha_trust="@;
    let pair = name + token;
    let sep = Separator::Char(';');
    reveal_strlit("__captcha_trust=");
    assert forall|i: int| 0 <= i < pair.len() implies !sep.separates(#[trigger] pair[i])
        && !crate::text::is_white_space(pair[i]) by {
        if i < name.len() {
            assert(pair[i] == name[i]);
        } else {
            assert(pair[i] == token[i - name.len()]);
            lemma_token_chars(key, issued_at, i - name.len());
        }
    }
    crate::text::lemma_one_piece(pair, sep);
    assert(!crate::text::is_white_space(pair[0]));
    assert(!crate::text::is_white_space(pair[pair.len() - 1]));
    assert(crate::text::trim(pair) == pair);
    assert(name.is_prefix_of(pair));
    assert(pair.skip(name.len() as int) =~= token);
    assert(crate::text::split(pair, sep)[0] == pair);
    lemma_token_round_trip(key, issued_at, now_secs);
}

/// A token is accepted only where its tag is the one of its time under the key, and its time
/// lies at most a minute ahead; then its time is what is given.
pub proof fn lemma_accepted_token(key: Seq<u8>, value: Seq<char>, now_secs: u64)
    ensures
        accepted_token(key, value, now_secs) matches Some(t) ==> exists|i: int|
            {
                &&& 0 <= i < value.len()
                &&& #[trigger] value[i] == '.'
                &&& crate::crypto::is_hex_text(value.take(i))
                &&& crate::crypto::is_hex_text(value.skip(i + 1))
                &&& i == 16
                &&& crate::crypto::hex_bytes(value.skip(i + 1)) == crate::crypto::hmac_sha256(
                    key,
                    crate::crypto::hex_bytes(value.take(i)),
                )
                &&& t == crate::bytes::be_value(crate::crypto::hex_bytes(value.take(i)))
                &&& t <= now_secs + 60
            },
{
    crate::text::lemma_index_of(value, '.');
    if accepted_token(key, value, now_secs) is Some {
        let i = crate::text::index_of(value, '.')->0;
        assert(value[i] == '.');
        assert(value.take(i).len() == i);
    }
}

/// The trust cookie of a header is the first pair that begins with its name; pairs before it do
/// not matter, and neither does what stands behind it.
pub proof fn lemma_trust_cookie(pairs: Seq<Seq<char>>, k: int)
    requires
        0 <= k < pairs.len(),
        "__captcha_trust="@.is_prefix_of(crate::text::trim(pairs[k])),
        forall|i: int|
            0 <= i < k ==> !"__captcha_trust="@.is_prefix_of(
                crate::text::trim(#[trigger] pairs[i]),
            ),
    ensures
        trust_cookie(pairs) == Some(crate::text::trim(pairs[k]).skip(16)),
    decreases k,
{
    reveal_strlit("__captcha_trust=");
    if k > 0 {
        let rest = pairs.skip(1);
        assert(rest[k - 1] == pairs[k]);
        assert forall|i: int| 0 <= i < k - 1 implies !"__captcha_trust="@.is_prefix_of(
            crate::text::trim(#[trigger] rest[i]),
        ) by {
            assert(rest[i] == pairs[i + 1]);
        }
        lemma_trust_cookie(rest, k - 1);
    }
}

/// The two forms of the `SameSite` attribute.
pub proof fn lemma_same_site()
    ensures
        CookieSameSite::Lax.attribute() == "Lax"@,
        CookieSameSite::CrossSite.attribute() == "None"@,
{
}

/// A cookie that is set begins with its name and its token, lives for thirty days on every path
/// out of reach of scripts, and is marked secure exactly where it is asked for.
pub proof fn lemma_cookie_to_set(token: Seq<char>, same_site: CookieSameSite)
    ensures
        cookie_to_set(token, false, CookieSameSite::Lax) == "__captcha_trust="@ + token
            + "; Max-Age=2592000; Path=/; HttpOnly; SameSite="@ + "Lax"@,
        cookie_to_set(token, false, CookieSameSite::CrossSite) == "__captcha_trust="@ + token
            + "; Max-Age=2592000; Path=/; HttpOnly; SameSite="@ + "None"@,
        cookie_to_set(token, true, same_site) == cookie_to_set(token, false, same_site)
            + "; Secure"@,
        COOKIE_MAX_AGE_SECS == 30 * 24 * 3600,
{
    assert(cookie_to_set(token, false, CookieSameSite::Lax) =~= "__captcha_trust="@ + token
        + "; Max-Age=2592000; Path=/; HttpOnly; SameSite="@ + "Lax"@);
    assert(cookie_to_set(token, false, CookieSameSite::CrossSite) =~= "__captcha_trust="@ + token
        + "; Max-Age=2592000; Path=/; HttpOnly; SameSite="@ + "None"@);
    assert(cookie_to_set(token, true, same_site) =~= cookie_to_set(token, false, same_site)
        + "; Secure"@);
}

/// The trust cookie is found behind other cookies, which stand before it with semicolons
/// between them; a header without it has none.
pub proof fn lemma_sent_cookie(others: Seq<char>, value: Seq<char>, i: int)
    requires
        forall|k: int| 0 <= k < value.len() ==> value[k] != ';',
        value.len() > 0 ==> !crate::text::is_white_space(value.last()),
        forall|k: int|
            0 <= k < crate::text::split(others, Separator::Char(';')).len()
                ==> !"__captcha_trust="@.is_prefix_of(
                crate::text::trim(#[trigger] crate::text::split(others, Separator::Char(';'))[k]),
            ),
    ensures
        sent_cookie("__captcha_trust="@ + value) == Some(value),
        sent_cookie(others.push(';') + ("__captcha_trust="@ + value)) == Some(value),
        sent_cookie(others) is None,
{
    reveal_strlit("__captcha_trust=");
    let sep = Separator::Char(';');
    let pair = "__captcha_trust="@ + value;
    assert forall|k: int| 0 <= k < pair.len() implies !sep.separates(#[trigger] pair[k]) by {
        if k >= 16 {
            assert(pair[k] == value[k - 16]);
        }
    }
    crate::text::lemma_one_piece(pair, sep);
    assert(pair[0] == '_');
    assert(!crate::text::is_white_space(pair.last())) by {
        if value.len() > 0 {
            assert(pair.last() == value.last());
        } else {
            assert(pair.last() == '=');
        }
    }
    assert(crate::text::trim_start(pair) == pair);
    assert(crate::text::trim_end(pair) == pair);
    assert("__captcha_trust="@.is_prefix_of(pair));
    assert(pair.skip(16) =~= value);
    lemma_trust_cookie(seq![pair], 0);
    crate::text::lemma_split_at_separator(others, ';', pair, sep);
    let before = crate::text::split(others, sep);
    let all = before + seq![pair];
    assert forall|k: int| 0 <= k < before.len() implies !"__captcha_trust="@.is_prefix_of(
        crate::text::trim(#[trigger] all[k]),
    ) by {
        assert(all[k] == before[k]);
    }
    assert(all[before.len() as int] == pair);
    lemma_trust_cookie(all, before.len() as int);
    lemma_no_trust_cookie(before);
}

proof fn lemma_no_trust_cookie(pairs: Seq<Seq<char>>)
    requires
        forall|k: int|
            0 <= k < pairs.len() ==> !"__captcha_trust="@.is_prefix_of(
                crate::text::trim(#[trigger] pairs[k]),
            ),
    ensures
        trust_cookie(pairs) is None,
    decreases pairs.len(),
{
    if pairs.len() > 0 {
        assert(!"__captcha_trust="@.is_prefix_of(crate::text::trim(pairs[0])));
        let rest = pairs.skip(1);
        assert forall|k: int| 0 <= k < rest.len() implies !"__captcha_trust="@.is_prefix_of(
            crate::text::trim(#[trigger] rest[k]),
        ) by {
            assert(rest[k] == pairs[k + 1]);
        }
        lemma_no_trust_cookie(rest);
    }
}

} // verus!
