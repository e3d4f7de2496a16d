//! Sites as rows of a table, so that they outlive the process.
use vstd::prelude::*;
use vstd::string::*;

use crate::error::CaptchaError;
use crate::ident::{parse_uuid, uuid_text};
use crate::site::types::{Site, SitePolicy, SiteView};
use crate::text::{chars_of, join_texts, string_of, words_of};
use crate::time::{date_text, parse_date, Timestamp};

verus! {

/// The columns of a site's row.
#[derive(Debug)]
pub struct SiteRow {
    pub site_key: String,
    pub secret_key: String,
    pub name: String,
    pub created_at: String,
    pub allowed_origins: String,
    /// Nothing, where the site overrides nothing.
    pub policy: Option<SitePolicy>,
}

/// A site's origins as one text, with spaces between them.
pub open spec fn origins_column(origins: Seq<Seq<char>>) -> Seq<char> {
    crate::text::join(origins, " "@)
}

/// A policy as it is stored: not at all, where it overrides nothing.
pub open spec fn stored_policy(policy: SitePolicy) -> Option<SitePolicy> {
    if policy == crate::site::types::empty_policy() {
        None
    } else {
        Some(policy)
    }
}

/// The columns of a site.
pub open spec fn columns_of(site: SiteView) -> (
    Seq<char>,
    Seq<char>,
    Seq<char>,
    Seq<char>,
    Seq<char>,
    Option<SitePolicy>,
) {
    (
        crate::ident::hyphenated(site.site_key),
        site.secret_key,
        site.name,
        crate::time::date_written(site.created_at),
        origins_column(site.allowed_origins),
        stored_policy(site.policy),
    )
}

/// The site that columns hold, or what is wrong with them. A policy that cannot be read
/// comes as the text of the error; it is not taken for one that overrides nothing.
pub open spec fn site_of_columns(
    site_key: Seq<char>,
    secret_key: Seq<char>,
    name: Seq<char>,
    created_at: Seq<char>,
    allowed_origins: Seq<char>,
    policy: Result<Option<SitePolicy>, Seq<char>>,
) -> Result<SiteView, Seq<char>> {
    match crate::ident::uuid_of_text(site_key) {
        Err(e) => Err("bad site_key in db: "@ + e),
        Ok(key) => match crate::time::rfc3339_of_text(created_at) {
            Err(e) => Err("bad created_at in db: "@ + e),
            Ok(t) => match policy {
                Err(e) => Err("bad policy for site "@ + site_key + " in db: "@ + e),
                Ok(p) => Ok(
                    SiteView {
                        site_key: key,
                        secret_key,
                        name,
                        created_at: Timestamp { secs: t.0, nanos: t.1 },
                        allowed_origins: crate::text::words(allowed_origins),
                        policy: match p {
                            Some(p) => p,
                            None => crate::site::types::empty_policy(),
                        },
                    },
                ),
            },
        },
    }
}

/// A result's error as a sequence of characters.
pub open spec fn policy_view(policy: Result<Option<SitePolicy>, String>) -> Result<
    Option<SitePolicy>,
    Seq<char>,
> {
    match policy {
        Ok(p) => Ok(p),
        Err(e) => Err(e@),
    }
}

/// The site that a row holds. The policy stands beside the row: it is stored as a document,
/// which may fail to be read. From the row of a site the same site is read.
pub fn site_from_row(
    site_key: &str,
    secret_key: String,
    name: String,
    created_at: &str,
    allowed_origins: &str,
    policy: Result<Option<SitePolicy>, String>,
) -> (r: Result<Site, CaptchaError>)
    ensures
        match r {
            Ok(site) => site_of_columns(
                site_key@,
                secret_key@,
                name@,
                created_at@,
                allowed_origins@,
                policy_view(policy),
            ) == Ok::<SiteView, Seq<char>>(site@),
            Err(e) => e matches CaptchaError::Storage(detail) && site_of_columns(
                site_key@,
                secret_key@,
                name@,
                created_at@,
                allowed_origins@,
                policy_view(policy),
            ) == Err::<SiteView, Seq<char>>(detail@),
        },
        forall|site: SiteView|
            policy matches Ok(p) && survives(site) && #[trigger] columns_of(site) == (
                site_key@,
                secret_key@,
                name@,
                created_at@,
                allowed_origins@,
                p,
            ) ==> (r matches Ok(back) && back@ == site),
{
    let ghost given = policy;
    let key = match parse_uuid(site_key) {
        Ok(key) => key,
        Err(e) => {
            let mut s = "bad site_key in db: ".to_owned();
            s.append(e.as_str());
            return Err(CaptchaError::Storage(s));
        },
    };
    let created = match parse_date(created_at) {
        Ok(t) => t,
        Err(e) => {
            let mut s = "bad created_at in db: ".to_owned();
            s.append(e.as_str());
            return Err(CaptchaError::Storage(s));
        },
    };
    let policy = match policy {
        Ok(Some(p)) => p,
        Ok(None) => SitePolicy::default(),
        Err(e) => {
            let mut s = "bad policy for site ".to_owned();
            s.append(site_key);
            s.append(" in db: ");
            s.append(e.as_str());
            return Err(CaptchaError::Storage(s));
        },
    };
    let words = words_of(chars_of(allowed_origins).as_slice());
    let origins = texts_of(&words);
    let site = Site {
        site_key: key,
        secret_key,
        name,
        created_at: created,
        allowed_origins: origins,
        policy,
    };
    assert(site@.allowed_origins =~= crate::text::words(allowed_origins@));
    proof {
        if let Ok(p) = given {
            assert forall|s: SiteView|
                survives(s) && #[trigger] columns_of(s) == (
                    site_key@,
                    secret_key@,
                    name@,
                    created_at@,
                    allowed_origins@,
                    p,
                ) implies site@ == s by {
                lemma_origins_survive(s.allowed_origins);
            }
        }
    }
    Ok(site)
}

fn texts_of(words: &Vec<Vec<char>>) -> (r: Vec<String>)
    ensures
        crate::text::string_views(r@) == crate::text::views(words@),
{
    let mut out: Vec<String> = Vec::new();
    let n = words.len();
    for i in 0..n
        invariant
            n == words@.len(),
            out@.len() == i,
            forall|j: int| 0 <= j < i ==> (#[trigger] out@[j])@ == words@[j]@,
    {
        out.push(string_of(words[i].as_slice()));
    }
    assert(crate::text::string_views(out@) =~= crate::text::views(words@));
    out
}

/// An origin can be told from its neighbours in the column: it is not empty, and holds no
/// white space. So is every origin that `normalize_origin` accepts.
pub open spec fn is_word(origin: Seq<char>) -> bool {
    origin.len() > 0 && !crate::site::types::has_white_space(origin)
}

/// What a row keeps of a site without loss: origins that are words, and a date with a year
/// of four digits.
pub open spec fn survives(site: SiteView) -> bool {
    &&& crate::time::is_common_date(site.created_at)
    &&& forall|i: int|
        0 <= i < site.allowed_origins.len() ==> is_word(#[trigger] site.allowed_origins[i])
}

/// The row of a site.
pub fn row_of_site(site: &Site) -> (r: SiteRow)
    requires
        crate::time::is_date(site.created_at),
    ensures
        columns_of(site@) == (
            r.site_key@,
            r.secret_key@,
            r.name@,
            r.created_at@,
            r.allowed_origins@,
            r.policy,
        ),
{
    SiteRow {
        site_key: uuid_text(site.site_key),
        secret_key: site.secret_key.clone(),
        name: site.name.clone(),
        created_at: date_text(&site.created_at),
        allowed_origins: origins_text(&site.allowed_origins),
        policy: policy_column(&site.policy),
    }
}

/// The origins of a site as the text of one column.
pub fn origins_text(origins: &Vec<String>) -> (r: String)
    ensures
        r@ == origins_column(crate::text::string_views(origins@)),
{
    let mut parts: Vec<&str> = Vec::new();
    let n = origins.len();
    for i in 0..n
        invariant
            n == origins@.len(),
            parts@.len() == i,
            forall|j: int| 0 <= j < i ==> (#[trigger] parts@[j])@ == origins@[j]@,
    {
        parts.push(origins[i].as_str());
    }
    assert(crate::text::str_views(parts@) =~= crate::text::string_views(origins@));
    join_texts(&parts, " ")
}

/// The policy that is stored: none, where nothing is overridden.
pub fn policy_column(policy: &SitePolicy) -> (r: Option<SitePolicy>)
    ensures
        r == stored_policy(*policy),
{
    if policy.is_empty() {
        None
    } else {
        Some(*policy)
    }
}

proof fn lemma_split_word(s: Seq<char>, word: Seq<char>)
    requires
        !crate::site::types::has_white_space(word),
    ensures
        ({
            let parts = crate::text::split(s, crate::text::Separator::WhiteSpace);
            &&& parts.len() > 0
            &&& crate::text::split(s + word, crate::text::Separator::WhiteSpace)
                == parts.drop_last().push(parts.last() + word)
        }),
    decreases word.len(),
{
    let sep = crate::text::Separator::WhiteSpace;
    let parts = crate::text::split(s, sep);
    lemma_split_nonempty(s);
    if word.len() == 0 {
        assert(s + word =~= s);
        assert(parts.drop_last().push(parts.last() + word) =~= parts);
    } else {
        let front = word.drop_last();
        assert forall|i: int| 0 <= i < front.len() implies !crate::text::is_white_space(
            #[trigger] front[i],
        ) by {
            assert(front[i] == word[i]);
        }
        lemma_split_word(s, front);
        assert(!crate::text::is_white_space(word[word.len() - 1]));
        assert((s + word).drop_last() =~= s + front);
        assert((s + word).last() == word.last());
        let before = crate::text::split(s + front, sep);
        assert(before.drop_last() =~= parts.drop_last());
        assert((parts.last() + front).push(word.last()) =~= parts.last() + word);
    }
}

proof fn lemma_split_nonempty(s: Seq<char>)
    ensures
        crate::text::split(s, crate::text::Separator::WhiteSpace).len() > 0,
    decreases s.len(),
{
    if s.len() > 0 {
        lemma_split_nonempty(s.drop_last());
    }
}

proof fn lemma_split_joined(words: Seq<Seq<char>>)
    requires
        words.len() > 0,
        forall|i: int| 0 <= i < words.len() ==> is_word(#[trigger] words[i]),
    ensures
        crate::text::split(
            crate::text::join(words, " "@),
            crate::text::Separator::WhiteSpace,
        ) == words,
    decreases words.len(),
{
    let sep = crate::text::Separator::WhiteSpace;
    reveal_strlit(" ");
    let last = words.last();
    assert(is_word(last));
    if words.len() == 1 {
        lemma_split_word(Seq::empty(), last);
        assert(Seq::<char>::empty() + last =~= last);
        assert(crate::text::split(last, sep) =~= words);
    } else {
        let front = words.drop_last();
        assert forall|i: int| 0 <= i < front.len() implies is_word(#[trigger] front[i]) by {
            assert(front[i] == words[i]);
        }
        lemma_split_joined(front);
        let head = crate::text::join(front, " "@);
        let spaced = head + " "@;
        assert(spaced.drop_last() =~= head);
        assert(crate::text::is_white_space(' '));
        assert(crate::text::split(spaced, sep) == front.push(Seq::empty()));
        lemma_split_word(spaced, last);
        assert(front.push(Seq::<char>::empty()).drop_last() =~= front);
        assert(Seq::<char>::empty() + last =~= last);
        assert(front.push(last) =~= words);
    }
}

proof fn lemma_nonempty_words(words: Seq<Seq<char>>)
    requires
        forall|i: int| 0 <= i < words.len() ==> is_word(#[trigger] words[i]),
    ensures
        crate::text::nonempty(words) == words,
    decreases words.len(),
{
    if words.len() > 0 {
        let front = words.drop_last();
        assert forall|i: int| 0 <= i < front.len() implies is_word(#[trigger] front[i]) by {
            assert(front[i] == words[i]);
        }
        lemma_nonempty_words(front);
        assert(is_word(words[words.len() - 1]));
        assert(front.push(words.last()) =~= words);
    }
}

/// Origins that are words come back from the column as they went in.
pub proof fn lemma_origins_survive(origins: Seq<Seq<char>>)
    requires
        forall|i: int| 0 <= i < origins.len() ==> is_word(#[trigger] origins[i]),
    ensures
        crate::text::words(origins_column(origins)) == origins,
{
    if origins.len() == 0 {
        let none = Seq::<char>::empty();
        let parts = crate::text::split(none, crate::text::Separator::WhiteSpace);
        assert(parts =~= seq![none]);
        reveal_with_fuel(crate::text::nonempty, 2);
        assert(crate::text::nonempty(parts) =~= origins);
    } else {
        lemma_split_joined(origins);
        lemma_nonempty_words(origins);
    }
}

/// An origin that is accepted is a word, so that it survives being stored.
pub proof fn lemma_stored_origin_is_word(raw: Seq<char>)
    requires
        crate::site::types::stored_origin(raw) is Some,
    ensures
        is_word(crate::site::types::stored_origin(raw)->0),
{
}

/// What a row gives: the site of its key, with every other column under its own name. A key, a
/// date or a policy that cannot be read refuses the row, and a policy that is not there
/// overrides nothing.
pub proof fn lemma_row(
    site_key: Seq<char>,
    secret_key: Seq<char>,
    name: Seq<char>,
    created_at: Seq<char>,
    allowed_origins: Seq<char>,
    policy: Result<Option<SitePolicy>, Seq<char>>,
)
    ensures
        ({
            let r = site_of_columns(
                site_key,
                secret_key,
                name,
                created_at,
                allowed_origins,
                policy,
            );
            &&& r is Ok <==> crate::ident::uuid_of_text(site_key) is Ok
                && crate::time::rfc3339_of_text(created_at) is Ok && policy is Ok
            &&& r matches Ok(site) ==> {
                &&& crate::ident::uuid_of_text(site_key) == Ok::<u128, Seq<char>>(site.site_key)
                &&& site.secret_key == secret_key
                &&& site.name == name
                &&& crate::time::rfc3339_of_text(created_at) == Ok::<(i64, u32), Seq<char>>(
                    (site.created_at.secs, site.created_at.nanos),
                )
                &&& site.allowed_origins == crate::text::words(allowed_origins)
                &&& policy matches Ok(Some(p)) ==> site.policy == p
                &&& policy matches Ok(None) ==> {
                    &&& site.policy.tier_checkbox_min is None
                    &&& site.policy.tier_hard_pow_min is None
                    &&& site.policy.tier_block_min is None
                    &&& site.policy.verify_shadow_min is None
                    &&& site.policy.verify_block_min is None
                    &&& site.policy.default_difficulty is None
                    &&& site.policy.max_difficulty is None
                    &&& site.policy.mode is None
                }
            }
        }),
{
}

/// A policy is stored exactly where it overrides anything.
pub proof fn lemma_stored_policy(policy: SitePolicy)
    ensures
        stored_policy(policy) is None <==> policy.tier_checkbox_min is None
            && policy.tier_hard_pow_min is None && policy.tier_block_min is None
            && policy.verify_shadow_min is None && policy.verify_block_min is None
            && policy.default_difficulty is None && policy.max_difficulty is None && policy.mode
            is None,
        stored_policy(policy) matches Some(p) ==> p == policy,
{
}

} // verus!
