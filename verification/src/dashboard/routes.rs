//! What the operator asks for and changes.
use axum::http::HeaderMap;
use vstd::prelude::*;
use vstd::string::*;

use crate::api::extract::{bearer_token, is_secret};
use crate::config::AppConfig;
use crate::crypto::{hex_encode, random_bytes};
use crate::error::CaptchaError;
use crate::ident::{parse_uuid, Uuid};
use crate::site::types::{normalize_origins, SitePolicy, SiteView};
use crate::storage::memory::InMemoryStore;
use crate::text::{chars_of, clone_texts};

verus! {

/// A refusal, with its status.
#[derive(Debug)]
pub struct Refusal {
    pub status: u16,
    pub message: String,
}

pub open spec fn is_refusal(r: Refusal, status: u16, message: Seq<char>) -> bool {
    r.status == status && r.message@ == message
}

fn refuse(status: u16, message: &str) -> (r: Refusal)
    ensures
        is_refusal(r, status, message@),
{
    Refusal { status, message: message.to_owned() }
}

/// Whether a request comes with the operator's token.
pub fn check_auth(expected: &str, headers: &HeaderMap) -> (r: Result<(), Refusal>)
    ensures
        match crate::api::extract::request_token(crate::headers::fields(*headers)) {
            None => r matches Err(e) && is_refusal(e, 401, "missing bearer token"@),
            Some(token) => if token == expected@ {
                r is Ok
            } else {
                r matches Err(e) && is_refusal(e, 401, "invalid token"@)
            },
        },
{
    match bearer_token(headers) {
        None => Err(refuse(401, "missing bearer token")),
        Some(token) => {
            if is_secret(token.as_str(), expected) {
                Ok(())
            } else {
                Err(refuse(401, "invalid token"))
            }
        },
    }
}

/// How many sessions are listed.
pub open spec fn sessions_shown(limit: Option<u32>) -> u32 {
    match limit {
        None => 100,
        Some(n) => if n > 1000 {
            1000
        } else {
            n
        },
    }
}

/// How many hours are analysed.
pub open spec fn hours_shown(hours: Option<u32>) -> u32 {
    match hours {
        None => 24,
        Some(n) => if n < 1 {
            1
        } else if n > 720 {
            720
        } else {
            n
        },
    }
}

/// How many sessions are listed: 100 unless asked otherwise, and never more than 1000.
pub fn session_limit(limit: Option<u32>) -> (r: u32)
    ensures
        r == sessions_shown(limit),
        r == (match limit {
            None => 100,
            Some(n) => if n > 1000 {
                1000
            } else {
                n
            },
        }),
{
    match limit {
        None => 100,
        Some(n) => if n > 1000 {
            1000
        } else {
            n
        },
    }
}

/// How many hours are analysed: 24 unless asked otherwise, at least one and at most a month.
pub fn analytics_hours(hours: Option<u32>) -> (r: u32)
    ensures
        r == hours_shown(hours),
        r == (match hours {
            None => 24,
            Some(n) => if n < 1 {
                1
            } else if n > 720 {
                720
            } else {
                n
            },
        }),
{
    match hours {
        None => 24,
        Some(n) => if n < 1 {
            1
        } else if n > 720 {
            720
        } else {
            n
        },
    }
}

/// The site that an analysis is of: an empty name is none.
pub fn site_filter(site_key: Option<String>) -> (r: Option<String>)
    ensures
        r == (match site_key {
            Some(key) if key@.len() > 0 => site_key,
            _ => None,
        }),
{
    match site_key {
        Some(key) => {
            if chars_of(key.as_str()).len() > 0 {
                Some(key)
            } else {
                None
            }
        },
        None => None,
    }
}

/// The key of a site that is named in an address.
pub fn site_key_of(id: &str) -> (r: Result<Uuid, Refusal>)
    ensures
        match crate::ident::uuid_of_text(id@) {
            Ok(key) => r == Ok::<Uuid, Refusal>(key),
            Err(_) => r matches Err(e) && is_refusal(e, 400, "invalid site_key"@),
        },
{
    match parse_uuid(id) {
        Ok(key) => Ok(key),
        Err(_) => Err(refuse(400, "invalid site_key")),
    }
}

/// The refusal for an error of the store.
pub open spec fn refused_as(e: CaptchaError, failed: Seq<char>) -> (u16, Seq<char>) {
    if e == CaptchaError::NotFound {
        (404, "site not found"@)
    } else {
        (500, failed)
    }
}

/// The refusal for an error of the store: a site that is not there, or what failed.
pub fn store_refusal(e: &CaptchaError, failed: &str) -> (r: Refusal)
    ensures
        is_refusal(r, refused_as(*e, failed@).0, refused_as(*e, failed@).1),
{
    match e {
        CaptchaError::NotFound => refuse(404, "site not found"),
        _ => refuse(500, failed),
    }
}

/// Only the site of a key changed, if any did.
pub open spec fn changes_site(
    before: InMemoryStore,
    after: InMemoryStore,
    key: Uuid,
    change: spec_fn(SiteView) -> SiteView,
) -> bool {
    &&& after.challenges == before.challenges
    &&& after.same_counts(before)
    &&& match before.site_of_key(key) {
        Some(site) => after.site_map() == before.site_map().insert(key, change(site)),
        None => after.site_map() == before.site_map(),
    }
}

/// The answer to a request for another secret of a site, made of the given random bytes, and
/// what it changes. The secret that the site had is worth nothing any more.
pub open spec fn rotates(
    before: InMemoryStore,
    after: InMemoryStore,
    id: Seq<char>,
    secret: Seq<u8>,
    r: Result<(Uuid, String), Refusal>,
) -> bool {
    match crate::ident::uuid_of_text(id) {
        Err(_) => after == before && (r matches Err(e) && is_refusal(
            e,
            400,
            "invalid site_key"@,
        )),
        Ok(key) => {
            let secret_key = crate::crypto::hex_text(secret);
            &&& changes_site(
                before,
                after,
                key,
                |site: SiteView| SiteView { secret_key, ..site },
            )
            &&& match before.site_of_key(key) {
                None => {
                    &&& r matches Err(e) && is_refusal(e, 404, "site not found"@)
                    &&& after.secrets@ == before.secrets@
                },
                Some(site) => {
                    &&& r matches Ok(told)
                    &&& told.0 == key
                    &&& told.1@ == secret_key
                    &&& after.secrets@ == before.secrets@.remove(site.secret_key).insert(
                        secret_key,
                        key,
                    )
                    &&& after.site_of_secret(secret_key) == Some(SiteView { secret_key, ..site })
                    &&& site.secret_key != secret_key ==> after.site_of_secret(
                        site.secret_key,
                    ) is None
                },
            }
        },
    }
}

/// Gives a site another secret, made of the given random bytes. It is told once.
pub fn rotate_site_with(store: &mut InMemoryStore, id: &str, secret: &[u8]) -> (r: Result<
    (Uuid, String),
    Refusal,
>)
    requires
        old(store).wf(),
    ensures
        final(store).wf(),
        rotates(*old(store), *final(store), id@, secret@, r),
{
    let key = match site_key_of(id) {
        Ok(key) => key,
        Err(e) => {
            return Err(e);
        },
    };
    let secret_key = hex_encode(secret);
    let told = secret_key.clone();
    match store.rotate_site_secret(&key, secret_key) {
        Ok(()) => Ok((key, told)),
        Err(e) => Err(store_refusal(&e, "rotate failed")),
    }
}

/// `rotate_site_with` a fresh secret.
pub fn rotate_site(store: &mut InMemoryStore, id: &str) -> (r: Result<(Uuid, String), Refusal>)
    requires
        old(store).wf(),
    ensures
        final(store).wf(),
        exists|secret: Seq<u8>|
            secret.len() == 32 && #[trigger] rotates(
                *old(store),
                *final(store),
                id@,
                secret,
                r,
            ),
{
    let secret = random_bytes::<32>();
    let r = rotate_site_with(store, id, &secret);
    assert(rotates(*old(store), *store, id@, secret@, r));
    r
}

/// Gives a site another policy in place of the one it has, where the server can merge it.
pub fn update_site_policy(
    store: &mut InMemoryStore,
    config: &AppConfig,
    id: &str,
    policy: SitePolicy,
) -> (r: Result<Uuid, Refusal>)
    requires
        old(store).wf(),
    ensures
        final(store).wf(),
        match crate::ident::uuid_of_text(id@) {
            Err(_) => *final(store) == *old(store) && (r matches Err(e) && is_refusal(
                e,
                400,
                "invalid site_key"@,
            )),
            Ok(key) => match crate::site::types::policy_problem(
                crate::site::types::effective(policy, *config),
            ) {
                Some(message) => *final(store) == *old(store) && (r matches Err(e) && is_refusal(
                    e,
                    400,
                    message,
                )),
                None => {
                    &&& changes_site(
                        *old(store),
                        *final(store),
                        key,
                        |site: SiteView| SiteView { policy, ..site },
                    )
                    &&& final(store).secrets == old(store).secrets
                    &&& match old(store).site_of_key(key) {
                        None => r matches Err(e) && is_refusal(e, 404, "site not found"@),
                        Some(_) => r == Ok::<Uuid, Refusal>(key),
                    }
                },
            },
        },
{
    let key = match site_key_of(id) {
        Ok(key) => key,
        Err(e) => {
            return Err(e);
        },
    };
    match policy.validate(config) {
        Ok(()) => {},
        Err(message) => {
            return Err(Refusal { status: 400, message });
        },
    }
    match store.update_site_policy(&key, policy) {
        Ok(()) => Ok(key),
        Err(e) => Err(store_refusal(&e, "update failed")),
    }
}

/// Gives a site another list of origins in place of the one it has, in the form in which they
/// are stored.
pub fn update_site_origins(store: &mut InMemoryStore, id: &str, origins: &Vec<String>) -> (r:
    Result<(Uuid, Vec<String>), Refusal>)
    requires
        old(store).wf(),
    ensures
        final(store).wf(),
        match crate::ident::uuid_of_text(id@) {
            Err(_) => *final(store) == *old(store) && (r matches Err(e) && is_refusal(
                e,
                400,
                "invalid site_key"@,
            )),
            Ok(key) => match crate::site::types::stored_origin_list(
                crate::text::string_views(origins@),
            ) {
                Err(message) => *final(store) == *old(store) && (r matches Err(e) && is_refusal(
                    e,
                    400,
                    message,
                )),
                Ok(stored) => {
                    &&& changes_site(
                        *old(store),
                        *final(store),
                        key,
                        |site: SiteView| SiteView { allowed_origins: stored, ..site },
                    )
                    &&& final(store).secrets == old(store).secrets
                    &&& match old(store).site_of_key(key) {
                        None => r matches Err(e) && is_refusal(e, 404, "site not found"@),
                        Some(_) => r matches Ok(told) && told.0 == key
                            && crate::text::string_views(told.1@) == stored,
                    }
                },
            },
        },
{
    let key = match site_key_of(id) {
        Ok(key) => key,
        Err(e) => {
            return Err(e);
        },
    };
    let stored = match normalize_origins(origins.as_slice()) {
        Ok(stored) => stored,
        Err(message) => {
            return Err(Refusal { status: 400, message });
        },
    };
    let told = clone_texts(&stored);
    match store.update_site_origins(&key, stored) {
        Ok(()) => Ok((key, told)),
        Err(e) => Err(store_refusal(&e, "update failed")),
    }
}

/// Forgets a site.
pub fn delete_site(store: &mut InMemoryStore, id: &str) -> (r: Result<Uuid, Refusal>)
    requires
        old(store).wf(),
    ensures
        final(store).wf(),
        match crate::ident::uuid_of_text(id@) {
            Err(_) => *final(store) == *old(store) && (r matches Err(e) && is_refusal(
                e,
                400,
                "invalid site_key"@,
            )),
            Ok(key) => {
                &&& final(store).sites@ == old(store).sites@.remove(key)
                &&& final(store).challenges == old(store).challenges
                &&& final(store).same_counts(*old(store))
                &&& match old(store).site_of_key(key) {
                    None => {
                        &&& r matches Err(e) && is_refusal(e, 404, "site not found"@)
                        &&& final(store).secrets@ == old(store).secrets@
                    },
                    Some(site) => {
                        &&& r == Ok::<Uuid, Refusal>(key)
                        &&& final(store).secrets@ == old(store).secrets@.remove(site.secret_key)
                        &&& final(store).site_of_secret(site.secret_key) is None
                    },
                }
            },
        },
{
    let key = match site_key_of(id) {
        Ok(key) => key,
        Err(e) => {
            return Err(e);
        },
    };
    match store.delete_site(&key) {
        Ok(()) => Ok(key),
        Err(e) => Err(store_refusal(&e, "delete failed")),
    }
}

/// A change of one site leaves every other site as it was, and all challenges and counts.
pub proof fn lemma_only_one_site_changes(
    before: InMemoryStore,
    after: InMemoryStore,
    key: Uuid,
    change: spec_fn(SiteView) -> SiteView,
    other: Uuid,
)
    requires
        changes_site(before, after, key, change),
    ensures
        other != key ==> after.site_of_key(other) == before.site_of_key(other),
        before.site_of_key(key) matches Some(site) ==> after.site_of_key(key) == Some(change(site)),
        before.site_of_key(key) is None ==> after.site_of_key(key) is None,
        after.challenges@ == before.challenges@,
        after.same_counts(before),
{
    if after.sites@.contains_key(other) {
        assert(after.site_map()[other] == after.sites@[other]@);
    }
    if before.sites@.contains_key(other) {
        assert(before.site_map()[other] == before.sites@[other]@);
    }
    if after.sites@.contains_key(key) {
        assert(after.site_map()[key] == after.sites@[key]@);
    }
    assert(after.site_map().contains_key(other) <==> after.sites@.contains_key(other));
    assert(before.site_map().contains_key(other) <==> before.sites@.contains_key(other));
    assert(after.site_map().contains_key(key) <==> after.sites@.contains_key(key));
    assert(before.site_map().contains_key(key) <==> before.sites@.contains_key(key));
}

/// A rotated secret is worth nothing, the new one leads to the site, and the secrets of all
/// other sites lead where they led.
pub proof fn lemma_rotation(
    before: InMemoryStore,
    after: InMemoryStore,
    id: Seq<char>,
    secret: Seq<u8>,
    r: Result<(Uuid, String), Refusal>,
    key: Uuid,
    site: SiteView,
    other: Seq<char>,
)
    requires
        rotates(before, after, id, secret, r),
        crate::ident::uuid_of_text(id) == Ok::<u128, Seq<char>>(key),
        before.site_of_key(key) == Some(site),
    ensures
        r matches Ok(told) && told.0 == key && told.1@ == crate::crypto::hex_text(secret),
        after.secrets@.contains_key(crate::crypto::hex_text(secret)),
        after.secrets@[crate::crypto::hex_text(secret)] == key,
        site.secret_key != crate::crypto::hex_text(secret) ==> !after.secrets@.contains_key(
            site.secret_key,
        ),
        other != site.secret_key && other != crate::crypto::hex_text(secret) ==> (
        after.secrets@.contains_key(other) <==> before.secrets@.contains_key(other)),
        other != site.secret_key && other != crate::crypto::hex_text(secret)
            && before.secrets@.contains_key(other) ==> after.secrets@[other]
            == before.secrets@[other],
        after.site_of_key(key) matches Some(now) && now.name == site.name && now.policy
            == site.policy && now.allowed_origins == site.allowed_origins && now.created_at
            == site.created_at,
{
    let secret_key = crate::crypto::hex_text(secret);
    lemma_only_one_site_changes(
        before,
        after,
        key,
        |site: SiteView| SiteView { secret_key, ..site },
        key,
    );
}

/// How errors of the store are told: a site that is not there with 404, anything else with 500.
pub proof fn lemma_store_errors(e: CaptchaError, failed: Seq<char>)
    ensures
        e is NotFound ==> refused_as(e, failed) == (404u16, "site not found"@),
        !(e is NotFound) ==> refused_as(e, failed) == (500u16, failed),
{
}

/// As many sessions are listed as are asked for, up to a thousand; as many hours are analysed,
/// from one to thirty days. Asking for more never shows less.
pub proof fn lemma_shown(n: u32, m: u32)
    ensures
        sessions_shown(None) == 100,
        n <= 1000 ==> sessions_shown(Some(n)) == n,
        sessions_shown(Some(n)) <= 1000,
        hours_shown(None) == 24,
        1 <= n <= 30 * 24 ==> hours_shown(Some(n)) == n,
        1 <= hours_shown(Some(n)) <= 30 * 24,
        n <= m ==> sessions_shown(Some(n)) <= sessions_shown(Some(m)) && hours_shown(Some(n))
            <= hours_shown(Some(m)),
{
}

/// A refusal has the status and the message that it is said to have.
pub proof fn lemma_refusal(r: Refusal, status: u16, message: Seq<char>)
    ensures
        is_refusal(r, status, message) <==> r.status == status && r.message@ == message,
{
}

} // verus!
