//! The store: live challenges, registered sites and request counts, in memory.
use std::collections::HashMap;
use vstd::hash_map::StringHashMap;
use vstd::prelude::*;

use crate::error::CaptchaError;
use crate::ident::Uuid;
use crate::net::IpAddr;
use crate::puzzle::types::Challenge;
use crate::risk::behavior::BEHAVIOR_DUPLICATE_WINDOW_SECS;
use crate::risk::signals::RATE_SUSTAINED_WINDOW_SECS;
use crate::site::types::{Site, SitePolicy, SiteView};
use crate::storage::maps::{keys_of, remove_all};
use crate::storage::rates::{BlobRates, IpRates, RateWindows};
use crate::time::{now, Timestamp, MAX_SECS};

verus! {

/// The length of the windows that requests are counted in.
pub const RATE_WINDOW_SECS: i64 = 60;

/// What is kept between requests.
pub struct InMemoryStore {
    /// The challenges that are not yet spent, by identifier.
    pub challenges: HashMap<u128, Challenge>,
    /// The sites, by key.
    pub sites: HashMap<u128, Site>,
    /// The keys of the sites, by secret.
    pub secrets: StringHashMap<u128>,
    pub ip_rates: IpRates,
    pub ip_rates_sustained: IpRates,
    pub site_rates: RateWindows,
    pub behavior_blobs: BlobRates,
}

/// A challenge has not expired.
pub open spec fn is_live(challenge: Challenge, now: Timestamp) -> bool {
    challenge.expires_at.at() > now.at()
}

/// The challenges that have not expired.
pub open spec fn live_challenges(challenges: Map<u128, Challenge>, now: Timestamp) -> Map<
    u128,
    Challenge,
> {
    challenges.restrict(Set::new(|id: u128| is_live(challenges[id], now)))
}

/// What a wrong solution does to the challenges: it counts against its own, which is
/// dropped once it has been solved wrongly `max_attempts` times.
pub open spec fn after_failed_attempt(
    challenges: Map<u128, Challenge>,
    id: Uuid,
    max_attempts: u32,
) -> Map<u128, Challenge> {
    if max_attempts == 0 || !challenges.contains_key(id) {
        challenges
    } else if challenges[id].attempts + 1 >= max_attempts {
        challenges.remove(id)
    } else {
        challenges.insert(
            id,
            Challenge { attempts: (challenges[id].attempts + 1) as u32, ..challenges[id] },
        )
    }
}

impl InMemoryStore {
    /// Every site stands under its own key and every challenge under its own identifier,
    /// and every count is over its own window.
    pub open spec fn wf(self) -> bool {
        &&& forall|key: u128| #[trigger]
            self.sites@.contains_key(key) ==> self.sites@[key].site_key == key
        &&& forall|id: u128| #[trigger]
            self.challenges@.contains_key(id) ==> self.challenges@[id].id == id
        &&& self.counts_wf()
    }

    pub open spec fn counts_wf(self) -> bool {
        &&& self.ip_rates.over(RATE_WINDOW_SECS)
        &&& self.ip_rates_sustained.over(RATE_SUSTAINED_WINDOW_SECS)
        &&& self.site_rates.window_secs == RATE_WINDOW_SECS
        &&& self.behavior_blobs.wf()
        &&& self.behavior_blobs.window_secs == BEHAVIOR_DUPLICATE_WINDOW_SECS
    }

    /// The sites, by key.
    pub open spec fn site_map(self) -> Map<u128, SiteView> {
        self.sites@.map_values(|s: Site| s@)
    }

    /// The site of a key.
    pub open spec fn site_of_key(self, key: Uuid) -> Option<SiteView> {
        if self.sites@.contains_key(key) {
            Some(self.sites@[key]@)
        } else {
            None
        }
    }

    /// The site of a secret.
    pub open spec fn site_of_secret(self, secret: Seq<char>) -> Option<SiteView> {
        if self.secrets@.contains_key(secret) {
            self.site_of_key(self.secrets@[secret])
        } else {
            None
        }
    }

    /// The secrets and the sites agree: the secret of every site leads to the site, and
    /// no other text leads anywhere.
    pub open spec fn indexed(self) -> bool {
        &&& forall|key: u128| #[trigger]
            self.sites@.contains_key(key) ==> self.secrets@.contains_key(
                self.sites@[key].secret_key@,
            ) && self.secrets@[self.sites@[key].secret_key@] == key
        &&& forall|secret: Seq<char>| #[trigger]
            self.secrets@.contains_key(secret) ==> self.sites@.contains_key(self.secrets@[secret])
                && self.sites@[self.secrets@[secret]].secret_key@ == secret
    }

    /// The challenge of an identifier.
    pub open spec fn challenge_of(self, id: Uuid) -> Option<Challenge> {
        if self.challenges@.contains_key(id) {
            Some(self.challenges@[id])
        } else {
            None
        }
    }

    /// The two stores hold the same sites.
    pub open spec fn same_sites(self, other: InMemoryStore) -> bool {
        self.sites == other.sites && self.secrets == other.secrets
    }

    /// The two stores hold the same counts.
    pub open spec fn same_counts(self, other: InMemoryStore) -> bool {
        &&& self.ip_rates == other.ip_rates
        &&& self.ip_rates_sustained == other.ip_rates_sustained
        &&& self.site_rates == other.site_rates
        &&& self.behavior_blobs == other.behavior_blobs
    }

    /// Nothing was counted yet.
    pub open spec fn counts_nothing(self) -> bool {
        &&& forall|ip: IpAddr| (#[trigger] self.ip_rates.window(ip)) is None
        &&& forall|ip: IpAddr| (#[trigger] self.ip_rates_sustained.window(ip)) is None
        &&& self.site_rates.windows@ == Map::<u128, crate::storage::rates::RateWindow>::empty()
        &&& forall|site: Uuid, fp: u64| (#[trigger] self.behavior_blobs.window(site, fp)) is None
    }

    /// What a sweep at a time leaves of a store.
    pub open spec fn swept(self, before: InMemoryStore, now: Timestamp) -> bool {
        &&& self.challenges@ == live_challenges(before.challenges@, now)
        &&& self.same_sites(before)
        &&& forall|ip: IpAddr| #[trigger]
            self.ip_rates.window(ip) == crate::storage::rates::fresh_or_none(
                before.ip_rates.window(ip),
                now.secs,
                RATE_WINDOW_SECS,
            )
        &&& forall|ip: IpAddr| #[trigger]
            self.ip_rates_sustained.window(ip) == crate::storage::rates::fresh_or_none(
                before.ip_rates_sustained.window(ip),
                now.secs,
                RATE_SUSTAINED_WINDOW_SECS,
            )
        &&& self.site_rates.windows@ == crate::storage::rates::fresh_windows(
            before.site_rates.windows@,
            now.secs,
            RATE_WINDOW_SECS,
        )
        &&& forall|site: Uuid, fp: u64| #[trigger]
            self.behavior_blobs.window(site, fp) == crate::storage::rates::fresh_or_none(
                before.behavior_blobs.window(site, fp),
                now.secs,
                BEHAVIOR_DUPLICATE_WINDOW_SECS,
            )
    }

    pub fn new() -> (r: Self)
        ensures
            r.wf(),
            r.indexed(),
            r.challenges@ == Map::<u128, Challenge>::empty(),
            r.sites@ == Map::<u128, Site>::empty(),
            r.secrets@ == Map::<Seq<char>, u128>::empty(),
            r.counts_nothing(),
    {
        InMemoryStore {
            challenges: HashMap::new(),
            sites: HashMap::new(),
            secrets: StringHashMap::new(),
            ip_rates: IpRates::new(RATE_WINDOW_SECS),
            ip_rates_sustained: IpRates::new(RATE_SUSTAINED_WINDOW_SECS),
            site_rates: RateWindows::new(RATE_WINDOW_SECS),
            behavior_blobs: BlobRates::new(BEHAVIOR_DUPLICATE_WINDOW_SECS),
        }
    }

    /// A store with sites that were kept elsewhere. Of two under the same key the later
    /// one counts.
    pub fn with_sites(sites: Vec<Site>) -> (r: Self)
        ensures
            r.wf(),
            r.challenges@ == Map::<u128, Challenge>::empty(),
            r.site_map() == sites_by_key(sites@),
            r.secrets@ == keys_by_secret(sites@),
            r.counts_nothing(),
            all_distinct(sites@) ==> r.indexed(),
    {
        let mut store = Self::new();
        let n = sites.len();
        let mut i: usize = 0;
        assert(store.site_map() =~= sites_by_key(sites@.take(0)));
        assert(store.secrets@ =~= keys_by_secret(sites@.take(0)));
        while i < n
            invariant
                i <= n,
                n == sites@.len(),
                store.wf(),
                store.challenges@ == Map::<u128, Challenge>::empty(),
                store.site_map() == sites_by_key(sites@.take(i as int)),
                store.secrets@ == keys_by_secret(sites@.take(i as int)),
                store.counts_nothing(),
                all_distinct(sites@) ==> store.indexed(),
            decreases n - i,
        {
            let ghost so_far = sites@.take(i as int);
            assert(sites@.take(i + 1).drop_last() == so_far);
            proof {
                let site = sites@[i as int];
                if all_distinct(sites@) {
                    lemma_loaded_keys(so_far, site.site_key);
                    lemma_loaded_secrets(so_far, site.secret_key@);
                    assert(store.site_map().contains_key(site.site_key)
                        == store.sites@.contains_key(site.site_key));
                }
            }
            store.store_site(&sites[i]);
            i += 1;
        }
        assert(sites@.take(n as int) == sites@);
        store
    }

    /// How many challenges are held.
    pub fn challenge_count(&self) -> (r: usize)
        ensures
            r == self.challenges@.dom().len(),
    {
        self.challenges.len()
    }

    /// How many sites are registered.
    pub fn site_count(&self) -> (r: usize)
        ensures
            r == self.sites@.dom().len(),
    {
        self.sites.len()
    }

    /// Every site, the oldest first.
    pub fn list_sites(&self) -> (r: Vec<Site>)
        requires
            self.wf(),
        ensures
            r@.len() == self.sites@.dom().len(),
            forall|i: int|
                0 <= i < r@.len() ==> self.site_of_key((#[trigger] r@[i]).site_key) == Some(
                    r@[i]@,
                ),
            forall|key: u128| #[trigger]
                self.sites@.contains_key(key) ==> exists|i: int|
                    0 <= i < r@.len() && (#[trigger] r@[i]).site_key == key,
            forall|i: int, j: int|
                0 <= i < j < r@.len() ==> (#[trigger] r@[i]).created_at.at() <= (
                #[trigger] r@[j]).created_at.at(),
    {
        let keys = keys_of(&self.sites);
        let mut out: Vec<Site> = Vec::new();
        let n = keys.len();
        let mut i: usize = 0;
        while i < n
            invariant
                i <= n,
                n == keys@.len(),
                self.wf(),
                keys@.to_set() == self.sites@.dom(),
                out@.len() == i,
                by_age(out@),
                forall|j: int|
                    0 <= j < out@.len() ==> self.site_of_key((#[trigger] out@[j]).site_key) == Some(
                        out@[j]@,
                    ),
                forall|m: int|
                    0 <= m < i ==> exists|j: int|
                        0 <= j < out@.len() && (#[trigger] out@[j]).site_key == #[trigger] keys@[m],
            decreases n - i,
        {
            let key = keys[i];
            assert(keys@.to_set().contains(key));
            let ghost before = out@;
            if let Some(site) = self.sites.get(&key) {
                let copy = site.clone();
                let at = insert_by_age(&mut out, copy);
                assert forall|m: int| 0 <= m < i + 1 implies exists|j: int|
                    0 <= j < out@.len() && (#[trigger] out@[j]).site_key
                        == #[trigger] keys@[m] by {
                    if m < i {
                        let j = choose|j: int|
                            0 <= j < before.len() && (#[trigger] before[j]).site_key == keys@[m];
                        if j < at {
                            assert(out@[j] == before[j]);
                        } else {
                            assert(out@[j + 1] == before[j]);
                        }
                    } else {
                        assert(out@[at as int].site_key == key);
                    }
                }
                assert forall|j: int| 0 <= j < out@.len() implies self.site_of_key(
                    (#[trigger] out@[j]).site_key,
                ) == Some(out@[j]@) by {
                    if j < at {
                        assert(out@[j] == before[j]);
                    } else if j > at {
                        assert(out@[j] == before[j - 1]);
                    }
                }
            }
            i += 1;
        }
        assert forall|key: u128| #[trigger] self.sites@.contains_key(key) implies exists|j: int|
            0 <= j < out@.len() && (#[trigger] out@[j]).site_key == key by {
            assert(keys@.to_set().contains(key));
            let m = choose|m: int| 0 <= m < keys@.len() && keys@[m] == key;
            assert(keys@[m] == key);
        }
        out
    }

    /// Keeps a challenge.
    pub fn store_challenge(&mut self, challenge: &Challenge)
        ensures
            final(self).challenges@ == old(self).challenges@.insert(challenge.id, *challenge),
            final(self).challenge_of(challenge.id) == Some(*challenge),
            final(self).same_sites(*old(self)),
            final(self).same_counts(*old(self)),
            old(self).wf() ==> final(self).wf(),
    {
        self.challenges.insert(challenge.id, challenge.clone());
    }

    pub fn get_challenge(&self, id: &Uuid) -> (r: Option<Challenge>)
        ensures
            r == self.challenge_of(*id),
    {
        match self.challenges.get(id) {
            Some(challenge) => Some(challenge.clone()),
            None => None,
        }
    }

    pub fn delete_challenge(&mut self, id: &Uuid)
        ensures
            final(self).challenges@ == old(self).challenges@.remove(*id),
            final(self).same_sites(*old(self)),
            final(self).same_counts(*old(self)),
            old(self).wf() ==> final(self).wf(),
    {
        self.challenges.remove(id);
    }

    /// Spends a challenge. It can be spent once: the next to try does not find it.
    pub fn consume_challenge(&mut self, challenge_id: &Uuid) -> (r: Result<(), CaptchaError>)
        ensures
            final(self).challenges@ == old(self).challenges@.remove(*challenge_id),
            final(self).challenge_of(*challenge_id) is None,
            final(self).same_sites(*old(self)),
            final(self).same_counts(*old(self)),
            old(self).wf() ==> final(self).wf(),
            r == if old(self).challenges@.contains_key(*challenge_id) {
                Ok::<(), CaptchaError>(())
            } else {
                Err(CaptchaError::ChallengeNotFound)
            },
    {
        match self.challenges.remove(challenge_id) {
            Some(_) => Ok(()),
            None => Err(CaptchaError::ChallengeNotFound),
        }
    }

    /// Counts a wrong solution against a challenge, and drops the challenge once there
    /// have been `max_attempts`; zero is no limit. Says whether it was dropped.
    pub fn register_failed_attempt(&mut self, challenge_id: &Uuid, max_attempts: u32) -> (r: bool)
        requires
            max_attempts > 0 ==> (old(self).challenge_of(*challenge_id) matches Some(c)
                ==> c.attempts < u32::MAX),
        ensures
            final(self).challenges@ == after_failed_attempt(
                old(self).challenges@,
                *challenge_id,
                max_attempts,
            ),
            final(self).same_sites(*old(self)),
            final(self).same_counts(*old(self)),
            old(self).wf() ==> final(self).wf(),
            r == (old(self).challenges@.contains_key(*challenge_id)
                && !final(self).challenges@.contains_key(*challenge_id)),
    {
        if max_attempts == 0 {
            return false;
        }
        match self.challenges.remove(challenge_id) {
            Some(mut challenge) => {
                challenge.attempts = challenge.attempts + 1;
                if challenge.attempts >= max_attempts {
                    return true;
                }
                self.challenges.insert(*challenge_id, challenge);
                assert(self.challenges@ =~= after_failed_attempt(
                    old(self).challenges@,
                    *challenge_id,
                    max_attempts,
                ));
                false
            },
            None => {
                assert(self.challenges@ =~= old(self).challenges@);
                false
            },
        }
    }

    /// Keeps a site, under its key and under its secret.
    pub fn store_site(&mut self, site: &Site)
        ensures
            final(self).site_map() == old(self).site_map().insert(site.site_key, site@),
            final(self).secrets@ == old(self).secrets@.insert(site.secret_key@, site.site_key),
            final(self).site_of_key(site.site_key) == Some(site@),
            final(self).site_of_secret(site.secret_key@) == Some(site@),
            final(self).challenges == old(self).challenges,
            final(self).same_counts(*old(self)),
            forall|key: u128|
                key != site.site_key ==> #[trigger] final(self).site_of_key(key) == old(
                    self,
                ).site_of_key(key),
            forall|key: u128| #[trigger]
                final(self).sites@.contains_key(key) <==> old(self).sites@.contains_key(key) || key
                    == site.site_key,
            old(self).wf() ==> final(self).wf(),
            old(self).indexed() && !old(self).sites@.contains_key(site.site_key) && !old(
                self,
            ).secrets@.contains_key(site.secret_key@) ==> final(self).indexed(),
    {
        let copy = site.clone();
        let key = copy.site_key;
        let secret = copy.secret_key.clone();
        self.sites.insert(key, copy);
        self.secrets.insert(secret, key);
        assert(self.site_map() =~= old(self).site_map().insert(site.site_key, site@));
        assert(self.sites@[key].secret_key@ == site@.secret_key);
        assert forall|k: u128|
            k != site.site_key implies #[trigger] self.site_of_key(k) == old(self).site_of_key(
            k,
        ) by {}
        assert forall|k: u128| old(self).sites@.contains_key(k) && k
            != key implies #[trigger] self.sites@[k] == old(self).sites@[k] by {}
    }

    pub fn get_site_by_key(&self, site_key: &Uuid) -> (r: Option<Site>)
        ensures
            match r {
                Some(site) => self.site_of_key(*site_key) == Some(site@),
                None => self.site_of_key(*site_key) is None,
            },
    {
        match self.sites.get(site_key) {
            Some(site) => Some(site.clone()),
            None => None,
        }
    }

    pub fn get_site_by_secret(&self, secret: &str) -> (r: Option<Site>)
        ensures
            match r {
                Some(site) => self.site_of_secret(secret@) == Some(site@),
                None => self.site_of_secret(secret@) is None,
            },
    {
        match self.secrets.get(secret) {
            Some(key) => self.get_site_by_key(key),
            None => None,
        }
    }

    /// Gives a site another secret. The old one is of no use from then on.
    pub fn rotate_site_secret(&mut self, site_key: &Uuid, new_secret: String) -> (r: Result<
        (),
        CaptchaError,
    >)
        ensures
            final(self).challenges == old(self).challenges,
            final(self).same_counts(*old(self)),
            match old(self).site_of_key(*site_key) {
                None => r == Err::<(), CaptchaError>(CaptchaError::NotFound) && final(self).sites@
                    == old(self).sites@ && final(self).secrets == old(self).secrets,
                Some(site) => {
                    &&& r == Ok::<(), CaptchaError>(())
                    &&& final(self).site_map() == old(self).site_map().insert(
                        *site_key,
                        SiteView { secret_key: new_secret@, ..site },
                    )
                    &&& final(self).secrets@ == old(self).secrets@.remove(site.secret_key).insert(
                        new_secret@,
                        *site_key,
                    )
                    &&& final(self).site_of_secret(new_secret@) == Some(
                        SiteView { secret_key: new_secret@, ..site },
                    )
                    &&& site.secret_key != new_secret@ ==> final(self).site_of_secret(
                        site.secret_key,
                    ) is None
                    &&& old(self).indexed() && (!old(self).secrets@.contains_key(new_secret@)
                        || new_secret@ == site.secret_key) ==> final(self).indexed()
                },
            },
            old(self).wf() ==> final(self).wf(),
    {
        match self.sites.remove(site_key) {
            None => {
                assert(self.sites@ =~= old(self).sites@);
                Err(CaptchaError::NotFound)
            },
            Some(mut site) => {
                let ghost view = site@;
                self.secrets.remove(site.secret_key.as_str());
                site.secret_key = new_secret.clone();
                assert(site@ =~= (SiteView { secret_key: new_secret@, ..view }));
                self.sites.insert(*site_key, site);
                self.secrets.insert(new_secret, *site_key);
                assert(self.site_map() =~= old(self).site_map().insert(
                    *site_key,
                    SiteView { secret_key: new_secret@, ..view },
                ));
                Ok(())
            },
        }
    }

    /// Gives a site another list of origins.
    pub fn update_site_origins(&mut self, site_key: &Uuid, origins: Vec<String>) -> (r: Result<
        (),
        CaptchaError,
    >)
        ensures
            final(self).challenges == old(self).challenges,
            final(self).secrets == old(self).secrets,
            final(self).same_counts(*old(self)),
            match old(self).site_of_key(*site_key) {
                None => r == Err::<(), CaptchaError>(CaptchaError::NotFound) && final(self).sites@
                    == old(self).sites@,
                Some(site) => {
                    &&& r == Ok::<(), CaptchaError>(())
                    &&& final(self).site_map() == old(self).site_map().insert(
                        *site_key,
                        SiteView {
                            allowed_origins: crate::text::string_views(origins@),
                            ..site
                        },
                    )
                },
            },
            old(self).wf() ==> final(self).wf(),
            old(self).indexed() ==> final(self).indexed(),
    {
        match self.sites.remove(site_key) {
            None => {
                assert(self.sites@ =~= old(self).sites@);
                Err(CaptchaError::NotFound)
            },
            Some(mut site) => {
                let ghost view = site@;
                site.allowed_origins = origins;
                let ghost changed = SiteView {
                    allowed_origins: crate::text::string_views(origins@),
                    ..view
                };
                assert(site@ =~= changed);
                self.sites.insert(*site_key, site);
                assert(self.site_map() =~= old(self).site_map().insert(*site_key, changed));
                Ok(())
            },
        }
    }

    /// Gives a site another name. Nothing is looked up by a name.
    pub fn update_site_name(&mut self, site_key: &Uuid, name: String) -> (r: Result<
        (),
        CaptchaError,
    >)
        ensures
            final(self).challenges == old(self).challenges,
            final(self).secrets == old(self).secrets,
            final(self).same_counts(*old(self)),
            match old(self).site_of_key(*site_key) {
                None => r == Err::<(), CaptchaError>(CaptchaError::NotFound) && final(self).sites@
                    == old(self).sites@,
                Some(site) => {
                    &&& r == Ok::<(), CaptchaError>(())
                    &&& final(self).site_map() == old(self).site_map().insert(
                        *site_key,
                        SiteView { name: name@, ..site },
                    )
                },
            },
            old(self).wf() ==> final(self).wf(),
            old(self).indexed() ==> final(self).indexed(),
    {
        match self.sites.remove(site_key) {
            None => {
                assert(self.sites@ =~= old(self).sites@);
                Err(CaptchaError::NotFound)
            },
            Some(mut site) => {
                let ghost view = site@;
                site.name = name;
                let ghost changed = SiteView { name: name@, ..view };
                assert(site@ =~= changed);
                self.sites.insert(*site_key, site);
                assert(self.site_map() =~= old(self).site_map().insert(*site_key, changed));
                Ok(())
            },
        }
    }

    /// Gives a site another policy. Challenges that were issued keep their difficulty.
    pub fn update_site_policy(&mut self, site_key: &Uuid, policy: SitePolicy) -> (r: Result<
        (),
        CaptchaError,
    >)
        ensures
            final(self).challenges == old(self).challenges,
            final(self).secrets == old(self).secrets,
            final(self).same_counts(*old(self)),
            match old(self).site_of_key(*site_key) {
                None => r == Err::<(), CaptchaError>(CaptchaError::NotFound) && final(self).sites@
                    == old(self).sites@,
                Some(site) => {
                    &&& r == Ok::<(), CaptchaError>(())
                    &&& final(self).site_map() == old(self).site_map().insert(
                        *site_key,
                        SiteView { policy, ..site },
                    )
                },
            },
            old(self).wf() ==> final(self).wf(),
            old(self).indexed() ==> final(self).indexed(),
    {
        match self.sites.remove(site_key) {
            None => {
                assert(self.sites@ =~= old(self).sites@);
                Err(CaptchaError::NotFound)
            },
            Some(mut site) => {
                let ghost view = site@;
                site.policy = policy;
                let ghost changed = SiteView { policy, ..view };
                assert(site@ =~= changed);
                self.sites.insert(*site_key, site);
                assert(self.site_map() =~= old(self).site_map().insert(*site_key, changed));
                Ok(())
            },
        }
    }

    /// Forgets a site. Its challenges stay, and can no longer be verified.
    pub fn delete_site(&mut self, site_key: &Uuid) -> (r: Result<(), CaptchaError>)
        ensures
            final(self).challenges == old(self).challenges,
            final(self).same_counts(*old(self)),
            final(self).sites@ == old(self).sites@.remove(*site_key),
            final(self).site_of_key(*site_key) is None,
            match old(self).site_of_key(*site_key) {
                None => r == Err::<(), CaptchaError>(CaptchaError::NotFound)
                    && final(self).secrets == old(self).secrets,
                Some(site) => {
                    &&& r == Ok::<(), CaptchaError>(())
                    &&& final(self).secrets@ == old(self).secrets@.remove(site.secret_key)
                    &&& final(self).site_of_secret(site.secret_key) is None
                },
            },
            old(self).wf() ==> final(self).wf(),
            old(self).indexed() ==> final(self).indexed(),
    {
        match self.sites.remove(site_key) {
            None => Err(CaptchaError::NotFound),
            Some(site) => {
                self.secrets.remove(site.secret_key.as_str());
                Ok(())
            },
        }
    }

    /// A request from an address to a site can be counted.
    pub open spec fn counts_request(self, ip: IpAddr, site_key: Uuid, now: i64) -> bool {
        &&& crate::storage::rates::has_room(self.ip_rates.window(ip), now, RATE_WINDOW_SECS)
        &&& crate::storage::rates::has_room(
            self.ip_rates_sustained.window(ip),
            now,
            RATE_SUSTAINED_WINDOW_SECS,
        )
        &&& crate::storage::rates::has_room(
            crate::storage::rates::window_of(self.site_rates.windows@, site_key),
            now,
            RATE_WINDOW_SECS,
        )
    }

    /// Whether a request from an address to a site can be counted.
    pub fn can_count_request(&self, ip: &IpAddr, site_key: &Uuid, now: i64) -> (r: bool)
        requires
            self.wf(),
        ensures
            r == self.counts_request(*ip, *site_key, now),
    {
        self.ip_rates.room(ip, now) && self.ip_rates_sustained.room(ip, now)
            && self.site_rates.room(*site_key, now)
    }

    /// Counts a request from an address at a time.
    pub fn increment_ip_count_at(&mut self, ip: &IpAddr, now: i64) -> (r: u32)
        requires
            old(self).wf(),
            crate::storage::rates::has_room(
                old(self).ip_rates.window(*ip),
                now,
                RATE_WINDOW_SECS,
            ),
        ensures
            final(self).wf(),
            r == crate::storage::rates::bumped(
                old(self).ip_rates.window(*ip),
                now,
                RATE_WINDOW_SECS,
            ).count,
            final(self).ip_rates.window(*ip) == Some(
                crate::storage::rates::bumped(
                    old(self).ip_rates.window(*ip),
                    now,
                    RATE_WINDOW_SECS,
                ),
            ),
            forall|other: IpAddr|
                other != *ip ==> #[trigger] final(self).ip_rates.window(other) == old(
                    self,
                ).ip_rates.window(other),
            final(self).challenges == old(self).challenges,
            final(self).same_sites(*old(self)),
            final(self).ip_rates_sustained == old(self).ip_rates_sustained,
            final(self).site_rates == old(self).site_rates,
            final(self).behavior_blobs == old(self).behavior_blobs,
    {
        self.ip_rates.increment(ip, now)
    }

    /// Counts a request from an address at a time, in the sustained window.
    pub fn increment_ip_count_sustained_at(&mut self, ip: &IpAddr, now: i64) -> (r: u32)
        requires
            old(self).wf(),
            crate::storage::rates::has_room(
                old(self).ip_rates_sustained.window(*ip),
                now,
                RATE_SUSTAINED_WINDOW_SECS,
            ),
        ensures
            final(self).wf(),
            r == crate::storage::rates::bumped(
                old(self).ip_rates_sustained.window(*ip),
                now,
                RATE_SUSTAINED_WINDOW_SECS,
            ).count,
            final(self).ip_rates_sustained.window(*ip) == Some(
                crate::storage::rates::bumped(
                    old(self).ip_rates_sustained.window(*ip),
                    now,
                    RATE_SUSTAINED_WINDOW_SECS,
                ),
            ),
            forall|other: IpAddr|
                other != *ip ==> #[trigger] final(self).ip_rates_sustained.window(other)
                    == old(self).ip_rates_sustained.window(other),
            final(self).challenges == old(self).challenges,
            final(self).same_sites(*old(self)),
            final(self).ip_rates == old(self).ip_rates,
            final(self).site_rates == old(self).site_rates,
            final(self).behavior_blobs == old(self).behavior_blobs,
    {
        self.ip_rates_sustained.increment(ip, now)
    }

    /// Counts a request to a site at a time.
    pub fn increment_site_count_at(&mut self, site_key: &Uuid, now: i64) -> (r: u32)
        requires
            old(self).wf(),
            crate::storage::rates::has_room(
                crate::storage::rates::window_of(old(self).site_rates.windows@, *site_key),
                now,
                RATE_WINDOW_SECS,
            ),
        ensures
            final(self).wf(),
            r == crate::storage::rates::bumped(
                crate::storage::rates::window_of(old(self).site_rates.windows@, *site_key),
                now,
                RATE_WINDOW_SECS,
            ).count,
            final(self).site_rates.windows@ == old(self).site_rates.windows@.insert(
                *site_key,
                crate::storage::rates::bumped(
                    crate::storage::rates::window_of(old(self).site_rates.windows@, *site_key),
                    now,
                    RATE_WINDOW_SECS,
                ),
            ),
            final(self).challenges == old(self).challenges,
            final(self).same_sites(*old(self)),
            final(self).ip_rates == old(self).ip_rates,
            final(self).ip_rates_sustained == old(self).ip_rates_sustained,
            final(self).behavior_blobs == old(self).behavior_blobs,
    {
        self.site_rates.increment(*site_key, now)
    }

    /// Counts a behaviour report that a site received at a time.
    pub fn increment_behavior_blob_count_at(
        &mut self,
        site_key: &Uuid,
        fingerprint: u64,
        now: i64,
    ) -> (r: u32)
        requires
            old(self).wf(),
            crate::storage::rates::has_room(
                old(self).behavior_blobs.window(*site_key, fingerprint),
                now,
                BEHAVIOR_DUPLICATE_WINDOW_SECS,
            ),
        ensures
            final(self).wf(),
            r == crate::storage::rates::bumped(
                old(self).behavior_blobs.window(*site_key, fingerprint),
                now,
                BEHAVIOR_DUPLICATE_WINDOW_SECS,
            ).count,
            final(self).behavior_blobs.window(*site_key, fingerprint) == Some(
                crate::storage::rates::bumped(
                    old(self).behavior_blobs.window(*site_key, fingerprint),
                    now,
                    BEHAVIOR_DUPLICATE_WINDOW_SECS,
                ),
            ),
            forall|s: Uuid, f: u64|
                !(s == *site_key && f == fingerprint) ==> #[trigger] final(self).behavior_blobs.window(s, f)
                    == old(self).behavior_blobs.window(s, f),
            final(self).challenges == old(self).challenges,
            final(self).same_sites(*old(self)),
            final(self).ip_rates == old(self).ip_rates,
            final(self).ip_rates_sustained == old(self).ip_rates_sustained,
            final(self).site_rates == old(self).site_rates,
    {
        self.behavior_blobs.increment(*site_key, fingerprint, now)
    }

    /// Drops what has expired: challenges whose time is over, and counts of windows that
    /// are.
    pub fn cleanup_expired_at(&mut self, now: Timestamp)
        requires
            old(self).wf(),
        ensures
            final(self).wf(),
            final(self).swept(*old(self), now),
    {
        let expired = self.expired_challenges(&now);
        remove_all(&mut self.challenges, &expired);
        assert(self.challenges@ =~= live_challenges(old(self).challenges@, now));
        self.ip_rates.retain_fresh(now.secs);
        self.ip_rates_sustained.retain_fresh(now.secs);
        self.site_rates.retain_fresh(now.secs);
        self.behavior_blobs.retain_fresh(now.secs);
    }

    fn expired_challenges(&self, now: &Timestamp) -> (r: Vec<u128>)
        ensures
            forall|id: u128|
                r@.contains(id) <==> self.challenges@.contains_key(id) && !is_live(
                    self.challenges@[id],
                    *now,
                ),
    {
        let keys = keys_of(&self.challenges);
        let mut expired: Vec<u128> = Vec::new();
        let n = keys.len();
        let t = now.instant();
        let mut i: usize = 0;
        while i < n
            invariant
                i <= n,
                n == keys@.len(),
                t == now.at(),
                keys@.to_set() == self.challenges@.dom(),
                forall|j: int|
                    0 <= j < i && !is_live(self.challenges@[#[trigger] keys@[j]], *now)
                        ==> expired@.contains(keys@[j]),
                forall|j: int|
                    0 <= j < expired@.len() ==> self.challenges@.contains_key(
                        #[trigger] expired@[j],
                    ) && !is_live(self.challenges@[expired@[j]], *now),
            decreases n - i,
        {
            let ghost before = expired@;
            let key = keys[i];
            assert(keys@.to_set().contains(key));
            if let Some(challenge) = self.challenges.get(&key) {
                if !(challenge.expires_at.instant() > t) {
                    expired.push(key);
                    assert(expired@[before.len() as int] == key);
                }
            }
            assert forall|k: u128| before.contains(k) implies expired@.contains(k) by {
                let j = choose|j: int| 0 <= j < before.len() && before[j] == k;
                assert(expired@[j] == k);
            }
            i += 1;
        }
        assert forall|id: u128|
            expired@.contains(id) <==> self.challenges@.contains_key(id) && !is_live(
                self.challenges@[id],
                *now,
            ) by {
            if self.challenges@.contains_key(id) {
                assert(keys@.to_set().contains(id));
                let j = choose|j: int| 0 <= j < keys@.len() && keys@[j] == id;
                assert(keys@[j] == id);
            }
        }
        expired
    }

    /// `cleanup_expired_at` at the current time.
    pub fn cleanup_expired(&mut self)
        requires
            old(self).wf(),
        ensures
            final(self).wf(),
            exists|t: Timestamp|
                crate::time::is_clock_time(t) && #[trigger] final(self).swept(*old(self), t),
    {
        self.cleanup_expired_at(now());
    }

    /// `increment_ip_count_at` at the current time.
    pub fn increment_ip_count(&mut self, ip: &IpAddr) -> (r: u32)
        requires
            old(self).wf(),
            old(self).ip_rates.window(*ip) matches Some(w) ==> w.count < u32::MAX,
        ensures
            final(self).wf(),
            exists|t: i64|
                {
                    let w = #[trigger] crate::storage::rates::bumped(
                        old(self).ip_rates.window(*ip),
                        t,
                        RATE_WINDOW_SECS,
                    );
                    &&& 0 <= t <= MAX_SECS
                    &&& r == w.count
                    &&& final(self).ip_rates.window(*ip) == Some(w)
                },
            final(self).challenges == old(self).challenges,
            final(self).same_sites(*old(self)),
            forall|other: IpAddr|
                other != *ip ==> #[trigger] final(self).ip_rates.window(other) == old(
                    self,
                ).ip_rates.window(other),
            final(self).ip_rates_sustained == old(self).ip_rates_sustained,
            final(self).site_rates == old(self).site_rates,
            final(self).behavior_blobs == old(self).behavior_blobs,
    {
        let t = now();
        self.increment_ip_count_at(ip, t.secs)
    }

    /// `increment_ip_count_sustained_at` at the current time.
    pub fn increment_ip_count_sustained(&mut self, ip: &IpAddr) -> (r: u32)
        requires
            old(self).wf(),
            old(self).ip_rates_sustained.window(*ip) matches Some(w) ==> w.count < u32::MAX,
        ensures
            final(self).wf(),
            exists|t: i64|
                {
                    let w = #[trigger] crate::storage::rates::bumped(
                        old(self).ip_rates_sustained.window(*ip),
                        t,
                        RATE_SUSTAINED_WINDOW_SECS,
                    );
                    &&& 0 <= t <= MAX_SECS
                    &&& r == w.count
                    &&& final(self).ip_rates_sustained.window(*ip) == Some(w)
                },
            final(self).challenges == old(self).challenges,
            final(self).same_sites(*old(self)),
            forall|other: IpAddr|
                other != *ip ==> #[trigger] final(self).ip_rates_sustained.window(other)
                    == old(self).ip_rates_sustained.window(other),
            final(self).ip_rates == old(self).ip_rates,
            final(self).site_rates == old(self).site_rates,
            final(self).behavior_blobs == old(self).behavior_blobs,
    {
        let t = now();
        self.increment_ip_count_sustained_at(ip, t.secs)
    }

    /// `increment_site_count_at` at the current time.
    pub fn increment_site_count(&mut self, site_key: &Uuid) -> (r: u32)
        requires
            old(self).wf(),
            crate::storage::rates::window_of(
                old(self).site_rates.windows@,
                *site_key,
            ) matches Some(w) ==> w.count < u32::MAX,
        ensures
            final(self).wf(),
            exists|t: i64|
                {
                    let w = #[trigger] crate::storage::rates::bumped(
                        crate::storage::rates::window_of(
                            old(self).site_rates.windows@,
                            *site_key,
                        ),
                        t,
                        RATE_WINDOW_SECS,
                    );
                    &&& 0 <= t <= MAX_SECS
                    &&& r == w.count
                    &&& final(self).site_rates.windows@ == old(
                        self,
                    ).site_rates.windows@.insert(*site_key, w)
                },
            final(self).challenges == old(self).challenges,
            final(self).same_sites(*old(self)),
            final(self).ip_rates == old(self).ip_rates,
            final(self).ip_rates_sustained == old(self).ip_rates_sustained,
            final(self).behavior_blobs == old(self).behavior_blobs,
    {
        let t = now();
        self.increment_site_count_at(site_key, t.secs)
    }

    /// `increment_behavior_blob_count_at` at the current time.
    pub fn increment_behavior_blob_count(&mut self, site_key: &Uuid, fingerprint: u64) -> (r: u32)
        requires
            old(self).wf(),
            old(self).behavior_blobs.window(*site_key, fingerprint) matches Some(w) ==> w.count
                < u32::MAX,
        ensures
            final(self).wf(),
            exists|t: i64|
                {
                    let w = #[trigger] crate::storage::rates::bumped(
                        old(self).behavior_blobs.window(*site_key, fingerprint),
                        t,
                        BEHAVIOR_DUPLICATE_WINDOW_SECS,
                    );
                    &&& 0 <= t <= MAX_SECS
                    &&& r == w.count
                    &&& final(self).behavior_blobs.window(*site_key, fingerprint)
                        == Some(w)
                },
            final(self).challenges == old(self).challenges,
            forall|s: Uuid, f: u64|
                !(s == *site_key && f == fingerprint) ==> #[trigger] final(self).behavior_blobs.window(s, f)
                    == old(self).behavior_blobs.window(s, f),
            final(self).same_sites(*old(self)),
            final(self).ip_rates == old(self).ip_rates,
            final(self).ip_rates_sustained == old(self).ip_rates_sustained,
            final(self).site_rates == old(self).site_rates,
    {
        let t = now();
        self.increment_behavior_blob_count_at(site_key, fingerprint, t.secs)
    }
}

impl Default for InMemoryStore {
    fn default() -> (r: Self)
        ensures
            r.wf(),
            r.indexed(),
            r.challenges@ == Map::<u128, Challenge>::empty(),
            r.sites@ == Map::<u128, Site>::empty(),
            r.secrets@ == Map::<Seq<char>, u128>::empty(),
            r.counts_nothing(),
    {
        Self::new()
    }
}

/// The sites of a list by key: of two under the same key the later one counts.
pub open spec fn sites_by_key(sites: Seq<Site>) -> Map<u128, SiteView>
    decreases sites.len(),
{
    if sites.len() == 0 {
        Map::empty()
    } else {
        sites_by_key(sites.drop_last()).insert(sites.last().site_key, sites.last()@)
    }
}

/// The keys of the sites of a list by secret.
pub open spec fn keys_by_secret(sites: Seq<Site>) -> Map<Seq<char>, u128>
    decreases sites.len(),
{
    if sites.len() == 0 {
        Map::empty()
    } else {
        keys_by_secret(sites.drop_last()).insert(
            sites.last().secret_key@,
            sites.last().site_key,
        )
    }
}

/// No two sites of a list have the same key or the same secret.
pub open spec fn all_distinct(sites: Seq<Site>) -> bool {
    forall|i: int, j: int|
        0 <= i < j < sites.len() ==> (#[trigger] sites[i]).site_key != (
        #[trigger] sites[j]).site_key && sites[i].secret_key@ != sites[j].secret_key@
}

proof fn lemma_loaded_keys(sites: Seq<Site>, key: u128)
    ensures
        sites_by_key(sites).contains_key(key) ==> exists|i: int|
            0 <= i < sites.len() && (#[trigger] sites[i]).site_key == key,
    decreases sites.len(),
{
    if sites.len() > 0 {
        let rest = sites.drop_last();
        lemma_loaded_keys(rest, key);
        if sites.last().site_key == key {
            assert(sites[sites.len() - 1].site_key == key);
        } else if sites_by_key(sites).contains_key(key) {
            let i = choose|i: int| 0 <= i < rest.len() && (#[trigger] rest[i]).site_key == key;
            assert(sites[i].site_key == key);
        }
    }
}

proof fn lemma_loaded_secrets(sites: Seq<Site>, secret: Seq<char>)
    ensures
        keys_by_secret(sites).contains_key(secret) ==> exists|i: int|
            0 <= i < sites.len() && (#[trigger] sites[i]).secret_key@ == secret,
    decreases sites.len(),
{
    if sites.len() > 0 {
        let rest = sites.drop_last();
        lemma_loaded_secrets(rest, secret);
        if sites.last().secret_key@ == secret {
            assert(sites[sites.len() - 1].secret_key@ == secret);
        } else if keys_by_secret(sites).contains_key(secret) {
            let i = choose|i: int|
                0 <= i < rest.len() && (#[trigger] rest[i]).secret_key@ == secret;
            assert(sites[i].secret_key@ == secret);
        }
    }
}

/// Sites in the order of their age, the oldest first.
pub open spec fn by_age(sites: Seq<Site>) -> bool {
    forall|i: int, j: int|
        0 <= i < j < sites.len() ==> (#[trigger] sites[i]).created_at.at() <= (
        #[trigger] sites[j]).created_at.at()
}

fn insert_by_age(sites: &mut Vec<Site>, site: Site) -> (at: usize)
    requires
        by_age(old(sites)@),
    ensures
        at <= old(sites)@.len(),
        final(sites)@ == old(sites)@.insert(at as int, site),
        by_age(final(sites)@),
{
    let t = site.created_at.instant();
    let mut at = sites.len();
    while at > 0 && sites[at - 1].created_at.instant() > t
        invariant
            at <= sites@.len(),
            t == site.created_at.at(),
            sites@ == old(sites)@,
            forall|j: int|
                at <= j < sites@.len() ==> (#[trigger] sites@[j]).created_at.at() > t,
        decreases at,
    {
        at -= 1;
    }
    let ghost before = sites@;
    sites.insert(at, site);
    assert forall|i: int, j: int| 0 <= i < j < sites@.len() implies (
    #[trigger] sites@[i]).created_at.at() <= (#[trigger] sites@[j]).created_at.at() by {
        let bi = if i < at {
            i
        } else {
            i - 1
        };
        let bj = if j < at {
            j
        } else {
            j - 1
        };
        if i != at {
            assert(sites@[i] == before[bi]);
        }
        if j != at {
            assert(sites@[j] == before[bj]);
        }
        if j == at && at > 0 {
            assert(before[at - 1].created_at.at() <= t);
            if i < at - 1 {
                assert(before[i].created_at.at() <= before[at - 1].created_at.at());
            }
        }
        if i == at {
            assert(before[bj].created_at.at() > t);
        }
    }
    at
}

/// A challenge that was kept is found again, spending it removes it, and it cannot be
/// spent twice.
pub proof fn lemma_single_use(challenges: Map<u128, Challenge>, challenge: Challenge)
    ensures
        ({
            let kept = challenges.insert(challenge.id, challenge);
            let spent = kept.remove(challenge.id);
            &&& kept.contains_key(challenge.id) && kept[challenge.id] == challenge
            &&& !spent.contains_key(challenge.id)
            &&& spent.remove(challenge.id) == spent
        }),
{
    let kept = challenges.insert(challenge.id, challenge);
    let spent = kept.remove(challenge.id);
    assert(spent.remove(challenge.id) =~= spent);
}

/// A challenge takes as many wrong solutions as the limit allows, and no more: with its
/// count at one below the limit the next one drops it, before that it stays.
pub proof fn lemma_attempt_limit(challenges: Map<u128, Challenge>, id: Uuid, max_attempts: u32)
    requires
        challenges.contains_key(id),
        max_attempts > 0,
    ensures
        after_failed_attempt(challenges, id, max_attempts).contains_key(id)
            <==> challenges[id].attempts + 1 < max_attempts,
        after_failed_attempt(challenges, id, max_attempts).contains_key(id)
            ==> after_failed_attempt(challenges, id, max_attempts)[id].attempts
            == challenges[id].attempts + 1,
        forall|other: u128|
            other != id ==> (#[trigger] after_failed_attempt(
                challenges,
                id,
                max_attempts,
            ).contains_key(other) <==> challenges.contains_key(other)),
{
}

/// The challenges after a number of wrong solutions for one of them.
pub open spec fn after_failed_attempts(
    challenges: Map<u128, Challenge>,
    id: Uuid,
    max_attempts: u32,
    times: nat,
) -> Map<u128, Challenge>
    decreases times,
{
    if times == 0 {
        challenges
    } else {
        after_failed_attempt(
            after_failed_attempts(challenges, id, max_attempts, (times - 1) as nat),
            id,
            max_attempts,
        )
    }
}

/// Of a fresh challenge the wrong solution whose number is the limit is the first to drop
/// it: before that it stays, with every wrong solution counted and nothing else changed, and
/// from then on it is gone. No other challenge is touched.
pub proof fn lemma_limit_ends_challenge(
    challenges: Map<u128, Challenge>,
    id: Uuid,
    max_attempts: u32,
    times: nat,
)
    requires
        challenges.contains_key(id),
        challenges[id].attempts == 0,
        max_attempts > 0,
    ensures
        ({
            let after = after_failed_attempts(challenges, id, max_attempts, times);
            &&& after.contains_key(id) <==> times < max_attempts
            &&& times < max_attempts ==> after[id] == (Challenge {
                attempts: times as u32,
                ..challenges[id]
            })
            &&& after.remove(id) == challenges.remove(id)
        }),
    decreases times,
{
    let after = after_failed_attempts(challenges, id, max_attempts, times);
    if times > 0 {
        lemma_limit_ends_challenge(challenges, id, max_attempts, (times - 1) as nat);
        let before = after_failed_attempts(challenges, id, max_attempts, (times - 1) as nat);
        assert(after.remove(id) =~= before.remove(id));
    }
}

/// Without a limit wrong solutions change nothing, nor do they for a challenge that is not
/// held.
pub proof fn lemma_no_attempt_limit(
    challenges: Map<u128, Challenge>,
    id: Uuid,
    max_attempts: u32,
    times: nat,
)
    requires
        max_attempts == 0 || !challenges.contains_key(id),
    ensures
        after_failed_attempts(challenges, id, max_attempts, times) == challenges,
    decreases times,
{
    if times > 0 {
        lemma_no_attempt_limit(challenges, id, max_attempts, (times - 1) as nat);
    }
}

/// Requests are counted over a minute and over a quarter of an hour, and reports over ten
/// minutes.
pub proof fn lemma_window_lengths(store: InMemoryStore)
    requires
        store.wf(),
    ensures
        store.ip_rates.over(60),
        store.ip_rates_sustained.over(900),
        store.site_rates.window_secs == 60,
        store.behavior_blobs.window_secs == 600,
{
}

/// A sweep leaves exactly the challenges that expire later, as they were.
pub proof fn lemma_live_challenges(challenges: Map<u128, Challenge>, now: Timestamp, id: u128)
    ensures
        live_challenges(challenges, now).contains_key(id) <==> challenges.contains_key(id)
            && challenges[id].expires_at.at() > now.at(),
        live_challenges(challenges, now).contains_key(id) ==> live_challenges(challenges, now)[id]
            == challenges[id],
{
}

/// A site is found by its key and by its secret, and a challenge by its identifier; nothing
/// else is found.
pub proof fn lemma_lookups(store: InMemoryStore, key: Uuid, secret: Seq<char>, id: Uuid)
    ensures
        store.site_of_key(key) matches Some(site) ==> store.sites@.contains_key(key) && site
            == store.sites@[key]@,
        store.site_of_key(key) is None <==> !store.sites@.contains_key(key),
        store.site_of_secret(secret) matches Some(site) ==> store.secrets@.contains_key(secret)
            && store.site_of_key(store.secrets@[secret]) == Some(site),
        !store.secrets@.contains_key(secret) ==> store.site_of_secret(secret) is None,
        store.challenge_of(id) matches Some(c) ==> store.challenges@.contains_key(id) && c
            == store.challenges@[id],
        store.challenge_of(id) is None <==> !store.challenges@.contains_key(id),
        store.indexed() ==> (store.site_of_secret(secret) matches Some(site) ==> site.secret_key
            == secret),
        store.indexed() ==> (store.site_of_key(key) matches Some(site) ==> store.site_of_secret(
            site.secret_key,
        ) == Some(site)),
{
}

/// Of sites that are loaded the last one under a key counts, and so does the last one with a
/// secret.
pub proof fn lemma_loaded_sites(sites: Seq<Site>, site: Site, key: u128, secret: Seq<char>)
    ensures
        sites_by_key(sites.push(site)).contains_key(site.site_key),
        sites_by_key(sites.push(site))[site.site_key] == site@,
        key != site.site_key ==> (sites_by_key(sites.push(site)).contains_key(key)
            <==> sites_by_key(sites).contains_key(key)),
        key != site.site_key && sites_by_key(sites).contains_key(key) ==> sites_by_key(
            sites.push(site),
        )[key] == sites_by_key(sites)[key],
        keys_by_secret(sites.push(site)).contains_key(site.secret_key@),
        keys_by_secret(sites.push(site))[site.secret_key@] == site.site_key,
        secret != site.secret_key@ ==> (keys_by_secret(sites.push(site)).contains_key(secret)
            <==> keys_by_secret(sites).contains_key(secret)),
{
    assert(sites.push(site).drop_last() =~= sites);
}

/// A request can be counted unless one of its three counts has reached what 32 bits hold.
pub proof fn lemma_counts_request(store: InMemoryStore, ip: IpAddr, site_key: Uuid, now: i64)
    requires
        store.ip_rates.window(ip) matches Some(w) ==> w.count < 0xFFFF_FFFF,
        store.ip_rates_sustained.window(ip) matches Some(w) ==> w.count < 0xFFFF_FFFF,
        store.site_rates.windows@.contains_key(site_key)
            ==> store.site_rates.windows@[site_key].count < 0xFFFF_FFFF,
    ensures
        store.counts_request(ip, site_key, now),
{
}

/// A sweep drops the challenges that are over and the counts that began twice their length ago,
/// and nothing else: every site, every other challenge and every other count stays.
pub proof fn lemma_swept_store(
    before: InMemoryStore,
    after: InMemoryStore,
    now: Timestamp,
    id: u128,
    ip: IpAddr,
    site: Uuid,
    fp: u64,
)
    requires
        after.swept(before, now),
    ensures
        after.challenges@.contains_key(id) <==> before.challenges@.contains_key(id)
            && before.challenges@[id].expires_at.at() > now.at(),
        after.challenges@.contains_key(id) ==> after.challenges@[id] == before.challenges@[id],
        after.sites == before.sites && after.secrets == before.secrets,
        before.ip_rates.window(ip) matches Some(w) ==> after.ip_rates.window(ip) == (if now.secs
            - w.window_start < 120 {
            Some(w)
        } else {
            None
        }),
        before.ip_rates_sustained.window(ip) matches Some(w) ==> after.ip_rates_sustained.window(ip)
            == (if now.secs - w.window_start < 1800 {
            Some(w)
        } else {
            None
        }),
        before.behavior_blobs.window(site, fp) matches Some(w) ==> after.behavior_blobs.window(
            site,
            fp,
        ) == (if now.secs - w.window_start < 1200 {
            Some(w)
        } else {
            None
        }),
        crate::storage::rates::window_of(before.site_rates.windows@, site) matches Some(w)
            ==> crate::storage::rates::window_of(after.site_rates.windows@, site) == (if now.secs
            - w.window_start < 120 {
            Some(w)
        } else {
            None
        }),
{
}

} // verus!
