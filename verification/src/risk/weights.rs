//! The weights of the signals as one table, any subset of which a deployment can
//! override with a JSON object of `NAME: integer`.
//!
//! The defaults are the constants that stand next to the check they belong to.
//! Thresholds that are counts rather than scores are no weights: they are
//! calibrated against how browsers behave.
use vstd::prelude::*;
use vstd::string::*;

use crate::text::{join_texts, same};

verus! {

/// What each signal is worth.
#[derive(Debug, Clone, Copy, PartialEq, Eq, Structural)]
pub struct SignalWeights {
    pub rate_ip_very_high: u32,
    pub rate_ip_high: u32,
    pub rate_ip_elevated: u32,
    pub rate_site_very_high: u32,
    pub rate_site_high: u32,
    pub ua_missing: u32,
    pub ua_suspicious: u32,
    pub accept_language_missing: u32,
    pub accept_encoding_missing: u32,
    pub sec_fetch_missing: u32,
    pub client_hints_missing: u32,
    pub ip_tor: u32,
    pub ip_datacenter: u32,
    pub ip_vpn: u32,
    pub ip_residential: u32,
    pub tls_fingerprint_bad: u32,
    pub honeypot_tripped: u32,
    pub time_very_short: u32,
    pub time_short: u32,
    pub remote_ip_mismatch: u32,
    pub behavior_flatline: u32,
    pub behavior_no_pointer: u32,
    pub behavior_instant_interaction: u32,
    pub behavior_automation: u32,
    pub behavior_headless: u32,
    pub behavior_impossible_timing: u32,
    pub behavior_duplicate: u32,
}

/// The number of weights.
pub const WEIGHT_COUNT: usize = 27;

/// Every name that an override can have, in table order.
pub open spec fn weight_names() -> Seq<Seq<char>> {
    seq![
        "RATE_IP_SCORE_VERY_HIGH"@,
        "RATE_IP_SCORE_HIGH"@,
        "RATE_IP_SCORE_ELEVATED"@,
        "RATE_SITE_SCORE_VERY_HIGH"@,
        "RATE_SITE_SCORE_HIGH"@,
        "UA_MISSING_SCORE"@,
        "UA_SUSPICIOUS_SCORE"@,
        "ACCEPT_LANGUAGE_MISSING_SCORE"@,
        "ACCEPT_ENCODING_MISSING_SCORE"@,
        "SEC_FETCH_MISSING_SCORE"@,
        "CLIENT_HINTS_MISSING_SCORE"@,
        "SCORE_TOR"@,
        "SCORE_DATACENTER"@,
        "SCORE_VPN"@,
        "SCORE_RESIDENTIAL"@,
        "FINGERPRINT_BAD_SCORE"@,
        "HONEYPOT_TRIPPED_SCORE"@,
        "TIME_VERY_SHORT_SCORE"@,
        "TIME_SHORT_SCORE"@,
        "REMOTE_IP_MISMATCH_SCORE"@,
        "BEHAVIOR_FLATLINE_SCORE"@,
        "BEHAVIOR_NO_POINTER_SCORE"@,
        "BEHAVIOR_INSTANT_INTERACTION_SCORE"@,
        "BEHAVIOR_AUTOMATION_SCORE"@,
        "BEHAVIOR_HEADLESS_SCORE"@,
        "BEHAVIOR_IMPOSSIBLE_TIMING_SCORE"@,
        "BEHAVIOR_DUPLICATE_SCORE"@,
    ]
}

/// The table of the defaults.
pub open spec fn default_weights() -> SignalWeights {
    SignalWeights {
        rate_ip_very_high: crate::risk::signals::RATE_IP_SCORE_VERY_HIGH,
        rate_ip_high: crate::risk::signals::RATE_IP_SCORE_HIGH,
        rate_ip_elevated: crate::risk::signals::RATE_IP_SCORE_ELEVATED,
        rate_site_very_high: crate::risk::signals::RATE_SITE_SCORE_VERY_HIGH,
        rate_site_high: crate::risk::signals::RATE_SITE_SCORE_HIGH,
        ua_missing: crate::risk::signals::UA_MISSING_SCORE,
        ua_suspicious: crate::risk::signals::UA_SUSPICIOUS_SCORE,
        accept_language_missing: crate::risk::signals::ACCEPT_LANGUAGE_MISSING_SCORE,
        accept_encoding_missing: crate::risk::signals::ACCEPT_ENCODING_MISSING_SCORE,
        sec_fetch_missing: crate::risk::signals::SEC_FETCH_MISSING_SCORE,
        client_hints_missing: crate::risk::signals::CLIENT_HINTS_MISSING_SCORE,
        ip_tor: crate::risk::reputation::SCORE_TOR,
        ip_datacenter: crate::risk::reputation::SCORE_DATACENTER,
        ip_vpn: crate::risk::reputation::SCORE_VPN,
        ip_residential: crate::risk::reputation::SCORE_RESIDENTIAL,
        tls_fingerprint_bad: crate::risk::tls_fingerprint::FINGERPRINT_BAD_SCORE,
        honeypot_tripped: crate::risk::verify::HONEYPOT_TRIPPED_SCORE,
        time_very_short: crate::risk::verify::TIME_VERY_SHORT_SCORE,
        time_short: crate::risk::verify::TIME_SHORT_SCORE,
        remote_ip_mismatch: crate::risk::verify::REMOTE_IP_MISMATCH_SCORE,
        behavior_flatline: crate::risk::behavior::BEHAVIOR_FLATLINE_SCORE,
        behavior_no_pointer: crate::risk::behavior::BEHAVIOR_NO_POINTER_SCORE,
        behavior_instant_interaction: crate::risk::behavior::BEHAVIOR_INSTANT_INTERACTION_SCORE,
        behavior_automation: crate::risk::behavior::BEHAVIOR_AUTOMATION_SCORE,
        behavior_headless: crate::risk::behavior::BEHAVIOR_HEADLESS_SCORE,
        behavior_impossible_timing: crate::risk::behavior::BEHAVIOR_IMPOSSIBLE_TIMING_SCORE,
        behavior_duplicate: crate::risk::behavior::BEHAVIOR_DUPLICATE_SCORE,
    }
}

/// A sum of weights as a score. A score has 32 bits: a sum that has more is the highest score
/// there is.
pub open spec fn capped(sum: nat) -> u32 {
    if sum <= u32::MAX {
        sum as u32
    } else {
        u32::MAX
    }
}

impl SignalWeights {
    /// The weights in table order.
    pub open spec fn in_order(self) -> Seq<u32> {
        seq![
            self.rate_ip_very_high,
            self.rate_ip_high,
            self.rate_ip_elevated,
            self.rate_site_very_high,
            self.rate_site_high,
            self.ua_missing,
            self.ua_suspicious,
            self.accept_language_missing,
            self.accept_encoding_missing,
            self.sec_fetch_missing,
            self.client_hints_missing,
            self.ip_tor,
            self.ip_datacenter,
            self.ip_vpn,
            self.ip_residential,
            self.tls_fingerprint_bad,
            self.honeypot_tripped,
            self.time_very_short,
            self.time_short,
            self.remote_ip_mismatch,
            self.behavior_flatline,
            self.behavior_no_pointer,
            self.behavior_instant_interaction,
            self.behavior_automation,
            self.behavior_headless,
            self.behavior_impossible_timing,
            self.behavior_duplicate,
        ]
    }

    /// Every name that an override can have, in table order.
    pub fn names() -> (r: Vec<&'static str>)
        ensures
            r@.len() == WEIGHT_COUNT,
            forall|i: int| 0 <= i < WEIGHT_COUNT ==> (#[trigger] r@[i])@ == weight_names()[i],
    {
        let mut out: Vec<&'static str> = Vec::new();
        out.push("RATE_IP_SCORE_VERY_HIGH");
        out.push("RATE_IP_SCORE_HIGH");
        out.push("RATE_IP_SCORE_ELEVATED");
        out.push("RATE_SITE_SCORE_VERY_HIGH");
        out.push("RATE_SITE_SCORE_HIGH");
        out.push("UA_MISSING_SCORE");
        out.push("UA_SUSPICIOUS_SCORE");
        out.push("ACCEPT_LANGUAGE_MISSING_SCORE");
        out.push("ACCEPT_ENCODING_MISSING_SCORE");
        out.push("SEC_FETCH_MISSING_SCORE");
        out.push("CLIENT_HINTS_MISSING_SCORE");
        out.push("SCORE_TOR");
        out.push("SCORE_DATACENTER");
        out.push("SCORE_VPN");
        out.push("SCORE_RESIDENTIAL");
        out.push("FINGERPRINT_BAD_SCORE");
        out.push("HONEYPOT_TRIPPED_SCORE");
        out.push("TIME_VERY_SHORT_SCORE");
        out.push("TIME_SHORT_SCORE");
        out.push("REMOTE_IP_MISMATCH_SCORE");
        out.push("BEHAVIOR_FLATLINE_SCORE");
        out.push("BEHAVIOR_NO_POINTER_SCORE");
        out.push("BEHAVIOR_INSTANT_INTERACTION_SCORE");
        out.push("BEHAVIOR_AUTOMATION_SCORE");
        out.push("BEHAVIOR_HEADLESS_SCORE");
        out.push("BEHAVIOR_IMPOSSIBLE_TIMING_SCORE");
        out.push("BEHAVIOR_DUPLICATE_SCORE");
        out
    }

    /// The weights in table order.
    pub fn values(&self) -> (r: Vec<u32>)
        ensures
            r@ == self.in_order(),
            r@.len() == WEIGHT_COUNT,
    {
        let mut out: Vec<u32> = Vec::new();
        out.push(self.rate_ip_very_high);
        out.push(self.rate_ip_high);
        out.push(self.rate_ip_elevated);
        out.push(self.rate_site_very_high);
        out.push(self.rate_site_high);
        out.push(self.ua_missing);
        out.push(self.ua_suspicious);
        out.push(self.accept_language_missing);
        out.push(self.accept_encoding_missing);
        out.push(self.sec_fetch_missing);
        out.push(self.client_hints_missing);
        out.push(self.ip_tor);
        out.push(self.ip_datacenter);
        out.push(self.ip_vpn);
        out.push(self.ip_residential);
        out.push(self.tls_fingerprint_bad);
        out.push(self.honeypot_tripped);
        out.push(self.time_very_short);
        out.push(self.time_short);
        out.push(self.remote_ip_mismatch);
        out.push(self.behavior_flatline);
        out.push(self.behavior_no_pointer);
        out.push(self.behavior_instant_interaction);
        out.push(self.behavior_automation);
        out.push(self.behavior_headless);
        out.push(self.behavior_impossible_timing);
        out.push(self.behavior_duplicate);
        out
    }

    /// The table with the given weights, in table order.
    fn from_values(v: &Vec<u32>) -> (r: SignalWeights)
        requires
            v@.len() == WEIGHT_COUNT,
        ensures
            r.in_order() == v@,
    {
        let r = SignalWeights {
            rate_ip_very_high: v[0],
            rate_ip_high: v[1],
            rate_ip_elevated: v[2],
            rate_site_very_high: v[3],
            rate_site_high: v[4],
            ua_missing: v[5],
            ua_suspicious: v[6],
            accept_language_missing: v[7],
            accept_encoding_missing: v[8],
            sec_fetch_missing: v[9],
            client_hints_missing: v[10],
            ip_tor: v[11],
            ip_datacenter: v[12],
            ip_vpn: v[13],
            ip_residential: v[14],
            tls_fingerprint_bad: v[15],
            honeypot_tripped: v[16],
            time_very_short: v[17],
            time_short: v[18],
            remote_ip_mismatch: v[19],
            behavior_flatline: v[20],
            behavior_no_pointer: v[21],
            behavior_instant_interaction: v[22],
            behavior_automation: v[23],
            behavior_headless: v[24],
            behavior_impossible_timing: v[25],
            behavior_duplicate: v[26],
        };
        assert(r.in_order() =~= v@);
        r
    }
}

impl Default for SignalWeights {
    fn default() -> (r: Self)
        ensures
            r == default_weights(),
    {
        SignalWeights {
            rate_ip_very_high: crate::risk::signals::RATE_IP_SCORE_VERY_HIGH,
            rate_ip_high: crate::risk::signals::RATE_IP_SCORE_HIGH,
            rate_ip_elevated: crate::risk::signals::RATE_IP_SCORE_ELEVATED,
            rate_site_very_high: crate::risk::signals::RATE_SITE_SCORE_VERY_HIGH,
            rate_site_high: crate::risk::signals::RATE_SITE_SCORE_HIGH,
            ua_missing: crate::risk::signals::UA_MISSING_SCORE,
            ua_suspicious: crate::risk::signals::UA_SUSPICIOUS_SCORE,
            accept_language_missing: crate::risk::signals::ACCEPT_LANGUAGE_MISSING_SCORE,
            accept_encoding_missing: crate::risk::signals::ACCEPT_ENCODING_MISSING_SCORE,
            sec_fetch_missing: crate::risk::signals::SEC_FETCH_MISSING_SCORE,
            client_hints_missing: crate::risk::signals::CLIENT_HINTS_MISSING_SCORE,
            ip_tor: crate::risk::reputation::SCORE_TOR,
            ip_datacenter: crate::risk::reputation::SCORE_DATACENTER,
            ip_vpn: crate::risk::reputation::SCORE_VPN,
            ip_residential: crate::risk::reputation::SCORE_RESIDENTIAL,
            tls_fingerprint_bad: crate::risk::tls_fingerprint::FINGERPRINT_BAD_SCORE,
            honeypot_tripped: crate::risk::verify::HONEYPOT_TRIPPED_SCORE,
            time_very_short: crate::risk::verify::TIME_VERY_SHORT_SCORE,
            time_short: crate::risk::verify::TIME_SHORT_SCORE,
            remote_ip_mismatch: crate::risk::verify::REMOTE_IP_MISMATCH_SCORE,
            behavior_flatline: crate::risk::behavior::BEHAVIOR_FLATLINE_SCORE,
            behavior_no_pointer: crate::risk::behavior::BEHAVIOR_NO_POINTER_SCORE,
            behavior_instant_interaction: crate::risk::behavior::BEHAVIOR_INSTANT_INTERACTION_SCORE,
            behavior_automation: crate::risk::behavior::BEHAVIOR_AUTOMATION_SCORE,
            behavior_headless: crate::risk::behavior::BEHAVIOR_HEADLESS_SCORE,
            behavior_impossible_timing: crate::risk::behavior::BEHAVIOR_IMPOSSIBLE_TIMING_SCORE,
            behavior_duplicate: crate::risk::behavior::BEHAVIOR_DUPLICATE_SCORE,
        }
    }
}

/// The place of a name in a list of names.
pub open spec fn name_position(names: Seq<Seq<char>>, name: Seq<char>) -> Option<int>
    decreases names.len(),
{
    if names.len() == 0 {
        None
    } else {
        match name_position(names.drop_last(), name) {
            Some(i) => Some(i),
            None => if names.last() == name {
                Some(names.len() - 1)
            } else {
                None
            },
        }
    }
}

/// The place of a name in the table.
pub open spec fn weight_position(name: Seq<char>) -> Option<int> {
    name_position(weight_names(), name)
}

proof fn lemma_name_position(names: Seq<Seq<char>>, name: Seq<char>)
    ensures
        match name_position(names, name) {
            Some(i) => 0 <= i < names.len() && names[i] == name && (forall|j: int|
                0 <= j < i ==> names[j] != name),
            None => forall|j: int| 0 <= j < names.len() ==> names[j] != name,
        },
    decreases names.len(),
{
    if names.len() > 0 {
        lemma_name_position(names.drop_last(), name);
        assert forall|j: int| 0 <= j < names.len() - 1 implies names[j]
            == names.drop_last()[j] by {}
    }
}

/// One line of an override: a name, the non-negative integer that it was given, if
/// it was given one, and the value as it was written.
pub open spec fn entry_views(v: Seq<(String, Option<u64>, String)>) -> Seq<
    (Seq<char>, Option<u64>, Seq<char>),
> {
    Seq::new(v.len(), |i: int| (v[i].0@, v[i].1, v[i].2@))
}

/// The names and values of a JSON object, in the order in which `serde_json` walks
/// it, or the message of the error where the text is no JSON object.
pub uninterp spec fn json_entries(text: Seq<char>) -> Result<
    Seq<(Seq<char>, Option<u64>, Seq<char>)>,
    Seq<char>,
>;

/// `serde_json::from_str` into a `serde_json::Map`, each value by
/// `serde_json::Value::as_u64` and by its text. The claim is that the result
/// depends on the text alone.
#[verifier::external_body]
fn parse_json_entries(text: &str) -> (r: Result<Vec<(String, Option<u64>, String)>, String>)
    ensures
        match r {
            Ok(v) => json_entries(text@) == Ok::<
                Seq<(Seq<char>, Option<u64>, Seq<char>)>,
                Seq<char>,
            >(entry_views(v@)),
            Err(e) => json_entries(text@) == Err::<
                Seq<(Seq<char>, Option<u64>, Seq<char>)>,
                Seq<char>,
            >(e@),
        },
{
    match serde_json::from_str::<serde_json::Map<String, serde_json::Value>>(text) {
        Ok(map) => Ok(map.into_iter().map(|(k, v)| (k, v.as_u64(), v.to_string())).collect()),
        Err(e) => Err(e.to_string()),
    }
}

/// What one line of an override does to the weights.
pub open spec fn override_one(
    weights: Seq<u32>,
    entry: (Seq<char>, Option<u64>, Seq<char>),
) -> Result<Seq<u32>, Seq<char>> {
    match entry.1 {
        Some(n) if n <= u32::MAX => match weight_position(entry.0) {
            Some(i) => Ok(weights.update(i, n as u32)),
            None => Err(
                entry.0 + ": unknown weight (known: "@ + crate::text::join(weight_names(), ", "@)
                    + ")"@,
            ),
        },
        _ => Err(entry.0 + ": expected a non-negative integer, got "@ + entry.2),
    }
}

/// The weights that an override gives: the defaults, changed line by line. The
/// first bad line decides the error.
pub open spec fn overridden(entries: Seq<(Seq<char>, Option<u64>, Seq<char>)>) -> Result<
    Seq<u32>,
    Seq<char>,
>
    decreases entries.len(),
{
    if entries.len() == 0 {
        Ok(default_weights().in_order())
    } else {
        match overridden(entries.drop_last()) {
            Ok(weights) => override_one(weights, entries.last()),
            Err(e) => Err(e),
        }
    }
}

/// What the text of an override gives.
pub open spec fn parsed_weights(text: Seq<char>) -> Result<Seq<u32>, Seq<char>> {
    match json_entries(text) {
        Ok(entries) => overridden(entries),
        Err(e) => Err("not a JSON object: "@ + e),
    }
}

proof fn lemma_overridden_prefix(entries: Seq<(Seq<char>, Option<u64>, Seq<char>)>, k: int)
    requires
        0 <= k <= entries.len(),
        overridden(entries.take(k)) is Err,
    ensures
        overridden(entries) == overridden(entries.take(k)),
    decreases entries.len() - k,
{
    if k < entries.len() {
        assert(entries.take(k + 1).drop_last() == entries.take(k));
        lemma_overridden_prefix(entries, k + 1);
    } else {
        assert(entries.take(k) == entries);
    }
}

/// The defaults, changed by the given lines: names, the integers that they were
/// given, and the values as they were written.
pub fn override_weights(entries: &Vec<(String, Option<u64>, String)>) -> (r: Result<
    SignalWeights,
    String,
>)
    ensures
        match r {
            Ok(w) => overridden(entry_views(entries@)) == Ok::<Seq<u32>, Seq<char>>(w.in_order()),
            Err(e) => overridden(entry_views(entries@)) == Err::<Seq<u32>, Seq<char>>(e@),
        },
{
    let names = SignalWeights::names();
    let mut values = SignalWeights::default().values();
    let n = entries.len();
    let ghost views = entry_views(entries@);
    assert(views.take(0).len() == 0);
    let mut k: usize = 0;
    while k < n
        invariant
            k <= n,
            n == entries@.len(),
            views == entry_views(entries@),
            values@.len() == WEIGHT_COUNT,
            names@.len() == WEIGHT_COUNT,
            forall|i: int| 0 <= i < WEIGHT_COUNT ==> (#[trigger] names@[i])@ == weight_names()[i],
            overridden(views.take(k as int)) == Ok::<Seq<u32>, Seq<char>>(values@),
        decreases n - k,
    {
        let name = entries[k].0.as_str();
        let ghost entry = views[k as int];
        assert(views.take(k + 1).drop_last() == views.take(k as int));
        assert(views.take(k + 1).last() == entry);
        proof {
            if overridden(views.take(k + 1)) is Err {
                lemma_overridden_prefix(views, k + 1);
            }
        }
        let number: u32 = match entries[k].1 {
            Some(x) if x <= 0xFFFF_FFFF => x as u32,
            _ => {
                let mut e = name.to_owned();
                e.append(": expected a non-negative integer, got ");
                e.append(entries[k].2.as_str());
                return Err(e);
            },
        };
        proof {
            lemma_name_position(weight_names(), name@);
        }
        let mut i: usize = 0;
        while i < 27 && !same(names[i], name)
            invariant
                i <= 27,
                names@.len() == WEIGHT_COUNT,
                forall|i: int|
                    0 <= i < WEIGHT_COUNT ==> (#[trigger] names@[i])@ == weight_names()[i],
                forall|j: int| 0 <= j < i ==> weight_names()[j] != name@,
            decreases 27 - i,
        {
            i += 1;
        }
        if i == 27 {
            assert(weight_position(name@) is None);
            let mut e = name.to_owned();
            e.append(": unknown weight (known: ");
            e.append(join_texts(&names, ", ").as_str());
            e.append(")");
            assert(crate::text::str_views(names@) =~= weight_names());
            return Err(e);
        }
        assert(weight_position(name@) == Some(i as int));
        values.set(i, number);
        k += 1;
    }
    assert(views.take(n as int) == views);
    Ok(SignalWeights::from_values(&values))
}

/// The weights that differ from their defaults, by name, default and value.
pub open spec fn differing(names: Seq<Seq<char>>, defaults: Seq<u32>, values: Seq<u32>) -> Seq<
    (Seq<char>, u32, u32),
>
    decreases names.len(),
{
    if names.len() == 0 {
        Seq::empty()
    } else {
        let before = differing(names.drop_last(), defaults, values);
        let i = names.len() - 1;
        if values[i] != defaults[i] {
            before.push((names[i], defaults[i], values[i]))
        } else {
            before
        }
    }
}

pub open spec fn override_views(v: Seq<(&'static str, u32, u32)>) -> Seq<(Seq<char>, u32, u32)> {
    Seq::new(v.len(), |i: int| (v[i].0@, v[i].1, v[i].2))
}

impl SignalWeights {
    /// The name, default and value of every weight that differs from its default, in
    /// table order.
    pub fn overrides(&self) -> (r: Vec<(&'static str, u32, u32)>)
        ensures
            override_views(r@) == differing(
                weight_names(),
                default_weights().in_order(),
                self.in_order(),
            ),
    {
        let names = Self::names();
        let defaults = Self::default().values();
        let values = self.values();
        let mut out: Vec<(&'static str, u32, u32)> = Vec::new();
        assert(weight_names().take(0).len() == 0);
        assert(override_views(out@) =~= differing(weight_names().take(0), defaults@, values@));
        let mut i: usize = 0;
        while i < 27
            invariant
                i <= 27,
                names@.len() == 27,
                defaults@.len() == 27,
                values@.len() == 27,
                forall|j: int| 0 <= j < 27 ==> (#[trigger] names@[j])@ == weight_names()[j],
                override_views(out@) == differing(
                    weight_names().take(i as int),
                    defaults@,
                    values@,
                ),
            decreases 27 - i,
        {
            let ghost names_now = weight_names().take(i + 1);
            assert(names_now.drop_last() == weight_names().take(i as int));
            assert(names_now[i as int] == weight_names()[i as int]);
            if values[i] != defaults[i] {
                let ghost before = override_views(out@);
                out.push((names[i], defaults[i], values[i]));
                assert(override_views(out@) =~= before.push(
                    (names_now[i as int], defaults@[i as int], values@[i as int]),
                ));
            }
            i += 1;
        }
        assert(weight_names().take(27) =~= weight_names());
        out
    }

    /// The weights that a JSON object of `NAME: integer` asks for. An unknown name,
    /// or a value that is no non-negative 32-bit integer, is an error: a typo that
    /// leaves a default in place would go unnoticed.
    pub fn parse(json: &str) -> (r: Result<Self, String>)
        ensures
            match r {
                Ok(w) => parsed_weights(json@) == Ok::<Seq<u32>, Seq<char>>(w.in_order()),
                Err(e) => parsed_weights(json@) == Err::<Seq<u32>, Seq<char>>(e@),
            },
    {
        match parse_json_entries(json) {
            Ok(entries) => override_weights(&entries),
            Err(e) => {
                let mut message = "not a JSON object: ".to_owned();
                message.append(e.as_str());
                Err(message)
            },
        }
    }
}

/// What a table holds for a name that no line of an override mentions is its default.
pub proof fn lemma_unmentioned_weight_keeps_default(
    entries: Seq<(Seq<char>, Option<u64>, Seq<char>)>,
    i: int,
)
    requires
        0 <= i < WEIGHT_COUNT,
        overridden(entries) is Ok,
        forall|k: int|
            0 <= k < entries.len() ==> weight_position((#[trigger] entries[k]).0) != Some(i),
    ensures
        overridden(entries)->Ok_0.len() == WEIGHT_COUNT,
        overridden(entries)->Ok_0[i] == default_weights().in_order()[i],
    decreases entries.len(),
{
    if entries.len() > 0 {
        let rest = entries.drop_last();
        assert forall|k: int| 0 <= k < rest.len() implies weight_position((#[trigger] rest[k]).0)
            != Some(i) by {
            assert(rest[k] == entries[k]);
        }
        lemma_unmentioned_weight_keeps_default(rest, i);
        lemma_name_position(weight_names(), entries.last().0);
        assert(entries[entries.len() - 1] == entries.last());
    }
}

/// The weights that a process scores with: set at most once, and fixed from the
/// first time that they are read.
#[derive(Debug)]
pub struct WeightTable {
    pub slot: Option<SignalWeights>,
}

impl WeightTable {
    /// A table that nothing was installed in and nothing was read from.
    pub fn new() -> (r: Self)
        ensures
            r.slot is None,
    {
        WeightTable { slot: None }
    }
}

/// Installs the weights that a process scores with. A second call, or one after the
/// weights were read, is refused and hands the rejected table back.
pub fn install(table: &mut WeightTable, weights: SignalWeights) -> (r: Result<(), SignalWeights>)
    ensures
        match old(table).slot {
            None => r is Ok && final(table).slot == Some(weights),
            Some(_) => r == Err::<(), SignalWeights>(weights) && final(table).slot
                == old(table).slot,
        },
{
    match table.slot {
        None => {
            table.slot = Some(weights);
            Ok(())
        },
        Some(_) => Err(weights),
    }
}

/// The weights that a process scores with: the defaults, unless others were
/// installed before the first call.
pub fn current(table: &mut WeightTable) -> (r: SignalWeights)
    ensures
        r == (match old(table).slot {
            Some(w) => w,
            None => default_weights(),
        }),
        final(table).slot == Some(r),
{
    match table.slot {
        Some(w) => w,
        None => {
            let w = SignalWeights::default();
            table.slot = Some(w);
            w
        },
    }
}

/// The table: which name stands for which weight, and what each is worth by default.
pub proof fn lemma_weight_table(w: SignalWeights)
    ensures
        weight_names().len() == 27,
        w.in_order().len() == 27,
        weight_names()[0] == "RATE_IP_SCORE_VERY_HIGH"@ && w.in_order()[0] == w.rate_ip_very_high,
        weight_names()[1] == "RATE_IP_SCORE_HIGH"@ && w.in_order()[1] == w.rate_ip_high,
        weight_names()[2] == "RATE_IP_SCORE_ELEVATED"@ && w.in_order()[2] == w.rate_ip_elevated,
        weight_names()[3] == "RATE_SITE_SCORE_VERY_HIGH"@ && w.in_order()[3] == w.rate_site_very_high,
        weight_names()[4] == "RATE_SITE_SCORE_HIGH"@ && w.in_order()[4] == w.rate_site_high,
        weight_names()[5] == "UA_MISSING_SCORE"@ && w.in_order()[5] == w.ua_missing,
        weight_names()[6] == "UA_SUSPICIOUS_SCORE"@ && w.in_order()[6] == w.ua_suspicious,
        weight_names()[7] == "ACCEPT_LANGUAGE_MISSING_SCORE"@ && w.in_order()[7] == w.accept_language_missing,
        weight_names()[8] == "ACCEPT_ENCODING_MISSING_SCORE"@ && w.in_order()[8] == w.accept_encoding_missing,
        weight_names()[9] == "SEC_FETCH_MISSING_SCORE"@ && w.in_order()[9] == w.sec_fetch_missing,
        weight_names()[10] == "CLIENT_HINTS_MISSING_SCORE"@ && w.in_order()[10] == w.client_hints_missing,
        weight_names()[11] == "SCORE_TOR"@ && w.in_order()[11] == w.ip_tor,
        weight_names()[12] == "SCORE_DATACENTER"@ && w.in_order()[12] == w.ip_datacenter,
        weight_names()[13] == "SCORE_VPN"@ && w.in_order()[13] == w.ip_vpn,
        weight_names()[14] == "SCORE_RESIDENTIAL"@ && w.in_order()[14] == w.ip_residential,
        weight_names()[15] == "FINGERPRINT_BAD_SCORE"@ && w.in_order()[15] == w.tls_fingerprint_bad,
        weight_names()[16] == "HONEYPOT_TRIPPED_SCORE"@ && w.in_order()[16] == w.honeypot_tripped,
        weight_names()[17] == "TIME_VERY_SHORT_SCORE"@ && w.in_order()[17] == w.time_very_short,
        weight_names()[18] == "TIME_SHORT_SCORE"@ && w.in_order()[18] == w.time_short,
        weight_names()[19] == "REMOTE_IP_MISMATCH_SCORE"@ && w.in_order()[19] == w.remote_ip_mismatch,
        weight_names()[20] == "BEHAVIOR_FLATLINE_SCORE"@ && w.in_order()[20] == w.behavior_flatline,
        weight_names()[21] == "BEHAVIOR_NO_POINTER_SCORE"@ && w.in_order()[21] == w.behavior_no_pointer,
        weight_names()[22] == "BEHAVIOR_INSTANT_INTERACTION_SCORE"@ && w.in_order()[22] == w.behavior_instant_interaction,
        weight_names()[23] == "BEHAVIOR_AUTOMATION_SCORE"@ && w.in_order()[23] == w.behavior_automation,
        weight_names()[24] == "BEHAVIOR_HEADLESS_SCORE"@ && w.in_order()[24] == w.behavior_headless,
        weight_names()[25] == "BEHAVIOR_IMPOSSIBLE_TIMING_SCORE"@ && w.in_order()[25] == w.behavior_impossible_timing,
        weight_names()[26] == "BEHAVIOR_DUPLICATE_SCORE"@ && w.in_order()[26] == w.behavior_duplicate,
        default_weights().rate_ip_very_high == 30,
        default_weights().rate_ip_high == 15,
        default_weights().rate_ip_elevated == 8,
        default_weights().rate_site_very_high == 15,
        default_weights().rate_site_high == 8,
        default_weights().ua_missing == 30,
        default_weights().ua_suspicious == 25,
        default_weights().accept_language_missing == 10,
        default_weights().accept_encoding_missing == 10,
        default_weights().sec_fetch_missing == 15,
        default_weights().client_hints_missing == 15,
        default_weights().ip_tor == 40,
        default_weights().ip_datacenter == 30,
        default_weights().ip_vpn == 20,
        default_weights().ip_residential == 0,
        default_weights().tls_fingerprint_bad == 35,
        default_weights().honeypot_tripped == 100,
        default_weights().time_very_short == 50,
        default_weights().time_short == 25,
        default_weights().remote_ip_mismatch == 20,
        default_weights().behavior_flatline == 30,
        default_weights().behavior_no_pointer == 15,
        default_weights().behavior_instant_interaction == 20,
        default_weights().behavior_automation == 30,
        default_weights().behavior_headless == 20,
        default_weights().behavior_impossible_timing == 30,
        default_weights().behavior_duplicate == 30,
{
}

/// A line of an override sets the weight of its name to its number and leaves every other as it
/// was; the lines before it keep their say. A name that is not in the table, a value that is no
/// number and a number of more than 32 bits refuse the whole override.
pub proof fn lemma_override_line(
    entries: Seq<(Seq<char>, Option<u64>, Seq<char>)>,
    entry: (Seq<char>, Option<u64>, Seq<char>),
    i: int,
)
    ensures
        overridden(Seq::empty()) == Ok::<Seq<u32>, Seq<char>>(default_weights().in_order()),
        overridden(entries) is Err ==> overridden(entries.push(entry)) == overridden(entries),
        entry.1 is None ==> overridden(entries.push(entry)) is Err,
        entry.1 matches Some(n) ==> n > u32::MAX ==> overridden(entries.push(entry)) is Err,
        !weight_names().contains(entry.0) ==> overridden(entries.push(entry)) is Err,
        overridden(entries) matches Ok(before) ==> before.len() == 27 ==> (entry.1 matches Some(n)
            ==> n <= u32::MAX && 0 <= i < 27 && weight_names()[i] == entry.0 && (forall|j: int|
            0 <= j < i ==> weight_names()[j] != entry.0) ==> {
            &&& overridden(entries.push(entry)) matches Ok(after)
            &&& after.len() == 27
            &&& after[i] == n
            &&& forall|j: int| 0 <= j < 27 && j != i ==> after[j] == before[j]
        }),
{
    assert(entries.push(entry).drop_last() =~= entries);
    lemma_name_position(weight_names(), entry.0);
    if !weight_names().contains(entry.0) {
        if weight_position(entry.0) is Some {
            let k = weight_position(entry.0)->0;
            assert(weight_names()[k] == entry.0);
        }
    }
}

/// What is told of an override: exactly the weights that are not their defaults, with both.
pub proof fn lemma_differing(
    names: Seq<Seq<char>>,
    defaults: Seq<u32>,
    values: Seq<u32>,
    entry: (Seq<char>, u32, u32),
)
    ensures
        differing(names, defaults, values).contains(entry) <==> exists|i: int|
            0 <= i < names.len() && #[trigger] names[i] == entry.0 && defaults[i] == entry.1
                && values[i] == entry.2 && entry.1 != entry.2,
    decreases names.len(),
{
    if names.len() > 0 {
        let shorter = names.drop_last();
        let last = names.len() - 1;
        lemma_differing(shorter, defaults, values, entry);
        let before = differing(shorter, defaults, values);
        let all = differing(names, defaults, values);
        if all.contains(entry) {
            let k = choose|k: int| 0 <= k < all.len() && all[k] == entry;
            if k < before.len() {
                assert(before[k] == entry);
                assert(before.contains(entry));
                let i = choose|i: int|
                    0 <= i < shorter.len() && #[trigger] shorter[i] == entry.0 && defaults[i]
                        == entry.1 && values[i] == entry.2 && entry.1 != entry.2;
                assert(names[i] == entry.0);
            } else {
                assert(names[last] == entry.0);
            }
        }
        if exists|i: int|
            0 <= i < names.len() && #[trigger] names[i] == entry.0 && defaults[i] == entry.1
                && values[i] == entry.2 && entry.1 != entry.2 {
            let i = choose|i: int|
                0 <= i < names.len() && #[trigger] names[i] == entry.0 && defaults[i] == entry.1
                    && values[i] == entry.2 && entry.1 != entry.2;
            if i < last {
                assert(shorter[i] == entry.0);
                let k = choose|k: int| 0 <= k < before.len() && before[k] == entry;
                assert(all[k] == entry);
            } else {
                assert(all[all.len() - 1] == entry);
            }
        }
    }
}

/// A score is the sum where it has 32 bits, and else the highest there is; a higher sum never
/// makes a lower score.
pub proof fn lemma_capped(a: nat, b: nat)
    ensures
        a <= 0xFFFF_FFFF ==> capped(a) == a,
        a > 0xFFFF_FFFF ==> capped(a) == 0xFFFF_FFFFu32,
        a <= b ==> capped(a) <= capped(b),
{
}

/// An override that is a JSON object is read line by line, and any other text is refused.
pub proof fn lemma_parsed_weights(text: Seq<char>)
    ensures
        json_entries(text) is Err ==> parsed_weights(text) is Err,
        json_entries(text) matches Ok(entries) ==> parsed_weights(text) == overridden(entries),
{
}

} // verus!
