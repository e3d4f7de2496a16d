//! The signals of a request: how often its source asks, and what its headers look
//! like.
use axum::http::HeaderMap;
use vstd::prelude::*;
use vstd::string::*;

use crate::headers::{text_of, was_sent};
use crate::risk::weights::SignalWeights;
use crate::text::{begins_with_text, chars_of, has_text, lowered};

verus! {

pub const RATE_IP_VERY_HIGH: u32 = 50;

pub const RATE_IP_HIGH: u32 = 20;

pub const RATE_IP_ELEVATED: u32 = 10;

pub const RATE_IP_SCORE_VERY_HIGH: u32 = 30;

pub const RATE_IP_SCORE_HIGH: u32 = 15;

pub const RATE_IP_SCORE_ELEVATED: u32 = 8;

pub const RATE_SITE_VERY_HIGH: u32 = 500;

pub const RATE_SITE_HIGH: u32 = 200;

pub const RATE_SITE_SCORE_VERY_HIGH: u32 = 15;

pub const RATE_SITE_SCORE_HIGH: u32 = 8;

/// Length of the second, sustained per-address window: it sees the source that paces
/// itself just under the thresholds of the minute.
pub const RATE_SUSTAINED_WINDOW_SECS: i64 = 900;

pub const RATE_IP_SUSTAINED_VERY_HIGH: u32 = 450;

pub const RATE_IP_SUSTAINED_HIGH: u32 = 180;

pub const RATE_IP_SUSTAINED_ELEVATED: u32 = 90;

/// The weight of the highest band whose limit a count exceeds.
pub open spec fn band_score(
    w: SignalWeights,
    count: u32,
    very_high: u32,
    high: u32,
    elevated: u32,
) -> nat {
    if count > very_high {
        w.rate_ip_very_high as nat
    } else if count > high {
        w.rate_ip_high as nat
    } else if count > elevated {
        w.rate_ip_elevated as nat
    } else {
        0
    }
}

/// What the per-address counts are worth: the worse band of the two windows.
pub open spec fn ip_rate_score(w: SignalWeights, ip_count: u32, ip_count_sustained: u32) -> nat {
    let minute = band_score(w, ip_count, RATE_IP_VERY_HIGH, RATE_IP_HIGH, RATE_IP_ELEVATED);
    let sustained = band_score(
        w,
        ip_count_sustained,
        RATE_IP_SUSTAINED_VERY_HIGH,
        RATE_IP_SUSTAINED_HIGH,
        RATE_IP_SUSTAINED_ELEVATED,
    );
    if minute >= sustained {
        minute
    } else {
        sustained
    }
}

/// What the per-site count is worth.
pub open spec fn site_rate_score(w: SignalWeights, site_count: u32) -> nat {
    if site_count > RATE_SITE_VERY_HIGH {
        w.rate_site_very_high as nat
    } else if site_count > RATE_SITE_HIGH {
        w.rate_site_high as nat
    } else {
        0
    }
}

/// What the rates of a request are worth.
pub open spec fn rate_score(
    w: SignalWeights,
    ip_count: u32,
    ip_count_sustained: u32,
    site_count: u32,
) -> nat {
    ip_rate_score(w, ip_count, ip_count_sustained) + site_rate_score(w, site_count)
}

fn ip_band(w: &SignalWeights, count: u32, very_high: u32, high: u32, elevated: u32) -> (r: u32)
    ensures
        r == band_score(*w, count, very_high, high, elevated),
{
    if count > very_high {
        w.rate_ip_very_high
    } else if count > high {
        w.rate_ip_high
    } else if count > elevated {
        w.rate_ip_elevated
    } else {
        0
    }
}

/// `score_rate_with` at the default weights.
pub fn score_rate(ip_count: u32, ip_count_sustained: u32, site_count: u32) -> (r: u32)
    ensures
        r == rate_score(
            crate::risk::weights::default_weights(),
            ip_count,
            ip_count_sustained,
            site_count,
        ),
{
    score_rate_with(&SignalWeights::default(), ip_count, ip_count_sustained, site_count)
}

/// What the rates of a request are worth: of the count of the last minute and that of
/// the last quarter hour from one address the worse band, never the sum, and the band
/// of the count for the site.
pub fn score_rate_with(
    w: &SignalWeights,
    ip_count: u32,
    ip_count_sustained: u32,
    site_count: u32,
) -> (r: u32)
    ensures
        r == crate::risk::weights::capped(
            rate_score(*w, ip_count, ip_count_sustained, site_count),
        ),
{
    let minute = ip_band(w, ip_count, RATE_IP_VERY_HIGH, RATE_IP_HIGH, RATE_IP_ELEVATED);
    let sustained = ip_band(
        w,
        ip_count_sustained,
        RATE_IP_SUSTAINED_VERY_HIGH,
        RATE_IP_SUSTAINED_HIGH,
        RATE_IP_SUSTAINED_ELEVATED,
    );
    let ip_component: u32 = if minute >= sustained {
        minute
    } else {
        sustained
    };
    let site_component: u32 = if site_count > RATE_SITE_VERY_HIGH {
        w.rate_site_very_high
    } else if site_count > RATE_SITE_HIGH {
        w.rate_site_high
    } else {
        0
    };
    ip_component.saturating_add(site_component)
}

pub const UA_MISSING_SCORE: u32 = 30;

pub const UA_SUSPICIOUS_SCORE: u32 = 25;

pub const ACCEPT_LANGUAGE_MISSING_SCORE: u32 = 10;

pub const ACCEPT_ENCODING_MISSING_SCORE: u32 = 10;

/// A user agent that claims to be a browser, on a request without any of the fetch
/// metadata that every browser attaches.
pub const SEC_FETCH_MISSING_SCORE: u32 = 15;

/// A user agent that claims to be Chromium, on a request without the client hints that
/// Chromium sends.
pub const CLIENT_HINTS_MISSING_SCORE: u32 = 15;

/// The shortest user agent that is not suspicious for its length.
pub const UA_MIN_LEN: usize = 10;

/// A lower-case user agent names a tool that is no browser.
pub open spec fn names_a_tool(ua: Seq<char>) -> bool {
    ||| crate::text::contains(ua, "curl"@)
    ||| crate::text::contains(ua, "wget"@)
    ||| crate::text::contains(ua, "python"@)
    ||| crate::text::contains(ua, "go-http"@)
    ||| crate::text::contains(ua, "libwww"@)
    ||| crate::text::contains(ua, "httpclient"@)
    ||| crate::text::contains(ua, "java/"@)
}

/// At least one of the fetch-metadata headers was sent.
pub open spec fn sends_fetch_metadata(headers: Map<Seq<char>, Seq<u8>>) -> bool {
    ||| crate::headers::sent(headers, "sec-fetch-mode"@)
    ||| crate::headers::sent(headers, "sec-fetch-site"@)
    ||| crate::headers::sent(headers, "sec-fetch-dest"@)
}

pub open spec fn weight_if(condition: bool, weight: u32) -> nat {
    if condition {
        weight as nat
    } else {
        0
    }
}

/// What the user agent of a request is worth, with what it should come with.
pub open spec fn user_agent_score(w: SignalWeights, headers: Map<Seq<char>, Seq<u8>>) -> nat {
    match crate::headers::header_text(headers, "user-agent"@) {
        None => w.ua_missing as nat,
        Some(ua) => {
            let lower = crate::text::ascii_lower(ua);
            weight_if(ua.len() < UA_MIN_LEN || names_a_tool(lower), w.ua_suspicious) + weight_if(
                "mozilla/"@.is_prefix_of(lower) && !sends_fetch_metadata(headers),
                w.sec_fetch_missing,
            ) + weight_if(
                crate::text::contains(lower, "chrome/"@) && !crate::headers::sent(headers, "sec-ch-ua"@),
                w.client_hints_missing,
            )
        },
    }
}

/// What the headers of a request are worth.
pub open spec fn header_score(w: SignalWeights, headers: Map<Seq<char>, Seq<u8>>) -> nat {
    user_agent_score(w, headers) + weight_if(
        !crate::headers::sent(headers, "accept-language"@),
        w.accept_language_missing,
    ) + weight_if(!crate::headers::sent(headers, "accept-encoding"@), w.accept_encoding_missing)
}

fn tool_named(ua: &[char]) -> (r: bool)
    ensures
        r == names_a_tool(ua@),
{
    has_text(ua, "curl") || has_text(ua, "wget") || has_text(ua, "python") || has_text(
        ua,
        "go-http",
    ) || has_text(ua, "libwww") || has_text(ua, "httpclient") || has_text(ua, "java/")
}

fn fetch_metadata_sent(headers: &HeaderMap) -> (r: bool)
    ensures
        r == sends_fetch_metadata(crate::headers::fields(*headers)),
{
    was_sent(headers, "sec-fetch-mode") || was_sent(headers, "sec-fetch-site")
        || was_sent(headers, "sec-fetch-dest")
}

/// `score_header_anomaly_with` at the default weights.
pub fn score_header_anomaly(headers: &HeaderMap) -> (r: u32)
    ensures
        r == header_score(
            crate::risk::weights::default_weights(),
            crate::headers::fields(*headers),
        ),
{
    score_header_anomaly_with(&SignalWeights::default(), headers)
}

/// What the headers of a request are worth: a missing or suspicious user agent, one
/// that claims a browser which the rest of the request contradicts, and the headers
/// that every browser sends.
pub fn score_header_anomaly_with(w: &SignalWeights, headers: &HeaderMap) -> (r: u32)
    ensures
        r == crate::risk::weights::capped(header_score(*w, crate::headers::fields(*headers))),
{
    let mut score: u32 = 0;
    match text_of(headers, "user-agent") {
        None => {
            score = score.saturating_add(w.ua_missing);
        },
        Some(ua) => {
            let cs = chars_of(ua.as_str());
            let lower = lowered(cs.as_slice());
            if cs.len() < UA_MIN_LEN || tool_named(lower.as_slice()) {
                score = score.saturating_add(w.ua_suspicious);
            }
            if begins_with_text(lower.as_slice(), "mozilla/") && !fetch_metadata_sent(headers) {
                score = score.saturating_add(w.sec_fetch_missing);
            }
            if has_text(lower.as_slice(), "chrome/") && !was_sent(headers, "sec-ch-ua") {
                score = score.saturating_add(w.client_hints_missing);
            }
        },
    }
    if !was_sent(headers, "accept-language") {
        score = score.saturating_add(w.accept_language_missing);
    }
    if !was_sent(headers, "accept-encoding") {
        score = score.saturating_add(w.accept_encoding_missing);
    }
    score
}

/// Where the per-address weights do not fall from band to band, more requests never
/// score less.
pub proof fn lemma_rate_monotone(
    w: SignalWeights,
    ip: (u32, u32),
    sustained: (u32, u32),
    site: (u32, u32),
)
    requires
        w.rate_ip_elevated <= w.rate_ip_high <= w.rate_ip_very_high,
        w.rate_site_high <= w.rate_site_very_high,
        ip.0 <= ip.1,
        sustained.0 <= sustained.1,
        site.0 <= site.1,
    ensures
        rate_score(w, ip.0, sustained.0, site.0) <= rate_score(w, ip.1, sustained.1, site.1),
{
}

/// A burst of one minute scores as it would with the minute window alone, unless the
/// sustained band is the worse; the two are never added up.
pub proof fn lemma_rate_takes_worse_band(w: SignalWeights, ip_count: u32, ip_count_sustained: u32)
    ensures
        ip_rate_score(w, ip_count, ip_count_sustained) == ip_rate_score(w, ip_count, 0)
            || ip_rate_score(w, ip_count, ip_count_sustained) == ip_rate_score(
            w,
            0,
            ip_count_sustained,
        ),
        ip_rate_score(w, ip_count, ip_count_sustained) >= ip_rate_score(w, ip_count, 0),
        ip_rate_score(w, ip_count, ip_count_sustained) >= ip_rate_score(w, 0, ip_count_sustained),
{
}

/// At the default weights the rate signal is worth at most 45.
pub proof fn lemma_default_rate_ceiling(ip_count: u32, ip_count_sustained: u32, site_count: u32)
    ensures
        rate_score(
            crate::risk::weights::default_weights(),
            ip_count,
            ip_count_sustained,
            site_count,
        ) <= 45,
{
}

/// A user agent that claims Chromium, on a request with neither the fetch metadata nor the
/// client hints that come with it, is worth by default what a missing one is.
pub proof fn lemma_copied_user_agent(headers: Map<Seq<char>, Seq<u8>>)
    requires
        crate::headers::header_text(headers, "user-agent"@) matches Some(ua) && {
            let lower = crate::text::ascii_lower(ua);
            &&& ua.len() >= UA_MIN_LEN
            &&& !names_a_tool(lower)
            &&& "mozilla/"@.is_prefix_of(lower)
            &&& crate::text::contains(lower, "chrome/"@)
        },
        !sends_fetch_metadata(headers),
        !crate::headers::sent(headers, "sec-ch-ua"@),
    ensures
        user_agent_score(crate::risk::weights::default_weights(), headers) == UA_MISSING_SCORE,
{
}

/// A user agent that holds one of the words curl, wget, python, go-http, libwww, httpclient or
/// java/, in any case of the letters, is worth at least the weight of a suspicious one, and so
/// is one of fewer than ten characters. A longer one that holds none of them is not worth that
/// weight: what is left are the marks of a browser that the request contradicts.
pub proof fn lemma_suspicious_user_agent(w: SignalWeights, headers: Map<Seq<char>, Seq<u8>>)
    requires
        crate::headers::header_text(headers, "user-agent"@) is Some,
    ensures
        ({
            let ua = crate::headers::header_text(headers, "user-agent"@)->0;
            let lower = crate::text::ascii_lower(ua);
            let suspicious = ua.len() < 10 || crate::text::contains(lower, "curl"@)
                || crate::text::contains(lower, "wget"@) || crate::text::contains(lower, "python"@)
                || crate::text::contains(lower, "go-http"@) || crate::text::contains(
                lower,
                "libwww"@,
            ) || crate::text::contains(lower, "httpclient"@) || crate::text::contains(
                lower,
                "java/"@,
            );
            &&& suspicious ==> user_agent_score(w, headers) >= w.ua_suspicious
            &&& suspicious ==> header_score(w, headers) >= w.ua_suspicious
            &&& !suspicious ==> user_agent_score(w, headers) <= w.sec_fetch_missing
                + w.client_hints_missing
            &&& !suspicious ==> user_agent_score(w, headers) == user_agent_score(
                SignalWeights { ua_suspicious: 0, ..w },
                headers,
            )
            &&& suspicious ==> user_agent_score(w, headers) == w.ua_suspicious + user_agent_score(
                SignalWeights { ua_suspicious: 0, ..w },
                headers,
            )
        }),
{
}

/// A user agent that begins with mozilla/ is worth the weight of missing fetch metadata exactly
/// where none of the three headers was sent; any one of them is enough. A user agent with
/// chrome/ in it is worth the weight of missing client hints exactly where `sec-ch-ua` was not
/// sent. Neither is looked for on any other user agent.
pub proof fn lemma_contradicted_browser(w: SignalWeights, headers: Map<Seq<char>, Seq<u8>>)
    requires
        crate::headers::header_text(headers, "user-agent"@) is Some,
    ensures
        ({
            let ua = crate::headers::header_text(headers, "user-agent"@)->0;
            let lower = crate::text::ascii_lower(ua);
            let no_metadata = !crate::headers::sent(headers, "sec-fetch-mode"@)
                && !crate::headers::sent(headers, "sec-fetch-site"@) && !crate::headers::sent(
                headers,
                "sec-fetch-dest"@,
            );
            let metadata_fires = lower.len() >= 8 && lower.subrange(0, 8) == "mozilla/"@
                && no_metadata;
            let hints_fire = crate::text::contains(lower, "chrome/"@) && !crate::headers::sent(
                headers,
                "sec-ch-ua"@,
            );
            let without = SignalWeights { sec_fetch_missing: 0, client_hints_missing: 0, ..w };
            user_agent_score(w, headers) == user_agent_score(without, headers) + (
            if metadata_fires {
                w.sec_fetch_missing as nat
            } else {
                0
            }) + (if hints_fire {
                w.client_hints_missing as nat
            } else {
                0
            })
        }),
{
    reveal_strlit("mozilla/");
    let lower = crate::text::ascii_lower(
        crate::headers::header_text(headers, "user-agent"@)->0,
    );
    if lower.len() >= 8 && lower.subrange(0, 8) == "mozilla/"@ {
        assert forall|i: int| 0 <= i < 8 implies "mozilla/"@[i] == lower[i] by {
            assert(lower.subrange(0, 8)[i] == lower[i]);
        }
        assert("mozilla/"@ =~= lower.subrange(0, 8));
        assert("mozilla/"@.is_prefix_of(lower));
    }
    if "mozilla/"@.is_prefix_of(lower) {
        assert(lower.subrange(0, 8) =~= "mozilla/"@);
    }
}

/// A request is charged for each of the headers `user-agent`, `accept-language` and
/// `accept-encoding` that it lacks, and for nothing else of a clean user agent.
pub proof fn lemma_missing_headers(w: SignalWeights, headers: Map<Seq<char>, Seq<u8>>)
    ensures
        crate::headers::header_text(headers, "user-agent"@) is None ==> user_agent_score(w, headers)
            == w.ua_missing,
        crate::headers::sent(headers, "accept-language"@) && crate::headers::sent(
            headers,
            "accept-encoding"@,
        ) ==> header_score(w, headers) == user_agent_score(w, headers),
        !crate::headers::sent(headers, "accept-language"@) && crate::headers::sent(
            headers,
            "accept-encoding"@,
        ) ==> header_score(w, headers) == user_agent_score(w, headers) + w.accept_language_missing,
        crate::headers::sent(headers, "accept-language"@) && !crate::headers::sent(
            headers,
            "accept-encoding"@,
        ) ==> header_score(w, headers) == user_agent_score(w, headers) + w.accept_encoding_missing,
        !crate::headers::sent(headers, "accept-language"@) && !crate::headers::sent(
            headers,
            "accept-encoding"@,
        ) ==> header_score(w, headers) == user_agent_score(w, headers) + w.accept_language_missing
            + w.accept_encoding_missing,
{
}

/// The bands of the rates: a count is in a band where it exceeds the band's limit, and in the
/// highest such band. Within a band the count does not matter.
pub proof fn lemma_rate_bands(w: SignalWeights, ip: u32, sustained: u32, site: u32)
    ensures
        ip > 50 ==> ip_rate_score(w, ip, 0) == w.rate_ip_very_high,
        20 < ip <= 50 ==> ip_rate_score(w, ip, 0) == w.rate_ip_high,
        10 < ip <= 20 ==> ip_rate_score(w, ip, 0) == w.rate_ip_elevated,
        ip <= 10 ==> ip_rate_score(w, ip, 0) == 0,
        sustained > 450 ==> ip_rate_score(w, 0, sustained) == w.rate_ip_very_high,
        180 < sustained <= 450 ==> ip_rate_score(w, 0, sustained) == w.rate_ip_high,
        90 < sustained <= 180 ==> ip_rate_score(w, 0, sustained) == w.rate_ip_elevated,
        sustained <= 90 ==> ip_rate_score(w, 0, sustained) == 0,
        site > 500 ==> rate_score(w, ip, sustained, site) == ip_rate_score(w, ip, sustained)
            + w.rate_site_very_high,
        200 < site <= 500 ==> rate_score(w, ip, sustained, site) == ip_rate_score(w, ip, sustained)
            + w.rate_site_high,
        site <= 200 ==> rate_score(w, ip, sustained, site) == ip_rate_score(w, ip, sustained),
{
}

} // verus!
