//! The configuration of a server, from its environment.
use vstd::hash_map::StringHashMap;
use vstd::prelude::*;
use vstd::string::*;

use crate::crypto::argon2_check;
use crate::failover::FailoverConfig;
use crate::net::is_listen_address;
use crate::puzzle::types::{Algorithm, Argon2idParams};
use crate::risk::load::LoadLadder;
use crate::text::{append_number, begins_with_text, chars_of, clone_text, is_text, lowered,
    quoted_text, same, string_of, trimmed, unsigned, Separator};

verus! {

/// The variables of an environment.
pub struct Environment {
    vars: StringHashMap<String>,
}

impl View for Environment {
    type V = Map<Seq<char>, Seq<char>>;

    closed spec fn view(&self) -> Map<Seq<char>, Seq<char>> {
        self.vars@.map_values(|s: String| s@)
    }
}

impl Environment {
    pub fn new() -> (r: Self)
        ensures
            r@ == Map::<Seq<char>, Seq<char>>::empty(),
    {
        let r = Environment { vars: StringHashMap::new() };
        assert(r@ =~= Map::<Seq<char>, Seq<char>>::empty());
        r
    }

    pub fn set(&mut self, name: &str, value: &str)
        ensures
            final(self)@ == old(self)@.insert(name@, value@),
    {
        self.vars.insert(name.to_owned(), value.to_owned());
        assert(self@ =~= old(self)@.insert(name@, value@));
    }

    pub fn get(&self, name: &str) -> (r: Option<String>)
        ensures
            match r {
                Some(value) => env_text(self@, name@) == Some(value@),
                None => env_text(self@, name@) is None,
            },
    {
        match self.vars.get(name) {
            Some(value) => Some(value.clone()),
            None => None,
        }
    }

    /// The number that a variable holds, or the default where it holds none.
    fn number(&self, name: &str, max: u64, default: u64) -> (r: u64)
        requires
            default <= max,
        ensures
            r == env_number(self@, name@, max as nat, default as nat),
            r <= max,
    {
        match self.get(name) {
            None => default,
            Some(value) => {
                let cs = chars_of(value.as_str());
                match unsigned(cs.as_slice(), max) {
                    Some(n) => n,
                    None => default,
                }
            },
        }
    }

    fn flag(&self, name: &str) -> (r: bool)
        ensures
            r == is_truthy(env_text(self@, name@)),
    {
        match self.get(name) {
            None => parse_truthy(None),
            Some(value) => parse_truthy(Some(value.as_str())),
        }
    }
}

/// What a variable holds.
pub open spec fn env_text(env: Map<Seq<char>, Seq<char>>, name: Seq<char>) -> Option<Seq<char>> {
    if env.contains_key(name) {
        Some(env[name])
    } else {
        None
    }
}

/// The number that a variable holds, or the default where it holds none.
pub open spec fn env_number(
    env: Map<Seq<char>, Seq<char>>,
    name: Seq<char>,
    max: nat,
    default: nat,
) -> nat {
    match env_text(env, name) {
        None => default,
        Some(value) => match crate::text::parse_unsigned(value, max) {
            Some(n) => n,
            None => default,
        },
    }
}

/// A number of at least one.
pub open spec fn at_least_one(n: nat) -> nat {
    if n == 0 {
        1
    } else {
        n
    }
}

/// A text that switches something on.
pub open spec fn is_truthy(value: Option<Seq<char>>) -> bool {
    match value {
        None => false,
        Some(v) => {
            let w = crate::text::ascii_lower(crate::text::trim(v));
            w == "1"@ || w == "true"@ || w == "yes"@ || w == "on"@
        },
    }
}

/// A text that switches something off.
pub open spec fn is_falsey(value: Option<Seq<char>>) -> bool {
    match value {
        None => false,
        Some(v) => {
            let w = crate::text::ascii_lower(crate::text::trim(v));
            w == "0"@ || w == "false"@ || w == "no"@ || w == "off"@
        },
    }
}

fn parse_falsey(v: &str) -> (r: bool)
    ensures
        r == is_falsey(Some(v@)),
{
    let cs = chars_of(v);
    let t = trimmed(cs.as_slice());
    let w = lowered(t.as_slice());
    let w = w.as_slice();
    is_text(w, "0") || is_text(w, "false") || is_text(w, "no") || is_text(w, "off")
}

fn parse_truthy(v: Option<&str>) -> (r: bool)
    ensures
        r == is_truthy(match v {
            Some(s) => Some(s@),
            None => None,
        }),
{
    match v {
        None => false,
        Some(s) => {
            let cs = chars_of(s);
            let t = trimmed(cs.as_slice());
            let w = lowered(t.as_slice());
            let w = w.as_slice();
            is_text(w, "1") || is_text(w, "true") || is_text(w, "yes") || is_text(w, "on")
        },
    }
}

/// The text of an optional field.
pub open spec fn optional_text(v: Option<String>) -> Option<Seq<char>> {
    match v {
        Some(s) => Some(s@),
        None => None,
    }
}

/// The lowest difficulty that takes any work.
pub const MIN_DIFFICULTY: u32 = 1;

/// A year.
pub const MAX_CHALLENGE_TTL_SECS: u64 = 31_536_000;

/// Ten years.
pub const MAX_LOG_RETENTION_HOURS: u64 = 87_600;

/// What a server is run with.
#[derive(Debug)]
pub struct AppConfig {
    /// The address and port to listen on, as text.
    pub listen_addr: String,
    /// The directory that holds the widget's files.
    pub static_dir: String,
    /// The hash function of new challenges.
    pub puzzle_algorithm: Algorithm,
    /// The difficulty of the mildest tier.
    pub default_difficulty: u32,
    /// The highest difficulty that is issued.
    pub max_difficulty: u32,
    /// The floor under the difficulty that rises with a site's traffic.
    pub load_ladder: LoadLadder,
    /// How long a challenge can be solved.
    pub challenge_ttl_secs: u64,
    /// How often expired challenges and stale counts are swept; at least a second.
    pub cleanup_interval_secs: u64,
    /// How many challenges are held at once; zero for no limit.
    pub max_active_challenges: usize,
    pub tier_checkbox_min: u32,
    pub tier_hard_pow_min: u32,
    pub tier_block_min: u32,
    /// Requests per address and minute from which on only puzzles of the highest difficulty
    /// are issued; zero for no limit.
    pub ip_hard_limit: u32,
    pub ip_reputation_file: Option<String>,
    pub signal_weights_file: Option<String>,
    pub verify_shadow_min: u32,
    pub verify_block_min: u32,
    /// Wrong solutions after which a challenge is dropped; zero for no limit.
    pub verify_max_attempts: u32,
    /// A missing behaviour report is scored like an empty one.
    pub verify_require_behavior: bool,
    /// The header in which a trusted proxy passes the TLS fingerprint.
    pub tls_fingerprint_header: Option<String>,
    pub tls_fingerprint_file: Option<String>,
    pub trusted_proxies: Option<String>,
    pub admin_db_path: Option<String>,
    /// The token of the administration; without one, it is closed.
    pub admin_token: Option<String>,
    pub site_db_path: Option<String>,
    pub cors_allowed_origins: Option<String>,
    /// Registering sites needs no token. For development only.
    pub dev_disable_admin_auth: bool,
    pub info_about_url: Option<String>,
    pub info_privacy_url: Option<String>,
    pub info_terms_url: Option<String>,
    /// Only the network of an address is written to the decision log.
    pub anonymize_log_ip: bool,
    /// How long the decision log is kept; zero for ever.
    pub log_retention_hours: u64,
    pub geoip_db_path: Option<String>,
    pub failover_enabled: bool,
    pub failover_state_path: Option<String>,
    pub failover_heartbeat_interval_secs: u64,
    pub failover_min_gap_secs: u64,
    pub failover_grace_secs: u64,
    pub failover_max_per_min: u32,
}

impl Default for AppConfig {
    fn default() -> (r: Self)
        ensures
            r.listen_addr@ == "0.0.0.0:3000"@,
            r.static_dir@ == "static"@,
            r.puzzle_algorithm == Algorithm::Argon2id(
                (Argon2idParams { m_cost: 8_192, t_cost: 2, p_cost: 1 }),
            ),
            r.default_difficulty == 5,
            r.max_difficulty == 10,
            r.load_ladder.levels@.len() == 0,
            r.challenge_ttl_secs == 300,
            r.cleanup_interval_secs == 60,
            r.max_active_challenges == 1_000_000,
            r.tier_checkbox_min == 20,
            r.tier_hard_pow_min == 40,
            r.tier_block_min == 85,
            r.ip_hard_limit == 500,
            r.ip_reputation_file is None,
            r.signal_weights_file is None,
            r.verify_shadow_min == 30,
            r.verify_block_min == 60,
            r.verify_max_attempts == 10,
            !r.verify_require_behavior,
            r.tls_fingerprint_header is None,
            r.tls_fingerprint_file is None,
            r.trusted_proxies is None,
            r.admin_db_path is None,
            r.admin_token is None,
            r.site_db_path is None,
            r.cors_allowed_origins is None,
            !r.dev_disable_admin_auth,
            r.info_about_url is None,
            r.info_privacy_url is None,
            r.info_terms_url is None,
            r.anonymize_log_ip,
            r.log_retention_hours == 72,
            r.geoip_db_path is None,
            !r.failover_enabled,
            r.failover_state_path is None,
            r.failover_heartbeat_interval_secs == 15,
            r.failover_min_gap_secs == 60,
            r.failover_grace_secs == 300,
            r.failover_max_per_min == 600,
            r.problem() is None,
    {
        AppConfig {
            listen_addr: "0.0.0.0:3000".to_owned(),
            static_dir: "static".to_owned(),
            puzzle_algorithm: Algorithm::Argon2id(Argon2idParams { m_cost: 8_192, t_cost: 2, p_cost: 1 }),
            default_difficulty: 5,
            max_difficulty: 10,
            load_ladder: LoadLadder::default(),
            challenge_ttl_secs: 300,
            cleanup_interval_secs: 60,
            max_active_challenges: 1_000_000,
            tier_checkbox_min: 20,
            tier_hard_pow_min: 40,
            tier_block_min: 85,
            ip_hard_limit: 500,
            ip_reputation_file: None,
            signal_weights_file: None,
            verify_shadow_min: 30,
            verify_block_min: 60,
            verify_max_attempts: 10,
            verify_require_behavior: false,
            tls_fingerprint_header: None,
            tls_fingerprint_file: None,
            trusted_proxies: None,
            admin_db_path: None,
            admin_token: None,
            site_db_path: None,
            cors_allowed_origins: None,
            dev_disable_admin_auth: false,
            info_about_url: None,
            info_privacy_url: None,
            info_terms_url: None,
            anonymize_log_ip: true,
            log_retention_hours: 72,
            geoip_db_path: None,
            failover_enabled: false,
            failover_state_path: None,
            failover_heartbeat_interval_secs: 15,
            failover_min_gap_secs: 60,
            failover_grace_secs: 300,
            failover_max_per_min: 600,
        }
    }
}

/// The difficulty of the mildest tier where none is configured. A hash of Argon2id costs
/// orders of magnitude more than one of SHA-256.
pub open spec fn base_difficulty(algorithm: Algorithm) -> u32 {
    match algorithm {
        Algorithm::Sha256 => 18,
        Algorithm::Argon2id(_) => 5,
    }
}

/// The highest difficulty where none is configured.
pub open spec fn top_difficulty(algorithm: Algorithm) -> u32 {
    match algorithm {
        Algorithm::Sha256 => 28,
        Algorithm::Argon2id(_) => 10,
    }
}

fn default_difficulty_for(algorithm: Algorithm) -> (r: u32)
    ensures
        r == base_difficulty(algorithm),
{
    match algorithm {
        Algorithm::Sha256 => 18,
        Algorithm::Argon2id(_) => 5,
    }
}

fn max_difficulty_for(algorithm: Algorithm) -> (r: u32)
    ensures
        r == top_difficulty(algorithm),
{
    match algorithm {
        Algorithm::Sha256 => 28,
        Algorithm::Argon2id(_) => 10,
    }
}

/// The algorithm that an environment chooses: SHA-256 by its name, and Argon2id by its
/// own, by any other, and where nothing is chosen.
pub open spec fn env_algorithm(env: Map<Seq<char>, Seq<char>>) -> Algorithm {
    if env_text(env, "PUZZLE_ALGORITHM"@) == Some("sha256"@) {
        Algorithm::Sha256
    } else {
        Algorithm::Argon2id(
            Argon2idParams {
                m_cost: env_number(env, "ARGON2_M_COST"@, u32::MAX as nat, 8_192) as u32,
                t_cost: env_number(env, "ARGON2_T_COST"@, u32::MAX as nat, 2) as u32,
                p_cost: env_number(env, "ARGON2_P_COST"@, u32::MAX as nat, 1) as u32,
            },
        )
    }
}

fn parse_algorithm(env: &Environment) -> (r: Algorithm)
    ensures
        r == env_algorithm(env@),
{
    let sha256 = match env.get("PUZZLE_ALGORITHM") {
        Some(name) => same(name.as_str(), "sha256"),
        None => false,
    };
    if sha256 {
        Algorithm::Sha256
    } else {
        let defaults = Argon2idParams::default();
        Algorithm::Argon2id(
            Argon2idParams {
                m_cost: env.number("ARGON2_M_COST", 0xFFFF_FFFF, defaults.m_cost as u64) as u32,
                t_cost: env.number("ARGON2_T_COST", 0xFFFF_FFFF, defaults.t_cost as u64) as u32,
                p_cost: env.number("ARGON2_P_COST", 0xFFFF_FFFF, defaults.p_cost as u64) as u32,
            },
        )
    }
}

/// The page that a variable names: an absolute URL, or none where the variable is blank.
/// Anything else is an error.
pub open spec fn env_info_url(env: Map<Seq<char>, Seq<char>>, name: Seq<char>) -> Result<
    Option<Seq<char>>,
    Seq<char>,
> {
    match env_text(env, name) {
        None => Ok(None),
        Some(value) => {
            let url = crate::text::trim(value);
            if url.len() == 0 {
                Ok(None)
            } else if "https://"@.is_prefix_of(url) || "http://"@.is_prefix_of(url) {
                Ok(Some(url))
            } else {
                Err(
                    name + "="@ + crate::text::quoted(value) + INFO_URL_PROBLEM@,
                )
            }
        },
    }
}

pub const INFO_URL_PROBLEM: &'static str =
    " must be an absolute http(s):// URL — relative paths and bare filenames would produce broken links in the widget. Set the full URL or unset the variable to use the bundled /static/ default.";

fn parse_info_url(env: &Environment, name: &str) -> (r: Result<Option<String>, String>)
    ensures
        match r {
            Ok(url) => env_info_url(env@, name@) == Ok::<Option<Seq<char>>, Seq<char>>(
                optional_text(url),
            ),
            Err(e) => env_info_url(env@, name@) == Err::<Option<Seq<char>>, Seq<char>>(e@),
        },
{
    match env.get(name) {
        None => Ok(None),
        Some(value) => {
            let cs = chars_of(value.as_str());
            let url = trimmed(cs.as_slice());
            let url = url.as_slice();
            if url.len() == 0 {
                Ok(None)
            } else if begins_with_text(url, "https://") || begins_with_text(url, "http://") {
                Ok(Some(string_of(url)))
            } else {
                let mut e = name.to_owned();
                e.append("=");
                e.append(quoted_text(value.as_str()).as_str());
                e.append(INFO_URL_PROBLEM);
                Err(e)
            }
        },
    }
}

/// The ladder that an environment asks for; none where it asks for none.
pub open spec fn env_ladder(env: Map<Seq<char>, Seq<char>>) -> Result<
    Seq<crate::risk::load::LoadLevel>,
    Seq<char>,
> {
    match env_text(env, "LOAD_LADDER"@) {
        None => Ok(Seq::empty()),
        Some(value) => match crate::risk::load::read_levels(
            crate::text::split(value, Separator::Char(',')),
        ) {
            Ok(levels) => Ok(crate::risk::load::descending(levels)),
            Err(e) => Err("LOAD_LADDER is invalid: "@ + e + LOAD_LADDER_HINT@),
        },
    }
}

pub const LOAD_LADDER_HINT: &'static str =
    ". Expected comma-separated threshold:difficulty pairs in leading zero bits, e.g. \"200:20,500:22,1000:24\".";

fn parse_load_ladder(env: &Environment) -> (r: Result<LoadLadder, String>)
    ensures
        match r {
            Ok(ladder) => env_ladder(env@) == Ok::<
                Seq<crate::risk::load::LoadLevel>,
                Seq<char>,
            >(ladder.levels@),
            Err(e) => env_ladder(env@) == Err::<Seq<crate::risk::load::LoadLevel>, Seq<char>>(e@),
        },
{
    match env.get("LOAD_LADDER") {
        None => {
            let ladder = LoadLadder::default();
            assert(ladder.levels@ =~= Seq::empty());
            Ok(ladder)
        },
        Some(value) => match LoadLadder::parse(value.as_str()) {
            Ok(ladder) => Ok(ladder),
            Err(e) => {
                let mut message = "LOAD_LADDER is invalid: ".to_owned();
                message.append(e.as_str());
                message.append(LOAD_LADDER_HINT);
                Err(message)
            },
        },
    }
}

pub const DIFFICULTY_PROBLEM: &'static str =
    " — both must be at least 1. A difficulty of 0 accepts any nonce without computing a hash, so every visitor (including every bot) passes the proof-of-work. Note MAX_DIFFICULTY clamps DEFAULT_DIFFICULTY, so setting it to 0 disables the PoW even when DEFAULT_DIFFICULTY looks correct.";

pub const ARGON2_PROBLEM: &'static str =
    ". The server would start and hand these to every browser, then fail *every* verification with no error. Valid ranges: m_cost >= 8 KiB, t_cost >= 1, p_cost >= 1.";

pub const TTL_PROBLEM: &'static str =
    " is out of range (expected 1..=31536000). A TTL of 0 expires every challenge before the client can solve it; an oversized value overflows the expiry timestamp and panics every puzzle request.";

pub const RETENTION_PROBLEM: &'static str =
    " is out of range (expected 0..=87600, where 0 disables pruning). An oversized value panics the retention sweeper on its first tick — the process stays up but the decision log is never pruned again.";

/// What makes settings unfit to run with, if anything does: a puzzle that takes no work,
/// costs that Argon2 does not take, a lifetime of challenges or of the log out of range.
/// The first of these decides.
pub open spec fn settings_problem(
    algorithm: Algorithm,
    default_difficulty: u32,
    max_difficulty: u32,
    challenge_ttl_secs: u64,
    log_retention_hours: u64,
) -> Option<Seq<char>> {
    if default_difficulty < MIN_DIFFICULTY || max_difficulty < MIN_DIFFICULTY {
        Some(
            "DEFAULT_DIFFICULTY="@ + crate::text::decimal(default_difficulty as nat)
                + " / MAX_DIFFICULTY="@ + crate::text::decimal(max_difficulty as nat)
                + DIFFICULTY_PROBLEM@,
        )
    } else if algorithm matches Algorithm::Argon2id(p) && !crate::crypto::argon2_costs_valid(
        p.m_cost,
        p.t_cost,
        p.p_cost,
    ) {
        let p = algorithm->Argon2id_0;
        Some(
            "ARGON2_M_COST="@ + crate::text::decimal(p.m_cost as nat) + " / ARGON2_T_COST="@
                + crate::text::decimal(p.t_cost as nat) + " / ARGON2_P_COST="@
                + crate::text::decimal(p.p_cost as nat)
                + " is not a valid Argon2id parameter set: "@ + crate::crypto::argon2_error(
                p.m_cost,
                p.t_cost,
                p.p_cost,
            ) + ARGON2_PROBLEM@,
        )
    } else if challenge_ttl_secs == 0 || challenge_ttl_secs > MAX_CHALLENGE_TTL_SECS {
        Some(
            "CHALLENGE_TTL_SECS="@ + crate::text::decimal(challenge_ttl_secs as nat)
                + TTL_PROBLEM@,
        )
    } else if log_retention_hours > MAX_LOG_RETENTION_HOURS {
        Some(
            "LOG_RETENTION_HOURS="@ + crate::text::decimal(log_retention_hours as nat)
                + RETENTION_PROBLEM@,
        )
    } else {
        None
    }
}

impl AppConfig {
    /// What makes the configuration unfit to run with, if anything does.
    pub open spec fn problem(self) -> Option<Seq<char>> {
        settings_problem(
            self.puzzle_algorithm,
            self.default_difficulty,
            self.max_difficulty,
            self.challenge_ttl_secs,
            self.log_retention_hours,
        )
    }

    /// The configuration itself where it is fit to run with, and what is wrong with it
    /// where a server would look healthy without protecting anything.
    pub fn validated(self) -> (r: Result<Self, String>)
        ensures
            match self.problem() {
                None => r == Ok::<Self, String>(self),
                Some(message) => r is Err && r->Err_0@ == message,
            },
    {
        if self.default_difficulty < MIN_DIFFICULTY || self.max_difficulty < MIN_DIFFICULTY {
            let mut e = "DEFAULT_DIFFICULTY=".to_owned();
            append_number(&mut e, self.default_difficulty as u64);
            e.append(" / MAX_DIFFICULTY=");
            append_number(&mut e, self.max_difficulty as u64);
            e.append(DIFFICULTY_PROBLEM);
            return Err(e);
        }
        if let Algorithm::Argon2id(p) = self.puzzle_algorithm {
            if let Err(reason) = argon2_check(p.m_cost, p.t_cost, p.p_cost) {
                let mut e = "ARGON2_M_COST=".to_owned();
                append_number(&mut e, p.m_cost as u64);
                e.append(" / ARGON2_T_COST=");
                append_number(&mut e, p.t_cost as u64);
                e.append(" / ARGON2_P_COST=");
                append_number(&mut e, p.p_cost as u64);
                e.append(" is not a valid Argon2id parameter set: ");
                e.append(reason.as_str());
                e.append(ARGON2_PROBLEM);
                return Err(e);
            }
        }
        if self.challenge_ttl_secs == 0 || self.challenge_ttl_secs > MAX_CHALLENGE_TTL_SECS {
            let mut e = "CHALLENGE_TTL_SECS=".to_owned();
            append_number(&mut e, self.challenge_ttl_secs);
            e.append(TTL_PROBLEM);
            return Err(e);
        }
        if self.log_retention_hours > MAX_LOG_RETENTION_HOURS {
            let mut e = "LOG_RETENTION_HOURS=".to_owned();
            append_number(&mut e, self.log_retention_hours);
            e.append(RETENTION_PROBLEM);
            return Err(e);
        }
        Ok(self)
    }

    /// The settings of client failover.
    pub fn failover_config(&self) -> (r: FailoverConfig)
        ensures
            r.enabled == self.failover_enabled,
            r.state_path == self.failover_state_path,
            r.heartbeat_interval_secs == self.failover_heartbeat_interval_secs,
            r.min_gap_secs == self.failover_min_gap_secs,
            r.grace_secs == self.failover_grace_secs,
            r.max_per_min == self.failover_max_per_min,
    {
        FailoverConfig {
            enabled: self.failover_enabled,
            state_path: clone_text(&self.failover_state_path),
            heartbeat_interval_secs: self.failover_heartbeat_interval_secs,
            min_gap_secs: self.failover_min_gap_secs,
            grace_secs: self.failover_grace_secs,
            max_per_min: self.failover_max_per_min,
        }
    }

    /// The configuration is what the environment asks for: every setting is taken from
    /// its variable, and is its default where the variable is unset or cannot be read.
    pub open spec fn follows(self, env: Map<Seq<char>, Seq<char>>) -> bool {
        &&& self.listen_addr@ == (match env_text(env, "LISTEN_ADDR"@) {
            Some(v) if crate::net::writes_listen_address(v) => v,
            _ => "0.0.0.0:3000"@,
        })
        &&& self.static_dir@ == (match env_text(env, "STATIC_DIR"@) {
            Some(v) => v,
            None => "static"@,
        })
        &&& self.puzzle_algorithm == env_algorithm(env)
        &&& self.default_difficulty == env_number(
            env,
            "DEFAULT_DIFFICULTY"@,
            u32::MAX as nat,
            base_difficulty(env_algorithm(env)) as nat,
        )
        &&& self.max_difficulty == env_number(
            env,
            "MAX_DIFFICULTY"@,
            u32::MAX as nat,
            top_difficulty(env_algorithm(env)) as nat,
        )
        &&& env_ladder(env) == Ok::<Seq<crate::risk::load::LoadLevel>, Seq<char>>(
            self.load_ladder.levels@,
        )
        &&& self.challenge_ttl_secs == env_number(env, "CHALLENGE_TTL_SECS"@, u64::MAX as nat, 300)
        &&& self.cleanup_interval_secs == at_least_one(env_number(env, "CLEANUP_INTERVAL_SECS"@, u64::MAX as nat, 60))
        &&& self.max_active_challenges == env_number(env, "MAX_ACTIVE_CHALLENGES"@, usize::MAX as nat, 1_000_000)
        &&& self.tier_checkbox_min == env_number(env, "TIER_CHECKBOX_MIN"@, u32::MAX as nat, 20)
        &&& self.tier_hard_pow_min == env_number(env, "TIER_HARD_POW_MIN"@, u32::MAX as nat, 40)
        &&& self.tier_block_min == env_number(env, "TIER_BLOCK_MIN"@, u32::MAX as nat, 85)
        &&& self.ip_hard_limit == env_number(env, "IP_HARD_LIMIT"@, u32::MAX as nat, 500)
        &&& self.verify_shadow_min == env_number(env, "VERIFY_SHADOW_MIN"@, u32::MAX as nat, 30)
        &&& self.verify_block_min == env_number(env, "VERIFY_BLOCK_MIN"@, u32::MAX as nat, 60)
        &&& self.verify_max_attempts == env_number(env, "VERIFY_MAX_ATTEMPTS"@, u32::MAX as nat, 10)
        &&& self.log_retention_hours == env_number(env, "LOG_RETENTION_HOURS"@, u64::MAX as nat, 72)
        &&& self.failover_heartbeat_interval_secs == at_least_one(env_number(env, "FAILOVER_HEARTBEAT_INTERVAL_SECS"@, u64::MAX as nat, 15))
        &&& self.failover_min_gap_secs == env_number(env, "FAILOVER_MIN_GAP_SECS"@, u64::MAX as nat, 60)
        &&& self.failover_grace_secs == env_number(env, "FAILOVER_GRACE_SECS"@, u64::MAX as nat, 300)
        &&& self.failover_max_per_min == env_number(env, "FAILOVER_MAX_PER_MIN"@, u32::MAX as nat, 600)
        &&& optional_text(self.ip_reputation_file) == env_text(env, "IP_REPUTATION_FILE"@)
        &&& optional_text(self.signal_weights_file) == env_text(env, "SIGNAL_WEIGHTS_FILE"@)
        &&& optional_text(self.tls_fingerprint_header) == env_text(env, "TLS_FINGERPRINT_HEADER"@)
        &&& optional_text(self.tls_fingerprint_file) == env_text(env, "TLS_FINGERPRINT_FILE"@)
        &&& optional_text(self.trusted_proxies) == env_text(env, "TRUSTED_PROXIES"@)
        &&& optional_text(self.admin_db_path) == env_text(env, "ADMIN_DB_PATH"@)
        &&& optional_text(self.admin_token) == env_text(env, "ADMIN_TOKEN"@)
        &&& optional_text(self.site_db_path) == env_text(env, "SITE_DB_PATH"@)
        &&& optional_text(self.cors_allowed_origins) == env_text(env, "CORS_ALLOWED_ORIGINS"@)
        &&& optional_text(self.geoip_db_path) == env_text(env, "GEOIP_DB_PATH"@)
        &&& optional_text(self.failover_state_path) == env_text(env, "FAILOVER_STATE_PATH"@)
        &&& self.verify_require_behavior == is_truthy(env_text(env, "VERIFY_REQUIRE_BEHAVIOR"@))
        &&& self.dev_disable_admin_auth == is_truthy(env_text(env, "DEV_DISABLE_ADMIN_AUTH"@))
        &&& self.failover_enabled == is_truthy(env_text(env, "FAILOVER_ENABLED"@))
        &&& self.anonymize_log_ip == !is_falsey(env_text(env, "ANONYMIZE_LOG_IP"@))
        &&& env_info_url(env, "INFO_ABOUT_URL"@) == Ok::<Option<Seq<char>>, Seq<char>>(
            optional_text(self.info_about_url),
        )
        &&& env_info_url(env, "INFO_PRIVACY_URL"@) == Ok::<Option<Seq<char>>, Seq<char>>(
            optional_text(self.info_privacy_url),
        )
        &&& env_info_url(env, "INFO_TERMS_URL"@) == Ok::<Option<Seq<char>>, Seq<char>>(
            optional_text(self.info_terms_url),
        )
    }

    /// The configuration that an environment asks for, or what is wrong with it.
    pub fn from_env(env: &Environment) -> (r: Result<Self, String>)
        ensures
            match env_problem(env@) {
                None => r is Ok && r->Ok_0.follows(env@) && r->Ok_0.problem() is None,
                Some(message) => r is Err && r->Err_0@ == message,
            },
    {
        let puzzle_algorithm = parse_algorithm(env);
        let load_ladder = match parse_load_ladder(env) {
            Ok(ladder) => ladder,
            Err(e) => {
                return Err(e);
            },
        };
        let info_about_url = match parse_info_url(env, "INFO_ABOUT_URL") {
            Ok(url) => url,
            Err(e) => {
                return Err(e);
            },
        };
        let info_privacy_url = match parse_info_url(env, "INFO_PRIVACY_URL") {
            Ok(url) => url,
            Err(e) => {
                return Err(e);
            },
        };
        let info_terms_url = match parse_info_url(env, "INFO_TERMS_URL") {
            Ok(url) => url,
            Err(e) => {
                return Err(e);
            },
        };
        let config = AppConfig {
            listen_addr: match env.get("LISTEN_ADDR") {
                Some(v) => if is_listen_address(v.as_str()) {
                    v
                } else {
                    "0.0.0.0:3000".to_owned()
                },
                None => "0.0.0.0:3000".to_owned(),
            },
            static_dir: match env.get("STATIC_DIR") {
                Some(v) => v,
                None => "static".to_owned(),
            },
            puzzle_algorithm,
            default_difficulty: env.number(
                "DEFAULT_DIFFICULTY",
                0xFFFF_FFFF,
                default_difficulty_for(puzzle_algorithm) as u64,
            ) as u32,
            max_difficulty: env.number(
                "MAX_DIFFICULTY",
                0xFFFF_FFFF,
                max_difficulty_for(puzzle_algorithm) as u64,
            ) as u32,
            load_ladder,
            challenge_ttl_secs: env.number("CHALLENGE_TTL_SECS", u64::MAX, 300),
            cleanup_interval_secs: one_at_least(env.number("CLEANUP_INTERVAL_SECS", u64::MAX, 60)),
            max_active_challenges: env.number("MAX_ACTIVE_CHALLENGES", usize::MAX as u64, 1_000_000) as usize,
            tier_checkbox_min: env.number("TIER_CHECKBOX_MIN", 0xFFFF_FFFF, 20) as u32,
            tier_hard_pow_min: env.number("TIER_HARD_POW_MIN", 0xFFFF_FFFF, 40) as u32,
            tier_block_min: env.number("TIER_BLOCK_MIN", 0xFFFF_FFFF, 85) as u32,
            ip_hard_limit: env.number("IP_HARD_LIMIT", 0xFFFF_FFFF, 500) as u32,
            verify_shadow_min: env.number("VERIFY_SHADOW_MIN", 0xFFFF_FFFF, 30) as u32,
            verify_block_min: env.number("VERIFY_BLOCK_MIN", 0xFFFF_FFFF, 60) as u32,
            verify_max_attempts: env.number("VERIFY_MAX_ATTEMPTS", 0xFFFF_FFFF, 10) as u32,
            log_retention_hours: env.number("LOG_RETENTION_HOURS", u64::MAX, 72),
            failover_heartbeat_interval_secs: one_at_least(env.number("FAILOVER_HEARTBEAT_INTERVAL_SECS", u64::MAX, 15)),
            failover_min_gap_secs: env.number("FAILOVER_MIN_GAP_SECS", u64::MAX, 60),
            failover_grace_secs: env.number("FAILOVER_GRACE_SECS", u64::MAX, 300),
            failover_max_per_min: env.number("FAILOVER_MAX_PER_MIN", 0xFFFF_FFFF, 600) as u32,
            ip_reputation_file: env.get("IP_REPUTATION_FILE"),
            signal_weights_file: env.get("SIGNAL_WEIGHTS_FILE"),
            tls_fingerprint_header: env.get("TLS_FINGERPRINT_HEADER"),
            tls_fingerprint_file: env.get("TLS_FINGERPRINT_FILE"),
            trusted_proxies: env.get("TRUSTED_PROXIES"),
            admin_db_path: env.get("ADMIN_DB_PATH"),
            admin_token: env.get("ADMIN_TOKEN"),
            site_db_path: env.get("SITE_DB_PATH"),
            cors_allowed_origins: env.get("CORS_ALLOWED_ORIGINS"),
            geoip_db_path: env.get("GEOIP_DB_PATH"),
            failover_state_path: env.get("FAILOVER_STATE_PATH"),
            verify_require_behavior: env.flag("VERIFY_REQUIRE_BEHAVIOR"),
            dev_disable_admin_auth: env.flag("DEV_DISABLE_ADMIN_AUTH"),
            failover_enabled: env.flag("FAILOVER_ENABLED"),
            anonymize_log_ip: match env.get("ANONYMIZE_LOG_IP") {
                Some(v) => !parse_falsey(v.as_str()),
                None => true,
            },
            info_about_url,
            info_privacy_url,
            info_terms_url,
        };
        assert(config.follows(env@));
        config.validated()
    }
}

fn one_at_least(n: u64) -> (r: u64)
    ensures
        r == at_least_one(n as nat),
{
    if n == 0 {
        1
    } else {
        n
    }
}

/// What is wrong with an environment, if anything is: a ladder or a page that cannot be
/// read, or settings that are unfit to run with. The first of these decides.
pub open spec fn env_problem(env: Map<Seq<char>, Seq<char>>) -> Option<Seq<char>> {
    if env_ladder(env) is Err {
        Some(env_ladder(env)->Err_0)
    } else if env_info_url(env, "INFO_ABOUT_URL"@) is Err {
        Some(env_info_url(env, "INFO_ABOUT_URL"@)->Err_0)
    } else if env_info_url(env, "INFO_PRIVACY_URL"@) is Err {
        Some(env_info_url(env, "INFO_PRIVACY_URL"@)->Err_0)
    } else if env_info_url(env, "INFO_TERMS_URL"@) is Err {
        Some(env_info_url(env, "INFO_TERMS_URL"@)->Err_0)
    } else {
        let algorithm = env_algorithm(env);
        settings_problem(
            algorithm,
            env_number(
                env,
                "DEFAULT_DIFFICULTY"@,
                u32::MAX as nat,
                base_difficulty(algorithm) as nat,
            ) as u32,
            env_number(
                env,
                "MAX_DIFFICULTY"@,
                u32::MAX as nat,
                top_difficulty(algorithm) as nat,
            ) as u32,
            env_number(env, "CHALLENGE_TTL_SECS"@, u64::MAX as nat, 300) as u64,
            env_number(env, "LOG_RETENTION_HOURS"@, u64::MAX as nat, 72) as u64,
        )
    }
}

/// An environment that sets nothing is fit to run with.
pub proof fn lemma_defaults_are_fit()
    ensures
        env_problem(Map::empty()) is None,
{
}

/// A configuration that is fit to run with never issues a puzzle that takes no work.
pub proof fn lemma_fit_config_takes_work(
    config: AppConfig,
    tier: crate::risk::tier::EscalationTier,
)
    requires
        config.problem() is None,
    ensures
        crate::risk::tier::tier_difficulty(
            tier,
            config.default_difficulty,
            config.max_difficulty,
        ) matches Some(d) ==> MIN_DIFFICULTY <= d <= config.max_difficulty,
{
}

/// A number that a variable writes in decimal digits is what the setting is, up to the largest
/// of its type; a variable that is not set, or that writes no such number, leaves the default.
pub proof fn lemma_number_is_read(
    env: Map<Seq<char>, Seq<char>>,
    name: Seq<char>,
    n: nat,
    max: nat,
    default: nat,
)
    ensures
        !env.contains_key(name) ==> env_number(env, name, max, default) == default,
        env.contains_key(name) && env[name] == crate::text::decimal(n) ==> env_number(
            env,
            name,
            max,
            default,
        ) == (if n <= max {
            n
        } else {
            default
        }),
        env.contains_key(name) && env[name].len() == 0 ==> env_number(env, name, max, default)
            == default,
{
    crate::text::lemma_decimal_is_read_back(n, max);
}

/// Every number among the settings is the one that its own variable writes, and its default
/// where the variable is not set.
pub proof fn lemma_numbers_are_read(config: AppConfig, env: Map<Seq<char>, Seq<char>>, n: nat)
    requires
        config.follows(env),
    ensures
        !env.contains_key("TIER_CHECKBOX_MIN"@) ==> config.tier_checkbox_min == 20,
        n <= u32::MAX && env.contains_key("TIER_CHECKBOX_MIN"@) && env["TIER_CHECKBOX_MIN"@] == crate::text::decimal(n)
            ==> config.tier_checkbox_min == n,
        !env.contains_key("TIER_HARD_POW_MIN"@) ==> config.tier_hard_pow_min == 40,
        n <= u32::MAX && env.contains_key("TIER_HARD_POW_MIN"@) && env["TIER_HARD_POW_MIN"@] == crate::text::decimal(n)
            ==> config.tier_hard_pow_min == n,
        !env.contains_key("TIER_BLOCK_MIN"@) ==> config.tier_block_min == 85,
        n <= u32::MAX && env.contains_key("TIER_BLOCK_MIN"@) && env["TIER_BLOCK_MIN"@] == crate::text::decimal(n)
            ==> config.tier_block_min == n,
        !env.contains_key("IP_HARD_LIMIT"@) ==> config.ip_hard_limit == 500,
        n <= u32::MAX && env.contains_key("IP_HARD_LIMIT"@) && env["IP_HARD_LIMIT"@] == crate::text::decimal(n)
            ==> config.ip_hard_limit == n,
        !env.contains_key("VERIFY_SHADOW_MIN"@) ==> config.verify_shadow_min == 30,
        n <= u32::MAX && env.contains_key("VERIFY_SHADOW_MIN"@) && env["VERIFY_SHADOW_MIN"@] == crate::text::decimal(n)
            ==> config.verify_shadow_min == n,
        !env.contains_key("VERIFY_BLOCK_MIN"@) ==> config.verify_block_min == 60,
        n <= u32::MAX && env.contains_key("VERIFY_BLOCK_MIN"@) && env["VERIFY_BLOCK_MIN"@] == crate::text::decimal(n)
            ==> config.verify_block_min == n,
        !env.contains_key("VERIFY_MAX_ATTEMPTS"@) ==> config.verify_max_attempts == 10,
        n <= u32::MAX && env.contains_key("VERIFY_MAX_ATTEMPTS"@) && env["VERIFY_MAX_ATTEMPTS"@] == crate::text::decimal(n)
            ==> config.verify_max_attempts == n,
        !env.contains_key("FAILOVER_MAX_PER_MIN"@) ==> config.failover_max_per_min == 600,
        n <= u32::MAX && env.contains_key("FAILOVER_MAX_PER_MIN"@) && env["FAILOVER_MAX_PER_MIN"@] == crate::text::decimal(n)
            ==> config.failover_max_per_min == n,
        !env.contains_key("CHALLENGE_TTL_SECS"@) ==> config.challenge_ttl_secs == 300,
        n <= u64::MAX && env.contains_key("CHALLENGE_TTL_SECS"@) && env["CHALLENGE_TTL_SECS"@] == crate::text::decimal(n)
            ==> config.challenge_ttl_secs == n,
        !env.contains_key("LOG_RETENTION_HOURS"@) ==> config.log_retention_hours == 72,
        n <= u64::MAX && env.contains_key("LOG_RETENTION_HOURS"@) && env["LOG_RETENTION_HOURS"@] == crate::text::decimal(n)
            ==> config.log_retention_hours == n,
        !env.contains_key("FAILOVER_MIN_GAP_SECS"@) ==> config.failover_min_gap_secs == 60,
        n <= u64::MAX && env.contains_key("FAILOVER_MIN_GAP_SECS"@) && env["FAILOVER_MIN_GAP_SECS"@] == crate::text::decimal(n)
            ==> config.failover_min_gap_secs == n,
        !env.contains_key("FAILOVER_GRACE_SECS"@) ==> config.failover_grace_secs == 300,
        n <= u64::MAX && env.contains_key("FAILOVER_GRACE_SECS"@) && env["FAILOVER_GRACE_SECS"@] == crate::text::decimal(n)
            ==> config.failover_grace_secs == n,
        !env.contains_key("MAX_ACTIVE_CHALLENGES"@) ==> config.max_active_challenges == 1000000,
        n <= usize::MAX && env.contains_key("MAX_ACTIVE_CHALLENGES"@) && env["MAX_ACTIVE_CHALLENGES"@] == crate::text::decimal(n)
            ==> config.max_active_challenges == n,
        !env.contains_key("CLEANUP_INTERVAL_SECS"@) ==> config.cleanup_interval_secs == 60,
        1 <= n <= u64::MAX && env.contains_key("CLEANUP_INTERVAL_SECS"@) && env["CLEANUP_INTERVAL_SECS"@] == crate::text::decimal(n)
            ==> config.cleanup_interval_secs == n,
        config.cleanup_interval_secs >= 1,
        !env.contains_key("FAILOVER_HEARTBEAT_INTERVAL_SECS"@) ==> config.failover_heartbeat_interval_secs == 15,
        1 <= n <= u64::MAX && env.contains_key("FAILOVER_HEARTBEAT_INTERVAL_SECS"@) && env["FAILOVER_HEARTBEAT_INTERVAL_SECS"@] == crate::text::decimal(n)
            ==> config.failover_heartbeat_interval_secs == n,
        config.failover_heartbeat_interval_secs >= 1,
        !env.contains_key("DEFAULT_DIFFICULTY"@) ==> config.default_difficulty == if config.puzzle_algorithm is Sha256 {
            18u32
        } else {
            5u32
        },
        n <= u32::MAX && env.contains_key("DEFAULT_DIFFICULTY"@) && env["DEFAULT_DIFFICULTY"@] == crate::text::decimal(n)
            ==> config.default_difficulty == n,
        !env.contains_key("MAX_DIFFICULTY"@) ==> config.max_difficulty == if config.puzzle_algorithm is Sha256 {
            28u32
        } else {
            10u32
        },
        n <= u32::MAX && env.contains_key("MAX_DIFFICULTY"@) && env["MAX_DIFFICULTY"@] == crate::text::decimal(n)
            ==> config.max_difficulty == n,
{
    crate::text::lemma_decimal_is_read_back(n, u32::MAX as nat);
    crate::text::lemma_decimal_is_read_back(n, u64::MAX as nat);
    crate::text::lemma_decimal_is_read_back(n, usize::MAX as nat);
}

/// Every text among the settings is that of its own variable, to the letter, and is not set
/// where the variable is not.
pub proof fn lemma_texts_are_read(config: AppConfig, env: Map<Seq<char>, Seq<char>>)
    requires
        config.follows(env),
    ensures
        config.ip_reputation_file is Some <==> env.contains_key("IP_REPUTATION_FILE"@),
        config.ip_reputation_file matches Some(value) ==> value@ == env["IP_REPUTATION_FILE"@],
        config.signal_weights_file is Some <==> env.contains_key("SIGNAL_WEIGHTS_FILE"@),
        config.signal_weights_file matches Some(value) ==> value@ == env["SIGNAL_WEIGHTS_FILE"@],
        config.tls_fingerprint_header is Some <==> env.contains_key("TLS_FINGERPRINT_HEADER"@),
        config.tls_fingerprint_header matches Some(value) ==> value@ == env["TLS_FINGERPRINT_HEADER"@],
        config.tls_fingerprint_file is Some <==> env.contains_key("TLS_FINGERPRINT_FILE"@),
        config.tls_fingerprint_file matches Some(value) ==> value@ == env["TLS_FINGERPRINT_FILE"@],
        config.trusted_proxies is Some <==> env.contains_key("TRUSTED_PROXIES"@),
        config.trusted_proxies matches Some(value) ==> value@ == env["TRUSTED_PROXIES"@],
        config.admin_db_path is Some <==> env.contains_key("ADMIN_DB_PATH"@),
        config.admin_db_path matches Some(value) ==> value@ == env["ADMIN_DB_PATH"@],
        config.admin_token is Some <==> env.contains_key("ADMIN_TOKEN"@),
        config.admin_token matches Some(value) ==> value@ == env["ADMIN_TOKEN"@],
        config.site_db_path is Some <==> env.contains_key("SITE_DB_PATH"@),
        config.site_db_path matches Some(value) ==> value@ == env["SITE_DB_PATH"@],
        config.cors_allowed_origins is Some <==> env.contains_key("CORS_ALLOWED_ORIGINS"@),
        config.cors_allowed_origins matches Some(value) ==> value@ == env["CORS_ALLOWED_ORIGINS"@],
        config.geoip_db_path is Some <==> env.contains_key("GEOIP_DB_PATH"@),
        config.geoip_db_path matches Some(value) ==> value@ == env["GEOIP_DB_PATH"@],
        config.failover_state_path is Some <==> env.contains_key("FAILOVER_STATE_PATH"@),
        config.failover_state_path matches Some(value) ==> value@ == env["FAILOVER_STATE_PATH"@],
        env.contains_key("STATIC_DIR"@) ==> config.static_dir@ == env["STATIC_DIR"@],
        !env.contains_key("STATIC_DIR"@) ==> config.static_dir@ == "static"@,
        !env.contains_key("LISTEN_ADDR"@) ==> config.listen_addr@ == "0.0.0.0:3000"@,
        env.contains_key("LISTEN_ADDR"@) && crate::net::writes_listen_address(env["LISTEN_ADDR"@])
            ==> config.listen_addr@ == env["LISTEN_ADDR"@],
        env.contains_key("LISTEN_ADDR"@) && !crate::net::writes_listen_address(env["LISTEN_ADDR"@])
            ==> config.listen_addr@ == "0.0.0.0:3000"@,
{
}

/// The words that switch something on are 1, true, yes and on, and those that switch something
/// off are 0, false, no and off, in any case of the letters and with white space around them.
/// No word does both, and a variable that is not set does neither.
pub proof fn lemma_switch_words(value: Seq<char>)
    ensures
        ({
            let w = crate::text::ascii_lower(crate::text::trim(value));
            &&& is_truthy(Some(value)) <==> w == "1"@ || w == "true"@ || w == "yes"@ || w == "on"@
            &&& is_falsey(Some(value)) <==> w == "0"@ || w == "false"@ || w == "no"@ || w
                == "off"@
        }),
        !(is_truthy(Some(value)) && is_falsey(Some(value))),
        !is_truthy(None),
        !is_falsey(None),
{
    reveal_strlit("1");
    reveal_strlit("true");
    reveal_strlit("yes");
    reveal_strlit("on");
    reveal_strlit("0");
    reveal_strlit("false");
    reveal_strlit("no");
    reveal_strlit("off");
    assert("1"@[0] == '1' && "true"@[0] == 't' && "yes"@[0] == 'y' && "on"@[1] == 'n');
    assert("0"@[0] == '0' && "false"@[0] == 'f' && "no"@[0] == 'n' && "off"@[1] == 'f');
    assert("on"@[0] == 'o' && "off"@[0] == 'o');
}

/// Three switches are off until a word switches them on; that addresses are logged as networks
/// is on until a word switches it off. The word matters to no other switch.
pub proof fn lemma_switches_are_read(config: AppConfig, env: Map<Seq<char>, Seq<char>>)
    requires
        config.follows(env),
    ensures
        !env.contains_key("VERIFY_REQUIRE_BEHAVIOR"@) ==> !config.verify_require_behavior,
        !env.contains_key("DEV_DISABLE_ADMIN_AUTH"@) ==> !config.dev_disable_admin_auth,
        !env.contains_key("FAILOVER_ENABLED"@) ==> !config.failover_enabled,
        !env.contains_key("ANONYMIZE_LOG_IP"@) ==> config.anonymize_log_ip,
        env.contains_key("VERIFY_REQUIRE_BEHAVIOR"@) ==> config.verify_require_behavior
            == is_truthy(Some(env["VERIFY_REQUIRE_BEHAVIOR"@])),
        env.contains_key("DEV_DISABLE_ADMIN_AUTH"@) ==> config.dev_disable_admin_auth == is_truthy(
            Some(env["DEV_DISABLE_ADMIN_AUTH"@]),
        ),
        env.contains_key("FAILOVER_ENABLED"@) ==> config.failover_enabled == is_truthy(
            Some(env["FAILOVER_ENABLED"@]),
        ),
        env.contains_key("ANONYMIZE_LOG_IP"@) ==> config.anonymize_log_ip == !is_falsey(
            Some(env["ANONYMIZE_LOG_IP"@]),
        ),
{
}

/// The algorithm is SHA-256 exactly where it is asked for by name; else it is Argon2id, with
/// the costs that are set, and with eight mebibytes, two passes and one lane where they are
/// not.
pub proof fn lemma_algorithm_is_read(env: Map<Seq<char>, Seq<char>>, n: nat)
    ensures
        env_algorithm(env) is Sha256 <==> env.contains_key("PUZZLE_ALGORITHM"@)
            && env["PUZZLE_ALGORITHM"@] == "sha256"@,
        env_algorithm(env) matches Algorithm::Argon2id(p) ==> {
            &&& !env.contains_key("ARGON2_M_COST"@) ==> p.m_cost == 8192
            &&& !env.contains_key("ARGON2_T_COST"@) ==> p.t_cost == 2
            &&& !env.contains_key("ARGON2_P_COST"@) ==> p.p_cost == 1
            &&& n <= u32::MAX && env.contains_key("ARGON2_M_COST"@) && env["ARGON2_M_COST"@]
                == crate::text::decimal(n) ==> p.m_cost == n
            &&& n <= u32::MAX && env.contains_key("ARGON2_T_COST"@) && env["ARGON2_T_COST"@]
                == crate::text::decimal(n) ==> p.t_cost == n
            &&& n <= u32::MAX && env.contains_key("ARGON2_P_COST"@) && env["ARGON2_P_COST"@]
                == crate::text::decimal(n) ==> p.p_cost == n
        },
{
    crate::text::lemma_decimal_is_read_back(n, u32::MAX as nat);
}

/// A page is the text of its variable without white space around it, where that begins with
/// http:// or https://; a blank one is none, and anything else is refused.
pub proof fn lemma_info_url(env: Map<Seq<char>, Seq<char>>, name: Seq<char>)
    ensures
        !env.contains_key(name) ==> env_info_url(env, name) == Ok::<Option<Seq<char>>, Seq<char>>(
            None,
        ),
        env.contains_key(name) ==> {
            let url = crate::text::trim(env[name]);
            let absolute = "https://"@.is_prefix_of(url) || "http://"@.is_prefix_of(url);
            &&& url.len() == 0 ==> env_info_url(env, name) == Ok::<Option<Seq<char>>, Seq<char>>(
                None,
            )
            &&& url.len() > 0 && absolute ==> env_info_url(env, name) == Ok::<
                Option<Seq<char>>,
                Seq<char>,
            >(Some(url))
            &&& url.len() > 0 && !absolute ==> env_info_url(env, name) is Err
        },
{
}

/// Settings are fit to run with exactly where every puzzle takes work, Argon2 takes its costs,
/// a challenge lives from a second to a year and the log is kept for ten years at most.
pub proof fn lemma_fit_settings(config: AppConfig)
    ensures
        config.problem() is None <==> {
            &&& config.default_difficulty >= 1
            &&& config.max_difficulty >= 1
            &&& config.puzzle_algorithm matches Algorithm::Argon2id(p) ==> p.m_cost >= 8 && p.m_cost
                >= 8 * p.p_cost && p.t_cost >= 1 && 1 <= p.p_cost < 0x100_0000
            &&& 1 <= config.challenge_ttl_secs <= 365 * 24 * 3600
            &&& config.log_retention_hours <= 10 * 365 * 24
        },
{
}

/// An environment is refused exactly where its ladder or one of its pages cannot be read, or
/// where what it asks for is not fit to run with.
pub proof fn lemma_environment_is_refused(config: AppConfig, env: Map<Seq<char>, Seq<char>>)
    requires
        config.follows(env),
    ensures
        env_problem(env) == config.problem(),
        env_ladder(env) is Ok,
        env_info_url(env, "INFO_ABOUT_URL"@) is Ok,
        env_info_url(env, "INFO_PRIVACY_URL"@) is Ok,
        env_info_url(env, "INFO_TERMS_URL"@) is Ok,
{
}

/// The pages come from their own variables.
pub proof fn lemma_pages_are_read(config: AppConfig, env: Map<Seq<char>, Seq<char>>)
    requires
        config.follows(env),
    ensures
        config.info_about_url matches Some(url) ==> env.contains_key("INFO_ABOUT_URL"@) && url@
            == crate::text::trim(env["INFO_ABOUT_URL"@]),
        config.info_privacy_url matches Some(url) ==> env.contains_key("INFO_PRIVACY_URL"@) && url@
            == crate::text::trim(env["INFO_PRIVACY_URL"@]),
        config.info_terms_url matches Some(url) ==> env.contains_key("INFO_TERMS_URL"@) && url@
            == crate::text::trim(env["INFO_TERMS_URL"@]),
        config.info_about_url is None ==> !env.contains_key("INFO_ABOUT_URL"@)
            || crate::text::trim(env["INFO_ABOUT_URL"@]).len() == 0,
        config.info_privacy_url is None ==> !env.contains_key("INFO_PRIVACY_URL"@)
            || crate::text::trim(env["INFO_PRIVACY_URL"@]).len() == 0,
        config.info_terms_url is None ==> !env.contains_key("INFO_TERMS_URL"@)
            || crate::text::trim(env["INFO_TERMS_URL"@]).len() == 0,
{
}

/// The ladder is that of its variable, and has no rungs where the variable is not set.
pub proof fn lemma_ladder_is_read(env: Map<Seq<char>, Seq<char>>)
    ensures
        !env.contains_key("LOAD_LADDER"@) ==> env_ladder(env) == Ok::<
            Seq<crate::risk::load::LoadLevel>,
            Seq<char>,
        >(Seq::empty()),
        env.contains_key("LOAD_LADDER"@) ==> (env_ladder(env) is Ok
            <==> crate::risk::load::read_ladder(env["LOAD_LADDER"@]) is Ok),
        env.contains_key("LOAD_LADDER"@) && env_ladder(env) is Ok ==> env_ladder(env)
            == crate::risk::load::read_ladder(env["LOAD_LADDER"@]),
{
}

} // verus!
