//! What is decided when the service starts.
use vstd::prelude::*;
use vstd::string::*;

use crate::config::AppConfig;
use crate::puzzle::types::Algorithm;
use crate::risk::tier::{difficulty_for, EscalationTier};
use crate::text::{chars_of, decimal_text};

verus! {

/// The difficulty above which a memory-hard puzzle is hardly ever solved in a browser.
pub const ARGON2_SANE_MAX_DIFFICULTY: u32 = 12;

/// Settings with their values.
pub open spec fn setting_views(v: Seq<(&'static str, u32)>) -> Seq<(Seq<char>, u32)> {
    Seq::new(v.len(), |i: int| (v[i].0@, v[i].1))
}

pub open spec fn warned_if(
    algorithm: Algorithm,
    name: Seq<char>,
    difficulty: u32,
) -> Seq<(Seq<char>, u32)> {
    if algorithm is Argon2id && difficulty > ARGON2_SANE_MAX_DIFFICULTY {
        seq![(name, difficulty)]
    } else {
        Seq::empty()
    }
}

/// The settings that make memory-hard puzzles too hard. The maximum counts as well as the
/// default: it is what visitors with a high score get.
pub open spec fn too_hard(config: AppConfig) -> Seq<(Seq<char>, u32)> {
    warned_if(config.puzzle_algorithm, "DEFAULT_DIFFICULTY"@, config.default_difficulty)
        + warned_if(config.puzzle_algorithm, "MAX_DIFFICULTY"@, config.max_difficulty)
}

/// The settings that make memory-hard puzzles too hard.
pub fn difficulty_warnings(config: &AppConfig) -> (r: Vec<(&'static str, u32)>)
    ensures
        setting_views(r@) == too_hard(*config),
{
    let mut out: Vec<(&'static str, u32)> = Vec::new();
    match config.puzzle_algorithm {
        Algorithm::Argon2id(_) => {
            if config.default_difficulty > ARGON2_SANE_MAX_DIFFICULTY {
                out.push(("DEFAULT_DIFFICULTY", config.default_difficulty));
            }
            if config.max_difficulty > ARGON2_SANE_MAX_DIFFICULTY {
                out.push(("MAX_DIFFICULTY", config.max_difficulty));
            }
        },
        Algorithm::Sha256 => {},
    }
    assert(setting_views(out@) =~= too_hard(*config));
    out
}

/// The difficulty that a tier comes to, as it is logged.
pub fn effective_difficulty(tier: EscalationTier, config: &AppConfig) -> (r: String)
    ensures
        r@ == (match crate::risk::tier::tier_difficulty(
            tier,
            config.default_difficulty,
            config.max_difficulty,
        ) {
            Some(d) => crate::text::decimal(d as nat),
            None => "block (429)"@,
        }),
{
    match difficulty_for(tier, config.default_difficulty, config.max_difficulty) {
        Some(d) => decimal_text(d as u64),
        None => "block (429)".to_owned(),
    }
}

/// Whether there is a dashboard.
#[derive(Debug, Clone, Copy, PartialEq, Eq, Structural)]
pub enum DashboardSetup {
    /// No database is configured.
    Off,
    On,
    /// A database without a token would be open to everybody: the service does not start.
    MissingToken,
}

/// Whether there is a dashboard.
pub open spec fn setup_of(config: AppConfig) -> DashboardSetup {
    match config.admin_db_path {
        None => DashboardSetup::Off,
        Some(_) => match config.admin_token {
            Some(token) if token@.len() > 0 => DashboardSetup::On,
            _ => DashboardSetup::MissingToken,
        },
    }
}

/// Whether there is a dashboard: with a database and a token that is not empty.
pub fn dashboard_setup(config: &AppConfig) -> (r: DashboardSetup)
    ensures
        r == setup_of(*config),
        r == (match config.admin_db_path {
            None => DashboardSetup::Off,
            Some(_) => match config.admin_token {
                Some(token) if token@.len() > 0 => DashboardSetup::On,
                _ => DashboardSetup::MissingToken,
            },
        }),
{
    match &config.admin_db_path {
        None => DashboardSetup::Off,
        Some(_) => match &config.admin_token {
            Some(token) => {
                if chars_of(token.as_str()).len() > 0 {
                    DashboardSetup::On
                } else {
                    DashboardSetup::MissingToken
                }
            },
            None => DashboardSetup::MissingToken,
        },
    }
}

/// The memory that memory-hard verifications take at most, in MiB.
pub fn peak_mib(permits: u64, m_cost_kib: u32) -> (r: u64)
    requires
        permits * m_cost_kib <= u64::MAX,
    ensures
        r == permits * m_cost_kib / 1024,
{
    permits * m_cost_kib as u64 / 1024
}

/// An operator is warned of a memory-hard puzzle of more than twelve bits, for the default and
/// for the maximum, each on its own; SHA-256 is never warned of.
pub proof fn lemma_warnings(config: AppConfig)
    ensures
        config.puzzle_algorithm is Sha256 ==> too_hard(config).len() == 0,
        config.puzzle_algorithm is Argon2id ==> {
            &&& config.default_difficulty <= 12 && config.max_difficulty <= 12 ==> too_hard(
                config,
            ).len() == 0
            &&& config.default_difficulty > 12 && config.max_difficulty <= 12 ==> too_hard(config)
                == seq![("DEFAULT_DIFFICULTY"@, config.default_difficulty)]
            &&& config.default_difficulty <= 12 && config.max_difficulty > 12 ==> too_hard(config)
                == seq![("MAX_DIFFICULTY"@, config.max_difficulty)]
            &&& config.default_difficulty > 12 && config.max_difficulty > 12 ==> too_hard(config)
                == seq![
                ("DEFAULT_DIFFICULTY"@, config.default_difficulty),
                ("MAX_DIFFICULTY"@, config.max_difficulty),
            ]
        },
{
    assert(too_hard(config) =~= warned_if(
        config.puzzle_algorithm,
        "DEFAULT_DIFFICULTY"@,
        config.default_difficulty,
    ) + warned_if(config.puzzle_algorithm, "MAX_DIFFICULTY"@, config.max_difficulty));
    if config.puzzle_algorithm is Argon2id {
        if config.default_difficulty > 12 && config.max_difficulty > 12 {
            assert(too_hard(config) =~= seq![
                ("DEFAULT_DIFFICULTY"@, config.default_difficulty),
                ("MAX_DIFFICULTY"@, config.max_difficulty),
            ]);
        } else if config.default_difficulty > 12 {
            assert(too_hard(config) =~= seq![("DEFAULT_DIFFICULTY"@, config.default_difficulty)]);
        } else if config.max_difficulty > 12 {
            assert(too_hard(config) =~= seq![("MAX_DIFFICULTY"@, config.max_difficulty)]);
        }
    }
}

/// There is a dashboard exactly with a database and a token that is not empty; with a database
/// and without such a token the service does not start.
pub proof fn lemma_dashboard(config: AppConfig)
    ensures
        setup_of(config) == DashboardSetup::Off <==> config.admin_db_path is None,
        setup_of(config) == DashboardSetup::On <==> config.admin_db_path is Some && (
        config.admin_token matches Some(t) && t@.len() > 0),
{
}

} // verus!
