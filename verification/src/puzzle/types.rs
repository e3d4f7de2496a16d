//! The types of the proof of work.
use vstd::prelude::*;

use crate::ident::Uuid;
use crate::time::Timestamp;

verus! {

/// Argon2id parameters for memory-hard proofs of work. They are stamped on each
/// challenge, so that the client knows which hash to compute.
#[derive(Debug, Clone, Copy, PartialEq, Eq, Structural)]
pub struct Argon2idParams {
    /// Memory cost in KiB.
    pub m_cost: u32,
    /// Iteration count.
    pub t_cost: u32,
    /// Lanes.
    pub p_cost: u32,
}

impl Default for Argon2idParams {
    /// 8 MiB, two iterations, one lane.
    fn default() -> (r: Self)
        ensures
            r == (Argon2idParams { m_cost: 8_192, t_cost: 2, p_cost: 1 }),
    {
        Argon2idParams { m_cost: 8_192, t_cost: 2, p_cost: 1 }
    }
}

/// The hash function of a puzzle, chosen per server and stamped on each challenge.
#[derive(Debug, Clone, Copy, PartialEq, Eq, Structural)]
pub enum Algorithm {
    Sha256,
    Argon2id(Argon2idParams),
}

/// What a challenge asks for.
#[derive(Debug, Clone, Copy, PartialEq, Eq, Structural)]
pub enum ChallengeKind {
    Pow,
    Image,
}

impl Default for ChallengeKind {
    fn default() -> (r: Self)
        ensures
            r == ChallengeKind::Pow,
    {
        ChallengeKind::Pow
    }
}

/// A puzzle that was issued and is not yet spent.
#[derive(Debug)]
pub struct Challenge {
    pub id: Uuid,
    pub site_key: Uuid,
    pub algorithm: Algorithm,
    /// Hexadecimal text that the client hashes together with its nonce.
    pub prefix: String,
    /// Leading zero bits that the hash must have.
    pub difficulty: u32,
    pub created_at: Timestamp,
    /// When the visitor was first seen: the issue time of the first challenge of a
    /// chain of refreshed ones. Dwell time counts from here.
    pub dwell_since: Timestamp,
    pub expires_at: Timestamp,
    /// Wrong solutions submitted so far.
    pub attempts: u32,
    /// The rate-limiting address of the client that it was issued to, where known.
    pub issued_to: Option<crate::net::IpAddr>,
}

impl Clone for Challenge {
    fn clone(&self) -> (r: Self)
        ensures
            r == *self,
    {
        Challenge {
            id: self.id,
            site_key: self.site_key,
            algorithm: self.algorithm,
            prefix: self.prefix.clone(),
            difficulty: self.difficulty,
            created_at: self.created_at,
            dwell_since: self.dwell_since,
            expires_at: self.expires_at,
            attempts: self.attempts,
            issued_to: self.issued_to,
        }
    }
}

/// A solution as it is submitted.
#[derive(Debug, Clone, Copy, PartialEq, Eq, Structural)]
pub struct Solution {
    pub challenge_id: Uuid,
    pub nonce: u64,
}

/// The longest lifetime of a challenge that can be counted in milliseconds.
pub const MAX_LIFETIME_SECS: u64 = 9_223_372_036_854_775;

/// What a puzzle engine issues.
#[derive(Debug, Clone, Copy, PartialEq, Eq, Structural)]
pub struct PuzzleConfig {
    pub algorithm: Algorithm,
    pub default_difficulty: u32,
    pub min_difficulty: u32,
    pub max_difficulty: u32,
    /// How long a challenge can be solved, in seconds.
    pub ttl_secs: u64,
}

impl Default for PuzzleConfig {
    fn default() -> (r: Self)
        ensures
            r == (PuzzleConfig {
                algorithm: Algorithm::Sha256,
                default_difficulty: 20,
                min_difficulty: 16,
                max_difficulty: 28,
                ttl_secs: 300,
            }),
    {
        PuzzleConfig {
            algorithm: Algorithm::Sha256,
            default_difficulty: 20,
            min_difficulty: 16,
            max_difficulty: 28,
            ttl_secs: 300,
        }
    }
}

} // verus!
