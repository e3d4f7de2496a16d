//! The proof of work: issuing puzzles and checking their solutions.
pub mod challenge;
pub mod difficulty;
pub mod types;
