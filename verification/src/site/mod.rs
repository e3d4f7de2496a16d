//! Registered sites.
pub mod types;
