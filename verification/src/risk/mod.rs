//! Risk scoring: the signals, what they are worth, and what a score leads to.
pub mod behavior;
pub mod client_ip;
pub mod cookie;
pub mod load;
pub mod reputation;
pub mod score;
pub mod signals;
pub mod tier;
pub mod tls_fingerprint;
pub mod verify;
pub mod weights;
