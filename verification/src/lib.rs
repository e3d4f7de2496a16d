//! Bollwark: the verified core of a self-hostable proof-of-work CAPTCHA service.
pub mod api;
pub mod bytes;
pub mod client;
pub mod config;
pub mod crypto;
pub mod dashboard;
pub mod error;
pub mod failover;
pub mod headers;
pub mod ident;
pub mod net;
pub mod puzzle;
pub mod risk;
pub mod site;
pub mod startup;
pub mod storage;
pub mod text;
pub mod time;
pub mod watcher;
