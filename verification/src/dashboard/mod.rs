//! The log of decisions, and what the operator is shown of it.
pub mod families;
pub mod geo;
pub mod log;
pub mod query;
pub mod routes;
pub mod sql;
pub mod types;
