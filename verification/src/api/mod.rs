//! What the service answers.
pub mod assets;
pub mod cors;
pub mod decision;
pub mod extract;
pub mod handlers;
pub mod state;
pub mod types;
