//! The answers to requests, from the state of the service.
pub mod admin;
pub mod puzzle;
pub mod verify;
