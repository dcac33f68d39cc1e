//! The relay: the directory of live streams and what it does with each message.
pub mod sanitize;
pub mod codes;
pub mod conduct;
pub mod model;
pub mod auth;
pub mod registry;
pub mod laws;
pub mod promises;
