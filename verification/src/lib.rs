//! Core of a targeted-advertisement server: the statement matrix that
//! precompiles one parameterized query per combination of present filters,
//! the typed parameter binding for inserts and reads, a reference store
//! giving the query semantics, and a read-through cache with single-flight
//! de-duplication, weighted eviction and time-based expiry.

pub mod advertisement;
pub mod cache;
pub mod config;
pub mod country;
pub mod gender;
pub mod platform;
pub mod request;
pub mod statements;
pub mod store;
pub mod time;
