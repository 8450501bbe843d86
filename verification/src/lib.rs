//! The verified core of a desktop client for Misskey-family servers with
//! several accounts.
//!
//! The library decides and computes; it opens no socket and touches no file.
//! Its callers do that and tell it what they found. Each module states what
//! its functions return over a mathematical model of its data, and every
//! function is proved against what it states.
//!
//! - [`host`]: normalizing host names and refusing private addresses
//! - [`session`]: pending authorization sessions
//! - [`credentials`], [`keychain`]: which token serves an account
//! - [`calls`], [`api`], [`responses`]: the upstream protocol
//! - [`streaming`]: connections, subscriptions and received frames
//! - [`image_cache`]: freshness, single flight and eviction of cached images
//! - [`store`]: the table of accounts and the plans for the cache of notes
//! - [`gateway`], [`query_bridge`]: the decisions of the local HTTP gateway
//! - [`commands`], [`theme`]: what the entry points of the front-end check
//! - [`models`], [`timeline`], [`error`]: the data and the faults
//! - [`mfm`]: the markup of notes
//! - [`json`], [`text`], [`assoc`], [`ids`]: documents, characters, maps and
//!   identifiers

pub mod api;
pub mod assoc;
pub mod calls;
pub mod commands;
pub mod credentials;
pub mod error;
pub mod gateway;
pub mod host;
pub mod ids;
pub mod image_cache;
pub mod json;
pub mod keychain;
pub mod markup;
pub mod mfm;
pub mod models;
pub mod query_bridge;
pub mod responses;
pub mod session;
pub mod store;
pub mod streaming;
pub mod text;
pub mod theme;
pub mod timeline;
