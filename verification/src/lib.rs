//! Verified core of a client for a remote manga-hosting REST API.
//!
//! The library holds the decision logic of the client: rate-limit-aware
//! retry, paginated collection fetching, CDN image-URL construction and
//! the planning side of the bounded-concurrency download orchestrator.
//! All network and filesystem work is performed by the (unverified)
//! application around it; the functions here compute, from plain values,
//! what that application should do next.

pub mod cdn;
pub mod client;
pub mod config;
pub mod download;
pub mod endpoints;
pub mod errors;
pub mod json;
pub mod lang;
pub mod menu;
pub mod models;
pub mod pagination;
pub mod paths;
pub mod pool;
pub mod search;
pub mod selection;
pub mod text;
