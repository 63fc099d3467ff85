//! Verified core of a load-balancing link shortener.
//!
//! A creator submits one or more destination URLs and receives a short code;
//! visitors resolving the code are redirected to one destination chosen at
//! random, with per-destination and per-link click accounting. Creation is
//! gated behind a payment step unless a submitted destination matches a
//! pre-approved prefix; a blacklist rejects abusive destinations outright.

pub mod codegen;
pub mod error;
pub mod filter;
pub mod info;
pub mod ip;
pub mod model;
pub mod provision;
pub mod resolve;
pub mod stats;
pub mod store;
pub mod text;
