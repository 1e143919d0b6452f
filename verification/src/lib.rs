//! The logic of a GitHub and Hugging Face download proxy, with its contracts.
//!
//! - `text`: character-sequence helpers (search, prefix, split, decimal
//!   parsing) the other modules build on.
//! - `config`: the runtime settings and their defaults.
//! - `matcher`: which URLs the proxy serves, by GitHub and Hugging Face
//!   patterns.
//! - `headers`: hop-by-hop, sensitive and forwarded header lines.
//! - `proxy`: the landing page's answer, request-path to upstream-URL mapping,
//!   URL normalization and percent-decoding.
//! - `redirect`: the upstream loop as a state machine (what to send, and what
//!   each upstream reply leads to).
//! - `homepage`: the landing page.

pub mod text;
pub mod matcher;
pub mod config;
pub mod homepage;
pub mod headers;
pub mod proxy;
pub mod redirect;
