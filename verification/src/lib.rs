//! Analysis of a single web page: what its markup says, how its text reads,
//! and how it stands on security. The library decides and computes; fetching,
//! rendering and storing are the caller's work, done between the steps that
//! `pipeline` lays out. `accounts`, `models`, `records` and `usage` hold the
//! rules of the service that is built around the analysis.

pub mod accounts;
pub mod analytics;
pub mod dictionary;
pub mod document;
pub mod error;
pub mod extract;
pub mod models;
pub mod page_url;
pub mod patterns;
pub mod pipeline;
pub mod records;
pub mod resources;
pub mod security;
pub mod text;
pub mod usage;
