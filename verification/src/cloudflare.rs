//! The Cloudflare adapter for exact relay names.

pub mod plan;
pub mod provider;
