//! The decisions of a caching MCP proxy that stands in front of an HTTP MCP server.

pub mod base_url;
pub mod eviction;
pub mod fallback;
pub mod headers;
pub mod method;
pub mod policy;
pub mod response;
pub mod startup;
pub mod text;
