//! Verified core of an HTTP egress proxy exposed as MCP tools: request
//! validation, response body collection with truncation, header maps and
//! the shaping of responses into the tools' result types.
use vstd::prelude::*;

pub mod body;
pub mod codec;
pub mod error;
pub mod headers;
pub mod http_client;
pub mod proxy;
pub mod types;

verus! {
} // verus!
