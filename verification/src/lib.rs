//! Reading ASAR archives, and the decisions of the native Codex shell.
use vstd::prelude::*;

pub mod archive;
pub mod auth;
pub mod base64;
pub mod cli;
pub mod config;
pub mod header;
pub mod http;
pub mod json;
pub mod listing;
pub mod mcp;
pub mod messages;
pub mod paths;
pub mod router;
pub mod shell;
pub mod store;
pub mod text;
pub mod workspace;

verus! {
} // verus!
