//! Verified core of a restricted SSH command runner served over the Model
//! Context Protocol: JSON-RPC routing, configuration validation, target
//! lookup, ssh invocation planning and output capping.

pub mod config;
pub mod json;
pub mod jsonrpc;
pub mod mcp;
pub mod ssh;
pub mod targets;
pub mod text;
