//! Agent-to-agent protocol client core: binding negotiation, request
//! encoding for the JSON-RPC and REST bindings, decoding of replies into one
//! error taxonomy, an incremental Server-Sent-Events parser, and the
//! agent-side routing of the same wire conventions.

pub mod types;
pub mod binding;
pub mod json;
pub mod error;
pub mod sse;
pub mod http;
pub mod rest;
pub mod jsonrpc;
pub mod client;
pub mod routes;
