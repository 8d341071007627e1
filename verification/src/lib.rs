//! Client subsystem for the Model Context Protocol (MCP): a manager that
//! connects to a configurable set of tool-provider servers over stdio or
//! streamable HTTP, performs the JSON-RPC 2.0 initialize handshake, discovers
//! each server's tools, and dispatches tool calls.
//!
//! The crate holds the subsystem's decisions: the frame codec, the
//! configuration reader, the per-session handshake and id machine, the
//! reading of replies and tool results, and the manager's aggregation. The
//! host performs the byte transport — spawning children, writing and reading
//! lines, posting over HTTP — and hands every received value back as a
//! [`json::Json`] for the verified code to judge.

pub mod codec;
pub mod config;
pub mod errors;
pub mod json;
pub mod manager;
pub mod parse;
pub mod render;
pub mod session;
pub mod text;
