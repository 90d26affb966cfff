//! A verified core of the Model Context Protocol (MCP) toolkit: protocol
//! types, tool definitions and results, protocol validation, handler
//! construction, tool routing, and the decisions behind the server macros.

pub mod text;
pub mod named_map;
pub mod json;
pub mod types;
pub mod error_codes;
pub mod jsonrpc;
pub mod tools;
pub mod validation;
pub mod test_helpers;
pub mod handlers;
pub mod router;
pub mod macros;
