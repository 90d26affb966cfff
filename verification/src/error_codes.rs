//! Standard JSON-RPC 2.0 error codes.

use vstd::prelude::*;

verus! {

/// The message could not be parsed as JSON.
pub const PARSE_ERROR: i32 = -32700;

/// The message is not a valid request object.
pub const INVALID_REQUEST: i32 = -32600;

/// The method does not exist or is not available.
pub const METHOD_NOT_FOUND: i32 = -32601;

/// The method parameters are invalid.
pub const INVALID_PARAMS: i32 = -32602;

/// An internal error occurred.
pub const INTERNAL_ERROR: i32 = -32603;

} // verus!
