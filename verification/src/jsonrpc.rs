//! JSON-RPC 2.0 message types.

use vstd::prelude::*;
use crate::error_codes;
use crate::json::JsonValue;
use crate::text::push_str;

verus! {

/// The `"jsonrpc": "2.0"` marker that every message carries.
#[derive(Debug, Clone, Copy, PartialEq, Eq)]
pub struct JsonRpcVersion;

/// The identifier of a request.
#[derive(Debug, Clone, PartialEq, Eq)]
pub enum RequestId {
    String(String),
    Number(i64),
}

/// Another name for [`RequestId`].
pub type MessageId = RequestId;

/// A request: a method call that expects a response.
#[derive(Debug, PartialEq)]
pub struct JsonRpcRequest {
    pub jsonrpc: JsonRpcVersion,
    pub method: String,
    pub params: Option<JsonValue>,
    pub id: RequestId,
}

/// A notification: a method call without a response.
#[derive(Debug, PartialEq)]
pub struct JsonRpcNotification {
    pub jsonrpc: JsonRpcVersion,
    pub method: String,
    pub params: Option<JsonValue>,
}

/// The error object of a failed request.
#[derive(Debug, Clone, PartialEq)]
pub struct JsonRpcError {
    pub code: i32,
    pub message: String,
    pub data: Option<JsonValue>,
}

/// `prefix` followed by `detail`, as a new string.
fn prefixed(prefix: &str, detail: &str) -> (s: String)
    ensures
        s@ == prefix@ + detail@,
{
    let mut s = prefix.to_string();
    push_str(&mut s, detail);
    s
}

impl JsonRpcError {
    /// An error with a code and a message and no data.
    pub fn new(code: i32, message: String) -> (e: Self)
        ensures
            e.code == code,
            e.message == message,
            e.data is None,
    {
        JsonRpcError { code, message, data: None }
    }

    /// An error with a code, a message and additional data.
    pub fn with_data(code: i32, message: String, data: JsonValue) -> (e: Self)
        ensures
            e.code == code,
            e.message == message,
            e.data == Some(data),
    {
        JsonRpcError { code, message, data: Some(data) }
    }

    /// The standard parse error.
    pub fn parse_error() -> (e: Self)
        ensures
            e.code == error_codes::PARSE_ERROR,
            e.message@ == "Parse error"@,
            e.data is None,
    {
        Self::new(error_codes::PARSE_ERROR, "Parse error".to_string())
    }

    /// The standard invalid-request error.
    pub fn invalid_request() -> (e: Self)
        ensures
            e.code == error_codes::INVALID_REQUEST,
            e.message@ == "Invalid Request"@,
            e.data is None,
    {
        Self::new(error_codes::INVALID_REQUEST, "Invalid Request".to_string())
    }

    /// The standard method-not-found error, naming the method.
    pub fn method_not_found(method: &str) -> (e: Self)
        ensures
            e.code == error_codes::METHOD_NOT_FOUND,
            e.message@ == "Method not found: "@ + method@,
            e.data is None,
    {
        Self::new(error_codes::METHOD_NOT_FOUND, prefixed("Method not found: ", method))
    }

    /// The standard invalid-params error, with a description.
    pub fn invalid_params(message: &str) -> (e: Self)
        ensures
            e.code == error_codes::INVALID_PARAMS,
            e.message@ == "Invalid params: "@ + message@,
            e.data is None,
    {
        Self::new(error_codes::INVALID_PARAMS, prefixed("Invalid params: ", message))
    }

    /// The standard internal error, with a description.
    pub fn internal_error(message: &str) -> (e: Self)
        ensures
            e.code == error_codes::INTERNAL_ERROR,
            e.message@ == "Internal error: "@ + message@,
            e.data is None,
    {
        Self::new(error_codes::INTERNAL_ERROR, prefixed("Internal error: ", message))
    }
}

/// What a response carries: a result or an error, never both.
#[derive(Debug, PartialEq)]
pub enum JsonRpcResponsePayload {
    Success { result: JsonValue },
    Error { error: JsonRpcError },
}

/// A response to a request.
#[derive(Debug, PartialEq)]
pub struct JsonRpcResponse {
    pub jsonrpc: JsonRpcVersion,
    pub payload: JsonRpcResponsePayload,
    pub id: Option<RequestId>,
}

impl JsonRpcResponse {
    /// A successful response to request `id`.
    pub fn success(result: JsonValue, id: RequestId) -> (r: Self)
        ensures
            r.payload == (JsonRpcResponsePayload::Success { result }),
            r.id == Some(id),
    {
        JsonRpcResponse {
            jsonrpc: JsonRpcVersion,
            payload: JsonRpcResponsePayload::Success { result },
            id: Some(id),
        }
    }

    /// An error response to request `id`.
    pub fn error_response(error: JsonRpcError, id: RequestId) -> (r: Self)
        ensures
            r.payload == (JsonRpcResponsePayload::Error { error }),
            r.id == Some(id),
    {
        JsonRpcResponse {
            jsonrpc: JsonRpcVersion,
            payload: JsonRpcResponsePayload::Error { error },
            id: Some(id),
        }
    }

    /// Whether the response carries a result.
    pub fn is_success(&self) -> (b: bool)
        ensures
            b == (self.payload is Success),
    {
        matches!(self.payload, JsonRpcResponsePayload::Success { .. })
    }

    /// Whether the response carries an error.
    pub fn is_error(&self) -> (b: bool)
        ensures
            b == (self.payload is Error),
    {
        matches!(self.payload, JsonRpcResponsePayload::Error { .. })
    }

    /// The result, if the response carries one.
    pub fn result(&self) -> (r: Option<&JsonValue>)
        ensures
            match self.payload {
                JsonRpcResponsePayload::Success { result } => r == Some(&result),
                JsonRpcResponsePayload::Error { .. } => r is None,
            },
    {
        match &self.payload {
            JsonRpcResponsePayload::Success { result } => Some(result),
            JsonRpcResponsePayload::Error { .. } => None,
        }
    }

    /// The error, if the response carries one.
    pub fn error(&self) -> (r: Option<&JsonRpcError>)
        ensures
            match self.payload {
                JsonRpcResponsePayload::Success { .. } => r is None,
                JsonRpcResponsePayload::Error { error } => r == Some(&error),
            },
    {
        match &self.payload {
            JsonRpcResponsePayload::Success { .. } => None,
            JsonRpcResponsePayload::Error { error } => Some(error),
        }
    }
}

} // verus!
