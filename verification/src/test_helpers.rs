//! Fixtures for tests: well-formed protocol objects, and assertions on
//! validation results.

use vstd::prelude::*;
use crate::jsonrpc::{JsonRpcRequest, JsonRpcVersion, RequestId};
use crate::text::push_str;
use crate::tools::{Tool, ToolInputSchema};
use crate::types::{ClientCapabilities, Implementation, InitializeRequest, Prompt, PromptArgument, Resource};
use crate::validation::{Outcome, ValidationResult};

verus! {

/// A `tools/list` request with id `test-123` and no parameters.
pub fn test_request() -> (r: JsonRpcRequest)
    ensures
        r.method@ == "tools/list"@,
        r.params is None,
        r.id matches RequestId::String(s) && s@ == "test-123"@,
{
    JsonRpcRequest {
        jsonrpc: JsonRpcVersion,
        method: "tools/list".to_string(),
        params: None,
        id: RequestId::String("test-123".to_string()),
    }
}

/// A tool named `test_tool` with a title, a description and an object schema.
pub fn test_tool() -> (t: Tool)
    ensures
        t.name@ == "test_tool"@,
        t.title matches Some(s) && s@ == "Test Tool"@,
        t.description matches Some(s) && s@ == "A test tool for validation"@,
        t.input_schema.schema_type@ == "object"@,
        t.input_schema.properties is None,
        t.input_schema.required is None,
        t.input_schema.additional_properties is None,
        t.input_schema.definitions is None,
        t.output_schema is None,
        t.execution is None,
        t.annotations is None,
        t.meta is None,
{
    Tool {
        name: "test_tool".to_string(),
        title: Some("Test Tool".to_string()),
        description: Some("A test tool for validation".to_string()),
        input_schema: ToolInputSchema {
            schema_type: "object".to_string(),
            properties: None,
            required: None,
            additional_properties: None,
            definitions: None,
        },
        output_schema: None,
        execution: None,
        annotations: None,
        meta: None,
    }
}

/// A prompt named `test_prompt` with a title, a description and no arguments.
pub fn test_prompt() -> (p: Prompt)
    ensures
        p.name@ == "test_prompt"@,
        p.title matches Some(s) && s@ == "Test Prompt"@,
        p.description matches Some(s) && s@ == "A test prompt"@,
        p.arguments is None,
        p.meta is None,
{
    Prompt {
        name: "test_prompt".to_string(),
        title: Some("Test Prompt".to_string()),
        description: Some("A test prompt".to_string()),
        arguments: None,
        meta: None,
    }
}

/// A required prompt argument called `name`, titled `Argument {name}` and
/// described as `Description for {name}`.
pub fn test_prompt_argument(name: &str) -> (a: PromptArgument)
    ensures
        a.name@ == name@,
        a.title matches Some(s) && s@ == "Argument "@ + name@,
        a.description matches Some(s) && s@ == "Description for "@ + name@,
        a.required == Some(true),
{
    let mut title = "Argument ".to_string();
    push_str(&mut title, name);
    let mut description = "Description for ".to_string();
    push_str(&mut description, name);
    PromptArgument {
        name: name.to_string(),
        title: Some(title),
        description: Some(description),
        required: Some(true),
    }
}

/// A 1024-byte plain-text resource at `file://test/resource.txt`.
pub fn test_resource() -> (r: Resource)
    ensures
        r.name@ == "test_resource"@,
        r.title matches Some(s) && s@ == "Test Resource"@,
        r.uri@ == "file://test/resource.txt"@,
        r.description matches Some(s) && s@ == "A test resource"@,
        r.mime_type matches Some(s) && s@ == "text/plain"@,
        r.annotations is None,
        r.size == Some(1024u64),
        r.meta is None,
{
    Resource {
        name: "test_resource".to_string(),
        title: Some("Test Resource".to_string()),
        uri: "file://test/resource.txt".to_string(),
        description: Some("A test resource".to_string()),
        mime_type: Some("text/plain".to_string()),
        annotations: None,
        size: Some(1024),
        meta: None,
    }
}

/// An initialize request for protocol version 2025-06-18 from `test-client`
/// 1.0.0, with default capabilities.
pub fn test_initialize_request() -> (r: InitializeRequest)
    ensures
        r.protocol_version@ == "2025-06-18"@,
        r.capabilities.experimental is None,
        r.capabilities.roots is None,
        r.capabilities.sampling is None,
        r.capabilities.elicitation is None,
        r.client_info.name@ == "test-client"@,
        r.client_info.title matches Some(s) && s@ == "Test Client"@,
        r.client_info.version@ == "1.0.0"@,
        r._meta is None,
{
    InitializeRequest {
        protocol_version: "2025-06-18".to_string(),
        capabilities: ClientCapabilities::default(),
        client_info: Implementation {
            name: "test-client".to_string(),
            title: Some("Test Client".to_string()),
            version: "1.0.0".to_string(),
        },
        _meta: None,
    }
}

/// Asserts that a validation passed without warnings: only such results
/// may be handed to it.
pub fn assert_valid(result: &ValidationResult)
    requires
        result@ is Valid,
{
}

/// Asserts that a validation failed: only invalid results may be handed to it.
pub fn assert_invalid(result: &ValidationResult)
    requires
        result@ is Invalid,
{
}

} // verus!
