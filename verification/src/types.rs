//! Core MCP protocol types: metadata, content blocks, resources, prompts,
//! capabilities and the initialize handshake.

use vstd::prelude::*;
use crate::json::{JsonMap, JsonValue};

verus! {

/// A protocol version string, such as `2025-06-18`.
pub type ProtocolVersion = String;

/// A URI.
pub type Uri = String;

/// A MIME type.
pub type MimeType = String;

/// Base64-encoded data.
pub type Base64String = String;

/// An opaque pagination cursor.
pub type Cursor = String;

/// Name and optional display title shared by many protocol objects.
#[derive(Debug, Clone, PartialEq)]
pub struct BaseMetadata {
    pub name: String,
    pub title: Option<String>,
}

/// Name, title and version of an MCP client or server implementation.
#[derive(Debug, Clone, PartialEq)]
pub struct Implementation {
    pub name: String,
    pub title: Option<String>,
    pub version: String,
}

/// The sender or recipient of a message.
#[derive(Debug, Clone, Copy, PartialEq, Eq)]
pub enum Role {
    User,
    Assistant,
}

/// Severity of a log message, from least to most severe.
#[derive(Debug, Clone, Copy, PartialEq, Eq)]
pub enum LogLevel {
    Debug,
    Info,
    Notice,
    Warning,
    Error,
    Critical,
    Alert,
    Emergency,
}

/// Optional hints attached to content: intended audience, last modification
/// time and application-specific entries. (The numeric priority hint stays
/// with the serialized form.)
#[derive(Debug, PartialEq)]
pub struct Annotations {
    pub audience: Option<Vec<String>>,
    pub last_modified: Option<String>,
    pub custom: JsonMap,
}

impl Default for Annotations {
    fn default() -> (r: Self)
        ensures
            r.audience is None,
            r.last_modified is None,
            r.custom.map() == Map::<Seq<char>, JsonValue>::empty(),
    {
        Annotations { audience: None, last_modified: None, custom: JsonMap::new() }
    }
}

/// Text content.
#[derive(Debug, PartialEq)]
pub struct TextContent {
    pub text: String,
    pub annotations: Option<Annotations>,
    pub meta: Option<JsonMap>,
}

/// Base64-encoded image content.
#[derive(Debug, PartialEq)]
pub struct ImageContent {
    pub data: String,
    pub mime_type: String,
    pub annotations: Option<Annotations>,
    pub meta: Option<JsonMap>,
}

/// Base64-encoded audio content.
#[derive(Debug, PartialEq)]
pub struct AudioContent {
    pub data: String,
    pub mime_type: String,
    pub annotations: Option<Annotations>,
    pub meta: Option<JsonMap>,
}

/// A link to a resource that the client can read.
#[derive(Debug, PartialEq)]
pub struct ResourceLink {
    pub name: String,
    pub title: Option<String>,
    pub uri: String,
    pub description: Option<String>,
    pub mime_type: Option<String>,
    pub annotations: Option<Annotations>,
    pub size: Option<u64>,
    pub meta: Option<JsonMap>,
}

/// A resource whose contents are embedded in the message.
#[derive(Debug, PartialEq)]
pub struct EmbeddedResource {
    pub resource: ResourceContent,
    pub annotations: Option<Annotations>,
    pub meta: Option<JsonMap>,
}

/// One block of content in a message or tool result.
#[derive(Debug, PartialEq)]
pub enum ContentBlock {
    Text(TextContent),
    Image(ImageContent),
    Audio(AudioContent),
    ResourceLink(ResourceLink),
    Resource(EmbeddedResource),
}

/// Another name for [`ContentBlock`].
pub type Content = ContentBlock;

/// A resource that a server offers.
#[derive(Debug, PartialEq)]
pub struct Resource {
    pub name: String,
    pub title: Option<String>,
    pub uri: String,
    pub description: Option<String>,
    pub mime_type: Option<String>,
    pub annotations: Option<Annotations>,
    pub size: Option<u64>,
    pub meta: Option<JsonMap>,
}

/// The text contents of a resource.
#[derive(Debug, PartialEq)]
pub struct TextResourceContents {
    pub uri: String,
    pub mime_type: Option<String>,
    pub text: String,
    pub meta: Option<JsonMap>,
}

/// The binary contents of a resource, Base64-encoded.
#[derive(Debug, PartialEq)]
pub struct BlobResourceContents {
    pub uri: String,
    pub mime_type: Option<String>,
    pub blob: String,
    pub meta: Option<JsonMap>,
}

/// The contents of a resource, as text or as a blob.
#[derive(Debug, PartialEq)]
pub enum ResourceContent {
    Text(TextResourceContents),
    Blob(BlobResourceContents),
}

/// An argument that a prompt template accepts.
#[derive(Debug, Clone, PartialEq)]
pub struct PromptArgument {
    pub name: String,
    pub title: Option<String>,
    pub description: Option<String>,
    pub required: Option<bool>,
}

/// A prompt template that a server offers.
#[derive(Debug, PartialEq)]
pub struct Prompt {
    pub name: String,
    pub title: Option<String>,
    pub description: Option<String>,
    pub arguments: Option<Vec<PromptArgument>>,
    pub meta: Option<JsonMap>,
}

/// The server supports sending log messages.
#[derive(Debug, Clone, Copy, PartialEq, Eq)]
pub struct LoggingCapabilities;

/// The server supports argument completion.
#[derive(Debug, Clone, Copy, PartialEq, Eq)]
pub struct CompletionCapabilities;

/// The server offers prompts.
#[derive(Debug, Clone, Copy, PartialEq, Eq)]
pub struct PromptsCapabilities {
    pub list_changed: Option<bool>,
}

/// The server offers resources.
#[derive(Debug, Clone, Copy, PartialEq, Eq)]
pub struct ResourcesCapabilities {
    pub subscribe: Option<bool>,
    pub list_changed: Option<bool>,
}

/// The server offers tools.
#[derive(Debug, Clone, Copy, PartialEq, Eq)]
pub struct ToolsCapabilities {
    pub list_changed: Option<bool>,
}

/// What a server supports.
#[derive(Debug, PartialEq)]
pub struct ServerCapabilities {
    pub experimental: Option<JsonMap>,
    pub logging: Option<LoggingCapabilities>,
    pub completions: Option<CompletionCapabilities>,
    pub prompts: Option<PromptsCapabilities>,
    pub resources: Option<ResourcesCapabilities>,
    pub tools: Option<ToolsCapabilities>,
}

impl Default for ServerCapabilities {
    fn default() -> (r: Self)
        ensures
            r.experimental is None,
            r.logging is None,
            r.completions is None,
            r.prompts is None,
            r.resources is None,
            r.tools is None,
    {
        ServerCapabilities {
            experimental: None,
            logging: None,
            completions: None,
            prompts: None,
            resources: None,
            tools: None,
        }
    }
}

/// The client exposes filesystem roots.
#[derive(Debug, Clone, Copy, PartialEq, Eq)]
pub struct RootsCapabilities {
    pub list_changed: Option<bool>,
}

/// The client supports sampling requests.
#[derive(Debug, Clone, Copy, PartialEq, Eq)]
pub struct SamplingCapabilities;

/// The client supports elicitation requests.
#[derive(Debug, Clone, Copy, PartialEq, Eq)]
pub struct ElicitationCapabilities;

impl Default for ElicitationCapabilities {
    fn default() -> (r: Self) {
        ElicitationCapabilities
    }
}

/// What a client supports.
#[derive(Debug, PartialEq)]
pub struct ClientCapabilities {
    pub experimental: Option<JsonMap>,
    pub roots: Option<RootsCapabilities>,
    pub sampling: Option<SamplingCapabilities>,
    pub elicitation: Option<ElicitationCapabilities>,
}

impl Default for ClientCapabilities {
    fn default() -> (r: Self)
        ensures
            r.experimental is None,
            r.roots is None,
            r.sampling is None,
            r.elicitation is None,
    {
        ClientCapabilities { experimental: None, roots: None, sampling: None, elicitation: None }
    }
}

/// The first request a client sends.
#[derive(Debug, PartialEq)]
pub struct InitializeRequest {
    pub protocol_version: String,
    pub capabilities: ClientCapabilities,
    pub client_info: Implementation,
    pub _meta: Option<JsonValue>,
}

/// The server's answer to an initialize request.
#[derive(Debug, PartialEq)]
pub struct InitializeResult {
    pub protocol_version: String,
    pub capabilities: ServerCapabilities,
    pub server_info: Implementation,
    pub instructions: Option<String>,
    pub _meta: Option<JsonValue>,
}

/// Sent by the client once initialization has finished.
#[derive(Debug, Clone, Copy, PartialEq, Eq)]
pub struct InitializedNotification {}

/// Sent by the client when its list of roots changed.
#[derive(Debug, Clone, Copy, PartialEq, Eq)]
pub struct RootsListChangedNotification {}

/// A notification sent from client to server.
#[derive(Debug, Clone, Copy, PartialEq, Eq)]
pub enum ClientNotification {
    Initialized(InitializedNotification),
    RootsListChanged(RootsListChangedNotification),
}

} // verus!
