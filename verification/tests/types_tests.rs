use turbomcp::error_codes;
use turbomcp::json::{JsonMap, JsonValue};
use turbomcp::jsonrpc::JsonRpcError;
use turbomcp::types::{
    Annotations, AudioContent, Base64String, BaseMetadata, BlobResourceContents, ClientCapabilities,
    ClientNotification, CompletionCapabilities, Content, ContentBlock, Cursor, ImageContent,
    Implementation, InitializeRequest, InitializeResult, InitializedNotification, LogLevel,
    LoggingCapabilities, MimeType, PromptsCapabilities, ProtocolVersion, Resource, ResourceContent,
    ResourcesCapabilities, Role, RootsCapabilities, SamplingCapabilities, ElicitationCapabilities,
    ServerCapabilities, TextContent, TextResourceContents,
    ToolsCapabilities, Uri,
};

#[test]
fn test_type_aliases() {
    let _protocol_version: ProtocolVersion = "1.0.0".to_string();
    let _uri: Uri = "https://example.com".to_string();
    let _mime_type: MimeType = "text/plain".to_string();
    let _base64: Base64String = "SGVsbG8gV29ybGQ=".to_string();
    let _cursor: Cursor = "next_page".to_string();
}

#[test]
fn test_jsonrpc_error_new() {
    let error = JsonRpcError::new(404, "Not found".to_string());
    assert_eq!(error.code, 404);
    assert_eq!(error.message, "Not found");
    assert!(error.data.is_none());
}

#[test]
fn test_jsonrpc_error_clone() {
    let original = JsonRpcError::new(500, "Error".to_string());
    let cloned = original.clone();
    assert_eq!(original.code, cloned.code);
    assert_eq!(original.message, cloned.message);
}

#[test]
fn test_jsonrpc_error_debug() {
    let error = JsonRpcError::new(404, "Not found".to_string());
    let debug = format!("{error:?}");
    assert!(debug.contains("JsonRpcError"));
    assert!(debug.contains("404"));
    assert!(debug.contains("Not found"));
}

#[test]
fn test_jsonrpc_error_equality() {
    let error1 = JsonRpcError::new(400, "Bad Request".to_string());
    let error2 = JsonRpcError::new(400, "Bad Request".to_string());
    let error3 = JsonRpcError::new(404, "Not Found".to_string());

    assert_eq!(error1, error2);
    assert_ne!(error1, error3);
}

#[test]
fn test_base_metadata() {
    let metadata = BaseMetadata {
        name: "test_name".to_string(),
        title: Some("Test Title".to_string()),
    };

    assert_eq!(metadata.name, "test_name");
    assert_eq!(metadata.title, Some("Test Title".to_string()));
}

#[test]
fn test_base_metadata_no_title() {
    let metadata = BaseMetadata {
        name: "test_name".to_string(),
        title: None,
    };

    assert_eq!(metadata.name, "test_name");
    assert_eq!(metadata.title, None);
}

#[test]
fn test_implementation() {
    let impl_info = Implementation {
        name: "test-server".to_string(),
        title: Some("Test Server".to_string()),
        version: "1.0.0".to_string(),
    };

    assert_eq!(impl_info.name, "test-server");
    assert_eq!(impl_info.title, Some("Test Server".to_string()));
    assert_eq!(impl_info.version, "1.0.0");
}

#[test]
fn test_implementation_no_title() {
    let impl_info = Implementation {
        name: "minimal-server".to_string(),
        title: None,
        version: "0.1.0".to_string(),
    };

    assert_eq!(impl_info.name, "minimal-server");
    assert_eq!(impl_info.title, None);
    assert_eq!(impl_info.version, "0.1.0");
}

#[test]
fn test_annotations_default() {
    let annotations = Annotations::default();
    assert!(annotations.audience.is_none());
    assert!(annotations.last_modified.is_none());
    assert_eq!(annotations.custom.len(), 0);
}

#[test]
fn test_role_variants() {
    let user_role = Role::User;
    let assistant_role = Role::Assistant;

    assert!(matches!(user_role, Role::User));
    assert!(matches!(assistant_role, Role::Assistant));
}

#[test]
fn test_role_clone() {
    let original = Role::User;
    let cloned = original;
    assert!(matches!(cloned, Role::User));
}

#[test]
fn test_log_level_copy() {
    let original = LogLevel::Warning;
    let copied = original;
    assert!(matches!(copied, LogLevel::Warning));
    assert!(matches!(original, LogLevel::Warning));
}

#[test]
fn test_text_content() {
    let text_content = TextContent {
        text: "Hello, World!".to_string(),
        annotations: None,
        meta: None,
    };

    assert_eq!(text_content.text, "Hello, World!");
    assert!(text_content.annotations.is_none());
    assert!(text_content.meta.is_none());
}

#[test]
fn test_image_content() {
    let image_content = ImageContent {
        data: "base64encodedimage".to_string(),
        mime_type: "image/png".to_string(),
        annotations: None,
        meta: None,
    };

    assert_eq!(image_content.data, "base64encodedimage");
    assert_eq!(image_content.mime_type, "image/png");
}

#[test]
fn test_audio_content() {
    let audio_content = AudioContent {
        data: "base64encodedaudio".to_string(),
        mime_type: "audio/wav".to_string(),
        annotations: None,
        meta: None,
    };

    assert_eq!(audio_content.data, "base64encodedaudio");
    assert_eq!(audio_content.mime_type, "audio/wav");
}

#[test]
fn test_content_block_variants() {
    let text = ContentBlock::Text(TextContent {
        text: "Hello".to_string(),
        annotations: None,
        meta: None,
    });

    let image = ContentBlock::Image(ImageContent {
        data: "image_data".to_string(),
        mime_type: "image/jpeg".to_string(),
        annotations: None,
        meta: None,
    });

    match text {
        ContentBlock::Text(content) => assert_eq!(content.text, "Hello"),
        _ => panic!("Expected text content"),
    }

    match image {
        ContentBlock::Image(content) => assert_eq!(content.mime_type, "image/jpeg"),
        _ => panic!("Expected image content"),
    }
}

#[test]
fn test_content_alias() {
    let text_content: Content = ContentBlock::Text(TextContent {
        text: "Alias test".to_string(),
        annotations: None,
        meta: None,
    });

    match text_content {
        ContentBlock::Text(content) => assert_eq!(content.text, "Alias test"),
        _ => panic!("Expected text content"),
    }
}

#[test]
fn test_client_capabilities_default() {
    let capabilities = ClientCapabilities::default();
    assert!(capabilities.experimental.is_none());
    assert!(capabilities.roots.is_none());
    assert!(capabilities.sampling.is_none());
    assert!(capabilities.elicitation.is_none());
}

#[test]
fn test_server_capabilities_default() {
    let capabilities = ServerCapabilities::default();
    assert!(capabilities.experimental.is_none());
    assert!(capabilities.logging.is_none());
    assert!(capabilities.completions.is_none());
    assert!(capabilities.prompts.is_none());
    assert!(capabilities.resources.is_none());
    assert!(capabilities.tools.is_none());
}

#[test]
fn test_server_capabilities_with_values() {
    let capabilities = ServerCapabilities {
        experimental: None,
        logging: Some(LoggingCapabilities),
        completions: Some(CompletionCapabilities),
        prompts: Some(PromptsCapabilities {
            list_changed: Some(false),
        }),
        resources: Some(ResourcesCapabilities {
            subscribe: Some(true),
            list_changed: Some(true),
        }),
        tools: Some(ToolsCapabilities {
            list_changed: Some(false),
        }),
    };

    assert!(capabilities.logging.is_some());
    assert!(capabilities.completions.is_some());
    assert!(capabilities.prompts.is_some());
    assert!(capabilities.resources.is_some());
    assert!(capabilities.tools.is_some());
}

#[test]
fn test_initialize_request() {
    let request = InitializeRequest {
        protocol_version: "1.0.0".to_string(),
        capabilities: ClientCapabilities::default(),
        client_info: Implementation {
            name: "test-client".to_string(),
            title: None,
            version: "1.0.0".to_string(),
        },
        _meta: None,
    };

    assert_eq!(request.protocol_version, "1.0.0");
    assert_eq!(request.client_info.name, "test-client");
}

#[test]
fn test_initialize_result() {
    let result = InitializeResult {
        protocol_version: "1.0.0".to_string(),
        capabilities: ServerCapabilities::default(),
        server_info: Implementation {
            name: "test-server".to_string(),
            title: Some("Test Server".to_string()),
            version: "1.0.0".to_string(),
        },
        instructions: Some("Welcome to the server".to_string()),
        _meta: None,
    };

    assert_eq!(result.protocol_version, "1.0.0");
    assert_eq!(result.server_info.name, "test-server");
    assert_eq!(
        result.instructions,
        Some("Welcome to the server".to_string())
    );
}

#[test]
fn test_resource() {
    let resource = Resource {
        name: "test_resource".to_string(),
        title: Some("Test Resource".to_string()),
        uri: "file://test.txt".to_string(),
        description: Some("A test resource".to_string()),
        mime_type: Some("text/plain".to_string()),
        annotations: None,
        size: Some(1024),
        meta: None,
    };

    assert_eq!(resource.name, "test_resource");
    assert_eq!(resource.uri, "file://test.txt");
    assert_eq!(resource.size, Some(1024));
}

#[test]
fn test_text_resource_contents() {
    let contents = TextResourceContents {
        uri: "file://test.txt".to_string(),
        mime_type: Some("text/plain".to_string()),
        text: "Hello, World!".to_string(),
        meta: None,
    };

    assert_eq!(contents.text, "Hello, World!");
    assert_eq!(contents.mime_type, Some("text/plain".to_string()));
}

#[test]
fn test_blob_resource_contents() {
    let contents = BlobResourceContents {
        uri: "file://image.png".to_string(),
        mime_type: Some("image/png".to_string()),
        blob: "base64encodeddata".to_string(),
        meta: None,
    };

    assert_eq!(contents.blob, "base64encodeddata");
    assert_eq!(contents.mime_type, Some("image/png".to_string()));
}

#[test]
fn test_resource_content_variants() {
    let text_content = ResourceContent::Text(TextResourceContents {
        uri: "file://test.txt".to_string(),
        mime_type: Some("text/plain".to_string()),
        text: "Content".to_string(),
        meta: None,
    });

    let blob_content = ResourceContent::Blob(BlobResourceContents {
        uri: "file://image.png".to_string(),
        mime_type: Some("image/png".to_string()),
        blob: "data".to_string(),
        meta: None,
    });

    match text_content {
        ResourceContent::Text(contents) => assert_eq!(contents.text, "Content"),
        _ => panic!("Expected text content"),
    }

    match blob_content {
        ResourceContent::Blob(contents) => assert_eq!(contents.blob, "data"),
        _ => panic!("Expected blob content"),
    }
}

#[test]
fn test_client_notification_variants() {
    let initialized = ClientNotification::Initialized(InitializedNotification {});

    match initialized {
        ClientNotification::Initialized(_) => (),
        _ => panic!("Expected initialized notification"),
    }
}

#[test]
fn test_text_content_with_annotations() {
    let mut meta = JsonMap::new();
    meta.insert("source".to_string(), turbomcp::json::JsonValue::String("test".to_string()));
    let text_content = TextContent {
        text: "Content with meta".to_string(),
        annotations: Some(Annotations::default()),
        meta: Some(meta),
    };
    assert_eq!(text_content.text, "Content with meta");
    assert!(text_content.annotations.is_some());
    assert_eq!(text_content.meta.as_ref().map(|m| m.len()), Some(1));
}

#[test]
fn test_error_codes() {
    assert_eq!(error_codes::PARSE_ERROR, -32700);
    assert_eq!(error_codes::INVALID_REQUEST, -32600);
    assert_eq!(error_codes::METHOD_NOT_FOUND, -32601);
    assert_eq!(error_codes::INVALID_PARAMS, -32602);
    assert_eq!(error_codes::INTERNAL_ERROR, -32603);
}

#[test]
fn test_jsonrpc_error_with_data() {
    let mut details = JsonMap::new();
    details.insert("details".to_string(), JsonValue::String("More info".to_string()));
    let data = JsonValue::Object(details);
    let error = JsonRpcError::with_data(500, "Server error".to_string(), data.clone());
    assert_eq!(error.code, 500);
    assert_eq!(error.message, "Server error");
    assert_eq!(error.data, Some(data));
}

#[test]
fn test_jsonrpc_error_parse_error() {
    let error = JsonRpcError::parse_error();
    assert_eq!(error.code, error_codes::PARSE_ERROR);
    assert_eq!(error.message, "Parse error");
}

#[test]
fn test_jsonrpc_error_invalid_request() {
    let error = JsonRpcError::invalid_request();
    assert_eq!(error.code, error_codes::INVALID_REQUEST);
    assert_eq!(error.message, "Invalid Request");
}

#[test]
fn test_jsonrpc_error_method_not_found() {
    let error = JsonRpcError::method_not_found("test_method");
    assert_eq!(error.code, error_codes::METHOD_NOT_FOUND);
    assert_eq!(error.message, "Method not found: test_method");
}

#[test]
fn test_jsonrpc_error_invalid_params() {
    let error = JsonRpcError::invalid_params("missing required field");
    assert_eq!(error.code, error_codes::INVALID_PARAMS);
    assert_eq!(error.message, "Invalid params: missing required field");
}

#[test]
fn test_jsonrpc_error_internal_error() {
    let error = JsonRpcError::internal_error("database connection failed");
    assert_eq!(error.code, error_codes::INTERNAL_ERROR);
    assert_eq!(error.message, "Internal error: database connection failed");
}

#[test]
fn test_annotations_with_values() {
    let mut custom = JsonMap::new();
    custom.insert("key1".to_string(), JsonValue::String("value1".to_string()));
    custom.insert("key2".to_string(), JsonValue::Number("42".to_string()));

    let mut annotations = Annotations::default();
    annotations.audience = Some(vec!["developers".to_string(), "users".to_string()]);
    annotations.custom = custom;

    assert_eq!(
        annotations.audience,
        Some(vec!["developers".to_string(), "users".to_string()])
    );
    assert_eq!(annotations.custom.len(), 2);
}

#[test]
fn test_client_capabilities_with_values() {
    let mut experimental = JsonMap::new();
    experimental.insert("feature1".to_string(), JsonValue::Bool(true));

    let capabilities = ClientCapabilities {
        experimental: Some(experimental),
        roots: Some(RootsCapabilities { list_changed: Some(true) }),
        sampling: Some(SamplingCapabilities),
        elicitation: Some(ElicitationCapabilities::default()),
    };

    assert!(capabilities.experimental.is_some());
    assert!(capabilities.roots.is_some());
    assert!(capabilities.sampling.is_some());
    assert!(capabilities.elicitation.is_some());
}
