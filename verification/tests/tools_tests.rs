use turbomcp::json::{JsonMap, JsonValue};
use turbomcp::tools::{
    CallToolRequest, CallToolResult, ListToolsRequest, ListToolsResult, Tool, ToolAnnotations,
    ToolInputSchema,
};
use turbomcp::types::{
    AudioContent, ContentBlock, EmbeddedResource, ImageContent, ResourceContent, ResourceLink,
    TextContent, TextResourceContents,
};

fn type_schema(t: &str) -> JsonValue {
    let mut m = JsonMap::new();
    m.insert("type".to_string(), JsonValue::String(t.to_string()));
    JsonValue::Object(m)
}

fn text(s: &str) -> ContentBlock {
    ContentBlock::Text(TextContent { text: s.to_string(), annotations: None, meta: None })
}

fn result_of(content: Vec<ContentBlock>, is_error: Option<bool>) -> CallToolResult {
    CallToolResult { content, is_error, structured_content: None, _meta: None, task_id: None }
}

#[test]
fn test_list_tools_result() {
    let result = ListToolsResult { tools: vec![], next_cursor: Some("next".to_string()), _meta: None };

    assert!(result.tools.is_empty());
    assert_eq!(result.next_cursor, Some("next".to_string()));
}

#[test]
fn test_call_tool_request() {
    let mut arguments = JsonMap::new();
    arguments.insert("param1".to_string(), JsonValue::String("value1".to_string()));

    let request = CallToolRequest {
        name: "test_tool".to_string(),
        arguments: Some(arguments),
        task: None,
        _meta: None,
    };

    assert_eq!(request.name, "test_tool");
    assert!(request.arguments.is_some());
}

#[test]
fn test_call_tool_result() {
    let content = vec![text("Tool result")];
    let result = CallToolResult {
        content,
        is_error: Some(false),
        structured_content: None,
        _meta: None,
        task_id: None,
    };

    assert_eq!(result.content.len(), 1);
    assert_eq!(result.is_error, Some(false));
}

#[test]
fn test_tool() {
    let tool = Tool {
        name: "calculator".to_string(),
        title: Some("Calculator Tool".to_string()),
        description: Some("Performs calculations".to_string()),
        input_schema: ToolInputSchema {
            schema_type: "object".to_string(),
            properties: None,
            required: None,
            additional_properties: None,
            definitions: None,
        },
        output_schema: None,
        execution: None,
        annotations: None,
        meta: None,
    };

    assert_eq!(tool.name, "calculator");
    assert_eq!(tool.title, Some("Calculator Tool".to_string()));
    assert_eq!(tool.input_schema.schema_type, "object");
}

#[test]
fn test_tool_with_annotations() {
    let mut annotations = ToolAnnotations::default();
    annotations.title = Some("Annotated Tool".to_string());
    annotations.audience = Some(vec!["developers".to_string()]);

    let tool = Tool {
        name: "annotated_tool".to_string(),
        title: None,
        description: None,
        input_schema: ToolInputSchema {
            schema_type: "object".to_string(),
            properties: None,
            required: None,
            additional_properties: None,
            definitions: None,
        },
        output_schema: None,
        execution: None,
        annotations: Some(annotations),
        meta: None,
    };

    assert!(tool.annotations.is_some());
    if let Some(ref ann) = tool.annotations {
        assert_eq!(ann.title, Some("Annotated Tool".to_string()));
    }
}

#[test]
fn test_tool_input_schema() {
    let mut properties = JsonMap::new();
    properties.insert("param1".to_string(), type_schema("string"));

    let schema = ToolInputSchema {
        schema_type: "object".to_string(),
        properties: Some(properties),
        required: Some(vec!["param1".to_string()]),
        additional_properties: Some(false),
        definitions: None,
    };

    assert_eq!(schema.schema_type, "object");
    assert!(schema.properties.is_some());
    assert_eq!(schema.required, Some(vec!["param1".to_string()]));
    assert_eq!(schema.additional_properties, Some(false));
}

#[test]
fn test_clean_tool_creation() {
    let tool = Tool::new("test_tool");

    assert_eq!(tool.name, "test_tool");
    assert_eq!(tool.input_schema.schema_type, "object");
    assert!(tool.description.is_none());
    assert!(tool.title.is_none());
    assert!(tool.annotations.is_none());
    assert!(tool.meta.is_none());
}

#[test]
fn test_clean_tool_with_description() {
    let tool = Tool::with_description("test_tool", "A test tool");

    assert_eq!(tool.name, "test_tool");
    assert_eq!(tool.description.as_deref(), Some("A test tool"));
}

#[test]
fn test_turbomcp_tool_definition_conversion_clean() {
    let turbomcp_tool = Tool::with_description("test_tool", "A test tool");

    assert_eq!(turbomcp_tool.name, "test_tool");
    assert_eq!(turbomcp_tool.description, Some("A test tool".to_string()));
}

#[test]
fn test_turbomcp_tool_definition_conversion_no_description() {
    let turbomcp_tool = Tool::new("test_tool");

    assert_eq!(turbomcp_tool.name, "test_tool");
    assert_eq!(turbomcp_tool.description, None);
}

#[test]
fn test_input_schema_defaults() {
    let schema = ToolInputSchema::default();

    assert_eq!(schema.schema_type, "object");
    assert!(schema.properties.is_none());
    assert!(schema.required.is_none());
    assert!(schema.additional_properties.is_none());
}

#[test]
fn test_input_schema_builder_methods() {
    let empty_schema = ToolInputSchema::empty();
    assert_eq!(empty_schema.schema_type, "object");

    let mut props = JsonMap::new();
    props.insert("x".to_string(), type_schema("number"));
    props.insert("y".to_string(), type_schema("number"));

    let schema_with_props = ToolInputSchema::with_properties(props.clone());
    assert_eq!(schema_with_props.properties, Some(props.clone()));

    let required_schema =
        ToolInputSchema::with_required_properties(props.clone(), vec!["x".to_string(), "y".to_string()]);
    assert_eq!(required_schema.properties, Some(props));
    assert_eq!(required_schema.required, Some(vec!["x".to_string(), "y".to_string()]));
}

#[test]
fn test_tool_name_validation() {
    let tool = Tool::new("valid_name");
    assert_eq!(tool.name, "valid_name");

    let tool_with_desc = Tool::with_description("valid_name", "description");
    assert_eq!(tool_with_desc.name, "valid_name");
    assert_eq!(tool_with_desc.description, Some("description".to_string()));
}

#[test]
fn test_tool_default_has_valid_name() {
    let tool = Tool::default();
    assert_eq!(tool.name, "unnamed_tool");
    assert!(!tool.name.trim().is_empty());
}

#[test]
fn list_tools_request_default_is_empty() {
    let request = ListToolsRequest::default();
    assert!(request.cursor.is_none());
    assert!(request._meta.is_none());
}

#[test]
fn add_property_then_require_it() {
    let schema = ToolInputSchema::empty()
        .add_property("name".to_string(), type_schema("string"))
        .require_property("name".to_string());
    let props = schema.properties.as_ref().unwrap();
    assert_eq!(props.get("name"), Some(&type_schema("string")));
    assert_eq!(schema.required, Some(vec!["name".to_string()]));
}

#[test]
fn add_property_twice_keeps_the_later_description() {
    let schema = ToolInputSchema::empty()
        .add_property("n".to_string(), type_schema("string"))
        .add_property("n".to_string(), type_schema("number"));
    let props = schema.properties.as_ref().unwrap();
    assert_eq!(props.len(), 1);
    assert_eq!(props.get("n"), Some(&type_schema("number")));
}

#[test]
fn require_property_twice_requires_it_once() {
    let once = ToolInputSchema::empty().require_property("a".to_string());
    let twice = ToolInputSchema::empty().require_property("a".to_string()).require_property("a".to_string());
    assert_eq!(once.required, Some(vec!["a".to_string()]));
    assert_eq!(twice.required, once.required);

    let both = twice.require_property("b".to_string());
    assert_eq!(both.required, Some(vec!["a".to_string(), "b".to_string()]));
}

#[test]
fn all_text_joins_text_blocks_with_newlines() {
    let result = result_of(
        vec![
            text("Line 1"),
            ContentBlock::Image(ImageContent {
                data: "abcd".to_string(),
                mime_type: "image/png".to_string(),
                annotations: None,
                meta: None,
            }),
            text("Line 2"),
        ],
        None,
    );
    assert_eq!(result.all_text(), "Line 1\nLine 2");
    assert_eq!(result_of(vec![], None).all_text(), "");
}

#[test]
fn first_text_reads_only_a_leading_text_block() {
    let result = result_of(vec![text("Hello, world!"), text("second")], None);
    assert_eq!(result.first_text(), Some("Hello, world!"));
    assert!(result.all_text().starts_with(result.first_text().unwrap()));

    let image_first = result_of(
        vec![
            ContentBlock::Image(ImageContent {
                data: "x".to_string(),
                mime_type: "image/png".to_string(),
                annotations: None,
                meta: None,
            }),
            text("later"),
        ],
        None,
    );
    assert_eq!(image_first.first_text(), None);
    assert_eq!(result_of(vec![], None).first_text(), None);
}

#[test]
fn has_error_only_when_set_to_true() {
    assert!(!result_of(vec![], Some(false)).has_error());
    assert!(result_of(vec![], Some(true)).has_error());
    assert!(!result_of(vec![], None).has_error());
}

#[test]
fn display_string_of_plain_text_is_its_text() {
    let result = result_of(vec![text("Operation completed"), text("done")], Some(false));
    assert_eq!(result.to_display_string(), "Operation completed\ndone");
    assert_eq!(result.to_display_string(), result.all_text());
}

#[test]
fn display_string_renders_every_kind_of_block() {
    let mut result = result_of(
        vec![
            text("hello"),
            ContentBlock::Image(ImageContent {
                data: "héllo".to_string(),
                mime_type: "image/png".to_string(),
                annotations: None,
                meta: None,
            }),
            ContentBlock::Audio(AudioContent {
                data: "abc".to_string(),
                mime_type: "audio/wav".to_string(),
                annotations: None,
                meta: None,
            }),
            ContentBlock::ResourceLink(ResourceLink {
                name: "doc".to_string(),
                title: None,
                uri: "file:///doc".to_string(),
                description: Some("A document".to_string()),
                mime_type: Some("text/plain".to_string()),
                annotations: None,
                size: None,
                meta: None,
            }),
            ContentBlock::ResourceLink(ResourceLink {
                name: "bare".to_string(),
                title: None,
                uri: "file:///bare".to_string(),
                description: None,
                mime_type: None,
                annotations: None,
                size: None,
                meta: None,
            }),
            ContentBlock::Resource(EmbeddedResource {
                resource: ResourceContent::Text(TextResourceContents {
                    uri: "file:///x".to_string(),
                    mime_type: None,
                    text: "x".to_string(),
                    meta: None,
                }),
                annotations: None,
                meta: None,
            }),
        ],
        Some(true),
    );
    result.structured_content = Some(JsonValue::Null);
    assert_eq!(
        result.to_display_string(),
        "ERROR:\nhello\n[Image: 6 bytes, type: image/png]\n[Audio: 3 bytes, type: audio/wav]\n\
         [Resource: doc [text/plain]: A document]\n[Resource: bare]\n[Embedded Resource #6]\n\
         [Includes structured output]"
    );
}

#[test]
fn empty_schema_accepts_no_parameters() {
    let schema = ToolInputSchema::empty();
    assert_eq!(schema.schema_type, "object");
    assert!(schema.properties.is_none());
    assert!(schema.required.is_none());
    assert_eq!(schema.additional_properties, Some(false));
}
