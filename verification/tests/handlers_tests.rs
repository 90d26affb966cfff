use turbomcp::handlers::{prompt, resource, tool, tool_with_schema};
use turbomcp::json::{JsonMap, JsonValue};
use turbomcp::tools::ToolInputSchema;

fn echo(args: JsonValue) -> JsonValue {
    args
}

#[test]
fn tool_handler_definition_is_titled_by_name() {
    let h = tool("echo", "Echoes its arguments", echo as fn(JsonValue) -> JsonValue);
    let def = h.tool_definition();
    assert_eq!(def.name, "echo");
    assert_eq!(def.title.as_deref(), Some("echo"));
    assert_eq!(def.description.as_deref(), Some("Echoes its arguments"));
    assert_eq!(def.input_schema.schema_type, "object");
    assert_eq!(def.input_schema.properties, Some(JsonMap::new()));
    assert!(def.input_schema.required.is_none());
    assert_eq!((h.handler())(JsonValue::Bool(true)), JsonValue::Bool(true));
}

#[test]
fn tool_with_schema_keeps_the_schema() {
    let schema = ToolInputSchema::empty().require_property("x".to_string());
    let expected = ToolInputSchema::empty().require_property("x".to_string());
    let h = tool_with_schema("calc", "Calculates", schema, echo as fn(JsonValue) -> JsonValue);
    assert_eq!(h.tool_definition().input_schema, expected);
    assert_eq!(h.tool_definition().name, "calc");
}

#[test]
fn prompt_handler_definition_has_no_arguments() {
    let h = prompt("greeting", "Says hello", 7u32);
    let def = h.prompt_definition();
    assert_eq!(def.name, "greeting");
    assert_eq!(def.title.as_deref(), Some("greeting"));
    assert_eq!(def.description.as_deref(), Some("Says hello"));
    assert!(def.arguments.is_none());
    assert_eq!(*h.handler(), 7);
}

#[test]
fn resource_handler_definition_is_plain_text() {
    let h = resource("file:///notes.txt", "notes", 1u8);
    let def = h.resource_definition();
    assert_eq!(def.uri, "file:///notes.txt");
    assert_eq!(def.name, "notes");
    assert_eq!(def.title.as_deref(), Some("notes"));
    assert_eq!(def.mime_type.as_deref(), Some("text/plain"));
    assert!(def.description.is_none());
    assert!(h.resource_exists("file:///anything"));
}
