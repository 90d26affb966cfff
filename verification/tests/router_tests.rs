use turbomcp::json::{JsonMap, JsonValue};
use turbomcp::jsonrpc::{JsonRpcError, JsonRpcResponse, RequestId};
use turbomcp::router::{
    handler_arguments, registered_tool_definition, tool_call_outcome, tool_call_request, McpError,
    ToolRouter, ToolRouterExt,
};
use turbomcp::tools::CallToolResult;
use turbomcp::types::{ContentBlock, TextContent};

#[derive(Debug, Default, PartialEq)]
struct TestServer;

type Handler = fn(JsonValue) -> CallToolResult;

fn hello(_args: JsonValue) -> CallToolResult {
    CallToolResult {
        content: vec![ContentBlock::Text(TextContent {
            text: "Hello".to_string(),
            annotations: None,
            meta: None,
        })],
        is_error: None,
        structured_content: None,
        _meta: None,
        task_id: None,
    }
}

fn bye(_args: JsonValue) -> CallToolResult {
    CallToolResult::default()
}

#[test]
fn test_router_creation() {
    let router: ToolRouter<TestServer, Handler> = ToolRouter::new(TestServer);
    let tools = router.list_tools();
    assert!(tools.is_empty());
}

#[test]
fn test_tool_registration() {
    let mut router: ToolRouter<TestServer, Handler> = ToolRouter::new(TestServer);

    let result = router.register_tool("test_tool".to_string(), hello);

    assert!(result.is_ok());

    let tools = router.list_tools();
    assert!(tools.contains(&"test_tool".to_string()));
}

#[test]
fn registering_an_empty_name_is_refused() {
    let mut router: ToolRouter<TestServer, Handler> = ToolRouter::new(TestServer);
    let result = router.register_tool(String::new(), hello);
    assert_eq!(
        result,
        Err(McpError::Tool("Registration failed: Tool name cannot be empty".to_string()))
    );
    assert!(router.list_tools().is_empty());
}

#[test]
fn registered_tool_is_routed_and_reregistering_replaces_it() {
    let mut router: ToolRouter<TestServer, Handler> = ToolRouter::new(TestServer);
    router.register_tool("greet".to_string(), hello).unwrap();
    {
        let routed = router.router();
        let h = routed.route_tool_call("greet").expect("registered");
        assert_eq!(h(JsonValue::Null).all_text(), "Hello");
        assert!(routed.route_tool_call("missing").is_none());
    }
    router.register_tool("greet".to_string(), bye).unwrap();
    assert_eq!(router.list_tools(), vec!["greet".to_string()]);
    let h = router.router().route_tool_call("greet").copied().unwrap();
    assert_eq!(h(JsonValue::Null).all_text(), "");
    assert_eq!(router.registry().tools.len(), 1);
}

#[test]
fn combining_no_router_is_refused() {
    let routers: Vec<ToolRouter<TestServer, Handler>> = vec![];
    let result = ToolRouter::combine(routers);
    assert!(matches!(result, Err(McpError::Tool(ref m)) if m == "Cannot combine empty router list"));
}

#[test]
fn combining_routers_unites_their_tools_and_the_later_wins() {
    let mut a: ToolRouter<TestServer, Handler> = ToolRouter::new(TestServer);
    a.register_tool("shared".to_string(), hello).unwrap();
    a.register_tool("only_a".to_string(), hello).unwrap();
    let mut b: ToolRouter<TestServer, Handler> = ToolRouter::new(TestServer);
    b.register_tool("shared".to_string(), bye).unwrap();
    b.register_tool("only_b".to_string(), bye).unwrap();

    let combined = ToolRouter::combine(vec![a, b]).unwrap();
    let mut names = combined.list_tools();
    names.sort();
    assert_eq!(names, vec!["only_a".to_string(), "only_b".to_string(), "shared".to_string()]);
    let routed = combined.router();
    assert_eq!(routed.route_tool_call("shared").unwrap()(JsonValue::Null).all_text(), "");
    assert_eq!(routed.route_tool_call("only_a").unwrap()(JsonValue::Null).all_text(), "Hello");
}

#[test]
fn combining_one_router_keeps_its_tools() {
    let mut a: ToolRouter<TestServer, Handler> = ToolRouter::new(TestServer);
    a.register_tool("x".to_string(), hello).unwrap();
    let combined = ToolRouter::combine(vec![a]).unwrap();
    assert_eq!(combined.list_tools(), vec!["x".to_string()]);
}

#[test]
fn tool_call_request_carries_name_and_arguments() {
    let mut args = JsonMap::new();
    args.insert("a".to_string(), JsonValue::Number("1".to_string()));
    let request = tool_call_request("add", JsonValue::Object(args.clone()), "req-7");
    assert_eq!(request.method, "tools/call");
    assert_eq!(request.id, RequestId::String("req-7".to_string()));
    match request.params {
        Some(JsonValue::Object(m)) => {
            assert_eq!(m.get("name"), Some(&JsonValue::String("add".to_string())));
            assert_eq!(m.get("arguments"), Some(&JsonValue::Object(args)));
            assert_eq!(m.len(), 2);
        }
        other => panic!("unexpected params: {other:?}"),
    }
}

#[test]
fn tool_call_outcome_reports_errors_by_message() {
    let ok = JsonRpcResponse::success(JsonValue::Bool(true), RequestId::Number(1));
    assert_eq!(tool_call_outcome(&ok), Ok(&JsonValue::Bool(true)));

    let failed = JsonRpcResponse::error_response(
        JsonRpcError::new(-32603, "boom".to_string()),
        RequestId::Number(2),
    );
    assert_eq!(
        tool_call_outcome(&failed),
        Err(McpError::Tool("Tool execution failed: boom".to_string()))
    );
}

#[test]
fn registered_tool_definition_is_generic() {
    let t = registered_tool_definition("calc");
    assert_eq!(t.name, "calc");
    assert_eq!(t.description.as_deref(), Some("Tool handler"));
    assert_eq!(t.input_schema.schema_type, "object");
    assert!(t.input_schema.properties.is_none());
}

#[test]
fn handler_arguments_default_to_an_empty_object() {
    assert_eq!(handler_arguments(None), JsonValue::Object(JsonMap::new()));
    let mut m = JsonMap::new();
    m.insert("k".to_string(), JsonValue::Null);
    assert_eq!(handler_arguments(Some(m.clone())), JsonValue::Object(m));
}
