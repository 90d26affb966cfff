use turbomcp::json::{JsonMap, JsonValue};
use turbomcp::macros::attrs::{doc_comment_of, extract_resource_attrs, parse_handler_attrs};
use turbomcp::macros::flatten::{
    extract_struct_fields, flatten_method_names, generate_struct_construction, is_option_type,
    derive_flatten_tool,
};
use turbomcp::macros::server::{
    analyze_impl, crate_path, extract_tool_arguments, resource_request_check, resource_route,
    unsupported_task_methods, uri_refusal_message, PromptCall, ResourceRoute, ToolArg, ToolCall,
    UriRefusal, extract_prompt_arguments, find_prompt, find_resource, find_tool,
    handler_meta, is_request_context_type, keeps_method_attr, listed_prompts, listed_resources,
    listed_tools, generate_server, prompt_call_arguments, resource_template_matches,
    strip_handler_attributes, template_parts, validate_handlers, validate_impl_block, CrateLookup, MetaItem,
    MetaValue, ServerAttrs,
};
use turbomcp::macros::syntax::{
    AttrArgs, AttrModel, DataModel, DeriveInputModel, FieldModel, FieldsModel, FnArgModel,
    ImplItemModel, ImplModel, MethodModel, SigModel, TypeModel,
};

fn path_ty(segs: &[&str]) -> TypeModel {
    TypeModel::Path(segs.iter().map(|s| s.to_string()).collect())
}

fn derive_input(ident: &str, data: DataModel) -> DeriveInputModel {
    DeriveInputModel {
        ident: ident.to_string(),
        vis: String::new(),
        generics: String::new(),
        where_clause: String::new(),
        data,
    }
}

fn field(attrs: Vec<AttrModel>, ident: Option<&str>, ty: &[&str]) -> FieldModel {
    FieldModel {
        attrs,
        ident: ident.map(|s| s.to_string()),
        ty: path_ty(ty),
        ty_text: ty.join(" :: "),
    }
}

fn doc(line: &str) -> AttrModel {
    AttrModel { leading_colon: false, path: vec!["doc".to_string()], args: AttrArgs::NameValue(Some(line.to_string())) }
}

fn word(name: &str) -> AttrModel {
    AttrModel { leading_colon: false, path: vec![name.to_string()], args: AttrArgs::Word }
}

fn list(name: &str, tokens: &str) -> AttrModel {
    AttrModel { leading_colon: false, path: vec![name.to_string()], args: AttrArgs::List(tokens.to_string()) }
}

fn typed(name: &str, ty: TypeModel) -> FnArgModel {
    FnArgModel::Typed { attrs: vec![], name: Some(name.to_string()), ty }
}

fn method(attrs: Vec<AttrModel>, ident: &str, is_async: bool, inputs: Vec<FnArgModel>) -> ImplItemModel {
    ImplItemModel::Fn(MethodModel {
        attrs,
        sig: SigModel { ident: ident.to_string(), is_async, inputs },
    })
}

fn meta(key: &str, value: MetaValue) -> MetaItem {
    MetaItem { leading_colon: false, path: vec![key.to_string()], value }
}

fn str_value(s: &str) -> MetaValue {
    MetaValue::Str(s.to_string())
}

fn calculator_impl() -> ImplModel {
    ImplModel {
        is_trait_impl: false,
        self_ty: path_ty(&["crate", "Calculator"]),
        items: vec![
            method(
                vec![doc(" Adds two numbers."), list("tool", "\"Add two numbers\"")],
                "add",
                true,
                vec![FnArgModel::Receiver, typed("a", path_ty(&["i32"])), typed("b", path_ty(&["i32"]))],
            ),
            method(
                vec![
                    doc(" The history of an operation."),
                    list("resource", "\"calc://history/{operation}\" , tags = [\"audit\"]"),
                ],
                "history",
                true,
                vec![FnArgModel::Receiver, typed("operation", path_ty(&["String"]))],
            ),
            method(
                vec![list("prompt", "\"Generate a report\"")],
                "report",
                true,
                vec![
                    FnArgModel::Receiver,
                    typed("ctx", TypeModel::Reference(Box::new(path_ty(&["RequestContext"])))),
                    typed("operation", path_ty(&["String"])),
                    typed("count", path_ty(&["Option", "u32"])),
                ],
            ),
            method(vec![], "helper", false, vec![FnArgModel::Receiver]),
            ImplItemModel::Other,
        ],
    }
}

#[test]
fn test_extract_struct_fields() {
    let input = derive_input(
        "TestRequest",
        DataModel::Struct(FieldsModel::Named(vec![
            field(vec![doc(" Operation to perform")], Some("operation"), &["String"]),
            field(vec![doc(" Optional agent ID")], Some("agent_id"), &["Option"]),
        ])),
    );

    let fields = extract_struct_fields(&input).unwrap();
    assert_eq!(fields.len(), 2);

    assert_eq!(fields[0].name, "operation");
    assert_eq!(fields[0].doc.as_deref(), Some("Operation to perform"));
    assert!(!fields[0].is_optional);

    assert_eq!(fields[1].name, "agent_id");
    assert_eq!(fields[1].doc.as_deref(), Some("Optional agent ID"));
    assert!(fields[1].is_optional);
}

#[test]
fn struct_fields_errors() {
    let tuple = derive_input("T", DataModel::Struct(FieldsModel::Unnamed));
    assert_eq!(
        extract_struct_fields(&tuple).unwrap_err().message,
        "Only structs with named fields can be flattened"
    );
    let an_enum = derive_input("E", DataModel::Enum);
    assert_eq!(extract_struct_fields(&an_enum).unwrap_err().message, "Only structs can be flattened");
    let nameless = derive_input("N", DataModel::Struct(FieldsModel::Named(vec![field(vec![], None, &["u8"])])));
    assert_eq!(extract_struct_fields(&nameless).unwrap_err().message, "Field must have a name");
}

#[test]
fn option_type_is_read_from_the_last_segment() {
    assert!(is_option_type(&path_ty(&["std", "option", "Option"])));
    assert!(!is_option_type(&path_ty(&["Option", "Inner"])));
    assert!(!is_option_type(&TypeModel::Other));
}

#[test]
fn flatten_plan_names_methods_in_lowercase() {
    let mut input = derive_input(
        "AgentRequest",
        DataModel::Struct(FieldsModel::Named(vec![
            field(vec![], Some("operation"), &["String"]),
            field(vec![], Some("agent_id"), &["Option"]),
        ])),
    );
    input.vis = "pub".to_string();
    input.generics = "< T >".to_string();
    let plan = derive_flatten_tool(&input).unwrap();
    assert_eq!(plan.constructor, "agentrequest_from_flat");
    assert_eq!(plan.schema_method, "agentrequest_flat_schema");
    assert_eq!(
        plan.params,
        vec![
            ("operation".to_string(), "String".to_string()),
            ("agent_id".to_string(), "Option".to_string()),
        ]
    );
    assert_eq!(plan.body, "Self { operation, agent_id }");
    assert_eq!(plan.vis, "pub");
    assert_eq!(plan.generics, "< T >");
    assert_eq!(plan.where_clause, "");
    assert_eq!(
        flatten_method_names("x"),
        ("x_from_flat".to_string(), "x_flat_schema".to_string())
    );

    let fields = extract_struct_fields(&input).unwrap();
    assert_eq!(generate_struct_construction("AgentRequest", &fields), "AgentRequest { operation, agent_id }");

    let unit = derive_input("U", DataModel::Struct(FieldsModel::Unit));
    assert_eq!(
        derive_flatten_tool(&unit).unwrap_err().message,
        "FlattenTool only works with structs that have named fields"
    );
    let union = derive_input("U", DataModel::Union);
    assert_eq!(derive_flatten_tool(&union).unwrap_err().message, "FlattenTool can only be derived for structs");
}

#[test]
fn crate_path_prefers_turbomcp() {
    let name = |n: &str| CrateLookup::Name(n.to_string());
    assert_eq!(crate_path(&CrateLookup::Itself, &CrateLookup::NotFound), "::turbomcp");
    assert_eq!(crate_path(&name("mcp"), &CrateLookup::Itself), "::mcp");
    assert_eq!(crate_path(&CrateLookup::NotFound, &CrateLookup::Itself), "::turbomcp_server");
    assert_eq!(crate_path(&CrateLookup::NotFound, &name("server")), "::server");
    assert_eq!(crate_path(&CrateLookup::NotFound, &CrateLookup::NotFound), "crate");
}

#[test]
fn server_attrs_read_name_version_description() {
    let items = vec![
        meta("name", str_value("calc")),
        meta("version", str_value("2.0.0")),
        meta("description", str_value("A calculator")),
        meta("root", str_value("file:///tmp:Tmp")),
        meta("name", str_value("calculator")),
        meta("flag", MetaValue::Absent),
    ];
    let attrs = ServerAttrs::parse(&items).unwrap();
    assert_eq!(attrs.name.as_deref(), Some("calculator"));
    assert_eq!(attrs.version.as_deref(), Some("2.0.0"));
    assert_eq!(attrs.description.as_deref(), Some("A calculator"));

    let none = ServerAttrs::parse(&vec![]).unwrap();
    assert_eq!(none, ServerAttrs { name: None, version: None, description: None });
}

#[test]
fn server_attrs_errors() {
    let err = |items: Vec<MetaItem>| ServerAttrs::parse(&items).unwrap_err().message;
    assert_eq!(
        err(vec![meta("transports", MetaValue::Array)]),
        "`transports` attribute is deprecated. Enable features in Cargo.toml instead:\n\
         turbomcp = { version = \"3.0\", features = [\"http\", \"tcp\"] }\n\
         Then call transport methods: server.run_http(\"0.0.0.0:8080\").await"
    );
    assert_eq!(err(vec![meta("transports", str_value("http"))]), "expected square brackets");
    assert_eq!(err(vec![meta("name", MetaValue::Absent)]), "expected `=`");
    assert_eq!(err(vec![meta("version", MetaValue::Other)]), "expected string literal");
    assert_eq!(err(vec![meta("unknown", str_value("x"))]), "expected `,`");
}

#[test]
fn request_context_types() {
    assert!(is_request_context_type(&path_ty(&["RequestContext"])));
    assert!(is_request_context_type(&path_ty(&["turbomcp", "RequestContext"])));
    assert!(is_request_context_type(&TypeModel::Reference(Box::new(path_ty(&["MyRequestContextX"])))));
    assert!(!is_request_context_type(&path_ty(&["String"])));
    assert!(!is_request_context_type(&TypeModel::Other));
}

#[test]
fn prompt_arguments_skip_self_and_context() {
    let sig = SigModel {
        ident: "report".to_string(),
        is_async: true,
        inputs: vec![
            FnArgModel::Receiver,
            typed("self", path_ty(&["Self"])),
            typed("context", TypeModel::Reference(Box::new(path_ty(&["RequestContext"])))),
            typed("topic", path_ty(&["String"])),
            typed("limit", path_ty(&["Option", "u32"])),
            FnArgModel::Typed { attrs: vec![], name: None, ty: path_ty(&["u8"]) },
        ],
    };
    let args = extract_prompt_arguments(&sig);
    assert_eq!(args.len(), 2);
    assert_eq!(args[0].name, "topic");
    assert!(args[0].required);
    assert_eq!(args[1].name, "limit");
    assert!(!args[1].required);
    assert!(args[1].description.is_none());
}

#[test]
fn handler_attrs_read_description_tags_version() {
    let short = parse_handler_attrs(&list("prompt", "\"Generate code\""));
    assert_eq!(short.description.as_deref(), Some("Generate code"));
    assert!(short.tags.is_empty());

    let full = parse_handler_attrs(&list(
        "prompt",
        "description = \"Review code\" , tags = [\"dev\" , \"review\"] , version = \"1.2\"",
    ));
    assert_eq!(full.description.as_deref(), Some("Review code"));
    assert_eq!(full.tags, vec!["dev".to_string(), "review".to_string()]);
    assert_eq!(full.version.as_deref(), Some("1.2"));

    let bare = parse_handler_attrs(&word("prompt"));
    assert!(bare.description.is_none() && bare.tags.is_empty() && bare.version.is_none());
}

#[test]
fn resource_attrs() {
    let simple = extract_resource_attrs(&list("resource", "\"file://{path}\"")).unwrap();
    assert_eq!(simple.uri_template, "file://{path}");
    assert!(simple.mime_type.is_none());

    let full = extract_resource_attrs(&list(
        "resource",
        "\"config://{name}/settings\" , mime_type = \"text/plain\" , version = \"1.0\"",
    ))
    .unwrap();
    assert_eq!(full.uri_template, "config://{name}/settings");
    assert_eq!(full.mime_type.as_deref(), Some("text/plain"));
    assert_eq!(full.version.as_deref(), Some("1.0"));

    let message = extract_resource_attrs(&word("resource")).unwrap_err().message;
    assert_eq!(
        message,
        "Expected #[resource(\"uri://template\")] or #[resource(\"uri://template\", mime_type = \"text/plain\")]"
    );
    assert!(extract_resource_attrs(&list("resource", "no_uri")).is_err());
}

#[test]
fn doc_comments_join_trimmed_lines() {
    let attrs = vec![doc(" First line.  "), word("inline"), doc("   Second line.")];
    assert_eq!(doc_comment_of(&attrs, true).as_deref(), Some("First line. Second line."));
    assert_eq!(doc_comment_of(&attrs, false).as_deref(), Some("First line.   Second line."));
    assert_eq!(doc_comment_of(&vec![word("inline")], true), None);
}

#[test]
fn analyze_reads_the_handlers() {
    let attrs = ServerAttrs { name: None, version: None, description: Some("calc".to_string()) };
    let info = analyze_impl(&calculator_impl(), &attrs).unwrap();
    assert_eq!(info.struct_name, "Calculator");
    assert_eq!(info.name, "Calculator");
    assert_eq!(info.version, "1.0.0");
    assert_eq!(info.description.as_deref(), Some("calc"));

    assert_eq!(info.tools.len(), 1);
    assert_eq!(info.tools[0].name, "add");
    assert_eq!(info.tools[0].description, "Add two numbers");
    assert!(info.tools[0].is_async && info.tools[0].has_receiver);

    assert_eq!(info.resources.len(), 1);
    assert_eq!(info.resources[0].uri_template, "calc://history/{operation}");
    assert_eq!(info.resources[0].description.as_deref(), Some("The history of an operation."));
    assert_eq!(info.resources[0].tags, vec!["audit".to_string()]);

    assert_eq!(info.prompts.len(), 1);
    assert_eq!(info.prompts[0].description.as_deref(), Some("Generate a report"));
    assert_eq!(info.prompts[0].arguments.len(), 2);
    assert!(info.prompts[0].arguments[0].required);
    assert!(!info.prompts[0].arguments[1].required);
}

#[test]
fn analyze_errors() {
    let attrs = ServerAttrs { name: None, version: None, description: None };
    let mut not_named = calculator_impl();
    not_named.self_ty = TypeModel::Reference(Box::new(path_ty(&["X"])));
    assert_eq!(
        analyze_impl(&not_named, &attrs).unwrap_err().message,
        "The #[server] attribute only supports named types"
    );
    let mut empty_path = calculator_impl();
    empty_path.self_ty = TypeModel::Path(vec![]);
    assert_eq!(analyze_impl(&empty_path, &attrs).unwrap_err().message, "Expected a valid type path");
    let mut bad_resource = calculator_impl();
    bad_resource.items.push(method(vec![word("resource")], "broken", true, vec![]));
    assert!(analyze_impl(&bad_resource, &attrs).unwrap_err().message.starts_with("Expected #[resource("));
}

#[test]
fn impl_block_checks() {
    let mut trait_impl = calculator_impl();
    trait_impl.is_trait_impl = true;
    assert!(validate_impl_block(&trait_impl)
        .unwrap_err()
        .message
        .starts_with("#[server] cannot be used on trait implementations\n\nHint:"));

    let mut typo = calculator_impl();
    typo.items.push(method(vec![word("tools")], "oops", true, vec![FnArgModel::Receiver]));
    assert_eq!(
        validate_impl_block(&typo).unwrap_err().message,
        "Unknown attribute `#[tools]` - did you mean `#[tool]`?\n\nValid handler attributes: #[tool], #[resource], #[prompt]"
    );
    assert!(validate_impl_block(&calculator_impl()).is_ok());
}

#[test]
fn handler_checks() {
    let attrs = ServerAttrs { name: None, version: None, description: None };
    let mut block = calculator_impl();
    block.items.push(method(vec![word("tool")], "sync_tool", false, vec![FnArgModel::Receiver]));
    let info = analyze_impl(&block, &attrs).unwrap();
    assert_eq!(
        validate_handlers(&info).unwrap_err().message,
        "Tool `sync_tool` must be async\n\nHint: Add `async` to the function:\n\n#[tool]\nasync fn sync_tool(&self, ...) -> ... { ... }"
    );

    let mut block = calculator_impl();
    block.items.push(method(vec![word("tool")], "free", true, vec![]));
    let info = analyze_impl(&block, &attrs).unwrap();
    assert_eq!(
        validate_handlers(&info).unwrap_err().message,
        "Tool `free` must take &self as the first parameter\n\nHint: Add &self to the function:\n\n#[tool]\nasync fn free(&self, arg: String) -> String { ... }"
    );
}

#[test]
fn stripping_removes_handler_and_description_attrs() {
    let block = ImplModel {
        is_trait_impl: false,
        self_ty: path_ty(&["S"]),
        items: vec![method(
            vec![doc(" Docs."), word("tool"), word("inline")],
            "f",
            true,
            vec![
                FnArgModel::Receiver,
                FnArgModel::Typed {
                    attrs: vec![list("description", "\"x\""), word("allow")],
                    name: Some("x".to_string()),
                    ty: path_ty(&["u8"]),
                },
            ],
        )],
    };
    let stripped = strip_handler_attributes(block);
    match &stripped.items[0] {
        ImplItemModel::Fn(m) => {
            assert_eq!(m.attrs, vec![doc(" Docs."), word("inline")]);
            match &m.sig.inputs[1] {
                FnArgModel::Typed { attrs, .. } => assert_eq!(attrs, &vec![word("allow")]),
                FnArgModel::Receiver => panic!("parameter kind changed"),
            }
        }
        ImplItemModel::Other => panic!("item kind changed"),
    }
    assert!(!keeps_method_attr(&word("prompt")));
    assert!(keeps_method_attr(&word("doc")));
}

#[test]
fn meta_holds_tags_and_version() {
    assert!(handler_meta(&vec![], &None).is_none());
    let m = handler_meta(&vec!["a".to_string(), "b".to_string()], &Some("1.0".to_string())).unwrap();
    assert_eq!(
        m.get("tags"),
        Some(&JsonValue::Array(vec![JsonValue::String("a".to_string()), JsonValue::String("b".to_string())]))
    );
    assert_eq!(m.get("version"), Some(&JsonValue::String("1.0".to_string())));
    let only_version = handler_meta(&vec![], &Some("2".to_string())).unwrap();
    assert_eq!(only_version.len(), 1);
    assert!(only_version.get("tags").is_none());
}

#[test]
fn listings_follow_the_handlers() {
    let attrs = ServerAttrs { name: None, version: None, description: None };
    let info = analyze_impl(&calculator_impl(), &attrs).unwrap();
    let tools = listed_tools(&info);
    assert_eq!(tools.len(), 1);
    assert_eq!(tools[0].name, "add");
    assert_eq!(tools[0].description, "Add two numbers");
    assert!(tools[0].meta.is_none());

    let resources = listed_resources(&info);
    assert_eq!(resources[0].uri, "calc://history/{operation}");
    assert_eq!(resources[0].name, "history");
    assert_eq!(resources[0].description.as_deref(), Some("The history of an operation."));
    assert!(resources[0].meta.as_ref().unwrap().get("tags").is_some());

    let prompts = listed_prompts(&info);
    let args = prompts[0].arguments.as_ref().unwrap();
    assert_eq!(args.len(), 2);
    assert_eq!(args[0].name, "operation");
    assert_eq!(args[0].required, Some(true));
    assert_eq!(args[0].description.as_deref(), Some(""));
    assert_eq!(args[1].required, Some(false));
}

#[test]
fn dispatch_by_name_and_template() {
    let attrs = ServerAttrs { name: None, version: None, description: None };
    let info = analyze_impl(&calculator_impl(), &attrs).unwrap();
    assert_eq!(find_tool(&info, "add"), Some(0));
    assert_eq!(find_tool(&info, "sub"), None);
    assert_eq!(find_prompt(&info, "report"), Some(0));
    assert_eq!(find_prompt(&info, "add"), None);
    assert_eq!(find_resource(&info, "calc://history/add"), Some(0));
    assert_eq!(find_resource(&info, "file://x"), None);

    assert!(resource_template_matches("file://{path}", "file:///etc/hosts"));
    assert!(resource_template_matches("config://{name}/settings", "config://db/settings"));
    assert!(!resource_template_matches("config://{name}/settings", "config://db/other"));
    assert!(!resource_template_matches("a{x}a", "a"));
    assert!(resource_template_matches("fixed://one", "fixed://one"));
    assert_eq!(
        template_parts("config://{name}/settings"),
        Some(("config://".to_string(), "/settings".to_string()))
    );
    assert_eq!(template_parts("file://{path}"), Some(("file://".to_string(), "".to_string())));
    assert_eq!(template_parts("odd://{open"), Some(("odd://".to_string(), "odd://{open".to_string())));
    assert_eq!(template_parts("fixed://one"), None);
    assert!(!resource_template_matches("fixed://one", "fixed://one/two"));
}

#[test]
fn prompt_arguments_from_a_request() {
    let attrs = ServerAttrs { name: None, version: None, description: None };
    let info = analyze_impl(&calculator_impl(), &attrs).unwrap();
    let prompt = &info.prompts[0];

    let mut args = JsonMap::new();
    args.insert("operation".to_string(), JsonValue::String("add".to_string()));
    args.insert("count".to_string(), JsonValue::Number("3".to_string()));
    let values = prompt_call_arguments(prompt, &Some(JsonValue::Object(args))).unwrap();
    assert_eq!(values, vec![Some("add".to_string()), None]);

    assert_eq!(
        prompt_call_arguments(prompt, &None).unwrap_err(),
        "Missing required argument: operation"
    );
    assert_eq!(
        prompt_call_arguments(prompt, &Some(JsonValue::Null)).unwrap_err(),
        "Missing required argument: operation"
    );
}

#[test]
fn generate_server_runs_every_step() {
    let items = vec![meta("name", str_value("calc-server")), meta("version", str_value("3.1.0"))];
    let plan = generate_server(&items, calculator_impl(), "::turbomcp".to_string()).unwrap();
    assert_eq!(plan.krate, "::turbomcp");
    assert_eq!(
        plan.tool_calls,
        vec![ToolCall {
            name: "add".to_string(),
            arguments: vec![
                ToolArg::Receiver,
                ToolArg::Param { name: "a".to_string(), required: true },
                ToolArg::Param { name: "b".to_string(), required: true },
            ],
        }]
    );
    assert_eq!(
        plan.resource_routes,
        vec![(
            ResourceRoute::Template { prefix: "calc://history/".to_string(), suffix: "".to_string() },
            "history".to_string()
        )]
    );
    assert_eq!(plan.prompt_calls.len(), 1);
    let PromptCall { name, fn_name, arguments } = &plan.prompt_calls[0];
    assert_eq!((name.as_str(), fn_name.as_str(), arguments.len()), ("report", "report", 2));
    assert_eq!(plan.task_methods.len(), 4);
    assert_eq!(plan.tools[0].parameters, vec!["a".to_string(), "b".to_string()]);
    assert_eq!(plan.tools[0].required, vec!["a".to_string(), "b".to_string()]);
    assert!(plan.tools[0].title.is_none() && plan.tools[0].annotations.is_none());
    assert_eq!(plan.tools.len(), 1);
    assert_eq!(plan.resources.len(), 1);
    assert_eq!(plan.prompts.len(), 1);
    assert_eq!(plan.info.name, "calc-server");
    assert_eq!(plan.info.version, "3.1.0");
    match &plan.impl_block.items[0] {
        ImplItemModel::Fn(m) => assert_eq!(m.attrs, vec![doc(" Adds two numbers.")]),
        ImplItemModel::Other => panic!("item kind changed"),
    }

    let mut trait_impl = calculator_impl();
    trait_impl.is_trait_impl = true;
    let bad_args = vec![meta("transports", MetaValue::Array)];
    assert!(generate_server(&bad_args, trait_impl, "crate".to_string())
        .unwrap_err()
        .message
        .starts_with("#[server] cannot"));
    assert!(generate_server(&bad_args, calculator_impl(), "crate".to_string())
        .unwrap_err()
        .message
        .starts_with("`transports`"));
}

#[test]
fn tool_arguments_pass_context_and_read_the_rest() {
    let sig = SigModel {
        ident: "search".to_string(),
        is_async: true,
        inputs: vec![
            FnArgModel::Receiver,
            typed("ctx", TypeModel::Reference(Box::new(path_ty(&["RequestContext"])))),
            typed("query", path_ty(&["String"])),
            typed("limit", path_ty(&["Option", "u32"])),
            FnArgModel::Typed { attrs: vec![], name: None, ty: path_ty(&["u8"]) },
        ],
    };
    assert_eq!(
        extract_tool_arguments(&sig),
        vec![
            ToolArg::Receiver,
            ToolArg::Context,
            ToolArg::Param { name: "query".to_string(), required: true },
            ToolArg::Param { name: "limit".to_string(), required: false },
            ToolArg::Unnamed,
        ]
    );
}

#[test]
fn resource_routes_and_uri_checks() {
    assert_eq!(resource_route("fixed://one"), ResourceRoute::Exact("fixed://one".to_string()));
    assert_eq!(
        resource_route("file:///{id}/cfg"),
        ResourceRoute::Template { prefix: "file:///".to_string(), suffix: "/cfg".to_string() }
    );

    assert_eq!(resource_request_check("file:///a", 100, &Ok(())), Ok(()));
    let too_long = resource_request_check("file:///abcdef", 5, &Err("bad".to_string()));
    assert_eq!(too_long, Err(UriRefusal::TooLong { length: 14, max: 5 }));
    assert_eq!(uri_refusal_message(&too_long.unwrap_err()), "URI too long: 14 bytes (max: 5)");
    let scheme = resource_request_check("evil://x", 100, &Err("scheme not allowed".to_string()));
    assert_eq!(scheme, Err(UriRefusal::Scheme("scheme not allowed".to_string())));
    assert_eq!(
        uri_refusal_message(&scheme.unwrap_err()),
        "URI scheme validation failed: scheme not allowed"
    );
}

#[test]
fn generated_read_resource_calls_the_first_matching_route() {
    let block = ImplModel {
        is_trait_impl: false,
        self_ty: path_ty(&["S"]),
        items: vec![method(
            vec![list("resource", "\"file:///{id}/cfg\"")],
            "cfg",
            true,
            vec![FnArgModel::Receiver, typed("uri", path_ty(&["String"]))],
        )],
    };
    let plan = generate_server(&vec![], block, "crate".to_string()).unwrap();
    assert_eq!(find_resource(&plan.info, "file:///a/cfg"), Some(0));
    assert_eq!(find_resource(&plan.info, "file:///a/x"), None);
    assert_eq!(plan.resource_routes[0].1, "cfg");
}

#[test]
fn task_methods_are_answered_as_unsupported() {
    let methods = unsupported_task_methods();
    assert_eq!(
        methods,
        vec![
            ("list_tasks".to_string(), "tasks/list".to_string()),
            ("get_task".to_string(), "tasks/get".to_string()),
            ("cancel_task".to_string(), "tasks/cancel".to_string()),
            ("get_task_result".to_string(), "tasks/result".to_string()),
        ]
    );
}

#[test]
fn paths_with_a_leading_colon_are_not_bare_identifiers() {
    let rooted = |name: &str| AttrModel { leading_colon: true, path: vec![name.to_string()], args: AttrArgs::Word };
    assert!(keeps_method_attr(&rooted("tool")));
    let mut block = calculator_impl();
    block.items.push(method(vec![rooted("tools")], "rooted", true, vec![FnArgModel::Receiver]));
    assert!(validate_impl_block(&block).is_ok());
    let rooted_name = MetaItem { leading_colon: true, path: vec!["name".to_string()], value: MetaValue::Str("x".to_string()) };
    assert_eq!(ServerAttrs::parse(&vec![rooted_name]).unwrap_err().message, "expected `,`");
}
