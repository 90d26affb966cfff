//! The `#[server]` macro: which crate path the generated code names, what
//! the macro's arguments say, what it reads from the impl block, what it
//! checks, and how the handler it generates lists and dispatches tools,
//! resources and prompts.

use vstd::prelude::*;
use crate::json::{JsonMap, JsonValue};
use crate::named_map::NamedMap;
use crate::text::{
    chars_of, contains_seq, find_char, find_from, find_seq, join, join_strings, matches_at, push_str,
    str_eq, string_of, views,
};
use crate::tools::{ToolAnnotations, ToolExecution, ToolOutputSchema};
use crate::types::{Prompt, PromptArgument, Resource};
use super::syntax::{
    AttrModel, FnArgModel, ImplItemModel, ImplModel, MacroError, MethodModel, SigModel, TypeModel,
    attr_is, idents, path_is,
};
use super::attrs::{
    HandlerAttrsView, doc_comment, doc_comment_of, extract_resource_attrs, handler_attrs, opt_view,
    parse_handler_attrs, resource_attr, resource_attr_message,
};

verus! {

/// Where a crate was found among the dependencies of the crate being built.
#[derive(Debug, Clone, PartialEq, Eq)]
pub enum CrateLookup {
    /// The crate being built is that crate.
    Itself,
    /// A dependency under this name.
    Name(String),
    /// Not a dependency.
    NotFound,
}

/// The path by which generated code names the framework: `turbomcp` where it
/// is a dependency (or the crate itself), else `turbomcp-server`, else the
/// crate being built.
pub open spec fn crate_path_spec(turbomcp: CrateLookup, server: CrateLookup) -> Seq<char> {
    match turbomcp {
        CrateLookup::Itself => "::turbomcp"@,
        CrateLookup::Name(n) => "::"@ + n@,
        CrateLookup::NotFound => match server {
            CrateLookup::Itself => "::turbomcp_server"@,
            CrateLookup::Name(n) => "::"@ + n@,
            CrateLookup::NotFound => "crate"@,
        },
    }
}

/// The path by which generated code names the framework, from where the
/// `turbomcp` and `turbomcp-server` crates were found.
pub fn crate_path(turbomcp: &CrateLookup, server: &CrateLookup) -> (r: String)
    ensures
        r@ == crate_path_spec(*turbomcp, *server),
{
    match turbomcp {
        CrateLookup::Itself => "::turbomcp".to_string(),
        CrateLookup::Name(n) => {
            let mut s = "::".to_string();
            push_str(&mut s, n.as_str());
            s
        },
        CrateLookup::NotFound => match server {
            CrateLookup::Itself => "::turbomcp_server".to_string(),
            CrateLookup::Name(n) => {
                let mut s = "::".to_string();
                push_str(&mut s, n.as_str());
                s
            },
            CrateLookup::NotFound => "crate".to_string(),
        },
    }
}

/// What follows the path of an entry of the `#[server(...)]` arguments.
#[derive(Debug, Clone, PartialEq, Eq)]
pub enum MetaValue {
    /// Nothing: the entry is a bare path.
    Absent,
    /// `= "..."`, with the string the literal denotes.
    Str(String),
    /// `= [...]`.
    Array,
    /// `=` and anything else, or other tokens after the path.
    Other,
}

/// An entry of the `#[server(...)]` arguments.
#[derive(Debug, Clone, PartialEq, Eq)]
pub struct MetaItem {
    /// Whether the entry's path starts with `::`.
    pub leading_colon: bool,
    /// The identifiers of the entry's path.
    pub path: Vec<String>,
    pub value: MetaValue,
}

/// Whether an entry's path is the single identifier `name`.
pub open spec fn meta_path_is(item: MetaItem, name: Seq<char>) -> bool {
    !item.leading_colon && item.path@.len() == 1 && item.path@[0]@ == name
}

fn meta_is(item: &MetaItem, name: &str) -> (b: bool)
    ensures
        b == meta_path_is(*item, name@),
{
    !item.leading_colon && item.path.len() == 1 && str_eq(item.path[0].as_str(), name)
}

/// The arguments of `#[server(...)]`.
#[derive(Debug, Clone, PartialEq, Eq)]
pub struct ServerAttrs {
    pub name: Option<String>,
    pub version: Option<String>,
    pub description: Option<String>,
}

/// The arguments of `#[server(...)]`, as mathematical values.
pub ghost struct ServerAttrsView {
    pub name: Option<Seq<char>>,
    pub version: Option<Seq<char>>,
    pub description: Option<Seq<char>>,
}

impl View for ServerAttrs {
    type V = ServerAttrsView;

    open spec fn view(&self) -> ServerAttrsView {
        ServerAttrsView {
            name: opt_view(self.name),
            version: opt_view(self.version),
            description: opt_view(self.description),
        }
    }
}

/// The message for an entry whose value is missing.
pub open spec fn expected_value_message() -> Seq<char> {
    "expected `=`"@
}

/// The message for an entry whose value is not a string literal.
pub open spec fn expected_string_message() -> Seq<char> {
    "expected string literal"@
}

/// The message for a `transports` entry whose value is not an array.
pub open spec fn expected_array_message() -> Seq<char> {
    "expected square brackets"@
}

/// The message for an unknown entry that has a value.
pub open spec fn expected_comma_message() -> Seq<char> {
    "expected `,`"@
}

/// The message for a `transports` entry.
pub open spec fn transports_message() -> Seq<char> {
    "`transports` attribute is deprecated. Enable features in Cargo.toml instead:\nturbomcp = { version = \"3.0\", features = [\"http\", \"tcp\"] }\nThen call transport methods: server.run_http(\"0.0.0.0:8080\").await"@
}

/// The value of a `key = "..."` entry, or the message for a malformed one.
pub open spec fn string_entry(value: MetaValue) -> Result<Seq<char>, Seq<char>> {
    match value {
        MetaValue::Str(s) => Ok(s@),
        MetaValue::Absent => Err(expected_value_message()),
        _ => Err(expected_string_message()),
    }
}

/// What one entry does to the arguments read so far: `name`, `version` and
/// `description` set their field (a later entry wins); `root` is read and
/// ignored; `transports` is refused as deprecated; any other bare path is
/// ignored.
pub open spec fn server_attr_step(acc: ServerAttrsView, item: MetaItem) -> Result<
    ServerAttrsView,
    Seq<char>,
> {
    if meta_path_is(item, "name"@) {
        match string_entry(item.value) {
            Ok(s) => Ok(ServerAttrsView { name: Some(s), ..acc }),
            Err(m) => Err(m),
        }
    } else if meta_path_is(item, "version"@) {
        match string_entry(item.value) {
            Ok(s) => Ok(ServerAttrsView { version: Some(s), ..acc }),
            Err(m) => Err(m),
        }
    } else if meta_path_is(item, "description"@) {
        match string_entry(item.value) {
            Ok(s) => Ok(ServerAttrsView { description: Some(s), ..acc }),
            Err(m) => Err(m),
        }
    } else if meta_path_is(item, "root"@) {
        match string_entry(item.value) {
            Ok(_) => Ok(acc),
            Err(m) => Err(m),
        }
    } else if meta_path_is(item, "transports"@) {
        match item.value {
            MetaValue::Absent => Err(expected_value_message()),
            MetaValue::Array => Err(transports_message()),
            _ => Err(expected_array_message()),
        }
    } else {
        match item.value {
            MetaValue::Absent => Ok(acc),
            _ => Err(expected_comma_message()),
        }
    }
}

/// The arguments that `items` give, starting from `acc`; the first
/// malformed entry's message where there is one.
pub open spec fn server_attrs_from(items: Seq<MetaItem>, acc: ServerAttrsView) -> Result<
    ServerAttrsView,
    Seq<char>,
>
    decreases items.len(),
{
    if items.len() == 0 {
        Ok(acc)
    } else {
        match server_attr_step(acc, items[0]) {
            Ok(a) => server_attrs_from(items.skip(1), a),
            Err(m) => Err(m),
        }
    }
}

/// The arguments that the entries `items` of `#[server(...)]` give.
pub open spec fn server_attrs(items: Seq<MetaItem>) -> Result<ServerAttrsView, Seq<char>> {
    server_attrs_from(items, ServerAttrsView { name: None, version: None, description: None })
}

impl ServerAttrs {
    /// Reads the entries of `#[server(...)]`.
    pub fn parse(items: &Vec<MetaItem>) -> (r: Result<ServerAttrs, MacroError>)
        ensures
            match server_attrs(items@) {
                Ok(v) => r matches Ok(a) && a@ == v,
                Err(m) => r matches Err(e) && e.message@ == m,
            },
    {
        let mut attrs = ServerAttrs { name: None, version: None, description: None };
        let mut i: usize = 0;
        assert(items@.skip(0) =~= items@);
        while i < items.len()
            invariant
                i <= items@.len(),
                server_attrs_from(items@.skip(i as int), attrs@) == server_attrs(items@),
            decreases items@.len() - i,
        {
            let item = &items[i];
            let ghost acc = attrs@;
            proof {
                assert(items@.skip(i as int).skip(1) =~= items@.skip(i + 1));
                assert(items@.skip(i as int)[0] == *item);
            }
            if meta_is(item, "name") || meta_is(item, "version") || meta_is(item, "description")
                || meta_is(item, "root") {
                let s = match &item.value {
                    MetaValue::Str(s) => s.clone(),
                    MetaValue::Absent => {
                        return Err(MacroError { message: "expected `=`".to_string() });
                    },
                    _ => {
                        return Err(MacroError { message: "expected string literal".to_string() });
                    },
                };
                if meta_is(item, "name") {
                    attrs.name = Some(s);
                } else if meta_is(item, "version") {
                    attrs.version = Some(s);
                } else if meta_is(item, "description") {
                    attrs.description = Some(s);
                }
            } else if meta_is(item, "transports") {
                let message = match &item.value {
                    MetaValue::Absent => "expected `=`".to_string(),
                    MetaValue::Array => "`transports` attribute is deprecated. Enable features in Cargo.toml instead:\nturbomcp = { version = \"3.0\", features = [\"http\", \"tcp\"] }\nThen call transport methods: server.run_http(\"0.0.0.0:8080\").await".to_string(),
                    _ => "expected square brackets".to_string(),
                };
                return Err(MacroError { message });
            } else {
                match &item.value {
                    MetaValue::Absent => {},
                    _ => {
                        return Err(MacroError { message: "expected `,`".to_string() });
                    },
                }
            }
            i = i + 1;
        }
        Ok(attrs)
    }
}

/// Whether a type names `RequestContext`: a path whose segments, joined
/// with `::`, contain that word, or a reference to such a type.
pub open spec fn is_request_context(ty: TypeModel) -> bool
    decreases ty,
{
    match ty {
        TypeModel::Reference(inner) => is_request_context(*inner),
        TypeModel::Path(segs) => contains_seq(join(idents(segs@), "::"@), "RequestContext"@),
        TypeModel::Other => false,
    }
}

/// Whether `ty` is (a reference to) the request context type.
pub fn is_request_context_type(ty: &TypeModel) -> (b: bool)
    ensures
        b == is_request_context(*ty),
    decreases ty,
{
    match ty {
        TypeModel::Reference(inner) => is_request_context_type(inner),
        TypeModel::Path(segs) => {
            let joined = join_strings(segs, "::");
            proof {
                assert(views(segs@) =~= idents(segs@));
            }
            let text = chars_of(joined.as_str());
            let word = chars_of("RequestContext");
            find_seq(&text, &word, 0).is_some()
        },
        TypeModel::Other => false,
    }
}

/// An argument of a prompt handler.
#[derive(Debug, Clone, PartialEq, Eq)]
pub struct PromptArgumentInfo {
    pub name: String,
    pub description: Option<String>,
    pub required: bool,
}

/// An argument of a prompt handler, as mathematical values.
pub ghost struct PromptArgumentView {
    pub name: Seq<char>,
    pub description: Option<Seq<char>>,
    pub required: bool,
}

impl View for PromptArgumentInfo {
    type V = PromptArgumentView;

    open spec fn view(&self) -> PromptArgumentView {
        PromptArgumentView { name: self.name@, description: opt_view(self.description), required: self.required }
    }
}

/// The views of a sequence of prompt arguments.
pub open spec fn argument_views(v: Seq<PromptArgumentInfo>) -> Seq<PromptArgumentView> {
    v.map_values(|a: PromptArgumentInfo| a@)
}

/// Whether a type is a path whose first segment is `Option`.
pub open spec fn starts_with_option(ty: TypeModel) -> bool {
    match ty {
        TypeModel::Path(segs) => segs@.len() > 0 && segs@[0]@ == "Option"@,
        _ => false,
    }
}

/// The prompt argument a parameter gives: a named parameter other than
/// `self` and the request context, required unless its type is an `Option`.
pub open spec fn prompt_argument_of(input: FnArgModel) -> Option<PromptArgumentView> {
    match input {
        FnArgModel::Typed { name: Some(n), ty, .. } => if n@ == "self"@ || is_request_context(ty) {
            None
        } else {
            Some(PromptArgumentView { name: n@, description: None, required: !starts_with_option(ty) })
        },
        _ => None,
    }
}

/// The prompt arguments that the parameters `inputs` give, in order.
pub open spec fn prompt_arguments(inputs: Seq<FnArgModel>) -> Seq<PromptArgumentView>
    decreases inputs.len(),
{
    if inputs.len() == 0 {
        Seq::empty()
    } else {
        let rest = prompt_arguments(inputs.drop_last());
        match prompt_argument_of(inputs.last()) {
            Some(a) => rest.push(a),
            None => rest,
        }
    }
}

fn first_segment_is_option(ty: &TypeModel) -> (b: bool)
    ensures
        b == starts_with_option(*ty),
{
    match ty {
        TypeModel::Path(segs) => segs.len() > 0 && str_eq(segs[0].as_str(), "Option"),
        _ => false,
    }
}

/// The arguments of a prompt handler with signature `sig`.
pub fn extract_prompt_arguments(sig: &SigModel) -> (r: Vec<PromptArgumentInfo>)
    ensures
        argument_views(r@) == prompt_arguments(sig.inputs@),
{
    let mut args: Vec<PromptArgumentInfo> = Vec::new();
    let mut i: usize = 0;
    while i < sig.inputs.len()
        invariant
            i <= sig.inputs@.len(),
            argument_views(args@) == prompt_arguments(sig.inputs@.take(i as int)),
        decreases sig.inputs@.len() - i,
    {
        let input = &sig.inputs[i];
        proof {
            let t = sig.inputs@.take(i + 1);
            assert(t.drop_last() =~= sig.inputs@.take(i as int));
            assert(t.last() == *input);
        }
        match input {
            FnArgModel::Typed { name: Some(n), ty, .. } => {
                if !str_eq(n.as_str(), "self") && !is_request_context_type(ty) {
                    let arg = PromptArgumentInfo {
                        name: n.clone(),
                        description: None,
                        required: !first_segment_is_option(ty),
                    };
                    let ghost before = argument_views(args@);
                    args.push(arg);
                    assert(argument_views(args@) =~= before.push(arg@));
                }
            },
            _ => {},
        }
        i = i + 1;
    }
    assert(sig.inputs@.take(sig.inputs@.len() as int) =~= sig.inputs@);
    args
}

/// How the generated handler passes one parameter of a tool method.
#[derive(Debug, Clone, PartialEq, Eq)]
pub enum ToolArg {
    /// The `self` receiver, on which the method is called.
    Receiver,
    /// The request context, passed on as it is.
    Context,
    /// A parameter read from the call's arguments under its name; it is
    /// required in the tool's input schema unless its type is an `Option`.
    Param { name: String, required: bool },
    /// A parameter whose pattern is not a plain name.
    Unnamed,
}

/// How a parameter is passed, as mathematical values.
pub ghost enum ToolArgView {
    Receiver,
    Context,
    Param { name: Seq<char>, required: bool },
    Unnamed,
}

impl View for ToolArg {
    type V = ToolArgView;

    open spec fn view(&self) -> ToolArgView {
        match self {
            ToolArg::Receiver => ToolArgView::Receiver,
            ToolArg::Context => ToolArgView::Context,
            ToolArg::Param { name, required } => ToolArgView::Param { name: name@, required: *required },
            ToolArg::Unnamed => ToolArgView::Unnamed,
        }
    }
}

/// The views of a sequence of tool parameters.
pub open spec fn tool_arg_views(v: Seq<ToolArg>) -> Seq<ToolArgView> {
    v.map_values(|a: ToolArg| a@)
}

/// How a parameter of a tool method is passed: the request context as it
/// is, a named parameter from the arguments under its name (required unless
/// its type is an `Option`).
pub open spec fn tool_arg_of(input: FnArgModel) -> ToolArgView {
    match input {
        FnArgModel::Receiver => ToolArgView::Receiver,
        FnArgModel::Typed { name, ty, .. } => if is_request_context(ty) {
            ToolArgView::Context
        } else {
            match name {
                Some(n) => ToolArgView::Param { name: n@, required: !starts_with_option(ty) },
                None => ToolArgView::Unnamed,
            }
        },
    }
}

/// How each parameter of `inputs` is passed, in order.
pub open spec fn tool_arguments(inputs: Seq<FnArgModel>) -> Seq<ToolArgView> {
    inputs.map_values(|a: FnArgModel| tool_arg_of(a))
}

/// How the generated handler passes each parameter of a tool method with
/// signature `sig`.
pub fn extract_tool_arguments(sig: &SigModel) -> (r: Vec<ToolArg>)
    ensures
        tool_arg_views(r@) == tool_arguments(sig.inputs@),
{
    let mut out: Vec<ToolArg> = Vec::new();
    let mut i: usize = 0;
    while i < sig.inputs.len()
        invariant
            i <= sig.inputs@.len(),
            out@.len() == i,
            forall|j: int| 0 <= j < i ==> (#[trigger] out@[j])@ == tool_arg_of(sig.inputs@[j]),
        decreases sig.inputs@.len() - i,
    {
        let a = match &sig.inputs[i] {
            FnArgModel::Receiver => ToolArg::Receiver,
            FnArgModel::Typed { name, ty, .. } => {
                if is_request_context_type(ty) {
                    ToolArg::Context
                } else {
                    match name {
                        Some(n) => ToolArg::Param { name: n.clone(), required: !first_segment_is_option(ty) },
                        None => ToolArg::Unnamed,
                    }
                }
            },
        };
        out.push(a);
        i = i + 1;
    }
    assert(tool_arg_views(out@) =~= tool_arguments(sig.inputs@));
    out
}

/// A tool handler of the impl block.
#[derive(Debug, Clone, PartialEq, Eq)]
pub struct ToolInfo {
    /// The tool's name: the method's name.
    pub name: String,
    pub description: String,
    pub tags: Vec<String>,
    pub version: Option<String>,
    /// Whether the method is `async`.
    pub is_async: bool,
    /// Whether the method takes `self`.
    pub has_receiver: bool,
    /// How each parameter of the method is passed, in order.
    pub arguments: Vec<ToolArg>,
}

/// A tool handler, as mathematical values.
pub ghost struct ToolInfoView {
    pub name: Seq<char>,
    pub description: Seq<char>,
    pub tags: Seq<Seq<char>>,
    pub version: Option<Seq<char>>,
    pub is_async: bool,
    pub has_receiver: bool,
    pub arguments: Seq<ToolArgView>,
}

impl View for ToolInfo {
    type V = ToolInfoView;

    open spec fn view(&self) -> ToolInfoView {
        ToolInfoView {
            name: self.name@,
            description: self.description@,
            tags: views(self.tags@),
            version: opt_view(self.version),
            is_async: self.is_async,
            has_receiver: self.has_receiver,
            arguments: tool_arg_views(self.arguments@),
        }
    }
}

/// A resource handler of the impl block.
#[derive(Debug, Clone, PartialEq, Eq)]
pub struct ResourceInfo {
    pub uri_template: String,
    /// The resource's name: the method's name.
    pub name: String,
    pub description: Option<String>,
    pub mime_type: Option<String>,
    /// The method that serves it.
    pub fn_name: String,
    pub tags: Vec<String>,
    pub version: Option<String>,
}

/// A resource handler, as mathematical values.
pub ghost struct ResourceInfoView {
    pub uri_template: Seq<char>,
    pub name: Seq<char>,
    pub description: Option<Seq<char>>,
    pub mime_type: Option<Seq<char>>,
    pub fn_name: Seq<char>,
    pub tags: Seq<Seq<char>>,
    pub version: Option<Seq<char>>,
}

impl View for ResourceInfo {
    type V = ResourceInfoView;

    open spec fn view(&self) -> ResourceInfoView {
        ResourceInfoView {
            uri_template: self.uri_template@,
            name: self.name@,
            description: opt_view(self.description),
            mime_type: opt_view(self.mime_type),
            fn_name: self.fn_name@,
            tags: views(self.tags@),
            version: opt_view(self.version),
        }
    }
}

/// A prompt handler of the impl block.
#[derive(Debug, Clone, PartialEq, Eq)]
pub struct PromptInfo {
    /// The prompt's name: the method's name.
    pub name: String,
    pub description: Option<String>,
    pub arguments: Vec<PromptArgumentInfo>,
    /// The method that serves it.
    pub fn_name: String,
    pub tags: Vec<String>,
    pub version: Option<String>,
}

/// A prompt handler, as mathematical values.
pub ghost struct PromptInfoView {
    pub name: Seq<char>,
    pub description: Option<Seq<char>>,
    pub arguments: Seq<PromptArgumentView>,
    pub fn_name: Seq<char>,
    pub tags: Seq<Seq<char>>,
    pub version: Option<Seq<char>>,
}

impl View for PromptInfo {
    type V = PromptInfoView;

    open spec fn view(&self) -> PromptInfoView {
        PromptInfoView {
            name: self.name@,
            description: opt_view(self.description),
            arguments: argument_views(self.arguments@),
            fn_name: self.fn_name@,
            tags: views(self.tags@),
            version: opt_view(self.version),
        }
    }
}

/// What the `#[server]` macro reads from an impl block and its arguments.
#[derive(Debug, Clone, PartialEq, Eq)]
pub struct ServerInfo {
    /// The name of the type the impl block is for.
    pub struct_name: String,
    pub name: String,
    pub version: String,
    pub description: Option<String>,
    pub tools: Vec<ToolInfo>,
    pub resources: Vec<ResourceInfo>,
    pub prompts: Vec<PromptInfo>,
}

/// The views of a sequence of tool handlers.
pub open spec fn tool_views(v: Seq<ToolInfo>) -> Seq<ToolInfoView> {
    v.map_values(|t: ToolInfo| t@)
}

/// The views of a sequence of resource handlers.
pub open spec fn resource_views(v: Seq<ResourceInfo>) -> Seq<ResourceInfoView> {
    v.map_values(|r: ResourceInfo| r@)
}

/// The views of a sequence of prompt handlers.
pub open spec fn prompt_views(v: Seq<PromptInfo>) -> Seq<PromptInfoView> {
    v.map_values(|p: PromptInfo| p@)
}

/// The handlers of an impl block, by kind, in the order of their methods.
pub ghost struct HandlersView {
    pub tools: Seq<ToolInfoView>,
    pub resources: Seq<ResourceInfoView>,
    pub prompts: Seq<PromptInfoView>,
}

/// What the `#[server]` macro reads, as mathematical values.
pub ghost struct ServerInfoView {
    pub struct_name: Seq<char>,
    pub name: Seq<char>,
    pub version: Seq<char>,
    pub description: Option<Seq<char>>,
    pub handlers: HandlersView,
}

impl View for ServerInfo {
    type V = ServerInfoView;

    open spec fn view(&self) -> ServerInfoView {
        ServerInfoView {
            struct_name: self.struct_name@,
            name: self.name@,
            version: self.version@,
            description: opt_view(self.description),
            handlers: HandlersView {
                tools: tool_views(self.tools@),
                resources: resource_views(self.resources@),
                prompts: prompt_views(self.prompts@),
            },
        }
    }
}

/// Whether an attribute marks a handler: `#[tool]`, `#[resource]` or `#[prompt]`.
pub open spec fn is_handler_attr(a: AttrModel) -> bool {
    path_is(a, "tool"@) || path_is(a, "resource"@) || path_is(a, "prompt"@)
}

/// The position of the first handler attribute among `attrs` from `i` on.
pub open spec fn handler_attr_from(attrs: Seq<AttrModel>, i: nat) -> Option<nat>
    decreases attrs.len() - i,
{
    if i >= attrs.len() {
        None
    } else if is_handler_attr(attrs[i as int]) {
        Some(i)
    } else {
        handler_attr_from(attrs, i + 1)
    }
}

/// Whether some parameter is the `self` receiver.
pub open spec fn takes_receiver(inputs: Seq<FnArgModel>) -> bool {
    exists|j: int| 0 <= j < inputs.len() && inputs[j] is Receiver
}

/// A tool's description: the attribute's, else the method's doc comment,
/// else empty.
pub open spec fn tool_description(attr: AttrModel, attrs: Seq<AttrModel>) -> Seq<char> {
    match handler_attrs(attr.args).description {
        Some(d) => d,
        None => match doc_comment(attrs, true) {
            Some(d) => d,
            None => Seq::empty(),
        },
    }
}

/// The handlers read so far and the one `m` adds, if any: the first handler
/// attribute of the method decides its kind; a malformed `#[resource]`
/// attribute stops the reading with its message.
pub open spec fn handler_step(acc: HandlersView, m: MethodModel) -> Result<HandlersView, Seq<char>> {
    match handler_attr_from(m.attrs@, 0) {
        None => Ok(acc),
        Some(k) => {
            let attr = m.attrs@[k as int];
            let ident = m.sig.ident@;
            if path_is(attr, "tool"@) {
                let ha = handler_attrs(attr.args);
                Ok(
                    HandlersView {
                        tools: acc.tools.push(
                            ToolInfoView {
                                name: ident,
                                description: tool_description(attr, m.attrs@),
                                tags: ha.tags,
                                version: ha.version,
                                is_async: m.sig.is_async,
                                has_receiver: takes_receiver(m.sig.inputs@),
                                arguments: tool_arguments(m.sig.inputs@),
                            },
                        ),
                        ..acc
                    },
                )
            } else if path_is(attr, "resource"@) {
                match resource_attr(attr.args) {
                    None => Err(resource_attr_message()),
                    Some(ra) => Ok(
                        HandlersView {
                            resources: acc.resources.push(
                                ResourceInfoView {
                                    uri_template: ra.uri_template,
                                    name: ident,
                                    description: doc_comment(m.attrs@, true),
                                    mime_type: ra.mime_type,
                                    fn_name: ident,
                                    tags: ra.tags,
                                    version: ra.version,
                                },
                            ),
                            ..acc
                        },
                    ),
                }
            } else {
                let pa = handler_attrs(attr.args);
                Ok(
                    HandlersView {
                        prompts: acc.prompts.push(
                            PromptInfoView {
                                name: ident,
                                description: match doc_comment(m.attrs@, true) {
                                    Some(d) => Some(d),
                                    None => pa.description,
                                },
                                arguments: prompt_arguments(m.sig.inputs@),
                                fn_name: ident,
                                tags: pa.tags,
                                version: pa.version,
                            },
                        ),
                        ..acc
                    },
                )
            }
        },
    }
}

/// The handlers that the items `items` add to `acc`, or the message of the
/// first malformed one.
pub open spec fn handlers_from(items: Seq<ImplItemModel>, acc: HandlersView) -> Result<
    HandlersView,
    Seq<char>,
>
    decreases items.len(),
{
    if items.len() == 0 {
        Ok(acc)
    } else {
        let next = match items[0] {
            ImplItemModel::Fn(m) => handler_step(acc, m),
            ImplItemModel::Other => Ok(acc),
        };
        match next {
            Ok(a) => handlers_from(items.skip(1), a),
            Err(e) => Err(e),
        }
    }
}

/// The message for an impl block for a path type without segments.
pub open spec fn type_path_message() -> Seq<char> {
    "Expected a valid type path"@
}

/// The message for an impl block for a type that is not a path.
pub open spec fn named_type_message() -> Seq<char> {
    "The #[server] attribute only supports named types"@
}

/// What the `#[server]` macro reads from `imp` under the arguments `attrs`:
/// the type's name (the last segment of its path), the server's name and
/// version (the type's name and `1.0.0` where the arguments give none), and
/// the handlers; or the message of the first error.
pub open spec fn analyze(imp: ImplModel, attrs: ServerAttrsView) -> Result<ServerInfoView, Seq<char>> {
    match imp.self_ty {
        TypeModel::Path(segs) => if segs@.len() == 0 {
            Err(type_path_message())
        } else {
            let sn = segs@.last()@;
            match handlers_from(
                imp.items@,
                HandlersView { tools: Seq::empty(), resources: Seq::empty(), prompts: Seq::empty() },
            ) {
                Err(e) => Err(e),
                Ok(h) => Ok(
                    ServerInfoView {
                        struct_name: sn,
                        name: match attrs.name {
                            Some(n) => n,
                            None => sn,
                        },
                        version: match attrs.version {
                            Some(v) => v,
                            None => "1.0.0"@,
                        },
                        description: attrs.description,
                        handlers: h,
                    },
                ),
            }
        },
        _ => Err(named_type_message()),
    }
}

fn find_handler_attr(attrs: &Vec<AttrModel>) -> (r: Option<usize>)
    ensures
        match r {
            Some(k) => handler_attr_from(attrs@, 0) == Some(k as nat) && k < attrs@.len(),
            None => handler_attr_from(attrs@, 0) is None,
        },
{
    let mut i: usize = 0;
    while i < attrs.len()
        invariant
            i <= attrs@.len(),
            handler_attr_from(attrs@, 0) == handler_attr_from(attrs@, i as nat),
        decreases attrs@.len() - i,
    {
        if attr_is(&attrs[i], "tool") || attr_is(&attrs[i], "resource") || attr_is(&attrs[i], "prompt") {
            return Some(i);
        }
        i = i + 1;
    }
    None
}

fn any_receiver(inputs: &Vec<FnArgModel>) -> (b: bool)
    ensures
        b == takes_receiver(inputs@),
{
    let mut i: usize = 0;
    while i < inputs.len()
        invariant
            i <= inputs@.len(),
            forall|j: int| 0 <= j < i ==> !(inputs@[j] is Receiver),
        decreases inputs@.len() - i,
    {
        match &inputs[i] {
            FnArgModel::Receiver => {
                return true;
            },
            _ => {},
        }
        i = i + 1;
    }
    false
}

fn clone_opt(o: &Option<String>) -> (r: Option<String>)
    ensures
        r == *o,
{
    match o {
        Some(s) => Some(s.clone()),
        None => None,
    }
}

/// Reads an impl block under the `#[server]` arguments `attrs`: the type's
/// name, the server's name, version and description, and its tool, resource
/// and prompt handlers.
pub fn analyze_impl(impl_block: &ImplModel, attrs: &ServerAttrs) -> (r: Result<ServerInfo, MacroError>)
    ensures
        match analyze(*impl_block, attrs@) {
            Ok(v) => r matches Ok(info) && info@ == v,
            Err(m) => r matches Err(e) && e.message@ == m,
        },
{
    let struct_name = match &impl_block.self_ty {
        TypeModel::Path(segs) => {
            if segs.len() == 0 {
                return Err(MacroError { message: "Expected a valid type path".to_string() });
            }
            segs[segs.len() - 1].clone()
        },
        _ => {
            return Err(
                MacroError { message: "The #[server] attribute only supports named types".to_string() },
            );
        },
    };
    let name = match &attrs.name {
        Some(n) => n.clone(),
        None => struct_name.clone(),
    };
    let version = match &attrs.version {
        Some(v) => v.clone(),
        None => "1.0.0".to_string(),
    };
    let description = clone_opt(&attrs.description);
    let mut tools: Vec<ToolInfo> = Vec::new();
    let mut resources: Vec<ResourceInfo> = Vec::new();
    let mut prompts: Vec<PromptInfo> = Vec::new();
    let ghost empty = HandlersView { tools: Seq::empty(), resources: Seq::empty(), prompts: Seq::empty() };
    proof {
        assert(impl_block.items@.skip(0) =~= impl_block.items@);
        assert(tool_views(tools@) =~= Seq::<ToolInfoView>::empty());
        assert(resource_views(resources@) =~= Seq::<ResourceInfoView>::empty());
        assert(prompt_views(prompts@) =~= Seq::<PromptInfoView>::empty());
    }
    let mut i: usize = 0;
    while i < impl_block.items.len()
        invariant
            i <= impl_block.items@.len(),
            impl_block.self_ty matches TypeModel::Path(segs) && segs@.len() > 0,
            empty == (HandlersView { tools: Seq::empty(), resources: Seq::empty(), prompts: Seq::empty() }),
            handlers_from(
                impl_block.items@.skip(i as int),
                HandlersView {
                    tools: tool_views(tools@),
                    resources: resource_views(resources@),
                    prompts: prompt_views(prompts@),
                },
            ) == handlers_from(impl_block.items@, empty),
        decreases impl_block.items@.len() - i,
    {
        let ghost acc = HandlersView {
            tools: tool_views(tools@),
            resources: resource_views(resources@),
            prompts: prompt_views(prompts@),
        };
        proof {
            assert(impl_block.items@.skip(i as int).skip(1) =~= impl_block.items@.skip(i + 1));
            assert(impl_block.items@.skip(i as int)[0] == impl_block.items@[i as int]);
        }
        match &impl_block.items[i] {
            ImplItemModel::Fn(m) => {
                match find_handler_attr(&m.attrs) {
                    None => {},
                    Some(k) => {
                        let attr = &m.attrs[k];
                        if attr_is(attr, "tool") {
                            let ha = parse_handler_attrs(attr);
                            let description = match ha.description {
                                Some(d) => d,
                                None => match doc_comment_of(&m.attrs, true) {
                                    Some(d) => d,
                                    None => String::new(),
                                },
                            };
                            let t = ToolInfo {
                                name: m.sig.ident.clone(),
                                description,
                                tags: ha.tags,
                                version: ha.version,
                                is_async: m.sig.is_async,
                                has_receiver: any_receiver(&m.sig.inputs),
                                arguments: extract_tool_arguments(&m.sig),
                            };
                            proof {
                                assert(t@.description == tool_description(*attr, m.attrs@));
                            }
                            tools.push(t);
                            proof {
                                assert(tool_views(tools@) =~= acc.tools.push(t@));
                            }
                        } else if attr_is(attr, "resource") {
                            let ra = match extract_resource_attrs(attr) {
                                Ok(ra) => ra,
                                Err(e) => {
                                    return Err(e);
                                },
                            };
                            let res = ResourceInfo {
                                uri_template: ra.uri_template,
                                name: m.sig.ident.clone(),
                                description: doc_comment_of(&m.attrs, true),
                                mime_type: ra.mime_type,
                                fn_name: m.sig.ident.clone(),
                                tags: ra.tags,
                                version: ra.version,
                            };
                            resources.push(res);
                            proof {
                                assert(resource_views(resources@) =~= acc.resources.push(res@));
                            }
                        } else {
                            let pa = parse_handler_attrs(attr);
                            let description = match doc_comment_of(&m.attrs, true) {
                                Some(d) => Some(d),
                                None => pa.description,
                            };
                            let p = PromptInfo {
                                name: m.sig.ident.clone(),
                                description,
                                arguments: extract_prompt_arguments(&m.sig),
                                fn_name: m.sig.ident.clone(),
                                tags: pa.tags,
                                version: pa.version,
                            };
                            prompts.push(p);
                            proof {
                                assert(prompt_views(prompts@) =~= acc.prompts.push(p@));
                            }
                        }
                    },
                }
            },
            ImplItemModel::Other => {},
        }
        i = i + 1;
    }
    assert(impl_block.items@.skip(i as int) =~= Seq::<ImplItemModel>::empty());
    Ok(ServerInfo { struct_name, name, version, description, tools, resources, prompts })
}

/// The message for `#[server]` on a trait impl.
pub open spec fn trait_impl_message() -> Seq<char> {
    "#[server] cannot be used on trait implementations\n\nHint: Apply #[server] to an inherent impl block:\n\n#[derive(Clone)]\nstruct MyServer;\n\n#[server(name = \"my-server\", version = \"1.0.0\")]\nimpl MyServer {\n#[tool]\nasync fn my_tool(&self, arg: String) -> String { ... }\n}"@
}

/// The handler attribute that a misspelt one was probably meant to be.
pub open spec fn typo_fix(ident: Seq<char>) -> Option<Seq<char>> {
    if ident == "tools"@ {
        Some("tool"@)
    } else if ident == "resources"@ {
        Some("resource"@)
    } else if ident == "prompts"@ {
        Some("prompt"@)
    } else if ident == "Tool"@ {
        Some("tool"@)
    } else if ident == "Resource"@ {
        Some("resource"@)
    } else if ident == "Prompt"@ {
        Some("prompt"@)
    } else if ident == "mcp_tool"@ {
        Some("tool"@)
    } else if ident == "mcp_resource"@ {
        Some("resource"@)
    } else if ident == "mcp_prompt"@ {
        Some("prompt"@)
    } else if ident == "handler"@ {
        Some("tool"@)
    } else {
        None
    }
}

/// The message for the misspelt handler attribute `typo`.
pub open spec fn typo_message(typo: Seq<char>, fix: Seq<char>) -> Seq<char> {
    "Unknown attribute `#["@ + typo + "]` - did you mean `#["@ + fix
        + "]`?\n\nValid handler attributes: #[tool], #[resource], #[prompt]"@
}

/// The message for the first misspelt handler attribute among `attrs`
/// from position `j` on.
pub open spec fn attrs_typo(attrs: Seq<AttrModel>, j: nat) -> Option<Seq<char>>
    decreases attrs.len() - j,
{
    if j >= attrs.len() {
        None
    } else {
        let a = attrs[j as int];
        if !a.leading_colon && a.path@.len() == 1 && typo_fix(a.path@[0]@) is Some {
            Some(typo_message(a.path@[0]@, typo_fix(a.path@[0]@)->0))
        } else {
            attrs_typo(attrs, j + 1)
        }
    }
}

/// The message for the first misspelt handler attribute of the methods
/// among `items` from position `i` on.
pub open spec fn items_typo(items: Seq<ImplItemModel>, i: nat) -> Option<Seq<char>>
    decreases items.len() - i,
{
    if i >= items.len() {
        None
    } else {
        match items[i as int] {
            ImplItemModel::Fn(m) => match attrs_typo(m.attrs@, 0) {
                Some(msg) => Some(msg),
                None => items_typo(items, i + 1),
            },
            ImplItemModel::Other => items_typo(items, i + 1),
        }
    }
}

/// Whether `#[server]` accepts the impl block: not a trait impl, and no
/// method carries a misspelt handler attribute; else the message.
pub open spec fn impl_block_check(imp: ImplModel) -> Result<(), Seq<char>> {
    if imp.is_trait_impl {
        Err(trait_impl_message())
    } else {
        match items_typo(imp.items@, 0) {
            Some(msg) => Err(msg),
            None => Ok(()),
        }
    }
}

fn handler_typo_fix(ident: &str) -> (r: Option<&'static str>)
    ensures
        match r {
            Some(f) => typo_fix(ident@) == Some(f@),
            None => typo_fix(ident@) is None,
        },
{
    if str_eq(ident, "tools") {
        Some("tool")
    } else if str_eq(ident, "resources") {
        Some("resource")
    } else if str_eq(ident, "prompts") {
        Some("prompt")
    } else if str_eq(ident, "Tool") {
        Some("tool")
    } else if str_eq(ident, "Resource") {
        Some("resource")
    } else if str_eq(ident, "Prompt") {
        Some("prompt")
    } else if str_eq(ident, "mcp_tool") {
        Some("tool")
    } else if str_eq(ident, "mcp_resource") {
        Some("resource")
    } else if str_eq(ident, "mcp_prompt") {
        Some("prompt")
    } else if str_eq(ident, "handler") {
        Some("tool")
    } else {
        None
    }
}

fn method_typo(attrs: &Vec<AttrModel>) -> (r: Option<String>)
    ensures
        opt_view(r) == attrs_typo(attrs@, 0),
{
    let mut j: usize = 0;
    while j < attrs.len()
        invariant
            j <= attrs@.len(),
            attrs_typo(attrs@, 0) == attrs_typo(attrs@, j as nat),
        decreases attrs@.len() - j,
    {
        let a = &attrs[j];
        if !a.leading_colon && a.path.len() == 1 {
            match handler_typo_fix(a.path[0].as_str()) {
                Some(fix) => {
                    let mut msg = "Unknown attribute `#[".to_string();
                    push_str(&mut msg, a.path[0].as_str());
                    push_str(&mut msg, "]` - did you mean `#[");
                    push_str(&mut msg, fix);
                    push_str(
                        &mut msg,
                        "]`?\n\nValid handler attributes: #[tool], #[resource], #[prompt]",
                    );
                    return Some(msg);
                },
                None => {},
            }
        }
        j = j + 1;
    }
    None
}

/// Checks that `#[server]` can stand on the impl block: not on a trait impl,
/// and with no misspelt handler attribute (`#[tools]`, `#[handler]`, ...).
pub fn validate_impl_block(impl_block: &ImplModel) -> (r: Result<(), MacroError>)
    ensures
        match impl_block_check(*impl_block) {
            Ok(()) => r is Ok,
            Err(m) => r matches Err(e) && e.message@ == m,
        },
{
    if impl_block.is_trait_impl {
        return Err(
            MacroError {
                message: "#[server] cannot be used on trait implementations\n\nHint: Apply #[server] to an inherent impl block:\n\n#[derive(Clone)]\nstruct MyServer;\n\n#[server(name = \"my-server\", version = \"1.0.0\")]\nimpl MyServer {\n#[tool]\nasync fn my_tool(&self, arg: String) -> String { ... }\n}".to_string(),
            },
        );
    }
    let mut i: usize = 0;
    while i < impl_block.items.len()
        invariant
            i <= impl_block.items@.len(),
            !impl_block.is_trait_impl,
            items_typo(impl_block.items@, 0) == items_typo(impl_block.items@, i as nat),
        decreases impl_block.items@.len() - i,
    {
        match &impl_block.items[i] {
            ImplItemModel::Fn(m) => {
                match method_typo(&m.attrs) {
                    Some(message) => {
                        return Err(MacroError { message });
                    },
                    None => {},
                }
            },
            ImplItemModel::Other => {},
        }
        i = i + 1;
    }
    Ok(())
}

/// The message for a tool handler that is not `async`.
pub open spec fn not_async_message(name: Seq<char>) -> Seq<char> {
    "Tool `"@ + name + "` must be async\n\nHint: Add `async` to the function:\n\n#[tool]\nasync fn "@
        + name + "(&self, ...) -> ... { ... }"@
}

/// The message for a tool handler that does not take `&self`.
pub open spec fn no_receiver_message(name: Seq<char>) -> Seq<char> {
    "Tool `"@ + name
        + "` must take &self as the first parameter\n\nHint: Add &self to the function:\n\n#[tool]\nasync fn "@
        + name + "(&self, arg: String) -> String { ... }"@
}

/// The message for the first tool handler among `tools` from position `i`
/// on that is not `async` or does not take `self`.
pub open spec fn tools_check(tools: Seq<ToolInfoView>, i: nat) -> Option<Seq<char>>
    decreases tools.len() - i,
{
    if i >= tools.len() {
        None
    } else if !tools[i as int].is_async {
        Some(not_async_message(tools[i as int].name))
    } else if !tools[i as int].has_receiver {
        Some(no_receiver_message(tools[i as int].name))
    } else {
        tools_check(tools, i + 1)
    }
}

/// Checks that every tool handler is `async` and takes `self`.
pub fn validate_handlers(info: &ServerInfo) -> (r: Result<(), MacroError>)
    ensures
        match tools_check(tool_views(info.tools@), 0) {
            None => r is Ok,
            Some(m) => r matches Err(e) && e.message@ == m,
        },
{
    let mut i: usize = 0;
    while i < info.tools.len()
        invariant
            i <= info.tools@.len(),
            tools_check(tool_views(info.tools@), 0) == tools_check(tool_views(info.tools@), i as nat),
        decreases info.tools@.len() - i,
    {
        let t = &info.tools[i];
        if !t.is_async {
            let mut message = "Tool `".to_string();
            push_str(&mut message, t.name.as_str());
            push_str(&mut message, "` must be async\n\nHint: Add `async` to the function:\n\n#[tool]\nasync fn ");
            push_str(&mut message, t.name.as_str());
            push_str(&mut message, "(&self, ...) -> ... { ... }");
            return Err(MacroError { message });
        }
        if !t.has_receiver {
            let mut message = "Tool `".to_string();
            push_str(&mut message, t.name.as_str());
            push_str(
                &mut message,
                "` must take &self as the first parameter\n\nHint: Add &self to the function:\n\n#[tool]\nasync fn ",
            );
            push_str(&mut message, t.name.as_str());
            push_str(&mut message, "(&self, arg: String) -> String { ... }");
            return Err(MacroError { message });
        }
        i = i + 1;
    }
    Ok(())
}

/// `attrs` without the handler attributes, in order.
pub open spec fn without_handler_attrs(attrs: Seq<AttrModel>) -> Seq<AttrModel>
    decreases attrs.len(),
{
    if attrs.len() == 0 {
        attrs
    } else if is_handler_attr(attrs[0]) {
        without_handler_attrs(attrs.skip(1))
    } else {
        seq![attrs[0]] + without_handler_attrs(attrs.skip(1))
    }
}

/// `attrs` without the `#[description]` attributes, in order.
pub open spec fn without_description_attrs(attrs: Seq<AttrModel>) -> Seq<AttrModel>
    decreases attrs.len(),
{
    if attrs.len() == 0 {
        attrs
    } else if path_is(attrs[0], "description"@) {
        without_description_attrs(attrs.skip(1))
    } else {
        seq![attrs[0]] + without_description_attrs(attrs.skip(1))
    }
}

/// Whether the parameter `b` is `a` without its `#[description]` attributes.
pub open spec fn stripped_arg(a: FnArgModel, b: FnArgModel) -> bool {
    match a {
        FnArgModel::Receiver => b is Receiver,
        FnArgModel::Typed { attrs, name, ty } => b matches FnArgModel::Typed { attrs: b_attrs, name: b_name, ty: b_ty }
            && b_attrs@ == without_description_attrs(attrs@) && b_name == name && b_ty == ty,
    }
}

/// Whether the method `n` is `m` without its handler attributes and its
/// parameters' `#[description]` attributes.
pub open spec fn stripped_method(m: MethodModel, n: MethodModel) -> bool {
    &&& n.attrs@ == without_handler_attrs(m.attrs@)
    &&& n.sig.ident == m.sig.ident
    &&& n.sig.is_async == m.sig.is_async
    &&& n.sig.inputs@.len() == m.sig.inputs@.len()
    &&& forall|j: int| 0 <= j < m.sig.inputs@.len() ==> stripped_arg(m.sig.inputs@[j], #[trigger] n.sig.inputs@[j])
}

/// Whether the item `b` is `a` stripped.
pub open spec fn stripped_item(a: ImplItemModel, b: ImplItemModel) -> bool {
    match a {
        ImplItemModel::Fn(m) => b matches ImplItemModel::Fn(n) && stripped_method(m, n),
        ImplItemModel::Other => b is Other,
    }
}

/// Whether the impl block `b` is `a` with the handler attributes stripped.
pub open spec fn stripped_impl(a: ImplModel, b: ImplModel) -> bool {
    &&& b.is_trait_impl == a.is_trait_impl
    &&& b.self_ty == a.self_ty
    &&& b.items@.len() == a.items@.len()
    &&& forall|i: int| 0 <= i < a.items@.len() ==> stripped_item(a.items@[i], #[trigger] b.items@[i])
}

/// Whether an attribute stays on a method of the impl block that the
/// `#[server]` macro emits: any but `#[tool]`, `#[resource]` and `#[prompt]`.
pub fn keeps_method_attr(attr: &AttrModel) -> (b: bool)
    ensures
        b == !is_handler_attr(*attr),
{
    !(attr_is(attr, "tool") || attr_is(attr, "resource") || attr_is(attr, "prompt"))
}

/// Whether an attribute stays on a parameter of the impl block that the
/// `#[server]` macro emits: any but `#[description]`.
pub fn keeps_param_attr(attr: &AttrModel) -> (b: bool)
    ensures
        b == !path_is(*attr, "description"@),
{
    !attr_is(attr, "description")
}

fn strip_method_attrs(attrs: Vec<AttrModel>) -> (r: Vec<AttrModel>)
    ensures
        r@ == without_handler_attrs(attrs@),
{
    let ghost orig = attrs@;
    let mut rest = attrs;
    let mut kept: Vec<AttrModel> = Vec::new();
    while rest.len() > 0
        invariant
            kept@ + without_handler_attrs(rest@) == without_handler_attrs(orig),
        decreases rest@.len(),
    {
        let ghost before = rest@;
        let a = rest.remove(0);
        proof {
            assert(rest@ =~= before.skip(1));
        }
        if keeps_method_attr(&a) {
            let ghost k = kept@;
            kept.push(a);
            proof {
                assert(kept@ + without_handler_attrs(rest@) =~= k + (seq![a] + without_handler_attrs(rest@)));
            }
        }
    }
    assert(kept@ + without_handler_attrs(rest@) =~= kept@);
    kept
}

fn strip_param_attrs(attrs: Vec<AttrModel>) -> (r: Vec<AttrModel>)
    ensures
        r@ == without_description_attrs(attrs@),
{
    let ghost orig = attrs@;
    let mut rest = attrs;
    let mut kept: Vec<AttrModel> = Vec::new();
    while rest.len() > 0
        invariant
            kept@ + without_description_attrs(rest@) == without_description_attrs(orig),
        decreases rest@.len(),
    {
        let ghost before = rest@;
        let a = rest.remove(0);
        proof {
            assert(rest@ =~= before.skip(1));
        }
        if keeps_param_attr(&a) {
            let ghost k = kept@;
            kept.push(a);
            proof {
                assert(kept@ + without_description_attrs(rest@) =~= k + (seq![a] + without_description_attrs(rest@)));
            }
        }
    }
    assert(kept@ + without_description_attrs(rest@) =~= kept@);
    kept
}

fn strip_method(m: MethodModel) -> (n: MethodModel)
    ensures
        stripped_method(m, n),
{
    let MethodModel { attrs, sig } = m;
    let SigModel { ident, is_async, inputs } = sig;
    let ghost orig = inputs@;
    let mut rest = inputs;
    let mut out: Vec<FnArgModel> = Vec::new();
    while rest.len() > 0
        invariant
            out@.len() + rest@.len() == orig.len(),
            rest@ == orig.skip(out@.len() as int),
            forall|j: int| 0 <= j < out@.len() ==> stripped_arg(orig[j], #[trigger] out@[j]),
        decreases rest@.len(),
    {
        let ghost before = rest@;
        let ghost k = out@.len();
        let a = rest.remove(0);
        proof {
            assert(rest@ =~= orig.skip(k as int + 1));
            assert(a == orig[k as int]);
        }
        let b = match a {
            FnArgModel::Receiver => FnArgModel::Receiver,
            FnArgModel::Typed { attrs, name, ty } => FnArgModel::Typed { attrs: strip_param_attrs(attrs), name, ty },
        };
        out.push(b);
    }
    MethodModel { attrs: strip_method_attrs(attrs), sig: SigModel { ident, is_async, inputs: out } }
}

/// The impl block without the handler attributes on its methods and the
/// `#[description]` attributes on their parameters: what the `#[server]`
/// macro emits in place of the block it was given.
pub fn strip_handler_attributes(impl_block: ImplModel) -> (r: ImplModel)
    ensures
        stripped_impl(impl_block, r),
{
    let ghost a = impl_block;
    let ImplModel { is_trait_impl, self_ty, items } = impl_block;
    let ghost orig = items@;
    let mut rest = items;
    let mut out: Vec<ImplItemModel> = Vec::new();
    while rest.len() > 0
        invariant
            out@.len() + rest@.len() == orig.len(),
            rest@ == orig.skip(out@.len() as int),
            forall|j: int| 0 <= j < out@.len() ==> stripped_item(orig[j], #[trigger] out@[j]),
        decreases rest@.len(),
    {
        let ghost k = out@.len();
        let item = rest.remove(0);
        proof {
            assert(rest@ =~= orig.skip(k as int + 1));
            assert(item == orig[k as int]);
        }
        let b = match item {
            ImplItemModel::Fn(m) => ImplItemModel::Fn(strip_method(m)),
            ImplItemModel::Other => ImplItemModel::Other,
        };
        out.push(b);
    }
    ImplModel { is_trait_impl, self_ty, items: out }
}

/// Whether `v` is the JSON string `s`.
pub open spec fn is_json_string(v: JsonValue, s: Seq<char>) -> bool {
    v matches JsonValue::String(t) && t@ == s
}

/// Whether `v` is the JSON array of the strings `ss`.
pub open spec fn is_json_strings(v: JsonValue, ss: Seq<Seq<char>>) -> bool {
    v matches JsonValue::Array(items) && items@.len() == ss.len() && forall|i: int|
        0 <= i < ss.len() ==> is_json_string(#[trigger] items@[i], ss[i])
}

/// Whether `m` is the meta object of a handler with tags `tags` and version
/// `version`: `tags` holds the tags where there are any, `version` the
/// version where there is one, and there is no other key.
pub open spec fn meta_object(m: Map<Seq<char>, JsonValue>, tags: Seq<Seq<char>>, version: Option<Seq<char>>) -> bool {
    &&& forall|k: Seq<char>| #[trigger] m.dom().contains(k) <==> ((k == "tags"@ && tags.len() > 0) || (k
        == "version"@ && version is Some))
    &&& tags.len() > 0 ==> is_json_strings(m["tags"@], tags)
    &&& version matches Some(v) ==> is_json_string(m["version"@], v)
}

/// Whether `meta` is the meta field of a listed handler with tags `tags`
/// and version `version`: none where there are neither.
pub open spec fn handler_meta_spec(meta: Option<JsonMap>, tags: Seq<Seq<char>>, version: Option<Seq<char>>) -> bool {
    &&& meta is None <==> (tags.len() == 0 && version is None)
    &&& meta matches Some(m) ==> meta_object(m.map(), tags, version)
}

/// The meta field of a listed handler: its tags and version, or nothing
/// where it has neither.
pub fn handler_meta(tags: &Vec<String>, version: &Option<String>) -> (r: Option<JsonMap>)
    ensures
        handler_meta_spec(r, views(tags@), opt_view(*version)),
{
    if tags.len() == 0 && version.is_none() {
        return None;
    }
    let mut meta: JsonMap = NamedMap::new();
    if tags.len() > 0 {
        let mut items: Vec<JsonValue> = Vec::new();
        let mut i: usize = 0;
        while i < tags.len()
            invariant
                i <= tags@.len(),
                items@.len() == i,
                forall|j: int| 0 <= j < i ==> is_json_string(#[trigger] items@[j], tags@[j]@),
            decreases tags@.len() - i,
        {
            items.push(JsonValue::String(tags[i].clone()));
            i = i + 1;
        }
        meta.insert("tags".to_string(), JsonValue::Array(items));
    }
    match version {
        Some(v) => {
            meta.insert("version".to_string(), JsonValue::String(v.clone()));
        },
        None => {},
    }
    proof {
        reveal_strlit("tags");
        reveal_strlit("version");
        assert("tags"@[0] != "version"@[0]);
    }
    Some(meta)
}

/// The names of the parameters that a tool's input schema declares: those
/// read from the call's arguments, in order.
pub open spec fn schema_params(args: Seq<ToolArgView>) -> Seq<Seq<char>>
    decreases args.len(),
{
    if args.len() == 0 {
        Seq::empty()
    } else {
        let rest = schema_params(args.drop_last());
        match args.last() {
            ToolArgView::Param { name, .. } => rest.push(name),
            _ => rest,
        }
    }
}

/// The names of the parameters that a tool's input schema requires: those
/// read from the call's arguments whose type is not an `Option`, in order.
pub open spec fn schema_required(args: Seq<ToolArgView>) -> Seq<Seq<char>>
    decreases args.len(),
{
    if args.len() == 0 {
        Seq::empty()
    } else {
        let rest = schema_required(args.drop_last());
        match args.last() {
            ToolArgView::Param { name, required } => if required {
                rest.push(name)
            } else {
                rest
            },
            _ => rest,
        }
    }
}

/// The parameters that a tool's input schema declares and those it
/// requires, from how the tool's parameters are passed.
pub fn schema_parameters(args: &Vec<ToolArg>) -> (r: (Vec<String>, Vec<String>))
    ensures
        views(r.0@) == schema_params(tool_arg_views(args@)),
        views(r.1@) == schema_required(tool_arg_views(args@)),
{
    let mut params: Vec<String> = Vec::new();
    let mut required: Vec<String> = Vec::new();
    let mut i: usize = 0;
    while i < args.len()
        invariant
            i <= args@.len(),
            views(params@) == schema_params(tool_arg_views(args@.take(i as int))),
            views(required@) == schema_required(tool_arg_views(args@.take(i as int))),
        decreases args@.len() - i,
    {
        proof {
            let t = tool_arg_views(args@.take(i + 1));
            assert(t.drop_last() =~= tool_arg_views(args@.take(i as int)));
            assert(t.last() == args@[i as int]@);
        }
        match &args[i] {
            ToolArg::Param { name, required: req } => {
                let ghost p0 = views(params@);
                let ghost r0 = views(required@);
                params.push(name.clone());
                assert(views(params@) =~= p0.push(name@));
                if *req {
                    required.push(name.clone());
                    assert(views(required@) =~= r0.push(name@));
                }
            },
            _ => {},
        }
        i = i + 1;
    }
    assert(args@.take(args@.len() as int) =~= args@);
    (params, required)
}

/// A tool as the generated handler lists it: its name and description, the
/// parameters its input schema declares and requires (each parameter's own
/// schema comes from its type), and its meta; it sets no title, output
/// schema, execution properties or annotations.
#[derive(Debug, PartialEq)]
pub struct ToolListing {
    pub name: String,
    pub title: Option<String>,
    pub description: String,
    pub parameters: Vec<String>,
    pub required: Vec<String>,
    pub output_schema: Option<ToolOutputSchema>,
    pub execution: Option<ToolExecution>,
    pub annotations: Option<ToolAnnotations>,
    pub meta: Option<JsonMap>,
}

/// Whether `l` lists the tool handler `t`.
pub open spec fn lists_tool(l: ToolListing, t: ToolInfoView) -> bool {
    &&& l.name@ == t.name
    &&& l.title is None
    &&& l.description@ == t.description
    &&& views(l.parameters@) == schema_params(t.arguments)
    &&& views(l.required@) == schema_required(t.arguments)
    &&& l.output_schema is None
    &&& l.execution is None
    &&& l.annotations is None
    &&& handler_meta_spec(l.meta, t.tags, t.version)
}

/// A description or, where there is none, the empty string.
pub open spec fn or_empty(d: Option<Seq<char>>) -> Seq<char> {
    match d {
        Some(d) => d,
        None => Seq::empty(),
    }
}

/// Whether `r` lists the resource handler `h`: its URI template, name,
/// description (empty where it has none), MIME type and meta.
pub open spec fn lists_resource(r: Resource, h: ResourceInfoView) -> bool {
    &&& r.name@ == h.name
    &&& r.title is None
    &&& r.uri@ == h.uri_template
    &&& opt_view(r.description) == Some(or_empty(h.description))
    &&& opt_view(r.mime_type) == h.mime_type
    &&& r.annotations is None
    &&& r.size is None
    &&& handler_meta_spec(r.meta, h.tags, h.version)
}

/// Whether `a` lists the prompt argument `h`.
pub open spec fn lists_argument(a: PromptArgument, h: PromptArgumentView) -> bool {
    &&& a.name@ == h.name
    &&& a.title is None
    &&& opt_view(a.description) == Some(or_empty(h.description))
    &&& a.required == Some(h.required)
}

/// Whether `p` lists the prompt handler `h`: its name, description (empty
/// where it has none), arguments (none where it takes none) and meta.
pub open spec fn lists_prompt(p: Prompt, h: PromptInfoView) -> bool {
    &&& p.name@ == h.name
    &&& p.title is None
    &&& opt_view(p.description) == Some(or_empty(h.description))
    &&& (if h.arguments.len() == 0 {
        p.arguments is None
    } else {
        p.arguments matches Some(args) && args@.len() == h.arguments.len() && forall|i: int|
            0 <= i < args@.len() ==> lists_argument(#[trigger] args@[i], h.arguments[i])
    })
    &&& handler_meta_spec(p.meta, h.tags, h.version)
}

fn description_or_empty(d: &Option<String>) -> (r: String)
    ensures
        r@ == or_empty(opt_view(*d)),
{
    match d {
        Some(d) => d.clone(),
        None => String::new(),
    }
}

/// The tools that the generated handler lists, in order.
pub fn listed_tools(info: &ServerInfo) -> (r: Vec<ToolListing>)
    ensures
        r@.len() == info.tools@.len(),
        forall|i: int| 0 <= i < r@.len() ==> lists_tool(#[trigger] r@[i], info.tools@[i]@),
{
    let mut out: Vec<ToolListing> = Vec::new();
    let mut i: usize = 0;
    while i < info.tools.len()
        invariant
            i <= info.tools@.len(),
            out@.len() == i,
            forall|j: int| 0 <= j < i ==> lists_tool(#[trigger] out@[j], info.tools@[j]@),
        decreases info.tools@.len() - i,
    {
        let t = &info.tools[i];
        let (parameters, required) = schema_parameters(&t.arguments);
        out.push(
            ToolListing {
                name: t.name.clone(),
                title: None,
                description: t.description.clone(),
                parameters,
                required,
                output_schema: None,
                execution: None,
                annotations: None,
                meta: handler_meta(&t.tags, &t.version),
            },
        );
        i = i + 1;
    }
    out
}

/// The resources that the generated handler lists, in order.
pub fn listed_resources(info: &ServerInfo) -> (r: Vec<Resource>)
    ensures
        r@.len() == info.resources@.len(),
        forall|i: int| 0 <= i < r@.len() ==> lists_resource(#[trigger] r@[i], info.resources@[i]@),
{
    let mut out: Vec<Resource> = Vec::new();
    let mut i: usize = 0;
    while i < info.resources.len()
        invariant
            i <= info.resources@.len(),
            out@.len() == i,
            forall|j: int| 0 <= j < i ==> lists_resource(#[trigger] out@[j], info.resources@[j]@),
        decreases info.resources@.len() - i,
    {
        let h = &info.resources[i];
        out.push(
            Resource {
                name: h.name.clone(),
                title: None,
                uri: h.uri_template.clone(),
                description: Some(description_or_empty(&h.description)),
                mime_type: clone_opt(&h.mime_type),
                annotations: None,
                size: None,
                meta: handler_meta(&h.tags, &h.version),
            },
        );
        i = i + 1;
    }
    out
}

fn listed_arguments(args: &Vec<PromptArgumentInfo>) -> (r: Vec<PromptArgument>)
    ensures
        r@.len() == args@.len(),
        forall|i: int| 0 <= i < r@.len() ==> lists_argument(#[trigger] r@[i], args@[i]@),
{
    let mut out: Vec<PromptArgument> = Vec::new();
    let mut i: usize = 0;
    while i < args.len()
        invariant
            i <= args@.len(),
            out@.len() == i,
            forall|j: int| 0 <= j < i ==> lists_argument(#[trigger] out@[j], args@[j]@),
        decreases args@.len() - i,
    {
        let a = &args[i];
        out.push(
            PromptArgument {
                name: a.name.clone(),
                title: None,
                description: Some(description_or_empty(&a.description)),
                required: Some(a.required),
            },
        );
        i = i + 1;
    }
    out
}

/// The prompts that the generated handler lists, in order.
pub fn listed_prompts(info: &ServerInfo) -> (r: Vec<Prompt>)
    ensures
        r@.len() == info.prompts@.len(),
        forall|i: int| 0 <= i < r@.len() ==> lists_prompt(#[trigger] r@[i], info.prompts@[i]@),
{
    let mut out: Vec<Prompt> = Vec::new();
    let mut i: usize = 0;
    while i < info.prompts.len()
        invariant
            i <= info.prompts@.len(),
            out@.len() == i,
            forall|j: int| 0 <= j < i ==> lists_prompt(#[trigger] out@[j], info.prompts@[j]@),
        decreases info.prompts@.len() - i,
    {
        let h = &info.prompts[i];
        let arguments = if h.arguments.len() == 0 {
            None
        } else {
            Some(listed_arguments(&h.arguments))
        };
        let p = Prompt {
            name: h.name.clone(),
            title: None,
            description: Some(description_or_empty(&h.description)),
            arguments,
            meta: handler_meta(&h.tags, &h.version),
        };
        proof {
            assert(argument_views(h.arguments@).len() == h.arguments@.len());
            if h.arguments@.len() > 0 {
                let args = p.arguments->0;
                assert forall|k: int| 0 <= k < args@.len() implies lists_argument(
                    #[trigger] args@[k],
                    h@.arguments[k],
                ) by {
                    assert(h@.arguments[k] == h.arguments@[k]@);
                }
            }
        }
        out.push(p);
        i = i + 1;
    }
    out
}

/// The position of the first tool handler named `name` from `i` on.
pub open spec fn tool_named_from(tools: Seq<ToolInfoView>, name: Seq<char>, i: nat) -> Option<nat>
    decreases tools.len() - i,
{
    if i >= tools.len() {
        None
    } else if tools[i as int].name == name {
        Some(i)
    } else {
        tool_named_from(tools, name, i + 1)
    }
}

/// The tool handler that the generated handler calls for the tool `name`:
/// the first one of that name; none where no handler has it.
pub fn find_tool(info: &ServerInfo, name: &str) -> (r: Option<usize>)
    ensures
        match r {
            Some(i) => tool_named_from(tool_views(info.tools@), name@, 0) == Some(i as nat),
            None => tool_named_from(tool_views(info.tools@), name@, 0) is None,
        },
{
    let mut i: usize = 0;
    while i < info.tools.len()
        invariant
            i <= info.tools@.len(),
            tool_named_from(tool_views(info.tools@), name@, 0) == tool_named_from(
                tool_views(info.tools@),
                name@,
                i as nat,
            ),
        decreases info.tools@.len() - i,
    {
        if str_eq(info.tools[i].name.as_str(), name) {
            return Some(i);
        }
        i = i + 1;
    }
    None
}

/// The position of the first prompt handler named `name` from `i` on.
pub open spec fn prompt_named_from(prompts: Seq<PromptInfoView>, name: Seq<char>, i: nat) -> Option<nat>
    decreases prompts.len() - i,
{
    if i >= prompts.len() {
        None
    } else if prompts[i as int].name == name {
        Some(i)
    } else {
        prompt_named_from(prompts, name, i + 1)
    }
}

/// The prompt handler that the generated handler calls for the prompt
/// `name`: the first one of that name; none where no handler has it.
pub fn find_prompt(info: &ServerInfo, name: &str) -> (r: Option<usize>)
    ensures
        match r {
            Some(i) => prompt_named_from(prompt_views(info.prompts@), name@, 0) == Some(i as nat),
            None => prompt_named_from(prompt_views(info.prompts@), name@, 0) is None,
        },
{
    let mut i: usize = 0;
    while i < info.prompts.len()
        invariant
            i <= info.prompts@.len(),
            prompt_named_from(prompt_views(info.prompts@), name@, 0) == prompt_named_from(
                prompt_views(info.prompts@),
                name@,
                i as nat,
            ),
        decreases info.prompts@.len() - i,
    {
        if str_eq(info.prompts[i].name.as_str(), name) {
            return Some(i);
        }
        i = i + 1;
    }
    None
}

/// The last position before `i` where `c` occurs in `s`.
pub open spec fn last_before(s: Seq<char>, c: char, i: nat) -> Option<nat>
    decreases i,
{
    if i == 0 {
        None
    } else if s[i - 1] == c {
        Some((i - 1) as nat)
    } else {
        last_before(s, c, (i - 1) as nat)
    }
}

/// What a URI template has before its first `{`.
pub open spec fn template_prefix(t: Seq<char>) -> Seq<char> {
    match find_from(t, seq!['{'], 0) {
        Some(k) => t.take(k as int),
        None => t,
    }
}

/// What a URI template has after its last `}` (all of it where it has none).
pub open spec fn template_suffix(t: Seq<char>) -> Seq<char> {
    match last_before(t, '}', t.len()) {
        Some(k) => t.skip(k as int + 1),
        None => t,
    }
}

/// Whether the generated handler serves `uri` by a resource with URI
/// template `t`: a template without variables matches itself alone; one
/// with variables matches a URI that starts with what comes before its
/// first `{` and, after that, ends with what comes after its last `}`.
pub open spec fn template_matches(t: Seq<char>, uri: Seq<char>) -> bool {
    if contains_seq(t, seq!['{']) {
        let p = template_prefix(t);
        let s = template_suffix(t);
        &&& uri.len() >= p.len() + s.len()
        &&& uri.take(p.len() as int) == p
        &&& uri.skip(uri.len() - s.len()) == s
    } else {
        uri == t
    }
}

fn last_index_of(v: &Vec<char>, c: char) -> (r: Option<usize>)
    ensures
        match r {
            Some(k) => last_before(v@, c, v@.len()) == Some(k as nat) && k < v@.len(),
            None => last_before(v@, c, v@.len()) is None,
        },
{
    let mut i: usize = v.len();
    while i > 0
        invariant
            i <= v@.len(),
            last_before(v@, c, v@.len()) == last_before(v@, c, i as nat),
        decreases i,
    {
        if v[i - 1] == c {
            return Some(i - 1);
        }
        i = i - 1;
    }
    None
}

/// What a URI template has before its first variable and after its last
/// one; none where it has no variable.
pub fn template_parts(template: &str) -> (r: Option<(String, String)>)
    ensures
        match r {
            Some((p, s)) => contains_seq(template@, seq!['{']) && p@ == template_prefix(template@) && s@
                == template_suffix(template@),
            None => !contains_seq(template@, seq!['{']),
        },
{
    let t = chars_of(template);
    match find_char(&t, '{', 0) {
        None => None,
        Some(k) => {
            let prefix = string_of(&t, 0, k);
            let suffix = match last_index_of(&t, '}') {
                Some(j) => {
                    let n = t.len();
                    assert(j < n);
                    string_of(&t, j + 1, n)
                },
                None => template.to_string(),
            };
            proof {
                assert(t@.subrange(0, k as int) =~= t@.take(k as int));
            }
            Some((prefix, suffix))
        },
    }
}

/// Whether a resource with URI template `template` serves `uri`.
pub fn resource_template_matches(template: &str, uri: &str) -> (b: bool)
    ensures
        b == template_matches(template@, uri@),
{
    match template_parts(template) {
        None => str_eq(template, uri),
        Some((p, s)) => {
            let u = chars_of(uri);
            let prefix = chars_of(p.as_str());
            let suffix = chars_of(s.as_str());
            if u.len() < prefix.len() || u.len() - prefix.len() < suffix.len() {
                return false;
            }
            let starts = matches_at(&u, &prefix, 0);
            let ends = matches_at(&u, &suffix, u.len() - suffix.len());
            proof {
                assert(u@.subrange(0, prefix@.len() as int) =~= u@.take(prefix@.len() as int));
                assert(u@.subrange(u@.len() - suffix@.len(), u@.len() - suffix@.len() + suffix@.len())
                    =~= u@.skip(u@.len() - suffix@.len()));
            }
            starts && ends
        },
    }
}

/// The position of the first resource handler from `i` on whose template
/// matches `uri`.
pub open spec fn resource_for_from(resources: Seq<ResourceInfoView>, uri: Seq<char>, i: nat) -> Option<nat>
    decreases resources.len() - i,
{
    if i >= resources.len() {
        None
    } else if template_matches(resources[i as int].uri_template, uri) {
        Some(i)
    } else {
        resource_for_from(resources, uri, i + 1)
    }
}

/// The resource handler that the generated handler calls for `uri`: the
/// first whose template matches it; none where no template does.
pub fn find_resource(info: &ServerInfo, uri: &str) -> (r: Option<usize>)
    ensures
        match r {
            Some(i) => resource_for_from(resource_views(info.resources@), uri@, 0) == Some(i as nat),
            None => resource_for_from(resource_views(info.resources@), uri@, 0) is None,
        },
{
    let mut i: usize = 0;
    while i < info.resources.len()
        invariant
            i <= info.resources@.len(),
            resource_for_from(resource_views(info.resources@), uri@, 0) == resource_for_from(
                resource_views(info.resources@),
                uri@,
                i as nat,
            ),
        decreases info.resources@.len() - i,
    {
        if resource_template_matches(info.resources[i].uri_template.as_str(), uri) {
            return Some(i);
        }
        i = i + 1;
    }
    None
}

/// The arguments a prompt request carries: its object's entries, where it
/// carries an object.
pub open spec fn given_arguments(args: Option<JsonValue>) -> Option<Map<Seq<char>, JsonValue>> {
    match args {
        Some(JsonValue::Object(m)) => Some(m.map()),
        _ => None,
    }
}

/// The string that the request's arguments give for `name`, if any.
pub open spec fn string_argument(given: Option<Map<Seq<char>, JsonValue>>, name: Seq<char>) -> Option<Seq<char>> {
    match given {
        Some(m) => if m.dom().contains(name) {
            match m[name] {
                JsonValue::String(s) => Some(s@),
                _ => None,
            }
        } else {
            None
        },
        None => None,
    }
}

/// The message for a required prompt argument that the request lacks.
pub open spec fn missing_argument_message(name: Seq<char>) -> Seq<char> {
    "Missing required argument: "@ + name
}

/// The position of the first required argument from `i` on for which the
/// request gives no string.
pub open spec fn first_missing(args: Seq<PromptArgumentView>, given: Option<Map<Seq<char>, JsonValue>>, i: nat) -> Option<nat>
    decreases args.len() - i,
{
    if i >= args.len() {
        None
    } else if args[i as int].required && string_argument(given, args[i as int].name) is None {
        Some(i)
    } else {
        first_missing(args, given, i + 1)
    }
}

/// What the generated handler passes to a prompt handler with arguments
/// `args` for a request with arguments `request_args`: for each argument
/// the string the request gives for it; or, where a required one is
/// missing, the message for the first such.
pub open spec fn prompt_call(args: Seq<PromptArgumentView>, request_args: Option<JsonValue>) -> Result<
    Seq<Option<Seq<char>>>,
    Seq<char>,
> {
    let given = given_arguments(request_args);
    match first_missing(args, given, 0) {
        Some(k) => Err(missing_argument_message(args[k as int].name)),
        None => Ok(Seq::new(args.len(), |i: int| string_argument(given, args[i].name))),
    }
}

/// The views of a sequence of optional strings.
pub open spec fn opt_views(v: Seq<Option<String>>) -> Seq<Option<Seq<char>>> {
    v.map_values(|o: Option<String>| opt_view(o))
}

/// The values that the generated handler passes to the prompt handler
/// `prompt` for a request with arguments `request_args`.
pub fn prompt_call_arguments(prompt: &PromptInfo, request_args: &Option<JsonValue>) -> (r: Result<
    Vec<Option<String>>,
    String,
>)
    ensures
        match prompt_call(prompt@.arguments, *request_args) {
            Ok(vals) => r matches Ok(v) && opt_views(v@) == vals,
            Err(m) => r matches Err(e) && e@ == m,
        },
{
    let given: Option<&JsonMap> = match request_args {
        Some(JsonValue::Object(m)) => Some(m),
        _ => None,
    };
    let ghost g = given_arguments(*request_args);
    let ghost args = prompt@.arguments;
    let mut out: Vec<Option<String>> = Vec::new();
    let mut i: usize = 0;
    while i < prompt.arguments.len()
        invariant
            i <= prompt.arguments@.len(),
            args == prompt@.arguments,
            g == given_arguments(*request_args),
            match given {
                Some(m) => g == Some(m.map()),
                None => g is None,
            },
            first_missing(args, g, 0) == first_missing(args, g, i as nat),
            out@.len() == i,
            forall|j: int| 0 <= j < i ==> opt_view(#[trigger] out@[j]) == string_argument(g, args[j].name),
        decreases prompt.arguments@.len() - i,
    {
        let a = &prompt.arguments[i];
        proof {
            assert(args[i as int] == a@);
        }
        let value: Option<String> = match given {
            Some(m) => match m.get(a.name.as_str()) {
                Some(JsonValue::String(s)) => Some(s.clone()),
                _ => None,
            },
            None => None,
        };
        if a.required && value.is_none() {
            let mut message = "Missing required argument: ".to_string();
            push_str(&mut message, a.name.as_str());
            return Err(message);
        }
        out.push(value);
        i = i + 1;
    }
    proof {
        assert(opt_views(out@) =~= Seq::new(args.len(), |k: int| string_argument(g, args[k].name)));
    }
    Ok(out)
}

/// How the generated handler tells whether a resource serves a URI.
#[derive(Debug, Clone, PartialEq, Eq)]
pub enum ResourceRoute {
    /// The URI must be this text.
    Exact(String),
    /// The URI must start with `prefix` and, after it, end with `suffix`.
    Template { prefix: String, suffix: String },
}

/// Whether a route lets through `uri`.
pub open spec fn route_matches(r: ResourceRoute, uri: Seq<char>) -> bool {
    match r {
        ResourceRoute::Exact(t) => uri == t@,
        ResourceRoute::Template { prefix, suffix } => {
            &&& uri.len() >= prefix@.len() + suffix@.len()
            &&& uri.take(prefix@.len() as int) == prefix@
            &&& uri.skip(uri.len() - suffix@.len()) == suffix@
        },
    }
}

/// Whether `r` is the route for the URI template `t`: the text itself for
/// a template without variables, else what comes before its first variable
/// and after its last.
pub open spec fn route_of(r: ResourceRoute, t: Seq<char>) -> bool {
    match r {
        ResourceRoute::Exact(x) => !contains_seq(t, seq!['{']) && x@ == t,
        ResourceRoute::Template { prefix, suffix } => contains_seq(t, seq!['{']) && prefix@ == template_prefix(t)
            && suffix@ == template_suffix(t),
    }
}

/// The route for the URI template `template`.
pub fn resource_route(template: &str) -> (r: ResourceRoute)
    ensures
        route_of(r, template@),
{
    match template_parts(template) {
        Some((prefix, suffix)) => ResourceRoute::Template { prefix, suffix },
        None => ResourceRoute::Exact(template.to_string()),
    }
}

/// A route lets through exactly the URIs that its template matches.
pub proof fn lemma_route_agrees(r: ResourceRoute, t: Seq<char>, uri: Seq<char>)
    requires
        route_of(r, t),
    ensures
        route_matches(r, uri) == template_matches(t, uri),
{
}

/// The position of the first route from `i` on that lets through `uri`.
pub open spec fn first_route_from(routes: Seq<(ResourceRoute, String)>, uri: Seq<char>, i: nat) -> Option<nat>
    decreases routes.len() - i,
{
    if i >= routes.len() {
        None
    } else if route_matches(routes[i as int].0, uri) {
        Some(i)
    } else {
        first_route_from(routes, uri, i + 1)
    }
}

proof fn lemma_first_route(
    routes: Seq<(ResourceRoute, String)>,
    res: Seq<ResourceInfoView>,
    uri: Seq<char>,
    i: nat,
)
    requires
        routes.len() == res.len(),
        forall|j: int| 0 <= j < routes.len() ==> route_of(#[trigger] routes[j].0, res[j].uri_template),
    ensures
        first_route_from(routes, uri, i) == resource_for_from(res, uri, i),
    decreases routes.len() - i,
{
    if i < routes.len() {
        lemma_route_agrees(routes[i as int].0, res[i as int].uri_template, uri);
        lemma_first_route(routes, res, uri, i + 1);
    }
}

/// How the generated handler calls a tool: the tool's name, which is also
/// its method's, and how each parameter is passed.
#[derive(Debug, Clone, PartialEq, Eq)]
pub struct ToolCall {
    pub name: String,
    pub arguments: Vec<ToolArg>,
}

/// The position of the first tool call named `name` from `i` on.
pub open spec fn tool_call_from(calls: Seq<ToolCall>, name: Seq<char>, i: nat) -> Option<nat>
    decreases calls.len() - i,
{
    if i >= calls.len() {
        None
    } else if calls[i as int].name@ == name {
        Some(i)
    } else {
        tool_call_from(calls, name, i + 1)
    }
}

proof fn lemma_tool_call_from(calls: Seq<ToolCall>, tools: Seq<ToolInfoView>, name: Seq<char>, i: nat)
    requires
        calls.len() == tools.len(),
        forall|j: int| 0 <= j < calls.len() ==> (#[trigger] calls[j]).name@ == tools[j].name,
    ensures
        tool_call_from(calls, name, i) == tool_named_from(tools, name, i),
    decreases calls.len() - i,
{
    if i < calls.len() {
        assert(calls[i as int].name@ == tools[i as int].name);
        lemma_tool_call_from(calls, tools, name, i + 1);
    }
}

/// How the generated handler calls a prompt: the prompt's name, the method
/// that serves it, and the arguments it reads from the request.
#[derive(Debug, Clone, PartialEq, Eq)]
pub struct PromptCall {
    pub name: String,
    pub fn_name: String,
    pub arguments: Vec<PromptArgumentInfo>,
}

/// The position of the first prompt call named `name` from `i` on.
pub open spec fn prompt_call_from(calls: Seq<PromptCall>, name: Seq<char>, i: nat) -> Option<nat>
    decreases calls.len() - i,
{
    if i >= calls.len() {
        None
    } else if calls[i as int].name@ == name {
        Some(i)
    } else {
        prompt_call_from(calls, name, i + 1)
    }
}

proof fn lemma_prompt_call_from(calls: Seq<PromptCall>, prompts: Seq<PromptInfoView>, name: Seq<char>, i: nat)
    requires
        calls.len() == prompts.len(),
        forall|j: int| 0 <= j < calls.len() ==> (#[trigger] calls[j]).name@ == prompts[j].name,
    ensures
        prompt_call_from(calls, name, i) == prompt_named_from(prompts, name, i),
    decreases calls.len() - i,
{
    if i < calls.len() {
        assert(calls[i as int].name@ == prompts[i as int].name);
        lemma_prompt_call_from(calls, prompts, name, i + 1);
    }
}

/// The task methods of the generated handler, each with the capability it
/// answers as not supported.
pub open spec fn task_methods_spec() -> Seq<(Seq<char>, Seq<char>)> {
    seq![
        ("list_tasks"@, "tasks/list"@),
        ("get_task"@, "tasks/get"@),
        ("cancel_task"@, "tasks/cancel"@),
        ("get_task_result"@, "tasks/result"@),
    ]
}

/// The views of a sequence of string pairs.
pub open spec fn pair_views(v: Seq<(String, String)>) -> Seq<(Seq<char>, Seq<char>)> {
    v.map_values(|p: (String, String)| (p.0@, p.1@))
}

/// The task methods of the generated handler, each with the capability it
/// answers as not supported.
pub fn unsupported_task_methods() -> (r: Vec<(String, String)>)
    ensures
        pair_views(r@) == task_methods_spec(),
{
    let mut r: Vec<(String, String)> = Vec::new();
    r.push(("list_tasks".to_string(), "tasks/list".to_string()));
    r.push(("get_task".to_string(), "tasks/get".to_string()));
    r.push(("cancel_task".to_string(), "tasks/cancel".to_string()));
    r.push(("get_task_result".to_string(), "tasks/result".to_string()));
    assert(pair_views(r@) =~= task_methods_spec());
    r
}

/// Why the generated handler refuses a resource request before looking for
/// a resource.
#[derive(Debug, Clone, PartialEq, Eq)]
pub enum UriRefusal {
    /// The URI is longer, in bytes, than allowed.
    TooLong { length: usize, max: usize },
    /// The scheme check failed, with its message.
    Scheme(String),
}

/// The checks the generated handler makes of a resource URI, in order: its
/// length in bytes against `max_len` first, then the outcome of the scheme
/// check, `scheme_check`.
pub fn resource_request_check(uri: &str, max_len: usize, scheme_check: &Result<(), String>) -> (r: Result<
    (),
    UriRefusal,
>)
    ensures
        uri.len() > max_len ==> r == Err::<(), UriRefusal>(
            UriRefusal::TooLong { length: uri.len(), max: max_len },
        ),
        uri.len() <= max_len ==> match scheme_check {
            Ok(()) => r is Ok,
            Err(e) => r == Err::<(), UriRefusal>(UriRefusal::Scheme(*e)),
        },
{
    let length = uri.len();
    if length > max_len {
        return Err(UriRefusal::TooLong { length, max: max_len });
    }
    match scheme_check {
        Ok(()) => Ok(()),
        Err(e) => Err(UriRefusal::Scheme(e.clone())),
    }
}

/// The message with which the generated handler refuses a resource request.
pub open spec fn uri_refusal_message_spec(r: UriRefusal) -> Seq<char> {
    match r {
        UriRefusal::TooLong { length, max } => "URI too long: "@ + crate::text::decimal(length as nat) + " bytes (max: "@
            + crate::text::decimal(max as nat) + ")"@,
        UriRefusal::Scheme(e) => "URI scheme validation failed: "@ + e@,
    }
}

/// The message with which the generated handler refuses a resource request.
pub fn uri_refusal_message(r: &UriRefusal) -> (m: String)
    ensures
        m@ == uri_refusal_message_spec(*r),
{
    match r {
        UriRefusal::TooLong { length, max } => {
            let mut m = "URI too long: ".to_string();
            push_str(&mut m, crate::text::decimal_string(*length).as_str());
            push_str(&mut m, " bytes (max: ");
            push_str(&mut m, crate::text::decimal_string(*max).as_str());
            push_str(&mut m, ")");
            m
        },
        UriRefusal::Scheme(e) => {
            let mut m = "URI scheme validation failed: ".to_string();
            push_str(&mut m, e.as_str());
            m
        },
    }
}

/// What the handler that the `#[server]` macro generates is made of, before
/// it is written out as code: the path that names the framework, what the
/// macro read, the tools, resources and prompts it lists, how it dispatches
/// tool calls, resource reads and prompt requests, the task methods it
/// answers as unsupported, and the impl block with the handler attributes
/// stripped.
#[derive(Debug, PartialEq)]
pub struct McpHandlerPlan {
    pub krate: String,
    pub info: ServerInfo,
    pub tools: Vec<ToolListing>,
    pub resources: Vec<Resource>,
    pub prompts: Vec<Prompt>,
    pub tool_calls: Vec<ToolCall>,
    pub resource_routes: Vec<(ResourceRoute, String)>,
    pub prompt_calls: Vec<PromptCall>,
    pub task_methods: Vec<(String, String)>,
    pub impl_block: ImplModel,
}

/// Whether `p` is the handler plan for `info` (read from `imp`) under the
/// framework path `krate`:
/// - it lists each handler of `info`, in order;
/// - it calls, for a tool name, the first tool of that name (none where no
///   tool has it), passing each parameter as `tool_arguments` says;
/// - it routes a URI to the first resource whose template matches it (none
///   where no template does), each route agreeing with `template_matches`;
/// - it calls, for a prompt name, the first prompt of that name, reading
///   its arguments as `prompt_call` says;
/// - it answers the four task methods as unsupported;
/// - it holds `imp` stripped.
pub open spec fn handler_plan_for(p: McpHandlerPlan, info: ServerInfoView, imp: ImplModel, krate: Seq<char>) -> bool {
    &&& p.krate@ == krate
    &&& p.info@ == info
    &&& p.tools@.len() == info.handlers.tools.len()
    &&& forall|i: int| 0 <= i < p.tools@.len() ==> lists_tool(#[trigger] p.tools@[i], info.handlers.tools[i])
    &&& p.resources@.len() == info.handlers.resources.len()
    &&& forall|i: int| 0 <= i < p.resources@.len() ==> lists_resource(#[trigger] p.resources@[i], info.handlers.resources[i])
    &&& p.prompts@.len() == info.handlers.prompts.len()
    &&& forall|i: int| 0 <= i < p.prompts@.len() ==> lists_prompt(#[trigger] p.prompts@[i], info.handlers.prompts[i])
    &&& p.tool_calls@.len() == info.handlers.tools.len()
    &&& forall|i: int| 0 <= i < p.tool_calls@.len() ==> (#[trigger] p.tool_calls@[i]).name@ == info.handlers.tools[i].name
        && tool_arg_views(p.tool_calls@[i].arguments@) == info.handlers.tools[i].arguments
    &&& forall|name: Seq<char>| tool_call_from(p.tool_calls@, name, 0) == tool_named_from(info.handlers.tools, name, 0)
    &&& p.resource_routes@.len() == info.handlers.resources.len()
    &&& forall|i: int| 0 <= i < p.resource_routes@.len() ==> route_of(
        (#[trigger] p.resource_routes@[i]).0,
        info.handlers.resources[i].uri_template,
    ) && p.resource_routes@[i].1@ == info.handlers.resources[i].fn_name
    &&& forall|uri: Seq<char>| first_route_from(p.resource_routes@, uri, 0) == resource_for_from(info.handlers.resources, uri, 0)
    &&& forall|i: int, uri: Seq<char>| 0 <= i < p.resource_routes@.len() ==> #[trigger] route_matches(
        p.resource_routes@[i].0,
        uri,
    ) == template_matches(info.handlers.resources[i].uri_template, uri)
    &&& p.prompt_calls@.len() == info.handlers.prompts.len()
    &&& forall|i: int| 0 <= i < p.prompt_calls@.len() ==> (#[trigger] p.prompt_calls@[i]).name@ == info.handlers.prompts[i].name
        && p.prompt_calls@[i].fn_name@ == info.handlers.prompts[i].fn_name
        && argument_views(p.prompt_calls@[i].arguments@) == info.handlers.prompts[i].arguments
    &&& forall|name: Seq<char>| prompt_call_from(p.prompt_calls@, name, 0) == prompt_named_from(info.handlers.prompts, name, 0)
    &&& forall|i: int, request_args: Option<JsonValue>| 0 <= i < p.prompt_calls@.len() ==> #[trigger] prompt_call(
        argument_views(p.prompt_calls@[i].arguments@),
        request_args,
    ) == prompt_call(info.handlers.prompts[i].arguments, request_args)
    &&& pair_views(p.task_methods@) == task_methods_spec()
    &&& stripped_impl(imp, p.impl_block)
}

fn copy_tool_args(v: &Vec<ToolArg>) -> (r: Vec<ToolArg>)
    ensures
        tool_arg_views(r@) == tool_arg_views(v@),
{
    let mut out: Vec<ToolArg> = Vec::new();
    let mut i: usize = 0;
    while i < v.len()
        invariant
            i <= v@.len(),
            out@.len() == i,
            forall|j: int| 0 <= j < i ==> (#[trigger] out@[j])@ == v@[j]@,
        decreases v@.len() - i,
    {
        let a = match &v[i] {
            ToolArg::Receiver => ToolArg::Receiver,
            ToolArg::Context => ToolArg::Context,
            ToolArg::Param { name, required } => ToolArg::Param { name: name.clone(), required: *required },
            ToolArg::Unnamed => ToolArg::Unnamed,
        };
        out.push(a);
        i = i + 1;
    }
    assert(tool_arg_views(out@) =~= tool_arg_views(v@));
    out
}

fn copy_prompt_args(v: &Vec<PromptArgumentInfo>) -> (r: Vec<PromptArgumentInfo>)
    ensures
        argument_views(r@) == argument_views(v@),
{
    let mut out: Vec<PromptArgumentInfo> = Vec::new();
    let mut i: usize = 0;
    while i < v.len()
        invariant
            i <= v@.len(),
            out@.len() == i,
            forall|j: int| 0 <= j < i ==> (#[trigger] out@[j])@ == v@[j]@,
        decreases v@.len() - i,
    {
        let a = &v[i];
        out.push(
            PromptArgumentInfo { name: a.name.clone(), description: clone_opt(&a.description), required: a.required },
        );
        i = i + 1;
    }
    assert(argument_views(out@) =~= argument_views(v@));
    out
}

/// Plans the handler for what the macro read from `impl_block`: its
/// listings of tools, resources and prompts, its dispatch of tool calls,
/// resource reads and prompt requests, its task methods, and the block
/// stripped of the handler attributes.
pub fn generate_mcp_handler(info: ServerInfo, impl_block: ImplModel, krate: String) -> (r: McpHandlerPlan)
    ensures
        handler_plan_for(r, info@, impl_block, krate@),
{
    let tools = listed_tools(&info);
    let resources = listed_resources(&info);
    let prompts = listed_prompts(&info);
    let ghost iv = info@;

    let mut tool_calls: Vec<ToolCall> = Vec::new();
    let mut i: usize = 0;
    while i < info.tools.len()
        invariant
            i <= info.tools@.len(),
            iv == info@,
            tool_calls@.len() == i,
            forall|j: int| 0 <= j < i ==> (#[trigger] tool_calls@[j]).name@ == iv.handlers.tools[j].name
                && tool_arg_views(tool_calls@[j].arguments@) == iv.handlers.tools[j].arguments,
        decreases info.tools@.len() - i,
    {
        let t = &info.tools[i];
        tool_calls.push(ToolCall { name: t.name.clone(), arguments: copy_tool_args(&t.arguments) });
        i = i + 1;
    }

    let mut resource_routes: Vec<(ResourceRoute, String)> = Vec::new();
    let mut i: usize = 0;
    while i < info.resources.len()
        invariant
            i <= info.resources@.len(),
            iv == info@,
            resource_routes@.len() == i,
            forall|j: int| 0 <= j < i ==> route_of((#[trigger] resource_routes@[j]).0, iv.handlers.resources[j].uri_template)
                && resource_routes@[j].1@ == iv.handlers.resources[j].fn_name,
        decreases info.resources@.len() - i,
    {
        let h = &info.resources[i];
        resource_routes.push((resource_route(h.uri_template.as_str()), h.fn_name.clone()));
        i = i + 1;
    }

    let mut prompt_calls: Vec<PromptCall> = Vec::new();
    let mut i: usize = 0;
    while i < info.prompts.len()
        invariant
            i <= info.prompts@.len(),
            iv == info@,
            prompt_calls@.len() == i,
            forall|j: int| 0 <= j < i ==> (#[trigger] prompt_calls@[j]).name@ == iv.handlers.prompts[j].name
                && prompt_calls@[j].fn_name@ == iv.handlers.prompts[j].fn_name
                && argument_views(prompt_calls@[j].arguments@) == iv.handlers.prompts[j].arguments,
        decreases info.prompts@.len() - i,
    {
        let h = &info.prompts[i];
        prompt_calls.push(
            PromptCall { name: h.name.clone(), fn_name: h.fn_name.clone(), arguments: copy_prompt_args(&h.arguments) },
        );
        i = i + 1;
    }

    proof {
        assert forall|name: Seq<char>| tool_call_from(tool_calls@, name, 0) == tool_named_from(iv.handlers.tools, name, 0) by {
            lemma_tool_call_from(tool_calls@, iv.handlers.tools, name, 0);
        }
        assert forall|uri: Seq<char>| first_route_from(resource_routes@, uri, 0) == resource_for_from(
            iv.handlers.resources,
            uri,
            0,
        ) by {
            lemma_first_route(resource_routes@, iv.handlers.resources, uri, 0);
        }
        assert forall|j: int, uri: Seq<char>| 0 <= j < resource_routes@.len() implies #[trigger] route_matches(
            resource_routes@[j].0,
            uri,
        ) == template_matches(iv.handlers.resources[j].uri_template, uri) by {
            lemma_route_agrees(resource_routes@[j].0, iv.handlers.resources[j].uri_template, uri);
        }
        assert forall|name: Seq<char>| prompt_call_from(prompt_calls@, name, 0) == prompt_named_from(
            iv.handlers.prompts,
            name,
            0,
        ) by {
            lemma_prompt_call_from(prompt_calls@, iv.handlers.prompts, name, 0);
        }
    }
    let task_methods = unsupported_task_methods();
    let stripped = strip_handler_attributes(impl_block);
    McpHandlerPlan {
        krate,
        info,
        tools,
        resources,
        prompts,
        tool_calls,
        resource_routes,
        prompt_calls,
        task_methods,
        impl_block: stripped,
    }
}

/// What `#[server(args)]` on `imp` reads, or the message it reports: the
/// impl block is checked first, then the arguments read, then the block,
/// then the tool handlers checked.
pub open spec fn server_plan(args: Seq<MetaItem>, imp: ImplModel) -> Result<ServerInfoView, Seq<char>> {
    match impl_block_check(imp) {
        Err(m) => Err(m),
        Ok(()) => match server_attrs(args) {
            Err(m) => Err(m),
            Ok(attrs) => match analyze(imp, attrs) {
                Err(m) => Err(m),
                Ok(info) => match tools_check(info.handlers.tools, 0) {
                    Some(m) => Err(m),
                    None => Ok(info),
                },
            },
        },
    }
}

/// The `#[server]` macro's work on the arguments `args` and the impl block
/// `impl_block`, with `krate` the path that names the framework: check the
/// block, read the arguments and the block, check the tool handlers, and
/// plan the handler.
pub fn generate_server(args: &Vec<MetaItem>, impl_block: ImplModel, krate: String) -> (r: Result<
    McpHandlerPlan,
    MacroError,
>)
    ensures
        match server_plan(args@, impl_block) {
            Ok(v) => r matches Ok(p) && handler_plan_for(p, v, impl_block, krate@),
            Err(m) => r matches Err(e) && e.message@ == m,
        },
{
    validate_impl_block(&impl_block)?;
    let attrs = ServerAttrs::parse(args)?;
    let info = analyze_impl(&impl_block, &attrs)?;
    validate_handlers(&info)?;
    Ok(generate_mcp_handler(info, impl_block, krate))
}

/// Stripping twice strips no more than stripping once.
pub proof fn lemma_strip_idempotent(attrs: Seq<AttrModel>)
    ensures
        without_handler_attrs(without_handler_attrs(attrs)) == without_handler_attrs(attrs),
        without_description_attrs(without_description_attrs(attrs)) == without_description_attrs(attrs),
    decreases attrs.len(),
{
    if attrs.len() > 0 {
        lemma_strip_idempotent(attrs.skip(1));
        let x = without_handler_attrs(attrs.skip(1));
        if !is_handler_attr(attrs[0]) {
            assert((seq![attrs[0]] + x).skip(1) =~= x);
            assert((seq![attrs[0]] + x)[0] == attrs[0]);
        }
        let y = without_description_attrs(attrs.skip(1));
        if !path_is(attrs[0], "description"@) {
            assert((seq![attrs[0]] + y).skip(1) =~= y);
            assert((seq![attrs[0]] + y)[0] == attrs[0]);
        }
    }
}

/// Stripping removes exactly the handler attributes: an attribute stays if
/// and only if it is not `#[tool]`, `#[resource]` or `#[prompt]`.
pub proof fn lemma_strip_keeps_exactly_others(attrs: Seq<AttrModel>, a: AttrModel)
    ensures
        without_handler_attrs(attrs).contains(a) <==> (attrs.contains(a) && !is_handler_attr(a)),
    decreases attrs.len(),
{
    if attrs.len() > 0 {
        lemma_strip_keeps_exactly_others(attrs.skip(1), a);
        let rest = attrs.skip(1);
        assert(attrs =~= seq![attrs[0]] + rest);
        if attrs.contains(a) && a != attrs[0] {
            let k = choose|k: int| 0 <= k < attrs.len() && attrs[k] == a;
            assert(rest[k - 1] == a);
        }
        if rest.contains(a) {
            let k = choose|k: int| 0 <= k < rest.len() && rest[k] == a;
            assert(attrs[k + 1] == a);
        }
        let x = without_handler_attrs(rest);
        if !is_handler_attr(attrs[0]) {
            let y = seq![attrs[0]] + x;
            if x.contains(a) {
                let k = choose|k: int| 0 <= k < x.len() && x[k] == a;
                assert(y[k + 1] == a);
            }
            if y.contains(a) && a != attrs[0] {
                let k = choose|k: int| 0 <= k < y.len() && y[k] == a;
                assert(x[k - 1] == a);
            }
            assert(y[0] == attrs[0]);
        }
    } else {
        assert(without_handler_attrs(attrs) =~= attrs);
    }
}

/// A URI made of what a template has before its first variable, any text,
/// and what it has after its last variable is served by that template.
pub proof fn lemma_template_serves_filled(t: Seq<char>, fill: Seq<char>)
    requires
        contains_seq(t, seq!['{']),
    ensures
        template_matches(t, template_prefix(t) + fill + template_suffix(t)),
{
    let p = template_prefix(t);
    let s = template_suffix(t);
    let uri = p + fill + s;
    assert(uri.take(p.len() as int) =~= p);
    assert(uri.skip(uri.len() - s.len()) =~= s);
}

/// A template without variables serves its own text and nothing else.
pub proof fn lemma_fixed_template_exact(t: Seq<char>, uri: Seq<char>)
    requires
        !contains_seq(t, seq!['{']),
    ensures
        template_matches(t, uri) <==> uri == t,
{
}

proof fn lemma_tools_check_from(tools: Seq<ToolInfoView>, i: nat)
    ensures
        tools_check(tools, i) is None <==> forall|j: int| i <= j < tools.len() ==> (#[trigger] tools[j]).is_async
            && tools[j].has_receiver,
    decreases tools.len() - i,
{
    if i < tools.len() {
        lemma_tools_check_from(tools, i + 1);
    }
}

/// The `#[server]` macro accepts the tool handlers exactly when every one
/// is `async` and takes `self`.
pub proof fn lemma_handlers_accepted_exactly(tools: Seq<ToolInfoView>)
    ensures
        tools_check(tools, 0) is None <==> forall|j: int| 0 <= j < tools.len() ==> (#[trigger] tools[j]).is_async
            && tools[j].has_receiver,
{
    lemma_tools_check_from(tools, 0);
}

proof fn lemma_first_missing_from(args: Seq<PromptArgumentView>, given: Option<Map<Seq<char>, JsonValue>>, i: nat)
    ensures
        first_missing(args, given, i) is None <==> forall|j: int| i <= j < args.len() ==> !((#[trigger] args[j]).required
            && string_argument(given, args[j].name) is None),
        first_missing(args, given, i) matches Some(k) ==> i <= k < args.len() && args[k as int].required
            && string_argument(given, args[k as int].name) is None,
    decreases args.len() - i,
{
    if i < args.len() {
        lemma_first_missing_from(args, given, i + 1);
    }
}

/// The generated handler calls a prompt handler only with a string for
/// every required argument; it refuses the request exactly when the request
/// lacks one.
pub proof fn lemma_prompt_call_complete(args: Seq<PromptArgumentView>, request_args: Option<JsonValue>)
    ensures
        prompt_call(args, request_args) matches Ok(vals) ==> vals.len() == args.len() && forall|j: int|
            0 <= j < args.len() && (#[trigger] args[j]).required ==> vals[j] is Some,
        prompt_call(args, request_args) is Err <==> exists|j: int| 0 <= j < args.len() && (#[trigger] args[j]).required
            && string_argument(given_arguments(request_args), args[j].name) is None,
{
    lemma_first_missing_from(args, given_arguments(request_args), 0);
}

/// Stripping an impl block that is already stripped changes nothing: where
/// `b` is `a` stripped and `c` is `b` stripped, `c` has the attributes of
/// `b`, item for item and parameter for parameter.
pub proof fn lemma_strip_impl_twice(a: ImplModel, b: ImplModel, c: ImplModel)
    requires
        stripped_impl(a, b),
        stripped_impl(b, c),
    ensures
        c.is_trait_impl == b.is_trait_impl,
        c.self_ty == b.self_ty,
        c.items@.len() == b.items@.len(),
        forall|i: int| 0 <= i < b.items@.len() ==> match (#[trigger] b.items@[i], c.items@[i]) {
            (ImplItemModel::Fn(m), ImplItemModel::Fn(n)) => n.attrs@ == m.attrs@ && n.sig.ident == m.sig.ident
                && n.sig.is_async == m.sig.is_async && n.sig.inputs@.len() == m.sig.inputs@.len() && (forall|j: int|
                0 <= j < m.sig.inputs@.len() ==> match (#[trigger] m.sig.inputs@[j], n.sig.inputs@[j]) {
                    (FnArgModel::Typed { attrs: x, name: xn, ty: xt }, FnArgModel::Typed { attrs: y, name: yn, ty: yt }) =>
                        y@ == x@ && yn == xn && yt == xt,
                    (FnArgModel::Receiver, FnArgModel::Receiver) => true,
                    _ => false,
                }),
            (ImplItemModel::Other, ImplItemModel::Other) => true,
            _ => false,
        },
{
    assert forall|i: int| 0 <= i < b.items@.len() implies match (#[trigger] b.items@[i], c.items@[i]) {
        (ImplItemModel::Fn(m), ImplItemModel::Fn(n)) => n.attrs@ == m.attrs@ && n.sig.ident == m.sig.ident
            && n.sig.is_async == m.sig.is_async && n.sig.inputs@.len() == m.sig.inputs@.len() && (forall|j: int|
            0 <= j < m.sig.inputs@.len() ==> match (#[trigger] m.sig.inputs@[j], n.sig.inputs@[j]) {
                (FnArgModel::Typed { attrs: x, name: xn, ty: xt }, FnArgModel::Typed { attrs: y, name: yn, ty: yt }) =>
                    y@ == x@ && yn == xn && yt == xt,
                (FnArgModel::Receiver, FnArgModel::Receiver) => true,
                _ => false,
            }),
        (ImplItemModel::Other, ImplItemModel::Other) => true,
        _ => false,
    } by {
        assert(stripped_item(a.items@[i], b.items@[i]));
        assert(stripped_item(b.items@[i], c.items@[i]));
        if let ImplItemModel::Fn(m0) = a.items@[i] {
            let m = b.items@[i]->Fn_0;
            let n = c.items@[i]->Fn_0;
            lemma_strip_idempotent(m0.attrs@);
            assert forall|j: int| 0 <= j < m.sig.inputs@.len() implies match (#[trigger] m.sig.inputs@[j], n.sig.inputs@[j]) {
                (FnArgModel::Typed { attrs: x, name: xn, ty: xt }, FnArgModel::Typed { attrs: y, name: yn, ty: yt }) =>
                    y@ == x@ && yn == xn && yt == xt,
                (FnArgModel::Receiver, FnArgModel::Receiver) => true,
                _ => false,
            } by {
                assert(stripped_arg(m0.sig.inputs@[j], m.sig.inputs@[j]));
                assert(stripped_arg(m.sig.inputs@[j], n.sig.inputs@[j]));
                if let FnArgModel::Typed { attrs: x0, .. } = m0.sig.inputs@[j] {
                    lemma_strip_idempotent(x0@);
                }
            }
        }
    }
}

proof fn lemma_find_char_first(t: Seq<char>, c: char, k: nat, i: nat)
    requires
        i <= k < t.len(),
        t[k as int] == c,
        forall|j: int| i <= j < k ==> t[j] != c,
    ensures
        find_from(t, seq![c], i) == Some(k),
    decreases k - i,
{
    assert(t.subrange(i as int, i as int + 1) =~= seq![t[i as int]]);
    if i < k {
        assert(t.subrange(i as int, i as int + 1) != seq![c]) by {
            assert(t.subrange(i as int, i as int + 1)[0] == t[i as int]);
        }
        lemma_find_char_first(t, c, k, i + 1);
    }
}

proof fn lemma_last_before_found(t: Seq<char>, c: char, k: nat, i: nat)
    requires
        k < i <= t.len(),
        t[k as int] == c,
        forall|j: int| k < j < i ==> t[j] != c,
    ensures
        last_before(t, c, i) == Some(k),
    decreases i,
{
    if i - 1 > k {
        lemma_last_before_found(t, c, k, (i - 1) as nat);
    }
}

/// A URI template splits at its first `{` and its last `}`: for a template
/// made of text `p` without `{`, a `{`, any text, a `}`, and text `s`
/// without `}`, the generated handler keeps `p` as the prefix and `s` as the
/// suffix, and serves every URI made of `p`, any text, and `s`, however many
/// variables the template has.
pub proof fn lemma_template_splits_at_outer_braces(p: Seq<char>, mid: Seq<char>, s: Seq<char>, fill: Seq<char>)
    requires
        !p.contains('{'),
        !s.contains('}'),
    ensures
        template_prefix(p + seq!['{'] + mid + seq!['}'] + s) == p,
        template_suffix(p + seq!['{'] + mid + seq!['}'] + s) == s,
        template_matches(p + seq!['{'] + mid + seq!['}'] + s, p + fill + s),
{
    let t = p + seq!['{'] + mid + seq!['}'] + s;
    let open = p.len();
    let close = p.len() + 1 + mid.len();
    assert(t[open as int] == '{');
    assert forall|j: int| 0 <= j < open implies t[j] != '{' by {
        assert(t[j] == p[j]);
        if t[j] == '{' {
            assert(p.contains('{'));
        }
    }
    lemma_find_char_first(t, '{', open, 0);
    assert(t.take(open as int) =~= p);
    assert(t[close as int] == '}');
    assert forall|j: int| close < j < t.len() implies t[j] != '}' by {
        assert(t[j] == s[j - close - 1]);
        if t[j] == '}' {
            assert(s.contains('}'));
        }
    }
    lemma_last_before_found(t, '}', close, t.len());
    assert(t.skip(close as int + 1) =~= s);
    let uri = p + fill + s;
    assert(uri.take(p.len() as int) =~= p);
    assert(uri.skip(uri.len() - s.len()) =~= s);
}

/// The values the generated handler passes to a prompt handler are the
/// request's: for every argument, required or optional, that the request's
/// object holds as a string, the handler gets that string; for one the
/// object lacks, it gets nothing; and there is one value per argument.
pub proof fn lemma_prompt_call_passes_given_strings(args: Seq<PromptArgumentView>, m: JsonMap, j: int)
    requires
        prompt_call(args, Some(JsonValue::Object(m))) is Ok,
        0 <= j < args.len(),
    ensures
        prompt_call(args, Some(JsonValue::Object(m)))->Ok_0.len() == args.len(),
        m.map().dom().contains(args[j].name) ==> (m.map()[args[j].name] matches JsonValue::String(s)
            ==> prompt_call(args, Some(JsonValue::Object(m)))->Ok_0[j] == Some(s@)),
        !m.map().dom().contains(args[j].name) ==> prompt_call(args, Some(JsonValue::Object(m)))->Ok_0[j] is None,
{
}

/// A request without an argument object gives every optional argument
/// nothing, and is refused when a prompt has a required argument.
pub proof fn lemma_prompt_call_without_object(args: Seq<PromptArgumentView>, request_args: Option<JsonValue>)
    requires
        !(request_args matches Some(JsonValue::Object(_))),
    ensures
        (exists|j: int| 0 <= j < args.len() && (#[trigger] args[j]).required) <==> prompt_call(args, request_args) is Err,
        prompt_call(args, request_args) matches Ok(vals) ==> forall|j: int| 0 <= j < vals.len() ==> (#[trigger] vals[j]) is None,
{
    lemma_prompt_call_complete(args, request_args);
}

/// A prompt handler takes its method's doc comment as its description; only
/// where the method has none does the description come from the
/// `#[prompt(...)]` attribute.
pub proof fn lemma_prompt_description_from_doc(acc: HandlersView, m: MethodModel, k: nat)
    requires
        handler_attr_from(m.attrs@, 0) == Some(k),
        path_is(m.attrs@[k as int], "prompt"@),
    ensures
        handler_step(acc, m) matches Ok(h) && h.prompts.len() == acc.prompts.len() + 1 && h.tools
            == acc.tools && h.resources == acc.resources,
        doc_comment(m.attrs@, true) matches Some(d) ==> handler_step(acc, m)->Ok_0.prompts.last().description
            == Some(d),
        doc_comment(m.attrs@, true) is None ==> handler_step(acc, m)->Ok_0.prompts.last().description
            == handler_attrs(m.attrs@[k as int].args).description,
        handler_step(acc, m)->Ok_0.prompts.last().name == m.sig.ident@,
{
    reveal_strlit("prompt");
    reveal_strlit("tool");
    reveal_strlit("resource");
    let a = m.attrs@[k as int];
    assert("prompt"@[0] != "tool"@[0]);
    assert("prompt"@[0] != "resource"@[0]);
    assert(!path_is(a, "tool"@));
    assert(!path_is(a, "resource"@));
}

/// An impl block whose one method is a documented prompt handler gives one
/// prompt, described by that doc comment.
pub proof fn lemma_documented_prompt_in_impl(imp: ImplModel, attrs: ServerAttrsView, m: MethodModel, k: nat, d: Seq<char>)
    requires
        imp.self_ty matches TypeModel::Path(segs) && segs@.len() > 0,
        imp.items@ == seq![ImplItemModel::Fn(m)],
        handler_attr_from(m.attrs@, 0) == Some(k),
        path_is(m.attrs@[k as int], "prompt"@),
        doc_comment(m.attrs@, true) == Some(d),
    ensures
        analyze(imp, attrs) matches Ok(info) && info.handlers.prompts.len() == 1
            && info.handlers.prompts[0].description == Some(d) && info.handlers.prompts[0].name == m.sig.ident@,
{
    let empty = HandlersView { tools: Seq::empty(), resources: Seq::empty(), prompts: Seq::empty() };
    lemma_prompt_description_from_doc(empty, m, k);
    let h = handler_step(empty, m)->Ok_0;
    assert(imp.items@.skip(1) =~= Seq::<ImplItemModel>::empty());
    assert(imp.items@[0] == ImplItemModel::Fn(m));
    assert(handlers_from(imp.items@.skip(1), h) == Ok::<HandlersView, Seq<char>>(h));
    assert(handlers_from(imp.items@, empty) == Ok::<HandlersView, Seq<char>>(h));
    assert(h.prompts[0] == h.prompts.last());
}

/// A listed resource carries the MIME type of the resource handler it lists.
pub proof fn lemma_listed_resource_keeps_mime_type(r: Resource, h: ResourceInfoView)
    requires
        lists_resource(r, h),
    ensures
        opt_view(r.mime_type) == h.mime_type,
        r.uri@ == h.uri_template,
{
}

/// A resource handler takes the MIME type that its `#[resource(...)]`
/// attribute declares.
pub proof fn lemma_resource_mime_type_from_attribute(acc: HandlersView, m: MethodModel, k: nat)
    requires
        handler_attr_from(m.attrs@, 0) == Some(k),
        path_is(m.attrs@[k as int], "resource"@),
        resource_attr(m.attrs@[k as int].args) is Some,
    ensures
        handler_step(acc, m) matches Ok(h) && h.resources.len() == acc.resources.len() + 1
            && h.resources.last().mime_type == resource_attr(m.attrs@[k as int].args)->0.mime_type
            && h.resources.last().uri_template == resource_attr(m.attrs@[k as int].args)->0.uri_template,
{
    reveal_strlit("tool");
    reveal_strlit("resource");
    assert("resource"@[0] != "tool"@[0]);
    assert(!path_is(m.attrs@[k as int], "tool"@));
}

} // verus!
