//! The tool router: registers tool handlers by name, lists them, routes
//! calls to them, and combines several routers into one.

use vstd::prelude::*;
use crate::json::{JsonMap, JsonValue};
use crate::jsonrpc::{JsonRpcRequest, JsonRpcResponse, JsonRpcResponsePayload, JsonRpcVersion, RequestId};
use crate::named_map::NamedMap;
use crate::text::push_str;
use crate::tools::{Tool, ToolInputSchema, is_default_input_schema};

verus! {

/// An error of the high-level API.
#[derive(Debug, Clone, PartialEq, Eq)]
pub enum McpError {
    /// A tool could not be registered, combined or called.
    Tool(String),
}

/// The result type of the high-level API.
pub type McpResult<T> = Result<T, McpError>;

/// The handlers a server holds, by kind and by name.
pub struct HandlerRegistry<H> {
    pub tools: NamedMap<H>,
    pub prompts: NamedMap<H>,
    pub resources: NamedMap<H>,
    pub sampling: NamedMap<H>,
    pub logging: NamedMap<H>,
}

/// The handlers of a registry as maps from names to handlers.
pub ghost struct RegistryView<H> {
    pub tools: Map<Seq<char>, H>,
    pub prompts: Map<Seq<char>, H>,
    pub resources: Map<Seq<char>, H>,
    pub sampling: Map<Seq<char>, H>,
    pub logging: Map<Seq<char>, H>,
}

impl<H> View for HandlerRegistry<H> {
    type V = RegistryView<H>;

    open spec fn view(&self) -> RegistryView<H> {
        RegistryView {
            tools: self.tools.map(),
            prompts: self.prompts.map(),
            resources: self.resources.map(),
            sampling: self.sampling.map(),
            logging: self.logging.map(),
        }
    }
}

/// A registry that holds no handler.
pub open spec fn empty_registry<H>() -> RegistryView<H> {
    RegistryView {
        tools: Map::empty(),
        prompts: Map::empty(),
        resources: Map::empty(),
        sampling: Map::empty(),
        logging: Map::empty(),
    }
}

/// The handlers of `a` and `b` together; on a name both hold, `b`'s wins.
pub open spec fn union_registry<H>(a: RegistryView<H>, b: RegistryView<H>) -> RegistryView<H> {
    RegistryView {
        tools: a.tools.union_prefer_right(b.tools),
        prompts: a.prompts.union_prefer_right(b.prompts),
        resources: a.resources.union_prefer_right(b.resources),
        sampling: a.sampling.union_prefer_right(b.sampling),
        logging: a.logging.union_prefer_right(b.logging),
    }
}

/// The handlers of a sequence of registries together; on a name several
/// hold, the last one's wins.
pub open spec fn merged<H>(regs: Seq<RegistryView<H>>) -> RegistryView<H>
    decreases regs.len(),
{
    if regs.len() == 0 {
        empty_registry()
    } else {
        union_registry(merged(regs.drop_last()), regs.last())
    }
}

impl<H> HandlerRegistry<H> {
    /// A registry that holds no handler.
    pub fn new() -> (r: Self)
        ensures
            r@ == empty_registry::<H>(),
    {
        HandlerRegistry {
            tools: NamedMap::new(),
            prompts: NamedMap::new(),
            resources: NamedMap::new(),
            sampling: NamedMap::new(),
            logging: NamedMap::new(),
        }
    }

    /// Registers `handler` as the tool `name`, in place of an earlier tool of
    /// that name. A tool must have a name.
    pub fn register_tool(&mut self, name: String, handler: H) -> (r: Result<(), String>)
        ensures
            name@.len() == 0 ==> (r matches Err(e) && e@ == "Tool name cannot be empty"@
                && final(self)@ == old(self)@),
            name@.len() > 0 ==> r is Ok && final(self)@ == (RegistryView {
                tools: old(self)@.tools.insert(name@, handler),
                ..old(self)@
            }),
    {
        if name.as_str().is_empty() {
            return Err("Tool name cannot be empty".to_string());
        }
        self.tools.insert(name, handler);
        Ok(())
    }

    /// The names of the tools, in registration order, each once.
    pub fn list_tools(&self) -> (r: Vec<String>)
        ensures
            r@.map_values(|s: String| s@) == self.tools.keys(),
            self.tools.keys().no_duplicates(),
            forall|k: Seq<char>| self@.tools.dom().contains(k) <==> #[trigger] self.tools.keys().contains(k),
    {
        self.tools.names()
    }

    /// Adds every handler of `other`; on a name both hold, `other`'s wins.
    pub fn merge(&mut self, other: HandlerRegistry<H>)
        ensures
            final(self)@ == union_registry(old(self)@, other@),
    {
        let HandlerRegistry { tools, prompts, resources, sampling, logging } = other;
        self.tools.extend(tools);
        self.prompts.extend(prompts);
        self.resources.extend(resources);
        self.sampling.extend(sampling);
        self.logging.extend(logging);
    }
}

/// Routes requests to the handlers of a registry.
pub struct RequestRouter<'a, H> {
    registry: &'a HandlerRegistry<H>,
}

impl<'a, H> RequestRouter<'a, H> {
    /// The registry this router routes into.
    pub closed spec fn target(self) -> HandlerRegistry<H> {
        *self.registry
    }

    /// The handler that serves a call of tool `name`, if there is one.
    pub fn route_tool_call(&self, name: &str) -> (r: Option<&'a H>)
        ensures
            match r {
                Some(h) => self.target()@.tools.dom().contains(name@) && *h
                    == self.target()@.tools[name@],
                None => !self.target()@.tools.dom().contains(name@),
            },
    {
        self.registry.tools.get(name)
    }
}

/// Registers tool handlers and routes tool calls to them, for a server of
/// type `T`.
pub struct ToolRouter<T, H> {
    server: T,
    registry: HandlerRegistry<H>,
}

impl<T, H> ToolRouter<T, H> {
    /// The server this router belongs to.
    pub closed spec fn server_value(self) -> T {
        self.server
    }

    /// The handlers this router holds.
    pub closed spec fn handlers(self) -> RegistryView<H> {
        self.registry@
    }

    /// The tool names in registration order.
    pub closed spec fn tool_names(self) -> Seq<Seq<char>> {
        self.registry.tools.keys()
    }

    /// A router for `server` that holds no handler.
    pub fn new(server: T) -> (r: Self)
        ensures
            r.server_value() == server,
            r.handlers() == empty_registry::<H>(),
    {
        ToolRouter { server, registry: HandlerRegistry::new() }
    }

    /// Registers `handler` as the tool `name`, in place of an earlier tool of
    /// that name. A tool must have a name.
    pub fn register_tool(&mut self, name: String, handler: H) -> (r: McpResult<()>)
        ensures
            final(self).server_value() == old(self).server_value(),
            name@.len() == 0 ==> (r matches Err(McpError::Tool(m)) && m@
                == "Registration failed: Tool name cannot be empty"@ && final(self).handlers()
                == old(self).handlers()),
            name@.len() > 0 ==> r is Ok && final(self).handlers() == (RegistryView {
                tools: old(self).handlers().tools.insert(name@, handler),
                ..old(self).handlers()
            }),
    {
        match self.registry.register_tool(name, handler) {
            Ok(()) => Ok(()),
            Err(e) => {
                let mut m = "Registration failed: ".to_string();
                push_str(&mut m, e.as_str());
                proof {
                    reveal_strlit("Registration failed: ");
                    reveal_strlit("Tool name cannot be empty");
                    reveal_strlit("Registration failed: Tool name cannot be empty");
                    assert(m@ =~= "Registration failed: Tool name cannot be empty"@);
                }
                Err(McpError::Tool(m))
            },
        }
    }

    /// The names of the registered tools, in registration order, each once.
    pub fn list_tools(&self) -> (r: Vec<String>)
        ensures
            r@.map_values(|s: String| s@) == self.tool_names(),
            self.tool_names().no_duplicates(),
            forall|k: Seq<char>| self.handlers().tools.dom().contains(k) <==> #[trigger] self.tool_names().contains(k),
    {
        self.registry.list_tools()
    }

    /// The registry of handlers.
    pub fn registry(&self) -> (r: &HandlerRegistry<H>)
        ensures
            r@ == self.handlers(),
            r.tools.keys() == self.tool_names(),
    {
        &self.registry
    }

    /// The request router over this router's handlers.
    pub fn router(&self) -> (r: RequestRouter<'_, H>)
        ensures
            r.target()@ == self.handlers(),
    {
        RequestRouter { registry: &self.registry }
    }
}

/// Combines routers.
pub trait ToolRouterExt: Sized {
    /// One router that holds the handlers of all of `routers`.
    fn combine(routers: Vec<Self>) -> McpResult<Self>;
}

impl<T, H> ToolRouterExt for ToolRouter<T, H> {
    /// One router for the first router's server that holds the handlers of
    /// all routers; on a name several hold, the last one's wins. There must be
    /// at least one router.
    fn combine(routers: Vec<Self>) -> (r: McpResult<Self>)
        ensures
            routers@.len() == 0 ==> (r matches Err(McpError::Tool(m)) && m@
                == "Cannot combine empty router list"@),
            routers@.len() > 0 ==> (r matches Ok(c) && c.server_value()
                == routers@[0].server_value() && c.handlers() == merged(
                routers@.map_values(|t: Self| t.handlers()),
            )),
    {
        if routers.len() == 0 {
            return Err(McpError::Tool("Cannot combine empty router list".to_string()));
        }
        let n = routers.len();
        let ghost all = routers@.map_values(|t: Self| t.handlers());
        let ghost first_server = routers@[0].server_value();
        let mut rest = routers;
        let first = rest.remove(0);
        assert(all[0] == first.handlers());
        let ToolRouter { server, registry } = first;
        let mut combined: HandlerRegistry<H> = HandlerRegistry::new();
        combined.merge(registry);
        let total = rest.len();
        let mut i: usize = 1;
        proof {
            let t1 = all.take(1);
            assert(t1.drop_last() =~= Seq::<RegistryView<H>>::empty());
            assert(t1.last() == all[0]);
            assert(merged(t1.drop_last()) == empty_registry::<H>());
            assert(combined@ == merged(t1));
        }
        while rest.len() > 0
            invariant
                1 <= i <= total + 1,
                total + 1 == n,
                i - 1 + rest@.len() == total,
                all.len() == total + 1,
                forall|j: int| 0 <= j < rest@.len() ==> #[trigger] rest@[j].handlers() == all[i + j],
                combined@ == merged(all.take(i as int)),
            decreases rest@.len(),
        {
            let next = rest.remove(0);
            let ghost next_view = next.handlers();
            assert(next_view == all[i as int]);
            let ToolRouter { server: _, registry: next_registry } = next;
            combined.merge(next_registry);
            proof {
                let t = all.take(i + 1);
                assert(t.drop_last() =~= all.take(i as int));
                assert(t.last() == all[i as int]);
            }
            i = i + 1;
        }
        assert(all.take(all.len() as int) =~= all);
        Ok(ToolRouter { server, registry: combined })
    }
}

/// The JSON-RPC request that calls tool `tool_name` with `arguments`, under
/// request id `request_id`.
pub fn tool_call_request(tool_name: &str, arguments: JsonValue, request_id: &str) -> (r: JsonRpcRequest)
    ensures
        r.method@ == "tools/call"@,
        r.id matches RequestId::String(s) && s@ == request_id@,
        r.params matches Some(JsonValue::Object(m)) && m.keys() == seq!["name"@, "arguments"@]
            && (m.map()["name"@] matches JsonValue::String(n) && n@ == tool_name@)
            && m.map()["arguments"@] == arguments,
{
    proof {
        reveal_strlit("name");
        reveal_strlit("arguments");
        assert("name"@.len() != "arguments"@.len());
    }
    let mut params = JsonMap::new();
    params.insert("name".to_string(), JsonValue::String(tool_name.to_string()));
    params.insert("arguments".to_string(), arguments);
    JsonRpcRequest {
        jsonrpc: JsonRpcVersion,
        id: RequestId::String(request_id.to_string()),
        method: "tools/call".to_string(),
        params: Some(JsonValue::Object(params)),
    }
}

/// What a tool call's response yields: its result, or an error that carries
/// the response's error message.
pub fn tool_call_outcome(response: &JsonRpcResponse) -> (r: McpResult<&JsonValue>)
    ensures
        match response.payload {
            JsonRpcResponsePayload::Success { result } => r == Ok::<&JsonValue, McpError>(&result),
            JsonRpcResponsePayload::Error { error } => r matches Err(McpError::Tool(m)) && m@
                == "Tool execution failed: "@ + error.message@,
        },
{
    match &response.payload {
        JsonRpcResponsePayload::Success { result } => Ok(result),
        JsonRpcResponsePayload::Error { error } => {
            let mut m = "Tool execution failed: ".to_string();
            push_str(&mut m, error.message.as_str());
            Err(McpError::Tool(m))
        },
    }
}

/// The definition a router gives a tool registered under `tool_name`: the
/// description `Tool handler` and the default object schema.
pub fn registered_tool_definition(tool_name: &str) -> (t: Tool)
    ensures
        t.name@ == tool_name@,
        t.title is None,
        t.description matches Some(d) && d@ == "Tool handler"@,
        is_default_input_schema(t.input_schema),
        t.output_schema is None,
        t.execution is None,
        t.annotations is None,
        t.meta is None,
{
    Tool {
        name: tool_name.to_string(),
        title: None,
        description: Some("Tool handler".to_string()),
        input_schema: ToolInputSchema {
            schema_type: "object".to_string(),
            properties: None,
            required: None,
            additional_properties: None,
            definitions: None,
        },
        output_schema: None,
        execution: None,
        annotations: None,
        meta: None,
    }
}

/// The arguments a registered handler receives for a call: the call's
/// arguments as a JSON object, empty where the call gave none.
pub fn handler_arguments(arguments: Option<JsonMap>) -> (v: JsonValue)
    ensures
        v matches JsonValue::Object(m) && m.map() == match arguments {
            Some(a) => a.map(),
            None => Map::<Seq<char>, JsonValue>::empty(),
        },
{
    match arguments {
        Some(a) => JsonValue::Object(a),
        None => JsonValue::Object(JsonMap::new()),
    }
}

/// Combining a single router keeps its handlers.
pub proof fn lemma_combine_single<H>(r: RegistryView<H>)
    ensures
        merged(seq![r]) == r,
{
    let s = seq![r];
    assert(s.drop_last() =~= Seq::<RegistryView<H>>::empty());
    let m = union_registry(empty_registry::<H>(), r);
    assert(m.tools =~= r.tools);
    assert(m.prompts =~= r.prompts);
    assert(m.resources =~= r.resources);
    assert(m.sampling =~= r.sampling);
    assert(m.logging =~= r.logging);
    assert(m == r);
    assert(s.last() == r);
    assert(merged(s.drop_last()) == empty_registry::<H>());
}

/// Combining in two steps is combining at once: the handlers of the routers
/// `a` followed by `b` are those of `a` combined, overridden on shared names
/// by those of `b` combined.
pub proof fn lemma_combine_in_steps<H>(a: Seq<RegistryView<H>>, b: Seq<RegistryView<H>>)
    ensures
        merged(a + b) == union_registry(merged(a), merged(b)),
    decreases b.len(),
{
    if b.len() == 0 {
        assert(a + b =~= a);
        let m = merged(a);
        let u = union_registry(m, empty_registry::<H>());
        assert(u.tools =~= m.tools);
        assert(u.prompts =~= m.prompts);
        assert(u.resources =~= m.resources);
        assert(u.sampling =~= m.sampling);
        assert(u.logging =~= m.logging);
    } else {
        lemma_combine_in_steps(a, b.drop_last());
        assert((a + b).drop_last() =~= a + b.drop_last());
        assert((a + b).last() == b.last());
        let x = merged(a);
        let y = merged(b.drop_last());
        let z = b.last();
        let l = union_registry(union_registry(x, y), z);
        let r = union_registry(x, union_registry(y, z));
        assert(l.tools =~= r.tools);
        assert(l.prompts =~= r.prompts);
        assert(l.resources =~= r.resources);
        assert(l.sampling =~= r.sampling);
        assert(l.logging =~= r.logging);
    }
}

/// What the router routes to after a registration: the handler registered
/// under `name`, and for every other name what it routed to before.
pub proof fn lemma_route_after_register<H>(r: RegistryView<H>, name: Seq<char>, handler: H, other: Seq<char>)
    ensures
        (RegistryView { tools: r.tools.insert(name, handler), ..r }).tools.dom().contains(name),
        (RegistryView { tools: r.tools.insert(name, handler), ..r }).tools[name] == handler,
        other != name ==> ((RegistryView { tools: r.tools.insert(name, handler), ..r }).tools.dom().contains(
            other,
        ) == r.tools.dom().contains(other)),
        other != name && r.tools.dom().contains(other) ==> (RegistryView {
            tools: r.tools.insert(name, handler),
            ..r
        }).tools[other] == r.tools[other],
{
}

/// The names of the tools of combined routers are those of every router
/// together: a name is combined in exactly when some router holds it.
pub proof fn lemma_combined_tool_names<H>(regs: Seq<RegistryView<H>>, name: Seq<char>)
    ensures
        merged(regs).tools.dom().contains(name) <==> exists|i: int|
            0 <= i < regs.len() && (#[trigger] regs[i]).tools.dom().contains(name),
    decreases regs.len(),
{
    if regs.len() > 0 {
        let d = regs.drop_last();
        lemma_combined_tool_names(d, name);
        if exists|i: int| 0 <= i < d.len() && (#[trigger] d[i]).tools.dom().contains(name) {
            let i = choose|i: int| 0 <= i < d.len() && (#[trigger] d[i]).tools.dom().contains(name);
            assert(regs[i] == d[i]);
        }
        if exists|i: int| 0 <= i < regs.len() && (#[trigger] regs[i]).tools.dom().contains(name) {
            let i = choose|i: int| 0 <= i < regs.len() && (#[trigger] regs[i]).tools.dom().contains(name);
            if i < d.len() {
                assert(d[i] == regs[i]);
            }
        }
    }
}

} // verus!
