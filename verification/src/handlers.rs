//! Handlers built from functions: each pairs a protocol definition (a tool,
//! prompt or resource) with the function that serves it.

use vstd::prelude::*;
use crate::json::JsonMap;
use crate::tools::{Tool, ToolInputSchema};
use crate::types::{Prompt, Resource};

verus! {

/// A tool definition together with the function that serves it.
pub struct FunctionToolHandler<H> {
    tool: Tool,
    handler: H,
}

impl<H> FunctionToolHandler<H> {
    /// The definition.
    pub closed spec fn definition(self) -> Tool {
        self.tool
    }

    /// The function.
    pub closed spec fn function(self) -> H {
        self.handler
    }

    /// Pairs a tool definition with the function that serves it.
    pub fn new(tool: Tool, handler: H) -> (h: Self)
        ensures
            h.definition() == tool,
            h.function() == handler,
    {
        FunctionToolHandler { tool, handler }
    }

    /// The tool definition.
    pub fn tool_definition(&self) -> (t: &Tool)
        ensures
            *t == self.definition(),
    {
        &self.tool
    }

    /// The function that serves the tool.
    pub fn handler(&self) -> (f: &H)
        ensures
            *f == self.function(),
    {
        &self.handler
    }
}

/// A prompt definition together with the function that serves it.
pub struct FunctionPromptHandler<H> {
    prompt: Prompt,
    handler: H,
}

impl<H> FunctionPromptHandler<H> {
    /// The definition.
    pub closed spec fn definition(self) -> Prompt {
        self.prompt
    }

    /// The function.
    pub closed spec fn function(self) -> H {
        self.handler
    }

    /// Pairs a prompt definition with the function that serves it.
    pub fn new(prompt: Prompt, handler: H) -> (h: Self)
        ensures
            h.definition() == prompt,
            h.function() == handler,
    {
        FunctionPromptHandler { prompt, handler }
    }

    /// The prompt definition.
    pub fn prompt_definition(&self) -> (p: &Prompt)
        ensures
            *p == self.definition(),
    {
        &self.prompt
    }

    /// The function that serves the prompt.
    pub fn handler(&self) -> (f: &H)
        ensures
            *f == self.function(),
    {
        &self.handler
    }
}

/// A resource definition together with the function that reads it.
pub struct FunctionResourceHandler<H> {
    resource: Resource,
    handler: H,
}

impl<H> FunctionResourceHandler<H> {
    /// The definition.
    pub closed spec fn definition(self) -> Resource {
        self.resource
    }

    /// The function.
    pub closed spec fn function(self) -> H {
        self.handler
    }

    /// Pairs a resource definition with the function that reads it.
    pub fn new(resource: Resource, handler: H) -> (h: Self)
        ensures
            h.definition() == resource,
            h.function() == handler,
    {
        FunctionResourceHandler { resource, handler }
    }

    /// The resource definition.
    pub fn resource_definition(&self) -> (r: &Resource)
        ensures
            *r == self.definition(),
    {
        &self.resource
    }

    /// The function that reads the resource.
    pub fn handler(&self) -> (f: &H)
        ensures
            *f == self.function(),
    {
        &self.handler
    }

    /// Whether a resource exists at `uri`: a function-based handler claims
    /// every URI.
    pub fn resource_exists(&self, uri: &str) -> (b: bool)
        ensures
            b,
    {
        true
    }
}

/// The definition that [`tool`] and [`tool_with_schema`] give a tool: titled
/// by its name, with the given description and schema, and nothing else set.
pub open spec fn function_tool_definition(
    t: Tool,
    name: Seq<char>,
    description: Seq<char>,
) -> bool {
    &&& t.name@ == name
    &&& t.title matches Some(s) && s@ == name
    &&& t.description matches Some(s) && s@ == description
    &&& t.output_schema is None
    &&& t.execution is None
    &&& t.annotations is None
    &&& t.meta is None
}

/// A tool handler for `handler`, defined by a name and a description; its
/// input schema is an object schema with no properties.
pub fn tool<H>(name: &str, description: &str, handler: H) -> (h: FunctionToolHandler<H>)
    ensures
        function_tool_definition(h.definition(), name@, description@),
        h.definition().input_schema.schema_type@ == "object"@,
        h.definition().input_schema.properties matches Some(p) && p.map() == Map::<
            Seq<char>,
            crate::json::JsonValue,
        >::empty(),
        h.definition().input_schema.required is None,
        h.definition().input_schema.additional_properties is None,
        h.definition().input_schema.definitions is None,
        h.function() == handler,
{
    let tool_def = Tool {
        name: name.to_string(),
        title: Some(name.to_string()),
        description: Some(description.to_string()),
        input_schema: ToolInputSchema {
            schema_type: "object".to_string(),
            properties: Some(JsonMap::new()),
            required: None,
            additional_properties: None,
            definitions: None,
        },
        output_schema: None,
        execution: None,
        annotations: None,
        meta: None,
    };
    FunctionToolHandler::new(tool_def, handler)
}

/// A tool handler for `handler`, defined by a name, a description and an
/// input schema.
pub fn tool_with_schema<H>(name: &str, description: &str, schema: ToolInputSchema, handler: H) -> (h:
    FunctionToolHandler<H>)
    ensures
        function_tool_definition(h.definition(), name@, description@),
        h.definition().input_schema == schema,
        h.function() == handler,
{
    let tool_def = Tool {
        name: name.to_string(),
        title: Some(name.to_string()),
        description: Some(description.to_string()),
        input_schema: schema,
        output_schema: None,
        execution: None,
        annotations: None,
        meta: None,
    };
    FunctionToolHandler::new(tool_def, handler)
}

/// A prompt handler for `handler`, defined by a name (also its title) and a
/// description, with no arguments.
pub fn prompt<H>(name: &str, description: &str, handler: H) -> (h: FunctionPromptHandler<H>)
    ensures
        h.definition().name@ == name@,
        h.definition().title matches Some(s) && s@ == name@,
        h.definition().description matches Some(s) && s@ == description@,
        h.definition().arguments is None,
        h.definition().meta is None,
        h.function() == handler,
{
    let prompt_def = Prompt {
        name: name.to_string(),
        title: Some(name.to_string()),
        description: Some(description.to_string()),
        arguments: None,
        meta: None,
    };
    FunctionPromptHandler::new(prompt_def, handler)
}

/// A resource handler for `handler`, defined by a URI and a name (also its
/// title); the resource is plain text.
pub fn resource<H>(uri: &str, name: &str, handler: H) -> (h: FunctionResourceHandler<H>)
    ensures
        h.definition().name@ == name@,
        h.definition().title matches Some(s) && s@ == name@,
        h.definition().uri@ == uri@,
        h.definition().description is None,
        h.definition().mime_type matches Some(s) && s@ == "text/plain"@,
        h.definition().annotations is None,
        h.definition().size is None,
        h.definition().meta is None,
        h.function() == handler,
{
    let resource_def = Resource {
        name: name.to_string(),
        title: Some(name.to_string()),
        uri: uri.to_string(),
        description: None,
        mime_type: Some("text/plain".to_string()),
        annotations: None,
        size: None,
        meta: None,
    };
    FunctionResourceHandler::new(resource_def, handler)
}

} // verus!
