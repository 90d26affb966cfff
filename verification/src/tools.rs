//! Tool definitions, their input and output schemas, and the requests and
//! results used to list and call tools.

use vstd::prelude::*;
use vstd::utf8::encode_utf8;
use crate::json::{JsonMap, JsonValue};
use crate::text::{
    char_is_whitespace, decimal, decimal_string, is_whitespace, join, join_strings, push_str, views,
};
use crate::types::ContentBlock;

verus! {

/// Whether `s` holds a character that is not white space, that is, whether
/// `s.trim()` is not empty.
pub open spec fn has_non_whitespace(s: Seq<char>) -> bool {
    exists|i: int| 0 <= i < s.len() && !is_whitespace(#[trigger] s[i])
}

/// Whether `s.trim()` is not empty.
pub fn trimmed_is_nonempty(s: &str) -> (b: bool)
    ensures
        b == has_non_whitespace(s@),
{
    for c in it: s.chars()
        invariant
            it.seq() == s@,
            forall|j: int| 0 <= j < it.index() ==> is_whitespace(#[trigger] s@[j]),
    {
        let ghost k = it.index() as int;
        assert(c == s@[k]);
        if !char_is_whitespace(c) {
            return true;
        }
    }
    false
}

/// How a tool wants to be invoked with respect to tasks (older form of
/// [`ToolExecution`]).
#[derive(Debug, Clone, Copy, PartialEq, Eq, Hash)]
pub enum TaskHint {
    Never,
    Optional,
    Always,
}

/// Whether a tool supports task-augmented execution.
#[derive(Debug, Clone, Copy, PartialEq, Eq, Hash)]
pub enum TaskSupportMode {
    Forbidden,
    Optional,
    Required,
}

impl Default for TaskSupportMode {
    fn default() -> (m: Self)
        ensures
            m == TaskSupportMode::Forbidden,
    {
        TaskSupportMode::Forbidden
    }
}

/// Execution properties of a tool.
#[derive(Debug, Clone, Copy, PartialEq, Eq)]
pub struct ToolExecution {
    pub task_support: Option<TaskSupportMode>,
}

impl Default for ToolExecution {
    fn default() -> (e: Self)
        ensures
            e.task_support is None,
    {
        ToolExecution { task_support: None }
    }
}

/// Hints about a tool's behaviour. They are hints only and never a basis for
/// trust. (The numeric priority hint stays with the serialized form.)
#[derive(Debug, PartialEq)]
pub struct ToolAnnotations {
    pub title: Option<String>,
    pub audience: Option<Vec<String>>,
    pub destructive_hint: Option<bool>,
    pub idempotent_hint: Option<bool>,
    pub open_world_hint: Option<bool>,
    pub read_only_hint: Option<bool>,
    pub task_hint: Option<TaskHint>,
    pub custom: JsonMap,
}

impl Default for ToolAnnotations {
    fn default() -> (a: Self)
        ensures
            a.title is None,
            a.audience is None,
            a.destructive_hint is None,
            a.idempotent_hint is None,
            a.open_world_hint is None,
            a.read_only_hint is None,
            a.task_hint is None,
            a.custom.map() == Map::<Seq<char>, JsonValue>::empty(),
    {
        ToolAnnotations {
            title: None,
            audience: None,
            destructive_hint: None,
            idempotent_hint: None,
            open_world_hint: None,
            read_only_hint: None,
            task_hint: None,
            custom: JsonMap::new(),
        }
    }
}

/// The JSON Schema object that describes a tool's arguments.
#[derive(Debug, PartialEq)]
pub struct ToolInputSchema {
    pub schema_type: String,
    pub properties: Option<JsonMap>,
    pub required: Option<Vec<String>>,
    pub additional_properties: Option<bool>,
    pub definitions: Option<JsonMap>,
}

/// The property map of a schema, empty where there is none.
pub open spec fn property_map(p: Option<JsonMap>) -> Map<Seq<char>, JsonValue> {
    match p {
        Some(m) => m.map(),
        None => Map::empty(),
    }
}

/// The required property names of a schema, empty where there are none.
pub open spec fn required_names(r: Option<Vec<String>>) -> Seq<Seq<char>> {
    match r {
        Some(v) => views(v@),
        None => Seq::empty(),
    }
}

/// The required list after `name` is marked required: unchanged if it is
/// already there, else with `name` added last.
pub open spec fn require_name(r: Option<Vec<String>>, name: String) -> Seq<String> {
    let v = match r {
        Some(v) => v@,
        None => Seq::<String>::empty(),
    };
    if views(v).contains(name@) {
        v
    } else {
        v.push(name)
    }
}

/// The default input schema: an object with no declared properties.
pub open spec fn is_default_input_schema(s: ToolInputSchema) -> bool {
    &&& s.schema_type@ == "object"@
    &&& s.properties is None
    &&& s.required is None
    &&& s.additional_properties is None
    &&& s.definitions is None
}

impl Default for ToolInputSchema {
    /// An object schema that accepts an empty object.
    fn default() -> (s: Self)
        ensures
            is_default_input_schema(s),
    {
        ToolInputSchema {
            schema_type: "object".to_string(),
            properties: None,
            required: None,
            additional_properties: None,
            definitions: None,
        }
    }
}

impl ToolInputSchema {
    /// An input schema that accepts no parameters: an object schema that
    /// declares no properties and allows no others, so that only the empty
    /// object is accepted.
    pub fn empty() -> (s: Self)
        ensures
            s.schema_type@ == "object"@,
            s.properties is None,
            s.required is None,
            s.additional_properties == Some(false),
            s.definitions is None,
    {
        ToolInputSchema {
            schema_type: "object".to_string(),
            properties: None,
            required: None,
            additional_properties: Some(false),
            definitions: None,
        }
    }

    /// An object schema with the given properties.
    pub fn with_properties(properties: JsonMap) -> (s: Self)
        ensures
            s.schema_type@ == "object"@,
            s.properties == Some(properties),
            s.required is None,
            s.additional_properties is None,
            s.definitions is None,
    {
        ToolInputSchema {
            schema_type: "object".to_string(),
            properties: Some(properties),
            required: None,
            additional_properties: None,
            definitions: None,
        }
    }

    /// An object schema with the given properties, of which `required` must be
    /// present, and no others allowed.
    pub fn with_required_properties(properties: JsonMap, required: Vec<String>) -> (s: Self)
        ensures
            s.schema_type@ == "object"@,
            s.properties == Some(properties),
            s.required == Some(required),
            s.additional_properties == Some(false),
            s.definitions is None,
    {
        ToolInputSchema {
            schema_type: "object".to_string(),
            properties: Some(properties),
            required: Some(required),
            additional_properties: Some(false),
            definitions: None,
        }
    }

    /// This schema with property `name` described by `property` (replacing an
    /// earlier description of `name`).
    pub fn add_property(self, name: String, property: JsonValue) -> (s: Self)
        ensures
            s.properties is Some,
            property_map(s.properties) == property_map(self.properties).insert(name@, property),
            s.schema_type == self.schema_type,
            s.required == self.required,
            s.additional_properties == self.additional_properties,
            s.definitions == self.definitions,
    {
        let ToolInputSchema { schema_type, properties, required, additional_properties, definitions } =
            self;
        let mut props = match properties {
            Some(p) => p,
            None => JsonMap::new(),
        };
        props.insert(name, property);
        ToolInputSchema {
            schema_type,
            properties: Some(props),
            required,
            additional_properties,
            definitions,
        }
    }

    /// This schema with property `name` marked required (once).
    pub fn require_property(self, name: String) -> (s: Self)
        ensures
            s.required matches Some(v) && v@ == require_name(self.required, name),
            s.schema_type == self.schema_type,
            s.properties == self.properties,
            s.additional_properties == self.additional_properties,
            s.definitions == self.definitions,
    {
        let ToolInputSchema { schema_type, properties, required, additional_properties, definitions } =
            self;
        let ghost old_required = required;
        let mut req = match required {
            Some(v) => v,
            None => Vec::new(),
        };
        if !contains_string(&req, &name) {
            req.push(name);
        }
        ToolInputSchema {
            schema_type,
            properties,
            required: Some(req),
            additional_properties,
            definitions,
        }
    }
}

/// Whether `v` holds a string equal to `name`.
pub fn contains_string(v: &Vec<String>, name: &String) -> (b: bool)
    ensures
        b == views(v@).contains(name@),
{
    let mut i: usize = 0;
    while i < v.len()
        invariant
            i <= v@.len(),
            forall|j: int| 0 <= j < i ==> v@[j]@ != name@,
        decreases v@.len() - i,
    {
        if v[i] == *name {
            assert(views(v@)[i as int] == name@);
            return true;
        }
        i = i + 1;
    }
    proof {
        if views(v@).contains(name@) {
            let j = choose|j: int| 0 <= j < views(v@).len() && views(v@)[j] == name@;
            assert(v@[j]@ == name@);
        }
    }
    false
}

/// The JSON Schema object that describes a tool's successful output.
#[derive(Debug, PartialEq)]
pub struct ToolOutputSchema {
    pub schema_type: String,
    pub properties: Option<JsonMap>,
    pub required: Option<Vec<String>>,
    pub additional_properties: Option<bool>,
}

/// A tool that a server offers.
#[derive(Debug, PartialEq)]
pub struct Tool {
    pub name: String,
    pub title: Option<String>,
    pub description: Option<String>,
    pub input_schema: ToolInputSchema,
    pub output_schema: Option<ToolOutputSchema>,
    pub execution: Option<ToolExecution>,
    pub annotations: Option<ToolAnnotations>,
    pub meta: Option<JsonMap>,
}

impl Default for Tool {
    /// A tool named `unnamed_tool` with the default input schema.
    fn default() -> (t: Self)
        ensures
            t.name@ == "unnamed_tool"@,
            t.title is None,
            t.description is None,
            is_default_input_schema(t.input_schema),
            t.output_schema is None,
            t.execution is None,
            t.annotations is None,
            t.meta is None,
    {
        Tool {
            name: "unnamed_tool".to_string(),
            title: None,
            description: None,
            input_schema: ToolInputSchema::default(),
            output_schema: None,
            execution: None,
            annotations: None,
            meta: None,
        }
    }
}

impl Tool {
    /// A tool with the given name and nothing else set. The name must hold a
    /// character that is not white space.
    pub fn new(name: &str) -> (t: Self)
        requires
            has_non_whitespace(name@),
        ensures
            t.name@ == name@,
            t.title is None,
            t.description is None,
            is_default_input_schema(t.input_schema),
            t.output_schema is None,
            t.execution is None,
            t.annotations is None,
            t.meta is None,
    {
        Tool {
            name: name.to_string(),
            title: None,
            description: None,
            input_schema: ToolInputSchema::default(),
            output_schema: None,
            execution: None,
            annotations: None,
            meta: None,
        }
    }

    /// A tool with the given name and description. The name must hold a
    /// character that is not white space.
    pub fn with_description(name: &str, description: &str) -> (t: Self)
        requires
            has_non_whitespace(name@),
        ensures
            t.name@ == name@,
            t.title is None,
            t.description matches Some(d) && d@ == description@,
            is_default_input_schema(t.input_schema),
            t.output_schema is None,
            t.execution is None,
            t.annotations is None,
            t.meta is None,
    {
        Tool {
            name: name.to_string(),
            title: None,
            description: Some(description.to_string()),
            input_schema: ToolInputSchema::default(),
            output_schema: None,
            execution: None,
            annotations: None,
            meta: None,
        }
    }

    /// This tool with the given execution properties.
    pub fn with_execution(self, execution: ToolExecution) -> (t: Self)
        ensures
            t == (Tool { execution: Some(execution), ..self }),
    {
        Tool { execution: Some(execution), ..self }
    }

    /// This tool with the given input schema.
    pub fn with_input_schema(self, schema: ToolInputSchema) -> (t: Self)
        ensures
            t == (Tool { input_schema: schema, ..self }),
    {
        Tool { input_schema: schema, ..self }
    }

    /// This tool with the given output schema.
    pub fn with_output_schema(self, schema: ToolOutputSchema) -> (t: Self)
        ensures
            t == (Tool { output_schema: Some(schema), ..self }),
    {
        Tool { output_schema: Some(schema), ..self }
    }

    /// This tool with the given display title.
    pub fn with_title(self, title: &str) -> (t: Self)
        ensures
            t.title matches Some(s) && s@ == title@,
            t == (Tool { title: t.title, ..self }),
    {
        Tool { title: Some(title.to_string()), ..self }
    }

    /// This tool with the given annotations.
    pub fn with_annotations(self, annotations: ToolAnnotations) -> (t: Self)
        ensures
            t == (Tool { annotations: Some(annotations), ..self }),
    {
        Tool { annotations: Some(annotations), ..self }
    }
}

/// Metadata that asks for a request to run as a task.
#[derive(Debug, Clone, Copy, PartialEq, Eq)]
pub struct TaskMetadata {
    pub ttl: Option<u64>,
}

/// A request to list the tools of a server.
#[derive(Debug, PartialEq)]
pub struct ListToolsRequest {
    pub cursor: Option<String>,
    pub _meta: Option<JsonValue>,
}

impl Default for ListToolsRequest {
    fn default() -> (r: Self)
        ensures
            r.cursor is None,
            r._meta is None,
    {
        ListToolsRequest { cursor: None, _meta: None }
    }
}

/// One page of the tools of a server.
#[derive(Debug, PartialEq)]
pub struct ListToolsResult {
    pub tools: Vec<Tool>,
    pub next_cursor: Option<String>,
    pub _meta: Option<JsonValue>,
}

/// A request to call a tool.
#[derive(Debug, PartialEq)]
pub struct CallToolRequest {
    pub name: String,
    pub arguments: Option<JsonMap>,
    pub task: Option<TaskMetadata>,
    pub _meta: Option<JsonValue>,
}

impl Default for CallToolRequest {
    fn default() -> (r: Self)
        ensures
            r.name@ == Seq::<char>::empty(),
            r.arguments is None,
            r.task is None,
            r._meta is None,
    {
        CallToolRequest { name: String::new(), arguments: None, task: None, _meta: None }
    }
}

/// The result of a tool call.
#[derive(Debug, PartialEq)]
pub struct CallToolResult {
    pub content: Vec<ContentBlock>,
    pub is_error: Option<bool>,
    pub structured_content: Option<JsonValue>,
    pub _meta: Option<JsonValue>,
    pub task_id: Option<String>,
}

impl Default for CallToolResult {
    fn default() -> (r: Self)
        ensures
            r.content@.len() == 0,
            r.is_error is None,
            r.structured_content is None,
            r._meta is None,
            r.task_id is None,
    {
        CallToolResult {
            content: Vec::new(),
            is_error: None,
            structured_content: None,
            _meta: None,
            task_id: None,
        }
    }
}

/// The texts of the text blocks of `content`, in order.
pub open spec fn text_blocks(content: Seq<ContentBlock>) -> Seq<Seq<char>>
    decreases content.len(),
{
    if content.len() == 0 {
        Seq::empty()
    } else {
        let rest = text_blocks(content.drop_last());
        match content.last() {
            ContentBlock::Text(t) => rest.push(t.text@),
            _ => rest,
        }
    }
}

/// The number of bytes of the UTF-8 encoding of `s`, as `str::len` reports it.
pub open spec fn byte_len(s: Seq<char>) -> nat {
    (encode_utf8(s).len() as usize) as nat
}

/// The display line of content block `b`, the `i`-th (from zero) of its result.
pub open spec fn block_line(b: ContentBlock, i: nat) -> Seq<char> {
    match b {
        ContentBlock::Text(t) => t.text@,
        ContentBlock::Image(img) => "[Image: "@ + decimal(byte_len(img.data@)) + " bytes, type: "@
            + img.mime_type@ + "]"@,
        ContentBlock::Audio(a) => "[Audio: "@ + decimal(byte_len(a.data@)) + " bytes, type: "@
            + a.mime_type@ + "]"@,
        ContentBlock::ResourceLink(link) => {
            let desc = match link.description {
                Some(d) => d@,
                None => Seq::empty(),
            };
            let mime = match link.mime_type {
                Some(m) => " ["@ + m@ + "]"@,
                None => Seq::empty(),
            };
            let sep = if desc.len() > 0 {
                ": "@
            } else {
                Seq::empty()
            };
            "[Resource: "@ + link.name@ + mime + sep + desc + "]"@
        },
        ContentBlock::Resource(_) => "[Embedded Resource #"@ + decimal(i + 1) + "]"@,
    }
}

/// The display lines of a tool result: an error marker when it reports an
/// error, one line per content block, and a marker for structured output.
pub open spec fn display_lines(r: CallToolResult) -> Seq<Seq<char>> {
    let head = if r.is_error == Some(true) {
        seq!["ERROR:"@]
    } else {
        Seq::empty()
    };
    let body = Seq::new(r.content@.len(), |i: int| block_line(r.content@[i], i as nat));
    let tail = if r.structured_content is Some {
        seq!["[Includes structured output]"@]
    } else {
        Seq::empty()
    };
    head + body + tail
}

impl CallToolResult {
    /// The texts of all text blocks, joined with newlines (empty if there are none).
    pub fn all_text(&self) -> (s: String)
        ensures
            s@ == join(text_blocks(self.content@), "\n"@),
    {
        let mut texts: Vec<String> = Vec::new();
        let mut i: usize = 0;
        while i < self.content.len()
            invariant
                i <= self.content@.len(),
                views(texts@) == text_blocks(self.content@.take(i as int)),
            decreases self.content@.len() - i,
        {
            proof {
                assert(self.content@.take(i + 1).drop_last() =~= self.content@.take(i as int));
            }
            match &self.content[i] {
                ContentBlock::Text(t) => {
                    texts.push(t.text.clone());
                    assert(views(texts@) =~= text_blocks(self.content@.take(i + 1)));
                },
                _ => {},
            }
            i = i + 1;
        }
        assert(self.content@.take(self.content@.len() as int) =~= self.content@);
        join_strings(&texts, "\n")
    }

    /// The text of the first content block, if that block is text.
    pub fn first_text(&self) -> (r: Option<&str>)
        ensures
            match r {
                Some(s) => self.content@.len() > 0 && self.content@[0] is Text
                    && s@ == self.content@[0]->Text_0.text@,
                None => self.content@.len() == 0 || !(self.content@[0] is Text),
            },
    {
        if self.content.len() == 0 {
            return None;
        }
        match &self.content[0] {
            ContentBlock::Text(t) => Some(t.text.as_str()),
            _ => None,
        }
    }

    /// Whether the result reports an error (`is_error` set to `true`).
    pub fn has_error(&self) -> (b: bool)
        ensures
            b == (self.is_error == Some(true)),
    {
        match self.is_error {
            Some(e) => e,
            None => false,
        }
    }

    /// A readable rendering of the result: its display lines joined with newlines.
    pub fn to_display_string(&self) -> (s: String)
        ensures
            s@ == join(display_lines(*self), "\n"@),
    {
        let mut parts: Vec<String> = Vec::new();
        if self.has_error() {
            parts.push("ERROR:".to_string());
        }
        let ghost head = views(parts@);
        let mut i: usize = 0;
        while i < self.content.len()
            invariant
                i <= self.content@.len(),
                head == (if self.is_error == Some(true) {
                    seq!["ERROR:"@]
                } else {
                    Seq::<Seq<char>>::empty()
                }),
                views(parts@) == head + Seq::new(
                    i as nat,
                    |j: int| block_line(self.content@[j], j as nat),
                ),
            decreases self.content@.len() - i,
        {
            let line = block_display(&self.content[i], i);
            let ghost before = parts@;
            parts.push(line);
            proof {
                assert(parts@ =~= before.push(line));
                assert(views(parts@) =~= views(before).push(line@));
            }
            assert(views(parts@) =~= head + Seq::new(
                (i + 1) as nat,
                |j: int| block_line(self.content@[j], j as nat),
            ));
            i = i + 1;
        }
        if self.structured_content.is_some() {
            parts.push("[Includes structured output]".to_string());
        }
        assert(views(parts@) =~= display_lines(*self));
        join_strings(&parts, "\n")
    }
}

/// The display line of content block `b` at position `i`.
fn block_display(b: &ContentBlock, i: usize) -> (s: String)
    requires
        i < usize::MAX,
    ensures
        s@ == block_line(*b, i as nat),
{
    match b {
        ContentBlock::Text(t) => t.text.clone(),
        ContentBlock::Image(img) => {
            let mut s = "[Image: ".to_string();
            push_str(&mut s, decimal_string(img.data.as_str().len()).as_str());
            push_str(&mut s, " bytes, type: ");
            push_str(&mut s, img.mime_type.as_str());
            push_str(&mut s, "]");
            s
        },
        ContentBlock::Audio(a) => {
            let mut s = "[Audio: ".to_string();
            push_str(&mut s, decimal_string(a.data.as_str().len()).as_str());
            push_str(&mut s, " bytes, type: ");
            push_str(&mut s, a.mime_type.as_str());
            push_str(&mut s, "]");
            s
        },
        ContentBlock::ResourceLink(link) => {
            let mut s = "[Resource: ".to_string();
            push_str(&mut s, link.name.as_str());
            match &link.mime_type {
                Some(m) => {
                    push_str(&mut s, " [");
                    push_str(&mut s, m.as_str());
                    push_str(&mut s, "]");
                },
                None => {},
            }
            match &link.description {
                Some(d) => {
                    if !d.as_str().is_empty() {
                        push_str(&mut s, ": ");
                    }
                    push_str(&mut s, d.as_str());
                },
                None => {},
            }
            push_str(&mut s, "]");
            s
        },
        ContentBlock::Resource(_) => {
            let mut s = "[Embedded Resource #".to_string();
            push_str(&mut s, decimal_string(i + 1).as_str());
            push_str(&mut s, "]");
            s
        },
    }
}

/// Marking a property required a second time changes nothing: where `once`
/// is the list that marking `name` required gave, marking it again gives
/// `once` back.
pub proof fn lemma_require_property_idempotent(required: Option<Vec<String>>, name: String, once: Vec<String>)
    requires
        once@ == require_name(required, name),
    ensures
        require_name(Some(once), name) == once@,
{
    let v = match required {
        Some(v) => v@,
        None => Seq::<String>::empty(),
    };
    if !views(v).contains(name@) {
        assert(views(once@)[v.len() as int] == name@);
    }
}

/// Marking a property required keeps the required names free of
/// duplicates, and the name is required afterwards.
pub proof fn lemma_require_property_unique(required: Option<Vec<String>>, name: String)
    requires
        required_names(required).no_duplicates(),
    ensures
        views(require_name(required, name)).no_duplicates(),
        views(require_name(required, name)).contains(name@),
{
    let v = match required {
        Some(v) => v@,
        None => Seq::<String>::empty(),
    };
    assert(views(v) == required_names(required));
    if views(v).contains(name@) {
    } else {
        let w = v.push(name);
        assert(views(w) =~= views(v).push(name@));
        assert(views(w)[v.len() as int] == name@);
        assert forall|i: int, j: int| 0 <= i < j < views(w).len() implies views(w)[i] != views(w)[j] by {
            if j == v.len() {
                assert(views(v)[i] == views(w)[i]);
            }
        }
    }
}

/// Describing a property twice keeps the later description: adding `name`
/// with `a` and then with `b` gives the properties that adding it with `b`
/// alone gives.
pub proof fn lemma_add_property_last_wins(properties: Option<JsonMap>, name: Seq<char>, a: JsonValue, b: JsonValue)
    ensures
        property_map(properties).insert(name, a).insert(name, b) == property_map(properties).insert(name, b),
{
    assert(property_map(properties).insert(name, a).insert(name, b) =~= property_map(properties).insert(name, b));
}

/// The texts of content made only of text blocks, in order.
proof fn lemma_text_blocks_all_text(content: Seq<ContentBlock>)
    requires
        forall|i: int| 0 <= i < content.len() ==> (#[trigger] content[i]) is Text,
    ensures
        text_blocks(content) == Seq::new(content.len(), |i: int| content[i]->Text_0.text@),
    decreases content.len(),
{
    if content.len() > 0 {
        let d = content.drop_last();
        assert forall|i: int| 0 <= i < d.len() implies (#[trigger] d[i]) is Text by {
            assert(d[i] == content[i]);
        }
        lemma_text_blocks_all_text(d);
        assert(text_blocks(content) =~= Seq::new(content.len(), |i: int| content[i]->Text_0.text@));
    }
}

/// A result that holds only text, reports no error and carries no
/// structured output displays as its text: `to_display_string` gives what
/// `all_text` gives.
pub proof fn lemma_plain_text_display(r: CallToolResult)
    requires
        r.is_error != Some(true),
        r.structured_content is None,
        forall|i: int| 0 <= i < r.content@.len() ==> (#[trigger] r.content@[i]) is Text,
    ensures
        join(display_lines(r), "\n"@) == join(text_blocks(r.content@), "\n"@),
{
    lemma_text_blocks_all_text(r.content@);
    assert(display_lines(r) =~= text_blocks(r.content@));
}

/// The first text block comes first among the texts of content that starts
/// with a text block.
proof fn lemma_text_blocks_first(content: Seq<ContentBlock>)
    requires
        content.len() > 0,
        content[0] is Text,
    ensures
        text_blocks(content).len() > 0,
        text_blocks(content)[0] == content[0]->Text_0.text@,
    decreases content.len(),
{
    if content.len() > 1 {
        let d = content.drop_last();
        assert(d[0] == content[0]);
        lemma_text_blocks_first(d);
    } else {
        assert(text_blocks(content.drop_last()) =~= Seq::<Seq<char>>::empty());
    }
}

/// A join starts with its first piece.
proof fn lemma_join_starts_with_first(parts: Seq<Seq<char>>, sep: Seq<char>)
    requires
        parts.len() > 0,
    ensures
        join(parts, sep).len() >= parts[0].len(),
        join(parts, sep).take(parts[0].len() as int) == parts[0],
    decreases parts.len(),
{
    if parts.len() > 1 {
        let d = parts.drop_last();
        assert(d[0] == parts[0]);
        lemma_join_starts_with_first(d, sep);
        let j = join(d, sep);
        assert((j + sep + parts.last()).take(parts[0].len() as int) =~= j.take(parts[0].len() as int));
    } else {
        assert(join(parts, sep).take(parts[0].len() as int) =~= parts[0]);
    }
}

/// The text that `first_text` gives begins the text that `all_text` gives.
pub proof fn lemma_first_text_begins_all_text(r: CallToolResult)
    requires
        r.content@.len() > 0,
        r.content@[0] is Text,
    ensures
        join(text_blocks(r.content@), "\n"@).len() >= r.content@[0]->Text_0.text@.len(),
        join(text_blocks(r.content@), "\n"@).take(r.content@[0]->Text_0.text@.len() as int)
            == r.content@[0]->Text_0.text@,
{
    lemma_text_blocks_first(r.content@);
    lemma_join_starts_with_first(text_blocks(r.content@), "\n"@);
}

/// A join ends with its last piece.
proof fn lemma_join_ends_with_last(parts: Seq<Seq<char>>, sep: Seq<char>)
    requires
        parts.len() > 0,
    ensures
        join(parts, sep).len() >= parts.last().len(),
        join(parts, sep).skip(join(parts, sep).len() - parts.last().len()) == parts.last(),
{
    let j = join(parts, sep);
    if parts.len() > 1 {
        let d = join(parts.drop_last(), sep);
        assert(j == d + sep + parts.last());
        assert((d + sep + parts.last()).skip(j.len() - parts.last().len()) =~= parts.last());
    } else {
        assert(j.skip(0) =~= j);
    }
}

/// The display string of a result that reports an error starts with
/// `ERROR:`, and that of a result with structured output ends with
/// `[Includes structured output]`.
pub proof fn lemma_display_marks(r: CallToolResult)
    ensures
        r.is_error == Some(true) ==> join(display_lines(r), "\n"@).take("ERROR:"@.len() as int) == "ERROR:"@,
        r.structured_content is Some ==> ({
            let d = join(display_lines(r), "\n"@);
            d.skip(d.len() - "[Includes structured output]"@.len()) == "[Includes structured output]"@
        }),
{
    let lines = display_lines(r);
    if r.is_error == Some(true) {
        assert(lines[0] == "ERROR:"@);
        lemma_join_starts_with_first(lines, "\n"@);
    }
    if r.structured_content is Some {
        assert(lines.last() == "[Includes structured output]"@);
        lemma_join_ends_with_last(lines, "\n"@);
    }
}

} // verus!
