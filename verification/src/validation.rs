//! Protocol validation: checks JSON-RPC messages and MCP definitions against
//! the protocol's rules and size limits, and reports errors and warnings.

use vstd::prelude::*;
use crate::json::{
    Breach, JsonLimits, JsonMap, JsonValue, LimitBreach, breach_views, breaches, find_breaches,
};
use crate::jsonrpc::{JsonRpcNotification, JsonRpcRequest, JsonRpcResponse, JsonRpcResponsePayload};
use crate::text::{decimal, decimal_string, push_str, str_eq};
use crate::tools::{Tool, byte_len};
use crate::types::{InitializeRequest, Prompt, Resource};

pub mod utils;

use utils::{is_valid_method_name, is_valid_uri, valid_method_name, valid_uri};

verus! {

/// A finding as a mathematical value: its code, message and field path.
pub ghost struct Finding {
    pub code: Seq<char>,
    pub message: Seq<char>,
    pub field_path: Option<Seq<char>>,
}

/// A rule that a validated object breaks.
#[derive(Debug, Clone, PartialEq, Eq)]
pub struct ValidationError {
    pub code: String,
    pub message: String,
    pub field_path: Option<String>,
}

/// Something that a validated object should not do but may.
#[derive(Debug, Clone, PartialEq, Eq)]
pub struct ValidationWarning {
    pub code: String,
    pub message: String,
    pub field_path: Option<String>,
}

/// The view of an optional string.
pub open spec fn opt_view(s: Option<String>) -> Option<Seq<char>> {
    match s {
        Some(s) => Some(s@),
        None => None,
    }
}

impl View for ValidationError {
    type V = Finding;

    open spec fn view(&self) -> Finding {
        Finding { code: self.code@, message: self.message@, field_path: opt_view(self.field_path) }
    }
}

impl View for ValidationWarning {
    type V = Finding;

    open spec fn view(&self) -> Finding {
        Finding { code: self.code@, message: self.message@, field_path: opt_view(self.field_path) }
    }
}

/// The outcome of a validation.
#[derive(Debug, Clone, PartialEq, Eq)]
pub enum ValidationResult {
    /// Nothing was found.
    Valid,
    /// No rule was broken, but there are warnings.
    ValidWithWarnings(Vec<ValidationWarning>),
    /// Rules were broken; the warnings are not kept.
    Invalid(Vec<ValidationError>),
}

/// The outcome of a validation as a mathematical value.
pub ghost enum Outcome {
    Valid,
    ValidWithWarnings(Seq<Finding>),
    Invalid(Seq<Finding>),
}

/// The views of a sequence of errors.
pub open spec fn error_views(s: Seq<ValidationError>) -> Seq<Finding> {
    s.map_values(|e: ValidationError| e@)
}

/// The views of a sequence of warnings.
pub open spec fn warning_views(s: Seq<ValidationWarning>) -> Seq<Finding> {
    s.map_values(|w: ValidationWarning| w@)
}

impl View for ValidationResult {
    type V = Outcome;

    open spec fn view(&self) -> Outcome {
        match self {
            ValidationResult::Valid => Outcome::Valid,
            ValidationResult::ValidWithWarnings(w) => Outcome::ValidWithWarnings(warning_views(w@)),
            ValidationResult::Invalid(e) => Outcome::Invalid(error_views(e@)),
        }
    }
}

/// The outcome of a validation that found `errors` and `warnings`: invalid if
/// there are errors, else valid with the warnings if there are any, else valid.
pub open spec fn outcome(errors: Seq<Finding>, warnings: Seq<Finding>) -> Outcome {
    if errors.len() > 0 {
        Outcome::Invalid(errors)
    } else if warnings.len() > 0 {
        Outcome::ValidWithWarnings(warnings)
    } else {
        Outcome::Valid
    }
}

impl ValidationResult {
    /// Whether no rule was broken.
    pub fn is_valid(&self) -> (b: bool)
        ensures
            b == !(self@ is Invalid),
    {
        !matches!(self, ValidationResult::Invalid(_))
    }

    /// Whether a rule was broken.
    pub fn is_invalid(&self) -> (b: bool)
        ensures
            b == (self@ is Invalid),
    {
        matches!(self, ValidationResult::Invalid(_))
    }

    /// Whether the result is valid with warnings.
    pub fn has_warnings(&self) -> (b: bool)
        ensures
            b == (self@ is ValidWithWarnings),
    {
        matches!(self, ValidationResult::ValidWithWarnings(_))
    }

    /// The warnings (none unless the result is valid with warnings).
    pub fn warnings(&self) -> (w: &[ValidationWarning])
        ensures
            warning_views(w@) == match self@ {
                Outcome::ValidWithWarnings(w) => w,
                _ => Seq::empty(),
            },
    {
        match self {
            ValidationResult::ValidWithWarnings(w) => w.as_slice(),
            _ => {
                let empty: &[ValidationWarning] = &[];
                assert(warning_views(empty@) =~= Seq::<Finding>::empty());
                empty
            },
        }
    }

    /// The errors (none unless the result is invalid).
    pub fn errors(&self) -> (e: &[ValidationError])
        ensures
            error_views(e@) == match self@ {
                Outcome::Invalid(e) => e,
                _ => Seq::empty(),
            },
    {
        match self {
            ValidationResult::Invalid(e) => e.as_slice(),
            _ => {
                let empty: &[ValidationError] = &[];
                assert(error_views(empty@) =~= Seq::<Finding>::empty());
                empty
            },
        }
    }
}

/// Builds the result of a validation from what it found.
fn conclude(errors: Vec<ValidationError>, warnings: Vec<ValidationWarning>) -> (r: ValidationResult)
    ensures
        r@ == outcome(error_views(errors@), warning_views(warnings@)),
{
    if errors.len() > 0 {
        ValidationResult::Invalid(errors)
    } else if warnings.len() > 0 {
        ValidationResult::ValidWithWarnings(warnings)
    } else {
        ValidationResult::Valid
    }
}

/// A finding with a code, a message and a field path.
pub open spec fn finding(code: Seq<char>, message: Seq<char>, path: Seq<char>) -> Finding {
    Finding { code, message, field_path: Some(path) }
}

fn new_error(code: &str, message: String, path: &str) -> (e: ValidationError)
    ensures
        e@ == finding(code@, message@, path@),
{
    ValidationError { code: code.to_string(), message, field_path: Some(path.to_string()) }
}

fn new_warning(code: &str, message: String, path: &str) -> (w: ValidationWarning)
    ensures
        w@ == finding(code@, message@, path@),
{
    ValidationWarning { code: code.to_string(), message, field_path: Some(path.to_string()) }
}

fn concat(a: &str, b: &str) -> (s: String)
    ensures
        s@ == a@ + b@,
{
    let mut s = a.to_string();
    push_str(&mut s, b);
    s
}

/// Limits that validation holds messages and definitions to.
#[derive(Debug, Clone, Copy, PartialEq, Eq)]
pub struct ValidationRules {
    /// The largest message allowed, in bytes.
    pub max_message_size: usize,
    /// The most messages allowed in one batch.
    pub max_batch_size: usize,
    /// The longest string allowed, in bytes.
    pub max_string_length: usize,
    /// The longest array allowed.
    pub max_array_length: usize,
    /// The deepest nesting allowed in a JSON payload.
    pub max_object_depth: usize,
}

impl Default for ValidationRules {
    /// 10 MiB messages, batches of 100, 1 MiB strings, arrays of 10000 and
    /// nesting depth 32.
    fn default() -> (r: Self)
        ensures
            r == default_rules(),
    {
        ValidationRules {
            max_message_size: 10 * 1024 * 1024,
            max_batch_size: 100,
            max_string_length: 1024 * 1024,
            max_array_length: 10000,
            max_object_depth: 32,
        }
    }
}

/// The default rules.
pub open spec fn default_rules() -> ValidationRules {
    ValidationRules {
        max_message_size: 10485760,
        max_batch_size: 100,
        max_string_length: 1048576,
        max_array_length: 10000,
        max_object_depth: 32,
    }
}

impl ValidationRules {
    /// The limits that JSON payloads are held to.
    pub open spec fn limits(self) -> JsonLimits {
        JsonLimits {
            max_string_length: self.max_string_length,
            max_array_length: self.max_array_length,
            max_object_depth: self.max_object_depth,
        }
    }
}

/// The protocol versions this validator knows.
pub open spec fn supported_version(v: Seq<char>) -> bool {
    v == "2025-06-18"@ || v == "2025-03-26"@ || v == "2024-11-05"@
}

/// What is wrong with a method name.
pub open spec fn method_findings(method: Seq<char>) -> Seq<Finding> {
    if method.len() == 0 {
        seq![finding("EMPTY_METHOD_NAME"@, "Method name cannot be empty"@, "method"@)]
    } else if !valid_method_name(method) {
        seq![finding("INVALID_METHOD_NAME"@, "Invalid method name format: "@ + method, "method"@)]
    } else {
        Seq::empty()
    }
}

/// The finding that reports a breach of the size limits.
pub open spec fn breach_finding(b: Breach, rules: ValidationRules) -> Finding {
    match b {
        Breach::TooDeep(p) => finding(
            "MAX_DEPTH_EXCEEDED"@,
            "Maximum object depth exceeded: "@ + decimal(rules.max_object_depth as nat),
            p,
        ),
        Breach::StringTooLong(p, n) => finding(
            "STRING_TOO_LONG"@,
            "String length "@ + decimal(n) + " exceeds maximum "@ + decimal(
                rules.max_string_length as nat,
            ),
            p,
        ),
        Breach::ArrayTooLong(p, n) => finding(
            "ARRAY_TOO_LONG"@,
            "Array length "@ + decimal(n) + " exceeds maximum "@ + decimal(
                rules.max_array_length as nat,
            ),
            p,
        ),
    }
}

/// What breaks the size limits in a payload at `path`.
pub open spec fn payload_findings(
    payload: Option<JsonValue>,
    rules: ValidationRules,
    path: Seq<char>,
) -> Seq<Finding> {
    match payload {
        Some(v) => breaches(v, rules.limits(), 0, path).map_values(
            |b: Breach| breach_finding(b, rules),
        ),
        None => Seq::empty(),
    }
}

/// The keys of a `tools/list` request's parameters that it does not take.
pub open spec fn unexpected_keys(keys: Seq<Seq<char>>) -> Seq<Seq<char>>
    decreases keys.len(),
{
    if keys.len() == 0 {
        Seq::empty()
    } else {
        let rest = unexpected_keys(keys.drop_last());
        let k = keys.last();
        if k == "cursor"@ || k == "_meta"@ {
            rest
        } else {
            rest.push(k)
        }
    }
}

/// The warning about parameter `k`, which a `tools/list` request does not take.
pub open spec fn unexpected_param_finding(k: Seq<char>) -> Finding {
    finding("UNEXPECTED_PARAMS"@, "Unexpected parameter for tools/list: "@ + k, "params."@ + k)
}

/// The warnings about the parameters of a request for `method`: a `tools/list`
/// request takes only a cursor (and metadata).
pub open spec fn params_warnings(method: Seq<char>, params: Option<JsonValue>) -> Seq<Finding> {
    match params {
        Some(JsonValue::Object(m)) => if method == "tools/list"@ {
            unexpected_keys(m.keys()).map_values(|k: Seq<char>| unexpected_param_finding(k))
        } else {
            Seq::empty()
        },
        _ => Seq::empty(),
    }
}

/// The outcome of validating a request.
pub open spec fn request_outcome(rules: ValidationRules, r: JsonRpcRequest) -> Outcome {
    outcome(
        method_findings(r.method@) + payload_findings(r.params, rules, "params"@),
        params_warnings(r.method@, r.params),
    )
}

/// The outcome of validating a notification.
pub open spec fn notification_outcome(rules: ValidationRules, n: JsonRpcNotification) -> Outcome {
    outcome(
        method_findings(n.method@) + payload_findings(n.params, rules, "params"@),
        Seq::empty(),
    )
}

/// The outcome of validating a response: an error must carry a message and
/// should carry a negative code; a result is held to the size limits.
pub open spec fn response_outcome(rules: ValidationRules, r: JsonRpcResponse) -> Outcome {
    match r.payload {
        JsonRpcResponsePayload::Success { result } => outcome(
            payload_findings(Some(result), rules, "result"@),
            Seq::empty(),
        ),
        JsonRpcResponsePayload::Error { error } => outcome(
            if error.message@.len() == 0 {
                seq![
                    finding(
                        "EMPTY_ERROR_MESSAGE"@,
                        "Error message cannot be empty"@,
                        "error.message"@,
                    ),
                ]
            } else {
                Seq::empty()
            },
            if error.code >= 0 {
                seq![
                    finding(
                        "POSITIVE_ERROR_CODE"@,
                        "Error codes should be negative"@,
                        "error.code"@,
                    ),
                ]
            } else {
                Seq::empty()
            },
        ),
    }
}

/// The outcome of validating a tool definition.
pub open spec fn tool_outcome(rules: ValidationRules, t: Tool) -> Outcome {
    outcome(
        if t.name@.len() == 0 {
            seq![finding("TOOL_EMPTY_NAME"@, "Tool name cannot be empty"@, "name"@)]
        } else if byte_len(t.name@) > rules.max_string_length {
            seq![
                finding(
                    "TOOL_NAME_TOO_LONG"@,
                    "Tool name exceeds maximum length of "@ + decimal(
                        rules.max_string_length as nat,
                    ),
                    "name"@,
                ),
            ]
        } else {
            Seq::empty()
        },
        if t.input_schema.schema_type@ != "object"@ {
            seq![
                finding(
                    "NON_OBJECT_SCHEMA"@,
                    "Tool input schema should have type object"@,
                    "inputSchema.type"@,
                ),
            ]
        } else {
            Seq::empty()
        },
    )
}

/// The number of arguments a prompt declares.
pub open spec fn argument_count(p: Prompt) -> nat {
    match p.arguments {
        Some(a) => a@.len(),
        None => 0,
    }
}

/// The outcome of validating a prompt definition.
pub open spec fn prompt_outcome(rules: ValidationRules, p: Prompt) -> Outcome {
    outcome(
        (if p.name@.len() == 0 {
            seq![finding("PROMPT_EMPTY_NAME"@, "Prompt name cannot be empty"@, "name"@)]
        } else {
            Seq::empty()
        }) + (if argument_count(p) > rules.max_array_length {
            seq![
                finding(
                    "PROMPT_TOO_MANY_ARGS"@,
                    "Prompt has too many arguments"@,
                    "arguments"@,
                ),
            ]
        } else {
            Seq::empty()
        }),
        Seq::empty(),
    )
}

/// The outcome of validating a resource definition.
pub open spec fn resource_outcome(r: Resource) -> Outcome {
    outcome(
        (if !valid_uri(r.uri@) {
            seq![finding("RESOURCE_INVALID_URI"@, "Invalid resource URI: "@ + r.uri@, "uri"@)]
        } else {
            Seq::empty()
        }) + (if r.name@.len() == 0 {
            seq![finding("RESOURCE_EMPTY_NAME"@, "Resource name cannot be empty"@, "name"@)]
        } else {
            Seq::empty()
        }),
        Seq::empty(),
    )
}

/// The outcome of validating an initialize request.
pub open spec fn initialize_outcome(r: InitializeRequest) -> Outcome {
    outcome(
        (if r.client_info.name@.len() == 0 {
            seq![finding("EMPTY_CLIENT_NAME"@, "Client name cannot be empty"@, "clientInfo.name"@)]
        } else {
            Seq::empty()
        }) + (if r.client_info.version@.len() == 0 {
            seq![
                finding(
                    "EMPTY_CLIENT_VERSION"@,
                    "Client version cannot be empty"@,
                    "clientInfo.version"@,
                ),
            ]
        } else {
            Seq::empty()
        }),
        if !supported_version(r.protocol_version@) {
            seq![
                finding(
                    "UNSUPPORTED_PROTOCOL_VERSION"@,
                    "Unsupported protocol version: "@ + r.protocol_version@,
                    "protocolVersion"@,
                ),
            ]
        } else {
            Seq::empty()
        },
    )
}

/// Checks messages and definitions against the protocol and its size limits.
#[derive(Debug, Clone, Copy, PartialEq, Eq)]
pub struct ProtocolValidator {
    pub rules: ValidationRules,
    pub strict_mode: bool,
}

impl Default for ProtocolValidator {
    fn default() -> (v: Self)
        ensures
            v.rules == default_rules(),
            !v.strict_mode,
    {
        ProtocolValidator { rules: ValidationRules::default(), strict_mode: false }
    }
}

impl ProtocolValidator {
    /// A validator with the default rules, not in strict mode.
    pub fn new() -> (v: Self)
        ensures
            v.rules == default_rules(),
            !v.strict_mode,
    {
        Self::default()
    }

    /// This validator in strict mode.
    pub fn with_strict_mode(self) -> (v: Self)
        ensures
            v.rules == self.rules,
            v.strict_mode,
    {
        ProtocolValidator { strict_mode: true, ..self }
    }

    /// This validator with other rules.
    pub fn with_rules(self, rules: ValidationRules) -> (v: Self)
        ensures
            v.rules == rules,
            v.strict_mode == self.strict_mode,
    {
        ProtocolValidator { rules, ..self }
    }

    fn check_method(method: &str, errors: &mut Vec<ValidationError>)
        ensures
            error_views(final(errors)@) == error_views(old(errors)@) + method_findings(method@),
    {
        let ghost start = error_views(errors@);
        if method.is_empty() {
            errors.push(
                new_error("EMPTY_METHOD_NAME", "Method name cannot be empty".to_string(), "method"),
            );
        } else if !is_valid_method_name(method) {
            errors.push(
                new_error(
                    "INVALID_METHOD_NAME",
                    concat("Invalid method name format: ", method),
                    "method",
                ),
            );
        }
        assert(error_views(errors@) =~= start + method_findings(method@));
    }

    fn breach_error(&self, b: &LimitBreach) -> (e: ValidationError)
        ensures
            e@ == breach_finding(b@, self.rules),
    {
        match b {
            LimitBreach::TooDeep { path } => new_error(
                "MAX_DEPTH_EXCEEDED",
                concat(
                    "Maximum object depth exceeded: ",
                    decimal_string(self.rules.max_object_depth).as_str(),
                ),
                path.as_str(),
            ),
            LimitBreach::StringTooLong { path, length } => {
                let mut m = concat("String length ", decimal_string(*length).as_str());
                push_str(&mut m, " exceeds maximum ");
                push_str(&mut m, decimal_string(self.rules.max_string_length).as_str());
                new_error("STRING_TOO_LONG", m, path.as_str())
            },
            LimitBreach::ArrayTooLong { path, length } => {
                let mut m = concat("Array length ", decimal_string(*length).as_str());
                push_str(&mut m, " exceeds maximum ");
                push_str(&mut m, decimal_string(self.rules.max_array_length).as_str());
                new_error("ARRAY_TOO_LONG", m, path.as_str())
            },
        }
    }

    fn check_payload(&self, payload: Option<&JsonValue>, path: &str, errors: &mut Vec<ValidationError>)
        ensures
            error_views(final(errors)@) == error_views(old(errors)@) + payload_findings(
                match payload {
                    Some(v) => Some(*v),
                    None => None,
                },
                self.rules,
                path@,
            ),
    {
        let ghost start = error_views(errors@);
        match payload {
            Some(v) => {
                let lim = JsonLimits {
                    max_string_length: self.rules.max_string_length,
                    max_array_length: self.rules.max_array_length,
                    max_object_depth: self.rules.max_object_depth,
                };
                let mut found: Vec<LimitBreach> = Vec::new();
                find_breaches(v, &lim, 0, path, &mut found);
                assert(breach_views(found@) =~= breaches(*v, self.rules.limits(), 0, path@));
                let ghost all = breaches(*v, self.rules.limits(), 0, path@).map_values(
                    |b: Breach| breach_finding(b, self.rules),
                );
                let mut i: usize = 0;
                while i < found.len()
                    invariant
                        i <= found@.len(),
                        breach_views(found@) == breaches(*v, self.rules.limits(), 0, path@),
                        all == breach_views(found@).map_values(
                            |b: Breach| breach_finding(b, self.rules),
                        ),
                        error_views(errors@) == start + all.take(i as int),
                    decreases found@.len() - i,
                {
                    let e = self.breach_error(&found[i]);
                    let ghost prev = errors@;
                    errors.push(e);
                    proof {
                        assert(errors@ =~= prev.push(e));
                        assert(error_views(errors@) =~= error_views(prev).push(e@));
                        assert(all[i as int] == breach_finding(found@[i as int]@, self.rules));
                        assert(all.take(i + 1) =~= all.take(i as int).push(all[i as int]));
                        assert(error_views(errors@) =~= start + all.take(i + 1));
                    }
                    i = i + 1;
                }
                assert(all.take(found@.len() as int) =~= all);
            },
            None => {
                assert(error_views(errors@) =~= start);
            },
        }
    }

    /// Checks a request: its method name, the size of its parameters, and the
    /// parameters a `tools/list` request does not take.
    pub fn validate_request(&self, request: &JsonRpcRequest) -> (r: ValidationResult)
        ensures
            r@ == request_outcome(self.rules, *request),
    {
        let mut errors: Vec<ValidationError> = Vec::new();
        let mut warnings: Vec<ValidationWarning> = Vec::new();
        Self::check_method(request.method.as_str(), &mut errors);
        self.check_payload(request.params.as_ref(), "params", &mut errors);
        match &request.params {
            Some(JsonValue::Object(m)) => {
                if str_eq(request.method.as_str(), "tools/list") {
                    check_list_params(m, &mut warnings);
                }
            },
            _ => {},
        }
        assert(warning_views(warnings@) =~= params_warnings(request.method@, request.params));
        conclude(errors, warnings)
    }

    /// Checks a notification: its method name and the size of its parameters.
    pub fn validate_notification(&self, notification: &JsonRpcNotification) -> (r:
        ValidationResult)
        ensures
            r@ == notification_outcome(self.rules, *notification),
    {
        let mut errors: Vec<ValidationError> = Vec::new();
        let warnings: Vec<ValidationWarning> = Vec::new();
        Self::check_method(notification.method.as_str(), &mut errors);
        self.check_payload(notification.params.as_ref(), "params", &mut errors);
        assert(warning_views(warnings@) =~= Seq::<Finding>::empty());
        conclude(errors, warnings)
    }

    /// Checks a response: an error needs a message and should have a negative
    /// code; a result is held to the size limits.
    pub fn validate_response(&self, response: &JsonRpcResponse) -> (r: ValidationResult)
        ensures
            r@ == response_outcome(self.rules, *response),
    {
        let mut errors: Vec<ValidationError> = Vec::new();
        let mut warnings: Vec<ValidationWarning> = Vec::new();
        match &response.payload {
            JsonRpcResponsePayload::Success { result } => {
                self.check_payload(Some(result), "result", &mut errors);
            },
            JsonRpcResponsePayload::Error { error } => {
                if error.message.as_str().is_empty() {
                    errors.push(
                        new_error(
                            "EMPTY_ERROR_MESSAGE",
                            "Error message cannot be empty".to_string(),
                            "error.message",
                        ),
                    );
                }
                if error.code >= 0 {
                    warnings.push(
                        new_warning(
                            "POSITIVE_ERROR_CODE",
                            "Error codes should be negative".to_string(),
                            "error.code",
                        ),
                    );
                }
            },
        }
        proof {
            assert(error_views(errors@) =~= match response.payload {
                JsonRpcResponsePayload::Success { result } => payload_findings(
                    Some(result),
                    self.rules,
                    "result"@,
                ),
                JsonRpcResponsePayload::Error { error } => if error.message@.len() == 0 {
                    seq![
                        finding(
                            "EMPTY_ERROR_MESSAGE"@,
                            "Error message cannot be empty"@,
                            "error.message"@,
                        ),
                    ]
                } else {
                    Seq::empty()
                },
            });
            assert(warning_views(warnings@) =~= match response.payload {
                JsonRpcResponsePayload::Success { .. } => Seq::empty(),
                JsonRpcResponsePayload::Error { error } => if error.code >= 0 {
                    seq![
                        finding(
                            "POSITIVE_ERROR_CODE"@,
                            "Error codes should be negative"@,
                            "error.code"@,
                        ),
                    ]
                } else {
                    Seq::empty()
                },
            });
        }
        conclude(errors, warnings)
    }

    /// Checks a tool definition: its name must not be empty nor too long, and
    /// its input schema should be an object schema.
    pub fn validate_tool(&self, tool: &Tool) -> (r: ValidationResult)
        ensures
            r@ == tool_outcome(self.rules, *tool),
    {
        let mut errors: Vec<ValidationError> = Vec::new();
        let mut warnings: Vec<ValidationWarning> = Vec::new();
        if tool.name.as_str().is_empty() {
            errors.push(new_error("TOOL_EMPTY_NAME", "Tool name cannot be empty".to_string(), "name"));
        } else if tool.name.as_str().len() > self.rules.max_string_length {
            errors.push(
                new_error(
                    "TOOL_NAME_TOO_LONG",
                    concat(
                        "Tool name exceeds maximum length of ",
                        decimal_string(self.rules.max_string_length).as_str(),
                    ),
                    "name",
                ),
            );
        }
        if !str_eq(tool.input_schema.schema_type.as_str(), "object") {
            warnings.push(
                new_warning(
                    "NON_OBJECT_SCHEMA",
                    "Tool input schema should have type object".to_string(),
                    "inputSchema.type",
                ),
            );
        }
        proof {
            let o = tool_outcome(self.rules, *tool);
            assert(error_views(errors@) =~= if tool.name@.len() == 0 {
                seq![finding("TOOL_EMPTY_NAME"@, "Tool name cannot be empty"@, "name"@)]
            } else if byte_len(tool.name@) > self.rules.max_string_length {
                seq![
                    finding(
                        "TOOL_NAME_TOO_LONG"@,
                        "Tool name exceeds maximum length of "@ + decimal(
                            self.rules.max_string_length as nat,
                        ),
                        "name"@,
                    ),
                ]
            } else {
                Seq::empty()
            });
            assert(warning_views(warnings@) =~= if tool.input_schema.schema_type@ != "object"@ {
                seq![
                    finding(
                        "NON_OBJECT_SCHEMA"@,
                        "Tool input schema should have type object"@,
                        "inputSchema.type"@,
                    ),
                ]
            } else {
                Seq::empty()
            });
        }
        conclude(errors, warnings)
    }

    /// Checks a prompt definition: its name must not be empty and it must not
    /// declare more arguments than an array may hold.
    pub fn validate_prompt(&self, prompt: &Prompt) -> (r: ValidationResult)
        ensures
            r@ == prompt_outcome(self.rules, *prompt),
    {
        let mut errors: Vec<ValidationError> = Vec::new();
        let warnings: Vec<ValidationWarning> = Vec::new();
        if prompt.name.as_str().is_empty() {
            errors.push(
                new_error("PROMPT_EMPTY_NAME", "Prompt name cannot be empty".to_string(), "name"),
            );
        }
        let ghost after_name = error_views(errors@);
        match &prompt.arguments {
            Some(args) => {
                if args.len() > self.rules.max_array_length {
                    errors.push(
                        new_error(
                            "PROMPT_TOO_MANY_ARGS",
                            "Prompt has too many arguments".to_string(),
                            "arguments",
                        ),
                    );
                }
            },
            None => {},
        }
        assert(error_views(errors@) =~= (if prompt.name@.len() == 0 {
            seq![finding("PROMPT_EMPTY_NAME"@, "Prompt name cannot be empty"@, "name"@)]
        } else {
            Seq::empty()
        }) + (if argument_count(*prompt) > self.rules.max_array_length {
            seq![finding("PROMPT_TOO_MANY_ARGS"@, "Prompt has too many arguments"@, "arguments"@)]
        } else {
            Seq::empty()
        }));
        assert(warning_views(warnings@) =~= Seq::<Finding>::empty());
        conclude(errors, warnings)
    }

    /// Checks a resource definition: its URI must start with a scheme and its
    /// name must not be empty.
    pub fn validate_resource(&self, resource: &Resource) -> (r: ValidationResult)
        ensures
            r@ == resource_outcome(*resource),
    {
        let mut errors: Vec<ValidationError> = Vec::new();
        let warnings: Vec<ValidationWarning> = Vec::new();
        if !is_valid_uri(resource.uri.as_str()) {
            errors.push(
                new_error(
                    "RESOURCE_INVALID_URI",
                    concat("Invalid resource URI: ", resource.uri.as_str()),
                    "uri",
                ),
            );
        }
        if resource.name.as_str().is_empty() {
            errors.push(
                new_error(
                    "RESOURCE_EMPTY_NAME",
                    "Resource name cannot be empty".to_string(),
                    "name",
                ),
            );
        }
        assert(error_views(errors@) =~= (if !valid_uri(resource.uri@) {
            seq![finding("RESOURCE_INVALID_URI"@, "Invalid resource URI: "@ + resource.uri@, "uri"@)]
        } else {
            Seq::empty()
        }) + (if resource.name@.len() == 0 {
            seq![finding("RESOURCE_EMPTY_NAME"@, "Resource name cannot be empty"@, "name"@)]
        } else {
            Seq::empty()
        }));
        assert(warning_views(warnings@) =~= Seq::<Finding>::empty());
        conclude(errors, warnings)
    }

    /// Checks an initialize request: the client must give a name and a
    /// version, and should speak a protocol version this validator knows.
    pub fn validate_initialize_request(&self, request: &InitializeRequest) -> (r: ValidationResult)
        ensures
            r@ == initialize_outcome(*request),
    {
        let mut errors: Vec<ValidationError> = Vec::new();
        let mut warnings: Vec<ValidationWarning> = Vec::new();
        let v = request.protocol_version.as_str();
        if !(str_eq(v, "2025-06-18") || str_eq(v, "2025-03-26") || str_eq(v, "2024-11-05")) {
            warnings.push(
                new_warning(
                    "UNSUPPORTED_PROTOCOL_VERSION",
                    concat("Unsupported protocol version: ", v),
                    "protocolVersion",
                ),
            );
        }
        if request.client_info.name.as_str().is_empty() {
            errors.push(
                new_error(
                    "EMPTY_CLIENT_NAME",
                    "Client name cannot be empty".to_string(),
                    "clientInfo.name",
                ),
            );
        }
        if request.client_info.version.as_str().is_empty() {
            errors.push(
                new_error(
                    "EMPTY_CLIENT_VERSION",
                    "Client version cannot be empty".to_string(),
                    "clientInfo.version",
                ),
            );
        }
        assert(error_views(errors@) =~= (if request.client_info.name@.len() == 0 {
            seq![finding("EMPTY_CLIENT_NAME"@, "Client name cannot be empty"@, "clientInfo.name"@)]
        } else {
            Seq::empty()
        }) + (if request.client_info.version@.len() == 0 {
            seq![
                finding(
                    "EMPTY_CLIENT_VERSION"@,
                    "Client version cannot be empty"@,
                    "clientInfo.version"@,
                ),
            ]
        } else {
            Seq::empty()
        }));
        assert(warning_views(warnings@) =~= if !supported_version(request.protocol_version@) {
            seq![
                finding(
                    "UNSUPPORTED_PROTOCOL_VERSION"@,
                    "Unsupported protocol version: "@ + request.protocol_version@,
                    "protocolVersion"@,
                ),
            ]
        } else {
            Seq::empty()
        });
        conclude(errors, warnings)
    }
}

/// Appends a warning for each parameter of a `tools/list` request other than
/// its cursor and metadata.
fn check_list_params(m: &JsonMap, warnings: &mut Vec<ValidationWarning>)
    requires
        old(warnings)@.len() == 0,
    ensures
        warning_views(final(warnings)@) == unexpected_keys(m.keys()).map_values(
            |k: Seq<char>| unexpected_param_finding(k),
        ),
{
    let entries = m.entries();
    let ghost keys = m.keys();
    assert(keys =~= entries@.map_values(|p: (String, JsonValue)| p.0@));
    let mut i: usize = 0;
    assert(unexpected_keys(keys.take(0)) =~= Seq::<Seq<char>>::empty());
    while i < entries.len()
        invariant
            i <= entries@.len(),
            keys.len() == entries@.len(),
            forall|j: int| 0 <= j < keys.len() ==> keys[j] == #[trigger] entries@[j].0@,
            warning_views(warnings@) == unexpected_keys(keys.take(i as int)).map_values(|k: Seq<char>| unexpected_param_finding(k)),
        decreases entries@.len() - i,
    {
        let key = entries[i].0.as_str();
        let ghost before = warning_views(warnings@);
        proof {
            let t = keys.take(i + 1);
            assert(t.drop_last() =~= keys.take(i as int));
            assert(t.last() == key@);
        }
        if !(str_eq(key, "cursor") || str_eq(key, "_meta")) {
            let message = concat("Unexpected parameter for tools/list: ", key);
            let path = concat("params.", key);
            let w = new_warning("UNEXPECTED_PARAMS", message, path.as_str());
            let ghost prev = warnings@;
            warnings.push(w);
            assert(warnings@ =~= prev.push(w));
            assert(warning_views(warnings@) =~= warning_views(prev).push(w@));
            assert(w@ == unexpected_param_finding(key@));
            assert(warning_views(warnings@) =~= before.push(unexpected_param_finding(key@)));
        }
        assert(warning_views(warnings@) =~= unexpected_keys(keys.take(i + 1)).map_values(|k: Seq<char>| unexpected_param_finding(k)));
        i = i + 1;
    }
    assert(keys.take(keys.len() as int) =~= keys);
}

/// A request whose method name is malformed (or empty) is refused,
/// whatever its parameters and the rules.
pub proof fn lemma_malformed_method_refused(rules: ValidationRules, r: JsonRpcRequest)
    requires
        !valid_method_name(r.method@),
    ensures
        request_outcome(rules, r) is Invalid,
{
    assert(method_findings(r.method@).len() > 0);
}

/// A request with a well-formed method name and no parameters passes
/// without a warning.
pub proof fn lemma_plain_request_valid(rules: ValidationRules, r: JsonRpcRequest)
    requires
        valid_method_name(r.method@),
        r.params is None,
    ensures
        request_outcome(rules, r) == Outcome::Valid,
{
    assert(method_findings(r.method@) + payload_findings(r.params, rules, "params"@) =~= Seq::<Finding>::empty());
}

/// A notification is refused exactly when a request with the same method
/// and parameters is, and then for the same reasons.
pub proof fn lemma_notification_agrees_with_request(rules: ValidationRules, r: JsonRpcRequest, n: JsonRpcNotification)
    requires
        r.method@ == n.method@,
        r.params == n.params,
    ensures
        (notification_outcome(rules, n) is Invalid) == (request_outcome(rules, r) is Invalid),
        notification_outcome(rules, n) is Invalid ==> notification_outcome(rules, n) == request_outcome(rules, r),
{
}

/// A key stands among the unexpected parameters of a `tools/list` request
/// exactly when the request carries it and it is neither `cursor` nor `_meta`.
pub proof fn lemma_unexpected_keys_exact(keys: Seq<Seq<char>>, k: Seq<char>)
    ensures
        unexpected_keys(keys).contains(k) <==> (keys.contains(k) && k != "cursor"@ && k != "_meta"@),
    decreases keys.len(),
{
    if keys.len() > 0 {
        let init = keys.drop_last();
        lemma_unexpected_keys_exact(init, k);
        assert(keys =~= init.push(keys.last()));
        if keys.contains(k) && k != keys.last() {
            let i = choose|i: int| 0 <= i < keys.len() && keys[i] == k;
            assert(i < init.len());
            assert(init[i] == k);
        }
        if init.contains(k) {
            let i = choose|i: int| 0 <= i < init.len() && init[i] == k;
            assert(keys[i] == k);
        }
        if keys.last() == k {
            assert(keys[keys.len() - 1] == k);
        }
        let rest = unexpected_keys(init);
        let last = keys.last();
        if !(last == "cursor"@ || last == "_meta"@) {
            let u = rest.push(last);
            assert(u[rest.len() as int] == last);
            if rest.contains(k) {
                let i = choose|i: int| 0 <= i < rest.len() && rest[i] == k;
                assert(u[i] == k);
            }
            if u.contains(k) {
                let i = choose|i: int| 0 <= i < u.len() && u[i] == k;
                if i < rest.len() {
                    assert(rest[i] == k);
                }
            }
        }
    }
}

/// A `tools/list` request whose parameters hold only a cursor (and
/// metadata) draws no warning: its outcome is decided by its errors alone.
pub proof fn lemma_list_cursor_no_warning(rules: ValidationRules, r: JsonRpcRequest)
    requires
        r.method@ == "tools/list"@,
        r.params is Some,
        r.params->0 is Object,
        forall|i: int| 0 <= i < r.params->0->Object_0.keys().len() ==>
            (#[trigger] r.params->0->Object_0.keys()[i] == "cursor"@ || r.params->0->Object_0.keys()[i] == "_meta"@),
    ensures
        params_warnings(r.method@, r.params) == Seq::<Finding>::empty(),
        request_outcome(rules, r) == outcome(
            method_findings(r.method@) + payload_findings(r.params, rules, "params"@),
            Seq::empty(),
        ),
        !(request_outcome(rules, r) is ValidWithWarnings),
{
    let keys = r.params->0->Object_0.keys();
    let u = unexpected_keys(keys);
    if u.len() > 0 {
        lemma_unexpected_keys_exact(keys, u[0]);
        assert(u.contains(u[0]));
    }
    assert(u.len() == 0);
    assert(params_warnings(r.method@, r.params) =~= Seq::<Finding>::empty());
}

/// A `tools/list` request that carries a parameter other than `cursor` and
/// `_meta` is never plainly valid: it is warned about that parameter, unless
/// it is refused outright.
pub proof fn lemma_list_extra_param_warned(rules: ValidationRules, r: JsonRpcRequest, k: Seq<char>)
    requires
        r.method@ == "tools/list"@,
        r.params is Some,
        r.params->0 is Object,
        r.params->0->Object_0.keys().contains(k),
        k != "cursor"@,
        k != "_meta"@,
    ensures
        params_warnings(r.method@, r.params).contains(unexpected_param_finding(k)),
        !(request_outcome(rules, r) is Valid),
{
    let keys = r.params->0->Object_0.keys();
    lemma_unexpected_keys_exact(keys, k);
    let u = unexpected_keys(keys);
    let i = choose|i: int| 0 <= i < u.len() && u[i] == k;
    let w = params_warnings(r.method@, r.params);
    assert(w[i] == unexpected_param_finding(k));
    assert(w.len() > 0);
}

} // verus!
