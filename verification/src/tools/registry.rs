//! The tools of a session: who handles them, what they are called with, and what
//! is told of their use.
use crate::ids::ThreadId;
use crate::json::{
    begins_raw, field_named, fields_of, fields_without, json_text, map_fields, parsed_json, print_map,
    read_json, reads_back, remove_field, FieldModel, JsonField, JsonObject,
};
use crate::protocol::{
    tells_model, AgentNames, FunctionCallError, SessionSource, ShellParams, ToolPayload,
    PRIMARY_AGENT_NAME,
};
use crate::table::Table;
use crate::text::{
    blank, chars_of, clone_texts, decimal, decimal_of_usize, is_blank, opt_text, texts, trim,
    trimmed,
};
use crate::tools::handlers::call::CallHandler;
use crate::tools::handlers::read_agent_status::ReadAgentStatusHandler;
use crate::tools::handlers::wait::WaitHandler;
use vstd::prelude::*;

verus! {

/// The argument in which a caller says what it is doing.
pub const TOOL_SUMMARY_ARGUMENT: &'static str = "summary";

pub const TOOL_SUMMARY_ARGUMENT_DESCRIPTION: &'static str =
    "What you are doing with this call, in a few words.";

/// The length that a summary may have.
pub const TOOL_SUMMARY_MAX_CHARS: usize = 200;

#[derive(Clone, Copy, Debug, PartialEq, Eq, Hash, Structural)]
pub enum ToolKind {
    Function,
    Mcp,
}

/// Whether a payload is of this kind.
pub open spec fn kind_fits(kind: ToolKind, payload: ToolPayload) -> bool {
    match kind {
        ToolKind::Function => payload is Function,
        ToolKind::Mcp => payload is Mcp,
    }
}

/// Whether a payload is of this kind: what a handler takes, unless it says
/// otherwise.
pub fn is_kind_of(kind: ToolKind, payload: &ToolPayload) -> (r: bool)
    ensures
        r == kind_fits(kind, *payload),
{
    match (kind, payload) {
        (ToolKind::Function, ToolPayload::Function { .. }) => true,
        (ToolKind::Mcp, ToolPayload::Mcp { .. }) => true,
        _ => false,
    }
}

/// What handles a tool.
pub trait ToolHandler {
    spec fn tool_kind(&self) -> ToolKind;

    /// Whether it takes such a payload.
    spec fn takes(&self, payload: ToolPayload) -> bool;

    fn kind(&self) -> (r: ToolKind)
        ensures
            r == self.tool_kind(),
    ;

    fn matches_kind(&self, payload: &ToolPayload) -> (r: bool)
        ensures
            r == self.takes(*payload),
    ;
}

impl ToolHandler for CallHandler {
    open spec fn tool_kind(&self) -> ToolKind {
        ToolKind::Function
    }

    open spec fn takes(&self, payload: ToolPayload) -> bool {
        payload is Function
    }

    fn kind(&self) -> (r: ToolKind) {
        ToolKind::Function
    }

    fn matches_kind(&self, payload: &ToolPayload) -> (r: bool) {
        is_kind_of(self.kind(), payload)
    }
}

impl ToolHandler for WaitHandler {
    open spec fn tool_kind(&self) -> ToolKind {
        ToolKind::Function
    }

    open spec fn takes(&self, payload: ToolPayload) -> bool {
        payload is Function
    }

    fn kind(&self) -> (r: ToolKind) {
        ToolKind::Function
    }

    fn matches_kind(&self, payload: &ToolPayload) -> (r: bool) {
        is_kind_of(self.kind(), payload)
    }
}

impl ToolHandler for ReadAgentStatusHandler {
    open spec fn tool_kind(&self) -> ToolKind {
        ToolKind::Function
    }

    open spec fn takes(&self, payload: ToolPayload) -> bool {
        payload is Function
    }

    fn kind(&self) -> (r: ToolKind) {
        ToolKind::Function
    }

    fn matches_kind(&self, payload: &ToolPayload) -> (r: bool) {
        is_kind_of(self.kind(), payload)
    }
}

// ---------------------------------------------------------------------------
// The summary of a call
// ---------------------------------------------------------------------------

/// What is said where a summary is too long.
pub open spec fn too_long_text() -> Seq<char> {
    TOOL_SUMMARY_ARGUMENT@ + " is too long (max "@ + decimal(TOOL_SUMMARY_MAX_CHARS as nat)
        + " characters)"@
}

/// The summary among the arguments of a call, or what the caller is told.
pub open spec fn summary_in(fields: Seq<(Seq<char>, FieldModel)>) -> Result<Seq<char>, Seq<char>> {
    match field_named(fields, TOOL_SUMMARY_ARGUMENT@) {
        None => Err(TOOL_SUMMARY_ARGUMENT@ + " is required"@),
        Some(FieldModel::Text(t)) => if blank(t) {
            Err(TOOL_SUMMARY_ARGUMENT@ + " must be non-empty"@)
        } else if trim(t).len() > TOOL_SUMMARY_MAX_CHARS {
            Err(too_long_text())
        } else {
            Ok(trim(t))
        },
        Some(_) => Err(TOOL_SUMMARY_ARGUMENT@ + " must be a string"@),
    }
}

/// Whether the result says the same.
pub open spec fn says(
    r: Result<(String, String), FunctionCallError>,
    s: Result<(Seq<char>, Seq<char>), Seq<char>>,
) -> bool {
    match s {
        Ok((summary, rest)) => r matches Ok((a, b)) && a@ == summary && b@ == rest,
        Err(message) => r matches Err(e) && tells_model(e, message),
    }
}

/// Whether no summary is read from these arguments.
pub open spec fn hides_summary(arguments: Seq<char>) -> bool {
    parsed_json(arguments) matches Ok(Some(fields)) ==> field_named(
        fields,
        TOOL_SUMMARY_ARGUMENT@,
    ) is None
}

fn of_summary(rest: &str) -> (r: FunctionCallError)
    ensures
        tells_model(r, TOOL_SUMMARY_ARGUMENT@ + rest@),
{
    let mut out = TOOL_SUMMARY_ARGUMENT.to_string();
    out.append(rest);
    FunctionCallError::RespondToModel(out)
}

/// The summary among the arguments of a call.
pub fn summary_argument(object: &JsonObject) -> (r: Result<String, FunctionCallError>)
    ensures
        match summary_in(object@) {
            Ok(summary) => r matches Ok(s) && s@ == summary,
            Err(message) => r matches Err(e) && tells_model(e, message),
        },
{
    match object.get(TOOL_SUMMARY_ARGUMENT) {
        Some(JsonField::Text(t)) => {
            let summary = trimmed(t.as_str());
            if is_blank(t.as_str()) {
                return Err(of_summary(" must be non-empty"));
            }
            if chars_of(summary).len() > TOOL_SUMMARY_MAX_CHARS {
                let mut out = TOOL_SUMMARY_ARGUMENT.to_string();
                out.append(" is too long (max ");
                out.append(decimal_of_usize(TOOL_SUMMARY_MAX_CHARS).as_str());
                out.append(" characters)");
                return Err(FunctionCallError::RespondToModel(out));
            }
            Ok(summary.to_string())
        },
        Some(_) => Err(of_summary(" must be a string")),
        None => Err(of_summary(" is required")),
    }
}

/// What is read from arguments: the summary and the arguments without it, or what
/// the caller is told.
pub open spec fn argument_summary(arguments: Seq<char>) -> Result<
    (Seq<char>, Seq<char>),
    Seq<char>,
> {
    match parsed_json(arguments) {
        Ok(Some(fields)) => match summary_in(fields) {
            Ok(summary) => Ok((summary, json_text(fields_without(fields, TOOL_SUMMARY_ARGUMENT@)))),
            Err(message) => Err(message),
        },
        Ok(None) => Err("failed to parse function arguments: expected JSON object"@),
        Err(e) => Err("failed to parse function arguments: "@ + e),
    }
}

/// Whether the arguments that are left without the summary are printed such that
/// they can be read again: they do not begin with the name of raw JSON.
pub open spec fn is_plain(arguments: Seq<char>) -> bool {
    parsed_json(arguments) matches Ok(Some(fields)) ==> !begins_raw(
        fields_without(fields, TOOL_SUMMARY_ARGUMENT@),
    )
}

/// Whether what is read from the rest, if anything is, are the arguments but for
/// the summary.
pub open spec fn keeps_arguments(arguments: Seq<char>, rest: Seq<char>) -> bool {
    parsed_json(arguments) matches Ok(Some(fields)) && reads_back(
        parsed_json(rest),
        fields_without(fields, TOOL_SUMMARY_ARGUMENT@),
    )
}

/// The summary that arguments hold, and the arguments without it.
pub fn parse_summary_and_strip(arguments: &str) -> (r: Result<(String, String), FunctionCallError>)
    ensures
        says(r, argument_summary(arguments@)),
        r matches Ok((_, rest)) ==> is_plain(arguments@) ==> keeps_arguments(arguments@, rest@)
            && hides_summary(rest@),
{
    match read_json(arguments) {
        Ok(Some(mut map)) => {
            let ghost fields = map_fields(map);
            match summary_argument(&fields_of(&map)) {
                Ok(summary) => {
                    remove_field(&mut map, TOOL_SUMMARY_ARGUMENT);
                    let rest = print_map(map);
                    proof {
                        if is_plain(arguments@) {
                            lemma_no_summary_is_read(parsed_json(rest@), fields);
                        }
                    }
                    Ok((summary, rest))
                },
                Err(e) => Err(e),
            }
        },
        Ok(None) => Err(
            FunctionCallError::respond("failed to parse function arguments: expected JSON object"),
        ),
        Err(e) => {
            let mut out = "failed to parse function arguments: ".to_string();
            out.append(e.as_str());
            Err(FunctionCallError::RespondToModel(out))
        },
    }
}

// ---------------------------------------------------------------------------
// Dispatch
// ---------------------------------------------------------------------------

#[derive(Debug)]
pub struct ToolRegistry<H> {
    handlers: Table<H>,
}

impl<H> View for ToolRegistry<H> {
    type V = Map<Seq<char>, H>;

    closed spec fn view(&self) -> Map<Seq<char>, H> {
        self.handlers@
    }
}

/// A call that may be handed to its handler: its payload without the summary,
/// and the summary, where the payload has one.
#[derive(Debug)]
pub struct PreparedCall {
    pub payload: ToolPayload,
    pub summary: Option<String>,
}

pub open spec fn unsupported_text(payload: ToolPayload, tool_name: Seq<char>) -> Seq<char> {
    if payload is Custom {
        "unsupported custom tool call: "@ + tool_name
    } else {
        "unsupported call: "@ + tool_name
    }
}

pub fn unsupported_tool_call_message(payload: &ToolPayload, tool_name: &str) -> (r: String)
    ensures
        r@ == unsupported_text(*payload, tool_name@),
{
    let mut out = match payload {
        ToolPayload::Custom { .. } => "unsupported custom tool call: ".to_string(),
        _ => "unsupported call: ".to_string(),
    };
    out.append(tool_name);
    out
}

/// The arguments of a payload that hold a summary.
pub open spec fn summarized_arguments(payload: ToolPayload) -> Option<Seq<char>> {
    match payload {
        ToolPayload::Function { arguments } => Some(arguments@),
        ToolPayload::Mcp { raw_arguments, .. } => Some(raw_arguments@),
        _ => None,
    }
}

/// Whether the payload is the one before with other arguments.
pub open spec fn has_arguments(p: ToolPayload, before: ToolPayload, arguments: Seq<char>) -> bool {
    match before {
        ToolPayload::Function { .. } => p matches ToolPayload::Function { arguments: a } && a@
            == arguments,
        ToolPayload::Mcp { server, tool, .. } => p matches ToolPayload::Mcp {
            server: s,
            tool: t,
            raw_arguments: a,
        } && s == server && t == tool && a@ == arguments,
        _ => p == before,
    }
}

/// What a call becomes before it is handled: its summary is taken out.
pub open spec fn captures(
    r: Result<PreparedCall, FunctionCallError>,
    payload: ToolPayload,
) -> bool {
    match summarized_arguments(payload) {
        Some(arguments) => match argument_summary(arguments) {
            Ok((summary, rest)) => r matches Ok(p) && opt_text(p.summary) == Some(summary)
                && has_arguments(p.payload, payload, rest),
            Err(message) => r matches Err(e) && tells_model(e, message),
        },
        None => r matches Ok(p) && p.payload == payload && p.summary is None,
    }
}

/// Whether no summary is read from the arguments of a payload.
pub open spec fn shows_no_summary(payload: ToolPayload) -> bool {
    summarized_arguments(payload) matches Some(arguments) ==> hides_summary(arguments)
}

/// Whether the arguments of a payload, if it has any, are plain.
pub open spec fn has_plain_arguments(payload: ToolPayload) -> bool {
    summarized_arguments(payload) matches Some(arguments) ==> is_plain(arguments)
}

/// Takes the summary out of a payload.
pub fn capture_work_summary_and_strip_payload(payload: ToolPayload) -> (r: Result<
    PreparedCall,
    FunctionCallError,
>)
    ensures
        captures(r, payload),
        r matches Ok(p) ==> has_plain_arguments(payload) ==> shows_no_summary(p.payload),
{
    match payload {
        ToolPayload::Function { arguments } => match parse_summary_and_strip(arguments.as_str()) {
            Ok((summary, rest)) => Ok(
                PreparedCall {
                    payload: ToolPayload::Function { arguments: rest },
                    summary: Some(summary),
                },
            ),
            Err(e) => Err(e),
        },
        ToolPayload::Mcp { server, tool, raw_arguments } => match parse_summary_and_strip(
            raw_arguments.as_str(),
        ) {
            Ok((summary, rest)) => Ok(
                PreparedCall {
                    payload: ToolPayload::Mcp { server, tool, raw_arguments: rest },
                    summary: Some(summary),
                },
            ),
            Err(e) => Err(e),
        },
        payload => Ok(PreparedCall { payload, summary: None }),
    }
}

/// Whether this is what a call of a tool becomes, or why it is not handled.
pub open spec fn dispatches<H: ToolHandler>(
    r: Result<PreparedCall, FunctionCallError>,
    handlers: Map<Seq<char>, H>,
    tool_name: Seq<char>,
    payload: ToolPayload,
) -> bool {
    if !handlers.contains_key(tool_name) {
        r matches Err(e) && tells_model(e, unsupported_text(payload, tool_name))
    } else if !handlers[tool_name].takes(payload) {
        r matches Err(FunctionCallError::Fatal(m)) && m@ == "tool "@ + tool_name
            + " invoked with incompatible payload"@
    } else {
        captures(r, payload)
    }
}

impl<H: ToolHandler> ToolRegistry<H> {
    pub fn new(handlers: Table<H>) -> (r: ToolRegistry<H>)
        ensures
            r@ == handlers@,
    {
        ToolRegistry { handlers }
    }

    /// What handles a tool.
    pub fn handler(&self, name: &str) -> (r: Option<&H>)
        ensures
            match r {
                Some(h) => self@.contains_key(name@) && *h == self@[name@],
                None => !self@.contains_key(name@),
            },
    {
        self.handlers.get(name)
    }

    /// What is to be handed to the handler of a tool: there has to be one, it has
    /// to take such a payload, and the payload has to say what it is for.
    pub fn dispatch(&self, tool_name: &str, payload: ToolPayload) -> (r: Result<
        PreparedCall,
        FunctionCallError,
    >)
        ensures
            dispatches(r, self@, tool_name@, payload),
            r matches Ok(p) ==> has_plain_arguments(payload) ==> shows_no_summary(p.payload),
    {
        let handler = match self.handler(tool_name) {
            Some(h) => h,
            None => {
                return Err(
                    FunctionCallError::RespondToModel(
                        unsupported_tool_call_message(&payload, tool_name),
                    ),
                );
            },
        };
        if !handler.matches_kind(&payload) {
            let mut out = "tool ".to_string();
            out.append(tool_name);
            out.append(" invoked with incompatible payload");
            return Err(FunctionCallError::Fatal(out));
        }
        capture_work_summary_and_strip_payload(payload)
    }
}

/// Whether an agent without a name that stands alone gets the name of the first.
pub open spec fn names_the_root(
    r: Option<&'static str>,
    names: AgentNames,
    conversation: ThreadId,
    source: SessionSource,
) -> bool {
    if names.name_of(conversation) is None && !(source is SubAgent) {
        r matches Some(name) && name@ == PRIMARY_AGENT_NAME@
    } else {
        r is None
    }
}

/// Whether the agent of a session has to be given the name of the root agent
/// before its summary is told: it has none, and is no sub-agent.
pub fn ensure_current_agent_has_name(
    names: &AgentNames,
    conversation_id: ThreadId,
    source: &SessionSource,
) -> (r: Option<&'static str>)
    ensures
        names_the_root(r, *names, conversation_id, *source),
{
    if names.agent_name_for_thread(conversation_id).is_some() {
        return None;
    }
    match source {
        SessionSource::SubAgent(_) => None,
        _ => Some(PRIMARY_AGENT_NAME),
    }
}

/// What is told of a call: who makes it, and what for.
#[derive(Debug)]
pub struct AgentWorkSummaryEvent {
    pub thread_id: ThreadId,
    pub agent_name: String,
    pub summary: String,
}

/// Whether this tells of a call who makes it, and what for.
pub open spec fn tells_work(
    r: AgentWorkSummaryEvent,
    names: AgentNames,
    thread: ThreadId,
    summary: String,
) -> bool {
    &&& r.thread_id == thread
    &&& r.agent_name@ == names.called(thread)
    &&& r.summary == summary
}

pub fn work_summary_event(names: &AgentNames, thread_id: ThreadId, summary: String) -> (r:
    AgentWorkSummaryEvent)
    ensures
        tells_work(r, *names, thread_id, summary),
{
    AgentWorkSummaryEvent { thread_id, agent_name: names.name_or_unnamed(thread_id), summary }
}

// ---------------------------------------------------------------------------
// What tools take
// ---------------------------------------------------------------------------

/// The schema of a parameter: a text, or anything else as it is written.
#[derive(Clone, Debug, PartialEq, Eq)]
pub enum ParameterSchema {
    Text { description: Option<String> },
    Other { json: String },
}

/// The schema of what a tool takes. Its properties are known by their names; they
/// have no order.
#[derive(Clone, Debug)]
pub enum JsonSchema {
    Object {
        properties: Table<ParameterSchema>,
        required: Option<Vec<String>>,
        additional_properties: Option<String>,
    },
    Other { json: String },
}

#[derive(Clone, Debug)]
pub struct ResponsesApiTool {
    pub name: String,
    pub description: String,
    pub strict: bool,
    pub parameters: JsonSchema,
}

#[derive(Clone, Debug)]
pub enum ToolSpec {
    Function(ResponsesApiTool),
    Other { json: String },
}

#[derive(Clone, Debug)]
pub struct ConfiguredToolSpec {
    pub spec: ToolSpec,
    pub supports_parallel_tool_calls: bool,
}

/// Whether the tool is the one before, and asks for a summary.
pub open spec fn asks_for_summary(r: ToolSpec, before: ToolSpec) -> bool {
    match before {
        ToolSpec::Function(f) => match f.parameters {
            JsonSchema::Object { properties, required, additional_properties } => {
                r matches ToolSpec::Function(g) && g.name == f.name && g.description
                    == f.description && g.strict == f.strict && (
                g.parameters matches JsonSchema::Object {
                    properties: p,
                    required: q,
                    additional_properties: a,
                } && a == additional_properties && (if properties@.contains_key(
                    TOOL_SUMMARY_ARGUMENT@,
                ) {
                    p@ == properties@
                } else {
                    exists|s: ParameterSchema| #[trigger]
                        is_summary_schema(s) && p@ == properties@.insert(TOOL_SUMMARY_ARGUMENT@, s)
                }) && (q matches Some(w) && texts(w@) == (match required {
                    Some(v) => if texts(v@).contains(TOOL_SUMMARY_ARGUMENT@) {
                        texts(v@)
                    } else {
                        texts(v@).push(TOOL_SUMMARY_ARGUMENT@)
                    },
                    None => seq![TOOL_SUMMARY_ARGUMENT@],
                })))
            },
            JsonSchema::Other { .. } => r == before,
        },
        ToolSpec::Other { .. } => r == before,
    }
}

pub open spec fn is_summary_schema(s: ParameterSchema) -> bool {
    s matches ParameterSchema::Text { description } && opt_text(description) == Some(
        TOOL_SUMMARY_ARGUMENT_DESCRIPTION@,
    )
}

fn with_summary(required: Option<Vec<String>>) -> (r: Vec<String>)
    ensures
        texts(r@) == (match required {
            Some(v) => if texts(v@).contains(TOOL_SUMMARY_ARGUMENT@) {
                texts(v@)
            } else {
                texts(v@).push(TOOL_SUMMARY_ARGUMENT@)
            },
            None => seq![TOOL_SUMMARY_ARGUMENT@],
        }),
{
    let mut v = match required {
        Some(v) => v,
        None => Vec::new(),
    };
    let ghost before = texts(v@);
    if !crate::office::pilot::holds_text(&v, TOOL_SUMMARY_ARGUMENT) {
        v.push(TOOL_SUMMARY_ARGUMENT.to_string());
        assert(texts(v@) =~= before.push(TOOL_SUMMARY_ARGUMENT@));
    }
    proof {
        if required is None {
            assert(before =~= Seq::<Seq<char>>::empty());
            assert(before.push(TOOL_SUMMARY_ARGUMENT@) =~= seq![TOOL_SUMMARY_ARGUMENT@]);
        }
    }
    v
}

/// The tool, asking for a summary.
pub fn add_required_summary_parameter(spec: ToolSpec) -> (r: ToolSpec)
    ensures
        asks_for_summary(r, spec),
{
    match spec {
        ToolSpec::Function(function) => {
            let ResponsesApiTool { name, description, strict, parameters } = function;
            match parameters {
                JsonSchema::Object { properties, required, additional_properties } => {
                    let mut properties = properties;
                    if !properties.contains_key(TOOL_SUMMARY_ARGUMENT) {
                        let s = ParameterSchema::Text {
                            description: Some(TOOL_SUMMARY_ARGUMENT_DESCRIPTION.to_string()),
                        };
                        assert(is_summary_schema(s));
                        properties.insert(TOOL_SUMMARY_ARGUMENT.to_string(), s);
                    }
                    let required = with_summary(required);
                    ToolSpec::Function(
                        ResponsesApiTool {
                            name,
                            description,
                            strict,
                            parameters: JsonSchema::Object {
                                properties,
                                required: Some(required),
                                additional_properties,
                            },
                        },
                    )
                },
                JsonSchema::Other { json } => ToolSpec::Function(
                    ResponsesApiTool {
                        name,
                        description,
                        strict,
                        parameters: JsonSchema::Other { json },
                    },
                ),
            }
        },
        ToolSpec::Other { json } => ToolSpec::Other { json },
    }
}

impl ConfiguredToolSpec {
    pub fn new(spec: ToolSpec, supports_parallel_tool_calls: bool) -> (r: ConfiguredToolSpec)
        ensures
            r.spec == spec,
            r.supports_parallel_tool_calls == supports_parallel_tool_calls,
    {
        ConfiguredToolSpec { spec, supports_parallel_tool_calls }
    }
}

/// Gathers the tools of a session.
#[derive(Debug)]
pub struct ToolRegistryBuilder<H> {
    handlers: Table<H>,
    specs: Vec<ConfiguredToolSpec>,
}

impl<H: ToolHandler> ToolRegistryBuilder<H> {
    pub closed spec fn known(&self) -> Map<Seq<char>, H> {
        self.handlers@
    }

    pub closed spec fn offered(&self) -> Seq<ConfiguredToolSpec> {
        self.specs@
    }

    pub fn new() -> (r: ToolRegistryBuilder<H>)
        ensures
            r.known() == Map::<Seq<char>, H>::empty(),
            r.offered() == Seq::<ConfiguredToolSpec>::empty(),
    {
        ToolRegistryBuilder { handlers: Table::new(), specs: Vec::new() }
    }

    /// Offers a tool whose calls come one at a time.
    pub fn push_spec(&mut self, spec: ToolSpec)
        ensures
            final(self).known() == old(self).known(),
            final(self).offered().len() == old(self).offered().len() + 1,
            final(self).offered().drop_last() == old(self).offered(),
            asks_for_summary(final(self).offered().last().spec, spec),
            !final(self).offered().last().supports_parallel_tool_calls,
    {
        self.push_spec_with_parallel_support(spec, false);
    }

    /// Offers a tool; it asks for a summary.
    pub fn push_spec_with_parallel_support(
        &mut self,
        spec: ToolSpec,
        supports_parallel_tool_calls: bool,
    )
        ensures
            final(self).known() == old(self).known(),
            final(self).offered().len() == old(self).offered().len() + 1,
            final(self).offered().drop_last() == old(self).offered(),
            asks_for_summary(final(self).offered().last().spec, spec),
            final(self).offered().last().supports_parallel_tool_calls
                == supports_parallel_tool_calls,
    {
        let ghost before = self.offered();
        self.specs.push(
            ConfiguredToolSpec::new(
                add_required_summary_parameter(spec),
                supports_parallel_tool_calls,
            ),
        );
        assert(self.offered().drop_last() =~= before);
    }

    /// Puts a handler under a name; hands back the one that it takes the place of.
    pub fn register_handler(&mut self, name: &str, handler: H) -> (r: Option<H>)
        ensures
            final(self).known() == old(self).known().insert(name@, handler),
            final(self).offered() == old(self).offered(),
            match r {
                Some(h) => old(self).known().contains_key(name@) && h == old(self).known()[name@],
                None => !old(self).known().contains_key(name@),
            },
    {
        self.handlers.insert(name.to_string(), handler)
    }

    pub fn build(self) -> (r: (Vec<ConfiguredToolSpec>, ToolRegistry<H>))
        ensures
            r.0@ == self.offered(),
            r.1@ == self.known(),
    {
        (self.specs, ToolRegistry::new(self.handlers))
    }
}

// ---------------------------------------------------------------------------
// What is told of a tool's use
// ---------------------------------------------------------------------------

/// What a session may do to the machine it runs on.
#[derive(Clone, Copy, Debug, PartialEq, Eq, Structural)]
pub enum SandboxPolicy {
    ReadOnly,
    WorkspaceWrite,
    DangerFullAccess,
    ExternalSandbox,
}

pub open spec fn policy_tag(policy: SandboxPolicy) -> Seq<char> {
    match policy {
        SandboxPolicy::ReadOnly => "read-only"@,
        SandboxPolicy::WorkspaceWrite => "workspace-write"@,
        SandboxPolicy::DangerFullAccess => "danger-full-access"@,
        SandboxPolicy::ExternalSandbox => "external-sandbox"@,
    }
}

pub fn sandbox_policy_tag(policy: &SandboxPolicy) -> (r: &'static str)
    ensures
        r@ == policy_tag(*policy),
{
    match policy {
        SandboxPolicy::ReadOnly => "read-only",
        SandboxPolicy::WorkspaceWrite => "workspace-write",
        SandboxPolicy::DangerFullAccess => "danger-full-access",
        SandboxPolicy::ExternalSandbox => "external-sandbox",
    }
}

/// Whether these are the tags under which the use of a tool is counted.
pub open spec fn are_tags(r: Seq<(String, String)>, sandbox: Seq<char>, policy: SandboxPolicy) -> bool {
    &&& r.len() == 2
    &&& r[0].0@ == "sandbox"@ && r[0].1@ == sandbox
    &&& r[1].0@ == "sandbox_policy"@ && r[1].1@ == policy_tag(policy)
}

/// The tags under which the use of a tool is counted.
pub fn metric_tags(sandbox: &str, policy: &SandboxPolicy) -> (r: Vec<(String, String)>)
    ensures
        are_tags(r@, sandbox@, *policy),
{
    let mut out: Vec<(String, String)> = Vec::new();
    out.push(("sandbox".to_string(), sandbox.to_string()));
    out.push(("sandbox_policy".to_string(), sandbox_policy_tag(policy).to_string()));
    out
}

#[derive(Clone, Copy, Debug, PartialEq, Eq, Structural)]
pub enum HookToolKind {
    Function,
    Custom,
    LocalShell,
    Mcp,
}

/// What a hook is told that a tool was called with.
#[derive(Clone, Debug, PartialEq, Eq)]
pub enum HookToolInput {
    Function { arguments: String },
    Custom { input: String },
    LocalShell { params: ShellParams },
    Mcp { server: String, tool: String, arguments: String },
}

/// Whether the parameters say the same.
pub open spec fn same_params(a: ShellParams, b: ShellParams) -> bool {
    &&& texts(a.command@) == texts(b.command@)
    &&& opt_text(a.workdir) == opt_text(b.workdir)
    &&& a.timeout_ms == b.timeout_ms
    &&& a.sandbox_permissions == b.sandbox_permissions
    &&& match (a.prefix_rule, b.prefix_rule) {
        (Some(x), Some(y)) => texts(x@) == texts(y@),
        (None, None) => true,
        _ => false,
    }
    &&& opt_text(a.justification) == opt_text(b.justification)
}

impl ShellParams {
    pub fn copy(&self) -> (r: ShellParams)
        ensures
            same_params(r, *self),
    {
        ShellParams {
            command: clone_texts(&self.command),
            workdir: match &self.workdir {
                Some(t) => Some(t.clone()),
                None => None,
            },
            timeout_ms: self.timeout_ms,
            sandbox_permissions: self.sandbox_permissions,
            prefix_rule: match &self.prefix_rule {
                Some(v) => Some(clone_texts(v)),
                None => None,
            },
            justification: match &self.justification {
                Some(t) => Some(t.clone()),
                None => None,
            },
        }
    }
}

/// Whether a hook is told what the tool was called with.
pub open spec fn tells_hook(h: HookToolInput, p: ToolPayload) -> bool {
    match p {
        ToolPayload::Function { arguments } => h matches HookToolInput::Function { arguments: a }
            && a@ == arguments@,
        ToolPayload::Custom { input } => h matches HookToolInput::Custom { input: i } && i@
            == input@,
        ToolPayload::LocalShell { params } => h matches HookToolInput::LocalShell { params: q }
            && same_params(q, params),
        ToolPayload::Mcp { server, tool, raw_arguments } => h matches HookToolInput::Mcp {
            server: s,
            tool: t,
            arguments: a,
        } && s@ == server@ && t@ == tool@ && a@ == raw_arguments@,
    }
}

pub fn hook_tool_input(payload: &ToolPayload) -> (r: HookToolInput)
    ensures
        tells_hook(r, *payload),
{
    match payload {
        ToolPayload::Function { arguments } => HookToolInput::Function {
            arguments: arguments.clone(),
        },
        ToolPayload::Custom { input } => HookToolInput::Custom { input: input.clone() },
        ToolPayload::LocalShell { params } => HookToolInput::LocalShell { params: params.copy() },
        ToolPayload::Mcp { server, tool, raw_arguments } => HookToolInput::Mcp {
            server: server.clone(),
            tool: tool.clone(),
            arguments: raw_arguments.clone(),
        },
    }
}

pub open spec fn kind_of_input(h: HookToolInput) -> HookToolKind {
    match h {
        HookToolInput::Function { .. } => HookToolKind::Function,
        HookToolInput::Custom { .. } => HookToolKind::Custom,
        HookToolInput::LocalShell { .. } => HookToolKind::LocalShell,
        HookToolInput::Mcp { .. } => HookToolKind::Mcp,
    }
}

pub fn hook_tool_kind(tool_input: &HookToolInput) -> (r: HookToolKind)
    ensures
        r == kind_of_input(*tool_input),
{
    match tool_input {
        HookToolInput::Function { .. } => HookToolKind::Function,
        HookToolInput::Custom { .. } => HookToolKind::Custom,
        HookToolInput::LocalShell { .. } => HookToolKind::LocalShell,
        HookToolInput::Mcp { .. } => HookToolKind::Mcp,
    }
}

/// How the use of a tool went.
#[derive(Clone, Copy, Debug, PartialEq, Eq)]
pub struct ToolUse {
    pub executed: bool,
    pub success: bool,
    pub duration_ms: u128,
    pub mutating: bool,
}

/// What a hook is told after a tool was used.
#[derive(Debug)]
pub struct HookEventAfterToolUse {
    pub turn_id: String,
    pub call_id: String,
    pub tool_name: String,
    pub tool_kind: HookToolKind,
    pub tool_input: HookToolInput,
    pub executed: bool,
    pub success: bool,
    pub duration_ms: u64,
    pub mutating: bool,
    pub sandbox: String,
    pub sandbox_policy: String,
    pub output_preview: String,
}

/// The number of milliseconds, or the greatest there is.
pub open spec fn clamped_ms(ms: u128) -> u64 {
    if ms > u64::MAX {
        u64::MAX
    } else {
        ms as u64
    }
}

/// Whether this is what a hook is told after a tool was used.
pub open spec fn tells_use(
    r: HookEventAfterToolUse,
    turn_id: Seq<char>,
    call_id: Seq<char>,
    tool_name: Seq<char>,
    payload: ToolPayload,
    usage: ToolUse,
    sandbox: Seq<char>,
    policy: SandboxPolicy,
    output_preview: Seq<char>,
) -> bool {
    &&& r.turn_id@ == turn_id
    &&& r.call_id@ == call_id
    &&& r.tool_name@ == tool_name
    &&& tells_hook(r.tool_input, payload)
    &&& r.tool_kind == kind_of_input(r.tool_input)
    &&& r.executed == usage.executed
    &&& r.success == usage.success
    &&& r.duration_ms == clamped_ms(usage.duration_ms)
    &&& r.mutating == usage.mutating
    &&& r.sandbox@ == sandbox
    &&& r.sandbox_policy@ == policy_tag(policy)
    &&& r.output_preview@ == output_preview
}

/// What a hook is told after a tool was used; `sandbox` is the tag of the
/// sandbox it ran in.
pub fn after_tool_use_event(
    turn_id: &str,
    call_id: &str,
    tool_name: &str,
    payload: &ToolPayload,
    usage: ToolUse,
    sandbox: &str,
    policy: &SandboxPolicy,
    output_preview: &str,
) -> (r: HookEventAfterToolUse)
    ensures
        tells_use(
            r,
            turn_id@,
            call_id@,
            tool_name@,
            *payload,
            usage,
            sandbox@,
            *policy,
            output_preview@,
        ),
{
    let tool_input = hook_tool_input(payload);
    let duration_ms: u64 = if usage.duration_ms > u64::MAX as u128 {
        u64::MAX
    } else {
        usage.duration_ms as u64
    };
    HookEventAfterToolUse {
        turn_id: turn_id.to_string(),
        call_id: call_id.to_string(),
        tool_name: tool_name.to_string(),
        tool_kind: hook_tool_kind(&tool_input),
        tool_input,
        executed: usage.executed,
        success: usage.success,
        duration_ms,
        mutating: usage.mutating,
        sandbox: sandbox.to_string(),
        sandbox_policy: sandbox_policy_tag(policy).to_string(),
        output_preview: output_preview.to_string(),
    }
}

// ---------------------------------------------------------------------------
// Laws
// ---------------------------------------------------------------------------

/// The arguments that are handed on hold no summary.
pub proof fn law_handlers_do_not_see_summaries(fields: Seq<(Seq<char>, FieldModel)>)
    ensures
        field_named(fields_without(fields, TOOL_SUMMARY_ARGUMENT@), TOOL_SUMMARY_ARGUMENT@) is None,
{
    let p = |f: (Seq<char>, FieldModel)| f.0 != TOOL_SUMMARY_ARGUMENT@;
    let rest = fields_without(fields, TOOL_SUMMARY_ARGUMENT@);
    assert forall|i: int| 0 <= i < rest.len() implies (#[trigger] rest[i]).0
        != TOOL_SUMMARY_ARGUMENT@ by {
        fields.lemma_filter_pred(p, i);
    }
    lemma_not_named(rest, TOOL_SUMMARY_ARGUMENT@);
}

proof fn lemma_no_summary_is_read(
    doc: Result<Option<Seq<(Seq<char>, FieldModel)>>, Seq<char>>,
    fields: Seq<(Seq<char>, FieldModel)>,
)
    requires
        reads_back(doc, fields_without(fields, TOOL_SUMMARY_ARGUMENT@)),
    ensures
        doc matches Ok(Some(read)) ==> field_named(read, TOOL_SUMMARY_ARGUMENT@) is None,
{
    if let Ok(Some(read)) = doc {
        let p = |f: (Seq<char>, FieldModel)| f.0 != TOOL_SUMMARY_ARGUMENT@;
        assert forall|i: int| 0 <= i < read.len() implies (#[trigger] read[i]).0
            != TOOL_SUMMARY_ARGUMENT@ by {
            fields.lemma_filter_pred(p, i);
        }
        lemma_not_named(read, TOOL_SUMMARY_ARGUMENT@);
    }
}

proof fn lemma_not_named(s: Seq<(Seq<char>, FieldModel)>, name: Seq<char>)
    requires
        forall|i: int| 0 <= i < s.len() ==> (#[trigger] s[i]).0 != name,
    ensures
        field_named(s, name) is None,
    decreases s.len(),
{
    if s.len() > 0 {
        assert(s[0].0 != name);
        let t = s.skip(1);
        assert forall|i: int| 0 <= i < t.len() implies (#[trigger] t[i]).0 != name by {
            assert(t[i] == s[i + 1]);
        }
        lemma_not_named(t, name);
    }
}

/// A call is handled just where its tool has a handler that takes such a payload and,
/// if it has arguments, these say in a text of at most 200 characters what it is for.
/// Then that text is its summary, and the handler gets the payload with all the other
/// arguments. A payload without arguments is handed on as it is.
pub proof fn law_calls_are_handled<H: ToolHandler>(
    r: Result<PreparedCall, FunctionCallError>,
    handlers: Map<Seq<char>, H>,
    tool_name: Seq<char>,
    payload: ToolPayload,
)
    requires
        dispatches(r, handlers, tool_name, payload),
    ensures
        ({
            let arguments: Option<Seq<char>> = match payload {
                ToolPayload::Function { arguments } => Some(arguments@),
                ToolPayload::Mcp { server, tool, raw_arguments } => Some(raw_arguments@),
                _ => None,
            };
            &&& r is Ok <==> handlers.contains_key(tool_name) && handlers[tool_name].takes(payload)
                && (arguments is Some ==> is_summarized(arguments->0))
            &&& r matches Ok(p) ==> match payload {
                ToolPayload::Function { arguments } => p.payload is Function && hands_on(
                    arguments@,
                    p.summary,
                    p.payload->arguments@,
                ),
                ToolPayload::Mcp { server, tool, raw_arguments } => p.payload is Mcp
                    && p.payload->server == server && p.payload->tool == tool && hands_on(
                    raw_arguments@,
                    p.summary,
                    p.payload->raw_arguments@,
                ),
                _ => p.payload == payload && p.summary is None,
            }
            &&& handlers.contains_key(tool_name) && !handlers[tool_name].takes(payload) ==> r
                is Err && r->Err_0 is Fatal
            &&& !handlers.contains_key(tool_name) ==> r is Err && r->Err_0 is RespondToModel
        }),
{
}

/// Whether arguments say what the call is for.
pub open spec fn is_summarized(arguments: Seq<char>) -> bool {
    parsed_json(arguments) matches Ok(Some(fields)) && (field_named(fields, "summary"@) matches Some(
        FieldModel::Text(t),
    ) && !blank(t) && trim(t).len() <= 200)
}

/// Whether the summary and the rest are those of these arguments.
pub open spec fn hands_on(arguments: Seq<char>, summary: Option<String>, rest: Seq<char>) -> bool {
    parsed_json(arguments) matches Ok(Some(fields)) && (field_named(fields, "summary"@) matches Some(
        FieldModel::Text(t),
    ) && summary is Some && summary->0@ == trim(t) && rest == json_text(
        fields.filter(|f: (Seq<char>, FieldModel)| f.0 != "summary"@),
    ))
}

/// A tool that takes an object asks for a summary, and for all that it asked for
/// before; what it takes is not changed otherwise. Any other tool stays as it is.
pub proof fn law_tools_ask_for_summaries(r: ToolSpec, before: ToolSpec)
    requires
        asks_for_summary(r, before),
    ensures
        before is Other ==> r == before,
        before matches ToolSpec::Function(f) ==> f.parameters is Other ==> r == before,
        before matches ToolSpec::Function(f) ==> f.parameters is Object ==> (r matches ToolSpec::Function(
            g,
        ) && g.name == f.name && g.description == f.description && g.strict == f.strict && {
            &&& g.parameters is Object
            &&& g.parameters->properties@.contains_key("summary"@)
            &&& forall|k: Seq<char>|
                k != "summary"@ ==> (#[trigger] g.parameters->properties@.contains_key(k)
                    == f.parameters->properties@.contains_key(k)) && (
                f.parameters->properties@.contains_key(k) ==> g.parameters->properties@[k]
                    == f.parameters->properties@[k])
            &&& f.parameters->properties@.contains_key("summary"@)
                ==> g.parameters->properties@["summary"@] == f.parameters->properties@["summary"@]
            &&& g.parameters->required is Some && texts(
                g.parameters->required->0@,
            ).contains("summary"@)
            &&& g.parameters->additional_properties == f.parameters->additional_properties
        }),
        before matches ToolSpec::Function(f) ==> f.parameters is Object ==> f.parameters->required
            is Some ==> forall|k: Seq<char>| #[trigger]
            texts(f.parameters->required->0@).contains(k) ==> texts(
                r->Function_0.parameters->required->0@,
            ).contains(k),
{
    if let ToolSpec::Function(f) = before {
        if f.parameters is Object {
            let g = r->Function_0;
            let q = texts(g.parameters->required->0@);
            if f.parameters->required is Some {
                let v = texts(f.parameters->required->0@);
                crate::table::lemma_push_contains(v, "summary"@);
            } else {
                assert(q[0] == "summary"@);
            }
        }
    }
}

/// A hook is told the kind of what the tool was called with, and how long it took, as
/// far as that can be counted.
pub proof fn law_hooks_are_told_kind_and_time(h: HookToolInput, p: ToolPayload, ms: u128)
    requires
        tells_hook(h, p),
    ensures
        kind_of_input(h) is Function <==> p is Function,
        kind_of_input(h) is Custom <==> p is Custom,
        kind_of_input(h) is LocalShell <==> p is LocalShell,
        kind_of_input(h) is Mcp <==> p is Mcp,
        ms <= u64::MAX ==> clamped_ms(ms) == ms,
        ms > u64::MAX ==> clamped_ms(ms) == u64::MAX,
{
}

/// No two policies go by the same tag.
pub proof fn law_policies_have_their_tags(a: SandboxPolicy, b: SandboxPolicy)
    ensures
        policy_tag(a) == policy_tag(b) ==> a == b,
        policy_tag(SandboxPolicy::ReadOnly) == "read-only"@,
        policy_tag(SandboxPolicy::DangerFullAccess) == "danger-full-access"@,
{
    reveal_strlit("read-only");
    reveal_strlit("workspace-write");
    reveal_strlit("danger-full-access");
    reveal_strlit("external-sandbox");
    assert("read-only"@.len() == 9);
    assert("workspace-write"@.len() == 15);
    assert("danger-full-access"@.len() == 18);
    assert("external-sandbox"@.len() == 16);
}

/// What nobody handles is called a custom tool just where its payload is one.
pub proof fn law_unknown_tools_are_named(payload: ToolPayload, tool_name: Seq<char>)
    ensures
        ({
            let start = if payload is Custom {
                "unsupported custom tool call: "@
            } else {
                "unsupported call: "@
            };
            unsupported_text(payload, tool_name) == start + tool_name
        }),
{
}

/// A summary is taken from the argument of its name: it has to be a text, to say
/// something, and to have at most two hundred characters.
pub proof fn law_summaries_are_taken_from_their_argument(fields: Seq<(Seq<char>, FieldModel)>)
    ensures
        summary_in(fields) is Ok <==> (field_named(fields, "summary"@) matches Some(
            FieldModel::Text(t),
        ) && !blank(t) && trim(t).len() <= 200),
        field_named(fields, "summary"@) matches Some(FieldModel::Text(t)) ==> (summary_in(
            fields,
        ) is Ok ==> summary_in(fields) == Ok::<Seq<char>, Seq<char>>(trim(t))),
        field_named(fields, "summary"@) is None ==> summary_in(fields) == Err::<
            Seq<char>,
            Seq<char>,
        >("summary"@ + " is required"@),
{
}

/// Only an agent that stands alone and has no name is given one.
pub proof fn law_only_nameless_roots_are_named(
    r: Option<&'static str>,
    names: AgentNames,
    conversation: ThreadId,
    source: SessionSource,
)
    requires
        names_the_root(r, names, conversation, source),
    ensures
        r is Some <==> names.name_of(conversation) is None && !(source is SubAgent),
        r is Some ==> r->0@ == PRIMARY_AGENT_NAME@,
{
}

/// What a call is for is told under the thread and the name of whom makes it.
pub proof fn law_work_is_told_under_its_agent(
    r: AgentWorkSummaryEvent,
    names: AgentNames,
    thread: ThreadId,
    summary: String,
)
    requires
        tells_work(r, names, thread, summary),
    ensures
        r.thread_id == thread,
        r.summary@ == summary@,
        names.name_of(thread) is Some ==> r.agent_name@ == names.name_of(thread)->0,
{
}

/// The use of a tool is counted under its sandbox and its policy.
pub proof fn law_tools_are_counted_by_sandbox(
    r: Seq<(String, String)>,
    sandbox: Seq<char>,
    policy: SandboxPolicy,
)
    requires
        are_tags(r, sandbox, policy),
    ensures
        r.len() == 2,
        r[0].0@ == "sandbox"@ && r[0].1@ == sandbox,
        r[1].0@ == "sandbox_policy"@,
        policy is ReadOnly ==> r[1].1@ == "read-only"@,
        policy is WorkspaceWrite ==> r[1].1@ == "workspace-write"@,
        policy is DangerFullAccess ==> r[1].1@ == "danger-full-access"@,
        policy is ExternalSandbox ==> r[1].1@ == "external-sandbox"@,
{
}

/// A hook is told which call of which turn used which tool, whether it ran, went well
/// and may have changed something, and how it was confined.
pub proof fn law_hooks_are_told_how_tools_were_used(
    r: HookEventAfterToolUse,
    turn_id: Seq<char>,
    call_id: Seq<char>,
    tool_name: Seq<char>,
    payload: ToolPayload,
    usage: ToolUse,
    sandbox: Seq<char>,
    policy: SandboxPolicy,
    output_preview: Seq<char>,
)
    requires
        tells_use(
            r,
            turn_id,
            call_id,
            tool_name,
            payload,
            usage,
            sandbox,
            policy,
            output_preview,
        ),
    ensures
        r.turn_id@ == turn_id && r.call_id@ == call_id && r.tool_name@ == tool_name,
        r.executed == usage.executed && r.success == usage.success && r.mutating == usage.mutating,
        usage.duration_ms <= u64::MAX ==> r.duration_ms == usage.duration_ms,
        usage.duration_ms > u64::MAX ==> r.duration_ms == u64::MAX,
        payload is Function ==> r.tool_kind == HookToolKind::Function,
        payload is Custom ==> r.tool_kind == HookToolKind::Custom,
        payload is LocalShell ==> r.tool_kind == HookToolKind::LocalShell,
        payload is Mcp ==> r.tool_kind == HookToolKind::Mcp,
        policy is ReadOnly ==> r.sandbox_policy@ == "read-only"@,
        r.sandbox@ == sandbox && r.output_preview@ == output_preview,
{
}

} // verus!
