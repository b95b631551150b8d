//! The way from an agent's tool call to what executes it: the registry of the
//! session, or an execution gateway behind HTTP.
use crate::ids::{thread_text, ThreadId};
use crate::office::tools::{allows, denial, GatewayDecision, PolicyModel, ToolCapabilityPolicy};
use crate::paths::{file_name, path_file_name};
use crate::prompt_paths::{prompt_cwd_for_gateway, shown_cwd};
use crate::protocol::{
    tells_model, AgentNames, FunctionCallError, FunctionOutput, SandboxPermissions, SessionSource,
    SubAgentSource, ToolPayload, PRIMARY_AGENT_NAME,
};
use crate::text::{
    blank, copy_opt, is_blank, number_in, opt_str, opt_text, parse_u64, same_text, texts, trim,
    trimmed,
};
use crate::tools::registry::{ToolHandler, ToolRegistry};
use vstd::prelude::*;

verus! {

/// How long the gateway may take to answer, in milliseconds.
pub const DEFAULT_HTTP_TIMEOUT_MS: u64 = 30000;

// ---------------------------------------------------------------------------
// Where a call goes
// ---------------------------------------------------------------------------

/// Where the execution gateway is, and how it is spoken to.
#[derive(Clone, Debug, Eq, PartialEq)]
pub struct HttpToolGatewayBackend {
    pub endpoint: String,
    pub bearer_token: Option<String>,
    pub timeout_ms: u64,
}

#[verifier::ext_equal]
pub struct BackendModel {
    pub endpoint: Seq<char>,
    pub bearer_token: Option<Seq<char>>,
    pub timeout_ms: u64,
}

impl View for HttpToolGatewayBackend {
    type V = BackendModel;

    open spec fn view(&self) -> BackendModel {
        BackendModel {
            endpoint: self.endpoint@,
            bearer_token: opt_text(self.bearer_token),
            timeout_ms: self.timeout_ms,
        }
    }
}

/// A backend at an address, without a token.
pub open spec fn plain_backend(endpoint: Seq<char>) -> BackendModel {
    BackendModel { endpoint, bearer_token: None, timeout_ms: DEFAULT_HTTP_TIMEOUT_MS }
}

pub open spec fn with_token(b: BackendModel, token: Seq<char>) -> BackendModel {
    BackendModel { bearer_token: Some(token), ..b }
}

pub open spec fn with_time(b: BackendModel, timeout_ms: u64) -> BackendModel {
    BackendModel { timeout_ms, ..b }
}

impl HttpToolGatewayBackend {
    pub fn new(endpoint: &str) -> (r: HttpToolGatewayBackend)
        ensures
            r@ == plain_backend(endpoint@),
    {
        HttpToolGatewayBackend {
            endpoint: endpoint.to_string(),
            bearer_token: None,
            timeout_ms: DEFAULT_HTTP_TIMEOUT_MS,
        }
    }

    pub fn with_bearer_token(self, bearer_token: &str) -> (r: HttpToolGatewayBackend)
        ensures
            r@ == with_token(self@, bearer_token@),
    {
        let mut backend = self;
        backend.bearer_token = Some(bearer_token.to_string());
        backend
    }

    pub fn with_timeout(self, timeout_ms: u64) -> (r: HttpToolGatewayBackend)
        ensures
            r@ == with_time(self@, timeout_ms),
    {
        let mut backend = self;
        backend.timeout_ms = timeout_ms;
        backend
    }
}

/// What executes the tools of a session.
#[derive(Debug)]
pub struct ToolGateway<H> {
    pub capability_policy: ToolCapabilityPolicy,
    pub http: Option<HttpToolGatewayBackend>,
    pub registry: ToolRegistry<H>,
}

/// The tools that act on an execution environment.
pub open spec fn is_execution_tool(name: Seq<char>) -> bool {
    ||| name == "shell"@
    ||| name == "container.exec"@
    ||| name == "local_shell"@
    ||| name == "shell_command"@
    ||| name == "exec_command"@
    ||| name == "apply_patch"@
    ||| name == "read_file"@
    ||| name == "list_dir"@
    ||| name == "grep_files"@
}

pub fn uses_execution_gateway_tool(tool_name: &str) -> (r: bool)
    ensures
        r == is_execution_tool(tool_name@),
{
    same_text(tool_name, "shell") || same_text(tool_name, "container.exec") || same_text(
        tool_name,
        "local_shell",
    ) || same_text(tool_name, "shell_command") || same_text(tool_name, "exec_command")
        || same_text(tool_name, "apply_patch") || same_text(tool_name, "read_file") || same_text(
        tool_name,
        "list_dir",
    ) || same_text(tool_name, "grep_files")
}

/// What a call is handed to.
#[derive(Clone, Copy, Debug, Eq, PartialEq, Structural)]
pub enum ToolRoute {
    Registry,
    Gateway,
}

/// The backend that the environment sets: an address that is not blank, a token
/// that is not blank, and a number of milliseconds.
pub open spec fn configured_backend(
    endpoint: Option<Seq<char>>,
    token: Option<Seq<char>>,
    timeout_ms: Option<Seq<char>>,
) -> Option<BackendModel> {
    match endpoint {
        Some(e) => if blank(e) {
            None
        } else {
            Some(
                BackendModel {
                    endpoint: trim(e),
                    bearer_token: match token {
                        Some(t) => if blank(t) {
                            None
                        } else {
                            Some(t)
                        },
                        None => None,
                    },
                    timeout_ms: match timeout_ms {
                        Some(t) => match number_in(t) {
                            Some(n) => if n <= u64::MAX {
                                n as u64
                            } else {
                                DEFAULT_HTTP_TIMEOUT_MS
                            },
                            None => DEFAULT_HTTP_TIMEOUT_MS,
                        },
                        None => DEFAULT_HTTP_TIMEOUT_MS,
                    },
                },
            )
        },
        None => None,
    }
}

pub open spec fn backend_model(b: Option<HttpToolGatewayBackend>) -> Option<BackendModel> {
    match b {
        Some(b) => Some(b@),
        None => None,
    }
}

/// Whether a call goes there, or is denied.
pub open spec fn routes(
    r: Result<ToolRoute, FunctionCallError>,
    policy: PolicyModel,
    has_gateway: bool,
    tool_name: Seq<char>,
) -> bool {
    if !allows(policy, tool_name) {
        r matches Err(e) && tells_model(e, denial(tool_name))
    } else if has_gateway && is_execution_tool(tool_name) {
        r == Ok::<_, FunctionCallError>(ToolRoute::Gateway)
    } else {
        r == Ok::<_, FunctionCallError>(ToolRoute::Registry)
    }
}

impl<H: ToolHandler> ToolGateway<H> {
    /// A gateway that allows every tool and hands all calls to the registry.
    pub fn new(registry: ToolRegistry<H>) -> (r: ToolGateway<H>)
        ensures
            r.capability_policy@ == (PolicyModel { allow_all: true, allowed: Seq::empty() }),
            r.http is None,
            r.registry == registry,
    {
        ToolGateway::with_capability_policy(registry, ToolCapabilityPolicy::allow_all())
    }

    /// The gateway that the values of the environment set.
    pub fn from_env_values(
        registry: ToolRegistry<H>,
        endpoint: Option<&str>,
        bearer_token: Option<&str>,
        timeout_ms: Option<&str>,
    ) -> (r: ToolGateway<H>)
        ensures
            r.capability_policy@ == (PolicyModel { allow_all: true, allowed: Seq::empty() }),
            backend_model(r.http) == configured_backend(
                opt_str(endpoint),
                opt_str(bearer_token),
                opt_str(timeout_ms),
            ),
            r.registry == registry,
    {
        let address = match endpoint {
            Some(e) => e,
            None => {
                return ToolGateway::new(registry);
            },
        };
        if is_blank(address) {
            return ToolGateway::new(registry);
        }
        let mut backend = HttpToolGatewayBackend::new(trimmed(address));
        if let Some(token) = bearer_token {
            if !is_blank(token) {
                backend = backend.with_bearer_token(token);
            }
        }
        if let Some(text) = timeout_ms {
            if let Some(ms) = parse_u64(text) {
                backend = backend.with_timeout(ms);
            }
        }
        ToolGateway::with_http_backend(registry, ToolCapabilityPolicy::allow_all(), backend)
    }

    pub fn with_capability_policy(
        registry: ToolRegistry<H>,
        capability_policy: ToolCapabilityPolicy,
    ) -> (r: ToolGateway<H>)
        ensures
            r.capability_policy == capability_policy,
            r.http is None,
            r.registry == registry,
    {
        ToolGateway { capability_policy, http: None, registry }
    }

    pub fn with_http_backend(
        registry: ToolRegistry<H>,
        capability_policy: ToolCapabilityPolicy,
        backend: HttpToolGatewayBackend,
    ) -> (r: ToolGateway<H>)
        ensures
            r.capability_policy == capability_policy,
            r.http == Some(backend),
            r.registry == registry,
    {
        ToolGateway { capability_policy, http: Some(backend), registry }
    }

    /// What a call is handed to, if the policy allows it at all: the gateway, if
    /// there is one and the tool acts on an execution environment; the registry
    /// otherwise.
    pub fn route(&self, tool_name: &str) -> (r: Result<ToolRoute, FunctionCallError>)
        ensures
            routes(r, self.capability_policy@, self.http is Some, tool_name@),
    {
        match self.capability_policy.check(tool_name) {
            GatewayDecision::Denied { reason } => {
                return Err(FunctionCallError::RespondToModel(reason));
            },
            GatewayDecision::Allowed => {},
        }
        if self.http.is_some() && uses_execution_gateway_tool(tool_name) {
            Ok(ToolRoute::Gateway)
        } else {
            Ok(ToolRoute::Registry)
        }
    }
}

// ---------------------------------------------------------------------------
// What the gateway is asked
// ---------------------------------------------------------------------------

#[derive(Clone, Debug, Eq, PartialEq)]
pub enum GatewayToolPayload {
    Function { arguments: String },
    Custom { input: String },
    LocalShell {
        command: Vec<String>,
        workdir: Option<String>,
        timeout_ms: Option<u64>,
        sandbox_permissions: Option<String>,
        prefix_rule: Option<Vec<String>>,
        justification: Option<String>,
    },
    Mcp { server: String, tool: String, raw_arguments: String },
}

pub open spec fn permissions_text(p: SandboxPermissions) -> Seq<char> {
    match p {
        SandboxPermissions::UseDefault => "UseDefault"@,
        SandboxPermissions::RequireEscalated => "RequireEscalated"@,
    }
}

pub open spec fn opt_texts(v: Option<Vec<String>>) -> Option<Seq<Seq<char>>> {
    match v {
        Some(v) => Some(texts(v@)),
        None => None,
    }
}

/// Whether the gateway is told what the tool was called with.
pub open spec fn tells_gateway(g: GatewayToolPayload, p: ToolPayload) -> bool {
    match p {
        ToolPayload::Function { arguments } => g matches GatewayToolPayload::Function {
            arguments: a,
        } && a@ == arguments@,
        ToolPayload::Custom { input } => g matches GatewayToolPayload::Custom { input: i } && i@
            == input@,
        ToolPayload::LocalShell { params } => g matches GatewayToolPayload::LocalShell {
            command,
            workdir,
            timeout_ms,
            sandbox_permissions,
            prefix_rule,
            justification,
        } && texts(command@) == texts(params.command@) && opt_text(workdir) == opt_text(
            params.workdir,
        ) && timeout_ms == params.timeout_ms && opt_text(sandbox_permissions) == (
        match params.sandbox_permissions {
            Some(s) => Some(permissions_text(s)),
            None => None,
        }) && opt_texts(prefix_rule) == opt_texts(params.prefix_rule) && opt_text(justification)
            == opt_text(params.justification),
        ToolPayload::Mcp { server, tool, raw_arguments } => g matches GatewayToolPayload::Mcp {
            server: s,
            tool: t,
            raw_arguments: a,
        } && s@ == server@ && t@ == tool@ && a@ == raw_arguments@,
    }
}

impl GatewayToolPayload {
    pub fn from_tool_payload(payload: &ToolPayload) -> (r: GatewayToolPayload)
        ensures
            tells_gateway(r, *payload),
    {
        match payload {
            ToolPayload::Function { arguments } => GatewayToolPayload::Function {
                arguments: arguments.clone(),
            },
            ToolPayload::Custom { input } => GatewayToolPayload::Custom { input: input.clone() },
            ToolPayload::LocalShell { params } => {
                let copied = params.copy();
                let sandbox_permissions = match params.sandbox_permissions {
                    Some(SandboxPermissions::UseDefault) => Some("UseDefault".to_string()),
                    Some(SandboxPermissions::RequireEscalated) => Some(
                        "RequireEscalated".to_string(),
                    ),
                    None => None,
                };
                GatewayToolPayload::LocalShell {
                    command: copied.command,
                    workdir: copied.workdir,
                    timeout_ms: copied.timeout_ms,
                    sandbox_permissions,
                    prefix_rule: copied.prefix_rule,
                    justification: copied.justification,
                }
            },
            ToolPayload::Mcp { server, tool, raw_arguments } => GatewayToolPayload::Mcp {
                server: server.clone(),
                tool: tool.clone(),
                raw_arguments: raw_arguments.clone(),
            },
        }
    }
}

#[derive(Clone, Debug, Eq, PartialEq)]
pub struct GatewayToolRequest {
    pub session_id: String,
    pub turn_id: String,
    pub cwd: String,
    pub company_id: Option<String>,
    pub project_id: Option<String>,
    pub agent_id: Option<String>,
    pub call_id: String,
    pub tool_name: String,
    pub payload: GatewayToolPayload,
}

/// A call of a tool, and the session it comes from.
#[derive(Debug)]
pub struct ToolInvocation {
    pub conversation_id: ThreadId,
    pub session_source: SessionSource,
    pub turn_id: String,
    pub cwd: String,
    pub call_id: String,
    pub tool_name: String,
    pub payload: ToolPayload,
}

/// A setting that says something.
pub open spec fn scope_value(value: Option<Seq<char>>) -> Option<Seq<char>> {
    match value {
        Some(v) => if blank(v) {
            None
        } else {
            Some(trim(v))
        },
        None => None,
    }
}

pub fn env_scope_value(value: Option<&str>) -> (r: Option<String>)
    ensures
        opt_text(r) == scope_value(opt_str(value)),
{
    match value {
        Some(v) => if is_blank(v) {
            None
        } else {
            Some(trimmed(v).to_string())
        },
        None => None,
    }
}

/// The project that a working directory stands for: the name it ends in.
pub fn project_id_from_cwd(cwd: &str) -> (r: Option<String>)
    ensures
        opt_text(r) == scope_value(file_name(cwd@)),
{
    match path_file_name(cwd) {
        Some(name) => env_scope_value(Some(name.as_str())),
        None => None,
    }
}

/// The agent that a call comes from: the name that its thread was spawned under,
/// or else the name it goes by, or else that of the root agent.
pub open spec fn calling_agent(i: ToolInvocation, names: AgentNames) -> Seq<char> {
    let known = match names.name_of(i.conversation_id) {
        Some(name) => name,
        None => PRIMARY_AGENT_NAME@,
    };
    match i.session_source {
        SessionSource::SubAgent(
            SubAgentSource::ThreadSpawn { agent_name_hint: Some(hint), .. },
        ) => if blank(hint@) {
            known
        } else {
            trim(hint@)
        },
        _ => known,
    }
}

pub fn agent_id_for_invocation(invocation: &ToolInvocation, names: &AgentNames) -> (r: String)
    ensures
        r@ == calling_agent(*invocation, *names),
{
    if let SessionSource::SubAgent(
        SubAgentSource::ThreadSpawn { agent_name_hint: Some(hint), .. },
    ) = &invocation.session_source {
        if !is_blank(hint.as_str()) {
            return trimmed(hint.as_str()).to_string();
        }
    }
    match names.agent_name_for_thread(invocation.conversation_id) {
        Some(name) => name,
        None => PRIMARY_AGENT_NAME.to_string(),
    }
}

/// The scope that the environment sets for all requests.
#[derive(Clone, Debug, Eq, PartialEq)]
pub struct GatewayScope {
    pub company_id: Option<String>,
    pub project_id: Option<String>,
}

/// Whether the request asks for the call. The project is that of the
/// environment, or else that of the working directory.
pub open spec fn asks_for(
    r: GatewayToolRequest,
    i: ToolInvocation,
    names: AgentNames,
    scope: GatewayScope,
    execution_gateway: bool,
) -> bool {
    &&& r.session_id@ == thread_text(i.conversation_id)
    &&& r.turn_id@ == i.turn_id@
    &&& r.cwd@ == shown_cwd(i.cwd@, execution_gateway)
    &&& opt_text(r.company_id) == scope_value(opt_text(scope.company_id))
    &&& opt_text(r.project_id) == (match scope_value(opt_text(scope.project_id)) {
        Some(p) => Some(p),
        None => scope_value(file_name(i.cwd@)),
    })
    &&& opt_text(r.agent_id) == Some(calling_agent(i, names))
    &&& r.call_id@ == i.call_id@
    &&& r.tool_name@ == i.tool_name@
    &&& tells_gateway(r.payload, i.payload)
}

fn scoped(value: &Option<String>) -> (r: Option<String>)
    ensures
        opt_text(r) == scope_value(opt_text(*value)),
{
    match value {
        Some(v) => env_scope_value(Some(v.as_str())),
        None => None,
    }
}

impl GatewayToolRequest {
    /// The request for a call.
    pub fn from_invocation(
        invocation: &ToolInvocation,
        names: &AgentNames,
        scope: &GatewayScope,
        execution_gateway: bool,
    ) -> (r: GatewayToolRequest)
        ensures
            asks_for(r, *invocation, *names, *scope, execution_gateway),
    {
        let project_id = match scoped(&scope.project_id) {
            Some(p) => Some(p),
            None => project_id_from_cwd(invocation.cwd.as_str()),
        };
        GatewayToolRequest {
            session_id: invocation.conversation_id.to_text(),
            turn_id: invocation.turn_id.clone(),
            cwd: prompt_cwd_for_gateway(invocation.cwd.as_str(), execution_gateway),
            company_id: scoped(&scope.company_id),
            project_id,
            agent_id: Some(agent_id_for_invocation(invocation, names)),
            call_id: invocation.call_id.clone(),
            tool_name: invocation.tool_name.clone(),
            payload: GatewayToolPayload::from_tool_payload(&invocation.payload),
        }
    }
}

// ---------------------------------------------------------------------------
// What the gateway answers
// ---------------------------------------------------------------------------

/// An answer of the gateway. The result of an MCP tool is carried as it is
/// written.
#[derive(Debug, PartialEq, Eq)]
pub enum GatewayToolResponse {
    Function { output: FunctionOutput, call_id: Option<String> },
    Custom { output: String, call_id: Option<String> },
    Mcp { result: Result<String, String>, call_id: Option<String> },
    Error { message: String },
}

/// What the model is given back for a call.
#[derive(Debug, PartialEq, Eq)]
pub enum ResponseInputItem {
    FunctionCallOutput { call_id: String, output: FunctionOutput },
    CustomToolCallOutput { call_id: String, output: String },
    McpToolCallOutput { call_id: String, result: Result<String, String> },
}

pub open spec fn call_of(call_id: Option<String>, fallback: Seq<char>) -> Seq<char> {
    match call_id {
        Some(id) => id@,
        None => fallback,
    }
}

/// Whether the model is given what the gateway answered.
pub open spec fn gives_back(
    r: Result<ResponseInputItem, FunctionCallError>,
    answer: GatewayToolResponse,
    fallback: Seq<char>,
) -> bool {
    match answer {
        GatewayToolResponse::Function { output, call_id } => r matches Ok(
            ResponseInputItem::FunctionCallOutput { call_id: c, output: o },
        ) && c@ == call_of(call_id, fallback) && o == output,
        GatewayToolResponse::Custom { output, call_id } => r matches Ok(
            ResponseInputItem::CustomToolCallOutput { call_id: c, output: o },
        ) && c@ == call_of(call_id, fallback) && o == output,
        GatewayToolResponse::Mcp { result, call_id } => r matches Ok(
            ResponseInputItem::McpToolCallOutput { call_id: c, result: s },
        ) && c@ == call_of(call_id, fallback) && s == result,
        GatewayToolResponse::Error { message } => r matches Err(e) && tells_model(e, message@),
    }
}

fn call_or(call_id: Option<String>, fallback: &str) -> (r: String)
    ensures
        r@ == call_of(call_id, fallback@),
{
    match call_id {
        Some(id) => id,
        None => fallback.to_string(),
    }
}

impl Clone for GatewayToolResponse {
    fn clone(&self) -> (r: GatewayToolResponse)
        ensures
            r == *self,
    {
        self.copy()
    }
}

impl GatewayToolResponse {
    pub fn copy(&self) -> (r: GatewayToolResponse)
        ensures
            r == *self,
    {
        match self {
            GatewayToolResponse::Function { output, call_id } => GatewayToolResponse::Function {
                output: FunctionOutput { text: output.text.clone(), success: output.success },
                call_id: copy_opt(call_id),
            },
            GatewayToolResponse::Custom { output, call_id } => GatewayToolResponse::Custom {
                output: output.clone(),
                call_id: copy_opt(call_id),
            },
            GatewayToolResponse::Mcp { result, call_id } => GatewayToolResponse::Mcp {
                result: match result {
                    Ok(t) => Ok(t.clone()),
                    Err(t) => Err(t.clone()),
                },
                call_id: copy_opt(call_id),
            },
            GatewayToolResponse::Error { message } => GatewayToolResponse::Error {
                message: message.clone(),
            },
        }
    }

    pub fn into_response_input_item(self, fallback_call_id: &str) -> (r: Result<
        ResponseInputItem,
        FunctionCallError,
    >)
        ensures
            gives_back(r, self, fallback_call_id@),
    {
        match self {
            GatewayToolResponse::Function { output, call_id } => Ok(
                ResponseInputItem::FunctionCallOutput {
                    call_id: call_or(call_id, fallback_call_id),
                    output,
                },
            ),
            GatewayToolResponse::Custom { output, call_id } => Ok(
                ResponseInputItem::CustomToolCallOutput {
                    call_id: call_or(call_id, fallback_call_id),
                    output,
                },
            ),
            GatewayToolResponse::Mcp { result, call_id } => Ok(
                ResponseInputItem::McpToolCallOutput {
                    call_id: call_or(call_id, fallback_call_id),
                    result,
                },
            ),
            GatewayToolResponse::Error { message } => Err(
                FunctionCallError::RespondToModel(message),
            ),
        }
    }
}

/// What came back from the gateway.
#[derive(Debug)]
pub enum GatewayReply {
    /// The request could not be sent.
    NotSent { error: String },
    /// The answer could not be read.
    NotRead { error: String },
    /// A status that says that the request failed.
    Refused { status: String, body: String },
    /// An answer, or why it is none.
    Answered(Result<GatewayToolResponse, String>),
}

/// What the model is told where there is no answer.
pub open spec fn reply_failure(reply: GatewayReply) -> Option<Seq<char>> {
    match reply {
        GatewayReply::NotSent { error } => Some("middleware gateway request failed: "@ + error@),
        GatewayReply::NotRead { error } => Some(
            "middleware gateway response read failed: "@ + error@,
        ),
        GatewayReply::Refused { status, body } => Some(
            "middleware gateway returned HTTP "@ + status@ + ": "@ + body@,
        ),
        GatewayReply::Answered(Err(error)) => Some(
            "middleware gateway response was invalid JSON: "@ + error@,
        ),
        GatewayReply::Answered(Ok(_)) => None,
    }
}

fn tell(start: &str, rest: &str) -> (r: FunctionCallError)
    ensures
        tells_model(r, start@ + rest@),
{
    let mut out = start.to_string();
    out.append(rest);
    FunctionCallError::RespondToModel(out)
}

/// Whether this is given back for what came from the gateway.
pub open spec fn ends_call(
    r: Result<ResponseInputItem, FunctionCallError>,
    reply: GatewayReply,
    call_id: Seq<char>,
) -> bool {
    match reply_failure(reply) {
        Some(message) => r matches Err(e) && tells_model(e, message),
        None => reply matches GatewayReply::Answered(Ok(answer)) && gives_back(r, answer, call_id),
    }
}

/// What the model is given back for what came from the gateway.
pub fn finish_gateway_call(reply: GatewayReply, call_id: &str) -> (r: Result<
    ResponseInputItem,
    FunctionCallError,
>)
    ensures
        ends_call(r, reply, call_id@),
{
    match reply {
        GatewayReply::NotSent { error } => Err(
            tell("middleware gateway request failed: ", error.as_str()),
        ),
        GatewayReply::NotRead { error } => Err(
            tell("middleware gateway response read failed: ", error.as_str()),
        ),
        GatewayReply::Refused { status, body } => {
            let mut out = "middleware gateway returned HTTP ".to_string();
            out.append(status.as_str());
            out.append(": ");
            out.append(body.as_str());
            Err(FunctionCallError::RespondToModel(out))
        },
        GatewayReply::Answered(Err(error)) => Err(
            tell("middleware gateway response was invalid JSON: ", error.as_str()),
        ),
        GatewayReply::Answered(Ok(answer)) => answer.into_response_input_item(call_id),
    }
}

// ---------------------------------------------------------------------------
// Laws
// ---------------------------------------------------------------------------

/// Behind an execution gateway no request tells the directory of the machine
/// that the agent runs on.
pub proof fn law_gateway_requests_name_the_logical_workspace(
    r: GatewayToolRequest,
    i: ToolInvocation,
    names: AgentNames,
    scope: GatewayScope,
)
    requires
        asks_for(r, i, names, scope, true),
    ensures
        r.cwd@ == crate::prompt_paths::LOGICAL_WORKSPACE_ROOT@,
{
}

/// A tool that the policy does not allow goes nowhere. Of the others, those that act
/// on an execution environment go to the gateway, if there is one, and all else stays
/// here.
pub proof fn law_denied_tools_go_nowhere(
    r: Result<ToolRoute, FunctionCallError>,
    policy: PolicyModel,
    has_gateway: bool,
    tool: Seq<char>,
)
    requires
        routes(r, policy, has_gateway, tool),
    ensures
        r is Ok <==> policy.allow_all || exists|i: int|
            0 <= i < policy.allowed.len() && #[trigger] policy.allowed[i] == tool,
        r is Ok ==> (r->Ok_0 is Gateway <==> has_gateway && (tool == "shell"@ || tool
            == "container.exec"@ || tool == "local_shell"@ || tool == "shell_command"@ || tool
            == "exec_command"@ || tool == "apply_patch"@ || tool == "read_file"@ || tool
            == "list_dir"@ || tool == "grep_files"@)),
{
}

/// The gateway is asked for just the call that was made, on behalf of the agent that
/// makes it: the one that the thread was spawned as, or the one that goes by a name,
/// or the root agent.
pub proof fn law_gateways_are_asked_for_the_call(
    r: GatewayToolRequest,
    i: ToolInvocation,
    names: AgentNames,
    scope: GatewayScope,
    execution_gateway: bool,
)
    requires
        asks_for(r, i, names, scope, execution_gateway),
    ensures
        r.session_id@ == thread_text(i.conversation_id),
        r.turn_id@ == i.turn_id@,
        r.call_id@ == i.call_id@,
        r.tool_name@ == i.tool_name@,
        execution_gateway ==> r.cwd@ == "/workspace"@,
        !execution_gateway ==> r.cwd@ == i.cwd@,
        scope.company_id is Some && !blank(scope.company_id->0@) ==> opt_text(r.company_id) == Some(
            trim(scope.company_id->0@),
        ),
        scope.company_id is None || blank(scope.company_id->0@) ==> r.company_id is None,
        scope.project_id is Some && !blank(scope.project_id->0@) ==> opt_text(r.project_id) == Some(
            trim(scope.project_id->0@),
        ),
        r.agent_id is Some,
        i.session_source is SubAgent ==> (i.session_source matches SessionSource::SubAgent(
            SubAgentSource::ThreadSpawn { agent_name_hint: Some(hint), .. },
        ) ==> !blank(hint@) ==> r.agent_id->0@ == trim(hint@)),
        !(i.session_source is SubAgent) ==> r.agent_id->0@ == (if names.name_of(i.conversation_id)
            is Some {
            names.name_of(i.conversation_id)->0
        } else {
            PRIMARY_AGENT_NAME@
        }),
        i.payload matches ToolPayload::Function { arguments } ==> r.payload is Function
            && r.payload->arguments@ == arguments@,
        i.payload matches ToolPayload::Custom { input } ==> r.payload is Custom
            && r.payload->input@ == input@,
        i.payload matches ToolPayload::LocalShell { params } ==> r.payload is LocalShell && texts(
            r.payload->command@,
        ) == texts(params.command@) && opt_text(r.payload->workdir) == opt_text(params.workdir)
            && r.payload->timeout_ms == params.timeout_ms && (params.sandbox_permissions == Some(
            SandboxPermissions::RequireEscalated,
        ) <==> opt_text(r.payload->sandbox_permissions) == Some("RequireEscalated"@)),
        i.payload is Mcp <==> r.payload is Mcp,
{
    reveal_strlit("UseDefault");
    reveal_strlit("RequireEscalated");
    assert("UseDefault"@.len() != "RequireEscalated"@.len());
}

/// What the gateway answers is given back under the id of the call, unless it names
/// one itself; a failure and an error are told, and are no results.
pub proof fn law_answers_are_given_back(
    r: Result<ResponseInputItem, FunctionCallError>,
    reply: GatewayReply,
    call_id: Seq<char>,
)
    requires
        ends_call(r, reply, call_id),
    ensures
        r is Ok <==> (reply matches GatewayReply::Answered(Ok(a)) && !(a is Error)),
        reply matches GatewayReply::Answered(Ok(GatewayToolResponse::Function { output, call_id: c }))
            ==> (r matches Ok(ResponseInputItem::FunctionCallOutput { call_id: d, output: o }) && o
            == output && (c is None ==> d@ == call_id) && (c is Some ==> d@ == c->0@)),
        reply matches GatewayReply::Answered(Ok(GatewayToolResponse::Custom { output, call_id: c }))
            ==> (r matches Ok(ResponseInputItem::CustomToolCallOutput { call_id: d, output: o }) && o
            == output && (c is None ==> d@ == call_id) && (c is Some ==> d@ == c->0@)),
        reply matches GatewayReply::Answered(Ok(GatewayToolResponse::Mcp { result, call_id: c }))
            ==> (r matches Ok(ResponseInputItem::McpToolCallOutput { call_id: d, result: o }) && o
            == result && (c is None ==> d@ == call_id) && (c is Some ==> d@ == c->0@)),
        r is Err ==> r->Err_0 is RespondToModel,
{
}

/// The environment sets a gateway just where it sets an address. A token and a time
/// are taken as they are set; without a time that is a number, the usual one holds.
pub proof fn law_environment_sets_the_gateway(
    endpoint: Option<Seq<char>>,
    token: Option<Seq<char>>,
    timeout_ms: Option<Seq<char>>,
)
    ensures
        configured_backend(endpoint, token, timeout_ms) is Some <==> endpoint is Some && !blank(
            endpoint->0,
        ),
        configured_backend(endpoint, token, timeout_ms) matches Some(b) ==> {
            &&& b.endpoint == trim(endpoint->0)
            &&& b.bearer_token is Some <==> token is Some && !blank(token->0)
            &&& b.bearer_token is Some ==> b.bearer_token == token
            &&& timeout_ms is None ==> b.timeout_ms == 30000
            &&& timeout_ms matches Some(t) ==> match number_in(t) {
                Some(n) => n <= u64::MAX ==> b.timeout_ms == n,
                None => b.timeout_ms == 30000,
            }
        },
{
}

/// A gateway is told all that a tool was called with, in the form of the call.
pub proof fn law_gateways_are_told_the_whole_call(g: GatewayToolPayload, p: ToolPayload)
    requires
        tells_gateway(g, p),
    ensures
        p matches ToolPayload::Function { arguments } ==> (g matches GatewayToolPayload::Function {
            arguments: a,
        } && a@ == arguments@),
        p matches ToolPayload::Custom { input } ==> (g matches GatewayToolPayload::Custom {
            input: i,
        } && i@ == input@),
        p matches ToolPayload::Mcp { server, tool, raw_arguments } ==> (
        g matches GatewayToolPayload::Mcp { server: s, tool: t, raw_arguments: a } && s@ == server@
            && t@ == tool@ && a@ == raw_arguments@),
        p matches ToolPayload::LocalShell { params } ==> (g matches GatewayToolPayload::LocalShell {
            command,
            workdir,
            timeout_ms,
            sandbox_permissions,
            prefix_rule,
            justification,
        } && texts(command@) == texts(params.command@) && opt_text(workdir) == opt_text(
            params.workdir,
        ) && timeout_ms == params.timeout_ms && (sandbox_permissions is None
            <==> params.sandbox_permissions is None) && (params.sandbox_permissions == Some(
            SandboxPermissions::RequireEscalated,
        ) ==> sandbox_permissions->0@ == "RequireEscalated"@) && opt_text(justification) == opt_text(
            params.justification,
        )),
{
}

/// An answer of a gateway is given back for its call: the one that it names, or else
/// the one that was made. An error is told to the model.
pub proof fn law_gateway_answers_keep_their_form(
    r: Result<ResponseInputItem, FunctionCallError>,
    answer: GatewayToolResponse,
    fallback: Seq<char>,
)
    requires
        gives_back(r, answer, fallback),
    ensures
        answer matches GatewayToolResponse::Error { message } ==> (r matches Err(
            FunctionCallError::RespondToModel(m),
        ) && m@ == message@),
        !(answer is Error) ==> r is Ok,
        answer matches GatewayToolResponse::Function { output, call_id } ==> (r matches Ok(
            ResponseInputItem::FunctionCallOutput { call_id: c, output: o },
        ) && o == output && (call_id is Some ==> c@ == call_id->0@) && (call_id is None ==> c@
            == fallback)),
        answer matches GatewayToolResponse::Custom { output, call_id } ==> (r matches Ok(
            ResponseInputItem::CustomToolCallOutput { call_id: c, output: o },
        ) && o == output && (call_id is Some ==> c@ == call_id->0@) && (call_id is None ==> c@
            == fallback)),
        answer matches GatewayToolResponse::Mcp { result, call_id } ==> (r matches Ok(
            ResponseInputItem::McpToolCallOutput { call_id: c, result: s },
        ) && s == result && (call_id is Some ==> c@ == call_id->0@) && (call_id is None ==> c@
            == fallback)),
{
}

/// The tools that run commands or touch files are those of the gateway, and no other
/// is.
pub proof fn law_which_tools_execute(name: Seq<char>)
    ensures
        is_execution_tool(name) <==> seq![
            "shell"@,
            "container.exec"@,
            "local_shell"@,
            "shell_command"@,
            "exec_command"@,
            "apply_patch"@,
            "read_file"@,
            "list_dir"@,
            "grep_files"@,
        ].contains(name),
{
    let s = seq![
        "shell"@,
        "container.exec"@,
        "local_shell"@,
        "shell_command"@,
        "exec_command"@,
        "apply_patch"@,
        "read_file"@,
        "list_dir"@,
        "grep_files"@,
    ];
    if is_execution_tool(name) {
        assert(s[0] == name || s[1] == name || s[2] == name || s[3] == name || s[4] == name || s[5]
            == name || s[6] == name || s[7] == name || s[8] == name);
    }
    if s.contains(name) {
        let i = s.index_of(name);
        assert(s[i] == name);
    }
}

/// A scope is what is named, without the white space around it; a blank name is none.
pub proof fn law_scopes_are_named(value: Option<Seq<char>>)
    ensures
        value is None || blank(value->0) ==> scope_value(value) is None,
        value is Some && !blank(value->0) ==> scope_value(value) == Some(trim(value->0)),
{
}

/// A backend is at the address that it was made for, and asks for no token until one is
/// set; what is set stays set.
pub proof fn law_backends_keep_their_settings(endpoint: Seq<char>, token: Seq<char>, ms: u64)
    ensures
        plain_backend(endpoint).endpoint == endpoint,
        plain_backend(endpoint).bearer_token is None,
        ({
            let b = with_time(with_token(plain_backend(endpoint), token), ms);
            let c = with_token(with_time(plain_backend(endpoint), ms), token);
            &&& b == c
            &&& b.endpoint == endpoint
            &&& b.bearer_token == Some(token)
            &&& b.timeout_ms == ms
        }),
        with_token(plain_backend(endpoint), token).timeout_ms == plain_backend(endpoint).timeout_ms,
{
}

} // verus!
