use codex_core::ids::ThreadId;
use codex_core::json::{JsonField, JsonObject};
use codex_core::protocol::{
    AgentNames, FunctionCallError, FunctionOutput, SandboxPermissions, SessionSource, ShellParams,
    SpawnedAgentType, SubAgentSource, ToolPayload, PRIMARY_AGENT_NAME,
};
use codex_core::office::tools::ToolCapabilityPolicy;
use codex_core::table::Table;
use codex_core::tools::gateway::{
    agent_id_for_invocation, env_scope_value, finish_gateway_call, project_id_from_cwd,
    uses_execution_gateway_tool, GatewayReply, GatewayScope, GatewayToolPayload,
    GatewayToolRequest, GatewayToolResponse, HttpToolGatewayBackend, ResponseInputItem,
    ToolGateway, ToolInvocation, ToolRoute, DEFAULT_HTTP_TIMEOUT_MS,
};
use codex_core::tools::handlers::call::CallHandler;
use codex_core::tools::handlers::wait::WaitHandler;
use codex_core::tools::registry::{
    add_required_summary_parameter, after_tool_use_event, capture_work_summary_and_strip_payload,
    ensure_current_agent_has_name, hook_tool_input, hook_tool_kind, metric_tags,
    is_kind_of, parse_summary_and_strip, sandbox_policy_tag, summary_argument,
    work_summary_event, ConfiguredToolSpec, HookToolKind, JsonSchema, ResponsesApiTool,
    SandboxPolicy, ToolHandler, ToolKind, ToolRegistry, ToolRegistryBuilder, ToolSpec, ToolUse,
    TOOL_SUMMARY_ARGUMENT, TOOL_SUMMARY_MAX_CHARS,
};

fn names(entries: Vec<(ThreadId, &str)>) -> AgentNames {
    AgentNames {
        entries: entries.into_iter().map(|(id, name)| (id, name.to_string())).collect(),
        unnamed: "unnamed".to_string(),
    }
}

fn function(arguments: &str) -> ToolPayload {
    ToolPayload::Function { arguments: arguments.to_string() }
}

#[test]
fn parse_summary_and_strip_removes_summary_and_trims_text() {
    let (summary, stripped) =
        parse_summary_and_strip(r#"{"summary":"  working on tests  ","path":"src/main.rs"}"#)
            .expect("summary should parse");

    assert_eq!(summary, "working on tests");
    assert_eq!(stripped, r#"{"path":"src/main.rs"}"#);
}

#[test]
fn parse_summary_and_strip_rejects_missing_summary() {
    let err = parse_summary_and_strip(r#"{"path":"src/main.rs"}"#)
        .expect_err("missing summary should fail");
    assert_eq!(err, FunctionCallError::RespondToModel("summary is required".to_string()));
}

#[test]
fn parse_summary_and_strip_rejects_blank_summary() {
    let err = parse_summary_and_strip(r#"{"summary":"   "}"#).expect_err("blank summary should fail");
    assert_eq!(err, FunctionCallError::RespondToModel("summary must be non-empty".to_string()));
}

#[test]
fn parse_summary_and_strip_rejects_over_limit_summary() {
    let summary = "a".repeat(TOOL_SUMMARY_MAX_CHARS + 1);
    let mut map = serde_json::Map::new();
    map.insert("summary".to_string(), summary.into());
    map.insert("path".to_string(), "src/main.rs".into());
    let arguments = serde_json::Value::Object(map).to_string();

    let err = parse_summary_and_strip(&arguments).expect_err("over-limit summary should fail");
    assert_eq!(
        err,
        FunctionCallError::RespondToModel(format!(
            "summary is too long (max {} characters)",
            TOOL_SUMMARY_MAX_CHARS
        ))
    );
}

#[test]
fn parse_summary_and_strip_keeps_nested_fields() {
    let (_, stripped) =
        parse_summary_and_strip(r#"{"b":[1,2.5,null],"summary":"x","a":{"t":true,"s":"é\n"}}"#)
            .expect("summary should parse");
    assert_eq!(stripped, "{\"a\":{\"s\":\"\u{e9}\\n\",\"t\":true},\"b\":[1,2.5,null]}");
    assert!(parse_summary_and_strip("[]").is_err());
    assert!(parse_summary_and_strip("{").is_err());
}

#[test]
fn add_required_summary_parameter_marks_summary_required() {
    let spec = ToolSpec::Function(ResponsesApiTool {
        name: "demo".to_string(),
        description: "demo".to_string(),
        strict: false,
        parameters: JsonSchema::Object {
            properties: Table::new(),
            required: None,
            additional_properties: None,
        },
    });

    let ToolSpec::Function(updated) = add_required_summary_parameter(spec) else {
        panic!("expected function tool");
    };
    let JsonSchema::Object { properties, required, .. } = updated.parameters else {
        panic!("expected object schema");
    };

    assert!(properties.contains_key(TOOL_SUMMARY_ARGUMENT));
    assert_eq!(required, Some(vec![TOOL_SUMMARY_ARGUMENT.to_string()]));
}

#[test]
fn capture_work_summary_records_current_agent_and_strips_payload_summary() {
    let call = capture_work_summary_and_strip_payload(function(
        r#"{"summary":"searching docs","command":"Get-ChildItem"}"#,
    ))
    .expect("capture should succeed");
    assert_eq!(call.payload, function(r#"{"command":"Get-ChildItem"}"#));
    assert_eq!(call.summary.as_deref(), Some("searching docs"));

    let root = ThreadId { value: 1 };
    let none = names(Vec::new());
    assert_eq!(
        ensure_current_agent_has_name(&none, root, &SessionSource::Cli),
        Some(PRIMARY_AGENT_NAME)
    );
    let known = names(vec![(root, PRIMARY_AGENT_NAME)]);
    assert_eq!(ensure_current_agent_has_name(&known, root, &SessionSource::Cli), None);
    let event = work_summary_event(&known, root, "searching docs".to_string());
    assert_eq!(event.agent_name, PRIMARY_AGENT_NAME);
    assert_eq!(event.summary, "searching docs");
}

#[test]
fn registries_hold_what_was_registered() {
    let mut builder: ToolRegistryBuilder<CallHandler> = ToolRegistryBuilder::new();
    builder.push_spec(ToolSpec::Other { json: "{}".to_string() });
    assert!(builder.register_handler("call", CallHandler).is_none());
    assert!(builder.register_handler("call", CallHandler).is_some());
    let (specs, registry) = builder.build();
    assert_eq!(specs.len(), 1);
    assert!(!specs[0].supports_parallel_tool_calls);
    assert!(registry.handler("call").is_some());
    assert!(registry.handler("wait").is_none());
    let call = registry
        .dispatch("call", function(r#"{"summary":"s","x":1}"#))
        .expect("known tool");
    assert_eq!(call.payload, function(r#"{"x":1}"#));
    assert!(ConfiguredToolSpec::new(ToolSpec::Other { json: "{}".to_string() }, true)
        .supports_parallel_tool_calls);
}

#[test]
fn handlers_take_functions_only() {
    assert!(WaitHandler.matches_kind(&function("{}")));
    assert!(!WaitHandler.matches_kind(&ToolPayload::Custom { input: "x".to_string() }));
}

struct CustomHandler;

impl ToolHandler for CustomHandler {
    fn tool_kind(&self) -> ToolKind {
        ToolKind::Function
    }

    fn takes(&self, payload: ToolPayload) -> bool {
        matches!(payload, ToolPayload::Custom { .. } | ToolPayload::Function { .. })
    }

    fn kind(&self) -> ToolKind {
        self.tool_kind()
    }

    fn matches_kind(&self, payload: &ToolPayload) -> bool {
        matches!(payload, ToolPayload::Custom { .. }) || is_kind_of(self.kind(), payload)
    }
}

#[test]
fn handlers_say_what_they_take() {
    let mut builder: ToolRegistryBuilder<CustomHandler> = ToolRegistryBuilder::new();
    builder.register_handler("apply_patch", CustomHandler);
    let (_, registry) = builder.build();
    let custom = ToolPayload::Custom { input: "*** Begin Patch".to_string() };
    let call = registry.dispatch("apply_patch", custom.clone()).expect("custom payloads are taken");
    assert_eq!(call.payload, custom);
    assert_eq!(call.summary, None);
    let mcp = ToolPayload::Mcp {
        server: "docs".to_string(),
        tool: "find".to_string(),
        raw_arguments: r#"{"summary":"s"}"#.to_string(),
    };
    assert_eq!(
        registry.dispatch("apply_patch", mcp).expect_err("others are not"),
        FunctionCallError::Fatal("tool apply_patch invoked with incompatible payload".to_string())
    );
    assert!(is_kind_of(ToolKind::Function, &function("{}")));
    assert!(!is_kind_of(ToolKind::Mcp, &function("{}")));
    assert!(!is_kind_of(ToolKind::Function, &custom));
}

#[test]
fn stripping_a_summary_changes_no_other_argument() {
    for number in ["0.1", "2.5", "1e300", "17976931348623157e292", "0.30000000000000004",
        "9007199254740993", "123456789.12345678901", "-4.9406564584124654e-324"]
    {
        let arguments = format!("{{\"n\":{number},\"summary\":\"s\",\"a\":[{number}]}}");
        let mut expected: serde_json::Map<String, serde_json::Value> =
            serde_json::from_str(&arguments).expect("object");
        expected.remove("summary");
        let (_, stripped) = parse_summary_and_strip(&arguments).expect("summary should parse");
        assert_eq!(stripped, serde_json::Value::Object(expected).to_string());
    }
}

#[test]
fn arguments_that_begin_with_raw_json_are_printed_as_they_are() {
    let raw = r#"{"$serde_json::private::RawValue":"{\"summary\":\"y\"}"}"#;
    let arguments = format!("{{\"summary\":\"x\",{}", &raw[1..]);
    let (summary, stripped) = parse_summary_and_strip(&arguments).expect("summary should parse");
    assert_eq!(summary, "x");
    assert_eq!(stripped, raw);
    assert_eq!(
        parse_summary_and_strip(&stripped).expect("the raw JSON is read"),
        ("y".to_string(), "{}".to_string())
    );
    let list = r#"{"summary":"x","$serde_json::private::RawValue":"[]"}"#;
    let (_, stripped) = parse_summary_and_strip(list).expect("summary should parse");
    assert_eq!(stripped, r#"{"$serde_json::private::RawValue":"[]"}"#);
    assert!(parse_summary_and_strip(&stripped).is_err());
}

#[test]
fn summaries_have_to_be_texts() {
    let with = |field: JsonField| {
        summary_argument(&JsonObject { fields: vec![(TOOL_SUMMARY_ARGUMENT.to_string(), field)] })
    };
    assert_eq!(with(JsonField::Text(" tidy up ".to_string())), Ok("tidy up".to_string()));
    assert_eq!(
        with(JsonField::Number("5".to_string())),
        Err(FunctionCallError::RespondToModel("summary must be a string".to_string()))
    );
    assert_eq!(
        parse_summary_and_strip("[]"),
        Err(FunctionCallError::RespondToModel(
            "failed to parse function arguments: expected JSON object".to_string()
        ))
    );
}

#[test]
fn hooks_and_metrics_are_told_what_was_used() {
    assert_eq!(sandbox_policy_tag(&SandboxPolicy::ReadOnly), "read-only");
    assert_eq!(
        metric_tags("none", &SandboxPolicy::DangerFullAccess),
        vec![
            ("sandbox".to_string(), "none".to_string()),
            ("sandbox_policy".to_string(), "danger-full-access".to_string()),
        ]
    );
    let shell = ToolPayload::LocalShell {
        params: ShellParams {
            command: vec!["ls".to_string()],
            workdir: None,
            timeout_ms: Some(5),
            sandbox_permissions: Some(SandboxPermissions::UseDefault),
            prefix_rule: None,
            justification: None,
        },
    };
    assert_eq!(hook_tool_kind(&hook_tool_input(&shell)), HookToolKind::LocalShell);
    assert_eq!(hook_tool_kind(&hook_tool_input(&function("{}"))), HookToolKind::Function);
    let event = after_tool_use_event(
        "turn-1",
        "call-1",
        "shell",
        &shell,
        ToolUse { executed: true, success: true, duration_ms: 3, mutating: true },
        "none",
        &SandboxPolicy::ReadOnly,
        "preview",
    );
    assert_eq!(event.call_id, "call-1");
    assert_eq!(event.output_preview, "preview");
}

fn empty_registry() -> ToolRegistry<CallHandler> {
    ToolRegistry::new(Table::new())
}

fn denied(err: FunctionCallError) -> String {
    err.message()
}

#[test]
fn explicit_capability_policy_denies_before_registry_dispatch() {
    let gateway = ToolGateway::with_capability_policy(
        empty_registry(),
        ToolCapabilityPolicy::default().allow("call"),
    );
    let err = gateway.route("shell").expect_err("policy should reject shell");
    assert_eq!(denied(err), "tool `shell` is not allowed for this Agent profile");
    assert_eq!(gateway.route("call"), Ok(ToolRoute::Registry));
}

#[test]
fn default_gateway_policy_preserves_registry_behavior() {
    let gateway = ToolGateway::new(empty_registry());
    assert_eq!(gateway.route("missing_tool"), Ok(ToolRoute::Registry));
    let err = gateway
        .registry
        .dispatch("missing_tool", function("{}"))
        .expect_err("registry should still report unsupported tools");
    assert_eq!(denied(err), "unsupported call: missing_tool");
}

fn invocation(tool_name: &str, call_id: &str, arguments: &str, source: SessionSource) -> ToolInvocation {
    ToolInvocation {
        conversation_id: ThreadId { value: 9 },
        session_source: source,
        turn_id: "turn-1".to_string(),
        cwd: "/repo/project".to_string(),
        call_id: call_id.to_string(),
        tool_name: tool_name.to_string(),
        payload: function(arguments),
    }
}

fn no_scope() -> GatewayScope {
    GatewayScope { company_id: None, project_id: None }
}

#[test]
fn http_backend_posts_tool_intent_and_returns_function_output() {
    let backend = HttpToolGatewayBackend::new("http://localhost/tools/dispatch")
        .with_bearer_token("secret-token")
        .with_timeout(5000);
    assert_eq!(backend.timeout_ms, 5000);
    let gateway =
        ToolGateway::with_http_backend(empty_registry(), ToolCapabilityPolicy::allow_all(), backend);
    assert_eq!(gateway.route("shell"), Ok(ToolRoute::Gateway));
    let call = invocation("shell", "http-call-1", r#"{"command":"pwd"}"#, SessionSource::Cli);
    let request = GatewayToolRequest::from_invocation(&call, &names(Vec::new()), &no_scope(), true);
    assert_eq!(request.call_id, "http-call-1");
    assert_eq!(request.tool_name, "shell");
    assert_eq!(
        request.payload,
        GatewayToolPayload::Function { arguments: r#"{"command":"pwd"}"#.to_string() }
    );
    assert_eq!(request.session_id, ThreadId { value: 9 }.to_text());
    assert_eq!(request.turn_id, "turn-1");
    assert_eq!(request.agent_id.as_deref(), Some(PRIMARY_AGENT_NAME));
    assert_eq!(request.project_id.as_deref(), Some("project"));

    let answer = GatewayToolResponse::Function {
        output: FunctionOutput { text: "gateway ok".to_string(), success: None },
        call_id: None,
    };
    match finish_gateway_call(GatewayReply::Answered(Ok(answer)), "http-call-1").expect("output") {
        ResponseInputItem::FunctionCallOutput { call_id, output } => {
            assert_eq!(call_id, "http-call-1");
            assert_eq!(output.text, "gateway ok");
        }
        other => panic!("expected function output, got {other:?}"),
    }
}

#[test]
fn http_backend_surfaces_gateway_error_response_to_model() {
    let answer = GatewayToolResponse::Error { message: "denied by middleware".to_string() };
    let err = finish_gateway_call(GatewayReply::Answered(Ok(answer)), "http-call-2")
        .expect_err("middleware error response should fail the tool call");
    assert_eq!(denied(err), "denied by middleware");
}

#[test]
fn http_backend_surfaces_http_status_to_model() {
    let reply = GatewayReply::Refused { status: "403 Forbidden".to_string(), body: "forbidden".to_string() };
    let err = denied(finish_gateway_call(reply, "http-call-3").expect_err("HTTP error should fail"));
    assert!(err.contains("middleware gateway returned HTTP 403"));
    assert!(err.contains("forbidden"));
}

#[test]
fn replies_that_are_none_are_told_to_the_model() {
    for (reply, start) in [
        (GatewayReply::NotSent { error: "e".to_string() }, "middleware gateway request failed: e"),
        (
            GatewayReply::NotRead { error: "e".to_string() },
            "middleware gateway response read failed: e",
        ),
        (GatewayReply::Answered(Err("e".to_string())), "middleware gateway"),
    ] {
        let err = denied(finish_gateway_call(reply, "c").expect_err("no answer"));
        assert!(err.starts_with(start), "{err}");
    }
}

#[test]
fn env_configured_gateway_uses_http_backend() {
    let gateway = ToolGateway::from_env_values(
        empty_registry(),
        Some(" http://localhost/tools/dispatch "),
        Some("secret-token"),
        Some("5000"),
    );
    let backend = gateway.http.as_ref().expect("backend");
    assert_eq!(backend.endpoint, "http://localhost/tools/dispatch");
    assert_eq!(backend.bearer_token.as_deref(), Some("secret-token"));
    assert_eq!(backend.timeout_ms, 5000);
    assert_eq!(gateway.route("shell"), Ok(ToolRoute::Gateway));

    let odd = ToolGateway::from_env_values(empty_registry(), Some("http://x"), Some(" "), Some("soon"));
    let backend = odd.http.expect("backend");
    assert_eq!(backend.bearer_token, None);
    assert_eq!(backend.timeout_ms, DEFAULT_HTTP_TIMEOUT_MS);
    assert!(ToolGateway::from_env_values(empty_registry(), Some("  "), None, None).http.is_none());
    assert!(ToolGateway::from_env_values(empty_registry(), None, None, None).http.is_none());
}

#[test]
fn http_backend_only_routes_execution_environment_tools() {
    for tool_name in [
        "shell",
        "container.exec",
        "local_shell",
        "shell_command",
        "exec_command",
        "apply_patch",
        "read_file",
        "list_dir",
        "grep_files",
    ] {
        assert!(uses_execution_gateway_tool(tool_name), "{tool_name} should use execution gateway");
    }

    for tool_name in [
        "call",
        "wait",
        "update_plan",
        "request_user_input",
        "list_mcp_resources",
        "read_mcp_resource",
        "spawn_agent",
        "send_input",
        "read_agent_status",
    ] {
        assert!(
            !uses_execution_gateway_tool(tool_name),
            "{tool_name} should stay in the runtime registry"
        );
    }
}

#[test]
fn http_gateway_falls_back_to_registry_for_runtime_tools() {
    let gateway = ToolGateway::with_http_backend(
        empty_registry(),
        ToolCapabilityPolicy::allow_all(),
        HttpToolGatewayBackend::new("http://localhost/tools/dispatch"),
    );
    assert_eq!(gateway.route("update_plan"), Ok(ToolRoute::Registry));
    let err = gateway
        .registry
        .dispatch("update_plan", function("{}"))
        .expect_err("empty local registry should reject runtime tool locally");
    assert_eq!(denied(err), "unsupported call: update_plan");
}

#[test]
fn http_backend_sends_logical_workspace_cwd() {
    let call = invocation("shell", "http-call-cwd", r#"{"command":["pwd"]}"#, SessionSource::Cli);
    let request = GatewayToolRequest::from_invocation(&call, &names(Vec::new()), &no_scope(), true);
    assert_eq!(request.cwd, "/workspace");
    let request = GatewayToolRequest::from_invocation(&call, &names(Vec::new()), &no_scope(), false);
    assert_eq!(request.cwd, "/repo/project");
}

#[test]
fn requests_name_the_agent_and_the_scope() {
    let source = SessionSource::SubAgent(SubAgentSource::ThreadSpawn {
        parent_thread_id: ThreadId { value: 1 },
        depth: 1,
        agent_type: Some(SpawnedAgentType::Worker),
        agent_name_hint: Some(" Wren ".to_string()),
    });
    let call = invocation("shell", "c", "{}", source);
    let known = names(vec![(ThreadId { value: 9 }, "Nine")]);
    assert_eq!(agent_id_for_invocation(&call, &known), "Wren");
    let call = invocation("shell", "c", "{}", SessionSource::Cli);
    assert_eq!(agent_id_for_invocation(&call, &known), "Nine");
    let scope = GatewayScope {
        company_id: Some(" acme ".to_string()),
        project_id: Some("  ".to_string()),
    };
    let request = GatewayToolRequest::from_invocation(&call, &known, &scope, true);
    assert_eq!(request.company_id.as_deref(), Some("acme"));
    assert_eq!(request.project_id.as_deref(), Some("project"));
    assert_eq!(env_scope_value(Some(" x ")).as_deref(), Some("x"));
    assert_eq!(env_scope_value(None), None);
    assert_eq!(project_id_from_cwd("/"), None);
}
