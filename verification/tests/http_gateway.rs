use codex_core::office::tools::ToolCapabilityPolicy;
use codex_core::protocol::{FunctionOutput, SandboxPermissions};
use codex_core::tools::gateway::{GatewayToolPayload, GatewayToolRequest, GatewayToolResponse};
use codex_core::tools::http_gateway::{
    company_container_name, container_action, container_outcome, finish_execution, gateway_error,
    sanitize_component, sanitize_scope_component, validate_command, ContainerAction,
    DockerCommandOutput, DockerCommandRequest, DockerExecCommandArgs, DockerGatewayBackend,
    DockerGrepFilesArgs, DockerListDirArgs, DockerReadFileArgs, DockerToolPlan, GatewayAnswers,
    GatewayHttpServer, InMemoryGatewayBackend, PatchAction, PatchVerification, PatchedFile,
    ShellArgs, ShellCommandArgs,
};
use codex_core::tools::scripts::{GREP_FILES_SCRIPT, LIST_DIR_SCRIPT, READ_FILE_SCRIPT};
use codex_core::tools::workspace_paths::{
    container_path, gateway_path_to_host_path, rewrite_apply_patch_absolute_paths,
    rewrite_apply_patch_paths_to_host, validate_workspace_target_path, GatewayBackendError,
    GatewayNeed, PathAnswer, Step,
};
use codex_core::table::Table;
use serde_json::Value;

const ROOT: &str = "/srv/ws";

fn request(tool_name: &str, payload: GatewayToolPayload, cwd: &str) -> GatewayToolRequest {
    scoped_request(tool_name, payload, cwd, "acme", None, "agent-a")
}

fn scoped_request(
    tool_name: &str,
    payload: GatewayToolPayload,
    cwd: &str,
    company: &str,
    project: Option<&str>,
    agent: &str,
) -> GatewayToolRequest {
    GatewayToolRequest {
        session_id: "session-1".to_string(),
        turn_id: "turn-1".to_string(),
        cwd: cwd.to_string(),
        company_id: Some(company.to_string()),
        project_id: project.map(str::to_string),
        agent_id: Some(agent.to_string()),
        call_id: "call-1".to_string(),
        tool_name: tool_name.to_string(),
        payload,
    }
}

fn function(arguments: &str) -> GatewayToolPayload {
    GatewayToolPayload::Function { arguments: arguments.to_string() }
}

fn custom(input: &str) -> GatewayToolPayload {
    GatewayToolPayload::Custom { input: input.to_string() }
}

fn text(value: &Value, name: &str) -> Option<String> {
    value[name].as_str().map(str::to_string)
}

fn size(value: &Value, name: &str) -> Option<usize> {
    value[name].as_u64().map(|n| n as usize)
}

fn permissions(value: &Value) -> Option<SandboxPermissions> {
    value["sandbox_permissions"].as_str().map(|p| {
        if p == "require_escalated" {
            SandboxPermissions::RequireEscalated
        } else {
            SandboxPermissions::UseDefault
        }
    })
}

/// Reads the arguments of a tool.
fn read_arguments(answers: &mut GatewayAnswers, tool: &str, arguments: &str) {
    let value: Value = match serde_json::from_str(arguments) {
        Ok(value) => value,
        Err(e) => {
            answers.shell = Some(Err(e.to_string()));
            return;
        }
    };
    match tool {
        "shell" | "container.exec" => {
            answers.shell = Some(Ok(ShellArgs {
                command: value["command"]
                    .as_array()
                    .map(|v| v.iter().map(|a| a.as_str().unwrap_or("").to_string()).collect())
                    .unwrap_or_default(),
                workdir: text(&value, "workdir"),
                timeout_ms: value["timeout_ms"].as_u64(),
                sandbox_permissions: permissions(&value),
            }));
        }
        "shell_command" => {
            answers.shell_command = Some(Ok(ShellCommandArgs {
                command: text(&value, "command").unwrap_or_default(),
                workdir: text(&value, "workdir"),
                timeout_ms: value["timeout_ms"].as_u64(),
                sandbox_permissions: permissions(&value),
            }));
        }
        "exec_command" => {
            answers.exec_command = Some(Ok(DockerExecCommandArgs {
                cmd: text(&value, "cmd").unwrap_or_default(),
                workdir: text(&value, "workdir"),
                shell: text(&value, "shell"),
                timeout_ms: value["timeout_ms"].as_u64(),
                sandbox_permissions: permissions(&value).unwrap_or(SandboxPermissions::UseDefault),
            }));
        }
        "apply_patch" => answers.apply_patch = Some(Ok(text(&value, "input").unwrap_or_default())),
        "read_file" => {
            answers.read_file = Some(Ok(DockerReadFileArgs {
                file_path: text(&value, "file_path").unwrap_or_default(),
                offset: size(&value, "offset"),
                limit: size(&value, "limit"),
            }));
        }
        "list_dir" => {
            answers.list_dir = Some(Ok(DockerListDirArgs {
                dir_path: text(&value, "dir_path").unwrap_or_default(),
                offset: size(&value, "offset"),
                limit: size(&value, "limit"),
                depth: size(&value, "depth"),
            }));
        }
        "grep_files" => {
            answers.grep_files = Some(Ok(DockerGrepFilesArgs {
                pattern: text(&value, "pattern").unwrap_or_default(),
                file_glob: text(&value, "include"),
                path: text(&value, "path"),
                limit: size(&value, "limit"),
            }));
        }
        other => panic!("no arguments for {other}"),
    }
}

/// The files that a patch of added files touches.
fn added_files(patch: &str) -> Vec<PatchedFile> {
    patch
        .lines()
        .filter_map(|line| line.strip_prefix("*** Add File: "))
        .map(|path| PatchedFile { path: path.to_string(), move_path: None })
        .collect()
}

/// What is there: the canonical form of each path.
fn look_at(there: &[(&str, &str)], path: &str) -> PathAnswer {
    match there.iter().find(|(p, _)| std::path::Path::new(p) == std::path::Path::new(path)) {
        Some((_, canonical)) => PathAnswer { exists: true, canonical: Ok(canonical.to_string()) },
        None => PathAnswer { exists: false, canonical: Err("No such file or directory".to_string()) },
    }
}

/// Plans a request, finding out what is asked for.
fn plan(
    backend: &DockerGatewayBackend,
    request: &GatewayToolRequest,
    there: &[(&str, &str)],
) -> Result<DockerToolPlan, GatewayBackendError> {
    let scope = backend.scope_for_request(request, ROOT)?;
    let mut answers = GatewayAnswers::new();
    for _ in 0..50 {
        match backend.plan_tool_request(request, ROOT, &scope, &answers) {
            Step::Done(plan) => return Ok(plan),
            Step::Fail(e) => return Err(e),
            Step::Ask(GatewayNeed::Path(path)) => {
                let answer = look_at(there, &path);
                answers.paths.insert(path, answer);
            }
            Step::Ask(GatewayNeed::Arguments { tool_name, arguments }) => {
                read_arguments(&mut answers, &tool_name, &arguments);
            }
            Step::Ask(GatewayNeed::ParsePatch(patch)) => {
                answers.patch = Some(Ok(added_files(&patch)));
            }
            Step::Ask(GatewayNeed::VerifyPatch { patch, cwd }) => {
                let changes = added_files(&patch)
                    .into_iter()
                    .map(|f| PatchedFile {
                        path: if f.path.starts_with('/') { f.path } else { format!("{cwd}/{}", f.path) },
                        move_path: None,
                    })
                    .collect();
                answers.verified_patch =
                    Some(PatchVerification::Body(PatchAction { cwd, patch, changes }));
            }
        }
    }
    panic!("too many questions");
}

const WORKSPACE: &[(&str, &str)] = &[
    (ROOT, ROOT),
    ("/srv/ws/hello.txt", "/srv/ws/hello.txt"),
    ("/srv/ws/projects/project-x", "/srv/ws/projects/project-x"),
    ("/srv/ws/link", "/etc"),
    ("/tmp", "/tmp"),
];

fn backend() -> DockerGatewayBackend {
    DockerGatewayBackend::new("codex-test-image", ROOT).with_uid_gid(None)
}

fn refused(backend: &DockerGatewayBackend, request: &GatewayToolRequest) -> String {
    plan(backend, request, WORKSPACE).expect_err("should be refused").message()
}

fn exec(backend: &DockerGatewayBackend, request: &GatewayToolRequest) -> DockerCommandRequest {
    let scope = backend.scope_for_request(request, ROOT).expect("scope");
    let plan = plan(backend, request, WORKSPACE).expect("plan");
    backend.exec_command(&scope, &plan)
}

fn output(stdout: &str, stderr: &str, exit_code: i32) -> Result<DockerCommandOutput, String> {
    Ok(DockerCommandOutput {
        stdout: stdout.as_bytes().to_vec(),
        stderr: stderr.as_bytes().to_vec(),
        exit_code,
    })
}

#[test]
fn dispatch_success_passes_request_to_backend() {
    let server = GatewayHttpServer::new().with_bearer_token("secret");
    assert_eq!(server.refusal(Some("Bearer secret"), Ok("shell")), None);
    let backend = InMemoryGatewayBackend::new().with_text_response("shell", "middleware ok");
    assert_eq!(
        backend.dispatch("shell"),
        Ok(GatewayToolResponse::Function {
            output: FunctionOutput { text: "middleware ok".to_string(), success: Some(true) },
            call_id: None,
        })
    );
    let error = GatewayToolResponse::Error { message: "no".to_string() };
    let backend = backend.with_response("list_dir", error.copy());
    assert_eq!(backend.dispatch("list_dir"), Ok(error));
    assert_eq!(
        backend.dispatch("other"),
        Err(GatewayBackendError::UnsupportedTool("other".to_string()))
    );
}

#[test]
fn missing_auth_is_unauthorized_before_backend() {
    let server = GatewayHttpServer::new().with_bearer_token("secret");
    for header in [None, Some("secret"), Some("Bearer other"), Some("bearer secret")] {
        let reply = server.refusal(header, Ok("shell")).expect("refused");
        assert_eq!(reply.status, 401);
        assert_eq!(reply.error, "missing or invalid bearer token");
    }
    assert!(GatewayHttpServer::new().authorized(None));
}

#[test]
fn invalid_json_is_bad_request_before_backend() {
    let server = GatewayHttpServer::new().with_bearer_token("secret");
    let reply = server.refusal(Some("Bearer secret"), Err("key must be a string")).expect("refused");
    assert_eq!(reply.status, 400);
    assert_eq!(reply.error, "invalid request JSON: key must be a string");
}

#[test]
fn capability_denial_is_forbidden_before_backend() {
    let server = GatewayHttpServer::new()
        .with_bearer_token("secret")
        .with_capability_policy(ToolCapabilityPolicy::default().allow("read_file"));
    let reply = server.refusal(Some("Bearer secret"), Ok("shell")).expect("refused");
    assert_eq!(reply.status, 403);
    assert_eq!(reply.error, "tool `shell` is not allowed for this Agent profile");
    assert_eq!(server.refusal(Some("Bearer secret"), Ok("read_file")), None);
}

#[test]
fn backend_rejection_is_forbidden() {
    let reply = gateway_error(&GatewayBackendError::Rejected("denied by backend".to_string()));
    assert_eq!((reply.status, reply.error.as_str()), (403, "denied by backend"));
    let reply = gateway_error(&GatewayBackendError::UnsupportedTool("x".to_string()));
    assert_eq!(reply.status, 400);
    assert_eq!(reply.error, "tool `x` is not supported by this middleware gateway");
    let reply = gateway_error(&GatewayBackendError::Internal("boom".to_string()));
    assert_eq!((reply.status, reply.error.as_str()), (500, "boom"));
}

#[test]
fn docker_backend_uses_company_container_and_exec_for_shell_command() {
    let backend = backend().with_limits("256m", "0.5", 64).with_default_timeout(12000);
    let request = request(
        "shell",
        function(r#"{"command":["python3","-c","print(1)"],"workdir":"/srv/ws","timeout_ms":2500}"#),
        ROOT,
    );
    let scope = backend.scope_for_request(&request, ROOT).expect("scope");
    assert_eq!(scope.container_name, "codex-company-acme");
    assert_eq!(scope.public_host_root, "/srv/ws/public");
    assert_eq!(scope.agent_private_host_root, "/srv/ws/agents/agent-a/private");
    assert_eq!(scope.project_host_root, None);

    let inspect = backend.inspect_command(&scope);
    assert_eq!(inspect.args, ["inspect", "-f", "{{.State.Running}}", "codex-company-acme"]);
    assert_eq!(inspect.timeout_ms, 12000);
    let missing = output("", "No such object", 1);
    assert_eq!(container_action(&missing), Ok(ContainerAction::Create));
    let create = backend.create_company_container(&scope, ROOT);
    assert_eq!(
        create.args,
        [
            "run", "-d", "--name", "codex-company-acme", "--network", "none", "--read-only",
            "--tmpfs", "/tmp:rw,noexec,nosuid,nodev,size=64m", "--cap-drop", "ALL",
            "--security-opt", "no-new-privileges", "--memory", "256m", "--cpus", "0.5",
            "--pids-limit", "64", "-v", "/srv/ws:/workspace:rw", "codex-test-image", "sleep",
            "infinity",
        ]
    );
    assert_eq!(container_outcome("run", "codex-company-acme", &output("", "", 0)), Ok(()));

    let exec = exec(&backend, &request);
    assert_eq!(exec.executable, "docker");
    assert_eq!(exec.timeout_ms, 2500);
    assert_eq!(
        exec.args,
        ["exec", "-w", "/workspace", "codex-company-acme", "python3", "-c", "print(1)"]
    );
    let response = finish_execution(&request.payload, &output("ok", "warn", 0)).expect("response");
    assert_eq!(
        response,
        GatewayToolResponse::Function {
            output: FunctionOutput {
                text: r#"{"stdout":"ok","stderr":"warn","exit_code":0}"#.to_string(),
                success: Some(true),
            },
            call_id: None,
        }
    );
}

#[test]
fn docker_backend_reuses_running_company_container_without_recreate() {
    assert_eq!(container_action(&output(" TRUE\n", "", 0)), Ok(ContainerAction::Nothing));
    assert_eq!(container_action(&output("false\n", "", 0)), Ok(ContainerAction::Start));
    let backend = backend();
    let request = request("shell", function(r#"{"command":["pwd"],"workdir":"/workspace"}"#), "/workspace");
    let scope = backend.scope_for_request(&request, ROOT).expect("scope");
    assert_eq!(backend.start_company_container(&scope).args, ["start", "codex-company-acme"]);
    let exec = exec(&backend, &request);
    assert_eq!(exec.args, ["exec", "-w", "/workspace", "codex-company-acme", "pwd"]);
}

#[test]
fn docker_backend_maps_logical_workspace_paths_for_read_file() {
    let request = request(
        "read_file",
        function(r#"{"file_path":"/workspace/hello.txt","offset":1,"limit":2}"#),
        "/workspace",
    );
    let exec = exec(&backend(), &request);
    assert_eq!(
        exec.args[4..],
        ["python3", "-c", READ_FILE_SCRIPT, "/workspace/hello.txt", "1", "2"]
    );
}

#[test]
fn docker_backend_uses_project_workdir_and_agent_private_partition() {
    let backend = backend();
    let request = scoped_request(
        "shell",
        function(r#"{"command":["pwd"]}"#),
        "/workspace",
        "Acme Inc",
        Some("Project X"),
        "Agent B",
    );
    let scope = backend.scope_for_request(&request, ROOT).expect("scope");
    assert_eq!(scope.public_host_root, "/srv/ws/public");
    assert_eq!(scope.agent_private_host_root, "/srv/ws/agents/agent-b/private");
    assert_eq!(scope.project_host_root.as_deref(), Some("/srv/ws/projects/project-x"));
    assert_eq!(backend.inspect_command(&scope).args[3], "codex-company-acme-inc");
    let exec = exec(&backend, &request);
    assert_eq!(exec.args[2], "/workspace/projects/project-x");
    let from_root = scoped_request(
        "shell",
        function(r#"{"command":["pwd"]}"#),
        "/srv/ws/",
        "Acme Inc",
        Some("Project X"),
        "Agent B",
    );
    assert_eq!(plan(&backend, &from_root, WORKSPACE).expect("plan").workdir_in_container, "/workspace/projects/project-x");
}

#[test]
fn docker_backend_rejects_escalated_sandbox_permissions() {
    let escalated = request(
        "shell",
        function(
            r#"{"command":["echo","hi"],"workdir":"/srv/ws","timeout_ms":1000,"sandbox_permissions":"require_escalated"}"#,
        ),
        ROOT,
    );
    assert!(refused(&backend(), &escalated).contains("does not allow escalated sandbox permissions"));
    let local = GatewayToolPayload::LocalShell {
        command: vec!["ls".to_string()],
        workdir: None,
        timeout_ms: None,
        sandbox_permissions: Some("RequireEscalated".to_string()),
        prefix_rule: None,
        justification: None,
    };
    let local = request("local_shell", local, ROOT);
    assert!(refused(&backend(), &local).contains("does not allow escalated sandbox permissions"));
}

#[test]
fn docker_backend_translates_apply_patch_function_into_docker_exec() {
    let patch = "*** Begin Patch\n*** Add File: /srv/ws/absolute.txt\n+hello\n*** End Patch\n";
    let mut map = serde_json::Map::new();
    map.insert("input".to_string(), patch.into());
    let backend = backend().with_default_timeout(12000);
    let request = request("apply_patch", function(&Value::Object(map).to_string()), ROOT);
    let exec = exec(&backend, &request);
    assert_eq!(exec.timeout_ms, 12000);
    assert_eq!(
        exec.args[4..],
        [
            "apply_patch",
            "*** Begin Patch\n*** Add File: /workspace/absolute.txt\n+hello\n*** End Patch",
        ]
    );
    let response = finish_execution(&request.payload, &output("Success.", "", 0)).expect("response");
    match response {
        GatewayToolResponse::Function { output, .. } => {
            assert_eq!(output.success, Some(true));
            assert!(output.text.contains(r#""exit_code":0"#));
        }
        other => panic!("expected function output, got {other:?}"),
    }
}

#[test]
fn docker_backend_translates_apply_patch_custom_into_custom_response() {
    let request = request(
        "apply_patch",
        custom("*** Begin Patch\n*** Add File: custom.txt\n+custom\n*** End Patch\n"),
        ROOT,
    );
    let exec = exec(&backend(), &request);
    assert_eq!(
        exec.args[4..],
        ["apply_patch", "*** Begin Patch\n*** Add File: custom.txt\n+custom\n*** End Patch"]
    );
    match finish_execution(&request.payload, &output("A custom.txt\n", "", 0)).expect("response") {
        GatewayToolResponse::Custom { output, .. } => {
            assert!(output.contains(r#""exit_code":0"#));
            assert!(output.contains("custom.txt"));
        }
        other => panic!("expected custom output, got {other:?}"),
    }
    let controls = Ok(DockerCommandOutput {
        stdout: b"\x00\x08\t\n\x0b\x0c\r\x1b\x1f ".to_vec(),
        stderr: b"\\/\x7f\xc3\xa9".to_vec(),
        exit_code: 0,
    });
    match finish_execution(&custom(""), &controls).expect("response") {
        GatewayToolResponse::Custom { output, .. } => assert_eq!(
            output,
            [
                "{\"stdout\":\"\\u0000\\b\\t\\n\\u000b\\f\\r\\u001b\\u001f \",",
                "\"stderr\":\"\\\\/\u{7f}\u{e9}\",\"exit_code\":0}",
            ]
            .concat()
        ),
        other => panic!("expected custom output, got {other:?}"),
    }
}

#[test]
fn docker_backend_translates_logical_apply_patch_path_into_container_path() {
    let request = request(
        "apply_patch",
        custom("*** Begin Patch\n*** Add File: /workspace/custom.txt\n+custom\n*** End Patch\n"),
        "/workspace",
    );
    let exec = exec(&backend(), &request);
    assert_eq!(
        exec.args[4..],
        ["apply_patch", "*** Begin Patch\n*** Add File: /workspace/custom.txt\n+custom\n*** End Patch"]
    );
}

#[test]
fn docker_backend_rejects_apply_patch_paths_outside_workspace() {
    let outside = request(
        "apply_patch",
        custom("*** Begin Patch\n*** Add File: /tmp/codex-outside-workspace.txt\n+bad\n*** End Patch\n"),
        ROOT,
    );
    assert!(refused(&backend(), &outside)
        .contains("apply_patch target must stay inside docker workspace_root"));
    let climbing = request(
        "apply_patch",
        custom("*** Begin Patch\n*** Add File: ../ws2/x.txt\n+bad\n*** End Patch\n"),
        ROOT,
    );
    assert!(refused(&backend(), &climbing)
        .contains("apply_patch target must stay inside docker workspace_root"));
    let through_link = request(
        "apply_patch",
        custom("*** Begin Patch\n*** Add File: link/passwd\n+bad\n*** End Patch\n"),
        ROOT,
    );
    assert!(refused(&backend(), &through_link)
        .contains("apply_patch target must stay inside docker workspace_root"));
}

#[test]
fn files_are_listed_and_searched_in_the_container() {
    let list = request("list_dir", function(r#"{"dir_path":"."}"#), ROOT);
    let there: Vec<(&str, &str)> = [WORKSPACE, &[("/srv/ws/.", ROOT)]].concat();
    let listed = plan(&backend(), &list, &there).expect("plan");
    assert_eq!(listed.command, ["python3", "-c", LIST_DIR_SCRIPT, "/workspace", "1", "25", "2"]);
    assert_eq!(listed.workdir_in_container, "/workspace");
    assert_eq!(listed.timeout_ms, 30000);
    let grep = request("grep_files", function(r#"{"pattern":" a+ ","limit":5000,"include":"*.rs"}"#), ROOT);
    let found = plan(&backend(), &grep, &there).expect("plan");
    assert_eq!(
        found.command,
        ["python3", "-c", GREP_FILES_SCRIPT, "a+", "*.rs", "/workspace", "2000"]
    );
}

#[test]
fn shells_are_given_trimmed_scripts() {
    let command = request("shell_command", function(r#"{"command":" ls "}"#), ROOT);
    let run = plan(&backend(), &command, WORKSPACE).expect("plan");
    assert_eq!(run.command, ["/bin/sh", "-lc", "ls"]);
    let command = request("exec_command", function(r#"{"cmd":"ls","shell":"/bin/bash"}"#), ROOT);
    let run = plan(&backend(), &command, WORKSPACE).expect("plan");
    assert_eq!(run.command, ["/bin/bash", "-lc", "ls"]);
    let command = request("exec_command", function(r#"{"cmd":"ls","shell":" "}"#), ROOT);
    let run = plan(&backend(), &command, WORKSPACE).expect("plan");
    assert_eq!(run.command, ["/bin/sh", "-lc", "ls"]);
}

#[test]
fn requests_that_cannot_be_run_are_refused() {
    let backend = backend();
    for (tool, payload, cwd, message) in [
        ("shell", custom("x"), ROOT, "shell requires a function payload"),
        ("container.exec", custom("x"), ROOT, "shell requires a function payload"),
        ("local_shell", custom("x"), ROOT, "local_shell requires a local_shell payload"),
        ("shell_command", custom("x"), ROOT, "shell_command requires a function payload"),
        ("exec_command", custom("x"), ROOT, "exec_command requires a function payload"),
        ("read_file", custom("x"), ROOT, "read_file requires a function payload"),
        ("list_dir", custom("x"), ROOT, "list_dir requires a function payload"),
        ("grep_files", custom("x"), ROOT, "grep_files requires a function payload"),
        (
            "apply_patch",
            GatewayToolPayload::Mcp {
                server: String::new(),
                tool: String::new(),
                raw_arguments: String::new(),
            },
            ROOT,
            "apply_patch requires a function or custom payload",
        ),
        ("apply_patch", custom("a\0b"), ROOT, "apply_patch input must not contain NUL bytes"),
        ("shell", function(r#"{"command":[]}"#), ROOT, "command must not be empty"),
        ("shell", function(r#"{"command":["a",""]}"#), ROOT, "command arguments must not be empty"),
        (
            "shell",
            function("{\"command\":[\"a\\u0000\"]}"),
            ROOT,
            "command argument must not contain NUL bytes",
        ),
        (
            "shell",
            function(r#"{"command":["a"],"timeout_ms":0}"#),
            ROOT,
            "timeout_ms must be greater than zero",
        ),
        (
            "shell",
            function(r#"{"command":["a"],"workdir":"/srv/ws/link"}"#),
            ROOT,
            "workdir must stay inside docker workspace_root",
        ),
        (
            "shell",
            function(r#"{"command":["a"],"workdir":"gone"}"#),
            ROOT,
            "workdir `/srv/ws/gone` is not accessible: No such file or directory",
        ),
        (
            "shell_command",
            function(r#"{"command":"  "}"#),
            ROOT,
            "shell_command command must not be empty",
        ),
        ("exec_command", function(r#"{"cmd":""}"#), ROOT, "exec_command cmd must not be empty"),
        ("grep_files", function(r#"{"pattern":" "}"#), ROOT, "pattern must not be empty"),
        (
            "read_file",
            function(r#"{"file_path":"hello.txt","offset":0}"#),
            ROOT,
            "offset must be greater than zero",
        ),
        ("shell", function("{}"), "relative", "cwd must be an absolute path"),
        ("shell", function("{}"), "/tmp", "cwd must stay inside docker workspace_root"),
        ("shell", function("{}"), "/a\0", "cwd must not contain NUL bytes"),
        (
            "paint",
            function("{}"),
            ROOT,
            "tool `paint` is not supported by this middleware gateway",
        ),
    ] {
        assert_eq!(refused(&backend, &request(tool, payload, cwd)), message, "{tool}");
    }
    assert!(refused(&backend, &request("shell", function("{"), ROOT))
        .starts_with("invalid tool arguments: "));
    let nul_glob = request("grep_files", function("{\"pattern\":\"a\",\"path\":\"hello.txt\",\"include\":\"\\u0000\"}"), ROOT);
    assert_eq!(refused(&backend, &nul_glob), "include must not contain NUL bytes");
}

#[test]
fn patches_that_cannot_be_applied_are_refused() {
    let backend = backend();
    let request = request("apply_patch", custom("x"), ROOT);
    let scope = backend.scope_for_request(&request, ROOT).expect("scope");
    let ask = |patch, verified_patch| {
        let mut answers = GatewayAnswers::new();
        answers.paths.insert(ROOT.to_string(), look_at(WORKSPACE, ROOT));
        answers.patch = Some(patch);
        answers.verified_patch = verified_patch;
        match backend.plan_tool_request(&request, ROOT, &scope, &answers) {
            Step::Fail(e) => e.message(),
            other => panic!("should be refused: {other:?}"),
        }
    };
    assert_eq!(ask(Err("bad".to_string()), None), "apply_patch verification failed: bad");
    assert_eq!(
        ask(Ok(Vec::new()), Some(PatchVerification::CorrectnessError("bad".to_string()))),
        "apply_patch verification failed: bad"
    );
    assert_eq!(
        ask(Ok(Vec::new()), Some(PatchVerification::ShellParseError)),
        "apply_patch handler received invalid patch input"
    );
    assert_eq!(
        ask(Ok(Vec::new()), Some(PatchVerification::NotApplyPatch)),
        "apply_patch handler received non-apply_patch input"
    );
}

#[test]
fn failures_of_the_runtime_are_internal() {
    let err = container_action(&Err("no docker".to_string())).expect_err("failed");
    assert_eq!(err.message(), "docker inspect failed: no docker");
    let err = container_outcome("start", "c", &output("", "boom", -3)).expect_err("failed");
    assert_eq!(err.message(), "docker start `c` failed with exit code -3: boom");
    let err = container_outcome("run", "c", &Err("gone".to_string())).expect_err("failed");
    assert_eq!(err, GatewayBackendError::Internal("docker run failed: gone".to_string()));
    let err = finish_execution(&custom(""), &Err("gone".to_string())).expect_err("failed");
    assert_eq!(err.message(), "docker exec failed: gone");
    let odd = Ok(DockerCommandOutput { stdout: vec![0xff, b'"'], stderr: vec![b'\n'], exit_code: 1 });
    match finish_execution(&custom(""), &odd).expect("response") {
        GatewayToolResponse::Custom { output, .. } => assert_eq!(
            output,
            "{\"stdout\":\"\u{fffd}\\\"\",\"stderr\":\"\\n\",\"exit_code\":1}"
        ),
        other => panic!("expected custom output, got {other:?}"),
    }
}

#[test]
fn names_are_sanitized() {
    assert_eq!(sanitize_component("  Acme Inc. ", 64), "acme-inc");
    assert_eq!(sanitize_component("../../etc/passwd", 64), "etc-passwd");
    assert_eq!(sanitize_component("a--b__c..d", 64), "a-b_c.d");
    assert_eq!(sanitize_component("\u{e4}\u{f6}", 64), "");
    assert_eq!(sanitize_component("abcdef", 3), "abc");
    assert_eq!(sanitize_component("ab-cdef", 3), "ab");
    assert_eq!(sanitize_component("-ab", 0), "a");
    assert_eq!(sanitize_component("", 0), "");
    assert_eq!(
        sanitize_scope_component("###", "company_id").expect_err("nameless").message(),
        "company_id must contain at least one ASCII letter or digit"
    );
    assert_eq!(
        company_container_name("", "acme").expect_err("nameless").message(),
        "container_name_prefix must contain at least one ASCII letter or digit"
    );
    assert_eq!(company_container_name("Codex Company", "Acme"), Ok("codex-company-acme".to_string()));
    assert!(validate_command(&vec!["ls".to_string()]).is_ok());
}

#[test]
fn settings_can_be_changed() {
    let backend = DockerGatewayBackend::new("i", ROOT);
    assert_eq!(backend.config.docker_binary, "docker");
    assert_eq!(backend.config.uid_gid.as_deref(), Some("1000:1000"));
    assert_eq!(backend.config.memory_limit, "512m");
    assert_eq!(backend.config.cpu_limit, "1.0");
    assert_eq!(backend.config.pids_limit, 256);
    assert_eq!(backend.config.max_timeout_ms, 600000);
    let backend = backend
        .with_docker_binary("podman")
        .with_max_timeout(1000)
        .with_default_company_id("home")
        .with_container_name_prefix("box");
    assert_eq!(backend.timeout_from_ms(None), Ok(1000));
    assert_eq!(backend.timeout_from_ms(Some(500)), Ok(500));
    assert_eq!(backend.timeout_from_ms(Some(5000)), Ok(1000));
    let mut request = request("shell", function(r#"{"command":["a"]}"#), ROOT);
    request.company_id = None;
    request.agent_id = None;
    let scope = backend.scope_for_request(&request, ROOT).expect("scope");
    assert_eq!(scope.container_name, "box-home");
    assert_eq!(scope.agent_private_host_root, "/srv/ws/agents/default-agent/private");
    let exec = exec(&backend, &request);
    assert_eq!(exec.executable, "podman");
    assert_eq!(exec.args, ["exec", "-w", "/workspace", "-u", "1000:1000", "box-home", "a"]);
}

fn seen(path: &str) -> String {
    match container_path(path, ROOT) {
        Step::Done(p) => p,
        other => panic!("not seen: {other:?}"),
    }
}

#[test]
fn container_paths_are_found_again() {
    for path in ["/srv/ws", "/srv/ws/a/b.txt", "/srv/ws//a/./b/"] {
        let there = seen(path);
        assert!(there.starts_with("/workspace"));
        let back = gateway_path_to_host_path(&there, ROOT);
        assert_eq!(std::path::Path::new(&back), std::path::Path::new(path));
    }
    assert_eq!(seen("/srv/ws/a\\b"), "/workspace/a/b");
    assert!(matches!(container_path("/etc", ROOT), Step::Fail(_)));
    assert_eq!(gateway_path_to_host_path("/etc", ROOT), "/etc");
}

#[test]
fn patches_are_rewritten_both_ways() {
    let patch = "*** Update File: /workspace/a.txt\n*** Move to: b.txt\n+*** Add File: x\n*** Delete File: /workspace/c\\d";
    let host = rewrite_apply_patch_paths_to_host(patch, ROOT);
    assert_eq!(
        host,
        "*** Update File: /srv/ws/a.txt\n*** Move to: b.txt\n+*** Add File: x\n*** Delete File: /srv/ws/c/d"
    );
    assert_eq!(
        rewrite_apply_patch_absolute_paths(&host, ROOT),
        Step::Done(
            "*** Update File: /workspace/a.txt\n*** Move to: b.txt\n+*** Add File: x\n*** Delete File: /workspace/c/d"
                .to_string()
        )
    );
    assert!(matches!(
        rewrite_apply_patch_absolute_paths("*** Add File: /srv/ws/../x", ROOT),
        Step::Fail(_)
    ));
}

#[test]
fn targets_need_a_parent_inside() {
    let mut known: Table<PathAnswer> = Table::new();
    for path in ["/srv/ws/a", "/srv/ws", "/srv", "/"] {
        known.insert(path.to_string(), PathAnswer { exists: false, canonical: Err(String::new()) });
    }
    match validate_workspace_target_path("/srv/ws/a", ROOT, "target", &known) {
        Step::Fail(e) => assert_eq!(e.message(), "target has no accessible parent"),
        other => panic!("should fail: {other:?}"),
    }
    match validate_workspace_target_path("a", ROOT, "target", &known) {
        Step::Fail(e) => assert_eq!(e.message(), "target must resolve to an absolute path"),
        other => panic!("should fail: {other:?}"),
    }
}
