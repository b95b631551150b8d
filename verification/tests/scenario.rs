use codex_core::office::handlers::{
    current_session, learn_from_owner_message, log_in, note_owner_message, owner_message_view,
    queue_owner_message, settle_owner_message, show_me, take_owner_message, LoginRequest,
    OwnerMessageRequest,
};
use codex_core::office::persistence::PersistentPilotDirectory;
use codex_core::office::runtime::{OfficeRuntimeSnapshot, OfficeRuntimeStore};
use codex_core::office::web::OfficeAgentExternalState;
use codex_core::time::Timestamp;
use codex_core::tools::gateway::{GatewayToolPayload, GatewayToolRequest};
use codex_core::tools::handlers::collab_inbox::InboxRuntime;
use codex_core::tools::http_gateway::{
    container_action, ContainerAction, DockerCommandOutput, DockerGatewayBackend, GatewayAnswers,
    ShellArgs,
};
use codex_core::tools::workspace_paths::{GatewayNeed, PathAnswer, Step};

fn at(secs: i64) -> Timestamp {
    Timestamp { secs, nanos: 0 }
}

fn login(username: &str) -> LoginRequest {
    LoginRequest { username: username.to_string(), password: "password".to_string() }
}

#[test]
fn owner_is_served_from_login_to_restart() {
    let mut directory = PersistentPilotDirectory::seeded("/office-store.json".to_string());
    let mut store = OfficeRuntimeStore::from_snapshot(
        "/office-runtime.json".to_string(),
        OfficeRuntimeSnapshot::empty(),
    );
    let mut inboxes = InboxRuntime::new();

    let session =
        log_in(&mut directory, &login("employee_b"), "token-b".to_string(), at(1)).expect("login");
    let me = show_me(&directory, &mut store, &inboxes, &session, at(2)).expect("me");
    assert_eq!(me.user_id, "user_b");
    assert_eq!(me.agent_id, "agent_b");
    assert_eq!(me.agent_profile.owner_user_id, "user_b");
    assert_eq!(me.agent_state.state, OfficeAgentExternalState::Idle);

    let request = OwnerMessageRequest {
        message_id: Some("task14-owner-msg".to_string()),
        content: "Task14 owner asks agent B for a production readiness pass".to_string(),
        need_reply: true,
        reply_to_message_id: None,
    };
    let message = take_owner_message(&directory, Some("token-b"), &request, true, "unused")
        .expect("message");
    learn_from_owner_message(&mut directory, &message, at(3)).expect("facts");
    queue_owner_message(&mut inboxes, &message);
    note_owner_message(&mut store, &message, at(4));
    settle_owner_message(&mut inboxes, &message, None);
    let view = owner_message_view(&message);
    assert_eq!(view.from, "user_b");
    assert_eq!(view.to, "agent_b");
    let me = show_me(&directory, &mut store, &inboxes, &session, at(5)).expect("me");
    assert_eq!(me.pending_owner_replies[0].message_id, "task14-owner-msg");

    let other =
        log_in(&mut directory, &login("employee_c"), "token-c".to_string(), at(6)).expect("login");
    let other_me = show_me(&directory, &mut store, &inboxes, &other, at(7)).expect("me");
    assert_eq!(other_me.user_id, "user_c");
    assert_eq!(other_me.agent_id, "agent_c");
    assert_eq!(other_me.agent_inbox.queued_count, 0);

    let path = directory.path().to_string();
    let reopened = PersistentPilotDirectory::from_snapshot(path, directory.snapshot());
    let kept = current_session(&reopened, Some("token-b")).expect("session");
    assert_eq!(kept.user_id, "user_b");
    assert_eq!(kept.agent_id, "agent_b");
}

#[test]
fn projects_of_a_company_share_its_container() {
    let root = "/srv/docker-workspace";
    let backend = DockerGatewayBackend::new("codex-test-image", root).with_uid_gid(None);
    let request = GatewayToolRequest {
        session_id: "s".to_string(),
        turn_id: "t".to_string(),
        cwd: "/workspace".to_string(),
        company_id: Some("Acme Integrated".to_string()),
        project_id: Some("Project X".to_string()),
        agent_id: Some("Agent B".to_string()),
        call_id: "c".to_string(),
        tool_name: "shell".to_string(),
        payload: GatewayToolPayload::Function { arguments: r#"{"command":["pwd"]}"#.to_string() },
    };
    let scope = backend.scope_for_request(&request, root).expect("scope");
    assert_eq!(scope.container_name, "codex-company-acme-integrated");
    assert_eq!(scope.public_host_root, "/srv/docker-workspace/public");
    assert_eq!(
        scope.agent_private_host_root,
        "/srv/docker-workspace/agents/agent-b/private"
    );
    assert_eq!(
        scope.project_host_root.as_deref(),
        Some("/srv/docker-workspace/projects/project-x")
    );

    let missing =
        Ok(DockerCommandOutput { stdout: Vec::new(), stderr: Vec::new(), exit_code: 1 });
    assert_eq!(container_action(&missing).expect("action"), ContainerAction::Create);
    let running =
        Ok(DockerCommandOutput { stdout: b"true\n".to_vec(), stderr: Vec::new(), exit_code: 0 });
    assert_eq!(container_action(&running).expect("action"), ContainerAction::Nothing);

    let mut answers = GatewayAnswers::new();
    let plan = loop {
        match backend.plan_tool_request(&request, root, &scope, &answers) {
            Step::Done(plan) => break plan,
            Step::Fail(error) => panic!("refused: {error:?}"),
            Step::Ask(GatewayNeed::Path(path)) => {
                let canonical = Ok(path.trim_end_matches('/').to_string());
                answers.paths.insert(path, PathAnswer { exists: true, canonical });
            }
            Step::Ask(GatewayNeed::Arguments { tool_name, .. }) => {
                assert_eq!(tool_name, "shell");
                answers.shell = Some(Ok(ShellArgs {
                    command: vec!["pwd".to_string()],
                    workdir: None,
                    timeout_ms: None,
                    sandbox_permissions: None,
                }));
            }
            Step::Ask(need) => panic!("not needed: {need:?}"),
        }
    };
    let exec = backend.exec_command(&scope, &plan);
    assert_eq!(exec.container_name, "codex-company-acme-integrated");
    assert_eq!(
        exec.args,
        vec![
            "exec",
            "-w",
            "/workspace/projects/project-x",
            "codex-company-acme-integrated",
            "pwd",
        ]
    );
}
