use codex_core::ids::ThreadId;
use codex_core::protocol::{
    AgentNames, AgentStatus, FunctionCallError, SessionSource, SpawnedAgentType, SubAgentSource,
    PRIMARY_AGENT_NAME,
};
use codex_core::tools::handlers::call::{
    augment_call_content_for_verifier, build_call_message, call_error_details, call_output,
    check_call_args, content_repair_score, dispatch_mode_for_status, ensure_sender_agent_name,
    input_preview, is_sent_on, normalize_call_content_utf8, parse_call_args, plan_call, record_call,
    resolve_call_target, transcode_to_utf8, CallArgs, CallDispatchMode, ResolvedCallTarget,
    RetryEncoding, SendFailure, SenderName, UserInput, CALL_DISPATCHED_TEXT, CALL_FAILED_TEXT,
    MAX_CONTENT_CHARS,
};
use codex_core::tools::handlers::collab_inbox::InboxRuntime;
use encoding_rs::GBK;

fn thread(value: u128) -> ThreadId {
    ThreadId { value }
}

fn names(entries: Vec<(ThreadId, &str)>) -> AgentNames {
    AgentNames {
        entries: entries.into_iter().map(|(id, name)| (id, name.to_string())).collect(),
        unnamed: "unnamed".to_string(),
    }
}

fn args(target_id: &str, content: &str, message_id: &str, need_reply: bool, reply_to: Option<&str>) -> CallArgs {
    CallArgs {
        target_id: target_id.to_string(),
        content: content.to_string(),
        message_id: message_id.to_string(),
        need_reply,
        reply_to_message_id: reply_to.map(str::to_string),
    }
}

fn arguments(fields: Vec<(&str, serde_json::Value)>) -> String {
    let map: serde_json::Map<String, serde_json::Value> =
        fields.into_iter().map(|(name, value)| (name.to_string(), value)).collect();
    serde_json::Value::Object(map).to_string()
}

fn refused(fields: Vec<(&str, serde_json::Value)>) -> FunctionCallError {
    match parse_call_args(&arguments(fields)) {
        Err(e) => e,
        Ok(args) => check_call_args(&args).expect_err("should fail"),
    }
}

/// Makes a call from `from`, who goes by `sender`.
fn make_call(inboxes: &mut InboxRuntime, names: &AgentNames, from: ThreadId, sender: &str, args: &CallArgs, swarm: bool) -> Result<(), FunctionCallError> {
    let plan = plan_call(inboxes, names, args, swarm)?;
    record_call(inboxes, &plan.target_inbox_id, from, sender, args, &args.content, swarm);
    Ok(())
}

#[test]
fn dispatch_mode_for_status_handles_lifecycle_states() {
    assert_eq!(
        dispatch_mode_for_status(&AgentStatus::PendingInit),
        Some(CallDispatchMode::StartNewTurn)
    );
    assert_eq!(
        dispatch_mode_for_status(&AgentStatus::Completed(Some("done".to_string()))),
        Some(CallDispatchMode::StartNewTurn)
    );
    assert_eq!(
        dispatch_mode_for_status(&AgentStatus::Errored("boom".to_string())),
        Some(CallDispatchMode::StartNewTurn)
    );
    assert_eq!(
        dispatch_mode_for_status(&AgentStatus::Interrupted),
        Some(CallDispatchMode::StartNewTurn)
    );
    assert_eq!(
        dispatch_mode_for_status(&AgentStatus::Running),
        Some(CallDispatchMode::QueueInRunningTurn)
    );
    assert_eq!(dispatch_mode_for_status(&AgentStatus::Shutdown), None);
    assert_eq!(dispatch_mode_for_status(&AgentStatus::NotFound), None);
}

#[test]
fn call_rejects_removed_fields() {
    let err = refused(vec![
        ("target_agent_name", "Alice-worker".into()),
        ("content", "hi".into()),
        ("message_id", "m1".into()),
        ("status_control", "continue".into()),
    ]);
    assert_eq!(
        err,
        FunctionCallError::RespondToModel("unsupported call fields: status_control".to_string())
    );
}

#[test]
fn call_rejects_empty_target() {
    let err = refused(vec![
        ("target_agent_name", "".into()),
        ("content", "hi".into()),
        ("message_id", "m1".into()),
    ]);
    assert_eq!(
        err,
        FunctionCallError::RespondToModel("target_id or target_agent_name is required".to_string())
    );
}

#[test]
fn call_rejects_unknown_target_agent_name() {
    let args = parse_call_args(&arguments(vec![
        ("target_agent_name", "unknown-agent".into()),
        ("content", "hi".into()),
        ("message_id", "m1".into()),
    ]))
    .expect("arguments");
    check_call_args(&args).expect("fine arguments");
    let err = plan_call(&mut InboxRuntime::new(), &names(Vec::new()), &args, false)
        .expect_err("unknown target");
    assert!(err.message().starts_with("agent name not found: unknown-agent"));
}

#[test]
fn call_rejects_empty_content() {
    let err = refused(vec![
        ("target_agent_name", "Alice-worker".into()),
        ("content", "   ".into()),
        ("message_id", "m1".into()),
    ]);
    assert_eq!(
        err,
        FunctionCallError::RespondToModel("content must be non-empty".to_string())
    );
}

#[test]
fn call_rejects_empty_message_id() {
    let err = refused(vec![
        ("target_agent_name", "Alice-worker".into()),
        ("content", "hi".into()),
        ("message_id", "   ".into()),
    ]);
    assert_eq!(
        err,
        FunctionCallError::RespondToModel("message_id must be non-empty".to_string())
    );
}

#[test]
fn call_rejects_what_is_no_object_or_too_long() {
    assert!(parse_call_args("[]").is_err());
    assert!(parse_call_args("{").is_err());
    let long = args("Alice-worker", &"x".repeat(MAX_CONTENT_CHARS + 1), "m", false, None);
    assert!(check_call_args(&long).is_err());
    let fits = args("Alice-worker", &"x".repeat(MAX_CONTENT_CHARS), "m", false, None);
    assert!(check_call_args(&fits).is_ok());
}

#[test]
fn call_dispatches_to_pending_init_agent() {
    let agent = thread(7);
    let known = names(vec![(agent, "Alice-worker")]);
    assert_eq!(resolve_call_target(&known, "Alice-worker"), ResolvedCallTarget::Agent(agent));
    assert_eq!(
        resolve_call_target(&known, &agent.to_text()),
        ResolvedCallTarget::Agent(agent)
    );
    assert_eq!(resolve_call_target(&known, "user_ceo"), ResolvedCallTarget::Logical);
    let output = call_output(true);
    assert_eq!(output.text, CALL_DISPATCHED_TEXT);
    assert_eq!(output.success, Some(true));
}

#[test]
fn swarm_need_reply_call_registers_required_reply_obligation() {
    let (root, agent) = (thread(1), thread(2));
    let known = names(vec![(root, PRIMARY_AGENT_NAME), (agent, "Alice-worker")]);
    let mut inboxes = InboxRuntime::new();
    let call = args("Alice-worker", "please reply", "m-required", true, None);
    make_call(&mut inboxes, &known, root, PRIMARY_AGENT_NAME, &call, true).expect("call");

    let unresolved = inboxes.unresolved_required_reply_obligations(agent);
    assert_eq!(unresolved.len(), 1);
    assert_eq!(unresolved[0].message_id, "m-required");
    assert_eq!(unresolved[0].source_agent_name, PRIMARY_AGENT_NAME);
    assert_eq!(unresolved[0].content, "please reply");
}

#[test]
fn swarm_call_to_logical_human_target_queues_human_inbox() {
    let root = thread(1);
    let known = names(vec![(root, PRIMARY_AGENT_NAME)]);
    let mut inboxes = InboxRuntime::new();
    let call = args("user_ceo", "需要你批准上线窗口。", "ceo-owner-approval", true, None);
    make_call(&mut inboxes, &known, root, PRIMARY_AGENT_NAME, &call, true).expect("call");

    let messages = inboxes.messages_for_logical("user_ceo");
    assert_eq!(messages.len(), 1);
    assert_eq!(messages[0].sender_agent_name, PRIMARY_AGENT_NAME);
    assert_eq!(messages[0].message_id, "ceo-owner-approval");
    assert!(messages[0].need_reply);

    let pending = inboxes.unresolved_required_reply_obligations_from_source(root);
    assert_eq!(pending.len(), 1);
    assert_eq!(pending[0].receiver_inbox_id, "user_ceo");
    assert_eq!(pending[0].obligation.message_id, "ceo-owner-approval");
}

fn with_pending_request() -> (InboxRuntime, AgentNames, ThreadId, ThreadId) {
    let (sender, target) = (thread(1), thread(2));
    let known = names(vec![(sender, PRIMARY_AGENT_NAME), (target, "Alice-worker")]);
    let mut inboxes = InboxRuntime::new();
    inboxes.register_required_reply(
        sender,
        "Alice-worker".to_string(),
        target,
        "pending-msg".to_string(),
        "request body".to_string(),
    );
    (inboxes, known, sender, target)
}

#[test]
fn swarm_call_reply_to_message_id_resolves_required_reply_obligation() {
    let (mut inboxes, known, sender, _) = with_pending_request();
    let call = args("Alice-worker", "reply body", "reply-msg", false, Some("pending-msg"));
    make_call(&mut inboxes, &known, sender, PRIMARY_AGENT_NAME, &call, true).expect("call");
    assert!(inboxes.unresolved_required_reply_obligations(sender).is_empty());
}

#[test]
fn default_mode_need_reply_does_not_register_required_reply_obligation() {
    let (root, agent) = (thread(1), thread(2));
    let known = names(vec![(agent, "Alice-worker")]);
    let mut inboxes = InboxRuntime::new();
    let call = args("Alice-worker", "please reply", "m-required", true, None);
    make_call(&mut inboxes, &known, root, PRIMARY_AGENT_NAME, &call, false).expect("call");
    assert!(inboxes.unresolved_required_reply_obligations(agent).is_empty());
}

#[test]
fn swarm_unmatched_reply_to_message_id_is_noop_for_required_reply_tracker() {
    let (mut inboxes, known, sender, _) = with_pending_request();
    let call = args("Alice-worker", "reply body", "reply-msg", false, Some("other-msg"));
    make_call(&mut inboxes, &known, sender, PRIMARY_AGENT_NAME, &call, true).expect("call");
    let unresolved = inboxes.unresolved_required_reply_obligations(sender);
    assert_eq!(unresolved.len(), 1);
    assert_eq!(unresolved[0].message_id, "pending-msg");
}

#[test]
fn swarm_rejects_duplicate_inflight_message_id_for_same_receiver() {
    let target = thread(2);
    let known = names(vec![(target, "Alice-worker")]);
    let mut inboxes = InboxRuntime::new();
    inboxes.register_required_reply(
        target,
        "sender-a".to_string(),
        thread(3),
        "m-dup".to_string(),
        "first body".to_string(),
    );
    let call = args("Alice-worker", "second body", "m-dup", true, None);
    let err = plan_call(&mut inboxes, &known, &call, true).expect_err("duplicate");
    assert_eq!(
        err,
        FunctionCallError::RespondToModel(
            "message_id already has an unresolved need_reply obligation for target agent `Alice-worker`: m-dup"
                .to_string(),
        )
    );
}

fn spawned(parent: ThreadId, kind: SpawnedAgentType, hint: &str) -> SessionSource {
    SessionSource::SubAgent(SubAgentSource::ThreadSpawn {
        parent_thread_id: parent,
        depth: 1,
        agent_type: Some(kind),
        agent_name_hint: Some(hint.to_string()),
    })
}

fn text_of(items: &[UserInput]) -> &str {
    match &items[0] {
        UserInput::Text { text, .. } => text,
        other => panic!("expected text input: {other:?}"),
    }
}

#[test]
fn call_appends_recent_root_user_inputs_for_direct_verifier_child() {
    let root = thread(1);
    let inputs = vec![
        "First human requirement".to_string(),
        "Second human requirement".to_string(),
        "Latest human requirement".to_string(),
    ];
    let target = spawned(root, SpawnedAgentType::Verifier, "Quinn-verifier");
    let content = augment_call_content_for_verifier(
        &SessionSource::Cli,
        Some(&target),
        root,
        &inputs,
        "Please verify the implementation.",
    );
    let items = build_call_message(PRIMARY_AGENT_NAME, "verify-1", None, &content, false);
    assert_eq!(items.len(), 1);
    let text = text_of(&items);
    assert!(text.contains("call from [wmj-assistant],reply_to[none],message_id[verify-1]"));
    assert!(text.contains("Please verify the implementation."));
    assert!(text.contains("Please also consider the following recent real human user inputs from the main agent session."));
    assert!(text.contains("- User input 1:\nFirst human requirement"));
    assert!(text.contains("- User input 2:\nSecond human requirement"));
    assert!(text.contains("- User input 3 (latest):\nLatest human requirement"));
}

#[test]
fn call_does_not_append_recent_user_inputs_for_non_verifier_child() {
    let root = thread(1);
    let inputs = vec!["Only for verifier".to_string()];
    let target = spawned(root, SpawnedAgentType::Worker, "Wren-worker");
    let content = augment_call_content_for_verifier(
        &SessionSource::Cli,
        Some(&target),
        root,
        &inputs,
        "Please implement the fix.",
    );
    let items = build_call_message(PRIMARY_AGENT_NAME, "work-1", None, &content, false);
    let text = text_of(&items);
    assert!(text.contains("Please implement the fix."));
    assert!(!text.contains("recent real human user inputs"));
    assert!(!text.contains("Only for verifier"));
}

#[test]
fn call_returns_failed_output_for_missing_thread_id() {
    let id = thread(99);
    let call = args(&id.to_text(), "hello", "m1", false, None);
    let plan = plan_call(&mut InboxRuntime::new(), &names(Vec::new()), &call, false).expect("plan");
    assert_eq!(plan.target, ResolvedCallTarget::Agent(id));
    assert_eq!(dispatch_mode_for_status(&AgentStatus::NotFound), None);
    let output = call_output(false);
    assert_eq!(output.text, CALL_FAILED_TEXT);
    assert_eq!(output.success, Some(false));
}

#[test]
fn failures_are_noted() {
    assert_eq!(call_error_details("A", &SendFailure::ThreadNotFound), "agent name not found: A");
    assert_eq!(call_error_details("A", &SendFailure::InternalAgentDied), "agent `A` is closed");
}

#[test]
fn build_call_message_prepends_correlation_header() {
    let items = build_call_message("Alice-worker", "m-1", Some("m-0"), "hello", false);
    assert_eq!(
        items,
        vec![UserInput::Text {
            text: "call from [Alice-worker],reply_to[m-0],message_id[m-1]\n\nhello".to_string(),
            text_elements: Vec::new(),
        }]
    );
}

#[test]
fn build_call_message_uses_none_reply_when_missing() {
    let items = build_call_message("Alice-worker", "m-1", None, "hello", false);
    assert_eq!(
        items,
        vec![UserInput::Text {
            text: "call from [Alice-worker],reply_to[none],message_id[m-1]\n\nhello".to_string(),
            text_elements: Vec::new(),
        }]
    );
}

#[test]
fn calls_that_need_a_reply_say_how() {
    let items = build_call_message("Alice-worker", "m-1", None, "hello", true);
    let text = text_of(&items);
    assert!(text.starts_with("call from [Alice-worker],reply_to[none],message_id[m-1]\n\nhello\n\nWhen finished"));
    assert!(text.contains("- reply_to_message_id: \"m-1\""));
    assert!(input_preview(&items).contains("hello"));
}

#[test]
fn root_agents_get_their_name_and_others_must_have_one() {
    let root = thread(1);
    let none = names(Vec::new());
    assert_eq!(
        ensure_sender_agent_name(&none, root, &SessionSource::Cli),
        Ok(SenderName::RegisterPrimary)
    );
    let known = names(vec![(root, "Ada")]);
    assert_eq!(
        ensure_sender_agent_name(&known, root, &SessionSource::Cli),
        Ok(SenderName::Known("Ada".to_string()))
    );
    let source = spawned(thread(2), SpawnedAgentType::Worker, "W");
    assert!(ensure_sender_agent_name(&none, root, &source).is_err());
}

#[test]
fn normalize_call_content_utf8_keeps_clean_text() {
    let clean = "please review swarm flow and report";
    assert_eq!(normalize_call_content_utf8(clean), clean);
}

#[test]
fn normalize_call_content_utf8_reduces_mojibake_markers() {
    let source = "\u{8bf7}\u{805a}\u{7126} Swarm \
                  \u{6a21}\u{5f0f}\u{7684}\u{4f7f}\u{7528}\u{4f53}\u{9a8c}\u{4e0e}\
                  \u{53ef}\u{9a8c}\u{8bc1}\u{6027}";
    let (garbled, _, _) = GBK.decode(source.as_bytes());
    let garbled = garbled.into_owned();
    let repaired = normalize_call_content_utf8(&garbled);

    assert!(content_repair_score(&repaired) <= content_repair_score(&garbled));
}

#[test]
fn parse_call_args_repairs_mojibake_content() {
    let source = "\u{7edf}\u{4e00} call \
                  \u{6d88}\u{606f}\u{94fe}\u{8def}\u{7684} UTF-8 \
                  \u{7f16}\u{7801}/\u{89e3}\u{7801}";
    let (garbled, _, _) = GBK.decode(source.as_bytes());
    let garbled = garbled.into_owned();
    let arguments = arguments(vec![
        ("target_agent_name", "Alice-worker".into()),
        ("content", garbled.clone().into()),
        ("message_id", "m-1".into()),
    ]);

    let parsed = parse_call_args(&arguments).expect("parse call args");
    assert!(content_repair_score(&parsed.content) <= content_repair_score(&garbled));
}

#[test]
fn wrongly_decoded_texts_are_read_again() {
    let source = "\u{4f60}\u{597d}";
    let (garbled, _, _) = GBK.decode(source.as_bytes());
    assert_eq!(transcode_to_utf8(&garbled, RetryEncoding::Gbk), Some(source.to_string()));
    assert_eq!(transcode_to_utf8("\u{1f600}", RetryEncoding::Gbk), None);
}

#[test]
fn calls_to_oneself_are_not_sent_on() {
    assert!(is_sent_on(thread(1), thread(2)));
    assert!(!is_sent_on(thread(1), thread(1)));
}
