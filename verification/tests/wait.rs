use codex_core::ids::ThreadId;
use codex_core::protocol::{
    AgentNames, AgentStatus, FunctionCallError, PRIMARY_AGENT_NAME,
};
use codex_core::tools::handlers::collab_inbox::InboxRuntime;
use codex_core::tools::handlers::read_agent_status::{
    latest_summaries, lifecycle_text, status_report, status_target,
};
use codex_core::tools::handlers::wait::{
    begin_wait, finish_wait, poll_wait, prepare_wait, record_notice, wait_notice_content,
    TimeoutStreaks, WaitArgs, WaitFinished, WaitPoll, MAX_WAIT_TIMEOUT_MS,
};

fn thread(value: u128) -> ThreadId {
    ThreadId { value }
}

fn names(entries: Vec<(ThreadId, &str)>) -> AgentNames {
    AgentNames {
        entries: entries.into_iter().map(|(id, name)| (id, name.to_string())).collect(),
        unnamed: "unnamed".to_string(),
    }
}

fn wait_args(timeout_ms: Option<i64>, target_id: Option<&str>, target_agent_id: Option<&str>) -> WaitArgs {
    WaitArgs {
        timeout_ms,
        target_agent_id: target_agent_id.map(str::to_string),
        target_id: target_id.map(str::to_string),
    }
}

/// Waits until there is a message or nothing is left of the time.
fn wait(inboxes: &mut InboxRuntime, streaks: &mut TimeoutStreaks, names: &AgentNames, id: ThreadId, args: &WaitArgs) -> Result<WaitFinished, FunctionCallError> {
    let plan = prepare_wait(args, names, id, "wait-1")?;
    let mut filter = None;
    let logical = plan.is_logical();
    if let Some(target) = &plan.target {
        if let Some(notice) = &target.notice {
            record_notice(inboxes, &plan.sender_agent_name, notice);
        }
        filter = Some(target.sender_filter.clone());
    }
    let pending = begin_wait(inboxes, names, id);
    let consumed = match poll_wait(inboxes, id, filter.as_deref(), logical, 0) {
        WaitPoll::Message(message) => Some(message),
        WaitPoll::TimedOut => None,
        WaitPoll::Sleep(_) => panic!("no time is left"),
    };
    Ok(finish_wait(inboxes, streaks, names, id, &pending, consumed, plan.timeout_ms))
}

fn append(inboxes: &mut InboxRuntime, to: ThreadId, from: &str, id: &str, reply_to: Option<&str>, text: &str) {
    inboxes.append_message(
        to,
        from.to_string(),
        id.to_string(),
        reply_to.map(str::to_string),
        text.to_string(),
    );
}

#[test]
fn wait_accepts_timeout_only_and_returns_message() {
    let me = thread(1);
    let mut inboxes = InboxRuntime::new();
    append(&mut inboxes, me, "Alice-worker", "m1", Some("1322"), "reply 1322");
    let done = wait(&mut inboxes, &mut TimeoutStreaks::new(), &names(Vec::new()), me, &wait_args(Some(50), None, None))
        .expect("wait should return");
    assert!(!done.result.timed_out);
    assert_eq!(done.content.as_deref(), Some("reply 1322"));
}

#[test]
fn wait_returns_one_message_per_call_in_fifo_order() {
    let me = thread(1);
    let known = names(Vec::new());
    let mut inboxes = InboxRuntime::new();
    let mut streaks = TimeoutStreaks::new();
    append(&mut inboxes, me, "Alice-worker", "m1", None, "first");
    append(&mut inboxes, me, "Bob-worker", "m2", None, "second");
    for expected in ["first", "second"] {
        let done = wait(&mut inboxes, &mut streaks, &known, me, &wait_args(Some(50), None, None))
            .expect("wait should return");
        assert!(!done.result.timed_out);
        assert_eq!(done.content.as_deref(), Some(expected));
    }
}

fn with_final_check() -> (InboxRuntime, AgentNames, ThreadId, ThreadId) {
    let (me, target) = (thread(1), thread(2));
    let known = names(vec![(target, "Dakota-worker")]);
    let mut inboxes = InboxRuntime::new();
    inboxes.register_required_reply(
        target,
        "wmj-assistant".to_string(),
        me,
        "main-dakota-finalcheck".to_string(),
        "please validate final artifact".to_string(),
    );
    (inboxes, known, me, target)
}

#[test]
fn wait_warns_when_fifo_message_does_not_match_pending_reply() {
    let (mut inboxes, known, me, target) = with_final_check();
    append(&mut inboxes, me, "Dakota-worker", "old-validate-reply", Some("main-dakota-validate"), "old repair request");
    let done = wait(&mut inboxes, &mut TimeoutStreaks::new(), &known, me, &wait_args(Some(50), None, None))
        .expect("wait should return");
    assert_eq!(done.content.as_deref(), Some("old repair request"));
    assert!(done.result.stale_or_unrelated_message);
    assert!(done.result.stale_reply_warning.expect("warning").contains("Dakota-worker:main-dakota-finalcheck"));
    assert!(inboxes.has_required_reply_obligation(target, "main-dakota-finalcheck"));
}

#[test]
fn wait_marks_reply_to_pending_obligation_as_matching() {
    let (mut inboxes, known, me, _) = with_final_check();
    append(&mut inboxes, me, "Dakota-worker", "finalcheck-reply", Some("main-dakota-finalcheck"), "verified");
    let done = wait(&mut inboxes, &mut TimeoutStreaks::new(), &known, me, &wait_args(Some(50), None, None))
        .expect("wait should return");
    assert_eq!(done.content.as_deref(), Some("verified"));
    assert!(done.result.matched_expected_reply);
    assert_eq!(done.result.matched_reply_to_message_id.as_deref(), Some("main-dakota-finalcheck"));
}

#[test]
fn wait_unblocks_when_message_arrives_after_wait_starts() {
    let me = thread(1);
    let known = names(Vec::new());
    let mut inboxes = InboxRuntime::new();
    begin_wait(&mut inboxes, &known, me);
    assert!(matches!(poll_wait(&mut inboxes, me, None, false, 5000), WaitPoll::Sleep(5000)));
    append(&mut inboxes, me, "Alice-worker", "m-late", None, "late message");
    match poll_wait(&mut inboxes, me, None, false, 4000) {
        WaitPoll::Message(message) => assert_eq!(message.content, "late message"),
        other => panic!("expected a message: {other:?}"),
    }
}

#[test]
fn wait_times_out_when_inbox_stays_empty() {
    let me = thread(1);
    let done = wait(&mut InboxRuntime::new(), &mut TimeoutStreaks::new(), &names(Vec::new()), me, &wait_args(Some(20), None, None))
        .expect("wait should return");
    assert!(done.result.timed_out);
    assert_eq!(done.content, None);
    assert_eq!(done.result.messages.len(), 0);
    assert!(done.result.suggestion.unwrap_or_default().contains("Timed out after"));
}

#[test]
fn wait_target_id_only_consumes_messages_from_that_target() {
    let (me, alice, bob) = (thread(1), thread(2), thread(3));
    let known = names(vec![(me, PRIMARY_AGENT_NAME), (alice, "Alice-worker"), (bob, "Bob-worker")]);
    let mut inboxes = InboxRuntime::new();
    append(&mut inboxes, me, "Bob-worker", "bob-unrelated", None, "this must remain queued");
    append(&mut inboxes, me, "Alice-worker", "alice-target", None, "target reply");
    let done = wait(&mut inboxes, &mut TimeoutStreaks::new(), &known, me, &wait_args(Some(50), Some("Alice-worker"), None))
        .expect("wait should return target message");
    assert_eq!(done.content.as_deref(), Some("target reply"));

    let (_, remaining) = inboxes.pop_next_message(me);
    let remaining = remaining.expect("unrelated message should remain queued");
    assert_eq!(remaining.sender_agent_name, "Bob-worker");
    assert_eq!(remaining.message_id, "bob-unrelated");
}

#[test]
fn wait_target_id_consumes_logical_human_message() {
    let me = thread(1);
    let known = names(vec![(me, PRIMARY_AGENT_NAME)]);
    let receiver = me.to_text();
    let mut inboxes = InboxRuntime::new();
    inboxes.append_logical_message(
        "user_ceo",
        "user_ceo".to_string(),
        "human-reply-1".to_string(),
        true,
        Some("request-1".to_string()),
        "approved".to_string(),
    );
    inboxes.append_logical_message(
        &receiver,
        "agent_a".to_string(),
        "agent-reply-1".to_string(),
        false,
        None,
        "keep me queued".to_string(),
    );
    let done = wait(&mut inboxes, &mut TimeoutStreaks::new(), &known, me, &wait_args(Some(50), Some("user_ceo"), None))
        .expect("wait should return human message");
    assert_eq!(done.content.as_deref(), Some("approved"));

    let (_, remaining) = inboxes.pop_next_logical(&receiver);
    assert_eq!(remaining.expect("agent message should remain queued").message_id, "agent-reply-1");
}

#[test]
fn wait_with_target_agent_id_notifies_target_agent() {
    let (me, alice) = (thread(1), thread(2));
    let known = names(vec![(me, PRIMARY_AGENT_NAME), (alice, "Alice-worker")]);
    let expected_notice = wait_notice_content(PRIMARY_AGENT_NAME, me);
    let args = wait_args(Some(20), None, Some("Alice-worker"));
    let plan = prepare_wait(&args, &known, me, "wait-1").expect("plan");
    assert!(!plan.is_logical());
    let notice = plan.target.expect("target").notice.expect("notice");
    assert_eq!(notice.target.agent_id, "Alice-worker");
    assert_eq!(notice.target.agent_name, "Alice-worker");
    assert_eq!(notice.target.thread_id, alice);
    assert_eq!(notice.target.message_id, "wait-notice-wait-1");
    assert_eq!(notice.content, expected_notice);

    let mut inboxes = InboxRuntime::new();
    let done = wait(&mut inboxes, &mut TimeoutStreaks::new(), &known, me, &args).expect("wait should return");
    assert!(done.result.timed_out);
    let (_, message) = inboxes.pop_next_message(alice);
    let message = message.expect("wait notice inbox message");
    assert_eq!(message.sender_agent_name, PRIMARY_AGENT_NAME);
    assert_eq!(message.message_id, "wait-notice-wait-1");
    assert_eq!(message.reply_to_message_id, None);
    assert_eq!(message.content, expected_notice);
}

#[test]
fn wait_rejects_empty_target_agent_id() {
    let err = prepare_wait(&wait_args(Some(20), None, Some("   ")), &names(Vec::new()), thread(1), "wait-1")
        .expect_err("wait should reject empty target_agent_id");
    assert_eq!(
        err,
        FunctionCallError::RespondToModel("target_id must be non-empty when set".to_string())
    );
}

#[test]
fn wait_rejects_non_positive_timeout() {
    let err = prepare_wait(&wait_args(Some(0), None, None), &names(Vec::new()), thread(1), "wait-1")
        .expect_err("wait should reject non-positive timeout");
    assert_eq!(
        err,
        FunctionCallError::RespondToModel("timeout_ms must be greater than zero".to_string())
    );
}

#[test]
fn waits_are_bounded_and_never_for_oneself() {
    let me = thread(1);
    let known = names(vec![(me, "Me")]);
    let plan = prepare_wait(&wait_args(Some(i64::MAX), None, None), &known, me, "w").expect("plan");
    assert_eq!(plan.timeout_ms, MAX_WAIT_TIMEOUT_MS);
    let err = prepare_wait(&wait_args(None, None, None), &known, me, "w").expect_err("no time");
    assert_eq!(err.message(), "timeout_ms is required unless target_id is set");
    let err = prepare_wait(&wait_args(None, Some("Me"), None), &known, me, "w").expect_err("self");
    assert_eq!(err.message(), "target_agent_id must not refer to the waiting agent itself");
}

#[test]
fn wait_requires_halt_after_five_consecutive_timeouts() {
    let me = thread(1);
    let known = names(Vec::new());
    let mut inboxes = InboxRuntime::new();
    let mut streaks = TimeoutStreaks::new();
    for attempt in 1..=5u8 {
        let done = wait(&mut inboxes, &mut streaks, &known, me, &wait_args(Some(20), None, None))
            .expect("wait should return");
        assert!(done.result.timed_out);
        assert_eq!(done.result.timeout_streak, attempt);
        if attempt < 5 {
            assert!(!done.result.halt_required, "attempt {attempt} should not force halt");
        } else {
            assert!(done.result.halt_required, "attempt {attempt} should force halt");
            assert!(done.result.suggestion.unwrap_or_default().contains("STOP: do not call wait again"));
        }
    }
}

#[test]
fn wait_timeout_streak_resets_after_success() {
    let me = thread(1);
    let known = names(Vec::new());
    let mut inboxes = InboxRuntime::new();
    let mut streaks = TimeoutStreaks::new();
    for _ in 0..3 {
        let done = wait(&mut inboxes, &mut streaks, &known, me, &wait_args(Some(20), None, None))
            .expect("wait should return");
        assert!(done.result.timed_out);
    }
    append(&mut inboxes, me, "Alice-worker", "m1", None, "reply");
    let done = wait(&mut inboxes, &mut streaks, &known, me, &wait_args(Some(50), None, None))
        .expect("wait should return");
    assert_eq!(done.content.as_deref(), Some("reply"));
    let done = wait(&mut inboxes, &mut streaks, &known, me, &wait_args(Some(20), None, None))
        .expect("wait should return");
    assert!(done.result.timed_out);
    assert_eq!(done.result.timeout_streak, 1);
}

#[test]
fn latest_summaries_keeps_only_ten_most_recent_entries() {
    let entries = (1..=12).map(|idx| format!("entry-{idx}")).collect::<Vec<_>>();

    let summaries = latest_summaries(entries);

    assert_eq!(summaries, (3..=12).map(|idx| format!("entry-{idx}")).collect::<Vec<_>>());
}

#[test]
fn read_agent_status_returns_target_agent_recent_summaries() {
    let target = thread(2);
    let known = names(vec![(target, "Alice-worker")]);
    assert_eq!(status_target(&known, "Alice-worker"), Ok(target));
    let report = status_report(
        &InboxRuntime::new(),
        &known,
        "Alice-worker",
        target,
        &AgentStatus::NotFound,
        "waiting",
        "idle",
        Some((1..=12).map(|idx| format!("entry-{idx}")).collect()),
    );
    assert_eq!(report.agent_id, "Alice-worker");
    assert_eq!(report.status, "idle");
    assert_eq!(report.lifecycle_status, "NotFound");
    assert_eq!(report.waiting_reason, None);
    assert_eq!(
        report.recent_summaries,
        (3..=12).map(|idx| format!("entry-{idx}")).collect::<Vec<_>>()
    );
}

#[test]
fn read_agent_status_reports_waiting_without_blocked_state() {
    let (source, receiver) = (thread(2), thread(3));
    let known = names(vec![(source, "Source-worker"), (receiver, "Receiver-worker")]);
    let mut inboxes = InboxRuntime::new();
    inboxes.register_required_reply(
        receiver,
        "Source-worker".to_string(),
        source,
        "source-receiver-topic".to_string(),
        "please reply".to_string(),
    );
    let report = status_report(
        &inboxes,
        &known,
        "Source-worker",
        source,
        &AgentStatus::NotFound,
        "waiting",
        "idle",
        None,
    );
    assert_eq!(report.status, "waiting");
    assert_eq!(
        report.waiting_reason.as_deref(),
        Some("waiting for reply from Receiver-worker to message_id source-receiver-topic")
    );
    assert!(report.recent_summaries.is_empty());
}

#[test]
fn lifecycle_states_are_shown() {
    assert_eq!(lifecycle_text(&AgentStatus::Running), "Running");
    assert_eq!(
        lifecycle_text(&AgentStatus::Completed(Some("say \"hi\"\n".to_string()))),
        "Completed(Some(\"say \\\"hi\\\"\\n\"))"
    );
    assert_eq!(lifecycle_text(&AgentStatus::Errored("x".to_string())), "Errored(\"x\")");
    assert!(status_target(&names(Vec::new()), "nobody").is_err());
}
