use codex_core::ids::ThreadId;
use codex_core::tools::handlers::collab_inbox::{
    InboxRuntime, PendingRequiredReplyObligation, RequiredReplyObligation, MAX_MESSAGES_PER_THREAD,
};

fn thread(value: u128) -> ThreadId {
    ThreadId { value }
}

fn register(inboxes: &mut InboxRuntime, to: ThreadId, name: &str, from: ThreadId, id: &str, text: &str) {
    inboxes.register_required_reply(to, name.to_string(), from, id.to_string(), text.to_string());
}

fn append(inboxes: &mut InboxRuntime, to: ThreadId, from: &str, id: &str, text: &str) -> u64 {
    inboxes.append_message(to, from.to_string(), id.to_string(), None, text.to_string())
}

fn ids(obligations: &[RequiredReplyObligation]) -> Vec<&str> {
    obligations.iter().map(|o| o.message_id.as_str()).collect()
}

fn assert_pending(p: &PendingRequiredReplyObligation, to: ThreadId, id: &str, reminders: u8) {
    assert_eq!(p.receiver_thread_id, Some(to));
    assert_eq!(p.obligation.message_id, id);
    assert_eq!(p.obligation.reminder_count, reminders);
}

#[test]
fn required_reply_lifecycle_registers_and_resolves_by_message_id() {
    let mut inboxes = InboxRuntime::new();
    let receiver = thread(1);
    let source_thread = thread(2);
    register(&mut inboxes, receiver, "sender-a", source_thread, "msg-1", "first");
    register(&mut inboxes, receiver, "sender-b", thread(3), "msg-2", "second");

    let unresolved = inboxes.unresolved_required_reply_obligations(receiver);
    assert_eq!(unresolved.len(), 2);
    assert_eq!(unresolved[0].message_id, "msg-1");
    assert_eq!(unresolved[1].message_id, "msg-2");

    assert!(inboxes.resolve_required_reply(receiver, source_thread, "msg-1"));
    assert!(inboxes.has_resolved_required_reply(receiver, source_thread, "msg-1"));
    assert!(!inboxes.has_required_reply_obligation(receiver, "msg-1"));
    let unresolved = inboxes.unresolved_required_reply_obligations(receiver);
    assert_eq!(unresolved.len(), 1);
    assert_eq!(unresolved[0].message_id, "msg-2");
    assert_eq!(unresolved[0].source_agent_name, "sender-b");
}

#[test]
fn required_reply_resolution_noops_when_source_thread_mismatches() {
    let mut inboxes = InboxRuntime::new();
    let receiver = thread(1);
    register(&mut inboxes, receiver, "sender-a", thread(2), "msg-1", "first");

    assert!(!inboxes.resolve_required_reply(receiver, thread(3), "msg-1"));
    let unresolved = inboxes.unresolved_required_reply_obligations(receiver);
    assert_eq!(unresolved.len(), 1);
    assert_eq!(unresolved[0].message_id, "msg-1");
}

#[test]
fn has_required_reply_obligation_tracks_registered_ids() {
    let mut inboxes = InboxRuntime::new();
    let receiver = thread(1);
    assert!(!inboxes.has_required_reply_obligation(receiver, "msg-1"));
    register(&mut inboxes, receiver, "sender-a", thread(2), "msg-1", "first");
    assert!(inboxes.has_required_reply_obligation(receiver, "msg-1"));
    assert!(!inboxes.has_required_reply_obligation(receiver, "msg-2"));
}

#[test]
fn claim_required_reply_reminders_is_bounded() {
    let mut inboxes = InboxRuntime::new();
    let receiver = thread(1);
    register(&mut inboxes, receiver, "sender-a", thread(2), "msg-1", "first");
    register(&mut inboxes, receiver, "sender-b", thread(3), "msg-2", "second");

    let first = inboxes.claim_required_reply_reminders(receiver, 2);
    assert_eq!(ids(&first), vec!["msg-1", "msg-2"]);
    let second = inboxes.claim_required_reply_reminders(receiver, 2);
    assert_eq!(ids(&second), vec!["msg-1", "msg-2"]);
    let third = inboxes.claim_required_reply_reminders(receiver, 2);
    assert!(third.is_empty());
}

#[test]
fn pop_next_message_preserves_fifo_order() {
    let mut inboxes = InboxRuntime::new();
    let receiver = thread(1);
    append(&mut inboxes, receiver, "agent-a", "m1", "first");
    append(&mut inboxes, receiver, "agent-b", "m2", "second");

    let (_, first) = inboxes.pop_next_message(receiver);
    let (_, second) = inboxes.pop_next_message(receiver);
    let (_, third) = inboxes.pop_next_message(receiver);

    assert_eq!(first.expect("first message").message_id, "m1", "expected oldest message first");
    assert_eq!(second.expect("second message").message_id, "m2", "expected next message second");
    assert!(third.is_none(), "queue should be empty after two pops");
}

#[test]
fn reload_preserves_wait_notify_handles() {
    let mut inboxes = InboxRuntime::new();
    let receiver = thread(1);
    inboxes.subscribe(receiver);
    let stored = inboxes.snapshot();
    inboxes.merge_snapshot(stored);
    inboxes.append_message(
        receiver,
        "agent-c".to_string(),
        "reply-1".to_string(),
        Some("request-1".to_string()),
        "done".to_string(),
    );
    let (_, message) = inboxes.pop_message_from_sender(receiver, "agent-c");
    assert_eq!(message.expect("message").message_id, "reply-1");
}

#[test]
fn merging_wakes_those_whose_inbox_changed() {
    let mut stored = InboxRuntime::new();
    let receiver = thread(1);
    append(&mut stored, receiver, "agent-a", "m1", "first");
    let mut inboxes = InboxRuntime::new();
    inboxes.subscribe(receiver);
    let woken = inboxes.merge_snapshot(stored.snapshot());
    assert_eq!(woken, vec![receiver.to_text()]);
    let (_, message) = inboxes.pop_next_message(receiver);
    assert_eq!(message.expect("merged message").content, "first");
}

#[test]
fn clear_required_reply_obligations_only_affects_target_receiver() {
    let mut inboxes = InboxRuntime::new();
    let (receiver_a, receiver_b) = (thread(1), thread(2));
    register(&mut inboxes, receiver_a, "sender-a", thread(3), "msg-a1", "a1");
    register(&mut inboxes, receiver_b, "sender-b", thread(4), "msg-b1", "b1");

    let cleared = inboxes.clear_required_reply_obligations(receiver_a);
    assert_eq!(cleared, 1);
    assert!(inboxes.unresolved_required_reply_obligations(receiver_a).is_empty());
    assert_eq!(inboxes.unresolved_required_reply_obligations(receiver_b).len(), 1);
}

#[test]
fn unresolved_required_reply_obligations_from_source_lists_all_targets() {
    let mut inboxes = InboxRuntime::new();
    let (source, other_source) = (thread(1), thread(2));
    let (receiver_a, receiver_b) = (thread(3), thread(4));
    register(&mut inboxes, receiver_a, "sender-a", source, "msg-a1", "a1");
    register(&mut inboxes, receiver_b, "sender-a", source, "msg-b1", "b1");
    register(&mut inboxes, receiver_b, "sender-b", other_source, "msg-b2", "b2");

    let unresolved = inboxes.unresolved_required_reply_obligations_from_source(source);
    assert_eq!(unresolved.len(), 2);
    assert_eq!(unresolved[0].receiver_thread_id, Some(receiver_a));
    assert_eq!(unresolved[0].obligation.message_id, "msg-a1");
    assert_eq!(unresolved[1].receiver_thread_id, Some(receiver_b));
    assert_eq!(unresolved[1].obligation.message_id, "msg-b1");
}

#[test]
fn claim_required_reply_reminders_from_source_thread_is_bounded() {
    let mut inboxes = InboxRuntime::new();
    let (source, other_source) = (thread(1), thread(2));
    let (receiver_a, receiver_b) = (thread(3), thread(4));
    register(&mut inboxes, receiver_a, "sender-a", source, "msg-a1", "a1");
    register(&mut inboxes, receiver_b, "sender-a", source, "msg-b1", "b1");
    register(&mut inboxes, receiver_b, "sender-b", other_source, "msg-b2", "b2");

    let reminders = inboxes.claim_required_reply_reminders_from_source_thread(source, 1);
    assert_eq!(reminders.len(), 2);
    assert_pending(&reminders[0], receiver_a, "msg-a1", 1);
    assert_pending(&reminders[1], receiver_b, "msg-b1", 1);

    assert!(inboxes.claim_required_reply_reminders_from_source_thread(source, 1).is_empty());

    let unresolved = inboxes.unresolved_required_reply_obligations_from_source(source);
    assert_eq!(unresolved.len(), 2);
    assert_eq!(unresolved[0].obligation.reminder_count, 1);
    assert_eq!(unresolved[1].obligation.reminder_count, 1);

    let unrelated = inboxes.unresolved_required_reply_obligations_from_source(other_source);
    assert_eq!(unrelated.len(), 1);
    assert_eq!(unrelated[0].obligation.message_id, "msg-b2");
    assert_eq!(unrelated[0].obligation.reminder_count, 0);
}

#[test]
fn clear_required_reply_obligations_for_source_thread_spans_all_receivers() {
    let mut inboxes = InboxRuntime::new();
    let (source, other_source) = (thread(1), thread(2));
    let (receiver_a, receiver_b) = (thread(3), thread(4));
    register(&mut inboxes, receiver_a, "sender-a", source, "msg-a1", "a1");
    register(&mut inboxes, receiver_a, "sender-a", other_source, "msg-a2", "a2");
    register(&mut inboxes, receiver_b, "sender-b", source, "msg-b1", "b1");

    let cleared = inboxes.clear_required_reply_obligations_for_source_thread(source);
    assert_eq!(cleared, 2);

    let unresolved_a = inboxes.unresolved_required_reply_obligations(receiver_a);
    assert_eq!(unresolved_a.len(), 1);
    assert_eq!(unresolved_a[0].message_id, "msg-a2");

    assert!(inboxes.unresolved_required_reply_obligations(receiver_b).is_empty());
}

#[test]
fn inboxes_drop_their_oldest_messages() {
    let mut inboxes = InboxRuntime::new();
    let receiver = thread(1);
    for i in 0..MAX_MESSAGES_PER_THREAD + 2 {
        append(&mut inboxes, receiver, "a", &format!("m{i}"), "x");
    }
    let messages = inboxes.messages_for(receiver);
    assert_eq!(messages.len(), MAX_MESSAGES_PER_THREAD);
    assert_eq!(messages[0].message_id, "m2");
}

#[test]
fn thread_ids_are_uuids() {
    let id = thread(0x0123_4567_89ab_cdef_0123_4567_89ab_cdef);
    assert_eq!(id.to_text(), "01234567-89ab-cdef-0123-456789abcdef");
    assert_eq!(ThreadId::from_string("01234567-89ab-cdef-0123-456789abcdef"), Some(id));
    assert_eq!(ThreadId::from_string("user_ceo"), None);
}

#[test]
fn messages_are_taken_by_sender() {
    let mut inboxes = InboxRuntime::new();
    inboxes.append_logical_message(
        "user_a",
        "agent_a".to_string(),
        "m1".to_string(),
        true,
        None,
        "one".to_string(),
    );
    inboxes.append_logical_message(
        "user_a",
        "agent_b".to_string(),
        "m2".to_string(),
        false,
        Some("m0".to_string()),
        "two".to_string(),
    );
    let (_, taken) = inboxes.pop_logical_message_from_sender("user_a", "agent_b");
    assert_eq!(taken.expect("message of agent_b").message_id, "m2");
    let left = inboxes.messages_for_logical("user_a");
    assert_eq!(left.len(), 1);
    assert!(left[0].need_reply);
}
