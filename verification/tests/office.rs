use codex_core::ids::ThreadId;
use codex_core::json::JsonField;
use codex_core::office::activity::{
    agent_message_text, command_summary, extract_reply_to_message_id,
    record_runtime_event_from_codex, runtime_activity_from_event, trimmed_preview,
    wait_targets_detail, wait_targets_label, CommandStatus, RuntimeEvent, TurnItem,
};
use codex_core::office::blackboard::{OfficeBlackboard, OfficeBlackboardStore};
use codex_core::office::handlers::{
    agent_context_snapshot, current_session, fitting_session, interview, learn_from_owner_message,
    log_in, log_out, note_owner_message, owner_message_view, owner_profile_prompt_for_session,
    post_note, queue_owner_message, reflection, settle_owner_message, show_me, take_owner_message,
    BlackboardPostRequest, InterviewRequest, LoginRequest, OwnerMessageRequest, NOT_LOGGED_IN,
};
use codex_core::office::memory::AgentMemoryStore;
use codex_core::office::message::{
    CollabMessage, MessageDelivery, MessageHubError, OfficeMessageHub, Participant, ParticipantId,
    ParticipantKind,
};
use codex_core::office::pages::{
    render_blackboard_page, render_dashboard, render_error_page, render_login_page, PageAssets,
};
use codex_core::office::persistence::{PersistentPilotDirectory, PilotWebSession};
use codex_core::office::pilot::{
    extract_profile_fact_candidates, profile_fact_id, PilotDirectory, UserProfileFactCategory,
    UserProfileFactStatus,
};
use codex_core::office::profile_prompt::{rank_active_facts, render_owner_profile_prompt};
use codex_core::office::prompts::{
    merge_office_developer_instructions, render_office_agent_developer_instructions,
    render_owner_turn_context, OfficeOwnerPromptContext,
};
use codex_core::office::requests::{
    deserialize_form_compatible_bool, expire_session_cookie, form_fields, is_json_body,
    session_cookie, session_token, wants_json, FormValue,
};
use codex_core::office::runtime::{
    AgentRuntimeState, OfficeActivityKind, OfficeRuntimeSnapshot, OfficeRuntimeStore,
    OFFICE_ACTIVITY_LIMIT_PER_AGENT,
};
use codex_core::office::scheduler::{AgentSummary, OpportunityScheduler};
use codex_core::office::timeline::{OfficeTimeline, OfficeTimelineEvent, StepSummaryClock};
use codex_core::office::tools::{GatewayDecision, ToolCapabilityPolicy};
use codex_core::office::wait_policy::{HumanWaitBook, WaitOutcome, WaitPolicy};
use codex_core::office::web::{
    build_human_inbox, build_me, delivery_parent, office_developer_instructions_for_agent,
    office_fixed_agent_ids, office_owner_context_for_agent, owner_delivery_user_input,
    roster_behind, spawn_source, sync_owner_reply_ready_from_human_inboxes, OfficeAgentExternalState,
    OfficeInboxReplyStatus, OfficeOwnerDelivery, OfficeWebConfig, OFFICE_CEO_AGENT_ID,
};
use codex_core::office::workspace::{AgentWorkspace, WorkspaceArea, WorkspacePolicy};
use codex_core::protocol::{AgentNames, SessionSource, SubAgentSource};
use codex_core::swarm::{
    complex_swarm_enabled_from_env, default_root_swarm_is_complex, env_truthy,
    subagent_prompt_for_type, swarm_developer_instructions_for_session_source,
    COLLABORATION_MODE_SWARM_MAIN, COLLABORATION_MODE_SWARM_MAIN_COMPLEX,
    COLLABORATION_MODE_SWARM_SUB, COLLABORATION_MODE_SWARM_SUB_COMPLEX,
    COLLABORATION_MODE_SWARM_SUB_VERIFIER,
};
use codex_core::protocol::SpawnedAgentType;
use codex_core::time::{Day, Timestamp};
use codex_core::tools::handlers::call::UserInput;
use codex_core::tools::handlers::collab_inbox::InboxRuntime;

fn at(secs: i64) -> Timestamp {
    Timestamp { secs, nanos: 0 }
}

fn directory() -> PersistentPilotDirectory {
    PersistentPilotDirectory::seeded("/tmp/store.json".to_string())
}

fn runtime() -> OfficeRuntimeStore {
    OfficeRuntimeStore::from_snapshot("/tmp/runtime.json".to_string(), OfficeRuntimeSnapshot::empty())
}

fn id(value: &str) -> ParticipantId {
    ParticipantId::new(value)
}

// Prompts

fn sample_context() -> OfficeOwnerPromptContext {
    OfficeOwnerPromptContext {
        agent_id: "agent_b".to_string(),
        owner_user_id: "user_b".to_string(),
        binding_type: "PrimaryOwner".to_string(),
        binding_status: "Active".to_string(),
        binding_version: 3,
    }
}

#[test]
fn office_developer_instructions_are_composed_from_md_templates() {
    let text = render_office_agent_developer_instructions(
        &sample_context(),
        "- user_b: owner of agent_b; role: Infra.",
    );

    assert!(text.contains("# Office Agent Developer Instructions"));
    assert!(text.contains("<office_owner_binding schema_version=\"1\">"));
    assert!(text.contains("agent_id: agent_b"));
    assert!(text.contains("owner_user_id: user_b"));
    assert!(text.contains("binding_version: 3"));
    assert!(!text.contains("agent_role:"));
    assert!(!text.contains("owner_profile_summary"));
    assert!(!text.contains("report_preference"));
    assert!(text.contains("## Office Directory"));
    assert!(text.contains("### Fixed agent roster"));
    assert!(text.contains("agent_ceo: CEO"));
    assert!(text.contains("### Human owners"));
    assert!(text.contains("## Office Collaboration Rules"));
    assert!(text.contains("### Routing"));
    assert!(text.contains("### Owner completion"));
    assert!(text.contains("### Human collaboration"));
    assert!(text.contains("Humans are strong working partners"));
    assert!(text.contains("Do not reduce human interaction to permission requests"));
    assert!(text.contains("human challenge review after agent-agent synthesis"));
    assert!(text.contains("State your current understanding or working hypothesis"));
    assert!(text.contains("user_b: owner of agent_b"));
    assert!(!text.contains("{{HUMAN_PARTICIPANTS}}"));
}

#[test]
fn owner_turn_context_renders_dynamic_message_metadata_only() {
    let text = render_owner_turn_context(
        "agent_b",
        "user_b",
        "owner-msg-1",
        "reply-msg-0",
        true,
        Some("owner-msg-1"),
    );

    assert!(text.contains("## Office Turn Context"));
    assert!(text.contains("target_agent_id: agent_b"));
    assert!(text.contains("owner_user_id: user_b"));
    assert!(text.contains("inbound_reply_to_message_id: reply-msg-0"));
    assert!(text.contains("owner_message_id: owner-msg-1"));
    assert!(text.contains("owner_message_needs_reply: true"));
    assert!(text.contains("owner_reply_target_message_id: owner-msg-1"));
}

#[test]
fn values_in_prompts_are_escaped() {
    let mut context = sample_context();
    context.owner_user_id = "<user>&".to_string();
    let text = render_office_agent_developer_instructions(&context, "x");
    assert!(text.contains("owner_user_id: &lt;user&gt;&amp;"));
}

#[test]
fn instructions_are_put_behind_those_that_are_there() {
    let merged = merge_office_developer_instructions(Some("first".to_string()), "office".to_string());
    assert_eq!(merged.as_deref(), Some("first\n\noffice"));
    let merged = merge_office_developer_instructions(None, "office".to_string());
    assert_eq!(merged.as_deref(), Some("office"));
}

// The swarm

#[test]
fn default_root_prompt_uses_standard_swarm_when_env_disabled() {
    assert_eq!(default_root_swarm_is_complex(Some("0"), Some("0")), false);
    assert_eq!(
        swarm_developer_instructions_for_session_source(&SessionSource::Exec, false),
        COLLABORATION_MODE_SWARM_MAIN
    );
}

#[test]
fn default_root_prompt_uses_complex_swarm_when_env_enabled() {
    assert_eq!(default_root_swarm_is_complex(Some("1"), None), true);
    assert_eq!(
        swarm_developer_instructions_for_session_source(&SessionSource::Exec, true),
        COLLABORATION_MODE_SWARM_MAIN_COMPLEX
    );
}

#[test]
fn session_source_uses_sub_prompt_for_subagents() {
    assert_eq!(
        swarm_developer_instructions_for_session_source(
            &SessionSource::SubAgent(SubAgentSource::Review),
            false,
        ),
        COLLABORATION_MODE_SWARM_SUB
    );
    assert_eq!(
        swarm_developer_instructions_for_session_source(
            &SessionSource::SubAgent(SubAgentSource::Review),
            true,
        ),
        COLLABORATION_MODE_SWARM_SUB_COMPLEX
    );
}

#[test]
fn switches_of_the_environment_are_read() {
    for on in ["1", "true", "TRUE", " yes ", "on", "2"] {
        assert!(env_truthy(Some(on)), "{on}");
    }
    for off in ["0", "", "no", " OFF ", "False"] {
        assert!(!env_truthy(Some(off)), "{off}");
    }
    assert!(!env_truthy(None));
    assert!(complex_swarm_enabled_from_env(None, Some("1")));
    assert_eq!(
        subagent_prompt_for_type(false, Some(SpawnedAgentType::Verifier)),
        COLLABORATION_MODE_SWARM_SUB_VERIFIER
    );
}

// Deliveries to agents

fn only_text(input: Vec<UserInput>) -> String {
    match input.into_iter().next().expect("user input exists") {
        UserInput::Text { text, .. } => text,
        other => panic!("expected text input, got {other:?}"),
    }
}

#[test]
fn owner_delivery_includes_dynamic_turn_context_only() {
    let text = only_text(owner_delivery_user_input(&OfficeOwnerDelivery {
        agent_id: OFFICE_CEO_AGENT_ID.to_string(),
        owner_user_id: "user_ceo".to_string(),
        message_id: "owner-msg-1".to_string(),
        reply_to_message_id: None,
        content: "评估是否上线".to_string(),
        need_reply: true,
        owner_reply_target_message_id: None,
    }));

    assert!(text.contains("office owner message from [user_ceo]"));
    assert!(text.contains("reply_to[none]"));
    assert!(text.contains("message_id[owner-msg-1]"));
    assert!(text.contains("need_reply[true]"));
    assert!(text.contains("## Office Turn Context"));
    assert!(text.contains("target_agent_id: agent_ceo"));
    assert!(text.contains("owner_message_id: owner-msg-1"));
    assert!(text.contains("owner_message_needs_reply: true"));
    assert!(text.contains("owner_reply_target_message_id: owner-msg-1"));
    assert!(!text.contains("## Office Collaboration Rules"));
    assert!(!text.contains("### Human collaboration"));
    assert!(!text.contains("### Owner completion"));
}

#[test]
fn office_developer_prompt_includes_directory_owner_identity_and_collaboration_rules() {
    let directory = directory();
    let owner_context =
        office_owner_context_for_agent(&directory, "agent_b").expect("owner context");
    let text = office_developer_instructions_for_agent(&directory, &owner_context);
    assert!(text.contains("# Office Agent Developer Instructions"));
    assert!(text.contains("<office_owner_binding schema_version=\"1\">"));
    assert!(text.contains("agent_id: agent_b"));
    assert!(text.contains("owner_user_id: user_b"));
    assert!(!text.contains("agent_role:"));
    assert!(!text.contains("owner_profile_summary"));
    assert!(!text.contains("report_preference"));
    assert!(text.contains("## Office Directory"));
    assert!(text.contains("### Fixed agent roster"));
    assert!(text.contains("### Human owners"));
    assert!(text.contains("## Office Collaboration Rules"));
    assert!(text.contains("### Routing"));
    assert!(text.contains("### Owner completion"));
    assert!(text.contains("### Human collaboration"));
    assert!(text.contains("When the question depends on your own domain owner"));
    assert!(text.contains("user_b: owner of agent_b"));
    assert!(!text.contains("capabilities: 部署"));
    assert!(text.contains("binding_version: 1"));
    assert!(!text.contains("## Owner Reply Contract"));
    assert!(!text.contains("## Working with humans"));
}

#[test]
fn wait_targets_label_uses_clear_language_for_unscoped_waits() {
    assert_eq!(wait_targets_label(&Vec::new()), "next inbox message");
    assert_eq!(wait_targets_detail(&Vec::new()), "targets: any inbox message");
}

#[test]
fn agents_of_the_office_are_spawned_below_the_root() {
    let ids = office_fixed_agent_ids();
    assert_eq!(ids.len(), 6);
    assert!(ids.contains(&OFFICE_CEO_AGENT_ID.to_string()));
    assert_eq!(roster_behind(OFFICE_CEO_AGENT_ID), ids);
    assert!(roster_behind("agent_a").is_empty());
    let ceo = ThreadId { value: 3 };
    let names = AgentNames {
        entries: vec![(ceo, OFFICE_CEO_AGENT_ID.to_string())],
        unnamed: String::new(),
    };
    let parent = delivery_parent(&names, "agent_a");
    assert_eq!(parent, Some(ceo));
    match spawn_source("agent_a", parent) {
        SessionSource::SubAgent(SubAgentSource::ThreadSpawn {
            parent_thread_id,
            agent_name_hint,
            ..
        }) => {
            assert_eq!(parent_thread_id, ceo);
            assert_eq!(agent_name_hint.as_deref(), Some("agent_a"));
        }
        other => panic!("expected a spawned agent: {other:?}"),
    }
}

// Messages

fn hub() -> OfficeMessageHub {
    let mut hub = OfficeMessageHub::new();
    hub.register(Participant::agent(id("agent_a"), "A"));
    hub.register(Participant::agent(id("agent_b"), "B"));
    hub.register(Participant::human(id("user_a"), "Ann"));
    hub
}

#[test]
fn messages_are_queued_for_whom_they_are_for() {
    let mut hub = hub();
    let sent = hub.send(CollabMessage::new("m1", id("agent_a"), id("user_a"), "hi").need_reply());
    assert_eq!(sent, Ok(MessageDelivery::HumanQueued { target_id: id("user_a") }));
    let sent = hub.send(CollabMessage::new("m2", id("agent_a"), id("agent_b"), "ho"));
    assert_eq!(sent, Ok(MessageDelivery::AgentQueued { target_id: id("agent_b") }));
    assert_eq!(hub.queued_count(&id("user_a")), 1);
    assert_eq!(hub.messages_for(&id("agent_b"))[0].content, "ho");
    assert!(!hub.reply_obligation("m1").expect("obligation").resolved());
    assert!(hub.reply_obligation("m2").is_none());
    hub.send(CollabMessage::new("m3", id("user_a"), id("agent_a"), "yes").reply_to("m1"))
        .expect("reply");
    let settled = hub.reply_obligation("m1").expect("obligation");
    assert_eq!(settled.resolved_by.as_deref(), Some("m3"));
    let kept = OfficeMessageHub::from_snapshot(hub.snapshot());
    assert_eq!(kept.queued_count(&id("agent_a")), 1);
    assert_eq!(hub.pop_for(&id("user_a")).expect("first").message_id, "m1");
    assert!(hub.pop_for_from(&id("agent_a"), &id("agent_b")).is_none());
    assert!(hub.pop_for_from(&id("agent_a"), &id("user_a")).is_some());
}

#[test]
fn strangers_cannot_send_or_receive() {
    let mut hub = hub();
    assert_eq!(
        hub.send(CollabMessage::new("m", id("who"), id("user_a"), "x")),
        Err(MessageHubError::UnknownSender { sender_id: id("who") })
    );
    assert_eq!(
        hub.send(CollabMessage::new("m", id("user_a"), id("who"), "x")),
        Err(MessageHubError::UnknownTarget { target_id: id("who") })
    );
    hub.send(CollabMessage::new("m1", id("agent_a"), id("user_a"), "?").need_reply()).expect("ask");
    hub.send(CollabMessage::new("m2", id("agent_b"), id("agent_a"), "!").reply_to("m1")).expect("other");
    assert!(!hub.reply_obligation("m1").expect("obligation").resolved());
}

#[test]
fn waits_for_humans_are_suspended_until_they_reply() {
    let mut book = HumanWaitBook::new();
    book.suspend(id("agent_a"), id("user_a"), Some("m1".to_string()));
    let other = CollabMessage::new("x", id("user_a"), id("agent_a"), "no");
    assert!(book.wake_for_message(&other).is_none());
    assert_eq!(book.pending_for_agent(&id("agent_a")).len(), 1);
    let reply = CollabMessage::new("y", id("user_a"), id("agent_a"), "yes").reply_to("m1");
    assert!(book.wake_for_message(&reply).is_some());
    assert!(book.pending_for_agent(&id("agent_a")).is_empty());

    let policy = WaitPolicy::default();
    let mut inbox = Vec::new();
    assert_eq!(
        policy.wait_for(&id("user_a"), ParticipantKind::Human, &mut inbox),
        WaitOutcome::HumanSuspended
    );
    assert_eq!(
        policy.wait_for(&id("agent_b"), ParticipantKind::Agent, &mut inbox),
        WaitOutcome::AgentTimeout { timeout_ms: 420_000 }
    );
    inbox.push(reply.clone());
    assert_eq!(
        policy.wait_for(&id("user_a"), ParticipantKind::Human, &mut inbox),
        WaitOutcome::Delivered(reply)
    );
    assert!(inbox.is_empty());
}

// Timeline, scheduler, policy, workspace

#[test]
fn timelines_are_summed_up_at_regular_steps() {
    let mut timeline = OfficeTimeline::new();
    timeline.append_event(OfficeTimelineEvent::HumanInput {
        human_id: "user_a".to_string(),
        message_id: "m".to_string(),
    });
    for i in 1..=30 {
        let summary = timeline.record_agent_step("agent_a", "did it");
        assert_eq!(summary.is_some(), i % 15 == 0, "step {i}");
    }
    assert_eq!(timeline.total_steps(), 30);
    assert_eq!(timeline.summaries().len(), 2);
    assert_eq!(timeline.summaries()[0].step_index, 15);
    assert_eq!(timeline.summaries()[1].source_event_start, timeline.summaries()[0].source_event_end);
    assert_eq!(timeline.events().len(), 1 + 30 + 2);
    for summary in timeline.summaries() {
        assert_eq!(
            timeline.events()[summary.source_event_end],
            OfficeTimelineEvent::Summary {
                step_index: summary.step_index,
                text: summary.text.clone(),
            }
        );
    }
    let mut clock = StepSummaryClock::new(2);
    assert!(!clock.record_step());
    assert!(clock.record_step());
    assert_eq!(clock.total_steps(), 2);
}

#[test]
fn defaults_are_empty() {
    assert_eq!(OfficeTimeline::default(), OfficeTimeline::new());
    assert_eq!(HumanWaitBook::default(), HumanWaitBook::new());
    assert_eq!(OfficeBlackboard::default(), OfficeBlackboard::empty());
    assert_eq!(OfficeMessageHub::default().snapshot().participants.len(), 0);
    assert_eq!(ParticipantId::from("agent_a"), id("agent_a"));
    assert_eq!(ParticipantId::from("agent_a".to_string()), id("agent_a"));
}

#[test]
fn opportunities_are_found_between_agents_with_common_topics() {
    let topics = |v: &[&str]| v.iter().map(|t| t.to_string()).collect::<Vec<_>>();
    let summaries = vec![
        AgentSummary::new("agent_a", "designing the cache", &topics(&["cache", "rust"])),
        AgentSummary::new("agent_b", "measuring the cache", &topics(&["cache", "bench"])),
        AgentSummary::new("agent_c", "writing docs", &topics(&["docs"])),
    ];
    let found = OpportunityScheduler.discover(&summaries);
    assert_eq!(found.len(), 1);
    assert_eq!(found[0].participants, ("agent_a".to_string(), "agent_b".to_string()));
    assert_eq!(found[0].shared_topics, ["cache"]);
}

#[test]
fn policies_allow_what_is_listed() {
    let policy = ToolCapabilityPolicy::default().allow("wait").allow("call");
    assert_eq!(policy.check("call"), GatewayDecision::Allowed);
    assert_eq!(
        policy.check("shell"),
        GatewayDecision::Denied {
            reason: "tool `shell` is not allowed for this Agent profile".to_string()
        }
    );
    assert_eq!(policy.allowed_tools(), ["call", "wait"]);
    assert!(ToolCapabilityPolicy::allow_all().is_unrestricted());
}

#[test]
fn work_goes_where_it_belongs() {
    let policy = WorkspacePolicy;
    assert_eq!(policy.area_for_owner_upload(), WorkspaceArea::Private);
    assert_eq!(policy.area_for_work(false, false), WorkspaceArea::Private);
    assert_eq!(policy.area_for_work(true, false), WorkspaceArea::Public);
    assert_eq!(policy.area_for_work(false, true), WorkspaceArea::Public);
    let mut workspace = AgentWorkspace::new("agent_a", "/p", "/s");
    assert_eq!(workspace.receive_owner_upload("in.txt", "x").path, "/p/in.txt");
    assert_eq!(workspace.write_work_product("out.md", "y", true, false).path, "/s/out.md");
    assert_eq!(workspace.migrate_summary_to_public("sum.md", "z").area, WorkspaceArea::Public);
    assert_eq!(workspace.items.len(), 3);
}

// Profiles

#[test]
fn the_office_is_seeded_with_six_people() {
    let directory = PilotDirectory::six_person_seed();
    assert_eq!(directory.account_count(), 6);
    let session = directory.login("employee_b", "password").expect("login");
    assert_eq!((session.user_id.as_str(), session.agent_id.as_str()), ("user_b", "agent_b"));
    assert!(directory.login("employee_b", "wrong").is_none());
    let binding = directory.active_owner_binding("agent_b").expect("binding");
    assert_eq!(binding.owner_user_id, "user_b");
    assert_eq!(binding.version, 1);
    assert!(directory.agent_profile("agent_b").is_some());
    assert!(directory.human_profile("nobody").is_none());
}

#[test]
fn facts_are_named_by_a_digest() {
    assert_eq!(
        profile_fact_id("user_a", UserProfileFactCategory::Like, "tea"),
        format!("profile_fact_{}", &EXPECTED_DIGEST[..12])
    );
}

#[test]
fn facts_are_learned_from_what_people_say() {
    let found = extract_profile_fact_candidates("我喜欢简洁的日报。我不喜欢开会");
    assert!(found.iter().any(|f| f.category == UserProfileFactCategory::Like));
    assert!(found.iter().any(|f| f.category == UserProfileFactCategory::Dislike));
    assert!(extract_profile_fact_candidates("今天天气不错").is_empty());

    let mut directory = PilotDirectory::six_person_seed();
    let learned = directory
        .record_owner_message_profile_evidence("user_b", "agent_b", "m1", "我喜欢开会", at(10))
        .expect("profile");
    assert_eq!(learned.len(), 1);
    assert_eq!(learned[0].status, UserProfileFactStatus::Active);
    assert_eq!(learned[0].evidence_message_ids, ["m1"]);
    directory
        .record_owner_message_profile_evidence("user_b", "agent_b", "m2", "我不喜欢开会", at(20))
        .expect("profile");
    let profile = directory.human_profile("user_b").expect("profile");
    let old = profile
        .profile_facts
        .iter()
        .find(|f| f.category == UserProfileFactCategory::Like && f.value == learned[0].value)
        .expect("old fact");
    assert_eq!(old.status, UserProfileFactStatus::Superseded);
    let ranked = rank_active_facts(&profile.profile_facts);
    assert!(ranked.iter().all(|f| f.status == UserProfileFactStatus::Active));
    assert!(render_owner_profile_prompt(profile).contains("user_b"));
    assert!(directory
        .record_owner_message_profile_evidence("nobody", "agent_b", "m", "x", at(1))
        .is_none());
}

// The runtime store and its log

#[test]
fn messages_to_agents_are_logged_and_answered() {
    let mut store = runtime();
    let record = store.mark_owner_message_queued("agent_b", "user_b", "m1", "hello", at(1));
    assert_eq!(record.state, AgentRuntimeState::Working);
    assert!(store.has_owner_message_queued("agent_b", "m1"));
    assert_eq!(store.latest_unanswered_owner_message_id("agent_b").as_deref(), Some("m1"));
    store.mark_owner_message_queued("agent_b", "user_b", "m1", "hello", at(2));
    assert_eq!(store.activity_for_agent("agent_b").len(), 1);
    let thread = ThreadId { value: 5 };
    assert_eq!(store.bind_thread("agent_b", "user_b", thread, at(3)).thread_id, Some(thread));
    store.mark_owner_reply_ready("agent_b", "user_b", "m1", "done", at(4));
    assert!(store.has_owner_reply_ready("agent_b", "m1"));
    assert_eq!(store.latest_unanswered_owner_message_id("agent_b"), None);
    assert!(store.get("agent_c").is_none());
}

#[test]
fn logs_are_bounded() {
    let mut store = runtime();
    for i in 0..OFFICE_ACTIVITY_LIMIT_PER_AGENT + 3 {
        store.mark_owner_message_queued("agent_b", "user_b", &format!("m{i}"), "x", at(i as i64));
    }
    let entries = store.activity_for_agent("agent_b");
    assert_eq!(entries.len(), OFFICE_ACTIVITY_LIMIT_PER_AGENT);
    assert!(entries.windows(2).all(|w| w[0].sequence != w[1].sequence));
}

#[test]
fn events_of_threads_become_activity() {
    let event = RuntimeEvent::ExecCommandEnd {
        command: vec!["ls".to_string(), "-l".to_string()],
        status: CommandStatus::Completed,
        exit_code: 0,
        aggregated_output: "a\n".to_string(),
        stdout: String::new(),
        stderr: String::new(),
    };
    let activity = runtime_activity_from_event(&event).expect("activity");
    assert_eq!(activity.draft.kind, OfficeActivityKind::RuntimeToolFinished);
    assert!(runtime_activity_from_event(&RuntimeEvent::Other).is_none());
    assert!(runtime_activity_from_event(&RuntimeEvent::AgentReasoning { text: "  ".to_string() }).is_none());

    let mut store = runtime();
    store.ensure_agent("agent_b", "user_b", at(1));
    let thread = ThreadId { value: 5 };
    let names = AgentNames {
        entries: vec![(thread, "agent_b".to_string())],
        unnamed: String::new(),
    };
    let event = RuntimeEvent::ItemCompleted {
        thread_id: thread,
        item: TurnItem::AgentMessage { content: vec!["the answer".to_string()] },
    };
    record_runtime_event_from_codex(&mut store, &names, "agent_x", &event, at(2)).expect("record");
    let entries = store.activity_for_agent("agent_b");
    assert_eq!(entries.len(), 1);
    assert_eq!(entries[0].kind, OfficeActivityKind::RuntimeAgentMessage);
    assert!(record_runtime_event_from_codex(&mut store, &names, "agent_x", &RuntimeEvent::Other, at(3)).is_none());
}

#[test]
fn previews_are_short() {
    assert_eq!(trimmed_preview("  hello ", 10).as_deref(), Some("hello"));
    assert_eq!(trimmed_preview("hello", 3).as_deref(), Some("hel..."));
    assert_eq!(trimmed_preview("   ", 3), None);
    assert_eq!(command_summary(&vec!["ls".to_string(), "-l".to_string()]), "ls -l");
    assert_eq!(
        extract_reply_to_message_id("hi\n - `reply_to`: `m-1`\nbody").as_deref(),
        Some("m-1")
    );
    assert_eq!(extract_reply_to_message_id("reply_to: m-2").as_deref(), Some("m-2"));
    assert_eq!(extract_reply_to_message_id("nothing here"), None);
    assert_eq!(
        agent_message_text(&vec!["a".to_string(), "b".to_string()]).as_deref(),
        Some("a\nb")
    );
}

// The web

fn logged_in(directory: &mut PersistentPilotDirectory) -> PilotWebSession {
    log_in(
        directory,
        &LoginRequest { username: "employee_b".to_string(), password: "password".to_string() },
        "token-1".to_string(),
        at(100),
    )
    .expect("login")
}

#[test]
fn people_log_in_and_out() {
    let mut directory = directory();
    let session = logged_in(&mut directory);
    assert_eq!((session.user_id.as_str(), session.agent_id.as_str()), ("user_b", "agent_b"));
    assert!(current_session(&directory, Some("token-1")).is_ok());
    assert!(fitting_session(&directory, Some("token-1")).is_ok());
    let failure = current_session(&directory, Some("other")).expect_err("unknown token");
    assert_eq!((failure.status, failure.message.as_str()), (401, NOT_LOGGED_IN));
    assert_eq!(current_session(&directory, None).expect_err("no token").status, 401);
    let wrong = LoginRequest { username: "employee_b".to_string(), password: "x".to_string() };
    assert_eq!(
        log_in(&mut directory, &wrong, "t".to_string(), at(1)).expect_err("wrong").status,
        401
    );
    assert!(log_out(&mut directory, Some("token-1")));
    assert!(!log_out(&mut directory, Some("token-1")));
    assert!(current_session(&directory, Some("token-1")).is_err());
}

#[test]
fn owners_write_to_their_agents() {
    let mut directory = directory();
    let session = logged_in(&mut directory);
    let mut store = runtime();
    let mut inboxes = InboxRuntime::new();
    let request = OwnerMessageRequest {
        message_id: None,
        content: "我喜欢简洁的日报".to_string(),
        need_reply: true,
        reply_to_message_id: None,
    };
    let message = take_owner_message(&directory, Some("token-1"), &request, true, "fresh-1")
        .expect("message");
    assert_eq!(message.message_id, "fresh-1");
    assert_eq!(message.session, session);
    let learned = learn_from_owner_message(&mut directory, &message, at(200)).expect("learned");
    assert_eq!(learned.len(), 1);
    queue_owner_message(&mut inboxes, &message);
    let delivery = note_owner_message(&mut store, &message, at(201));
    assert_eq!(delivery.agent_id, "agent_b");
    assert_eq!(delivery.message_id, "fresh-1");
    settle_owner_message(&mut inboxes, &message, None);
    assert_eq!(owner_message_view(&message).from, "user_b");
    assert!(store.has_owner_message_queued("agent_b", "fresh-1"));

    let me = show_me(&directory, &mut store, &inboxes, &session, at(202)).expect("me");
    assert_eq!(me.username, "employee_b");
    assert_eq!(me.agent_state.state, OfficeAgentExternalState::Working);
    assert_eq!(me.agent_inbox.queued_count, 1);
    assert!(owner_profile_prompt_for_session(&directory, &session).is_ok());

    let blank = OwnerMessageRequest {
        message_id: None,
        content: "  ".to_string(),
        need_reply: false,
        reply_to_message_id: None,
    };
    let failure = take_owner_message(&directory, Some("token-1"), &blank, true, "x").expect_err("blank");
    assert_eq!(failure.status, 400);
}

#[test]
fn replies_of_agents_are_noticed() {
    let mut directory = directory();
    let session = logged_in(&mut directory);
    let mut store = runtime();
    let mut inboxes = InboxRuntime::new();
    store.mark_owner_message_queued("agent_b", "user_b", "m1", "question", at(1));
    inboxes.append_logical_message(
        "user_b",
        "agent_b".to_string(),
        "r1".to_string(),
        false,
        Some("m1".to_string()),
        "the answer".to_string(),
    );
    inboxes.append_logical_message(
        "user_b",
        "agent_b".to_string(),
        "r2".to_string(),
        true,
        None,
        "a question".to_string(),
    );
    sync_owner_reply_ready_from_human_inboxes(&mut store, &inboxes, &session, at(2));
    assert!(store.has_owner_reply_ready("agent_b", "m1"));
    let inbox = build_human_inbox(&inboxes, "user_b");
    assert_eq!(inbox.queued_count, 1);
    assert_eq!(inbox.messages.len(), 2);
    assert_eq!(inbox.messages[0].reply_status, OfficeInboxReplyStatus::NotRequired);
    assert_eq!(inbox.messages[1].reply_status, OfficeInboxReplyStatus::Pending);
    let me = build_me(&directory, &mut store, &inboxes, &session, at(3)).expect("me");
    let assets = PageAssets { style: "<style></style>".to_string(), script: "<script></script>".to_string() };
    let page = render_dashboard(&assets, &me);
    assert!(page.contains("employee_b"));
    assert!(page.contains("the answer"));
    assert!(page.contains("<style></style>"));
    assert!(page.contains("<script></script>"));
    assert!(directory.delete_web_session("token-1"));
}

#[test]
fn pages_escape_what_they_show() {
    let assets = PageAssets { style: String::new(), script: String::new() };
    assert!(render_login_page(&assets, Some("<oops>")).contains("&lt;oops&gt;"));
    assert!(render_error_page("<oops>").contains("&lt;oops&gt;"));
    let mut store = OfficeBlackboardStore::from_blackboard("/b".to_string(), OfficeBlackboard::empty());
    let note = post_note(
        &mut store,
        &BlackboardPostRequest { author_id: "user_a".to_string(), content: " <hi> ".to_string() },
        "note-1",
        at(0),
    )
    .expect("note");
    assert_eq!(note.id, "note-1");
    let page = render_blackboard_page(&assets, store.blackboard());
    assert!(page.contains("&lt;hi&gt;"));
    let empty = BlackboardPostRequest { author_id: "user_a".to_string(), content: " ".to_string() };
    assert_eq!(post_note(&mut store, &empty, "n", at(0)).expect_err("blank").status, 400);
}

#[test]
fn people_are_interviewed_and_reflect() {
    let mut directory = directory();
    logged_in(&mut directory);
    let profile = interview(
        &mut directory,
        Some("token-1"),
        InterviewRequest {
            role: "Infra".to_string(),
            capabilities: vec!["rust".to_string()],
            avoid: vec!["meetings".to_string()],
            report_preference: "short".to_string(),
        },
    )
    .expect("profile");
    assert_eq!(profile.role, "Infra");
    assert_eq!(profile.capability_labels, ["rust"]);
    assert_eq!(profile.report_preference, "short");
    let (reflected, profile) =
        reflection(&mut directory, Some("token-1"), vec!["我喜欢简洁的日报".to_string()], at(9)).expect("reflection");
    assert_eq!(reflected.reflected_at, at(9));
    assert_eq!(profile.last_reflection_at, Some(at(9)));
    assert_eq!(reflection(&mut directory, None, Vec::new(), at(9)).expect_err("nobody").status, 401);
}

#[test]
fn agents_see_their_surroundings() {
    let directory = directory();
    let memory = AgentMemoryStore::new("/mem");
    let snapshot = agent_context_snapshot(
        &directory,
        &memory,
        &runtime(),
        &InboxRuntime::new(),
        &OfficeBlackboard::empty(),
        "agent_b",
    )
    .expect("snapshot");
    assert_eq!(snapshot.owner_user_id, "user_b");
    assert_eq!(snapshot.inbox_queued_count, 0);
    assert!(snapshot.memory_identity_path.starts_with("/mem/"));
    assert!(agent_context_snapshot(
        &directory,
        &memory,
        &runtime(),
        &InboxRuntime::new(),
        &OfficeBlackboard::empty(),
        "nobody"
    )
    .is_none());
}

#[test]
fn memory_files_are_planned() {
    let memory = AgentMemoryStore::new("/mem");
    let (paths, files) = memory.ensure_agent_files("agent_b", "user_b");
    assert!(files.iter().any(|f| f.path == paths.identity && !f.keep_existing));
    assert!(files.iter().any(|f| f.path == paths.memory && f.keep_existing));
    assert_eq!(
        paths.daily_reflection(&Day { year: 2024, month: 1, day: 2 }).as_deref(),
        Some(format!("{}/2024-01-02.md", paths.daily_reflections).as_str())
    );
    let text = AgentMemoryStore::read_prompt_memory(&vec![Some("one".to_string()), None, Some("two".to_string())]);
    assert!(text.contains("one") && text.contains("two"));
}

#[test]
fn requests_are_read() {
    assert!(is_json_body(Some("application/json; charset=utf-8")));
    assert!(!is_json_body(Some("text/html")));
    assert!(wants_json(None, Some("text/html, application/json")));
    assert!(!wants_json(None, Some("text/html")));
    let fields = form_fields(&b"username=a%20b+c&capabilities=x,y%0Az&username=last".to_vec());
    assert_eq!(fields.get("username"), Some(&FormValue::Text("last".to_string())));
    assert_eq!(
        fields.get("capabilities"),
        Some(&FormValue::Items(vec!["x".to_string(), "y".to_string(), "z".to_string()]))
    );
    let fields = form_fields(&b"content=a%20b+c".to_vec());
    assert_eq!(fields.get("content"), Some(&FormValue::Text("a b c".to_string())));
    for (value, expected) in [
        (JsonField::Bool(true), Ok(true)),
        (JsonField::Text("on".to_string()), Ok(true)),
        (JsonField::Text("false".to_string()), Ok(false)),
    ] {
        assert_eq!(deserialize_form_compatible_bool(&value), expected);
    }
    assert!(deserialize_form_compatible_bool(&JsonField::Text("maybe".to_string())).is_err());
}

#[test]
fn cookies_name_their_session() {
    assert_eq!(session_cookie("sid", "t1"), "sid=t1; Path=/; HttpOnly; SameSite=Lax");
    assert_eq!(
        expire_session_cookie("sid"),
        "sid=; Path=/; HttpOnly; SameSite=Lax; Max-Age=0"
    );
    assert_eq!(session_token("sid", Some("a=b; sid=t1; c=d")).as_deref(), Some("t1"));
    assert_eq!(session_token("sid", Some("a=b; sid=")), None);
    assert_eq!(session_token("sid", None), None);
}

#[test]
fn settings_name_the_files() {
    let config = OfficeWebConfig::new("/var/office/store.json", None, Some("/home/me"))
        .with_session_cookie("sid");
    assert_eq!(config.store_path, "/var/office/store.json");
    assert!(config.runtime_store_path.starts_with("/var/office/"));
    assert_eq!(config.codex_home, "/home/me/.codex");
    assert_eq!(config.session_cookie, "sid");
    let config = OfficeWebConfig::new("/s.json", Some("/codex"), None);
    assert_eq!(config.codex_home, "/codex");
}

const EXPECTED_DIGEST: &str = "3031942410a58fc451081bcf27be2a32a1f66a2ca342bad450e74839a9cb735b";
