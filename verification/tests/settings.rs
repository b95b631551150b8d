use codex_core::ids::ThreadId;
use codex_core::office::memory::AgentMemoryStore;
use codex_core::office::pages::{render_interview_page, PageAssets};
use codex_core::office::scheduler::{OpportunityScheduler, OFFICE_SCHEDULER_SYSTEM_PROMPT};
use codex_core::office::web::{OfficeWebConfig, DEFAULT_SESSION_COOKIE};
use codex_core::office::workspace::{WorkspacePolicy, OFFICE_AGENT_SYSTEM_PROMPT_RULES};
use codex_core::protocol::FunctionCallError;
use codex_core::tools::handlers::collab_inbox::{collab_inbox_store_path, InboxRuntime};
use codex_core::tools::handlers::wait::{is_mutating, notice_failed, WaitArgs};

#[test]
fn settings_follow_the_store() {
    let config = OfficeWebConfig::new("/office/store.json", None, Some("/home/u"));
    assert_eq!(config.store_path, "/office/store.json");
    assert_eq!(config.runtime_store_path, "/office/office-runtime.json");
    assert_eq!(config.collab_inbox_path, "/office/office-collab-inbox.json");
    assert_eq!(config.blackboard_path, "/office/office-blackboard.json");
    assert_eq!(config.memory_root, "/office/office-memory");
    assert_eq!(config.codex_home, "/home/u/.codex");
    assert_eq!(config.session_cookie, DEFAULT_SESSION_COOKIE);

    let changed = config
        .with_runtime_store_path("/r.json")
        .with_collab_inbox_path("/i.json")
        .with_blackboard_path("/b.json")
        .with_memory_root("/m")
        .with_codex_home("/c")
        .with_session_cookie("sid");
    assert_eq!(
        changed,
        OfficeWebConfig {
            store_path: "/office/store.json".to_string(),
            runtime_store_path: "/r.json".to_string(),
            collab_inbox_path: "/i.json".to_string(),
            blackboard_path: "/b.json".to_string(),
            memory_root: "/m".to_string(),
            codex_home: "/c".to_string(),
            session_cookie: "sid".to_string(),
        }
    );
    assert_eq!(OfficeWebConfig::new("s.json", Some("/x"), Some("/home/u")).codex_home, "/x");
    assert_eq!(OfficeWebConfig::new("s.json", None, None).codex_home, ".codex");
}

#[test]
fn memory_of_a_prompt_comes_in_order() {
    let memory = AgentMemoryStore::new("/mem");
    assert_eq!(
        memory.prompt_memory_paths("agent_a"),
        vec![
            "/mem/agents/agent_a/identity.md",
            "/mem/agents/agent_a/owner_profile.md",
            "/mem/agents/agent_a/memory.md",
            "/mem/agents/agent_a/peer_notes.md",
        ]
    );
    let (paths, files) = memory.write_owner_profile_text("agent_a", "user_a", "likes tea");
    assert_eq!(paths.owner_profile, "/mem/agents/agent_a/owner_profile.md");
    let last = files.last().expect("a file");
    assert_eq!(last.path, paths.owner_profile);
    assert_eq!(last.content, "likes tea\n");
    assert!(!last.keep_existing);
}

#[test]
fn fixed_texts_are_handed_out() {
    assert_eq!(OpportunityScheduler.system_prompt(), OFFICE_SCHEDULER_SYSTEM_PROMPT);
    assert_eq!(WorkspacePolicy.system_prompt_rules(), OFFICE_AGENT_SYSTEM_PROMPT_RULES);
    let assets = PageAssets { style: "<style>x</style>".to_string(), script: String::new() };
    let page = render_interview_page(&assets);
    assert!(page.contains("<style>x</style>"));
    assert!(page.contains("<form"));
}

#[test]
fn waiting_for_somebody_tells_them() {
    let nobody = WaitArgs { timeout_ms: None, target_agent_id: None, target_id: None };
    assert!(!is_mutating(&nobody));
    let somebody = WaitArgs { target_id: Some("agent_a".to_string()), ..nobody };
    assert!(is_mutating(&somebody));
    assert_eq!(
        notice_failed("agent_a", "gone"),
        FunctionCallError::RespondToModel(
            "failed to notify target_agent_id `agent_a`: gone".to_string()
        )
    );
}

#[test]
fn reminders_stop_where_a_wait_has_looked() {
    let (to, from) = (ThreadId { value: 1 }, ThreadId { value: 2 });
    let mut inboxes = InboxRuntime::new();
    let seq = inboxes.append_message_with_reply_requirement(
        to,
        "asker".to_string(),
        "m1".to_string(),
        true,
        None,
        "please".to_string(),
    );
    assert_eq!(seq, 1);
    assert!(inboxes.messages_for(to)[0].need_reply);
    inboxes.register_required_reply(
        to,
        "asker".to_string(),
        from,
        "m1".to_string(),
        "please".to_string(),
    );
    let reminded = inboxes.claim_unobserved_required_reply_reminders(to, 2);
    assert_eq!(reminded.len(), 1);
    assert_eq!(reminded[0].message_id, "m1");
    assert_eq!(reminded[0].reminder_count, 1);
    assert_eq!(inboxes.mark_required_reply_obligations_observed_by_source_wait(from), 1);
    assert!(inboxes.claim_unobserved_required_reply_reminders(to, 2).is_empty());
}

#[test]
fn inbox_store_is_where_it_was_put() {
    let place = |c, e, h| collab_inbox_store_path(c, e, h);
    assert_eq!(place(Some("/c.json"), Some("/e.json"), Some("/h")).as_deref(), Some("/c.json"));
    assert_eq!(place(None, Some("/e.json"), Some("/h")).as_deref(), Some("/e.json"));
    assert_eq!(place(None, None, Some("/h")).as_deref(), Some("/h/office/collab_inbox.json"));
    assert_eq!(place(None, None, None), None);
}
