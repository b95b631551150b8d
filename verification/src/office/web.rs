//! The office as its owners see it: where it is kept, what an owner sends to an
//! agent, and what an owner is shown.
use crate::ids::ThreadId;
use crate::office::persistence::{agent_model, PersistentPilotDirectory, PilotWebSession};
use crate::office::pilot::{
    active_binding, is_account_of, AgentOwnerBinding, AgentOwnerBindingStatus,
    AgentOwnerBindingType, AgentProfile, DailyReflection, DirectoryModel, HumanProfile,
    PilotAccount, UserProfileFact,
};
use crate::office::prompts::{
    developer_text, render_office_agent_developer_instructions, render_owner_turn_context,
    turn_text, OfficeOwnerPromptContext,
};
use crate::office::runtime::{
    activity_models, activity_of, answered, is_answered, is_queued, record_of, with_record,
    AgentRuntimeState, OfficeActivityEntry, OfficeRuntimeStore, RuntimeModel,
};
use crate::paths::{join_paths, parent, parent_path, path_beside, beside, path_join};
use crate::protocol::{AgentNames, SessionSource, SpawnedAgentType, SubAgentSource};
use crate::text::{
    begins, decimal, decimal_of, join, joined, opt_str, opt_text, same_text, texts, trim, trim_end,
    trim_end_str, trimmed,
};
use crate::time::Timestamp;
use crate::tools::handlers::call::UserInput;
use crate::tools::handlers::collab_inbox::{
    has_obligation, inbox_of, obligation, InboxMessage, InboxRuntime, InboxView,
};
use vstd::prelude::*;

verus! {

pub const DEFAULT_SESSION_COOKIE: &'static str = "codex_office_session";

pub const OFFICE_CEO_AGENT_ID: &'static str = "agent_ceo";

// ---------------------------------------------------------------------------
// Where the office is kept
// ---------------------------------------------------------------------------

#[derive(Clone, Debug, Eq, PartialEq)]
pub struct OfficeWebConfig {
    pub store_path: String,
    pub runtime_store_path: String,
    pub collab_inbox_path: String,
    pub blackboard_path: String,
    pub memory_root: String,
    pub codex_home: String,
    pub session_cookie: String,
}

#[verifier::ext_equal]
pub struct ConfigModel {
    pub store_path: Seq<char>,
    pub runtime_store_path: Seq<char>,
    pub collab_inbox_path: Seq<char>,
    pub blackboard_path: Seq<char>,
    pub memory_root: Seq<char>,
    pub codex_home: Seq<char>,
    pub session_cookie: Seq<char>,
}

impl View for OfficeWebConfig {
    type V = ConfigModel;

    open spec fn view(&self) -> ConfigModel {
        ConfigModel {
            store_path: self.store_path@,
            runtime_store_path: self.runtime_store_path@,
            collab_inbox_path: self.collab_inbox_path@,
            blackboard_path: self.blackboard_path@,
            memory_root: self.memory_root@,
            codex_home: self.codex_home@,
            session_cookie: self.session_cookie@,
        }
    }
}

/// The home directory: what the environment names, or else a directory below the
/// user's.
pub open spec fn home_of(codex_home: Option<Seq<char>>, home: Option<Seq<char>>) -> Seq<char> {
    match codex_home {
        Some(h) => h,
        None => match home {
            Some(h) => path_join(h, ".codex"@),
            None => ".codex"@,
        },
    }
}

/// Everything is kept beside the store.
pub open spec fn default_config(
    store: Seq<char>,
    codex_home: Option<Seq<char>>,
    home: Option<Seq<char>>,
) -> ConfigModel {
    ConfigModel {
        store_path: store,
        runtime_store_path: beside(store, "office-runtime.json"@),
        collab_inbox_path: beside(store, "office-collab-inbox.json"@),
        blackboard_path: beside(store, "office-blackboard.json"@),
        memory_root: match parent(store) {
            Some(p) => path_join(p, "office-memory"@),
            None => "office-memory"@,
        },
        codex_home: home_of(codex_home, home),
        session_cookie: DEFAULT_SESSION_COOKIE@,
    }
}

pub open spec fn with_cookie(c: ConfigModel, session_cookie: Seq<char>) -> ConfigModel {
    ConfigModel { session_cookie, ..c }
}

pub open spec fn with_runtime_at(c: ConfigModel, runtime_store_path: Seq<char>) -> ConfigModel {
    ConfigModel { runtime_store_path, ..c }
}

pub open spec fn with_inboxes_at(c: ConfigModel, collab_inbox_path: Seq<char>) -> ConfigModel {
    ConfigModel { collab_inbox_path, ..c }
}

pub open spec fn with_blackboard_at(c: ConfigModel, blackboard_path: Seq<char>) -> ConfigModel {
    ConfigModel { blackboard_path, ..c }
}

pub open spec fn with_memory_at(c: ConfigModel, memory_root: Seq<char>) -> ConfigModel {
    ConfigModel { memory_root, ..c }
}

pub open spec fn with_home_at(c: ConfigModel, codex_home: Seq<char>) -> ConfigModel {
    ConfigModel { codex_home, ..c }
}

impl OfficeWebConfig {
    /// The configuration of the office whose store is at `store_path`; the two
    /// others are what the environment says of the home directories.
    pub fn new(store_path: &str, codex_home: Option<&str>, home: Option<&str>) -> (r:
        OfficeWebConfig)
        ensures
            r@ == default_config(store_path@, opt_str(codex_home), opt_str(home)),
    {
        let memory_root = match parent_path(store_path) {
            Some(p) => join_paths(p.as_str(), "office-memory"),
            None => "office-memory".to_string(),
        };
        let codex_home = match codex_home {
            Some(h) => h.to_string(),
            None => match home {
                Some(h) => join_paths(h, ".codex"),
                None => ".codex".to_string(),
            },
        };
        OfficeWebConfig {
            store_path: store_path.to_string(),
            runtime_store_path: path_beside(store_path, "office-runtime.json"),
            collab_inbox_path: path_beside(store_path, "office-collab-inbox.json"),
            blackboard_path: path_beside(store_path, "office-blackboard.json"),
            memory_root,
            codex_home,
            session_cookie: DEFAULT_SESSION_COOKIE.to_string(),
        }
    }

    pub fn with_session_cookie(self, session_cookie: &str) -> (r: OfficeWebConfig)
        ensures
            r@ == with_cookie(self@, session_cookie@),
    {
        let mut config = self;
        config.session_cookie = session_cookie.to_string();
        config
    }

    pub fn with_runtime_store_path(self, runtime_store_path: &str) -> (r: OfficeWebConfig)
        ensures
            r@ == with_runtime_at(self@, runtime_store_path@),
    {
        let mut config = self;
        config.runtime_store_path = runtime_store_path.to_string();
        config
    }

    pub fn with_collab_inbox_path(self, collab_inbox_path: &str) -> (r: OfficeWebConfig)
        ensures
            r@ == with_inboxes_at(self@, collab_inbox_path@),
    {
        let mut config = self;
        config.collab_inbox_path = collab_inbox_path.to_string();
        config
    }

    pub fn with_blackboard_path(self, blackboard_path: &str) -> (r: OfficeWebConfig)
        ensures
            r@ == with_blackboard_at(self@, blackboard_path@),
    {
        let mut config = self;
        config.blackboard_path = blackboard_path.to_string();
        config
    }

    pub fn with_memory_root(self, memory_root: &str) -> (r: OfficeWebConfig)
        ensures
            r@ == with_memory_at(self@, memory_root@),
    {
        let mut config = self;
        config.memory_root = memory_root.to_string();
        config
    }

    pub fn with_codex_home(self, codex_home: &str) -> (r: OfficeWebConfig)
        ensures
            r@ == with_home_at(self@, codex_home@),
    {
        let mut config = self;
        config.codex_home = codex_home.to_string();
        config
    }
}

// ---------------------------------------------------------------------------
// What an owner sends
// ---------------------------------------------------------------------------

#[derive(Clone, Debug, Eq, PartialEq)]
pub struct OfficeOwnerDelivery {
    pub agent_id: String,
    pub owner_user_id: String,
    pub message_id: String,
    pub owner_reply_target_message_id: Option<String>,
    pub content: String,
    pub need_reply: bool,
    pub reply_to_message_id: Option<String>,
}

pub open spec fn or_none(s: Option<String>) -> Seq<char> {
    match s {
        Some(t) => t@,
        None => "none"@,
    }
}

/// The message that the agent's answer is to name: the one that was found to be
/// open, or else this one where it asks for a reply.
pub open spec fn reply_target_of(d: OfficeOwnerDelivery) -> Option<Seq<char>> {
    match d.owner_reply_target_message_id {
        Some(t) => Some(t@),
        None => if d.need_reply {
            Some(d.message_id@)
        } else {
            None
        },
    }
}

/// What an agent reads of a message of its owner.
pub open spec fn delivery_text(d: OfficeOwnerDelivery) -> Seq<char> {
    "office owner message from ["@ + d.owner_user_id@ + "],reply_to["@ + or_none(
        d.reply_to_message_id,
    ) + "],message_id["@ + d.message_id@ + "],need_reply["@ + crate::office::prompts::bool_text(
        d.need_reply,
    ) + "]\n\n"@ + trim_end(d.content@) + turn_text(
        d.agent_id@,
        d.owner_user_id@,
        d.message_id@,
        or_none(d.reply_to_message_id),
        d.need_reply,
        reply_target_of(d),
    )
}

/// What an agent reads of a message of its owner.
pub fn owner_delivery_user_input(delivery: &OfficeOwnerDelivery) -> (r: Vec<UserInput>)
    ensures
        r@.len() == 1,
        r@[0] matches UserInput::Text { text, text_elements } && text@ == delivery_text(*delivery)
            && text_elements@.len() == 0,
{
    let reply_to = match &delivery.reply_to_message_id {
        Some(t) => t.as_str(),
        None => "none",
    };
    let target = match &delivery.owner_reply_target_message_id {
        Some(t) => Some(t.as_str()),
        None => if delivery.need_reply {
            Some(delivery.message_id.as_str())
        } else {
            None
        },
    };
    let mut text = "office owner message from [".to_string();
    text.append(delivery.owner_user_id.as_str());
    text.append("],reply_to[");
    text.append(reply_to);
    text.append("],message_id[");
    text.append(delivery.message_id.as_str());
    text.append("],need_reply[");
    if delivery.need_reply {
        text.append("true");
    } else {
        text.append("false");
    }
    text.append("]\n\n");
    text.append(trim_end_str(delivery.content.as_str()));
    let context = render_owner_turn_context(
        delivery.agent_id.as_str(),
        delivery.owner_user_id.as_str(),
        delivery.message_id.as_str(),
        reply_to,
        delivery.need_reply,
        target,
    );
    text.append(context.as_str());
    let mut out: Vec<UserInput> = Vec::new();
    out.push(UserInput::Text { text, text_elements: Vec::new() });
    out
}

// ---------------------------------------------------------------------------
// Whom an agent works for
// ---------------------------------------------------------------------------

#[derive(Clone, Debug)]
pub struct OfficeOwnerContext {
    pub agent_id: String,
    pub owner_user_id: String,
    pub binding_version: u64,
    pub binding: AgentOwnerBinding,
}

/// Whether the context is that of an agent bound like this.
pub open spec fn is_context_of(c: OfficeOwnerContext, agent: Seq<char>, b: AgentOwnerBinding) -> bool {
    c.agent_id@ == agent && c.owner_user_id == b.owner_user_id && c.binding_version == b.version
        && c.binding == b
}

/// The context as it is put into a prompt.
pub open spec fn is_prompt_context(p: OfficeOwnerPromptContext, c: OfficeOwnerContext) -> bool {
    &&& p.agent_id@ == c.agent_id@
    &&& p.owner_user_id@ == c.owner_user_id@
    &&& p.binding_type@ == binding_type_text(c.binding.binding_type)
    &&& p.binding_status@ == binding_status_text(c.binding.status)
    &&& p.binding_version == c.binding_version
}

pub open spec fn binding_type_text(t: AgentOwnerBindingType) -> Seq<char> {
    match t {
        AgentOwnerBindingType::PrimaryOwner => "PrimaryOwner"@,
    }
}

pub open spec fn binding_status_text(s: AgentOwnerBindingStatus) -> Seq<char> {
    match s {
        AgentOwnerBindingStatus::Active => "Active"@,
        AgentOwnerBindingStatus::Inactive => "Inactive"@,
    }
}

impl OfficeOwnerContext {
    pub fn to_prompt_context(&self) -> (r: OfficeOwnerPromptContext)
        ensures
            is_prompt_context(r, *self),
    {
        OfficeOwnerPromptContext {
            agent_id: self.agent_id.clone(),
            owner_user_id: self.owner_user_id.clone(),
            binding_type: match self.binding.binding_type {
                AgentOwnerBindingType::PrimaryOwner => "PrimaryOwner".to_string(),
            },
            binding_status: match self.binding.status {
                AgentOwnerBindingStatus::Active => "Active".to_string(),
                AgentOwnerBindingStatus::Inactive => "Inactive".to_string(),
            },
            binding_version: self.binding_version,
        }
    }
}

/// Whom an agent works for, if an owner is bound to it.
pub fn office_owner_context_for_agent(directory: &PersistentPilotDirectory, agent_id: &str) -> (r:
    Option<OfficeOwnerContext>)
    ensures
        match active_binding(directory.people(), agent_id@) {
            Some(b) => r matches Some(c) && is_context_of(c, agent_id@, b),
            None => r is None,
        },
{
    match directory.active_owner_binding(agent_id) {
        Some(binding) => Some(
            OfficeOwnerContext {
                agent_id: agent_id.to_string(),
                owner_user_id: binding.owner_user_id.clone(),
                binding_version: binding.version,
                binding: binding.copy(),
            },
        ),
        None => None,
    }
}

/// The context of an agent, or why there is none.
pub fn owner_context(directory: &PersistentPilotDirectory, agent_id: &str) -> (r: Result<
    OfficeOwnerContext,
    String,
>)
    ensures
        match active_binding(directory.people(), agent_id@) {
            Some(b) => r matches Ok(c) && is_context_of(c, agent_id@, b),
            None => r matches Err(e) && e@ == "owner binding not found for `"@ + agent_id@ + "`"@,
        },
{
    match office_owner_context_for_agent(directory, agent_id) {
        Some(c) => Ok(c),
        None => {
            let mut out = "owner binding not found for `".to_string();
            out.append(agent_id);
            out.append("`");
            Err(out)
        },
    }
}

/// The agents of the office, by the order of their directory.
pub open spec fn fixed_agents() -> Seq<Seq<char>> {
    seq!["agent_ceo"@, "agent_a"@, "agent_b"@, "agent_c"@, "agent_d"@, "agent_e"@]
}

pub fn office_fixed_agent_ids() -> (r: Vec<String>)
    ensures
        texts(r@) == fixed_agents(),
{
    let mut out: Vec<String> = Vec::new();
    out.push("agent_ceo".to_string());
    out.push("agent_a".to_string());
    out.push("agent_b".to_string());
    out.push("agent_c".to_string());
    out.push("agent_d".to_string());
    out.push("agent_e".to_string());
    assert(texts(out@) =~= fixed_agents());
    out
}

/// The line of an agent's owner.
pub open spec fn owner_line(d: DirectoryModel, agent: Seq<char>) -> Seq<char> {
    let b = active_binding(d, agent)->0;
    "- "@ + b.owner_user_id@ + ": owner of "@ + agent + "; binding_version: "@ + decimal(
        b.version as nat,
    ) + ".\n"@
}

/// Whether each of the agents has an owner.
pub open spec fn all_bound(d: DirectoryModel, agents: Seq<Seq<char>>) -> bool {
    forall|i: int| 0 <= i < agents.len() ==> active_binding(d, #[trigger] agents[i]) is Some
}

pub open spec fn owner_lines(d: DirectoryModel, agents: Seq<Seq<char>>) -> Seq<Seq<char>> {
    agents.map_values(|a: Seq<char>| owner_line(d, a))
}

/// The owners of the office's agents, if each has one.
pub fn render_human_participants_from_directory(directory: &PersistentPilotDirectory) -> (r: Option<
    String,
>)
    ensures
        if all_bound(directory.people(), fixed_agents()) {
            opt_text(r) == Some(joined(owner_lines(directory.people(), fixed_agents()), ""@))
        } else {
            r is None
        },
{
    let ids = office_fixed_agent_ids();
    let ghost all = fixed_agents();
    let ghost lines = owner_lines(directory.people(), all);
    let mut entries: Vec<String> = Vec::new();
    let mut i: usize = 0;
    assert(texts(entries@) =~= lines.take(0));
    while i < ids.len()
        invariant
            i <= ids@.len(),
            all == texts(ids@),
            all == fixed_agents(),
            lines == owner_lines(directory.people(), all),
            texts(entries@) == lines.take(i as int),
            forall|j: int|
                0 <= j < i ==> active_binding(directory.people(), #[trigger] all[j]) is Some,
        decreases ids@.len() - i,
    {
        let ghost before = texts(entries@);
        assert(all[i as int] == ids@[i as int]@);
        match office_owner_context_for_agent(directory, ids[i].as_str()) {
            Some(context) => {
                let mut line = "- ".to_string();
                line.append(context.owner_user_id.as_str());
                line.append(": owner of ");
                line.append(context.agent_id.as_str());
                line.append("; binding_version: ");
                line.append(decimal_of(context.binding_version).as_str());
                line.append(".\n");
                assert(line@ == lines[i as int]);
                entries.push(line);
                assert(texts(entries@) =~= before.push(line@));
                assert(lines.take(i + 1) =~= lines.take(i as int).push(lines[i as int]));
            },
            None => {
                return None;
            },
        }
        i = i + 1;
    }
    assert(lines.take(i as int) =~= lines);
    Some(join(&entries, ""))
}

/// The owners that the office starts with.
pub open spec fn default_owners() -> Seq<char> {
    "- user_ceo: owner of agent_ceo.\n- user_a: owner of agent_a.\n- user_b: owner of agent_b.\n- user_c: owner of agent_c.\n- user_d: owner of agent_d.\n- user_e: owner of agent_e.\n"@
}

pub fn render_default_human_participants() -> (r: String)
    ensures
        r@ == default_owners(),
{
    "- user_ceo: owner of agent_ceo.\n- user_a: owner of agent_a.\n- user_b: owner of agent_b.\n- user_c: owner of agent_c.\n- user_d: owner of agent_d.\n- user_e: owner of agent_e.\n".to_string()
}

/// What an agent is told of its office.
pub fn office_developer_instructions_for_agent(
    directory: &PersistentPilotDirectory,
    owner_context: &OfficeOwnerContext,
) -> (r: String)
    ensures
        exists|p: OfficeOwnerPromptContext| #[trigger]
            is_prompt_context(p, *owner_context) && r@ == developer_text(
                p,
                if all_bound(directory.people(), fixed_agents()) {
                    joined(owner_lines(directory.people(), fixed_agents()), ""@)
                } else {
                    default_owners()
                },
            ),
{
    let people = match render_human_participants_from_directory(directory) {
        Some(p) => p,
        None => render_default_human_participants(),
    };
    let context = owner_context.to_prompt_context();
    assert(is_prompt_context(context, *owner_context));
    render_office_agent_developer_instructions(&context, people.as_str())
}

// ---------------------------------------------------------------------------
// Which threads a message of an owner needs
// ---------------------------------------------------------------------------

/// The thread above that of an agent.
pub open spec fn thread_above(names: AgentNames, agent: Seq<char>) -> Option<ThreadId> {
    if agent == OFFICE_CEO_AGENT_ID@ {
        None
    } else {
        names.thread_of(OFFICE_CEO_AGENT_ID@)
    }
}

/// The thread under which an agent's thread is made: that of the chief executive's
/// agent, which itself stands alone.
pub fn delivery_parent(names: &AgentNames, agent_id: &str) -> (r: Option<ThreadId>)
    ensures
        r == thread_above(*names, agent_id@),
{
    if same_text(agent_id, OFFICE_CEO_AGENT_ID) {
        None
    } else {
        names.thread_id_for_agent_name(OFFICE_CEO_AGENT_ID)
    }
}

/// Whether a thread of an agent comes to be like this.
pub open spec fn is_spawned(r: SessionSource, agent: Seq<char>, above: Option<ThreadId>) -> bool {
    match above {
        Some(t) => r matches SessionSource::SubAgent(
            SubAgentSource::ThreadSpawn { parent_thread_id, depth, agent_type, agent_name_hint },
        ) && parent_thread_id == t && depth == 1 && agent_type == Some(SpawnedAgentType::Worker)
            && opt_text(agent_name_hint) == Some(agent),
        None => r == SessionSource::Exec,
    }
}

/// How an agent's thread comes to be.
pub fn spawn_source(agent_id: &str, parent_thread_id: Option<ThreadId>) -> (r: SessionSource)
    ensures
        is_spawned(r, agent_id@, parent_thread_id),
{
    match parent_thread_id {
        Some(parent_thread_id) => SessionSource::SubAgent(
            SubAgentSource::ThreadSpawn {
                parent_thread_id,
                depth: 1,
                agent_type: Some(SpawnedAgentType::Worker),
                agent_name_hint: Some(agent_id.to_string()),
            },
        ),
        None => SessionSource::Exec,
    }
}

/// The agents that are needed behind an agent.
pub open spec fn agents_behind(agent: Seq<char>) -> Seq<Seq<char>> {
    if agent == OFFICE_CEO_AGENT_ID@ {
        fixed_agents()
    } else {
        Seq::empty()
    }
}

/// The agents that are to have a thread behind a message to `agent_id`: behind
/// one to the chief executive's agent, all of them.
pub fn roster_behind(agent_id: &str) -> (r: Vec<String>)
    ensures
        texts(r@) == agents_behind(agent_id@),
{
    if same_text(agent_id, OFFICE_CEO_AGENT_ID) {
        office_fixed_agent_ids()
    } else {
        let out: Vec<String> = Vec::new();
        assert(texts(out@) =~= Seq::<Seq<char>>::empty());
        out
    }
}

// ---------------------------------------------------------------------------
// What an owner is shown
// ---------------------------------------------------------------------------

#[derive(Clone, Copy, Debug, Eq, PartialEq, Structural)]
pub enum OfficeAgentExternalState {
    Idle,
    Working,
    Waiting,
}

#[derive(Clone, Debug, Eq, PartialEq)]
pub struct OfficeAgentStateView {
    pub state: OfficeAgentExternalState,
    pub waiting_reason: Option<String>,
}

#[derive(Clone, Copy, Debug, Default, Eq, PartialEq, Structural)]
pub enum OfficeInboxReplyStatus {
    #[default]
    NotRequired,
    Pending,
    Replied,
}

#[derive(Clone, Debug, Eq, PartialEq)]
pub struct OfficeInboxMessage {
    pub message_id: String,
    pub from: String,
    pub to: String,
    pub content: String,
    pub need_reply: bool,
    pub reply_status: OfficeInboxReplyStatus,
    pub reply_to_message_id: Option<String>,
}

#[derive(Clone, Debug, Eq, PartialEq)]
pub struct OfficeAgentInboxView {
    pub agent_id: String,
    pub queued_count: usize,
    pub messages: Vec<OfficeInboxMessage>,
}

#[derive(Clone, Debug, Eq, PartialEq)]
pub struct OfficeAgentActivityView {
    pub agent_id: String,
    pub entries: Vec<OfficeActivityEntry>,
}

#[derive(Clone, Debug, Eq, PartialEq)]
pub struct OfficeMeResponse {
    pub username: String,
    pub user_id: String,
    pub agent_id: String,
    pub human_profile: HumanProfile,
    pub agent_profile: AgentProfile,
    pub owner_binding: AgentOwnerBinding,
    pub agent_state: OfficeAgentStateView,
    pub agent_activity: OfficeAgentActivityView,
    pub pending_owner_replies: Vec<OfficeInboxMessage>,
    pub agent_inbox: OfficeAgentInboxView,
    pub human_inbox: OfficeAgentInboxView,
}

#[derive(Clone, Debug, Eq, PartialEq)]
pub struct OfficeLoginResponse {
    pub session_token: String,
    pub me: OfficeMeResponse,
}

#[derive(Clone, Debug, Eq, PartialEq)]
pub struct OfficeInterviewResponse {
    pub human_profile: HumanProfile,
}

#[derive(Clone, Debug, Eq, PartialEq)]
pub struct OfficeReflectionResponse {
    pub reflection: DailyReflection,
    pub human_profile: HumanProfile,
}

#[derive(Clone, Debug, Eq, PartialEq)]
pub struct OfficeOwnerMessageResponse {
    pub queued_to_agent_id: String,
    pub message: OfficeInboxMessage,
    pub learned_profile_facts: Vec<UserProfileFact>,
    pub me: OfficeMeResponse,
}

#[derive(Clone, Debug, Eq, PartialEq)]
pub struct OfficeOwnerProfileSyncResponse {
    pub synced_agent_id: String,
    pub owner_user_id: String,
    pub owner_profile_path: String,
    pub me: OfficeMeResponse,
}

#[verifier::ext_equal]
pub struct ItemModel {
    pub message_id: Seq<char>,
    pub from: Seq<char>,
    pub to: Seq<char>,
    pub content: Seq<char>,
    pub need_reply: bool,
    pub reply_status: OfficeInboxReplyStatus,
    pub reply_to_message_id: Option<Seq<char>>,
}

impl View for OfficeInboxMessage {
    type V = ItemModel;

    open spec fn view(&self) -> ItemModel {
        ItemModel {
            message_id: self.message_id@,
            from: self.from@,
            to: self.to@,
            content: self.content@,
            need_reply: self.need_reply,
            reply_status: self.reply_status,
            reply_to_message_id: opt_text(self.reply_to_message_id),
        }
    }
}

pub open spec fn item_models(v: Seq<OfficeInboxMessage>) -> Seq<ItemModel> {
    v.map_values(|m: OfficeInboxMessage| m@)
}

/// Whether a reply is still to come, where nothing says that it was given.
pub open spec fn plain_status(need_reply: bool) -> OfficeInboxReplyStatus {
    if need_reply {
        OfficeInboxReplyStatus::Pending
    } else {
        OfficeInboxReplyStatus::NotRequired
    }
}

/// How the reply to a message that a person got stands.
pub open spec fn human_status(
    inboxes: Map<Seq<char>, InboxView>,
    user: Seq<char>,
    m: InboxMessage,
) -> OfficeInboxReplyStatus {
    if !m.need_reply {
        OfficeInboxReplyStatus::NotRequired
    } else if has_obligation(inboxes, user, m.message_id@) && obligation(
        inboxes,
        user,
        m.message_id@,
    ).resolved {
        OfficeInboxReplyStatus::Replied
    } else {
        OfficeInboxReplyStatus::Pending
    }
}

pub open spec fn shown_message(
    m: InboxMessage,
    to: Seq<char>,
    status: OfficeInboxReplyStatus,
) -> ItemModel {
    ItemModel {
        message_id: m.message_id@,
        from: m.sender_agent_name@,
        to,
        content: m.content@,
        need_reply: m.need_reply,
        reply_status: status,
        reply_to_message_id: opt_text(m.reply_to_message_id),
    }
}

/// The messages of a participant.
pub open spec fn shown_inbox(inboxes: Map<Seq<char>, InboxView>, id: Seq<char>) -> Seq<ItemModel> {
    inbox_of(inboxes, id).messages.map_values(
        |m: InboxMessage| shown_message(m, id, plain_status(m.need_reply)),
    )
}

/// The messages of a person, with how the replies to them stand.
pub open spec fn shown_human_inbox(inboxes: Map<Seq<char>, InboxView>, user: Seq<char>) -> Seq<
    ItemModel,
> {
    inbox_of(inboxes, user).messages.map_values(
        |m: InboxMessage| shown_message(m, user, human_status(inboxes, user, m)),
    )
}

/// The number of replies that are still to come.
pub open spec fn pending_count(s: Seq<ItemModel>) -> nat
    decreases s.len(),
{
    if s.len() == 0 {
        0
    } else {
        pending_count(s.drop_last()) + (if s.last().reply_status
            == OfficeInboxReplyStatus::Pending {
            1nat
        } else {
            0nat
        })
    }
}

/// Whether a message of the agent's inbox is one of its owner that waits for an
/// answer.
pub open spec fn awaits_answer(m: RuntimeModel, s: PilotWebSession, item: ItemModel) -> bool {
    item.need_reply && item.from == s.user_id@ && !is_answered(m, s.agent_id@, item.message_id)
}

pub open spec fn shown_state(m: RuntimeModel, agent: Seq<char>) -> OfficeAgentExternalState {
    if m.agents.contains_key(agent) {
        match m.agents[agent].state {
            AgentRuntimeState::Idle => OfficeAgentExternalState::Idle,
            AgentRuntimeState::Working => OfficeAgentExternalState::Working,
            AgentRuntimeState::Waiting => OfficeAgentExternalState::Waiting,
        }
    } else {
        OfficeAgentExternalState::Idle
    }
}

pub open spec fn shown_reason(m: RuntimeModel, agent: Seq<char>) -> Option<Seq<char>> {
    if m.agents.contains_key(agent) {
        m.agents[agent].waiting_reason
    } else {
        None
    }
}

/// Whether a session is that of this account, and its agent belongs to its user.
pub open spec fn session_fits(d: DirectoryModel, a: PilotAccount, s: PilotWebSession) -> bool {
    a.agent_id@ == s.agent_id@ && d.agents.contains_key(s.agent_id@)
        && d.agents[s.agent_id@].owner_user_id@ == s.user_id@
}

/// Whether somebody with this session can be shown anything.
pub open spec fn can_show(d: DirectoryModel, a: PilotAccount, s: PilotWebSession) -> bool {
    session_fits(d, a, s) && d.people.contains_key(s.user_id@) && active_binding(
        d,
        s.agent_id@,
    ) is Some
}

/// The store after the messages of a person's inbox were looked through for
/// answers to what the person asked their agent.
pub open spec fn replies_found(
    m: RuntimeModel,
    agent: Seq<char>,
    owner: Seq<char>,
    messages: Seq<InboxMessage>,
    now: Timestamp,
) -> RuntimeModel
    decreases messages.len(),
{
    if messages.len() == 0 {
        m
    } else {
        let before = replies_found(m, agent, owner, messages.drop_last(), now);
        let last = messages.last();
        match last.reply_to_message_id {
            Some(id) => if !last.need_reply && is_queued(before, agent, id@) && !is_answered(
                before,
                agent,
                id@,
            ) {
                answered(before, agent, owner, id@, trim(last.content@), now).0
            } else {
                before
            },
            None => before,
        }
    }
}

/// The store after somebody was shown their office.
pub open spec fn store_shown(
    m: RuntimeModel,
    d: DirectoryModel,
    inboxes: Map<Seq<char>, InboxView>,
    s: PilotWebSession,
    now: Timestamp,
) -> RuntimeModel {
    let owner = active_binding(d, s.agent_id@)->0.owner_user_id@;
    let known = with_record(m, s.agent_id@, record_of(m, s.agent_id@, owner, now));
    replies_found(known, s.agent_id@, owner, inbox_of(inboxes, s.user_id@).messages, now)
}

/// Whether this is what somebody is shown.
pub open spec fn is_shown(
    r: OfficeMeResponse,
    d: DirectoryModel,
    a: PilotAccount,
    m: RuntimeModel,
    inboxes: Map<Seq<char>, InboxView>,
    s: PilotWebSession,
) -> bool {
    &&& r.username@ == a.username@
    &&& r.user_id@ == s.user_id@
    &&& r.agent_id@ == s.agent_id@
    &&& r.human_profile@ == d.people[s.user_id@]
    &&& agent_model(r.agent_profile) == agent_model(d.agents[s.agent_id@])
    &&& r.owner_binding == active_binding(d, s.agent_id@)->0
    &&& r.agent_state.state == shown_state(m, s.agent_id@)
    &&& opt_text(r.agent_state.waiting_reason) == shown_reason(m, s.agent_id@)
    &&& r.agent_activity.agent_id@ == s.agent_id@
    &&& activity_models(r.agent_activity.entries@) == activity_of(m, s.agent_id@)
    &&& r.agent_inbox.agent_id@ == s.agent_id@
    &&& item_models(r.agent_inbox.messages@) == shown_inbox(inboxes, s.agent_id@)
    &&& r.agent_inbox.queued_count == r.agent_inbox.messages@.len()
    &&& r.human_inbox.agent_id@ == s.user_id@
    &&& item_models(r.human_inbox.messages@) == shown_human_inbox(inboxes, s.user_id@)
    &&& r.human_inbox.queued_count == pending_count(shown_human_inbox(inboxes, s.user_id@))
    &&& item_models(r.pending_owner_replies@) == shown_inbox(inboxes, s.agent_id@).filter(
        |i: ItemModel| awaits_answer(m, s, i),
    )
}

impl OfficeInboxMessage {
    pub fn copy(&self) -> (r: OfficeInboxMessage)
        ensures
            r == *self,
    {
        OfficeInboxMessage {
            message_id: self.message_id.clone(),
            from: self.from.clone(),
            to: self.to.clone(),
            content: self.content.clone(),
            need_reply: self.need_reply,
            reply_status: self.reply_status,
            reply_to_message_id: match &self.reply_to_message_id {
                Some(t) => Some(t.clone()),
                None => None,
            },
        }
    }
}

/// Whether a reply is still to come, where nothing says that it was given.
pub fn reply_status_from_need_reply(need_reply: bool) -> (r: OfficeInboxReplyStatus)
    ensures
        r == plain_status(need_reply),
{
    if need_reply {
        OfficeInboxReplyStatus::Pending
    } else {
        OfficeInboxReplyStatus::NotRequired
    }
}

/// How the reply to a message that a person got stands.
pub fn human_reply_status(inboxes: &InboxRuntime, user_id: &str, message: &InboxMessage) -> (r:
    OfficeInboxReplyStatus)
    ensures
        r == human_status(inboxes@, user_id@, *message),
{
    if !message.need_reply {
        return OfficeInboxReplyStatus::NotRequired;
    }
    match inboxes.required_reply_resolved_logical(user_id, message.message_id.as_str()) {
        Some(true) => OfficeInboxReplyStatus::Replied,
        _ => OfficeInboxReplyStatus::Pending,
    }
}

fn show_message(message: InboxMessage, to: &str, status: OfficeInboxReplyStatus) -> (r:
    OfficeInboxMessage)
    ensures
        r@ == shown_message(message, to@, status),
{
    OfficeInboxMessage {
        message_id: message.message_id,
        from: message.sender_agent_name,
        to: to.to_string(),
        content: message.content,
        need_reply: message.need_reply,
        reply_status: status,
        reply_to_message_id: message.reply_to_message_id,
    }
}

/// The messages of a participant.
pub fn build_inbox(inboxes: &InboxRuntime, participant_id: &str) -> (r: OfficeAgentInboxView)
    ensures
        r.agent_id@ == participant_id@,
        item_models(r.messages@) == shown_inbox(inboxes@, participant_id@),
        r.queued_count == r.messages@.len(),
{
    let all = inboxes.messages_for_logical(participant_id);
    let ghost shown = shown_inbox(inboxes@, participant_id@);
    let mut messages: Vec<OfficeInboxMessage> = Vec::new();
    let mut i: usize = 0;
    assert(item_models(messages@) =~= shown.take(0));
    while i < all.len()
        invariant
            i <= all@.len(),
            all@ == inbox_of(inboxes@, participant_id@).messages,
            shown == shown_inbox(inboxes@, participant_id@),
            item_models(messages@) == shown.take(i as int),
        decreases all@.len() - i,
    {
        let ghost before = item_models(messages@);
        let status = reply_status_from_need_reply(all[i].need_reply);
        let item = show_message(all[i].copy(), participant_id, status);
        messages.push(item);
        i = i + 1;
        assert(item@ == shown[i - 1]);
        assert(item_models(messages@) =~= before.push(item@));
        assert(shown.take(i as int) =~= shown.take(i - 1).push(shown[i - 1]));
    }
    assert(shown.take(i as int) =~= shown);
    OfficeAgentInboxView {
        agent_id: participant_id.to_string(),
        queued_count: messages.len(),
        messages,
    }
}

/// The messages of a person.
pub fn build_human_inbox(inboxes: &InboxRuntime, user_id: &str) -> (r: OfficeAgentInboxView)
    ensures
        r.agent_id@ == user_id@,
        item_models(r.messages@) == shown_human_inbox(inboxes@, user_id@),
        r.queued_count == pending_count(shown_human_inbox(inboxes@, user_id@)),
{
    let all = inboxes.messages_for_logical(user_id);
    let ghost shown = shown_human_inbox(inboxes@, user_id@);
    let mut messages: Vec<OfficeInboxMessage> = Vec::new();
    let mut queued_count: usize = 0;
    let mut i: usize = 0;
    assert(item_models(messages@) =~= shown.take(0));
    while i < all.len()
        invariant
            i <= all@.len(),
            all@ == inbox_of(inboxes@, user_id@).messages,
            shown == shown_human_inbox(inboxes@, user_id@),
            item_models(messages@) == shown.take(i as int),
            queued_count == pending_count(shown.take(i as int)),
            queued_count <= i,
        decreases all@.len() - i,
    {
        let ghost before = item_models(messages@);
        let status = human_reply_status(inboxes, user_id, &all[i]);
        let item = show_message(all[i].copy(), user_id, status);
        messages.push(item);
        i = i + 1;
        proof {
            assert(item@ == shown[i - 1]);
            assert(item_models(messages@) =~= before.push(item@));
            assert(shown.take(i as int) =~= shown.take(i - 1).push(shown[i - 1]));
            assert(shown.take(i as int).drop_last() =~= shown.take(i - 1));
        }
        if status == OfficeInboxReplyStatus::Pending {
            queued_count = queued_count + 1;
        }
    }
    assert(shown.take(i as int) =~= shown);
    OfficeAgentInboxView { agent_id: user_id.to_string(), queued_count, messages }
}

/// How an agent stands.
pub fn build_agent_state(store: &OfficeRuntimeStore, agent_id: &str) -> (r: OfficeAgentStateView)
    ensures
        r.state == shown_state(store@, agent_id@),
        opt_text(r.waiting_reason) == shown_reason(store@, agent_id@),
{
    match store.get(agent_id) {
        Some(record) => OfficeAgentStateView {
            state: match record.state {
                AgentRuntimeState::Idle => OfficeAgentExternalState::Idle,
                AgentRuntimeState::Working => OfficeAgentExternalState::Working,
                AgentRuntimeState::Waiting => OfficeAgentExternalState::Waiting,
            },
            waiting_reason: match &record.waiting_reason {
                Some(t) => Some(t.clone()),
                None => None,
            },
        },
        None => OfficeAgentStateView {
            state: OfficeAgentExternalState::Idle,
            waiting_reason: None,
        },
    }
}

/// What an agent did.
pub fn build_agent_activity(store: &OfficeRuntimeStore, agent_id: &str) -> (r:
    OfficeAgentActivityView)
    ensures
        r.agent_id@ == agent_id@,
        activity_models(r.entries@) == activity_of(store@, agent_id@),
{
    OfficeAgentActivityView {
        agent_id: agent_id.to_string(),
        entries: store.activity_for_agent(agent_id),
    }
}

/// Whether a session is found to be that of an account of its user, and its agent to
/// belong to that user.
pub open spec fn belongs_together(r: bool, d: DirectoryModel, s: PilotWebSession) -> bool {
    &&& r ==> exists|a: PilotAccount|
        is_account_of(d, s.user_id@, a) && #[trigger] session_fits(d, a, s)
    &&& !r ==> (forall|a: PilotAccount| !is_account_of(d, s.user_id@, a)) || exists|a: PilotAccount|
        is_account_of(d, s.user_id@, a) && !(#[trigger] session_fits(d, a, s))
}

/// Whether a session is that of an account of its user, and its agent belongs to
/// that user.
pub fn register_session_participants(
    directory: &PersistentPilotDirectory,
    session: &PilotWebSession,
) -> (r: bool)
    ensures
        belongs_together(r, directory.people(), *session),
{
    match directory.account_for_user(session.user_id.as_str()) {
        Some(account) => {
            let fits = same_text(account.agent_id.as_str(), session.agent_id.as_str())
                && match directory.agent_profile(session.agent_id.as_str()) {
                Some(profile) => same_text(
                    profile.owner_user_id.as_str(),
                    session.user_id.as_str(),
                ),
                None => false,
            };
            assert(fits == session_fits(directory.people(), *account, *session));
            fits
        },
        None => false,
    }
}

/// The store after the inbox of a person was looked through, if their agent is known.
pub open spec fn after_replies(
    m: RuntimeModel,
    inboxes: Map<Seq<char>, InboxView>,
    s: PilotWebSession,
    now: Timestamp,
) -> RuntimeModel {
    if m.agents.contains_key(s.agent_id@) {
        replies_found(
            m,
            s.agent_id@,
            m.agents[s.agent_id@].owner_user_id,
            inbox_of(inboxes, s.user_id@).messages,
            now,
        )
    } else {
        m
    }
}

/// Looks through the messages of a person for answers to what they asked their
/// agent.
pub fn sync_owner_reply_ready_from_human_inboxes(
    store: &mut OfficeRuntimeStore,
    inboxes: &InboxRuntime,
    session: &PilotWebSession,
    now: Timestamp,
)
    ensures
        final(store).place() == old(store).place(),
        final(store)@ == after_replies(old(store)@, inboxes@, *session, now),
{
    let owner = match store.get(session.agent_id.as_str()) {
        Some(record) => record.owner_user_id.clone(),
        None => {
            return ;
        },
    };
    let ghost m = store@;
    let agent = session.agent_id.as_str();
    let all = inboxes.messages_for_logical(session.user_id.as_str());
    let mut i: usize = 0;
    while i < all.len()
        invariant
            i <= all@.len(),
            agent@ == session.agent_id@,
            store.place() == old(store).place(),
            store@ == replies_found(m, agent@, owner@, all@.take(i as int), now),
        decreases all@.len() - i,
    {
        proof {
            assert(all@.take(i + 1).drop_last() =~= all@.take(i as int));
            assert(all@.take(i + 1).last() == all@[i as int]);
        }
        if !all[i].need_reply {
            if let Some(id) = &all[i].reply_to_message_id {
                if store.has_owner_message_queued(agent, id.as_str())
                    && !store.has_owner_reply_ready(agent, id.as_str()) {
                    store.mark_owner_reply_ready(
                        agent,
                        owner.as_str(),
                        id.as_str(),
                        trimmed(all[i].content.as_str()),
                        now,
                    );
                }
            }
        }
        i = i + 1;
    }
    assert(all@.take(i as int) =~= all@);
}

fn open_replies(store: &OfficeRuntimeStore, session: &PilotWebSession, inbox: &OfficeAgentInboxView) -> (r:
    Vec<OfficeInboxMessage>)
    ensures
        item_models(r@) == item_models(inbox.messages@).filter(
            |i: ItemModel| awaits_answer(store@, *session, i),
        ),
{
    let ghost p = |i: ItemModel| awaits_answer(store@, *session, i);
    let ghost s = item_models(inbox.messages@);
    let mut out: Vec<OfficeInboxMessage> = Vec::new();
    let mut i: usize = 0;
    proof {
        reveal(Seq::filter);
        assert(s.take(0).filter(p) =~= Seq::<ItemModel>::empty());
        assert(item_models(out@) =~= Seq::<ItemModel>::empty());
    }
    while i < inbox.messages.len()
        invariant
            i <= inbox.messages@.len(),
            s == item_models(inbox.messages@),
            p == (|i: ItemModel| awaits_answer(store@, *session, i)),
            item_models(out@) == s.take(i as int).filter(p),
        decreases inbox.messages@.len() - i,
    {
        let ghost before = item_models(out@);
        let item = &inbox.messages[i];
        proof {
            assert(s[i as int] == inbox.messages@[i as int]@);
            assert(s.take(i + 1).drop_last() =~= s.take(i as int));
            assert(s.take(i + 1).last() == s[i as int]);
            reveal(Seq::filter);
        }
        if item.need_reply && same_text(item.from.as_str(), session.user_id.as_str())
            && !store.has_owner_reply_ready(session.agent_id.as_str(), item.message_id.as_str()) {
            let copied = item.copy();
            out.push(copied);
            assert(item_models(out@) =~= before.push(copied@));
        }
        i = i + 1;
    }
    assert(s.take(i as int) =~= s);
    out
}

/// Whether this is what somebody with a session is shown, if anything.
pub open spec fn builds_me(
    r: Option<OfficeMeResponse>,
    d: DirectoryModel,
    was: RuntimeModel,
    m: RuntimeModel,
    inboxes: Map<Seq<char>, InboxView>,
    s: PilotWebSession,
    now: Timestamp,
) -> bool {
    match r {
        Some(me) => m == store_shown(was, d, inboxes, s, now) && exists|a: PilotAccount|
            is_account_of(d, s.user_id@, a) && #[trigger] can_show(d, a, s) && is_shown(
                me,
                d,
                a,
                m,
                inboxes,
                s,
            ),
        None => m == was && ((forall|a: PilotAccount| !is_account_of(d, s.user_id@, a)) || exists|
            a: PilotAccount,
        | is_account_of(d, s.user_id@, a) && !(#[trigger] can_show(d, a, s))),
    }
}

/// What somebody with this session is shown, if their account, profile and agent
/// belong together.
pub fn build_me(
    directory: &PersistentPilotDirectory,
    store: &mut OfficeRuntimeStore,
    inboxes: &InboxRuntime,
    session: &PilotWebSession,
    now: Timestamp,
) -> (r: Option<OfficeMeResponse>)
    ensures
        final(store).place() == old(store).place(),
        builds_me(r, directory.people(), old(store)@, final(store)@, inboxes@, *session, now),
{
    let ghost d = directory.people();
    let account = match directory.account_for_user(session.user_id.as_str()) {
        Some(a) => a,
        None => {
            return None;
        },
    };
    assert(is_account_of(d, session.user_id@, *account));
    if !same_text(account.agent_id.as_str(), session.agent_id.as_str()) {
        assert(!can_show(d, *account, *session));
        return None;
    }
    let human_profile = match directory.human_profile(session.user_id.as_str()) {
        Some(p) => p.copy(),
        None => {
            assert(!can_show(d, *account, *session));
            return None;
        },
    };
    let agent_profile = match directory.agent_profile(session.agent_id.as_str()) {
        Some(p) => p.copy(),
        None => {
            assert(!can_show(d, *account, *session));
            return None;
        },
    };
    if !same_text(agent_profile.owner_user_id.as_str(), session.user_id.as_str()) {
        assert(!can_show(d, *account, *session));
        return None;
    }
    let owner_binding = match directory.active_owner_binding(session.agent_id.as_str()) {
        Some(b) => b.copy(),
        None => {
            assert(!can_show(d, *account, *session));
            return None;
        },
    };
    assert(can_show(d, *account, *session));
    store.ensure_agent(
        session.agent_id.as_str(),
        owner_binding.owner_user_id.as_str(),
        now,
    );
    sync_owner_reply_ready_from_human_inboxes(store, inboxes, session, now);
    let agent_inbox = build_inbox(inboxes, session.agent_id.as_str());
    let human_inbox = build_human_inbox(inboxes, session.user_id.as_str());
    let pending_owner_replies = open_replies(store, session, &agent_inbox);
    let me = OfficeMeResponse {
        username: account.username.clone(),
        user_id: session.user_id.clone(),
        agent_id: session.agent_id.clone(),
        human_profile,
        agent_profile,
        owner_binding,
        agent_state: build_agent_state(store, session.agent_id.as_str()),
        agent_activity: build_agent_activity(store, session.agent_id.as_str()),
        pending_owner_replies,
        agent_inbox,
        human_inbox,
    };
    assert(is_shown(me, d, *account, store@, inboxes@, *session));
    Some(me)
}

// ---------------------------------------------------------------------------
// Laws
// ---------------------------------------------------------------------------

/// Once an answer stands in the inbox of whom asked, the question is answered,
/// and no longer waits.
pub proof fn law_found_reply_answers(
    m: RuntimeModel,
    agent: Seq<char>,
    owner: Seq<char>,
    messages: Seq<InboxMessage>,
    now: Timestamp,
)
    requires
        messages.len() > 0,
        !messages.last().need_reply,
        messages.last().reply_to_message_id is Some,
        is_queued(
            replies_found(m, agent, owner, messages.drop_last(), now),
            agent,
            messages.last().reply_to_message_id->0@,
        ),
    ensures
        is_answered(
            replies_found(m, agent, owner, messages, now),
            agent,
            messages.last().reply_to_message_id->0@,
        ),
{
}

/// Looking through an inbox changes nothing where it holds no answer.
pub proof fn law_no_reply_no_change(
    m: RuntimeModel,
    agent: Seq<char>,
    owner: Seq<char>,
    messages: Seq<InboxMessage>,
    now: Timestamp,
)
    requires
        forall|i: int|
            0 <= i < messages.len() ==> (#[trigger] messages[i]).need_reply
                || messages[i].reply_to_message_id is None,
    ensures
        replies_found(m, agent, owner, messages, now) == m,
    decreases messages.len(),
{
    if messages.len() > 0 {
        let front = messages.drop_last();
        assert forall|i: int| 0 <= i < front.len() implies (#[trigger] front[i]).need_reply
            || front[i].reply_to_message_id is None by {
            assert(front[i] == messages[i]);
        }
        law_no_reply_no_change(m, agent, owner, front, now);
        assert(messages.last() == messages[messages.len() - 1]);
    }
}

/// What belongs to an office lies beside its store, under its own name; its home is
/// what the environment names, or else below the user's.
pub proof fn law_offices_lie_beside_their_store(
    store: Seq<char>,
    codex_home: Option<Seq<char>>,
    home: Option<Seq<char>>,
)
    requires
        crate::paths::has_file_name(store),
        parent(store) is Some,
    ensures
        ({
            let c = default_config(store, codex_home, home);
            let p = parent(store)->0;
            &&& c.store_path == store
            &&& c.runtime_store_path == path_join(p, "office-runtime.json"@)
            &&& c.collab_inbox_path == path_join(p, "office-collab-inbox.json"@)
            &&& c.blackboard_path == path_join(p, "office-blackboard.json"@)
            &&& c.memory_root == path_join(p, "office-memory"@)
            &&& c.session_cookie == "codex_office_session"@
            &&& codex_home is Some ==> c.codex_home == codex_home->0
            &&& codex_home is None && home is Some ==> c.codex_home == path_join(
                home->0,
                ".codex"@,
            )
            &&& codex_home is None && home is None ==> c.codex_home == ".codex"@
        }),
{
}

/// What an agent reads of a message begins with whom it is from, what it answers, its
/// id, whether a reply is asked for, and its text.
pub proof fn law_agents_read_the_whole_message(d: OfficeOwnerDelivery)
    ensures
        begins(
            delivery_text(d),
            "office owner message from ["@ + d.owner_user_id@ + "],reply_to["@ + (
            match d.reply_to_message_id {
                Some(id) => id@,
                None => "none"@,
            }) + "],message_id["@ + d.message_id@ + "],need_reply["@ + (if d.need_reply {
                "true"@
            } else {
                "false"@
            }) + "]\n\n"@ + trim_end(d.content@),
        ),
{
    let head = "office owner message from ["@ + d.owner_user_id@ + "],reply_to["@ + or_none(
        d.reply_to_message_id,
    ) + "],message_id["@ + d.message_id@ + "],need_reply["@ + crate::office::prompts::bool_text(
        d.need_reply,
    ) + "]\n\n"@ + trim_end(d.content@);
    assert(delivery_text(d).subrange(0, head.len() as int) =~= head);
}

/// An answer names the message that was found to be open; where none was, the message
/// itself, if it asks for a reply, or none.
pub proof fn law_answers_name_the_open_message(d: OfficeOwnerDelivery)
    ensures
        d.owner_reply_target_message_id is Some ==> reply_target_of(d) == Some(
            d.owner_reply_target_message_id->0@,
        ),
        d.owner_reply_target_message_id is None && d.need_reply ==> reply_target_of(d) == Some(
            d.message_id@,
        ),
        d.owner_reply_target_message_id is None && !d.need_reply ==> reply_target_of(d) is None,
{
}

/// The context of an agent tells the agent and the owner that is bound to it; a prompt
/// tells the same.
pub proof fn law_contexts_tell_the_bound_owner(
    c: OfficeOwnerContext,
    agent: Seq<char>,
    d: DirectoryModel,
    p: OfficeOwnerPromptContext,
)
    requires
        active_binding(d, agent) is Some,
        is_context_of(c, agent, active_binding(d, agent)->0),
        is_prompt_context(p, c),
    ensures
        c.agent_id@ == agent && p.agent_id@ == agent,
        c.owner_user_id == d.bindings[agent].owner_user_id,
        p.owner_user_id@ == d.bindings[agent].owner_user_id@,
        c.binding == d.bindings[agent],
        c.binding_version == d.bindings[agent].version,
        p.binding_version == d.bindings[agent].version,
        p.binding_type@ == "PrimaryOwner"@,
        p.binding_status@ == "Active"@,
{
}

/// The threads of all agents stand below that of the chief executive's agent, which
/// stands alone; a message to that one needs all six agents, and one to another none
/// but that.
pub proof fn law_threads_stand_below_the_chief(
    names: AgentNames,
    agent: Seq<char>,
    r: SessionSource,
)
    requires
        is_spawned(r, agent, thread_above(names, agent)),
    ensures
        agent == "agent_ceo"@ ==> r == SessionSource::Exec && agents_behind(agent).len() == 6,
        agent != "agent_ceo"@ ==> agents_behind(agent).len() == 0,
        agent != "agent_ceo"@ && names.thread_of("agent_ceo"@) is None ==> r
            == SessionSource::Exec,
        agent != "agent_ceo"@ && names.thread_of("agent_ceo"@) is Some ==> (
        r matches SessionSource::SubAgent(
            SubAgentSource::ThreadSpawn { parent_thread_id, depth, agent_type, agent_name_hint },
        ) && parent_thread_id == names.thread_of("agent_ceo"@)->0 && depth == 1 && agent_type
            == Some(SpawnedAgentType::Worker) && agent_name_hint is Some && agent_name_hint->0@
            == agent),
        agents_behind("agent_ceo"@).contains("agent_ceo"@),
        agents_behind("agent_ceo"@).contains("agent_a"@),
        agents_behind("agent_ceo"@).contains("agent_b"@),
        agents_behind("agent_ceo"@).contains("agent_c"@),
        agents_behind("agent_ceo"@).contains("agent_d"@),
        agents_behind("agent_ceo"@).contains("agent_e"@),
{
    let s = fixed_agents();
    assert(s[0] == "agent_ceo"@ && s[1] == "agent_a"@ && s[2] == "agent_b"@ && s[3] == "agent_c"@
        && s[4] == "agent_d"@ && s[5] == "agent_e"@);
}

/// A reply is asked for just where the message says so; it was given where what is
/// owed for it is settled.
pub proof fn law_replies_stand_as_they_are_owed(
    inboxes: Map<Seq<char>, InboxView>,
    user: Seq<char>,
    m: InboxMessage,
)
    ensures
        human_status(inboxes, user, m) == OfficeInboxReplyStatus::NotRequired <==> !m.need_reply,
        human_status(inboxes, user, m) == OfficeInboxReplyStatus::Replied <==> m.need_reply
            && has_obligation(inboxes, user, m.message_id@) && obligation(
            inboxes,
            user,
            m.message_id@,
        ).resolved,
        plain_status(m.need_reply) == OfficeInboxReplyStatus::NotRequired <==> !m.need_reply,
        plain_status(m.need_reply) == OfficeInboxReplyStatus::Pending <==> m.need_reply,
{
}

/// Inboxes are shown message by message, in their order, each with whom it is from,
/// whom it is to and what it says.
pub proof fn law_inboxes_are_shown_in_order(
    inboxes: Map<Seq<char>, InboxView>,
    id: Seq<char>,
    i: int,
)
    requires
        0 <= i < inbox_of(inboxes, id).messages.len(),
    ensures
        shown_inbox(inboxes, id).len() == inbox_of(inboxes, id).messages.len(),
        shown_human_inbox(inboxes, id).len() == inbox_of(inboxes, id).messages.len(),
        ({
            let m = inbox_of(inboxes, id).messages[i];
            let a = shown_inbox(inboxes, id)[i];
            let h = shown_human_inbox(inboxes, id)[i];
            &&& a.message_id == m.message_id@ && h.message_id == m.message_id@
            &&& a.from == m.sender_agent_name@ && h.from == m.sender_agent_name@
            &&& a.to == id && h.to == id
            &&& a.content == m.content@ && h.content == m.content@
            &&& a.need_reply == m.need_reply && h.need_reply == m.need_reply
            &&& a.reply_to_message_id == opt_text(m.reply_to_message_id)
            &&& h.reply_to_message_id == opt_text(m.reply_to_message_id)
        }),
{
}

/// The replies that are still to come are counted one by one.
pub proof fn law_pending_replies_are_counted(s: Seq<ItemModel>, i: ItemModel)
    ensures
        i.reply_status == OfficeInboxReplyStatus::Pending ==> pending_count(s.push(i))
            == pending_count(s) + 1,
        i.reply_status != OfficeInboxReplyStatus::Pending ==> pending_count(s.push(i))
            == pending_count(s),
        pending_count(Seq::<ItemModel>::empty()) == 0,
        pending_count(s) <= s.len(),
    decreases s.len(),
{
    assert(s.push(i).drop_last() =~= s);
    if s.len() > 0 {
        law_pending_replies_are_counted(s.drop_last(), i);
    }
}

/// Everyone is shown what is theirs: their own profile, agent and inbox, their agent
/// as it stands, and of their own messages to it those that wait for an answer.
pub proof fn law_everyone_is_shown_what_is_theirs(
    r: OfficeMeResponse,
    d: DirectoryModel,
    a: PilotAccount,
    m: RuntimeModel,
    inboxes: Map<Seq<char>, InboxView>,
    s: PilotWebSession,
)
    requires
        can_show(d, a, s),
        is_shown(r, d, a, m, inboxes, s),
    ensures
        r.username@ == a.username@,
        r.user_id@ == s.user_id@,
        r.agent_id@ == s.agent_id@ && r.agent_id@ == a.agent_id@,
        r.human_profile@ == d.people[s.user_id@],
        d.agents[s.agent_id@].owner_user_id@ == s.user_id@,
        r.owner_binding == d.bindings[s.agent_id@],
        m.agents.contains_key(s.agent_id@) ==> {
            let was = m.agents[s.agent_id@];
            &&& was.state == AgentRuntimeState::Idle ==> r.agent_state.state
                == OfficeAgentExternalState::Idle
            &&& was.state == AgentRuntimeState::Working ==> r.agent_state.state
                == OfficeAgentExternalState::Working
            &&& was.state == AgentRuntimeState::Waiting ==> r.agent_state.state
                == OfficeAgentExternalState::Waiting
            &&& opt_text(r.agent_state.waiting_reason) == was.waiting_reason
        },
        !m.agents.contains_key(s.agent_id@) ==> r.agent_state.state
            == OfficeAgentExternalState::Idle && r.agent_state.waiting_reason is None,
        activity_models(r.agent_activity.entries@) == activity_of(m, s.agent_id@),
        r.agent_inbox.queued_count == inbox_of(inboxes, s.agent_id@).messages.len(),
        forall|i: int|
            0 <= i < r.pending_owner_replies@.len() ==> ({
                let p = (#[trigger] item_models(r.pending_owner_replies@)[i]);
                p.from == s.user_id@ && p.need_reply && !is_answered(m, s.agent_id@, p.message_id)
            }),
        forall|i: int|
            0 <= i < shown_inbox(inboxes, s.agent_id@).len() ==> ({
                let q = (#[trigger] shown_inbox(inboxes, s.agent_id@)[i]);
                q.from == s.user_id@ && q.need_reply && !is_answered(m, s.agent_id@, q.message_id)
                    ==> item_models(r.pending_owner_replies@).contains(q)
            }),
{
    let all = shown_inbox(inboxes, s.agent_id@);
    let f = |i: ItemModel| awaits_answer(m, s, i);
    broadcast use vstd::seq_lib::group_filter_ensures;

    assert(item_models(r.pending_owner_replies@) == all.filter(f));
    assert forall|i: int| 0 <= i < r.pending_owner_replies@.len() implies ({
        let p = (#[trigger] item_models(r.pending_owner_replies@)[i]);
        p.from == s.user_id@ && p.need_reply && !is_answered(m, s.agent_id@, p.message_id)
    }) by {
        assert(f(all.filter(f)[i]));
    }
    assert forall|i: int| 0 <= i < all.len() implies ({
        let q = (#[trigger] all[i]);
        q.from == s.user_id@ && q.need_reply && !is_answered(m, s.agent_id@, q.message_id)
            ==> item_models(r.pending_owner_replies@).contains(q)
    }) by {
        if all[i].from == s.user_id@ && all[i].need_reply && !is_answered(
            m,
            s.agent_id@,
            all[i].message_id,
        ) {
            assert(f(all[i]));
        }
    }
    assert(item_models(r.agent_inbox.messages@).len() == all.len());
}

/// What is set of a configuration is set, and the rest stays: the places that are set
/// one after the other are all there.
pub proof fn law_places_are_set_one_by_one(
    c: ConfigModel,
    runtime: Seq<char>,
    inboxes: Seq<char>,
    blackboard: Seq<char>,
    memory: Seq<char>,
    home: Seq<char>,
    cookie: Seq<char>,
)
    ensures
        ({
            let d = with_cookie(
                with_home_at(
                    with_memory_at(
                        with_blackboard_at(
                            with_inboxes_at(with_runtime_at(c, runtime), inboxes),
                            blackboard,
                        ),
                        memory,
                    ),
                    home,
                ),
                cookie,
            );
            &&& d.store_path == c.store_path
            &&& d.runtime_store_path == runtime
            &&& d.collab_inbox_path == inboxes
            &&& d.blackboard_path == blackboard
            &&& d.memory_root == memory
            &&& d.codex_home == home
            &&& d.session_cookie == cookie
        }),
        with_cookie(c, cookie).runtime_store_path == c.runtime_store_path,
        with_runtime_at(c, runtime).session_cookie == c.session_cookie,
{
}

/// A session that belongs together is that of a user's own agent.
pub proof fn law_sessions_are_of_the_own_agent(r: bool, d: DirectoryModel, s: PilotWebSession)
    requires
        belongs_together(r, d, s),
    ensures
        r ==> d.agents.contains_key(s.agent_id@) && d.agents[s.agent_id@].owner_user_id@
            == s.user_id@,
        r ==> exists|a: PilotAccount| #[trigger]
            is_account_of(d, s.user_id@, a) && a.agent_id@ == s.agent_id@,
        (exists|a: PilotAccount| is_account_of(d, s.user_id@, a)) && (forall|a: PilotAccount| #[trigger]
            is_account_of(d, s.user_id@, a) ==> a.agent_id@ == s.agent_id@)
            && d.agents.contains_key(s.agent_id@) && d.agents[s.agent_id@].owner_user_id@
            == s.user_id@ ==> r,
{
    if r {
        let a = choose|a: PilotAccount|
            is_account_of(d, s.user_id@, a) && #[trigger] session_fits(d, a, s);
        assert(is_account_of(d, s.user_id@, a));
    }
}

proof fn lemma_replies_leave_others(
    m: RuntimeModel,
    agent: Seq<char>,
    owner: Seq<char>,
    messages: Seq<InboxMessage>,
    now: Timestamp,
    other: Seq<char>,
)
    requires
        other != agent,
    ensures
        activity_of(replies_found(m, agent, owner, messages, now), other) == activity_of(m, other),
        m.agents.contains_key(other) ==> replies_found(
            m,
            agent,
            owner,
            messages,
            now,
        ).agents.contains_key(other) && replies_found(m, agent, owner, messages, now).agents[other]
            == m.agents[other],
    decreases messages.len(),
{
    if messages.len() > 0 {
        lemma_replies_leave_others(m, agent, owner, messages.drop_last(), now, other);
    }
}

/// Whoever is shown their office sees their own: their session belongs to their own
/// agent, a profile is there, and its binding is in force. What that notes, it notes of
/// that agent alone; whoever cannot be shown anything leaves nothing behind.
pub proof fn law_offices_are_shown_to_their_own(
    r: Option<OfficeMeResponse>,
    d: DirectoryModel,
    was: RuntimeModel,
    m: RuntimeModel,
    inboxes: Map<Seq<char>, InboxView>,
    s: PilotWebSession,
    now: Timestamp,
    other: Seq<char>,
)
    requires
        builds_me(r, d, was, m, inboxes, s, now),
    ensures
        r is None ==> m == was,
        r matches Some(me) ==> {
            &&& me.user_id@ == s.user_id@ && me.agent_id@ == s.agent_id@
            &&& d.people.contains_key(s.user_id@) && me.human_profile@ == d.people[s.user_id@]
            &&& d.agents.contains_key(s.agent_id@) && d.agents[s.agent_id@].owner_user_id@
                == s.user_id@
            &&& d.bindings.contains_key(s.agent_id@) && me.owner_binding == d.bindings[s.agent_id@]
            &&& d.bindings[s.agent_id@].status == AgentOwnerBindingStatus::Active
        },
        other != s.agent_id@ ==> activity_of(m, other) == activity_of(was, other),
{
    if r is Some && other != s.agent_id@ {
        let owner = active_binding(d, s.agent_id@)->0.owner_user_id@;
        let known = with_record(was, s.agent_id@, record_of(was, s.agent_id@, owner, now));
        lemma_replies_leave_others(
            known,
            s.agent_id@,
            owner,
            inbox_of(inboxes, s.user_id@).messages,
            now,
            other,
        );
    }
}

/// An answer of the agent that lies in the inbox of its owner is kept with what it
/// answers, without the white space around it; an agent that is not known has none.
pub proof fn law_found_answers_are_kept(
    m: RuntimeModel,
    agent: Seq<char>,
    owner: Seq<char>,
    messages: Seq<InboxMessage>,
    now: Timestamp,
    inboxes: Map<Seq<char>, InboxView>,
    s: PilotWebSession,
)
    requires
        messages.len() > 0,
        !messages.last().need_reply,
        messages.last().reply_to_message_id is Some,
    ensures
        ({
            let before = replies_found(m, agent, owner, messages.drop_last(), now);
            let after = replies_found(m, agent, owner, messages, now);
            let id = messages.last().reply_to_message_id->0@;
            &&& is_queued(before, agent, id) && !is_answered(before, agent, id)
                ==> crate::office::runtime::status_of(after, agent, id).reply_content == Some(
                trim(messages.last().content@),
            )
            &&& !is_queued(before, agent, id) || is_answered(before, agent, id) ==> after == before
        }),
        !m.agents.contains_key(s.agent_id@) ==> after_replies(m, inboxes, s, now) == m,
{
}

/// The owners of the office are told one by one, in the order of their agents: whose
/// agent it is and which version of their binding is in force.
pub proof fn law_owners_are_told_by_agent(d: DirectoryModel, i: int)
    requires
        all_bound(d, fixed_agents()),
        0 <= i < 6,
    ensures
        owner_lines(d, fixed_agents()).len() == 6,
        ({
            let agent = seq!["agent_ceo"@, "agent_a"@, "agent_b"@, "agent_c"@, "agent_d"@, "agent_e"@][i];
            let b = d.bindings[agent];
            &&& d.bindings.contains_key(agent)
            &&& b.status == AgentOwnerBindingStatus::Active
            &&& owner_lines(d, fixed_agents())[i] == "- "@ + b.owner_user_id@ + ": owner of "@
                + agent + "; binding_version: "@ + decimal(b.version as nat) + ".\n"@
        }),
{
    let s = fixed_agents();
    assert(active_binding(d, s[i]) is Some);
    assert(s[i] == seq![
        "agent_ceo"@,
        "agent_a"@,
        "agent_b"@,
        "agent_c"@,
        "agent_d"@,
        "agent_e"@,
    ][i]);
}

} // verus!
