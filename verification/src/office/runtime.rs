//! What is known of the agents at run time: how they stand, what they did, and
//! which messages of their owners wait for an answer.
use crate::ids::{thread_text, ThreadId};
use crate::table::Table;
use crate::text::{copy_opt, opt_text, same_text};
use crate::time::Timestamp;
use crate::tools::handlers::collab_inbox::{keep_last, next_number};
use vstd::prelude::*;

verus! {

/// The number of activities that are kept of an agent; the oldest leave first.
pub const OFFICE_ACTIVITY_LIMIT_PER_AGENT: usize = 50;

#[derive(Clone, Copy, Debug, Eq, PartialEq, Structural)]
pub enum AgentRuntimeState {
    Idle,
    Working,
    Waiting,
}

#[derive(Clone, Debug, Eq, PartialEq)]
pub struct AgentRuntimeRecord {
    pub agent_id: String,
    pub owner_user_id: String,
    pub thread_id: Option<ThreadId>,
    pub rollout_path: Option<String>,
    pub state: AgentRuntimeState,
    pub last_seen_at: Timestamp,
    pub waiting_reason: Option<String>,
}

#[derive(Clone, Copy, Debug, Eq, PartialEq, Structural)]
pub enum OfficeActivityKind {
    OwnerMessageQueued,
    RuntimeThreadResumed,
    RuntimeTurnStarted,
    RuntimeReasoning,
    RuntimePlan,
    RuntimeAgentMessage,
    RuntimeToolStarted,
    RuntimeToolFinished,
    RuntimeCollab,
    RuntimeWait,
    RuntimeError,
    OwnerReplyReady,
}

#[derive(Clone, Debug, Eq, PartialEq)]
pub struct OfficeActivityEntry {
    pub sequence: u64,
    pub agent_id: String,
    pub timestamp: Timestamp,
    pub kind: OfficeActivityKind,
    pub source: String,
    pub title: String,
    pub summary: String,
    pub detail: Option<String>,
    pub message_id: Option<String>,
    pub tool_name: Option<String>,
}

#[derive(Clone, Debug, Eq, PartialEq, Default)]
pub struct OwnerMessageStatus {
    pub queued: bool,
    pub reply_ready: bool,
    pub reply_content: Option<String>,
}

#[derive(Clone, Debug)]
pub struct OfficeRuntimeSnapshot {
    pub agents: Table<AgentRuntimeRecord>,
    pub activity_by_agent: Table<Vec<OfficeActivityEntry>>,
    pub owner_message_status_by_agent: Table<Table<OwnerMessageStatus>>,
    pub next_activity_sequence: u64,
}

/// The runtime store: its place and what it holds.
#[derive(Clone, Debug)]
pub struct OfficeRuntimeStore {
    path: String,
    snapshot: OfficeRuntimeSnapshot,
}

// ---------------------------------------------------------------------------
// Models
// ---------------------------------------------------------------------------

#[verifier::ext_equal]
pub struct RecordModel {
    pub agent_id: Seq<char>,
    pub owner_user_id: Seq<char>,
    pub thread_id: Option<ThreadId>,
    pub rollout_path: Option<Seq<char>>,
    pub state: AgentRuntimeState,
    pub last_seen_at: Timestamp,
    pub waiting_reason: Option<Seq<char>>,
}

#[verifier::ext_equal]
pub struct ActivityModel {
    pub sequence: u64,
    pub agent_id: Seq<char>,
    pub timestamp: Timestamp,
    pub kind: OfficeActivityKind,
    pub source: Seq<char>,
    pub title: Seq<char>,
    pub summary: Seq<char>,
    pub detail: Option<Seq<char>>,
    pub message_id: Option<Seq<char>>,
    pub tool_name: Option<Seq<char>>,
}

#[verifier::ext_equal]
pub struct StatusModel {
    pub queued: bool,
    pub reply_ready: bool,
    pub reply_content: Option<Seq<char>>,
}

#[verifier::ext_equal]
pub struct RuntimeModel {
    pub agents: Map<Seq<char>, RecordModel>,
    pub activity: Map<Seq<char>, Seq<ActivityModel>>,
    pub owner_messages: Map<Seq<char>, Map<Seq<char>, StatusModel>>,
    pub next_sequence: u64,
}

impl View for AgentRuntimeRecord {
    type V = RecordModel;

    open spec fn view(&self) -> RecordModel {
        RecordModel {
            agent_id: self.agent_id@,
            owner_user_id: self.owner_user_id@,
            thread_id: self.thread_id,
            rollout_path: opt_text(self.rollout_path),
            state: self.state,
            last_seen_at: self.last_seen_at,
            waiting_reason: opt_text(self.waiting_reason),
        }
    }
}

impl View for OfficeActivityEntry {
    type V = ActivityModel;

    open spec fn view(&self) -> ActivityModel {
        ActivityModel {
            sequence: self.sequence,
            agent_id: self.agent_id@,
            timestamp: self.timestamp,
            kind: self.kind,
            source: self.source@,
            title: self.title@,
            summary: self.summary@,
            detail: opt_text(self.detail),
            message_id: opt_text(self.message_id),
            tool_name: opt_text(self.tool_name),
        }
    }
}

impl View for OwnerMessageStatus {
    type V = StatusModel;

    open spec fn view(&self) -> StatusModel {
        StatusModel {
            queued: self.queued,
            reply_ready: self.reply_ready,
            reply_content: opt_text(self.reply_content),
        }
    }
}

pub open spec fn activity_models(v: Seq<OfficeActivityEntry>) -> Seq<ActivityModel> {
    v.map_values(|e: OfficeActivityEntry| e@)
}

pub open spec fn status_models(t: Table<OwnerMessageStatus>) -> Map<Seq<char>, StatusModel> {
    t@.map_values(|s: OwnerMessageStatus| s@)
}

impl View for OfficeRuntimeSnapshot {
    type V = RuntimeModel;

    open spec fn view(&self) -> RuntimeModel {
        RuntimeModel {
            agents: self.agents@.map_values(|r: AgentRuntimeRecord| r@),
            activity: self.activity_by_agent@.map_values(
                |v: Vec<OfficeActivityEntry>| activity_models(v@),
            ),
            owner_messages: self.owner_message_status_by_agent@.map_values(
                |t: Table<OwnerMessageStatus>| status_models(t),
            ),
            next_sequence: self.next_activity_sequence,
        }
    }
}

impl View for OfficeRuntimeStore {
    type V = RuntimeModel;

    closed spec fn view(&self) -> RuntimeModel {
        self.snapshot@
    }
}

/// Nothing is known yet.
pub open spec fn empty_runtime() -> RuntimeModel {
    RuntimeModel {
        agents: Map::empty(),
        activity: Map::empty(),
        owner_messages: Map::empty(),
        next_sequence: 0,
    }
}

/// What an agent did, oldest first.
pub open spec fn activity_of(m: RuntimeModel, agent: Seq<char>) -> Seq<ActivityModel> {
    if m.activity.contains_key(agent) {
        m.activity[agent]
    } else {
        Seq::empty()
    }
}

pub open spec fn messages_of(m: RuntimeModel, agent: Seq<char>) -> Map<Seq<char>, StatusModel> {
    if m.owner_messages.contains_key(agent) {
        m.owner_messages[agent]
    } else {
        Map::empty()
    }
}

/// How a message of an owner stands; unknown ones are neither queued nor answered.
pub open spec fn status_of(m: RuntimeModel, agent: Seq<char>, id: Seq<char>) -> StatusModel {
    if messages_of(m, agent).contains_key(id) {
        messages_of(m, agent)[id]
    } else {
        StatusModel { queued: false, reply_ready: false, reply_content: None }
    }
}

pub open spec fn logged(s: Seq<ActivityModel>, kind: OfficeActivityKind, id: Seq<char>) -> bool {
    exists|i: int|
        0 <= i < s.len() && (#[trigger] s[i]).kind == kind && s[i].message_id == Some(id)
}

/// Whether a message of an owner is in the agent's queue.
pub open spec fn is_queued(m: RuntimeModel, agent: Seq<char>, id: Seq<char>) -> bool {
    status_of(m, agent, id).queued || logged(
        activity_of(m, agent),
        OfficeActivityKind::OwnerMessageQueued,
        id,
    )
}

/// Whether a message of an owner was answered.
pub open spec fn is_answered(m: RuntimeModel, agent: Seq<char>, id: Seq<char>) -> bool {
    status_of(m, agent, id).reply_ready || logged(
        activity_of(m, agent),
        OfficeActivityKind::OwnerReplyReady,
        id,
    )
}

/// Whether an entry says that a message was queued that is not answered.
pub open spec fn opens_message(m: RuntimeModel, agent: Seq<char>, e: ActivityModel) -> bool {
    e.kind == OfficeActivityKind::OwnerMessageQueued && (e.message_id matches Some(id)
        && !is_answered(m, agent, id))
}

/// The message of the last of the entries that says that one was queued that is
/// not answered.
pub open spec fn last_open(m: RuntimeModel, agent: Seq<char>, s: Seq<ActivityModel>) -> Option<
    Seq<char>,
>
    decreases s.len(),
{
    if s.len() == 0 {
        None
    } else if opens_message(m, agent, s.last()) {
        s.last().message_id
    } else {
        last_open(m, agent, s.drop_last())
    }
}

/// Whether the status alone says that a message is queued and not answered.
pub open spec fn open_by_status(m: RuntimeModel, agent: Seq<char>, id: Seq<char>) -> bool {
    messages_of(m, agent).contains_key(id) && messages_of(m, agent)[id].queued && !messages_of(
        m,
        agent,
    )[id].reply_ready
}

/// Whether a message of the owner waits for an answer.
pub open spec fn has_open_message(m: RuntimeModel, agent: Seq<char>) -> bool {
    last_open(m, agent, activity_of(m, agent)) is Some || exists|id: Seq<char>|
        open_by_status(m, agent, id)
}

pub open spec fn idle_record(agent: Seq<char>, owner: Seq<char>, now: Timestamp) -> RecordModel {
    RecordModel {
        agent_id: agent,
        owner_user_id: owner,
        thread_id: None,
        rollout_path: None,
        state: AgentRuntimeState::Idle,
        last_seen_at: now,
        waiting_reason: None,
    }
}

/// The record of an agent of this owner; an idle one where there is none.
pub open spec fn record_of(
    m: RuntimeModel,
    agent: Seq<char>,
    owner: Seq<char>,
    now: Timestamp,
) -> RecordModel {
    if m.agents.contains_key(agent) {
        RecordModel { owner_user_id: owner, ..m.agents[agent] }
    } else {
        idle_record(agent, owner, now)
    }
}

pub open spec fn with_record(m: RuntimeModel, agent: Seq<char>, r: RecordModel) -> RuntimeModel {
    RuntimeModel { agents: m.agents.insert(agent, r), ..m }
}

pub open spec fn with_status(
    m: RuntimeModel,
    agent: Seq<char>,
    id: Seq<char>,
    s: StatusModel,
) -> RuntimeModel {
    RuntimeModel {
        owner_messages: m.owner_messages.insert(agent, messages_of(m, agent).insert(id, s)),
        ..m
    }
}

/// What is put into the log, apart from its number, agent and time.
#[verifier::ext_equal]
pub struct EventModel {
    pub kind: OfficeActivityKind,
    pub source: Seq<char>,
    pub title: Seq<char>,
    pub summary: Seq<char>,
    pub detail: Option<Seq<char>>,
    pub message_id: Option<Seq<char>>,
    pub tool_name: Option<Seq<char>>,
}

/// The log after one more activity of an agent, under the next number.
pub open spec fn with_activity(
    m: RuntimeModel,
    agent: Seq<char>,
    e: EventModel,
    now: Timestamp,
) -> RuntimeModel {
    let sequence = next_number(m.next_sequence);
    let entry = ActivityModel {
        sequence,
        agent_id: agent,
        timestamp: now,
        kind: e.kind,
        source: e.source,
        title: e.title,
        summary: e.summary,
        detail: e.detail,
        message_id: e.message_id,
        tool_name: e.tool_name,
    };
    RuntimeModel {
        activity: m.activity.insert(
            agent,
            keep_last(activity_of(m, agent).push(entry), OFFICE_ACTIVITY_LIMIT_PER_AGENT as nat),
        ),
        next_sequence: sequence,
        ..m
    }
}

pub open spec fn queued_event(id: Seq<char>, content: Seq<char>) -> EventModel {
    EventModel {
        kind: OfficeActivityKind::OwnerMessageQueued,
        source: "owner_inbox"@,
        title: "收到主人请求"@,
        summary: "已将主人消息 `"@ + id + "` 排入 Agent inbox"@,
        detail: Some(content),
        message_id: Some(id),
        tool_name: None,
    }
}

pub open spec fn resumed_event(thread: ThreadId) -> EventModel {
    EventModel {
        kind: OfficeActivityKind::RuntimeThreadResumed,
        source: "runtime_bridge"@,
        title: "已恢复运行线程"@,
        summary: "运行时桥接已绑定线程 `"@ + thread_text(thread) + "`，正在把请求交给 Agent 处理"@,
        detail: None,
        message_id: None,
        tool_name: None,
    }
}

pub open spec fn reply_event(id: Seq<char>, content: Seq<char>) -> EventModel {
    EventModel {
        kind: OfficeActivityKind::OwnerReplyReady,
        source: "runtime_bridge"@,
        title: "Agent 已回复主人"@,
        summary: "Agent 已完成主人消息 `"@ + id + "` 的处理"@,
        detail: Some(content),
        message_id: Some(id),
        tool_name: None,
    }
}

/// The record and the store after a message of an owner was queued.
pub open spec fn queued(
    m: RuntimeModel,
    agent: Seq<char>,
    owner: Seq<char>,
    id: Seq<char>,
    content: Seq<char>,
    now: Timestamp,
) -> (RuntimeModel, RecordModel) {
    let noted = with_status(m, agent, id, StatusModel { queued: true, ..status_of(m, agent, id) });
    let was = record_of(m, agent, owner, now);
    let r = RecordModel {
        last_seen_at: now,
        state: if is_answered(m, agent, id) {
            was.state
        } else {
            AgentRuntimeState::Working
        },
        ..was
    };
    let kept = with_record(noted, agent, r);
    (
        if is_queued(m, agent, id) {
            kept
        } else {
            with_activity(kept, agent, queued_event(id, content), now)
        },
        r,
    )
}

/// The record and the store after an agent was bound to a thread.
pub open spec fn bound(
    m: RuntimeModel,
    agent: Seq<char>,
    owner: Seq<char>,
    thread: ThreadId,
    now: Timestamp,
) -> (RuntimeModel, RecordModel) {
    let r = RecordModel {
        thread_id: Some(thread),
        state: if has_open_message(m, agent) {
            AgentRuntimeState::Working
        } else {
            AgentRuntimeState::Idle
        },
        last_seen_at: now,
        waiting_reason: None,
        ..record_of(m, agent, owner, now)
    };
    (with_activity(with_record(m, agent, r), agent, resumed_event(thread), now), r)
}

pub open spec fn reply_logged(
    s: Seq<ActivityModel>,
    id: Seq<char>,
    content: Seq<char>,
) -> bool {
    exists|i: int|
        0 <= i < s.len() && (#[trigger] s[i]).kind == OfficeActivityKind::OwnerReplyReady
            && s[i].message_id == Some(id) && s[i].detail == Some(content)
}

/// The record and the store after a message of an owner was answered.
pub open spec fn answered(
    m: RuntimeModel,
    agent: Seq<char>,
    owner: Seq<char>,
    id: Seq<char>,
    content: Seq<char>,
    now: Timestamp,
) -> (RuntimeModel, RecordModel) {
    let noted = with_status(
        m,
        agent,
        id,
        StatusModel { queued: true, reply_ready: true, reply_content: Some(content) },
    );
    let r = RecordModel {
        state: AgentRuntimeState::Idle,
        last_seen_at: now,
        waiting_reason: None,
        ..record_of(m, agent, owner, now)
    };
    let kept = with_record(noted, agent, r);
    (
        if reply_logged(activity_of(m, agent), id, content) {
            kept
        } else {
            with_activity(kept, agent, reply_event(id, content), now)
        },
        r,
    )
}

/// The record of an agent after an event of this kind. An agent whose owner waits
/// for an answer works, or waits; the state of one whose owner does not is left.
pub open spec fn record_after(
    was: RecordModel,
    kind: OfficeActivityKind,
    summary: Seq<char>,
    open: bool,
    now: Timestamp,
) -> RecordModel {
    match kind {
        OfficeActivityKind::OwnerMessageQueued => RecordModel { last_seen_at: now, ..was },
        OfficeActivityKind::RuntimeThreadResumed => RecordModel { last_seen_at: now, ..was },
        OfficeActivityKind::OwnerReplyReady => RecordModel { last_seen_at: now, ..was },
        OfficeActivityKind::RuntimeWait => if open {
            RecordModel {
                state: AgentRuntimeState::Waiting,
                waiting_reason: Some(summary),
                last_seen_at: now,
                ..was
            }
        } else {
            RecordModel { waiting_reason: None, last_seen_at: now, ..was }
        },
        _ => RecordModel {
            state: if open {
                AgentRuntimeState::Working
            } else {
                was.state
            },
            waiting_reason: None,
            last_seen_at: now,
            ..was
        },
    }
}

/// The record and the store after an event.
pub open spec fn recorded(
    m: RuntimeModel,
    agent: Seq<char>,
    owner: Seq<char>,
    e: EventModel,
    now: Timestamp,
) -> (RuntimeModel, RecordModel) {
    let r = record_after(
        record_of(m, agent, owner, now),
        e.kind,
        e.summary,
        has_open_message(m, agent),
        now,
    );
    (with_activity(with_record(m, agent, r), agent, e, now), r)
}

// ---------------------------------------------------------------------------
// Operations
// ---------------------------------------------------------------------------

/// A record after its agent was bound to a thread.
pub open spec fn bound_to(was: RecordModel, thread: ThreadId, now: Timestamp) -> RecordModel {
    RecordModel {
        thread_id: Some(thread),
        state: AgentRuntimeState::Working,
        last_seen_at: now,
        waiting_reason: None,
        ..was
    }
}

/// A record after a message was queued for its agent.
pub open spec fn given_work(was: RecordModel, answered: bool, now: Timestamp) -> RecordModel {
    RecordModel {
        last_seen_at: now,
        state: if answered {
            was.state
        } else {
            AgentRuntimeState::Working
        },
        ..was
    }
}

/// Whether this is the open message of an agent that was queued last.
pub open spec fn is_latest_open(r: Option<String>, m: RuntimeModel, agent: Seq<char>) -> bool {
    match last_open(m, agent, activity_of(m, agent)) {
        Some(id) => opt_text(r) == Some(id),
        None => match r {
            Some(id) => open_by_status(m, agent, id@),
            None => forall|id: Seq<char>| !open_by_status(m, agent, id),
        },
    }
}

impl AgentRuntimeRecord {
    pub fn idle(agent_id: &str, owner_user_id: &str, now: Timestamp) -> (r: AgentRuntimeRecord)
        ensures
            r@ == idle_record(agent_id@, owner_user_id@, now),
    {
        AgentRuntimeRecord {
            agent_id: agent_id.to_string(),
            owner_user_id: owner_user_id.to_string(),
            thread_id: None,
            rollout_path: None,
            state: AgentRuntimeState::Idle,
            last_seen_at: now,
            waiting_reason: None,
        }
    }

    pub fn mark_thread_bound(&mut self, thread_id: ThreadId, now: Timestamp)
        ensures
            final(self)@ == bound_to(old(self)@, thread_id, now),
    {
        self.thread_id = Some(thread_id);
        self.state = AgentRuntimeState::Working;
        self.last_seen_at = now;
        self.waiting_reason = None;
    }

    pub fn mark_message_queued(&mut self, answered: bool, now: Timestamp)
        ensures
            final(self)@ == given_work(old(self)@, answered, now),
    {
        self.last_seen_at = now;
        if !answered {
            self.state = AgentRuntimeState::Working;
        }
    }

    pub fn copy(&self) -> (r: AgentRuntimeRecord)
        ensures
            r == *self,
    {
        AgentRuntimeRecord {
            agent_id: self.agent_id.clone(),
            owner_user_id: self.owner_user_id.clone(),
            thread_id: self.thread_id,
            rollout_path: copy_opt(&self.rollout_path),
            state: self.state,
            last_seen_at: self.last_seen_at,
            waiting_reason: copy_opt(&self.waiting_reason),
        }
    }
}

impl OfficeActivityEntry {
    pub fn copy(&self) -> (r: OfficeActivityEntry)
        ensures
            r == *self,
    {
        OfficeActivityEntry {
            sequence: self.sequence,
            agent_id: self.agent_id.clone(),
            timestamp: self.timestamp,
            kind: self.kind,
            source: self.source.clone(),
            title: self.title.clone(),
            summary: self.summary.clone(),
            detail: copy_opt(&self.detail),
            message_id: copy_opt(&self.message_id),
            tool_name: copy_opt(&self.tool_name),
        }
    }
}

/// Whether the text is there and is `value`.
fn is_text(s: &Option<String>, value: &str) -> (r: bool)
    ensures
        r == (opt_text(*s) == Some(value@)),
{
    match s {
        Some(t) => same_text(t.as_str(), value),
        None => false,
    }
}

/// What is put into the log, apart from its number, agent and time.
#[derive(Debug)]
pub struct ActivityDraft {
    pub kind: OfficeActivityKind,
    pub source: String,
    pub title: String,
    pub summary: String,
    pub detail: Option<String>,
    pub message_id: Option<String>,
    pub tool_name: Option<String>,
}

impl View for ActivityDraft {
    type V = EventModel;

    open spec fn view(&self) -> EventModel {
        EventModel {
            kind: self.kind,
            source: self.source@,
            title: self.title@,
            summary: self.summary@,
            detail: opt_text(self.detail),
            message_id: opt_text(self.message_id),
            tool_name: opt_text(self.tool_name),
        }
    }
}

impl Default for OfficeRuntimeSnapshot {
    fn default() -> (r: OfficeRuntimeSnapshot)
        ensures
            r@ == empty_runtime(),
    {
        OfficeRuntimeSnapshot::empty()
    }
}

impl OfficeRuntimeSnapshot {
    /// Nothing is known yet.
    pub fn empty() -> (r: OfficeRuntimeSnapshot)
        ensures
            r@ == empty_runtime(),
    {
        let r = OfficeRuntimeSnapshot {
            agents: Table::new(),
            activity_by_agent: Table::new(),
            owner_message_status_by_agent: Table::new(),
            next_activity_sequence: 0,
        };
        assert(r@ =~= empty_runtime());
        r
    }
}

impl OfficeRuntimeStore {
    pub closed spec fn place(&self) -> Seq<char> {
        self.path@
    }

    /// The store at `path` with this content.
    pub fn from_snapshot(path: String, snapshot: OfficeRuntimeSnapshot) -> (r: OfficeRuntimeStore)
        ensures
            r@ == snapshot@,
            r.place() == path@,
    {
        OfficeRuntimeStore { path, snapshot }
    }

    pub fn path(&self) -> (r: &str)
        ensures
            r@ == self.place(),
    {
        self.path.as_str()
    }

    /// Replaces the content by what was read anew.
    pub fn reload(&mut self, snapshot: OfficeRuntimeSnapshot)
        ensures
            final(self)@ == snapshot@,
            final(self).place() == old(self).place(),
    {
        self.snapshot = snapshot;
    }

    pub fn snapshot(&self) -> (r: &OfficeRuntimeSnapshot)
        ensures
            r@ == self@,
    {
        &self.snapshot
    }

    pub fn get(&self, agent_id: &str) -> (r: Option<&AgentRuntimeRecord>)
        ensures
            match r {
                Some(record) => self@.agents.contains_key(agent_id@) && record@
                    == self@.agents[agent_id@],
                None => !self@.agents.contains_key(agent_id@),
            },
    {
        self.snapshot.agents.get(agent_id)
    }

    /// What an agent did, oldest first.
    pub fn activity_for_agent(&self, agent_id: &str) -> (r: Vec<OfficeActivityEntry>)
        ensures
            activity_models(r@) == activity_of(self@, agent_id@),
    {
        match self.snapshot.activity_by_agent.get(agent_id) {
            Some(entries) => {
                let mut out: Vec<OfficeActivityEntry> = Vec::new();
                let mut i: usize = 0;
                while i < entries.len()
                    invariant
                        i <= entries@.len(),
                        out@ == entries@.take(i as int),
                    decreases entries@.len() - i,
                {
                    out.push(entries[i].copy());
                    i = i + 1;
                    assert(entries@.take(i as int) =~= entries@.take(i - 1).push(entries@[i - 1]));
                }
                assert(entries@.take(i as int) =~= entries@);
                out
            },
            None => {
                let out: Vec<OfficeActivityEntry> = Vec::new();
                assert(activity_models(out@) =~= Seq::<ActivityModel>::empty());
                out
            },
        }
    }

    fn log_has(&self, agent_id: &str, kind: OfficeActivityKind, message_id: &str) -> (r: bool)
        ensures
            r == logged(activity_of(self@, agent_id@), kind, message_id@),
    {
        match self.snapshot.activity_by_agent.get(agent_id) {
            Some(entries) => {
                let ghost s = activity_models(entries@);
                let mut i: usize = 0;
                while i < entries.len()
                    invariant
                        i <= entries@.len(),
                        s == activity_models(entries@),
                        s == activity_of(self@, agent_id@),
                        forall|j: int|
                            0 <= j < i ==> !((#[trigger] s[j]).kind == kind && s[j].message_id
                                == Some(message_id@)),
                    decreases entries@.len() - i,
                {
                    assert(s[i as int] == entries@[i as int]@);
                    if entries[i].kind == kind && is_text(&entries[i].message_id, message_id) {
                        return true;
                    }
                    i = i + 1;
                }
                false
            },
            None => false,
        }
    }

    fn status(&self, agent_id: &str, message_id: &str) -> (r: OwnerMessageStatus)
        ensures
            r@ == status_of(self@, agent_id@, message_id@),
    {
        let found = match self.snapshot.owner_message_status_by_agent.get(agent_id) {
            Some(messages) => messages.get(message_id),
            None => None,
        };
        match found {
            Some(s) => OwnerMessageStatus {
                queued: s.queued,
                reply_ready: s.reply_ready,
                reply_content: copy_opt(&s.reply_content),
            },
            None => OwnerMessageStatus { queued: false, reply_ready: false, reply_content: None },
        }
    }

    /// Whether a message of the owner is in the agent's queue.
    pub fn has_owner_message_queued(&self, agent_id: &str, message_id: &str) -> (r: bool)
        ensures
            r == is_queued(self@, agent_id@, message_id@),
    {
        self.status(agent_id, message_id).queued || self.log_has(
            agent_id,
            OfficeActivityKind::OwnerMessageQueued,
            message_id,
        )
    }

    /// Whether a message of the owner was answered.
    pub fn has_owner_reply_ready(&self, agent_id: &str, message_id: &str) -> (r: bool)
        ensures
            r == is_answered(self@, agent_id@, message_id@),
    {
        self.status(agent_id, message_id).reply_ready || self.log_has(
            agent_id,
            OfficeActivityKind::OwnerReplyReady,
            message_id,
        )
    }

    /// The message of the owner that was queued last and is not answered. Where
    /// the log names none, any whose status says so.
    pub fn latest_unanswered_owner_message_id(&self, agent_id: &str) -> (r: Option<String>)
        ensures
            is_latest_open(r, self@, agent_id@),
            r is Some == has_open_message(self@, agent_id@),
    {
        let entries = self.activity_for_agent(agent_id);
        let ghost s = activity_of(self@, agent_id@);
        let mut i: usize = entries.len();
        assert(s.take(i as int) =~= s);
        while i > 0
            invariant
                i <= entries@.len(),
                s == activity_models(entries@),
                s == activity_of(self@, agent_id@),
                last_open(self@, agent_id@, s) == last_open(self@, agent_id@, s.take(i as int)),
            decreases i,
        {
            let entry = &entries[i - 1];
            proof {
                assert(s.take(i as int).last() == entries@[i - 1]@);
                assert(s.take(i as int).drop_last() =~= s.take(i - 1));
            }
            if entry.kind == OfficeActivityKind::OwnerMessageQueued {
                if let Some(id) = &entry.message_id {
                    if !self.has_owner_reply_ready(agent_id, id.as_str()) {
                        return Some(id.clone());
                    }
                }
            }
            i = i - 1;
        }
        assert(last_open(self@, agent_id@, s) is None);
        match self.snapshot.owner_message_status_by_agent.get(agent_id) {
            Some(messages) => {
                let n: usize = messages.len();
                let ghost ids = messages.keys();
                let mut k: usize = 0;
                while k < n
                    invariant
                        ids == messages.keys(),
                        n == ids.len(),
                        k <= n,
                        self@.owner_messages.contains_key(agent_id@),
                        self@.owner_messages[agent_id@] == status_models(*messages),
                        last_open(self@, agent_id@, activity_of(self@, agent_id@)) is None,
                        forall|x: Seq<char>| messages@.contains_key(x) <==> #[trigger] ids.contains(
                            x,
                        ),
                        forall|j: int|
                            0 <= j < k ==> !open_by_status(self@, agent_id@, #[trigger] ids[j]),
                    decreases n - k,
                {
                    let status = messages.value(k);
                    assert(messages_of(self@, agent_id@)[ids[k as int]] == status@);
                    if status.queued && !status.reply_ready {
                        assert(open_by_status(self@, agent_id@, ids[k as int]));
                        return Some(messages.key(k).clone());
                    }
                    k = k + 1;
                }
                proof {
                    assert forall|id: Seq<char>| !open_by_status(self@, agent_id@, id) by {
                        if messages@.contains_key(id) {
                            assert(ids.contains(id));
                            let j = choose|j: int| 0 <= j < ids.len() && ids[j] == id;
                            assert(!open_by_status(self@, agent_id@, ids[j]));
                        }
                    }
                }
                None
            },
            None => None,
        }
    }

    /// The record of an agent of this owner; an idle one where there is none.
    pub fn ensure_agent(&mut self, agent_id: &str, owner_user_id: &str, now: Timestamp) -> (r:
        AgentRuntimeRecord)
        ensures
            r@ == record_of(old(self)@, agent_id@, owner_user_id@, now),
            final(self)@ == with_record(old(self)@, agent_id@, r@),
            final(self).place() == old(self).place(),
    {
        let mut record = match self.get(agent_id) {
            Some(r) => r.copy(),
            None => AgentRuntimeRecord::idle(agent_id, owner_user_id, now),
        };
        record.owner_user_id = owner_user_id.to_string();
        let r = record.copy();
        self.put_record(agent_id, record);
        r
    }

    fn put_record(&mut self, agent_id: &str, record: AgentRuntimeRecord)
        ensures
            final(self)@ == with_record(old(self)@, agent_id@, record@),
            final(self).place() == old(self).place(),
    {
        let ghost before = self@;
        self.snapshot.agents.insert(agent_id.to_string(), record);
        assert(self@ =~= with_record(before, agent_id@, record@));
    }

    fn put_status(&mut self, agent_id: &str, message_id: &str, status: OwnerMessageStatus)
        ensures
            final(self)@ == with_status(old(self)@, agent_id@, message_id@, status@),
            final(self).place() == old(self).place(),
    {
        let ghost before = self@;
        let mut messages = match self.snapshot.owner_message_status_by_agent.remove(agent_id) {
            Some(m) => m,
            None => Table::new(),
        };
        assert(status_models(messages) =~= messages_of(before, agent_id@));
        messages.insert(message_id.to_string(), status);
        assert(status_models(messages) =~= messages_of(before, agent_id@).insert(
            message_id@,
            status@,
        ));
        self.snapshot.owner_message_status_by_agent.insert(agent_id.to_string(), messages);
        assert(self@.owner_messages =~= with_status(
            before,
            agent_id@,
            message_id@,
            status@,
        ).owner_messages);
    }

    /// Puts an activity into the log of an agent, under the next number.
    pub fn append_activity(&mut self, agent_id: &str, draft: ActivityDraft, now: Timestamp)
        ensures
            final(self)@ == with_activity(old(self)@, agent_id@, draft@, now),
            final(self).place() == old(self).place(),
    {
        let ghost before = self@;
        let ghost event = draft@;
        let sequence: u64 = self.snapshot.next_activity_sequence.saturating_add(1);
        self.snapshot.next_activity_sequence = sequence;
        let mut entries = match self.snapshot.activity_by_agent.remove(agent_id) {
            Some(v) => v,
            None => Vec::new(),
        };
        let ghost held = activity_of(before, agent_id@);
        assert(activity_models(entries@) =~= held);
        let ActivityDraft { kind, source, title, summary, detail, message_id, tool_name } = draft;
        let entry = OfficeActivityEntry {
            sequence,
            agent_id: agent_id.to_string(),
            timestamp: now,
            kind,
            source,
            title,
            summary,
            detail,
            message_id,
            tool_name,
        };
        entries.push(entry);
        let ghost all = held.push(entry@);
        assert(activity_models(entries@) =~= all);
        let ghost mut gone: int = 0;
        assert(all.skip(0) =~= all);
        while entries.len() > OFFICE_ACTIVITY_LIMIT_PER_AGENT
            invariant
                0 <= gone <= all.len(),
                activity_models(entries@) == all.skip(gone),
                gone > 0 ==> all.len() - gone >= OFFICE_ACTIVITY_LIMIT_PER_AGENT,
            decreases entries@.len(),
        {
            let ghost was = entries@;
            entries.remove(0);
            proof {
                assert(activity_models(entries@) =~= activity_models(was).skip(1));
                assert(activity_models(was).len() == was.len());
                gone = gone + 1;
                assert(activity_models(entries@) =~= all.skip(gone));
            }
        }
        proof {
            assert(activity_models(entries@).len() == entries@.len());
            assert(activity_models(entries@) =~= keep_last(
                all,
                OFFICE_ACTIVITY_LIMIT_PER_AGENT as nat,
            ));
        }
        self.snapshot.activity_by_agent.insert(agent_id.to_string(), entries);
        assert(self@.activity =~= with_activity(before, agent_id@, event, now).activity);
        assert(self@ =~= with_activity(before, agent_id@, event, now));
    }

    /// Notes that a message of the owner was queued for an agent.
    pub fn mark_owner_message_queued(
        &mut self,
        agent_id: &str,
        owner_user_id: &str,
        message_id: &str,
        content: &str,
        now: Timestamp,
    ) -> (r: AgentRuntimeRecord)
        ensures
            (final(self)@, r@) == queued(
                old(self)@,
                agent_id@,
                owner_user_id@,
                message_id@,
                content@,
                now,
            ),
            final(self).place() == old(self).place(),
    {
        let ghost before = self@;
        let is_answered_already = self.has_owner_reply_ready(agent_id, message_id);
        let already_queued = self.has_owner_message_queued(agent_id, message_id);
        let mut status = self.status(agent_id, message_id);
        status.queued = true;
        self.put_status(agent_id, message_id, status);
        let mut record = self.ensure_agent(agent_id, owner_user_id, now);
        record.mark_message_queued(is_answered_already, now);
        let r = record.copy();
        self.put_record(agent_id, record);
        assert(self@.agents =~= queued(
            before,
            agent_id@,
            owner_user_id@,
            message_id@,
            content@,
            now,
        ).0.agents);
        if !already_queued {
            let mut summary = "已将主人消息 `".to_string();
            summary.append(message_id);
            summary.append("` 排入 Agent inbox");
            let draft = ActivityDraft {
                kind: OfficeActivityKind::OwnerMessageQueued,
                source: "owner_inbox".to_string(),
                title: "收到主人请求".to_string(),
                summary,
                detail: Some(content.to_string()),
                message_id: Some(message_id.to_string()),
                tool_name: None,
            };
            assert(draft@ =~= queued_event(message_id@, content@));
            self.append_activity(agent_id, draft, now);
        }
        r
    }

    /// Notes that an agent was bound to a thread.
    pub fn bind_thread(
        &mut self,
        agent_id: &str,
        owner_user_id: &str,
        thread_id: ThreadId,
        now: Timestamp,
    ) -> (r: AgentRuntimeRecord)
        ensures
            (final(self)@, r@) == bound(old(self)@, agent_id@, owner_user_id@, thread_id, now),
            final(self).place() == old(self).place(),
    {
        let ghost before = self@;
        let open = self.latest_unanswered_owner_message_id(agent_id).is_some();
        let mut record = self.ensure_agent(agent_id, owner_user_id, now);
        record.mark_thread_bound(thread_id, now);
        if !open {
            record.state = AgentRuntimeState::Idle;
        }
        let r = record.copy();
        self.put_record(agent_id, record);
        assert(self@ =~= with_record(before, agent_id@, r@));
        let mut summary = "运行时桥接已绑定线程 `".to_string();
        summary.append(thread_id.to_text().as_str());
        summary.append("`，正在把请求交给 Agent 处理");
        let draft = ActivityDraft {
            kind: OfficeActivityKind::RuntimeThreadResumed,
            source: "runtime_bridge".to_string(),
            title: "已恢复运行线程".to_string(),
            summary,
            detail: None,
            message_id: None,
            tool_name: None,
        };
        assert(draft@ =~= resumed_event(thread_id));
        self.append_activity(agent_id, draft, now);
        r
    }

    fn log_has_reply(&self, agent_id: &str, message_id: &str, content: &str) -> (r: bool)
        ensures
            r == reply_logged(activity_of(self@, agent_id@), message_id@, content@),
    {
        match self.snapshot.activity_by_agent.get(agent_id) {
            Some(entries) => {
                let ghost s = activity_models(entries@);
                let mut i: usize = 0;
                while i < entries.len()
                    invariant
                        i <= entries@.len(),
                        s == activity_models(entries@),
                        s == activity_of(self@, agent_id@),
                        forall|j: int|
                            0 <= j < i ==> !((#[trigger] s[j]).kind
                                == OfficeActivityKind::OwnerReplyReady && s[j].message_id == Some(
                                message_id@,
                            ) && s[j].detail == Some(content@)),
                    decreases entries@.len() - i,
                {
                    assert(s[i as int] == entries@[i as int]@);
                    if entries[i].kind == OfficeActivityKind::OwnerReplyReady && is_text(
                        &entries[i].message_id,
                        message_id,
                    ) && is_text(&entries[i].detail, content) {
                        return true;
                    }
                    i = i + 1;
                }
                false
            },
            None => false,
        }
    }

    /// Notes that a message of the owner was answered.
    pub fn mark_owner_reply_ready(
        &mut self,
        agent_id: &str,
        owner_user_id: &str,
        message_id: &str,
        content: &str,
        now: Timestamp,
    ) -> (r: AgentRuntimeRecord)
        ensures
            (final(self)@, r@) == answered(
                old(self)@,
                agent_id@,
                owner_user_id@,
                message_id@,
                content@,
                now,
            ),
            final(self).place() == old(self).place(),
    {
        let ghost before = self@;
        let already_recorded = self.log_has_reply(agent_id, message_id, content);
        let status = OwnerMessageStatus {
            queued: true,
            reply_ready: true,
            reply_content: Some(content.to_string()),
        };
        self.put_status(agent_id, message_id, status);
        let mut record = self.ensure_agent(agent_id, owner_user_id, now);
        record.state = AgentRuntimeState::Idle;
        record.last_seen_at = now;
        record.waiting_reason = None;
        let r = record.copy();
        self.put_record(agent_id, record);
        assert(self@.agents =~= answered(
            before,
            agent_id@,
            owner_user_id@,
            message_id@,
            content@,
            now,
        ).0.agents);
        if !already_recorded {
            let mut summary = "Agent 已完成主人消息 `".to_string();
            summary.append(message_id);
            summary.append("` 的处理");
            let draft = ActivityDraft {
                kind: OfficeActivityKind::OwnerReplyReady,
                source: "runtime_bridge".to_string(),
                title: "Agent 已回复主人".to_string(),
                summary,
                detail: Some(content.to_string()),
                message_id: Some(message_id.to_string()),
                tool_name: None,
            };
            assert(draft@ =~= reply_event(message_id@, content@));
            self.append_activity(agent_id, draft, now);
        }
        r
    }

    /// Notes an event of an agent's thread.
    pub fn record_runtime_event(
        &mut self,
        agent_id: &str,
        owner_user_id: &str,
        draft: ActivityDraft,
        now: Timestamp,
    ) -> (r: AgentRuntimeRecord)
        ensures
            (final(self)@, r@) == recorded(old(self)@, agent_id@, owner_user_id@, draft@, now),
            final(self).place() == old(self).place(),
    {
        let ghost before = self@;
        let open = self.latest_unanswered_owner_message_id(agent_id).is_some();
        let mut record = self.ensure_agent(agent_id, owner_user_id, now);
        match draft.kind {
            OfficeActivityKind::OwnerMessageQueued => {},
            OfficeActivityKind::RuntimeThreadResumed => {},
            OfficeActivityKind::OwnerReplyReady => {},
            OfficeActivityKind::RuntimeWait => {
                if open {
                    record.state = AgentRuntimeState::Waiting;
                    record.waiting_reason = Some(draft.summary.clone());
                } else {
                    record.waiting_reason = None;
                }
            },
            _ => {
                if open {
                    record.state = AgentRuntimeState::Working;
                }
                record.waiting_reason = None;
            },
        }
        record.last_seen_at = now;
        let r = record.copy();
        self.put_record(agent_id, record);
        assert(self@ =~= with_record(before, agent_id@, r@));
        self.append_activity(agent_id, draft, now);
        r
    }
}

// ---------------------------------------------------------------------------
// Laws
// ---------------------------------------------------------------------------

/// The log of an agent never holds more than its bound.
pub proof fn law_activity_is_bounded(
    m: RuntimeModel,
    agent: Seq<char>,
    e: EventModel,
    now: Timestamp,
)
    ensures
        activity_of(with_activity(m, agent, e, now), agent).len()
            <= OFFICE_ACTIVITY_LIMIT_PER_AGENT,
{
}

/// The log of each agent is in the order of its numbers, below the store's next
/// one.
pub open spec fn log_is_ordered(m: RuntimeModel) -> bool {
    forall|agent: Seq<char>, i: int, j: int|
        0 <= i < j < activity_of(m, agent).len() ==> (#[trigger] activity_of(
            m,
            agent,
        )[i]).sequence < (#[trigger] activity_of(m, agent)[j]).sequence
}

pub open spec fn log_is_below(m: RuntimeModel) -> bool {
    forall|agent: Seq<char>, i: int|
        0 <= i < activity_of(m, agent).len() ==> (#[trigger] activity_of(m, agent)[i]).sequence
            <= m.next_sequence
}

/// Numbers grow: what is logged later has a higher number, as long as the
/// numbers last.
pub proof fn law_activity_numbers_grow(
    m: RuntimeModel,
    agent: Seq<char>,
    e: EventModel,
    now: Timestamp,
)
    requires
        log_is_ordered(m),
        log_is_below(m),
        m.next_sequence < u64::MAX,
    ensures
        log_is_ordered(with_activity(m, agent, e, now)),
        log_is_below(with_activity(m, agent, e, now)),
        with_activity(m, agent, e, now).next_sequence > m.next_sequence,
{
    let n = with_activity(m, agent, e, now);
    let held = activity_of(m, agent);
    let off = if held.len() + 1 > OFFICE_ACTIVITY_LIMIT_PER_AGENT {
        held.len() + 1 - OFFICE_ACTIVITY_LIMIT_PER_AGENT
    } else {
        0
    };
    assert forall|a: Seq<char>, i: int| 0 <= i < activity_of(n, a).len() implies (
    #[trigger] activity_of(n, a)[i]).sequence <= n.next_sequence by {
        if a == agent {
            if i + off < held.len() {
                assert(activity_of(n, a)[i] == held[i + off]);
                assert(activity_of(m, agent)[i + off].sequence <= m.next_sequence);
            }
        } else {
            assert(activity_of(n, a) == activity_of(m, a));
        }
    }
    assert forall|a: Seq<char>, i: int, j: int| 0 <= i < j < activity_of(n, a).len() implies (
    #[trigger] activity_of(n, a)[i]).sequence < (#[trigger] activity_of(n, a)[j]).sequence by {
        if a == agent {
            assert(activity_of(n, a)[i] == held[i + off]);
            assert(activity_of(m, agent)[i + off].sequence <= m.next_sequence);
            if j + off < held.len() {
                assert(activity_of(n, a)[j] == held[j + off]);
                assert(activity_of(m, agent)[i + off].sequence < activity_of(
                    m,
                    agent,
                )[j + off].sequence);
            }
        } else {
            assert(activity_of(n, a) == activity_of(m, a));
        }
    }
}

/// An answer closes a message for good: it counts as answered and queued, and
/// its status no longer calls for an answer.
pub proof fn law_answer_closes_message(
    m: RuntimeModel,
    agent: Seq<char>,
    owner: Seq<char>,
    id: Seq<char>,
    content: Seq<char>,
    now: Timestamp,
)
    ensures
        ({
            let (n, r) = answered(m, agent, owner, id, content, now);
            &&& is_answered(n, agent, id)
            &&& is_queued(n, agent, id)
            &&& !open_by_status(n, agent, id)
            &&& r.state == AgentRuntimeState::Idle
        }),
{
}

/// Queueing a message that is queued already adds nothing to the log.
pub proof fn law_queueing_is_logged_once(
    m: RuntimeModel,
    agent: Seq<char>,
    owner: Seq<char>,
    id: Seq<char>,
    content: Seq<char>,
    now: Timestamp,
    later: Timestamp,
)
    ensures
        ({
            let (n, _) = queued(m, agent, owner, id, content, now);
            let (o, _) = queued(n, agent, owner, id, content, later);
            &&& is_queued(n, agent, id)
            &&& activity_of(o, agent) == activity_of(n, agent)
            &&& o.next_sequence == n.next_sequence
        }),
{
}

/// An agent whose owner waits for no answer is not made busy by what its thread
/// does.
pub proof fn law_events_do_not_wake_idle_agents(
    m: RuntimeModel,
    agent: Seq<char>,
    owner: Seq<char>,
    e: EventModel,
    now: Timestamp,
)
    requires
        !has_open_message(m, agent),
    ensures
        recorded(m, agent, owner, e, now).1.state == record_of(m, agent, owner, now).state,
{
}

/// What is logged of an agent is the last of its log, with the next number, the time
/// and all that the event says. Of a full log the oldest entry leaves, and no other.
/// Nothing else changes.
pub proof fn law_entries_are_logged_last(
    m: RuntimeModel,
    agent: Seq<char>,
    e: EventModel,
    now: Timestamp,
    other: Seq<char>,
)
    requires
        activity_of(m, agent).len() <= 50,
    ensures
        ({
            let n = with_activity(m, agent, e, now);
            let held = activity_of(m, agent);
            let log = activity_of(n, agent);
            &&& log.len() > 0
            &&& log.last().agent_id == agent
            &&& log.last().timestamp == now
            &&& log.last().kind == e.kind
            &&& log.last().source == e.source
            &&& log.last().title == e.title
            &&& log.last().summary == e.summary
            &&& log.last().detail == e.detail
            &&& log.last().message_id == e.message_id
            &&& log.last().tool_name == e.tool_name
            &&& m.next_sequence < u64::MAX ==> log.last().sequence == m.next_sequence + 1
            &&& held.len() < 50 ==> log.drop_last() == held
            &&& held.len() == 50 ==> log.drop_last() == held.skip(1)
            &&& other != agent ==> activity_of(n, other) == activity_of(m, other)
            &&& n.agents == m.agents
            &&& n.owner_messages == m.owner_messages
        }),
{
    let n = with_activity(m, agent, e, now);
    let held = activity_of(m, agent);
    let log = activity_of(n, agent);
    if held.len() < 50 {
        assert(log.drop_last() =~= held);
    } else {
        assert(log.drop_last() =~= held.skip(1));
    }
}

/// A message that is queued is in the queue from then on and is logged with its text,
/// unless it was in the queue already. Its agent works, unless it was answered. Other
/// agents and messages stay as they are.
pub proof fn law_queued_messages_are_noted(
    m: RuntimeModel,
    agent: Seq<char>,
    owner: Seq<char>,
    id: Seq<char>,
    content: Seq<char>,
    now: Timestamp,
    other: Seq<char>,
)
    ensures
        ({
            let (n, r) = queued(m, agent, owner, id, content, now);
            &&& n.agents.contains_key(agent) && n.agents[agent] == r
            &&& r.agent_id == (if m.agents.contains_key(agent) {
                m.agents[agent].agent_id
            } else {
                agent
            })
            &&& r.owner_user_id == owner
            &&& r.last_seen_at == now
            &&& r.thread_id == (if m.agents.contains_key(agent) {
                m.agents[agent].thread_id
            } else {
                None
            })
            &&& !is_answered(m, agent, id) ==> r.state == AgentRuntimeState::Working
            &&& is_answered(m, agent, id) && m.agents.contains_key(agent) ==> r.state
                == m.agents[agent].state
            &&& is_queued(n, agent, id)
            &&& status_of(n, agent, id).reply_ready == status_of(m, agent, id).reply_ready
            &&& !is_queued(m, agent, id) ==> {
                let e = activity_of(n, agent).last();
                &&& activity_of(n, agent).len() > 0
                &&& e.kind == OfficeActivityKind::OwnerMessageQueued
                &&& e.message_id == Some(id)
                &&& e.detail == Some(content)
            }
            &&& is_queued(m, agent, id) ==> n.activity == m.activity
            &&& other != id ==> status_of(n, agent, other) == status_of(m, agent, other)
            &&& other != agent ==> messages_of(n, other) == messages_of(m, other) && activity_of(
                n,
                other,
            ) == activity_of(m, other) && (m.agents.contains_key(other) ==> n.agents[other]
                == m.agents[other])
        }),
{
}

/// An agent that is bound to a thread has that thread, waits for nothing, and works
/// just where its owner waits for an answer. That is logged; no message changes.
pub proof fn law_bound_agents_have_their_thread(
    m: RuntimeModel,
    agent: Seq<char>,
    owner: Seq<char>,
    thread: ThreadId,
    now: Timestamp,
    other: Seq<char>,
)
    ensures
        ({
            let (n, r) = bound(m, agent, owner, thread, now);
            let e = activity_of(n, agent).last();
            &&& n.agents.contains_key(agent) && n.agents[agent] == r
            &&& r.thread_id == Some(thread)
            &&& r.owner_user_id == owner
            &&& r.last_seen_at == now
            &&& r.waiting_reason is None
            &&& r.state == AgentRuntimeState::Working <==> has_open_message(m, agent)
            &&& r.state == AgentRuntimeState::Idle <==> !has_open_message(m, agent)
            &&& m.agents.contains_key(agent) ==> r.rollout_path == m.agents[agent].rollout_path
            &&& n.owner_messages == m.owner_messages
            &&& activity_of(n, agent).len() > 0
            &&& e.kind == OfficeActivityKind::RuntimeThreadResumed
            &&& e.message_id is None
            &&& other != agent ==> activity_of(n, other) == activity_of(m, other)
        }),
{
}

/// An answer is kept with its message and logged, though not twice. Its agent is idle
/// and waits for nothing; other messages stay as they are.
pub proof fn law_answers_are_kept(
    m: RuntimeModel,
    agent: Seq<char>,
    owner: Seq<char>,
    id: Seq<char>,
    content: Seq<char>,
    now: Timestamp,
    later: Timestamp,
    other: Seq<char>,
)
    ensures
        ({
            let (n, r) = answered(m, agent, owner, id, content, now);
            let (o, _) = answered(n, agent, owner, id, content, later);
            &&& n.agents.contains_key(agent) && n.agents[agent] == r
            &&& status_of(n, agent, id).reply_content == Some(content)
            &&& status_of(n, agent, id).reply_ready
            &&& r.state == AgentRuntimeState::Idle
            &&& r.waiting_reason is None
            &&& r.last_seen_at == now
            &&& r.owner_user_id == owner
            &&& m.agents.contains_key(agent) ==> r.thread_id == m.agents[agent].thread_id
            &&& reply_logged(activity_of(n, agent), id, content)
            &&& o.activity == n.activity
            &&& other != id ==> status_of(n, agent, other) == status_of(m, agent, other)
            &&& other != agent ==> messages_of(n, other) == messages_of(m, other) && activity_of(
                n,
                other,
            ) == activity_of(m, other)
        }),
{
    let (n, r) = answered(m, agent, owner, id, content, now);
    if !reply_logged(activity_of(m, agent), id, content) {
        let log = activity_of(n, agent);
        let e = log[log.len() - 1];
        assert(e.kind == OfficeActivityKind::OwnerReplyReady);
    }
}

/// Whether an event says that its agent goes on by itself: all but those that the
/// store logs for an owner, and but waits.
pub open spec fn is_work(kind: OfficeActivityKind) -> bool {
    ||| kind == OfficeActivityKind::RuntimeTurnStarted
    ||| kind == OfficeActivityKind::RuntimeReasoning
    ||| kind == OfficeActivityKind::RuntimePlan
    ||| kind == OfficeActivityKind::RuntimeAgentMessage
    ||| kind == OfficeActivityKind::RuntimeToolStarted
    ||| kind == OfficeActivityKind::RuntimeToolFinished
    ||| kind == OfficeActivityKind::RuntimeCollab
    ||| kind == OfficeActivityKind::RuntimeError
}

/// An agent that its owner waits for works while its thread goes on, and waits, for
/// what the event says, while its thread waits. Every event is logged as it is, and
/// changes neither thread nor messages.
pub proof fn law_events_tell_how_agents_stand(
    m: RuntimeModel,
    agent: Seq<char>,
    owner: Seq<char>,
    e: EventModel,
    now: Timestamp,
)
    ensures
        ({
            let (n, r) = recorded(m, agent, owner, e, now);
            let l = activity_of(n, agent).last();
            &&& n.agents.contains_key(agent) && n.agents[agent] == r
            &&& r.last_seen_at == now
            &&& r.owner_user_id == owner
            &&& m.agents.contains_key(agent) ==> r.thread_id == m.agents[agent].thread_id
            &&& e.kind == OfficeActivityKind::RuntimeWait && has_open_message(m, agent) ==> r.state
                == AgentRuntimeState::Waiting && r.waiting_reason == Some(e.summary)
            &&& e.kind == OfficeActivityKind::RuntimeWait && !has_open_message(m, agent)
                ==> r.waiting_reason is None
            &&& is_work(e.kind) ==> r.waiting_reason is None
            &&& is_work(e.kind) && has_open_message(m, agent) ==> r.state
                == AgentRuntimeState::Working
            &&& !is_work(e.kind) && e.kind != OfficeActivityKind::RuntimeWait
                && m.agents.contains_key(agent) ==> r.state == m.agents[agent].state
                && r.waiting_reason == m.agents[agent].waiting_reason
            &&& activity_of(n, agent).len() > 0
            &&& l.kind == e.kind && l.summary == e.summary && l.detail == e.detail && l.timestamp
                == now
            &&& n.owner_messages == m.owner_messages
        }),
{
}

/// The open message of a log is the latest that was queued and not answered.
pub proof fn law_latest_open_message(
    m: RuntimeModel,
    agent: Seq<char>,
    s: Seq<ActivityModel>,
)
    ensures
        match last_open(m, agent, s) {
            Some(id) => !is_answered(m, agent, id) && exists|i: int|
                0 <= i < s.len() && (#[trigger] s[i]).kind == OfficeActivityKind::OwnerMessageQueued
                    && s[i].message_id == Some(id) && forall|j: int|
                    i < j < s.len() && (#[trigger] s[j]).kind
                        == OfficeActivityKind::OwnerMessageQueued && s[j].message_id is Some
                        ==> is_answered(m, agent, s[j].message_id->0),
            None => forall|i: int|
                0 <= i < s.len() && (#[trigger] s[i]).kind == OfficeActivityKind::OwnerMessageQueued
                    && s[i].message_id is Some ==> is_answered(m, agent, s[i].message_id->0),
        },
    decreases s.len(),
{
    if s.len() > 0 {
        let n = s.len() - 1;
        if opens_message(m, agent, s.last()) {
            assert(s[n].message_id == last_open(m, agent, s));
        } else {
            let t = s.drop_last();
            law_latest_open_message(m, agent, t);
            assert forall|i: int| 0 <= i < n implies #[trigger] s[i] == t[i] by {}
            match last_open(m, agent, t) {
                Some(id) => {
                    let i = choose|i: int|
                        0 <= i < t.len() && (#[trigger] t[i]).kind
                            == OfficeActivityKind::OwnerMessageQueued && t[i].message_id == Some(id)
                            && forall|j: int|
                            i < j < t.len() && (#[trigger] t[j]).kind
                                == OfficeActivityKind::OwnerMessageQueued && t[j].message_id is Some
                                ==> is_answered(m, agent, t[j].message_id->0);
                    assert(s[i].message_id == Some(id));
                    assert forall|j: int|
                        i < j < s.len() && (#[trigger] s[j]).kind
                            == OfficeActivityKind::OwnerMessageQueued
                            && s[j].message_id is Some implies is_answered(
                        m,
                        agent,
                        s[j].message_id->0,
                    ) by {
                        if j < n {
                            assert(s[j] == t[j]);
                        }
                    }
                },
                None => {
                    assert forall|i: int|
                        0 <= i < s.len() && (#[trigger] s[i]).kind
                            == OfficeActivityKind::OwnerMessageQueued
                            && s[i].message_id is Some implies is_answered(
                        m,
                        agent,
                        s[i].message_id->0,
                    ) by {
                        if i < n {
                            assert(s[i] == t[i]);
                        }
                    }
                },
            }
        }
    }
}

/// An agent that is bound to a thread works there; one that gets a message works too,
/// unless the message was answered. A new agent is idle and has no thread.
pub proof fn law_agents_work_when_they_are_called(
    was: RecordModel,
    thread: ThreadId,
    answered: bool,
    now: Timestamp,
    agent: Seq<char>,
    owner: Seq<char>,
)
    ensures
        bound_to(was, thread, now).thread_id == Some(thread),
        bound_to(was, thread, now).state == AgentRuntimeState::Working,
        bound_to(was, thread, now).waiting_reason is None,
        bound_to(was, thread, now).last_seen_at == now,
        bound_to(was, thread, now).agent_id == was.agent_id,
        bound_to(was, thread, now).owner_user_id == was.owner_user_id,
        !answered ==> given_work(was, answered, now).state == AgentRuntimeState::Working,
        answered ==> given_work(was, answered, now).state == was.state,
        given_work(was, answered, now).last_seen_at == now,
        given_work(was, answered, now).thread_id == was.thread_id,
        idle_record(agent, owner, now).state == AgentRuntimeState::Idle,
        idle_record(agent, owner, now).thread_id is None,
        idle_record(agent, owner, now).agent_id == agent,
        idle_record(agent, owner, now).owner_user_id == owner,
        idle_record(agent, owner, now).last_seen_at == now,
        idle_record(agent, owner, now).waiting_reason is None,
{
}

/// A message is open where it was queued and not answered, and none is where there is
/// none; one that the log tells of counts before one that only its status does.
pub proof fn law_open_messages_are_found(r: Option<String>, m: RuntimeModel, agent: Seq<char>)
    requires
        is_latest_open(r, m, agent),
    ensures
        r is Some <==> has_open_message(m, agent),
        r is None ==> forall|i: int|
            0 <= i < activity_of(m, agent).len() && (#[trigger] activity_of(m, agent)[i]).kind
                == OfficeActivityKind::OwnerMessageQueued && activity_of(
                m,
                agent,
            )[i].message_id is Some ==> is_answered(
                m,
                agent,
                activity_of(m, agent)[i].message_id->0,
            ),
        r matches Some(id) ==> !status_of(m, agent, id@).reply_ready,
{
    law_latest_open_message(m, agent, activity_of(m, agent));
}

/// What the store logs for an owner names the message and holds what was said; what it
/// logs of a thread names the thread.
pub proof fn law_the_store_logs_what_was_said(id: Seq<char>, content: Seq<char>, thread: ThreadId)
    ensures
        queued_event(id, content).message_id == Some(id),
        queued_event(id, content).detail == Some(content),
        queued_event(id, content).kind == OfficeActivityKind::OwnerMessageQueued,
        queued_event(id, content).source == "owner_inbox"@,
        reply_event(id, content).message_id == Some(id),
        reply_event(id, content).detail == Some(content),
        reply_event(id, content).kind == OfficeActivityKind::OwnerReplyReady,
        resumed_event(thread).kind == OfficeActivityKind::RuntimeThreadResumed,
        resumed_event(thread).summary == "运行时桥接已绑定线程 `"@ + thread_text(thread)
            + "`，正在把请求交给 Agent 处理"@,
        queued_event(id, content).tool_name is None && reply_event(id, content).tool_name is None
            && resumed_event(thread).tool_name is None,
{
}

} // verus!
