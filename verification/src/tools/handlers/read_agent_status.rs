//! The `read_agent_status` tool: how another agent stands, whom it waits for,
//! and what it did last.
use crate::ids::ThreadId;
use crate::protocol::{tells_model, AgentNames, AgentStatus, FunctionCallError};
use crate::text::{blank, opt_text, trim, trimmed};
use crate::tools::handlers::collab_inbox::{keep_last, InboxRuntime, InboxView};
use crate::tools::handlers::wait::{
    awaited, pending_reply_targets_for_source, target_thread, WaitTarget,
};
use vstd::prelude::*;

verus! {

pub struct ReadAgentStatusHandler;

/// The number of summaries that are reported.
pub const MAX_SUMMARIES: usize = 10;

#[derive(Debug, Clone, PartialEq, Eq)]
pub struct AgentStatusResponse {
    pub agent_id: String,
    pub status: String,
    pub lifecycle_status: String,
    pub waiting_reason: Option<String>,
    pub recent_summaries: Vec<String>,
}

/// What the `Debug` impl of `str` prints for a text.
pub uninterp spec fn quoted(text: Seq<char>) -> Seq<char>;

/// Trusted: the `Debug` impl of `str`. What it prints depends on the text alone.
#[verifier::external_body]
fn quote(text: &str) -> (r: String)
    ensures
        r@ == quoted(text@),
{
    format!("{:?}", text)
}

/// How a status is shown.
pub open spec fn shown_status(status: AgentStatus) -> Seq<char> {
    match status {
        AgentStatus::PendingInit => "PendingInit"@,
        AgentStatus::Running => "Running"@,
        AgentStatus::Interrupted => "Interrupted"@,
        AgentStatus::Completed(None) => "Completed(None)"@,
        AgentStatus::Completed(Some(m)) => "Completed(Some("@ + quoted(m@) + "))"@,
        AgentStatus::Errored(m) => "Errored("@ + quoted(m@) + ")"@,
        AgentStatus::Shutdown => "Shutdown"@,
        AgentStatus::NotFound => "NotFound"@,
    }
}

pub fn lifecycle_text(status: &AgentStatus) -> (r: String)
    ensures
        r@ == shown_status(*status),
{
    match status {
        AgentStatus::PendingInit => "PendingInit".to_string(),
        AgentStatus::Running => "Running".to_string(),
        AgentStatus::Interrupted => "Interrupted".to_string(),
        AgentStatus::Completed(None) => "Completed(None)".to_string(),
        AgentStatus::Completed(Some(m)) => {
            let mut out = "Completed(Some(".to_string();
            out.append(quote(m.as_str()).as_str());
            out.append("))");
            out
        },
        AgentStatus::Errored(m) => {
            let mut out = "Errored(".to_string();
            out.append(quote(m.as_str()).as_str());
            out.append(")");
            out
        },
        AgentStatus::Shutdown => "Shutdown".to_string(),
        AgentStatus::NotFound => "NotFound".to_string(),
    }
}

/// The most recent summaries, oldest first.
pub fn latest_summaries(entries: Vec<String>) -> (r: Vec<String>)
    ensures
        r@ == keep_last(entries@, MAX_SUMMARIES as nat),
{
    let n: usize = entries.len();
    let mut i: usize = if n > MAX_SUMMARIES {
        n - MAX_SUMMARIES
    } else {
        0
    };
    let ghost start = i;
    let mut out: Vec<String> = Vec::new();
    while i < n
        invariant
            n == entries@.len(),
            start <= i <= n,
            out@ == entries@.subrange(start as int, i as int),
        decreases n - i,
    {
        out.push(entries[i].clone());
        i = i + 1;
        assert(entries@.subrange(start as int, i as int) =~= entries@.subrange(
            start as int,
            i - 1,
        ).push(entries@[i - 1]));
    }
    assert(out@ =~= keep_last(entries@, MAX_SUMMARIES as nat));
    out
}

/// The thread of the agent that is asked about.
pub fn resolve_thread_id(names: &AgentNames, agent_id: &str) -> (r: Result<
    ThreadId,
    FunctionCallError,
>)
    ensures
        match target_thread(*names, agent_id@) {
            Some(thread) => r == Ok::<_, FunctionCallError>(thread),
            None => r matches Err(e) && tells_model(e, "agent_id not found: "@ + agent_id@),
        },
{
    match names.thread_id_for_agent_name(agent_id) {
        Some(thread) => Ok(thread),
        None => match ThreadId::from_string(agent_id) {
            Some(thread) => Ok(thread),
            None => {
                let mut message = "agent_id not found: ".to_string();
                message.append(agent_id);
                Err(FunctionCallError::RespondToModel(message))
            },
        },
    }
}

/// Whether this is the agent that is asked about, or why there is none.
pub open spec fn finds_target(
    r: Result<ThreadId, FunctionCallError>,
    names: AgentNames,
    agent_id: Seq<char>,
) -> bool {
    if blank(agent_id) {
        r matches Err(e) && tells_model(e, "agent_id must be non-empty"@)
    } else {
        match target_thread(names, trim(agent_id)) {
            Some(thread) => r == Ok::<_, FunctionCallError>(thread),
            None => r matches Err(e) && tells_model(e, "agent_id not found: "@ + trim(agent_id)),
        }
    }
}

/// The agent that is asked about.
pub fn status_target(names: &AgentNames, agent_id: &str) -> (r: Result<ThreadId, FunctionCallError>)
    ensures
        finds_target(r, *names, agent_id@),
{
    let agent_id = trimmed(agent_id);
    if agent_id.is_empty() {
        return Err(FunctionCallError::respond("agent_id must be non-empty"));
    }
    resolve_thread_id(names, agent_id)
}

/// Whom an agent waits for: the first reply it awaits.
pub open spec fn waiting_text(pending: Seq<WaitTarget>) -> Option<Seq<char>> {
    if pending.len() == 0 {
        None
    } else {
        Some(
            "waiting for reply from "@ + pending[0].agent_name@ + " to message_id "@
                + pending[0].message_id@,
        )
    }
}

/// Whether this is how an agent stands.
pub open spec fn reports_status(
    r: AgentStatusResponse,
    m: Map<Seq<char>, InboxView>,
    names: AgentNames,
    agent_id: Seq<char>,
    thread: ThreadId,
    status: AgentStatus,
    waiting_state: Seq<char>,
    other_state: Seq<char>,
    entries: Option<Vec<String>>,
) -> bool {
    &&& r.agent_id@ == trim(agent_id)
    &&& r.lifecycle_status@ == shown_status(status)
    &&& exists|pending: Seq<WaitTarget>| #[trigger]
        awaited(m, names, thread, pending) && opt_text(r.waiting_reason) == waiting_text(pending)
            && r.status@ == (if pending.len() > 0 {
            waiting_state
        } else {
            other_state
        })
    &&& r.recent_summaries@ == (match entries {
        Some(v) => keep_last(v@, MAX_SUMMARIES as nat),
        None => Seq::empty(),
    })
}

/// How the agent `thread_id` stands. `waiting_state` and `other_state` name its
/// outward state where it waits for a reply and where it does not; `entries` are
/// the summaries of its work, if any were kept.
pub fn status_report(
    inboxes: &InboxRuntime,
    names: &AgentNames,
    agent_id: &str,
    thread_id: ThreadId,
    status: &AgentStatus,
    waiting_state: &str,
    other_state: &str,
    entries: Option<Vec<String>>,
) -> (r: AgentStatusResponse)
    ensures
        reports_status(
            r,
            inboxes@,
            *names,
            agent_id@,
            thread_id,
            *status,
            waiting_state@,
            other_state@,
            entries,
        ),
{
    let pending = pending_reply_targets_for_source(inboxes, names, thread_id);
    let waiting_reason = if pending.len() > 0 {
        let mut out = "waiting for reply from ".to_string();
        out.append(pending[0].agent_name.as_str());
        out.append(" to message_id ");
        out.append(pending[0].message_id.as_str());
        Some(out)
    } else {
        None
    };
    let state = if pending.len() > 0 {
        waiting_state
    } else {
        other_state
    };
    assert(awaited(inboxes@, *names, thread_id, pending@) && opt_text(waiting_reason)
        == waiting_text(pending@) && state@ == (if pending@.len() > 0 {
        waiting_state@
    } else {
        other_state@
    }));
    let recent_summaries = match entries {
        Some(v) => latest_summaries(v),
        None => Vec::new(),
    };
    AgentStatusResponse {
        agent_id: trimmed(agent_id).to_string(),
        status: state.to_string(),
        lifecycle_status: lifecycle_text(status),
        waiting_reason,
        recent_summaries,
    }
}

/// An agent is found by its name, or else by its identity; nobody is found for nothing.
pub proof fn law_agents_are_found_by_name_or_identity(
    r: Result<ThreadId, FunctionCallError>,
    names: AgentNames,
    agent_id: Seq<char>,
)
    requires
        finds_target(r, names, agent_id),
    ensures
        blank(agent_id) ==> r is Err,
        !blank(agent_id) && names.thread_of(trim(agent_id)) is Some ==> r is Ok && r->Ok_0
            == names.thread_of(trim(agent_id))->0,
        !blank(agent_id) && names.thread_of(trim(agent_id)) is None ==> match crate::ids::thread_named(
            trim(agent_id),
        ) {
            Some(t) => r is Ok && r->Ok_0 == t,
            None => r is Err,
        },
{
}

/// An agent is told to wait just where it awaits a reply; then the first one is named.
/// Of what it did, the last ten summaries are told, in their order.
pub proof fn law_status_tells_waiting(
    r: AgentStatusResponse,
    m: Map<Seq<char>, InboxView>,
    names: AgentNames,
    agent_id: Seq<char>,
    thread: ThreadId,
    status: AgentStatus,
    waiting_state: Seq<char>,
    other_state: Seq<char>,
    entries: Option<Vec<String>>,
)
    requires
        reports_status(
            r,
            m,
            names,
            agent_id,
            thread,
            status,
            waiting_state,
            other_state,
            entries,
        ),
    ensures
        r.agent_id@ == trim(agent_id),
        exists|pending: Seq<WaitTarget>| #[trigger] awaited(m, names, thread, pending) && (
        r.waiting_reason is Some <==> pending.len() > 0) && (pending.len() > 0 ==> r.status@
            == waiting_state && r.waiting_reason->0@ == "waiting for reply from "@
            + pending[0].agent_name@ + " to message_id "@ + pending[0].message_id@) && (
        pending.len() == 0 ==> r.status@ == other_state),
        entries matches Some(v) ==> {
            let n = v@.len();
            &&& n <= 10 ==> r.recent_summaries@ == v@
            &&& n > 10 ==> r.recent_summaries@ == v@.skip(n - 10)
        },
        entries is None ==> r.recent_summaries@.len() == 0,
        status is Running ==> r.lifecycle_status@ == "Running"@,
        status is Shutdown ==> r.lifecycle_status@ == "Shutdown"@,
        status is NotFound ==> r.lifecycle_status@ == "NotFound"@,
        status is Interrupted ==> r.lifecycle_status@ == "Interrupted"@,
        status is PendingInit ==> r.lifecycle_status@ == "PendingInit"@,
        status matches AgentStatus::Errored(e) ==> r.lifecycle_status@ == "Errored("@ + quoted(e@)
            + ")"@,
        status matches AgentStatus::Completed(Some(t)) ==> r.lifecycle_status@ == "Completed(Some("@
            + quoted(t@) + "))"@,
{
}

} // verus!
