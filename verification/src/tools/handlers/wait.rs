//! The `wait` tool: an agent blocks until a message arrives in its inbox.
//!
//! The handler alternates outside work (notifying the agent that is waited for,
//! sleeping until a message arrives) with decisions. The decisions are here:
//! `prepare_wait` reads the arguments, `record_notice` and `begin_wait` prepare
//! the inboxes, `poll_wait` says whether to go on sleeping, and `finish_wait`
//! says what the waiting agent is told.
use crate::ids::{thread_named, thread_text, ThreadId};
use crate::protocol::{tells_model, AgentNames, FunctionCallError};
use crate::text::{
    contains_char, decimal, decimal_of, decimal_of_i64, join, joined, opt_str, opt_text, same_text,
    signed_decimal, texts, trim, trimmed,
};
use crate::tools::handlers::collab_inbox::{
    changed, chosen, delivered, first_wanted, has_obligation, has_replied, inbox_of, listed,
    next_number, obligation, pending_are, pending_is, popped, seen_by_wait, selected, unchanged, wanted, with_inbox, InboxMessage,
    InboxRuntime, InboxView, ReplyFilter, ReplyKey,
};
use std::collections::HashMap;
use vstd::prelude::*;

verus! {

pub struct WaitHandler;

/// The longest wait: one hour.
pub const MAX_WAIT_TIMEOUT_MS: i64 = 3600000;

/// How long a wait for one agent lasts where nothing else is said: seven minutes.
pub const DEFAULT_TARGET_WAIT_MS: i64 = 420000;

/// The number of waits in a row without a message after which the agent has to
/// stop waiting.
pub const WAIT_TIMEOUT_STREAK_HALT_THRESHOLD: u8 = 5;

#[derive(Debug, Clone)]
pub struct WaitArgs {
    pub timeout_ms: Option<i64>,
    pub target_agent_id: Option<String>,
    pub target_id: Option<String>,
}

#[derive(Debug, Clone, PartialEq, Eq, Hash)]
pub struct WaitTarget {
    pub agent_name: String,
    pub message_id: String,
}

#[derive(Debug, Clone, PartialEq, Eq, Hash)]
pub struct WaitNoticeTarget {
    pub agent_id: String,
    pub agent_name: String,
    pub thread_id: ThreadId,
    pub message_id: String,
}

/// An agent that is to be told that it is waited for, and what it is told.
#[derive(Debug)]
pub struct WaitNotice {
    pub target: WaitNoticeTarget,
    pub content: String,
}

/// Whom a wait is for: the sender whose messages are taken, and the notice that
/// goes to it where it is an agent.
#[derive(Debug)]
pub struct PlannedTarget {
    pub sender_filter: String,
    pub notice: Option<WaitNotice>,
}

#[derive(Debug)]
pub struct WaitPlan {
    pub timeout_ms: i64,
    pub sender_agent_name: String,
    pub target: Option<PlannedTarget>,
}

/// What to do next while waiting.
#[derive(Debug)]
pub enum WaitPoll {
    Message(InboxMessage),
    TimedOut,
    Sleep(u64),
}

/// What the interface is told of a target.
#[derive(Debug)]
pub struct WaitTargetEvent {
    pub receiver_thread_id: ThreadId,
    pub receiver_agent_name: String,
    pub message_id: String,
    pub completed: bool,
    pub callback_content: Option<String>,
}

#[derive(Debug)]
pub struct WaitResult {
    pub timed_out: bool,
    pub timeout_streak: u8,
    pub halt_required: bool,
    pub elapsed_ms: i64,
    pub satisfied_targets: Vec<WaitTarget>,
    pub pending_reply_targets: Vec<WaitTarget>,
    pub matched_expected_reply: bool,
    pub stale_or_unrelated_message: bool,
    pub matched_reply_to_message_id: Option<String>,
    pub stale_reply_warning: Option<String>,
    pub messages: Vec<InboxMessage>,
    pub suggestion: Option<String>,
}

/// The end of a wait: the report, what the interface is told, and, where a
/// message came, its content.
#[derive(Debug)]
pub struct WaitFinished {
    pub result: WaitResult,
    pub target_events: Vec<WaitTargetEvent>,
    pub content: Option<String>,
}

/// How many waits in a row ended without a message, by waiting thread.
pub struct TimeoutStreaks {
    counts: HashMap<u128, u8>,
}

// ---------------------------------------------------------------------------
// Models
// ---------------------------------------------------------------------------

/// The target a call names, trimmed: `target_id`, or else `target_agent_id`.
pub open spec fn named_target(args: WaitArgs) -> Option<Seq<char>> {
    match args.target_id {
        Some(id) => Some(trim(id@)),
        None => match args.target_agent_id {
            Some(id) => Some(trim(id@)),
            None => None,
        },
    }
}

/// How long to wait, or what is wrong with the arguments.
pub open spec fn wait_limit(args: WaitArgs) -> Result<i64, Seq<char>> {
    if named_target(args) matches Some(t) && t.len() == 0 {
        Err("target_id must be non-empty when set"@)
    } else {
        match args.timeout_ms {
            Some(ms) => if ms <= 0 {
                Err("timeout_ms must be greater than zero"@)
            } else if ms <= MAX_WAIT_TIMEOUT_MS {
                Ok(ms)
            } else {
                Ok(MAX_WAIT_TIMEOUT_MS)
            },
            None => if named_target(args) is Some {
                Ok(DEFAULT_TARGET_WAIT_MS)
            } else {
                Err("timeout_ms is required unless target_id is set"@)
            },
        }
    }
}

/// The thread a target names: an agent's name, or else a thread identity.
pub open spec fn target_thread(names: AgentNames, target: Seq<char>) -> Option<ThreadId> {
    match names.thread_of(target) {
        Some(thread) => Some(thread),
        None => thread_named(target),
    }
}

/// What is wrong with a target, if anything.
pub open spec fn target_error(
    names: AgentNames,
    target: Seq<char>,
    conversation: ThreadId,
) -> Option<Seq<char>> {
    match target_thread(names, target) {
        Some(thread) => if thread == conversation {
            Some("target_agent_id must not refer to the waiting agent itself"@)
        } else {
            None
        },
        None => if target.contains('-') {
            Some("target_id not found: "@ + target)
        } else {
            None
        },
    }
}

pub open spec fn notice_id(call_id: Seq<char>) -> Seq<char> {
    "wait-notice-"@ + call_id
}

pub open spec fn notice_text(sender: Seq<char>, thread: ThreadId) -> Seq<char> {
    "[WAIT NOTICE] "@ + sender + " ("@ + thread_text(thread)
        + ") is currently waiting for your result. Please return your result as soon as possible using `call` with the appropriate `reply_to_message_id` if this wait is for a delegated request."@
}

/// Whether a wait is for somebody who is not an agent.
pub open spec fn is_for_somebody_else(plan: WaitPlan) -> bool {
    plan.target matches Some(target) && target.notice is None
}

/// The plan for a target.
pub open spec fn target_planned(
    p: PlannedTarget,
    names: AgentNames,
    target: Seq<char>,
    conversation: ThreadId,
    call_id: Seq<char>,
) -> bool {
    match target_thread(names, target) {
        Some(thread) => {
            &&& p.notice matches Some(n) && n.target.agent_id@ == target && n.target.agent_name@
                == names.called(thread) && n.target.thread_id == thread && n.target.message_id@
                == notice_id(call_id) && n.content@ == notice_text(
                names.called(conversation),
                conversation,
            )
            &&& p.sender_filter@ == names.called(thread)
        },
        None => p.notice is None && p.sender_filter@ == target,
    }
}

/// How the receiver of an obligation is called: by its agent's name, or else by
/// its inbox.
pub open spec fn receiver_name(names: AgentNames, inbox: Seq<char>) -> Seq<char> {
    match thread_named(inbox) {
        Some(thread) => match names.name_of(thread) {
            Some(name) => name,
            None => inbox,
        },
        None => inbox,
    }
}

/// `r` lists the replies that `source` waits for, in the order of their
/// registration.
pub open spec fn awaited(
    m: Map<Seq<char>, InboxView>,
    names: AgentNames,
    source: ThreadId,
    r: Seq<WaitTarget>,
) -> bool {
    exists|keys: Seq<ReplyKey>, id: String|
        id@ == thread_text(source) && #[trigger] listed(m, ReplyFilter::UnresolvedFrom(id), keys)
            && awaited_at(m, names, keys, r)
}

pub open spec fn awaited_at(
    m: Map<Seq<char>, InboxView>,
    names: AgentNames,
    keys: Seq<ReplyKey>,
    r: Seq<WaitTarget>,
) -> bool {
    &&& r.len() == keys.len()
    &&& forall|i: int|
        0 <= i < r.len() ==> (#[trigger] r[i]).agent_name@ == receiver_name(names, keys[i].0)
            && r[i].message_id@ == obligation(m, keys[i].0, keys[i].1).message_id@
}

/// The inboxes after the waiting thread has looked at the replies it waits for:
/// where there are any, they are marked as seen.
pub open spec fn looked_at(
    m: Map<Seq<char>, InboxView>,
    source: ThreadId,
    waiting: bool,
) -> Map<Seq<char>, InboxView> {
    if waiting {
        changed(m, selected(m, ReplyFilter::UnobservedFrom(source)), seen_by_wait())
    } else {
        m
    }
}

/// The thread of a sender: by name, or else by identity, or else the reader's own.
pub open spec fn sender_thread(
    names: AgentNames,
    sender: Seq<char>,
    conversation: ThreadId,
) -> ThreadId {
    match target_thread(names, sender) {
        Some(thread) => thread,
        None => conversation,
    }
}

pub open spec fn awaits_id(targets: Seq<WaitTarget>, id: Seq<char>) -> bool {
    exists|i: int| 0 <= i < targets.len() && (#[trigger] targets[i]).message_id@ == id
}

/// Whether a message is a reply that the reader waited for, or that settled an
/// obligation towards it.
pub open spec fn is_expected_reply(
    m: Map<Seq<char>, InboxView>,
    names: AgentNames,
    conversation: ThreadId,
    pending_before: Seq<WaitTarget>,
    message: InboxMessage,
) -> bool {
    match message.reply_to_message_id {
        Some(id) => awaits_id(pending_before, id@) || has_replied(
            m,
            thread_text(sender_thread(names, message.sender_agent_name@, conversation)),
            thread_text(conversation),
            id@,
        ),
        None => false,
    }
}

/// The inboxes after a message was held against what the reader waited for.
pub open spec fn after_matching(
    m: Map<Seq<char>, InboxView>,
    names: AgentNames,
    conversation: ThreadId,
    pending_before: Seq<WaitTarget>,
    consumed: Option<InboxMessage>,
) -> Map<Seq<char>, InboxView> {
    match consumed {
        Some(message) => match message.reply_to_message_id {
            Some(id) => if awaits_id(pending_before, id@) {
                m
            } else {
                with_inbox(
                    m,
                    thread_text(sender_thread(names, message.sender_agent_name@, conversation)),
                )
            },
            None => m,
        },
        None => m,
    }
}

pub open spec fn timeout_text(elapsed_ms: int, streak: nat, halt: bool) -> Seq<char> {
    "Timed out after "@ + signed_decimal(elapsed_ms) + "ms (consecutive timeout #"@ + decimal(
        streak,
    ) + (if halt {
        "). If you are waiting on a specific agent reply, prefer read_agent_status for that agent before calling wait again. STOP: do not call wait again in this turn. Immediately send a direct assistant message to the user explaining no inbox message has arrived yet and what action is needed next."@
    } else {
        "). If you are waiting on a specific agent reply, prefer read_agent_status for that agent before calling wait again. If no inbox message has arrived yet, you may wait again. Never use wait to fetch subsequent instructions."@
    })
}

pub open spec fn target_label(t: WaitTarget) -> Seq<char> {
    t.agent_name@ + ":"@ + t.message_id@
}

pub open spec fn stale_text(pending: Seq<WaitTarget>) -> Seq<char> {
    "Received a FIFO inbox message, but it did not match any currently pending reply obligation initiated by this agent. Pending replies still unresolved: "@
        + joined(pending.map_values(|t: WaitTarget| target_label(t)), ", "@)
        + ". Do not treat this message as satisfying final validation unless its reply_to_message_id matches the expected request."@
}

/// The name under which the sender of a message is reported.
pub open spec fn reported_sender(
    names: AgentNames,
    sender: Seq<char>,
    conversation: ThreadId,
) -> Seq<char> {
    let thread = sender_thread(names, sender, conversation);
    match names.name_of(thread) {
        Some(name) => name,
        None => if trim(sender).len() == 0 {
            thread_text(thread)
        } else {
            trim(sender)
        },
    }
}

impl View for TimeoutStreaks {
    type V = Map<u128, u8>;

    closed spec fn view(&self) -> Map<u128, u8> {
        self.counts@
    }
}

/// The streak of a thread; none where it has not timed out.
pub open spec fn streak_of(m: Map<u128, u8>, thread: ThreadId) -> u8 {
    if m.contains_key(thread.value) {
        m[thread.value]
    } else {
        0
    }
}

pub open spec fn longer_streak(n: u8) -> u8 {
    if n == u8::MAX {
        n
    } else {
        (n + 1) as u8
    }
}

/// Whether an inbox holds a message the reader wants.
pub open spec fn has_wanted(
    m: Map<Seq<char>, InboxView>,
    id: Seq<char>,
    sender: Option<Seq<char>>,
) -> bool {
    exists|i: int|
        0 <= i < inbox_of(m, id).messages.len() && wanted(
            #[trigger] inbox_of(m, id).messages[i],
            sender,
        )
}

/// What a waiting reader takes: the oldest wanted message of its own inbox. Where
/// there is none and it waits for somebody who is not an agent, the oldest message
/// they left in the inbox that goes by their id.
pub open spec fn polled(
    before: Map<Seq<char>, InboxView>,
    after: Map<Seq<char>, InboxView>,
    id: Seq<char>,
    sender: Option<Seq<char>>,
    logical: bool,
    r: Option<InboxMessage>,
) -> bool {
    if logical && sender is Some && !has_wanted(before, id, sender) {
        popped(with_inbox(before, id), after, sender->0, sender, r)
    } else {
        popped(before, after, id, sender, r)
    }
}

/// Whether a wait was counted: one more in vain in a row, or none.
pub open spec fn counts_wait(
    r: u8,
    before: Map<u128, u8>,
    after: Map<u128, u8>,
    thread: ThreadId,
    timed_out: bool,
) -> bool {
    &&& r == (if timed_out {
        longer_streak(streak_of(before, thread))
    } else {
        0
    })
    &&& after == (if timed_out {
        before.insert(thread.value, r)
    } else {
        before.remove(thread.value)
    })
}

// ---------------------------------------------------------------------------
// Decisions
// ---------------------------------------------------------------------------

impl TimeoutStreaks {
    pub fn new() -> (r: TimeoutStreaks)
        ensures
            r@ == Map::<u128, u8>::empty(),
    {
        TimeoutStreaks { counts: HashMap::new() }
    }

    /// Counts a wait: one more without a message in a row, or none.
    pub fn update_timeout_streak(&mut self, sender_thread_id: ThreadId, timed_out: bool) -> (r: u8)
        ensures
            counts_wait(r, old(self)@, final(self)@, sender_thread_id, timed_out),
    {
        broadcast use vstd::std_specs::hash::group_hash_axioms;

        if timed_out {
            let so_far: u8 = match self.counts.get(&sender_thread_id.value) {
                Some(n) => *n,
                None => 0,
            };
            let next: u8 = so_far.saturating_add(1);
            self.counts.insert(sender_thread_id.value, next);
            next
        } else {
            self.counts.remove(&sender_thread_id.value);
            0
        }
    }
}

impl WaitTarget {
    pub fn copy(&self) -> (r: WaitTarget)
        ensures
            r == *self,
    {
        WaitTarget { agent_name: self.agent_name.clone(), message_id: self.message_id.clone() }
    }
}

/// The target a call names.
fn target_of(args: &WaitArgs) -> (r: Option<&str>)
    ensures
        opt_str(r) == named_target(*args),
{
    match &args.target_id {
        Some(id) => Some(trimmed(id.as_str())),
        None => match &args.target_agent_id {
            Some(id) => Some(trimmed(id.as_str())),
            None => None,
        },
    }
}

/// Whether a wait names whom it is for.
pub open spec fn reaches_out(args: WaitArgs) -> bool {
    named_target(args) matches Some(t) && t.len() > 0
}

/// Whether a wait reaches out to another agent, so that it may have effects.
pub fn is_mutating(args: &WaitArgs) -> (r: bool)
    ensures
        r == reaches_out(*args),
{
    match target_of(args) {
        Some(t) => !t.is_empty(),
        None => false,
    }
}

pub fn wait_notice_message_id(wait_call_id: &str) -> (r: String)
    ensures
        r@ == notice_id(wait_call_id@),
{
    let mut out = "wait-notice-".to_string();
    out.append(wait_call_id);
    out
}

pub fn wait_notice_content(sender_agent_name: &str, sender_thread_id: ThreadId) -> (r: String)
    ensures
        r@ == notice_text(sender_agent_name@, sender_thread_id),
{
    let mut out = "[WAIT NOTICE] ".to_string();
    out.append(sender_agent_name);
    out.append(" (");
    out.append(sender_thread_id.to_text().as_str());
    out.append(
        ") is currently waiting for your result. Please return your result as soon as possible using `call` with the appropriate `reply_to_message_id` if this wait is for a delegated request.",
    );
    out
}

/// The thread a target names.
fn thread_for(names: &AgentNames, target: &str) -> (r: Option<ThreadId>)
    ensures
        r == target_thread(*names, target@),
{
    match names.thread_id_for_agent_name(target) {
        Some(thread) => Some(thread),
        None => ThreadId::from_string(target),
    }
}

/// Whether this is the thread a wait is for, or that nobody goes by that name.
pub open spec fn finds_target(
    r: Result<Option<ThreadId>, FunctionCallError>,
    names: AgentNames,
    target: Seq<char>,
) -> bool {
    match r {
        Ok(thread) => thread == target_thread(names, target) && (thread is None
            ==> !target.contains('-')),
        Err(e) => target_thread(names, target) is None && target.contains('-') && tells_model(
            e,
            "target_id not found: "@ + target,
        ),
    }
}

/// The thread a wait is for; none where the target is not an agent.
pub fn resolve_optional_wait_target(names: &AgentNames, target_id: &str) -> (r: Result<
    Option<ThreadId>,
    FunctionCallError,
>)
    ensures
        finds_target(r, *names, target_id@),
{
    match thread_for(names, target_id) {
        Some(thread) => Ok(Some(thread)),
        None => if contains_char(target_id, '-') {
            let mut message = "target_id not found: ".to_string();
            message.append(target_id);
            Err(FunctionCallError::RespondToModel(message))
        } else {
            Ok(None)
        },
    }
}

/// Whether this is the plan for a wait, or what is wrong with its arguments.
pub open spec fn plans_wait(
    r: Result<WaitPlan, FunctionCallError>,
    args: WaitArgs,
    names: AgentNames,
    conversation: ThreadId,
    call_id: Seq<char>,
) -> bool {
    match wait_limit(args) {
        Err(message) => r matches Err(e) && tells_model(e, message),
        Ok(ms) => match named_target(args) {
            None => r matches Ok(plan) && plan.timeout_ms == ms && plan.sender_agent_name@
                == names.called(conversation) && plan.target is None,
            Some(target) => match target_error(names, target, conversation) {
                Some(message) => r matches Err(e) && tells_model(e, message),
                None => r matches Ok(plan) && plan.timeout_ms == ms && plan.sender_agent_name@
                    == names.called(conversation) && (plan.target matches Some(p)
                    && target_planned(p, names, target, conversation, call_id)),
            },
        },
    }
}

/// Reads the arguments of a wait.
pub fn prepare_wait(
    args: &WaitArgs,
    names: &AgentNames,
    conversation_id: ThreadId,
    call_id: &str,
) -> (r: Result<WaitPlan, FunctionCallError>)
    ensures
        plans_wait(r, *args, *names, conversation_id, call_id@),
{
    let target = target_of(args);
    if let Some(t) = target {
        if t.is_empty() {
            return Err(FunctionCallError::respond("target_id must be non-empty when set"));
        }
    }
    let timeout_ms: i64 = match args.timeout_ms {
        Some(ms) => if ms > 0 {
            if ms < MAX_WAIT_TIMEOUT_MS {
                ms
            } else {
                MAX_WAIT_TIMEOUT_MS
            }
        } else {
            return Err(FunctionCallError::respond("timeout_ms must be greater than zero"));
        },
        None => if target.is_some() {
            DEFAULT_TARGET_WAIT_MS
        } else {
            return Err(
                FunctionCallError::respond("timeout_ms is required unless target_id is set"),
            );
        },
    };
    let sender_agent_name = names.name_or_unnamed(conversation_id);
    let planned = match target {
        None => None,
        Some(t) => {
            let thread = match resolve_optional_wait_target(names, t) {
                Ok(thread) => thread,
                Err(e) => {
                    return Err(e);
                },
            };
            match thread {
                Some(thread_id) => {
                    if thread_id == conversation_id {
                        return Err(
                            FunctionCallError::respond(
                                "target_agent_id must not refer to the waiting agent itself",
                            ),
                        );
                    }
                    let agent_name = names.name_or_unnamed(thread_id);
                    let notice = WaitNotice {
                        target: WaitNoticeTarget {
                            agent_id: t.to_string(),
                            agent_name: agent_name.clone(),
                            thread_id,
                            message_id: wait_notice_message_id(call_id),
                        },
                        content: wait_notice_content(sender_agent_name.as_str(), conversation_id),
                    };
                    Some(PlannedTarget { sender_filter: agent_name, notice: Some(notice) })
                },
                None => Some(PlannedTarget { sender_filter: t.to_string(), notice: None }),
            }
        },
    };
    Ok(WaitPlan { timeout_ms, sender_agent_name, target: planned })
}

/// The error where the agent that is waited for could not be told.
pub fn notice_failed(target_agent_id: &str, err: &str) -> (r: FunctionCallError)
    ensures
        tells_model(
            r,
            "failed to notify target_agent_id `"@ + target_agent_id@ + "`: "@ + err@,
        ),
{
    let mut message = "failed to notify target_agent_id `".to_string();
    message.append(target_agent_id);
    message.append("`: ");
    message.append(err);
    FunctionCallError::RespondToModel(message)
}

/// Whether the notice lies in the inbox of the agent that was told.
pub open spec fn leaves_notice(
    before: Map<Seq<char>, InboxView>,
    after: Map<Seq<char>, InboxView>,
    sender_agent_name: Seq<char>,
    notice: WaitNotice,
) -> bool {
    let id = thread_text(notice.target.thread_id);
    let held = inbox_of(before, id);
    exists|message: InboxMessage|
        message.seq == next_number(held.next_seq) && message.sender_agent_name@ == sender_agent_name
            && message.message_id == notice.target.message_id && !message.need_reply
            && message.reply_to_message_id is None && message.content == notice.content && after
            == before.insert(id, #[trigger] delivered(held, message))
}

/// Leaves the notice in the inbox of the agent that was told.
pub fn record_notice(inboxes: &mut InboxRuntime, sender_agent_name: &str, notice: &WaitNotice)
    ensures
        leaves_notice(old(inboxes)@, final(inboxes)@, sender_agent_name@, *notice),
{
    let ghost before = inboxes@;
    let sender = sender_agent_name.to_string();
    let seq: u64 = inboxes.append_message(
        notice.target.thread_id,
        sender,
        notice.target.message_id.clone(),
        None,
        notice.content.clone(),
    );
    let ghost message = InboxMessage {
        seq,
        sender_agent_name: sender,
        message_id: notice.target.message_id,
        need_reply: false,
        reply_to_message_id: None,
        content: notice.content,
    };
    assert(inboxes@ == before.insert(
        thread_text(notice.target.thread_id),
        delivered(inbox_of(before, thread_text(notice.target.thread_id)), message),
    ));
}

/// The replies a thread waits for.
pub fn pending_reply_targets_for_source(
    inboxes: &InboxRuntime,
    names: &AgentNames,
    source_thread_id: ThreadId,
) -> (r: Vec<WaitTarget>)
    ensures
        awaited(inboxes@, *names, source_thread_id, r@),
{
    let list = inboxes.unresolved_required_reply_obligations_from_source(source_thread_id);
    let ghost m = inboxes@;
    let ghost (keys, source) = choose|keys: Seq<ReplyKey>, source: String|
        source@ == thread_text(source_thread_id) && #[trigger] listed(
            m,
            ReplyFilter::UnresolvedFrom(source),
            keys,
        ) && pending_are(list@, m, keys, unchanged());
    let mut out: Vec<WaitTarget> = Vec::new();
    let n: usize = list.len();
    let mut i: usize = 0;
    while i < n
        invariant
            n == list@.len(),
            i <= n,
            pending_are(list@, m, keys, unchanged()),
            out@.len() == i,
            forall|q: int|
                0 <= q < i ==> (#[trigger] out@[q]).agent_name@ == receiver_name(*names, keys[q].0)
                    && out@[q].message_id@ == obligation(m, keys[q].0, keys[q].1).message_id@,
        decreases n - i,
    {
        let pending = &list[i];
        assert(pending_is(
            list@[i as int],
            keys[i as int],
            obligation(m, keys[i as int].0, keys[i as int].1),
        ));
        let named = match pending.receiver_thread_id {
            Some(thread) => names.agent_name_for_thread(thread),
            None => None,
        };
        let agent_name = match named {
            Some(name) => name,
            None => pending.receiver_inbox_id.clone(),
        };
        out.push(WaitTarget { agent_name, message_id: pending.obligation.message_id.clone() });
        i = i + 1;
    }
    assert(listed(m, ReplyFilter::UnresolvedFrom(source), keys) && awaited_at(m, *names, keys, out@));
    out
}

/// Looks at the replies a thread waits for and marks them as seen.
fn look_at_pending(inboxes: &mut InboxRuntime, names: &AgentNames, source: ThreadId) -> (r: Vec<
    WaitTarget,
>)
    ensures
        awaited(old(inboxes)@, *names, source, r@),
        final(inboxes)@ == looked_at(old(inboxes)@, source, r@.len() > 0),
{
    let r = pending_reply_targets_for_source(inboxes, names, source);
    if r.len() > 0 {
        inboxes.mark_required_reply_obligations_observed_by_source_wait(source);
    }
    r
}

/// Whether a wait was opened for these replies.
pub open spec fn begins_wait(
    r: Seq<WaitTarget>,
    before: Map<Seq<char>, InboxView>,
    after: Map<Seq<char>, InboxView>,
    names: AgentNames,
    conversation: ThreadId,
) -> bool {
    &&& awaited(before, names, conversation, r)
    &&& after == with_inbox(
        looked_at(before, conversation, r.len() > 0),
        thread_text(conversation),
    )
}

/// Opens a wait: the replies that are waited for are marked as seen, and the
/// inbox of the waiting thread is there.
pub fn begin_wait(inboxes: &mut InboxRuntime, names: &AgentNames, conversation_id: ThreadId) -> (r:
    Vec<WaitTarget>)
    ensures
        begins_wait(r@, old(inboxes)@, final(inboxes)@, *names, conversation_id),
{
    let r = look_at_pending(inboxes, names, conversation_id);
    inboxes.subscribe(conversation_id);
    r
}

impl WaitPlan {
    /// Whether the wait is for somebody who is not an agent: they are not told of
    /// it.
    pub fn is_logical(&self) -> (r: bool)
        ensures
            r == is_for_somebody_else(*self),
    {
        match &self.target {
            Some(target) => target.notice.is_none(),
            None => false,
        }
    }
}

/// Whether this is what a poll comes to.
pub open spec fn polls(
    r: WaitPoll,
    before: Map<Seq<char>, InboxView>,
    after: Map<Seq<char>, InboxView>,
    id: Seq<char>,
    sender: Option<Seq<char>>,
    logical: bool,
    remaining_ms: u64,
) -> bool {
    match r {
        WaitPoll::Message(message) => polled(before, after, id, sender, logical, Some(message)),
        WaitPoll::TimedOut => remaining_ms == 0 && polled(before, after, id, sender, logical, None),
        WaitPoll::Sleep(ms) => ms == remaining_ms && ms > 0 && polled(
            before,
            after,
            id,
            sender,
            logical,
            None,
        ),
    }
}

/// Takes the next message, if one is there; else says whether to go on waiting.
/// A wait for somebody who is not an agent (`logical`) also looks into the inbox
/// that goes by their own id.
pub fn poll_wait(
    inboxes: &mut InboxRuntime,
    conversation_id: ThreadId,
    sender_filter: Option<&str>,
    logical: bool,
    remaining_ms: u64,
) -> (r: WaitPoll)
    ensures
        polls(
            r,
            old(inboxes)@,
            final(inboxes)@,
            thread_text(conversation_id),
            opt_str(sender_filter),
            logical,
            remaining_ms,
        ),
{
    let ghost before = inboxes@;
    let ghost id = thread_text(conversation_id);
    let (_, message) = match sender_filter {
        Some(name) => {
            let (seq, own) = inboxes.pop_message_from_sender(conversation_id, name);
            if own.is_none() && logical {
                inboxes.pop_logical_message_from_sender(name, name)
            } else {
                (seq, own)
            }
        },
        None => inboxes.pop_next_message(conversation_id),
    };
    match message {
        Some(m) => WaitPoll::Message(m),
        None => if remaining_ms == 0 {
            WaitPoll::TimedOut
        } else {
            WaitPoll::Sleep(remaining_ms)
        },
    }
}

fn awaits(targets: &Vec<WaitTarget>, id: &str) -> (r: bool)
    ensures
        r == awaits_id(targets@, id@),
{
    let mut i: usize = 0;
    while i < targets.len()
        invariant
            i <= targets@.len(),
            forall|j: int| 0 <= j < i ==> (#[trigger] targets@[j]).message_id@ != id@,
        decreases targets@.len() - i,
    {
        if same_text(targets[i].message_id.as_str(), id) {
            return true;
        }
        i = i + 1;
    }
    false
}

/// The thread of the sender of a message.
pub fn resolve_receiver_thread_id(
    names: &AgentNames,
    sender_agent_name: &str,
    conversation_id: ThreadId,
) -> (r: ThreadId)
    ensures
        r == sender_thread(*names, sender_agent_name@, conversation_id),
{
    match thread_for(names, sender_agent_name) {
        Some(thread) => thread,
        None => conversation_id,
    }
}

fn timeout_suggestion(elapsed_ms: i64, streak: u8, halt: bool) -> (r: String)
    ensures
        r@ == timeout_text(elapsed_ms as int, streak as nat, halt),
{
    let mut out = "Timed out after ".to_string();
    out.append(decimal_of_i64(elapsed_ms).as_str());
    out.append("ms (consecutive timeout #");
    out.append(decimal_of(streak as u64).as_str());
    if halt {
        out.append(
            "). If you are waiting on a specific agent reply, prefer read_agent_status for that agent before calling wait again. STOP: do not call wait again in this turn. Immediately send a direct assistant message to the user explaining no inbox message has arrived yet and what action is needed next.",
        );
    } else {
        out.append(
            "). If you are waiting on a specific agent reply, prefer read_agent_status for that agent before calling wait again. If no inbox message has arrived yet, you may wait again. Never use wait to fetch subsequent instructions.",
        );
    }
    out
}

fn stale_warning(pending: &Vec<WaitTarget>) -> (r: String)
    ensures
        r@ == stale_text(pending@),
{
    let mut labels: Vec<String> = Vec::new();
    let mut i: usize = 0;
    while i < pending.len()
        invariant
            i <= pending@.len(),
            texts(labels@) == pending@.take(i as int).map_values(|t: WaitTarget| target_label(t)),
        decreases pending@.len() - i,
    {
        let mut label = pending[i].agent_name.clone();
        label.append(":");
        label.append(pending[i].message_id.as_str());
        let ghost before = texts(labels@);
        labels.push(label);
        i = i + 1;
        assert(texts(labels@) =~= before.push(label@));
        assert(pending@.take(i as int).map_values(|t: WaitTarget| target_label(t))
            =~= pending@.take(i - 1).map_values(|t: WaitTarget| target_label(t)).push(
            target_label(pending@[i - 1]),
        ));
    }
    assert(pending@.take(i as int) =~= pending@);
    let mut out =
        "Received a FIFO inbox message, but it did not match any currently pending reply obligation initiated by this agent. Pending replies still unresolved: ".to_string();
    out.append(join(&labels, ", ").as_str());
    out.append(
        ". Do not treat this message as satisfying final validation unless its reply_to_message_id matches the expected request.",
    );
    out
}

/// Whether this is the report of a wait that took `consumed`, or nothing, and what
/// it leaves behind.
pub open spec fn reports_wait(
    r: WaitFinished,
    streaks: Map<u128, u8>,
    streaks_after: Map<u128, u8>,
    m: Map<Seq<char>, InboxView>,
    m_after: Map<Seq<char>, InboxView>,
    names: AgentNames,
    conversation: ThreadId,
    pending_before: Seq<WaitTarget>,
    consumed: Option<InboxMessage>,
    elapsed_ms: i64,
) -> bool {
    &&& r.result.timed_out == (consumed is None)
    &&& r.result.timeout_streak == (if consumed is None {
            longer_streak(streak_of(streaks, conversation))
        } else {
            0
        })
    &&& streaks_after == (if consumed is None {
            streaks.insert(conversation.value, r.result.timeout_streak)
        } else {
            streaks.remove(conversation.value)
        })
    &&& r.result.halt_required == (consumed is None && r.result.timeout_streak
            >= WAIT_TIMEOUT_STREAK_HALT_THRESHOLD)
    &&& r.result.elapsed_ms == elapsed_ms
    &&& awaited(
            after_matching(m, names, conversation, pending_before, consumed),
            names,
            conversation,
            r.result.pending_reply_targets@,
        )
    &&& m_after == looked_at(
            after_matching(m, names, conversation, pending_before, consumed),
            conversation,
            r.result.pending_reply_targets@.len() > 0,
        )
    &&& r.result.matched_expected_reply == (consumed matches Some(message) && is_expected_reply(
            m,
            names,
            conversation,
            pending_before,
            message,
        ))
    &&& opt_text(r.result.matched_reply_to_message_id) == (if r.result.matched_expected_reply {
            opt_text(consumed->0.reply_to_message_id)
        } else {
            None
        })
    &&& r.result.stale_or_unrelated_message == (consumed is Some
            && r.result.pending_reply_targets@.len() > 0 && !r.result.matched_expected_reply)
    &&& opt_text(r.result.stale_reply_warning) == (if r.result.stale_or_unrelated_message {
            Some(stale_text(r.result.pending_reply_targets@))
        } else {
            None
        })
    &&& opt_text(r.result.suggestion) == (if r.result.stale_or_unrelated_message {
            Some(stale_text(r.result.pending_reply_targets@))
        } else if consumed is None {
            Some(
                timeout_text(
                    elapsed_ms as int,
                    r.result.timeout_streak as nat,
                    r.result.halt_required,
                ),
            )
        } else {
            None
        })
    &&& match consumed {
            Some(message) => {
                &&& r.content matches Some(content) && content@ == message.content@
                &&& r.result.messages@ == seq![message]
                &&& r.result.satisfied_targets@.len() == 1
                &&& r.result.satisfied_targets@[0].agent_name@ == message.sender_agent_name@
                &&& r.result.satisfied_targets@[0].message_id@ == message.message_id@
                &&& r.target_events@.len() == 1
                &&& r.target_events@[0].receiver_thread_id == sender_thread(
                    names,
                    message.sender_agent_name@,
                    conversation,
                )
                &&& r.target_events@[0].receiver_agent_name@ == reported_sender(
                    names,
                    message.sender_agent_name@,
                    conversation,
                )
                &&& r.target_events@[0].message_id@ == message.message_id@
                &&& r.target_events@[0].completed
                &&& opt_text(r.target_events@[0].callback_content) == Some(message.content@)
            },
            None => {
                &&& r.content is None
                &&& r.result.messages@.len() == 0
                &&& r.result.satisfied_targets@.len() == 0
                &&& r.target_events@.len() == 0
            },
        }
}

/// Closes a wait that took `consumed`, or nothing, after `elapsed_ms`.
pub fn finish_wait(
    inboxes: &mut InboxRuntime,
    streaks: &mut TimeoutStreaks,
    names: &AgentNames,
    conversation_id: ThreadId,
    pending_before: &Vec<WaitTarget>,
    consumed: Option<InboxMessage>,
    elapsed_ms: i64,
) -> (r: WaitFinished)
    ensures
        reports_wait(
            r,
            old(streaks)@,
            final(streaks)@,
            old(inboxes)@,
            final(inboxes)@,
            *names,
            conversation_id,
            pending_before@,
            consumed,
            elapsed_ms,
        ),
{
    let timed_out = consumed.is_none();
    let timeout_streak: u8 = streaks.update_timeout_streak(conversation_id, timed_out);
    let halt_required = timed_out && timeout_streak >= WAIT_TIMEOUT_STREAK_HALT_THRESHOLD;
    let mut target_events: Vec<WaitTargetEvent> = Vec::new();
    let mut messages: Vec<InboxMessage> = Vec::new();
    let mut satisfied_targets: Vec<WaitTarget> = Vec::new();
    let mut matched_reply_to_message_id: Option<String> = None;
    let mut matched_expected_reply = false;
    let mut content: Option<String> = None;
    if let Some(message) = consumed {
        let receiver_thread_id = resolve_receiver_thread_id(
            names,
            message.sender_agent_name.as_str(),
            conversation_id,
        );
        if let Some(id) = &message.reply_to_message_id {
            if awaits(pending_before, id.as_str()) || inboxes.has_resolved_required_reply(
                receiver_thread_id,
                conversation_id,
                id.as_str(),
            ) {
                matched_expected_reply = true;
                matched_reply_to_message_id = Some(id.clone());
            }
        }
        let receiver_agent_name = match names.agent_name_for_thread(receiver_thread_id) {
            Some(name) => name,
            None => {
                let sender = trimmed(message.sender_agent_name.as_str());
                if sender.is_empty() {
                    receiver_thread_id.to_text()
                } else {
                    sender.to_string()
                }
            },
        };
        target_events.push(
            WaitTargetEvent {
                receiver_thread_id,
                receiver_agent_name,
                message_id: message.message_id.clone(),
                completed: true,
                callback_content: Some(message.content.clone()),
            },
        );
        satisfied_targets.push(
            WaitTarget {
                agent_name: message.sender_agent_name.clone(),
                message_id: message.message_id.clone(),
            },
        );
        content = Some(message.content.clone());
        messages.push(message);
        assert(messages@ =~= seq![message]);
    }
    let pending_reply_targets = look_at_pending(inboxes, names, conversation_id);
    let stale_or_unrelated_message = !timed_out && pending_reply_targets.len() > 0
        && !matched_expected_reply;
    let stale_reply_warning = if stale_or_unrelated_message {
        Some(stale_warning(&pending_reply_targets))
    } else {
        None
    };
    let suggestion = if stale_or_unrelated_message {
        Some(stale_warning(&pending_reply_targets))
    } else if timed_out {
        Some(timeout_suggestion(elapsed_ms, timeout_streak, halt_required))
    } else {
        None
    };
    WaitFinished {
        result: WaitResult {
            timed_out,
            timeout_streak,
            halt_required,
            elapsed_ms,
            satisfied_targets,
            pending_reply_targets,
            matched_expected_reply,
            stale_or_unrelated_message,
            matched_reply_to_message_id,
            stale_reply_warning,
            messages,
            suggestion,
        },
        target_events,
        content,
    }
}

// ---------------------------------------------------------------------------
// Laws
// ---------------------------------------------------------------------------

/// Five waits in a row without a message oblige the agent to stop waiting; a
/// wait that a message ends starts the count anew.
pub proof fn law_halt_after_five_timeouts(m: Map<u128, u8>, thread: ThreadId)
    requires
        streak_of(m, thread) == 0,
    ensures
        ({
            let once = |x: Map<u128, u8>| x.insert(thread.value, longer_streak(streak_of(x, thread)));
            let four = once(once(once(once(m))));
            &&& streak_of(four, thread) < WAIT_TIMEOUT_STREAK_HALT_THRESHOLD
            &&& streak_of(once(four), thread) >= WAIT_TIMEOUT_STREAK_HALT_THRESHOLD
            &&& streak_of(four.remove(thread.value), thread) == 0
        }),
{
}

/// A wait lasts between a millisecond and an hour.
pub proof fn law_wait_limit_is_bounded(args: WaitArgs)
    ensures
        wait_limit(args) matches Ok(ms) ==> 0 < ms <= MAX_WAIT_TIMEOUT_MS,
{
}

/// A wait lasts as long as is asked for, but no more than an hour; one for somebody
/// lasts seven minutes where nothing is asked for.
pub proof fn law_waits_last_as_asked(
    r: Result<WaitPlan, FunctionCallError>,
    args: WaitArgs,
    names: AgentNames,
    conversation: ThreadId,
    call_id: Seq<char>,
)
    requires
        plans_wait(r, args, names, conversation, call_id),
    ensures
        r matches Ok(plan) ==> match args.timeout_ms {
            Some(ms) => 0 < ms && (ms <= 3600000 ==> plan.timeout_ms == ms) && (ms > 3600000
                ==> plan.timeout_ms == 3600000),
            None => plan.timeout_ms == 420000 && plan.target is Some,
        },
{
}

/// A wait is planned just where it says for how long, or for whom; a time is more
/// than nothing; and whoever it is for is named, is not the waiting agent itself,
/// and is an agent if the name has a hyphen, as those of agents do.
pub proof fn law_what_waits_are_planned(
    r: Result<WaitPlan, FunctionCallError>,
    args: WaitArgs,
    names: AgentNames,
    conversation: ThreadId,
    call_id: Seq<char>,
)
    requires
        plans_wait(r, args, names, conversation, call_id),
    ensures
        ({
            let target: Option<Seq<char>> = if args.target_id is Some {
                Some(trim(args.target_id->0@))
            } else if args.target_agent_id is Some {
                Some(trim(args.target_agent_id->0@))
            } else {
                None
            };
            let thread: Option<ThreadId> = match target {
                Some(t) => if names.thread_of(t) is Some {
                    names.thread_of(t)
                } else {
                    thread_named(t)
                },
                None => None,
            };
            &&& r is Ok <==> {
                &&& match args.timeout_ms {
                    Some(ms) => ms > 0,
                    None => target is Some,
                }
                &&& target matches Some(t) ==> t.len() > 0
                &&& thread != Some(conversation)
                &&& target matches Some(t) ==> thread is Some || !t.contains('-')
            }
            &&& r matches Ok(plan) ==> (plan.target is Some == target is Some)
                && plan.sender_agent_name@ == names.called(conversation)
            &&& r matches Ok(plan) ==> (plan.target matches Some(p) ==> match thread {
                Some(th) => p.sender_filter@ == names.called(th) && p.notice is Some
                    && p.notice->0.target.thread_id == th && p.notice->0.target.message_id@
                    == "wait-notice-"@ + call_id && p.notice->0.target.agent_id@ == target->0,
                None => p.sender_filter@ == target->0 && p.notice is None,
            })
        }),
{
}

/// A wait that a message ends reports just that message, starts the count of waits
/// in vain anew, and does not ask to stop. One in vain reports none, and asks to stop
/// from the fifth in a row on.
pub proof fn law_wait_reports_what_came(
    r: WaitFinished,
    streaks: Map<u128, u8>,
    streaks_after: Map<u128, u8>,
    m: Map<Seq<char>, InboxView>,
    m_after: Map<Seq<char>, InboxView>,
    names: AgentNames,
    conversation: ThreadId,
    pending_before: Seq<WaitTarget>,
    consumed: Option<InboxMessage>,
    elapsed_ms: i64,
)
    requires
        reports_wait(
            r,
            streaks,
            streaks_after,
            m,
            m_after,
            names,
            conversation,
            pending_before,
            consumed,
            elapsed_ms,
        ),
    ensures
        r.result.elapsed_ms == elapsed_ms,
        consumed matches Some(message) ==> {
            &&& !r.result.timed_out && r.result.timeout_streak == 0 && !r.result.halt_required
            &&& r.content is Some && r.content->0@ == message.content@
            &&& r.result.messages@ == seq![message]
            &&& r.result.satisfied_targets@.len() == 1
            &&& r.result.satisfied_targets@[0].agent_name@ == message.sender_agent_name@
            &&& r.result.satisfied_targets@[0].message_id@ == message.message_id@
            &&& r.target_events@.len() == 1 && r.target_events@[0].completed
            &&& r.target_events@[0].message_id@ == message.message_id@
            &&& opt_text(r.target_events@[0].callback_content) == Some(message.content@)
            &&& !streaks_after.contains_key(conversation.value)
            &&& r.result.suggestion is Some == r.result.stale_or_unrelated_message
        },
        consumed is None ==> {
            let before: int = if streaks.contains_key(conversation.value) {
                streaks[conversation.value] as int
            } else {
                0
            };
            &&& r.result.timed_out
            &&& r.result.timeout_streak == (if before < 255 {
                before + 1
            } else {
                255
            })
            &&& r.result.halt_required == (r.result.timeout_streak >= 5)
            &&& streaks_after.contains_key(conversation.value)
                && streaks_after[conversation.value] == r.result.timeout_streak
            &&& r.content is None && r.result.messages@.len() == 0
                && r.result.satisfied_targets@.len() == 0 && r.target_events@.len() == 0
            &&& !r.result.matched_expected_reply && !r.result.stale_or_unrelated_message
            &&& r.result.suggestion is Some
        },
        forall|t: u128|
            t != conversation.value ==> (#[trigger] streaks_after.contains_key(t)
                == streaks.contains_key(t)) && (streaks.contains_key(t) ==> streaks_after[t]
                == streaks[t]),
{
}

/// A message is taken for the expected reply just where it replies to a message that
/// was waited for, or to one whose reply its sender has given. Where replies are
/// still to come, any other message is reported as none of them.
pub proof fn law_replies_are_told_from_other_messages(
    r: WaitFinished,
    streaks: Map<u128, u8>,
    streaks_after: Map<u128, u8>,
    m: Map<Seq<char>, InboxView>,
    m_after: Map<Seq<char>, InboxView>,
    names: AgentNames,
    conversation: ThreadId,
    pending_before: Seq<WaitTarget>,
    message: InboxMessage,
    elapsed_ms: i64,
)
    requires
        reports_wait(
            r,
            streaks,
            streaks_after,
            m,
            m_after,
            names,
            conversation,
            pending_before,
            Some(message),
            elapsed_ms,
        ),
    ensures
        message.reply_to_message_id is None ==> !r.result.matched_expected_reply,
        message.reply_to_message_id matches Some(id) ==> {
            let sender: ThreadId = if names.thread_of(message.sender_agent_name@) is Some {
                names.thread_of(message.sender_agent_name@)->0
            } else if thread_named(message.sender_agent_name@) is Some {
                thread_named(message.sender_agent_name@)->0
            } else {
                conversation
            };
            r.result.matched_expected_reply <==> (exists|i: int|
                0 <= i < pending_before.len() && (#[trigger] pending_before[i]).message_id@ == id@)
                || has_replied(m, thread_text(sender), thread_text(conversation), id@)
        },
        r.result.matched_expected_reply ==> opt_text(r.result.matched_reply_to_message_id)
            == opt_text(message.reply_to_message_id),
        !r.result.matched_expected_reply ==> r.result.matched_reply_to_message_id is None,
        r.result.stale_or_unrelated_message <==> r.result.pending_reply_targets@.len() > 0
            && !r.result.matched_expected_reply,
        r.result.stale_reply_warning is Some <==> r.result.stale_or_unrelated_message,
{
}

/// Whether a message is from this sender; anybody will do where none is named.
pub open spec fn is_from(m: InboxMessage, sender: Option<Seq<char>>) -> bool {
    sender is None || m.sender_agent_name@ == sender->0
}

/// Whether an inbox holds a message from this sender.
pub open spec fn holds_from(
    m: Map<Seq<char>, InboxView>,
    id: Seq<char>,
    sender: Option<Seq<char>>,
) -> bool {
    exists|i: int| #[trigger] is_oldest_from(inbox_of(m, id).messages, sender, i)
}

/// Whether the `i`-th message is the oldest from this sender.
pub open spec fn is_oldest_from(
    messages: Seq<InboxMessage>,
    sender: Option<Seq<char>>,
    i: int,
) -> bool {
    &&& 0 <= i < messages.len()
    &&& is_from(messages[i], sender)
    &&& forall|j: int| 0 <= j < i ==> !is_from(#[trigger] messages[j], sender)
}

/// The inbox that a poll looks into: that of the waiting thread; where it holds
/// nothing and the wait is for somebody who is not an agent, the one under their id.
pub open spec fn taken_from(
    m: Map<Seq<char>, InboxView>,
    id: Seq<char>,
    sender: Option<Seq<char>>,
    logical: bool,
) -> Seq<char> {
    if logical && sender is Some && !holds_from(m, id, sender) {
        sender->0
    } else {
        id
    }
}

proof fn lemma_oldest_from(messages: Seq<InboxMessage>, sender: Option<Seq<char>>, k: int) -> (i: int)
    requires
        0 <= k < messages.len(),
        is_from(messages[k], sender),
    ensures
        is_oldest_from(messages, sender, i),
    decreases k,
{
    if exists|j: int| 0 <= j < k && is_from(#[trigger] messages[j], sender) {
        let j = choose|j: int| 0 <= j < k && is_from(#[trigger] messages[j], sender);
        lemma_oldest_from(messages, sender, j)
    } else {
        k
    }
}

/// A poll takes the oldest message of the inbox of the waiting thread that it waits
/// for: of anybody, or of the one it waits for. Where there is none, and it waits for
/// somebody who is not an agent, it takes the oldest they left in the inbox under
/// their own id. No other message is lost.
pub proof fn law_polls_take_the_oldest(
    before: Map<Seq<char>, InboxView>,
    after: Map<Seq<char>, InboxView>,
    id: Seq<char>,
    sender: Option<Seq<char>>,
    logical: bool,
    r: Option<InboxMessage>,
)
    requires
        polled(before, after, id, sender, logical, r),
    ensures
        holds_from(before, id, sender) ==> r is Some,
        r matches Some(message) ==> is_from(message, sender) && exists|i: int|
            is_oldest_from(inbox_of(before, taken_from(before, id, sender, logical)).messages, sender, i)
                && (#[trigger] inbox_of(
                before,
                taken_from(before, id, sender, logical),
            ).messages[i]) == message && inbox_of(
                after,
                taken_from(before, id, sender, logical),
            ).messages == inbox_of(
                before,
                taken_from(before, id, sender, logical),
            ).messages.remove(i),
        r is None ==> !holds_from(before, taken_from(before, id, sender, logical), sender)
            && inbox_of(after, taken_from(before, id, sender, logical)).messages == inbox_of(
            before,
            taken_from(before, id, sender, logical),
        ).messages,
        forall|x: Seq<char>|
            x != taken_from(before, id, sender, logical) ==> (#[trigger] inbox_of(after, x)).messages
                == inbox_of(before, x).messages,
{
    let own = inbox_of(before, id).messages;
    assert(holds_from(before, id, sender) == has_wanted(before, id, sender)) by {
        if holds_from(before, id, sender) {
            let i = choose|i: int| #[trigger] is_oldest_from(own, sender, i);
            assert(wanted(inbox_of(before, id).messages[i], sender));
        }
        if has_wanted(before, id, sender) {
            let i = choose|i: int|
                0 <= i < inbox_of(before, id).messages.len() && wanted(
                    #[trigger] inbox_of(before, id).messages[i],
                    sender,
                );
            let k = lemma_oldest_from(own, sender, i);
        }
    }
    let from = taken_from(before, id, sender, logical);
    let base = if logical && sender is Some && !holds_from(before, id, sender) {
        with_inbox(before, id)
    } else {
        before
    };
    let held = inbox_of(before, from).messages;
    assert(inbox_of(base, from) == inbox_of(before, from));
    assert(popped(base, after, from, sender, r));
    assert forall|x: Seq<char>| x != from implies (#[trigger] inbox_of(after, x)).messages
        == inbox_of(before, x).messages by {
        assert(inbox_of(base, x).messages == inbox_of(before, x).messages);
    }
    if let Some(message) = r {
        let i = choose|i: int| #[trigger]
            first_wanted(held, sender, i) && message == held[i] && after == base.insert(
                from,
                InboxView { messages: held.remove(i), ..inbox_of(base, from) },
            );
        assert forall|j: int| 0 <= j < i implies !is_from(#[trigger] held[j], sender) by {
            assert(!wanted(held[j], sender));
        }
        assert(is_oldest_from(held, sender, i));
        assert(held[i] == message);
    } else {
        assert forall|i: int| !(#[trigger] is_oldest_from(held, sender, i)) by {
            if is_oldest_from(held, sender, i) {
                assert(wanted(held[i], sender));
            }
        }
        if holds_from(before, id, sender) {
            assert(has_wanted(before, id, sender));
            let i = choose|i: int|
                0 <= i < inbox_of(before, id).messages.len() && wanted(
                    #[trigger] inbox_of(before, id).messages[i],
                    sender,
                );
            assert(!wanted(held[i], sender));
        }
    }
}

/// A wait reaches out where it names somebody; the newer name of the argument counts
/// before the older one. It is for somebody who is no agent where nobody is to be told.
pub proof fn law_waits_reach_out_to_whom_they_name(args: WaitArgs, plan: WaitPlan)
    ensures
        args.target_id matches Some(id) ==> (reaches_out(args) <==> trim(id@).len() > 0),
        args.target_id is None ==> match args.target_agent_id {
            Some(id) => reaches_out(args) <==> trim(id@).len() > 0,
            None => !reaches_out(args),
        },
        is_for_somebody_else(plan) <==> plan.target is Some && plan.target->0.notice is None,
{
}

/// A notice names the wait it is for, who waits, and from which thread.
pub proof fn law_notices_say_who_waits(call_id: Seq<char>, sender: Seq<char>, thread: ThreadId)
    ensures
        notice_id(call_id) == "wait-notice-"@ + call_id,
        crate::text::begins(
            notice_text(sender, thread),
            "[WAIT NOTICE] "@ + sender + " ("@ + thread_text(thread)
                + ") is currently waiting for your result."@,
        ),
{
    reveal_strlit(") is currently waiting for your result.");
    reveal_strlit(
        ") is currently waiting for your result. Please return your result as soon as possible using `call` with the appropriate `reply_to_message_id` if this wait is for a delegated request.",
    );
    let h = "[WAIT NOTICE] "@ + sender + " ("@ + thread_text(thread)
        + ") is currently waiting for your result."@;
    assert(notice_text(sender, thread).subrange(0, h.len() as int) =~= h);
}

/// Waits in vain are counted for each thread on its own; a message starts the count
/// anew.
pub proof fn law_waits_in_vain_are_counted(
    r: u8,
    before: Map<u128, u8>,
    after: Map<u128, u8>,
    thread: ThreadId,
    timed_out: bool,
    other: ThreadId,
)
    requires
        counts_wait(r, before, after, thread, timed_out),
    ensures
        !timed_out ==> r == 0 && streak_of(after, thread) == 0,
        timed_out && streak_of(before, thread) < 255 ==> r == streak_of(before, thread) + 1,
        streak_of(after, thread) == r,
        other.value != thread.value ==> streak_of(after, other) == streak_of(before, other),
{
}

/// A wait is for the agent of that name, or else of that identity; another name is
/// somebody's who is no agent, unless it has a hyphen.
pub proof fn law_waits_find_whom_they_are_for(
    r: Result<Option<ThreadId>, FunctionCallError>,
    names: AgentNames,
    target: Seq<char>,
)
    requires
        finds_target(r, names, target),
    ensures
        names.thread_of(target) is Some ==> r is Ok && r->Ok_0 == names.thread_of(target),
        names.thread_of(target) is None && thread_named(target) is Some ==> r is Ok && r->Ok_0
            == thread_named(target),
        names.thread_of(target) is None && thread_named(target) is None ==> (r is Err
            <==> target.contains('-')) && (r is Ok ==> r->Ok_0 is None),
{
}

/// A notice lies last in the inbox of whom it is for, from whom waits; it asks for no
/// reply, and nobody else gets it.
pub proof fn law_notices_reach_whom_is_waited_for(
    before: Map<Seq<char>, InboxView>,
    after: Map<Seq<char>, InboxView>,
    sender_agent_name: Seq<char>,
    notice: WaitNotice,
    other: Seq<char>,
)
    requires
        leaves_notice(before, after, sender_agent_name, notice),
    ensures
        ({
            let got = inbox_of(after, thread_text(notice.target.thread_id)).messages;
            &&& got.len() > 0
            &&& got.last().sender_agent_name@ == sender_agent_name
            &&& got.last().message_id@ == notice.target.message_id@
            &&& got.last().content@ == notice.content@
            &&& !got.last().need_reply && got.last().reply_to_message_id is None
        }),
        other != thread_text(notice.target.thread_id) ==> inbox_of(after, other) == inbox_of(
            before,
            other,
        ),
{
}

/// A poll that finds nothing ends the wait where no time is left, and else sleeps for
/// the time that is; one that finds a message does neither.
pub proof fn law_polls_go_on_while_time_is_left(
    r: WaitPoll,
    before: Map<Seq<char>, InboxView>,
    after: Map<Seq<char>, InboxView>,
    id: Seq<char>,
    sender: Option<Seq<char>>,
    logical: bool,
    remaining_ms: u64,
)
    requires
        polls(r, before, after, id, sender, logical, remaining_ms),
    ensures
        holds_from(before, id, sender) ==> r is Message,
        !(r is Message) && remaining_ms == 0 ==> r is TimedOut,
        !(r is Message) && remaining_ms > 0 ==> (r matches WaitPoll::Sleep(ms) && ms
            == remaining_ms),
        r matches WaitPoll::Message(m) ==> is_from(m, sender),
{
    match r {
        WaitPoll::Message(m) => {
            law_polls_take_the_oldest(before, after, id, sender, logical, Some(m));
        },
        _ => {
            law_polls_take_the_oldest(before, after, id, sender, logical, None);
        },
    }
}

/// What a thread waits for is what others owe it and have not given; each is named by
/// its message. Once a wait is opened, all of it counts as seen.
pub proof fn law_waits_are_for_what_is_owed(
    r: Seq<WaitTarget>,
    before: Map<Seq<char>, InboxView>,
    after: Map<Seq<char>, InboxView>,
    names: AgentNames,
    conversation: ThreadId,
    x: Seq<char>,
    y: Seq<char>,
)
    requires
        begins_wait(r, before, after, names, conversation),
        has_obligation(before, x, y),
    ensures
        ({
            let o = obligation(before, x, y);
            let p = obligation(after, x, y);
            &&& trim(o.source_inbox_id@) == thread_text(conversation) && !o.resolved ==> exists|
                i: int,
            | 0 <= i < r.len() && (#[trigger] r[i]).message_id@ == o.message_id@
            &&& has_obligation(after, x, y)
            &&& r.len() > 0 && o.source_thread_id == conversation && !o.resolved
                ==> p.observed_by_source_wait
            &&& o.source_thread_id != conversation || o.resolved ==> p == o
        }),
        inbox_of(after, x).messages == inbox_of(before, x).messages,
{
    let (keys, id) = choose|keys: Seq<ReplyKey>, id: String|
        id@ == thread_text(conversation) && #[trigger] listed(
            before,
            ReplyFilter::UnresolvedFrom(id),
            keys,
        ) && awaited_at(before, names, keys, r);
    let o = obligation(before, x, y);
    if trim(o.source_inbox_id@) == thread_text(conversation) && !o.resolved {
        assert(chosen(
            before,
            ReplyFilter::UnresolvedFrom(id),
            (x, y),
        ));
        assert(keys.contains((x, y)));
        let i = keys.index_of((x, y));
        assert(r[i].message_id@ == o.message_id@);
    }
}

/// The end of a wait is told under the thread and the name of the sender: those that
/// the name stands for, or else the sender's own name under the waiting thread.
pub proof fn law_waits_end_under_the_sender(
    r: WaitFinished,
    streaks: Map<u128, u8>,
    streaks_after: Map<u128, u8>,
    m: Map<Seq<char>, InboxView>,
    m_after: Map<Seq<char>, InboxView>,
    names: AgentNames,
    conversation: ThreadId,
    pending_before: Seq<WaitTarget>,
    message: InboxMessage,
    elapsed_ms: i64,
)
    requires
        reports_wait(
            r,
            streaks,
            streaks_after,
            m,
            m_after,
            names,
            conversation,
            pending_before,
            Some(message),
            elapsed_ms,
        ),
    ensures
        ({
            let e = r.target_events@[0];
            let s = message.sender_agent_name@;
            &&& names.thread_of(s) matches Some(t) ==> e.receiver_thread_id == t
            &&& names.thread_of(s) is None && thread_named(s) is Some ==> e.receiver_thread_id
                == thread_named(s)->0
            &&& names.thread_of(s) is None && thread_named(s) is None ==> e.receiver_thread_id
                == conversation
            &&& names.name_of(e.receiver_thread_id) matches Some(n) ==> e.receiver_agent_name@ == n
            &&& names.name_of(e.receiver_thread_id) is None && trim(s).len() > 0
                ==> e.receiver_agent_name@ == trim(s)
        }),
{
}

} // verus!
