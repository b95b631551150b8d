//! Inboxes of the collaborating agents, and the replies they owe.
//!
//! Each inbox has a queue of messages and the obligations to reply that other
//! parties have registered with it. An inbox comes into being, empty, the first
//! time it is addressed.
use crate::ids::{thread_named, thread_text, ThreadId};
use crate::paths::{join_paths, path_join};
use crate::table::{lemma_push_contains, Table};
use crate::text::{
    is_less, lemma_text_less_transitive, opt_str, opt_text, same_text, text_less, trim, trimmed,
};
use vstd::prelude::*;

verus! {

/// Upper bound on the messages an inbox keeps; the oldest leave first.
pub const MAX_MESSAGES_PER_THREAD: usize = 2048;

/// Where the inbox store lies in the home directory of the program.
pub const COLLAB_INBOX_STORE_SUBPATH: &'static str = "office/collab_inbox.json";

#[derive(Debug, Clone, PartialEq, Eq)]
pub struct InboxMessage {
    pub seq: u64,
    pub sender_agent_name: String,
    pub message_id: String,
    pub need_reply: bool,
    pub reply_to_message_id: Option<String>,
    pub content: String,
}

#[derive(Debug, Clone, PartialEq, Eq)]
pub struct RequiredReplyObligation {
    pub source_agent_name: String,
    pub source_thread_id: ThreadId,
    pub source_inbox_id: String,
    pub message_id: String,
    pub content: String,
    pub first_seen_seq: u64,
    pub reminder_count: u8,
    pub observed_by_source_wait: bool,
    pub resolved: bool,
}

#[derive(Debug, Clone, PartialEq, Eq)]
pub struct PendingRequiredReplyObligation {
    pub receiver_inbox_id: String,
    pub receiver_thread_id: Option<ThreadId>,
    pub obligation: RequiredReplyObligation,
}

/// One inbox.
#[derive(Clone, Debug)]
pub struct InboxState {
    pub next_seq: u64,
    pub messages: Vec<InboxMessage>,
    pub required_reply_next_seq: u64,
    pub required_reply_obligations: Table<RequiredReplyObligation>,
}

/// What is written to and read from the inbox store. Inboxes under `by_thread`
/// come from an older layout and yield to those under `by_inbox`.
#[derive(Clone, Debug)]
pub struct InboxRuntimeSnapshot {
    pub by_inbox: Table<InboxState>,
    pub by_thread: Table<InboxState>,
}

/// All inboxes.
#[derive(Debug)]
pub struct InboxRuntime {
    by_inbox: Table<InboxState>,
}

// ---------------------------------------------------------------------------
// Models
// ---------------------------------------------------------------------------

/// The content of an inbox.
#[verifier::ext_equal]
pub struct InboxView {
    pub next_seq: u64,
    pub messages: Seq<InboxMessage>,
    pub reply_seq: u64,
    pub obligations: Map<Seq<char>, RequiredReplyObligation>,
}

impl View for InboxState {
    type V = InboxView;

    open spec fn view(&self) -> InboxView {
        InboxView {
            next_seq: self.next_seq,
            messages: self.messages@,
            reply_seq: self.required_reply_next_seq,
            obligations: self.required_reply_obligations@,
        }
    }
}

pub open spec fn inbox_views(t: Table<InboxState>) -> Map<Seq<char>, InboxView> {
    t@.map_values(|s: InboxState| s@)
}

impl View for InboxRuntime {
    type V = Map<Seq<char>, InboxView>;

    closed spec fn view(&self) -> Map<Seq<char>, InboxView> {
        inbox_views(self.by_inbox)
    }
}

/// An inbox that nothing has been put in.
pub open spec fn empty_inbox() -> InboxView {
    InboxView { next_seq: 0, messages: Seq::empty(), reply_seq: 0, obligations: Map::empty() }
}

/// The inbox `id`, empty where it has not been addressed yet.
pub open spec fn inbox_of(m: Map<Seq<char>, InboxView>, id: Seq<char>) -> InboxView {
    if m.contains_key(id) {
        m[id]
    } else {
        empty_inbox()
    }
}

/// All inboxes, `id` among them.
pub open spec fn with_inbox(m: Map<Seq<char>, InboxView>, id: Seq<char>) -> Map<
    Seq<char>,
    InboxView,
> {
    m.insert(id, inbox_of(m, id))
}

/// The number that follows `n`; the greatest number is followed by itself.
pub open spec fn next_number(n: u64) -> u64 {
    if n == u64::MAX {
        n
    } else {
        (n + 1) as u64
    }
}

/// The last `n` items of `s`.
pub open spec fn keep_last<T>(s: Seq<T>, n: nat) -> Seq<T> {
    if s.len() > n {
        s.skip(s.len() - n)
    } else {
        s
    }
}

/// The inbox after `message` has arrived under the next number.
pub open spec fn delivered(inbox: InboxView, message: InboxMessage) -> InboxView {
    InboxView {
        next_seq: next_number(inbox.next_seq),
        messages: keep_last(inbox.messages.push(message), MAX_MESSAGES_PER_THREAD as nat),
        ..inbox
    }
}

/// Which messages a reader of an inbox takes: any, or those of one sender.
pub open spec fn wanted(message: InboxMessage, sender: Option<Seq<char>>) -> bool {
    match sender {
        Some(name) => message.sender_agent_name@ == name,
        None => true,
    }
}

/// The place of the oldest message that is wanted.
pub open spec fn first_wanted(messages: Seq<InboxMessage>, sender: Option<Seq<char>>, i: int) -> bool {
    &&& 0 <= i < messages.len()
    &&& wanted(messages[i], sender)
    &&& forall|j: int| 0 <= j < i ==> !wanted(#[trigger] messages[j], sender)
}

/// Whether the inbox `id` owes a reply to the message `message_id`, fulfilled
/// or not.
pub open spec fn has_obligation(
    m: Map<Seq<char>, InboxView>,
    id: Seq<char>,
    message_id: Seq<char>,
) -> bool {
    m.contains_key(id) && m[id].obligations.contains_key(message_id)
}

pub open spec fn obligation(
    m: Map<Seq<char>, InboxView>,
    id: Seq<char>,
    message_id: Seq<char>,
) -> RequiredReplyObligation {
    m[id].obligations[message_id]
}

/// The inboxes after the obligation `message_id` of the inbox `id` became `o`.
pub open spec fn with_obligation(
    m: Map<Seq<char>, InboxView>,
    id: Seq<char>,
    message_id: Seq<char>,
    o: RequiredReplyObligation,
) -> Map<Seq<char>, InboxView> {
    m.insert(
        id,
        InboxView { obligations: inbox_of(m, id).obligations.insert(message_id, o), ..inbox_of(m, id) },
    )
}

pub open spec fn fulfilled(o: RequiredReplyObligation) -> RequiredReplyObligation {
    RequiredReplyObligation { resolved: true, ..o }
}

pub open spec fn reminded(o: RequiredReplyObligation) -> RequiredReplyObligation {
    RequiredReplyObligation { reminder_count: (o.reminder_count + 1) as u8, ..o }
}

pub open spec fn observed(o: RequiredReplyObligation) -> RequiredReplyObligation {
    RequiredReplyObligation { observed_by_source_wait: true, ..o }
}

/// Whether the inbox `id` owes `source` a reply to `message_id` and has not
/// given it.
pub open spec fn owes_reply(
    m: Map<Seq<char>, InboxView>,
    id: Seq<char>,
    source: Seq<char>,
    message_id: Seq<char>,
) -> bool {
    &&& has_obligation(m, id, message_id)
    &&& trim(obligation(m, id, message_id).source_inbox_id@) == source
    &&& !obligation(m, id, message_id).resolved
}

/// Which obligations an operation is about.
#[derive(Debug, Clone)]
pub enum ReplyFilter {
    /// Those of one inbox that are not fulfilled.
    UnresolvedAt(String),
    /// Those registered from one inbox that are not fulfilled.
    UnresolvedFrom(String),
    /// Those registered by one thread that may still be reminded of.
    RemindFrom(ThreadId, u8),
    /// Those of one inbox that may still be reminded of.
    RemindAt(String, u8),
    /// Those of one inbox that may still be reminded of and that no wait has seen.
    RemindUnobservedAt(String, u8),
    /// Those registered by one thread that no wait has seen.
    UnobservedFrom(ThreadId),
    /// All those registered by one thread.
    RegisteredBy(ThreadId),
}

pub open spec fn selects(f: ReplyFilter, inbox: Seq<char>, o: RequiredReplyObligation) -> bool {
    match f {
        ReplyFilter::UnresolvedAt(id) => inbox == id@ && !o.resolved,
        ReplyFilter::UnresolvedFrom(source) => trim(o.source_inbox_id@) == source@ && !o.resolved,
        ReplyFilter::RemindFrom(thread, max) => o.source_thread_id == thread && !o.resolved
            && !o.observed_by_source_wait && o.reminder_count < max,
        ReplyFilter::RemindAt(id, max) => inbox == id@ && !o.resolved && o.reminder_count < max,
        ReplyFilter::RemindUnobservedAt(id, max) => inbox == id@ && !o.resolved
            && !o.observed_by_source_wait && o.reminder_count < max,
        ReplyFilter::UnobservedFrom(thread) => o.source_thread_id == thread && !o.resolved
            && !o.observed_by_source_wait,
        ReplyFilter::RegisteredBy(thread) => o.source_thread_id == thread,
    }
}

/// An obligation, named by its inbox and its place there.
pub type ReplyKey = (Seq<char>, Seq<char>);

/// Whether the filter selects the obligation under this key.
pub open spec fn chosen(m: Map<Seq<char>, InboxView>, f: ReplyFilter, key: ReplyKey) -> bool {
    has_obligation(m, key.0, key.1) && selects(f, key.0, obligation(m, key.0, key.1))
}

/// The message id by which an obligation is put in order: what it records where
/// the unfulfilled ones are listed, its key where reminders are handed out.
pub open spec fn order_id(f: ReplyFilter, key: ReplyKey, o: RequiredReplyObligation) -> Seq<char> {
    match f {
        ReplyFilter::UnresolvedAt(_) => o.message_id@,
        ReplyFilter::UnresolvedFrom(_) => o.message_id@,
        _ => key.1,
    }
}

/// The order of (registration number, message id, inbox).
pub open spec fn earlier(
    seq_a: u64,
    id_a: Seq<char>,
    inbox_a: Seq<char>,
    seq_b: u64,
    id_b: Seq<char>,
    inbox_b: Seq<char>,
) -> bool {
    ||| seq_a < seq_b
    ||| seq_a == seq_b && text_less(id_a, id_b)
    ||| seq_a == seq_b && id_a == id_b && text_less(inbox_a, inbox_b)
}

pub open spec fn key_before(
    m: Map<Seq<char>, InboxView>,
    f: ReplyFilter,
    a: ReplyKey,
    b: ReplyKey,
) -> bool {
    let oa = obligation(m, a.0, a.1);
    let ob = obligation(m, b.0, b.1);
    earlier(
        oa.first_seen_seq,
        order_id(f, a, oa),
        a.0,
        ob.first_seen_seq,
        order_id(f, b, ob),
        b.0,
    )
}

/// `keys` names each obligation the filter selects once, in order: first by the
/// number under which it was registered, then by message id, then by inbox.
pub open spec fn listed(
    m: Map<Seq<char>, InboxView>,
    f: ReplyFilter,
    keys: Seq<ReplyKey>,
) -> bool {
    &&& keys.no_duplicates()
    &&& forall|key: ReplyKey| #[trigger] keys.contains(key) <==> chosen(m, f, key)
    &&& forall|i: int, j: int|
        0 <= i < j < keys.len() ==> !key_before(m, f, #[trigger] keys[j], #[trigger] keys[i])
}

/// The inboxes after every obligation among `done` was changed by `step`.
pub open spec fn changed(
    m: Map<Seq<char>, InboxView>,
    done: spec_fn(ReplyKey) -> bool,
    step: spec_fn(RequiredReplyObligation) -> RequiredReplyObligation,
) -> Map<Seq<char>, InboxView> {
    Map::new(
        |id: Seq<char>| m.contains_key(id),
        |id: Seq<char>|
            InboxView {
                obligations: Map::new(
                    |x: Seq<char>| m[id].obligations.contains_key(x),
                    |x: Seq<char>|
                        if done((id, x)) {
                            step(m[id].obligations[x])
                        } else {
                            m[id].obligations[x]
                        },
                ),
                ..m[id]
            },
    )
}

/// The inboxes without the obligations among `gone`.
pub open spec fn without(
    m: Map<Seq<char>, InboxView>,
    gone: spec_fn(ReplyKey) -> bool,
) -> Map<Seq<char>, InboxView> {
    Map::new(
        |id: Seq<char>| m.contains_key(id),
        |id: Seq<char>|
            InboxView {
                obligations: Map::new(
                    |x: Seq<char>| m[id].obligations.contains_key(x) && !gone((id, x)),
                    |x: Seq<char>| m[id].obligations[x],
                ),
                ..m[id]
            },
    )
}

/// A listed obligation as it is handed out.
pub open spec fn pending_is(
    p: PendingRequiredReplyObligation,
    key: ReplyKey,
    o: RequiredReplyObligation,
) -> bool {
    &&& p.receiver_inbox_id@ == key.0
    &&& p.receiver_thread_id == thread_named(key.0)
    &&& p.obligation == o
}

/// Whether a message arrived in an inbox under the next number.
pub open spec fn arrives(
    before: Map<Seq<char>, InboxView>,
    after: Map<Seq<char>, InboxView>,
    id: Seq<char>,
    seq: u64,
    message: InboxMessage,
) -> bool {
    &&& seq == next_number(inbox_of(before, id).next_seq)
    &&& after == before.insert(id, delivered(inbox_of(before, id), message))
}

/// Whether a message that asks for no reply arrived in an inbox.
pub open spec fn arrives_unasked(
    before: Map<Seq<char>, InboxView>,
    after: Map<Seq<char>, InboxView>,
    id: Seq<char>,
    seq: u64,
    sender_agent_name: String,
    message_id: String,
    reply_to_message_id: Option<String>,
    content: String,
) -> bool {
    arrives(
        before,
        after,
        id,
        seq,
        InboxMessage {
            seq,
            sender_agent_name,
            message_id,
            need_reply: false,
            reply_to_message_id,
            content,
        },
    )
}

/// Whether the inbox `id` owes a reply to `message_id` that it has not given.
pub open spec fn still_owes(
    m: Map<Seq<char>, InboxView>,
    id: Seq<char>,
    message_id: Seq<char>,
) -> bool {
    has_obligation(m, id, message_id) && !obligation(m, id, message_id).resolved
}

/// Whether a reply that is owed has been given; `None` where none is owed.
pub open spec fn reply_state(
    m: Map<Seq<char>, InboxView>,
    id: Seq<char>,
    message_id: Seq<char>,
) -> Option<bool> {
    if has_obligation(m, id, message_id) {
        Some(obligation(m, id, message_id).resolved)
    } else {
        None
    }
}

/// Whether the reply to a message was marked as given where it was owed, to `source`
/// or, without one, to whomever.
pub open spec fn resolves(
    r: bool,
    before: Map<Seq<char>, InboxView>,
    after: Map<Seq<char>, InboxView>,
    id: Seq<char>,
    source: Option<Seq<char>>,
    message_id: Seq<char>,
) -> bool {
    &&& r == (match source {
        Some(s) => owes_reply(before, id, s, message_id),
        None => still_owes(before, id, message_id),
    })
    &&& after == (if r {
        with_obligation(before, id, message_id, fulfilled(obligation(before, id, message_id)))
    } else {
        with_inbox(before, id)
    })
}

// ---------------------------------------------------------------------------
// Copies and small helpers
// ---------------------------------------------------------------------------

impl InboxMessage {
    pub fn copy(&self) -> (r: InboxMessage)
        ensures
            r == *self,
    {
        InboxMessage {
            seq: self.seq,
            sender_agent_name: self.sender_agent_name.clone(),
            message_id: self.message_id.clone(),
            need_reply: self.need_reply,
            reply_to_message_id: match &self.reply_to_message_id {
                Some(id) => Some(id.clone()),
                None => None,
            },
            content: self.content.clone(),
        }
    }
}

impl RequiredReplyObligation {
    pub fn copy(&self) -> (r: RequiredReplyObligation)
        ensures
            r == *self,
    {
        RequiredReplyObligation {
            source_agent_name: self.source_agent_name.clone(),
            source_thread_id: self.source_thread_id,
            source_inbox_id: self.source_inbox_id.clone(),
            message_id: self.message_id.clone(),
            content: self.content.clone(),
            first_seen_seq: self.first_seen_seq,
            reminder_count: self.reminder_count,
            observed_by_source_wait: self.observed_by_source_wait,
            resolved: self.resolved,
        }
    }
}

/// A copy of a list of messages.
pub fn copy_messages(messages: &Vec<InboxMessage>) -> (r: Vec<InboxMessage>)
    ensures
        r@ == messages@,
{
    let mut out: Vec<InboxMessage> = Vec::new();
    let mut i: usize = 0;
    while i < messages.len()
        invariant
            i <= messages@.len(),
            out@ == messages@.take(i as int),
        decreases messages@.len() - i,
    {
        out.push(messages[i].copy());
        i = i + 1;
        assert(messages@.take(i as int) =~= messages@.take(i - 1).push(messages@[i - 1]));
    }
    assert(messages@.take(i as int) =~= messages@);
    out
}

fn copy_obligations(t: &Table<RequiredReplyObligation>) -> (r: Table<RequiredReplyObligation>)
    ensures
        r@ == t@,
{
    let mut out: Table<RequiredReplyObligation> = Table::new();
    let n: usize = t.len();
    let mut i: usize = 0;
    while i < n
        invariant
            n == t.keys().len(),
            i <= n,
            forall|k: Seq<char>| t@.contains_key(k) <==> #[trigger] t.keys().contains(k),
            forall|k: Seq<char>| #[trigger]
                out@.contains_key(k) <==> t.keys().take(i as int).contains(k),
            forall|k: Seq<char>| #[trigger] out@.contains_key(k) ==> out@[k] == t@[k],
        decreases n - i,
    {
        let key = t.key(i).clone();
        let value = t.value(i).copy();
        let ghost k0 = t.keys()[i as int];
        let ghost before = out@;
        out.insert(key, value);
        proof {
            let done = t.keys().take(i as int);
            assert(t.keys().take(i + 1) =~= done.push(k0));
            assert forall|k: Seq<char>| #[trigger] out@.contains_key(k) <==> done.push(
                k0,
            ).contains(k) by {
                if done.contains(k) {
                    let j = choose|j: int| 0 <= j < done.len() && done[j] == k;
                    assert(done.push(k0)[j] == k);
                }
                if k == k0 {
                    assert(done.push(k0)[done.len() as int] == k);
                }
            }
        }
        i = i + 1;
    }
    proof {
        assert(t.keys().take(n as int) =~= t.keys());
        assert(out@ =~= t@);
    }
    out
}

impl Default for InboxState {
    fn default() -> (r: InboxState)
        ensures
            r@ == empty_inbox(),
    {
        InboxState::empty()
    }
}

impl InboxState {
    /// An inbox that nothing has been put in.
    pub fn empty() -> (r: InboxState)
        ensures
            r@ == empty_inbox(),
    {
        InboxState {
            next_seq: 0,
            messages: Vec::new(),
            required_reply_next_seq: 0,
            required_reply_obligations: Table::new(),
        }
    }

    pub fn copy(&self) -> (r: InboxState)
        ensures
            r@ == self@,
    {
        InboxState {
            next_seq: self.next_seq,
            messages: copy_messages(&self.messages),
            required_reply_next_seq: self.required_reply_next_seq,
            required_reply_obligations: copy_obligations(&self.required_reply_obligations),
        }
    }
}

impl ReplyFilter {
    fn accepts(&self, inbox: &str, o: &RequiredReplyObligation) -> (r: bool)
        ensures
            r == selects(*self, inbox@, *o),
    {
        match self {
            ReplyFilter::UnresolvedAt(id) => same_text(inbox, id.as_str()) && !o.resolved,
            ReplyFilter::UnresolvedFrom(source) => same_text(
                trimmed(o.source_inbox_id.as_str()),
                source.as_str(),
            ) && !o.resolved,
            ReplyFilter::RemindFrom(thread, max) => o.source_thread_id == *thread && !o.resolved
                && !o.observed_by_source_wait && o.reminder_count < *max,
            ReplyFilter::RemindAt(id, max) => same_text(inbox, id.as_str()) && !o.resolved
                && o.reminder_count < *max,
            ReplyFilter::RemindUnobservedAt(id, max) => same_text(inbox, id.as_str())
                && !o.resolved && !o.observed_by_source_wait && o.reminder_count < *max,
            ReplyFilter::UnobservedFrom(thread) => o.source_thread_id == *thread && !o.resolved
                && !o.observed_by_source_wait,
            ReplyFilter::RegisteredBy(thread) => o.source_thread_id == *thread,
        }
    }

    fn orders_by_record(&self) -> (r: bool)
        ensures
            r == (self is UnresolvedAt || self is UnresolvedFrom),
    {
        match self {
            ReplyFilter::UnresolvedAt(_) => true,
            ReplyFilter::UnresolvedFrom(_) => true,
            _ => false,
        }
    }
}

// ---------------------------------------------------------------------------
// Selecting obligations in order
// ---------------------------------------------------------------------------

/// A selected obligation with what it is ordered by.
struct Found {
    inbox: String,
    id: String,
    seq: u64,
    order: String,
}

spec fn found_key(f: Found) -> ReplyKey {
    (f.inbox@, f.id@)
}

spec fn found_keys(v: Seq<Found>) -> Seq<ReplyKey> {
    v.map_values(|f: Found| found_key(f))
}

spec fn found_before(a: Found, b: Found) -> bool {
    earlier(a.seq, a.order@, a.inbox@, b.seq, b.order@, b.inbox@)
}

spec fn found_sorted(v: Seq<Found>) -> bool {
    forall|i: int, j: int|
        0 <= i < j < v.len() ==> !found_before(#[trigger] v[j], #[trigger] v[i])
}

spec fn found_from(f: Found, filter: ReplyFilter, o: RequiredReplyObligation) -> bool {
    f.seq == o.first_seen_seq && f.order@ == order_id(filter, found_key(f), o)
}

proof fn lemma_found_before_transitive(a: Found, b: Found, c: Found)
    requires
        found_before(a, b),
        found_before(b, c),
    ensures
        found_before(a, c),
{
    if text_less(a.order@, b.order@) && text_less(b.order@, c.order@) {
        lemma_text_less_transitive(a.order@, b.order@, c.order@);
    }
    if text_less(a.inbox@, b.inbox@) && text_less(b.inbox@, c.inbox@) {
        lemma_text_less_transitive(a.inbox@, b.inbox@, c.inbox@);
    }
}

fn is_before(a: &Found, b: &Found) -> (r: bool)
    ensures
        r == found_before(*a, *b),
{
    if a.seq != b.seq {
        return a.seq < b.seq;
    }
    if !same_text(a.order.as_str(), b.order.as_str()) {
        return is_less(a.order.as_str(), b.order.as_str());
    }
    proof {
        crate::text::lemma_text_less_irreflexive(a.order@);
    }
    is_less(a.inbox.as_str(), b.inbox.as_str())
}

fn insert_found(v: &mut Vec<Found>, f: Found)
    requires
        found_sorted(old(v)@),
        !found_keys(old(v)@).contains(found_key(f)),
        found_keys(old(v)@).no_duplicates(),
    ensures
        found_sorted(final(v)@),
        found_keys(final(v)@).no_duplicates(),
        forall|key: ReplyKey| #[trigger]
            found_keys(final(v)@).contains(key) <==> found_keys(old(v)@).contains(key) || key
                == found_key(f),
        forall|i: int| 0 <= i < final(v)@.len() ==> #[trigger] final(v)@[i] == f || old(v)@.contains(
            final(v)@[i],
        ),
{
    let mut p: usize = 0;
    while p < v.len() && !is_before(&f, &v[p])
        invariant
            p <= v@.len(),
            v@ == old(v)@,
            forall|j: int| 0 <= j < p ==> !found_before(f, #[trigger] v@[j]),
        decreases v@.len() - p,
    {
        p = p + 1;
    }
    let ghost before = v@;
    v.insert(p, f);
    proof {
        let after = before.insert(p as int, f);
        assert(v@ =~= after);
        assert forall|i: int, j: int| 0 <= i < j < after.len() implies !found_before(
            #[trigger] after[j],
            #[trigger] after[i],
        ) by {
            if i == p {
                // after[j] comes from before[j - 1], at or behind before[p]
                if found_before(before[j - 1], f) {
                    lemma_found_before_transitive(before[j - 1], f, before[p as int]);
                    if j - 1 == p {
                        crate::text::lemma_text_less_irreflexive(before[p as int].order@);
                        crate::text::lemma_text_less_irreflexive(before[p as int].inbox@);
                    } else {
                        assert(!found_before(before[j - 1], before[p as int]));
                    }
                }
            } else if j == p {
                assert(after[i] == before[i]);
            } else {
                let a = if i < p { i } else { i - 1 };
                let b = if j < p { j } else { j - 1 };
                assert(after[i] == before[a] && after[j] == before[b]);
                assert(!found_before(before[b], before[a]));
            }
        }
        let ks = found_keys(before);
        let ks2 = found_keys(after);
        assert(ks2 =~= ks.insert(p as int, found_key(f)));
        assert forall|key: ReplyKey| #[trigger] ks2.contains(key) <==> ks.contains(key) || key
            == found_key(f) by {
            if ks.contains(key) {
                let j = choose|j: int| 0 <= j < ks.len() && ks[j] == key;
                if j < p {
                    assert(ks2[j] == key);
                } else {
                    assert(ks2[j + 1] == key);
                }
            }
            if key == found_key(f) {
                assert(ks2[p as int] == key);
            }
            if ks2.contains(key) {
                let j = choose|j: int| 0 <= j < ks2.len() && ks2[j] == key;
                if j < p {
                    assert(ks[j] == key);
                } else if j > p {
                    assert(ks[j - 1] == key);
                }
            }
        }
        assert forall|i: int, j: int| 0 <= i < ks2.len() && 0 <= j < ks2.len() && i != j implies
            ks2[i] != ks2[j] by {
            let a = if i < p { i } else { i - 1 };
            let b = if j < p { j } else { j - 1 };
            if i == p {
                assert(ks.contains(ks[b]));
                assert(ks2[j] == ks[b]);
            } else if j == p {
                assert(ks.contains(ks[a]));
                assert(ks2[i] == ks[a]);
            } else {
                assert(ks2[i] == ks[a] && ks2[j] == ks[b]);
            }
        }
        assert forall|i: int| 0 <= i < after.len() implies #[trigger] after[i] == f
            || before.contains(after[i]) by {
            if i < p {
                assert(before[i] == after[i]);
            } else if i > p {
                assert(before[i - 1] == after[i]);
            }
        }
    }
}

fn select_in(
    inbox: &String,
    state: &InboxState,
    filter: &ReplyFilter,
    v: &mut Vec<Found>,
    Ghost(m): Ghost<Map<Seq<char>, InboxView>>,
)
    requires
        m.contains_key(inbox@),
        m[inbox@] == state@,
        found_sorted(old(v)@),
        found_keys(old(v)@).no_duplicates(),
        forall|key: ReplyKey| #[trigger] found_keys(old(v)@).contains(key) ==> key.0 != inbox@,
        forall|i: int|
            0 <= i < old(v)@.len() ==> found_from(
                #[trigger] old(v)@[i],
                *filter,
                obligation(m, old(v)@[i].inbox@, old(v)@[i].id@),
            ),
    ensures
        found_sorted(final(v)@),
        found_keys(final(v)@).no_duplicates(),
        forall|key: ReplyKey| #[trigger]
            found_keys(final(v)@).contains(key) <==> found_keys(old(v)@).contains(key) || (key.0
                == inbox@ && chosen(m, *filter, key)),
        forall|i: int|
            0 <= i < final(v)@.len() ==> found_from(
                #[trigger] final(v)@[i],
                *filter,
                obligation(m, final(v)@[i].inbox@, final(v)@[i].id@),
            ),
{
    let t = &state.required_reply_obligations;
    let n: usize = t.len();
    let mut j: usize = 0;
    let ghost before = v@;
    while j < n
        invariant
            *t == state.required_reply_obligations,
            n == t.keys().len(),
            j <= n,
            t.keys().no_duplicates(),
            forall|k: Seq<char>| t@.contains_key(k) <==> #[trigger] t.keys().contains(k),
            m.contains_key(inbox@),
            m[inbox@] == state@,
            found_sorted(v@),
            found_keys(v@).no_duplicates(),
            forall|key: ReplyKey| #[trigger] found_keys(before).contains(key) ==> key.0 != inbox@,
            forall|key: ReplyKey| #[trigger]
                found_keys(v@).contains(key) <==> found_keys(before).contains(key) || (key.0
                    == inbox@ && t.keys().take(j as int).contains(key.1) && chosen(
                    m,
                    *filter,
                    key,
                )),
            forall|i: int|
                0 <= i < v@.len() ==> found_from(
                    #[trigger] v@[i],
                    *filter,
                    obligation(m, v@[i].inbox@, v@[i].id@),
                ),
        decreases n - j,
    {
        let id = t.key(j);
        let o = t.value(j);
        let ghost k0 = t.keys()[j as int];
        let ghost done = t.keys().take(j as int);
        let ghost mid = v@;
        assert(t.keys().take(j + 1) =~= done.push(k0));
        proof {
            if done.contains(k0) {
                let i = choose|i: int| 0 <= i < done.len() && done[i] == k0;
                assert(t.keys()[i] == k0);
            }
            lemma_push_contains(done, k0);
        }
        if filter.accepts(inbox.as_str(), o) {
            let order = if filter.orders_by_record() {
                o.message_id.clone()
            } else {
                id.clone()
            };
            let f = Found { inbox: inbox.clone(), id: id.clone(), seq: o.first_seen_seq, order };
            insert_found(v, f);
            proof {
                assert(chosen(m, *filter, (inbox@, k0)));
                assert forall|i: int| 0 <= i < v@.len() implies found_from(
                    #[trigger] v@[i],
                    *filter,
                    obligation(m, v@[i].inbox@, v@[i].id@),
                ) by {
                    if v@[i] != f {
                        let q = choose|q: int| 0 <= q < mid.len() && mid[q] == v@[i];
                        assert(found_from(mid[q], *filter, obligation(m, mid[q].inbox@, mid[q].id@)));
                    }
                }
            }
        }
        j = j + 1;
    }
    proof {
        assert(t.keys().take(n as int) =~= t.keys());
    }
}


// ---------------------------------------------------------------------------
// The inboxes
// ---------------------------------------------------------------------------

impl Default for InboxRuntimeSnapshot {
    fn default() -> (r: InboxRuntimeSnapshot)
        ensures
            r.by_inbox@ == Map::<Seq<char>, InboxState>::empty(),
            r.by_thread@ == Map::<Seq<char>, InboxState>::empty(),
    {
        InboxRuntimeSnapshot { by_inbox: Table::new(), by_thread: Table::new() }
    }
}

impl Default for InboxRuntime {
    fn default() -> (r: InboxRuntime)
        ensures
            r@ == Map::<Seq<char>, InboxView>::empty(),
    {
        InboxRuntime::new()
    }
}

impl InboxRuntime {
    /// No inbox has been addressed yet.
    pub fn new() -> (r: InboxRuntime)
        ensures
            r@ == Map::<Seq<char>, InboxView>::empty(),
    {
        let r = InboxRuntime { by_inbox: Table::new() };
        assert(r@ =~= Map::<Seq<char>, InboxView>::empty());
        r
    }

    /// Takes the inbox `id` out, empty where it has not been addressed yet.
    fn take(&mut self, id: &str) -> (r: InboxState)
        ensures
            r@ == inbox_of(old(self)@, id@),
            final(self)@ == old(self)@.remove(id@),
    {
        let ghost before = self@;
        let r = match self.by_inbox.remove(id) {
            Some(state) => state,
            None => InboxState::empty(),
        };
        assert(self@ =~= before.remove(id@));
        r
    }

    fn put(&mut self, id: &str, state: InboxState)
        ensures
            final(self)@ == old(self)@.insert(id@, state@),
    {
        let ghost before = self@;
        self.by_inbox.insert(id.to_string(), state);
        assert(self@ =~= before.insert(id@, state@));
    }

    /// The obligation of the inbox `id` to reply to `message_id`.
    fn look(&self, id: &str, message_id: &str) -> (r: Option<&RequiredReplyObligation>)
        ensures
            match r {
                Some(o) => has_obligation(self@, id@, message_id@) && *o == obligation(
                    self@,
                    id@,
                    message_id@,
                ),
                None => !has_obligation(self@, id@, message_id@),
            },
    {
        match self.by_inbox.get(id) {
            Some(state) => state.required_reply_obligations.get(message_id),
            None => None,
        }
    }

    /// Puts `o` in the place of the obligation of `id` to reply to `message_id`.
    fn set_obligation(&mut self, id: &str, message_id: &str, o: RequiredReplyObligation)
        ensures
            final(self)@ == with_obligation(old(self)@, id@, message_id@, o),
    {
        let ghost before = self@;
        let mut state = self.take(id);
        state.required_reply_obligations.insert(message_id.to_string(), o);
        self.put(id, state);
        assert(self@ =~= with_obligation(before, id@, message_id@, o));
    }

    /// Puts a message into an inbox under the next number; returns that number.
    /// Where the inbox is full, its oldest message leaves.
    pub fn append_to_inbox(
        &mut self,
        receiver_inbox_id: &str,
        sender_agent_name: String,
        message_id: String,
        need_reply: bool,
        reply_to_message_id: Option<String>,
        content: String,
    ) -> (seq: u64)
        ensures
            arrives(
                old(self)@,
                final(self)@,
                receiver_inbox_id@,
                seq,
                (InboxMessage {
                    seq,
                    sender_agent_name,
                    message_id,
                    need_reply,
                    reply_to_message_id,
                    content,
                }),
            ),
    {
        let ghost before = self@;
        let mut inbox = self.take(receiver_inbox_id);
        let ghost held = inbox@;
        if inbox.next_seq < u64::MAX {
            inbox.next_seq = inbox.next_seq + 1;
        }
        let seq: u64 = inbox.next_seq;
        let message = InboxMessage {
            seq,
            sender_agent_name,
            message_id,
            need_reply,
            reply_to_message_id,
            content,
        };
        inbox.messages.push(message);
        let ghost all = held.messages.push(message);
        let ghost mut gone: int = 0;
        while inbox.messages.len() > MAX_MESSAGES_PER_THREAD
            invariant
                0 <= gone <= all.len(),
                inbox.messages@ == all.skip(gone),
                gone > 0 ==> all.len() - gone >= MAX_MESSAGES_PER_THREAD,
                inbox.next_seq == seq,
                inbox.required_reply_next_seq == held.reply_seq,
                inbox.required_reply_obligations@ == held.obligations,
            decreases inbox.messages@.len(),
        {
            inbox.messages.remove(0);
            proof {
                gone = gone + 1;
                assert(inbox.messages@ =~= all.skip(gone));
            }
        }
        assert(inbox.messages@ =~= keep_last(all, MAX_MESSAGES_PER_THREAD as nat));
        assert(inbox@ =~= delivered(held, message));
        self.put(receiver_inbox_id, inbox);
        assert(self@ =~= before.insert(receiver_inbox_id@, delivered(held, message)));
        seq
    }

    /// Puts a message that asks for no reply into the inbox of a thread.
    pub fn append_message(
        &mut self,
        receiver_thread_id: ThreadId,
        sender_agent_name: String,
        message_id: String,
        reply_to_message_id: Option<String>,
        content: String,
    ) -> (seq: u64)
        ensures
            arrives_unasked(
                old(self)@,
                final(self)@,
                thread_text(receiver_thread_id),
                seq,
                sender_agent_name,
                message_id,
                reply_to_message_id,
                content,
            ),
    {
        let id = receiver_thread_id.to_text();
        self.append_to_inbox(
            id.as_str(),
            sender_agent_name,
            message_id,
            false,
            reply_to_message_id,
            content,
        )
    }

    /// Puts a message into the inbox of a thread.
    pub fn append_message_with_reply_requirement(
        &mut self,
        receiver_thread_id: ThreadId,
        sender_agent_name: String,
        message_id: String,
        need_reply: bool,
        reply_to_message_id: Option<String>,
        content: String,
    ) -> (seq: u64)
        ensures
            arrives(
                old(self)@,
                final(self)@,
                thread_text(receiver_thread_id),
                seq,
                (InboxMessage {
                    seq,
                    sender_agent_name,
                    message_id,
                    need_reply,
                    reply_to_message_id,
                    content,
                }),
            ),
    {
        let id = receiver_thread_id.to_text();
        self.append_to_inbox(
            id.as_str(),
            sender_agent_name,
            message_id,
            need_reply,
            reply_to_message_id,
            content,
        )
    }

    /// Puts a message into the inbox with this id.
    pub fn append_logical_message(
        &mut self,
        receiver_id: &str,
        sender_agent_name: String,
        message_id: String,
        need_reply: bool,
        reply_to_message_id: Option<String>,
        content: String,
    ) -> (seq: u64)
        ensures
            arrives(
                old(self)@,
                final(self)@,
                receiver_id@,
                seq,
                (InboxMessage {
                    seq,
                    sender_agent_name,
                    message_id,
                    need_reply,
                    reply_to_message_id,
                    content,
                }),
            ),
    {
        self.append_to_inbox(
            receiver_id,
            sender_agent_name,
            message_id,
            need_reply,
            reply_to_message_id,
            content,
        )
    }

    /// The messages waiting in an inbox, oldest first.
    pub fn messages_for_inbox(&self, receiver_inbox_id: &str) -> (r: Vec<InboxMessage>)
        ensures
            r@ == inbox_of(self@, receiver_inbox_id@).messages,
    {
        match self.by_inbox.get(receiver_inbox_id) {
            Some(state) => copy_messages(&state.messages),
            None => Vec::new(),
        }
    }

    /// The messages waiting for a thread, oldest first.
    pub fn messages_for(&self, receiver_thread_id: ThreadId) -> (r: Vec<InboxMessage>)
        ensures
            r@ == inbox_of(self@, thread_text(receiver_thread_id)).messages,
    {
        let id = receiver_thread_id.to_text();
        self.messages_for_inbox(id.as_str())
    }

    /// The messages waiting in the inbox with this id, oldest first.
    pub fn messages_for_logical(&self, receiver_id: &str) -> (r: Vec<InboxMessage>)
        ensures
            r@ == inbox_of(self@, receiver_id@).messages,
    {
        self.messages_for_inbox(receiver_id)
    }

    /// The number of the last message that arrived in an inbox.
    pub fn subscribe_logical(&mut self, receiver_id: &str) -> (seq: u64)
        ensures
            seq == inbox_of(old(self)@, receiver_id@).next_seq,
            final(self)@ == with_inbox(old(self)@, receiver_id@),
    {
        let ghost before = self@;
        let state = self.take(receiver_id);
        let seq: u64 = state.next_seq;
        self.put(receiver_id, state);
        assert(self@ =~= with_inbox(before, receiver_id@));
        seq
    }

    /// The number of the last message that arrived for a thread.
    pub fn subscribe(&mut self, receiver_thread_id: ThreadId) -> (seq: u64)
        ensures
            seq == inbox_of(old(self)@, thread_text(receiver_thread_id)).next_seq,
            final(self)@ == with_inbox(old(self)@, thread_text(receiver_thread_id)),
    {
        let id = receiver_thread_id.to_text();
        self.subscribe_logical(id.as_str())
    }

    /// Takes the oldest wanted message out of an inbox; also returns the number
    /// of the last message that arrived there.
    pub fn pop_message_matching(&mut self, receiver_id: &str, sender: Option<&str>) -> (r: (
        u64,
        Option<InboxMessage>,
    ))
        ensures
            r.0 == inbox_of(old(self)@, receiver_id@).next_seq,
            popped(old(self)@, final(self)@, receiver_id@, crate::text::opt_str(sender), r.1),
    {
        let ghost before = self@;
        let ghost want = crate::text::opt_str(sender);
        let mut inbox = self.take(receiver_id);
        let ghost held = inbox@;
        let max_seq: u64 = inbox.next_seq;
        let n: usize = inbox.messages.len();
        let mut i: usize = 0;
        while i < n
            invariant
                n == inbox.messages@.len(),
                inbox@ == held,
                i <= n,
                want == crate::text::opt_str(sender),
                forall|j: int| 0 <= j < i ==> !wanted(#[trigger] inbox.messages@[j], want),
                self@ == before.remove(receiver_id@),
                held == inbox_of(before, receiver_id@),
                max_seq == held.next_seq,
                before == old(self)@,
            decreases n - i,
        {
            let hit = match sender {
                Some(name) => same_text(inbox.messages[i].sender_agent_name.as_str(), name),
                None => true,
            };
            if hit {
                let message = inbox.messages.remove(i);
                assert(first_wanted(held.messages, want, i as int));
                assert(inbox@ =~= InboxView { messages: held.messages.remove(i as int), ..held });
                self.put(receiver_id, inbox);
                proof {
                    assert(self@ =~= before.insert(
                        receiver_id@,
                        InboxView { messages: held.messages.remove(i as int), ..held },
                    ));
                }
                return (max_seq, Some(message));
            }
            i = i + 1;
        }
        self.put(receiver_id, inbox);
        assert(self@ =~= with_inbox(before, receiver_id@));
        (max_seq, None)
    }

    /// Takes the oldest message for a thread.
    pub fn pop_next_message(&mut self, receiver_thread_id: ThreadId) -> (r: (
        u64,
        Option<InboxMessage>,
    ))
        ensures
            r.0 == inbox_of(old(self)@, thread_text(receiver_thread_id)).next_seq,
            popped(old(self)@, final(self)@, thread_text(receiver_thread_id), None, r.1),
    {
        let id = receiver_thread_id.to_text();
        self.pop_message_matching(id.as_str(), None)
    }

    /// Takes the oldest message of one sender for a thread.
    pub fn pop_message_from_sender(
        &mut self,
        receiver_thread_id: ThreadId,
        sender_agent_name: &str,
    ) -> (r: (u64, Option<InboxMessage>))
        ensures
            r.0 == inbox_of(old(self)@, thread_text(receiver_thread_id)).next_seq,
            popped(
                old(self)@,
                final(self)@,
                thread_text(receiver_thread_id),
                Some(sender_agent_name@),
                r.1,
            ),
    {
        let id = receiver_thread_id.to_text();
        self.pop_message_matching(id.as_str(), Some(sender_agent_name))
    }

    /// Takes the oldest message of the inbox with this id.
    pub fn pop_next_logical(&mut self, receiver_id: &str) -> (r: (u64, Option<InboxMessage>))
        ensures
            r.0 == inbox_of(old(self)@, receiver_id@).next_seq,
            popped(old(self)@, final(self)@, receiver_id@, None, r.1),
    {
        self.pop_message_matching(receiver_id, None)
    }

    /// Takes the oldest message of one sender from the inbox with this id.
    pub fn pop_logical_message_from_sender(
        &mut self,
        receiver_id: &str,
        sender_agent_name: &str,
    ) -> (r: (u64, Option<InboxMessage>))
        ensures
            r.0 == inbox_of(old(self)@, receiver_id@).next_seq,
            popped(old(self)@, final(self)@, receiver_id@, Some(sender_agent_name@), r.1),
    {
        self.pop_message_matching(receiver_id, Some(sender_agent_name))
    }

    /// Registers that an inbox owes a reply to a message. A message it already
    /// owes one to is left as it is.
    pub fn register_required_reply_logical_from_source(
        &mut self,
        receiver_id: &str,
        source_inbox_id: String,
        source_agent_name: String,
        source_thread_id: ThreadId,
        message_id: String,
        content: String,
    )
        ensures
            registered(
                old(self)@,
                final(self)@,
                receiver_id@,
                source_inbox_id@,
                source_agent_name@,
                source_thread_id,
                message_id@,
                content@,
            ),
    {
        let ghost before = self@;
        let mut inbox = self.take(receiver_id);
        let ghost held = inbox@;
        let ghost id = message_id@;
        if inbox.required_reply_obligations.contains_key(message_id.as_str()) {
            self.put(receiver_id, inbox);
            assert(self@ =~= with_inbox(before, receiver_id@));
            return;
        }
        if inbox.required_reply_next_seq < u64::MAX {
            inbox.required_reply_next_seq = inbox.required_reply_next_seq + 1;
        }
        let first_seen_seq: u64 = inbox.required_reply_next_seq;
        let o = RequiredReplyObligation {
            source_agent_name,
            source_thread_id,
            source_inbox_id,
            message_id: message_id.clone(),
            content,
            first_seen_seq,
            reminder_count: 0,
            observed_by_source_wait: false,
            resolved: false,
        };
        inbox.required_reply_obligations.insert(message_id, o);
        assert(inbox@ =~= InboxView {
            reply_seq: next_number(held.reply_seq),
            obligations: held.obligations.insert(id, o),
            ..held
        });
        self.put(receiver_id, inbox);
        assert(self@ =~= before.insert(receiver_id@, inbox@));
        assert(self@[receiver_id@] == inbox@);
        assert(self@ =~= before.insert(receiver_id@, self@[receiver_id@]));
    }

    /// Registers that a thread's inbox owes a reply to a message of another thread.
    pub fn register_required_reply(
        &mut self,
        receiver_thread_id: ThreadId,
        source_agent_name: String,
        source_thread_id: ThreadId,
        message_id: String,
        content: String,
    )
        ensures
            registered(
                old(self)@,
                final(self)@,
                thread_text(receiver_thread_id),
                thread_text(source_thread_id),
                source_agent_name@,
                source_thread_id,
                message_id@,
                content@,
            ),
    {
        let id = receiver_thread_id.to_text();
        self.register_required_reply_logical_from_source(
            id.as_str(),
            source_thread_id.to_text(),
            source_agent_name,
            source_thread_id,
            message_id,
            content,
        );
    }

    /// Registers that the inbox with this id owes a reply to a message of a thread.
    pub fn register_required_reply_logical(
        &mut self,
        receiver_id: &str,
        source_agent_name: String,
        source_thread_id: ThreadId,
        message_id: String,
        content: String,
    )
        ensures
            registered(
                old(self)@,
                final(self)@,
                receiver_id@,
                thread_text(source_thread_id),
                source_agent_name@,
                source_thread_id,
                message_id@,
                content@,
            ),
    {
        self.register_required_reply_logical_from_source(
            receiver_id,
            source_thread_id.to_text(),
            source_agent_name,
            source_thread_id,
            message_id,
            content,
        );
    }

    /// Whether the inbox with this id owes a reply it has not given.
    pub fn has_required_reply_obligation_logical(
        &mut self,
        receiver_id: &str,
        message_id: &str,
    ) -> (r: bool)
        ensures
            r == still_owes(old(self)@, receiver_id@, message_id@),
            final(self)@ == with_inbox(old(self)@, receiver_id@),
    {
        self.subscribe_logical(receiver_id);
        match self.look(receiver_id, message_id) {
            Some(o) => !o.resolved,
            None => false,
        }
    }

    /// Whether a thread owes a reply it has not given.
    pub fn has_required_reply_obligation(
        &mut self,
        receiver_thread_id: ThreadId,
        message_id: &str,
    ) -> (r: bool)
        ensures
            r == still_owes(old(self)@, thread_text(receiver_thread_id), message_id@),
            final(self)@ == with_inbox(old(self)@, thread_text(receiver_thread_id)),
    {
        let id = receiver_thread_id.to_text();
        self.has_required_reply_obligation_logical(id.as_str(), message_id)
    }

    /// Whether a reply that is owed has been given; `None` where none is owed.
    pub fn required_reply_resolved_logical(&self, receiver_id: &str, message_id: &str) -> (r:
        Option<bool>)
        ensures
            r == reply_state(self@, receiver_id@, message_id@),
    {
        match self.look(receiver_id, message_id) {
            Some(o) => Some(o.resolved),
            None => None,
        }
    }

    /// Marks the reply to a message as given, if the inbox owes it to `source`
    /// and has not given it; says whether it was so.
    pub fn resolve_required_reply_logical_from_source_id(
        &mut self,
        receiver_id: &str,
        source_inbox_id: &str,
        reply_to_message_id: &str,
    ) -> (r: bool)
        ensures
            resolves(
                r,
                old(self)@,
                final(self)@,
                receiver_id@,
                Some(source_inbox_id@),
                reply_to_message_id@,
            ),
    {
        let ghost before = self@;
        self.subscribe_logical(receiver_id);
        let found = match self.look(receiver_id, reply_to_message_id) {
            Some(o) => if same_text(trimmed(o.source_inbox_id.as_str()), source_inbox_id)
                && !o.resolved {
                let mut p = o.copy();
                p.resolved = true;
                Some(p)
            } else {
                None
            },
            None => None,
        };
        match found {
            Some(o) => {
                self.set_obligation(receiver_id, reply_to_message_id, o);
                assert(self@ =~= with_obligation(before, receiver_id@, reply_to_message_id@, o));
                true
            },
            None => false,
        }
    }

    /// As above, for the inbox with this id and a source thread.
    pub fn resolve_required_reply_logical(
        &mut self,
        receiver_id: &str,
        source_thread_id: ThreadId,
        reply_to_message_id: &str,
    ) -> (r: bool)
        ensures
            resolves(
                r,
                old(self)@,
                final(self)@,
                receiver_id@,
                Some(thread_text(source_thread_id)),
                reply_to_message_id@,
            ),
    {
        let source = source_thread_id.to_text();
        self.resolve_required_reply_logical_from_source_id(
            receiver_id,
            source.as_str(),
            reply_to_message_id,
        )
    }

    /// As above, between two threads.
    pub fn resolve_required_reply(
        &mut self,
        receiver_thread_id: ThreadId,
        source_thread_id: ThreadId,
        reply_to_message_id: &str,
    ) -> (r: bool)
        ensures
            resolves(
                r,
                old(self)@,
                final(self)@,
                thread_text(receiver_thread_id),
                Some(thread_text(source_thread_id)),
                reply_to_message_id@,
            ),
    {
        let id = receiver_thread_id.to_text();
        self.resolve_required_reply_logical(id.as_str(), source_thread_id, reply_to_message_id)
    }

    /// Marks the reply to a message as given, whoever it is owed to.
    pub fn resolve_required_reply_logical_any_source(
        &mut self,
        receiver_id: &str,
        reply_to_message_id: &str,
    ) -> (r: bool)
        ensures
            resolves(
                r,
                old(self)@,
                final(self)@,
                receiver_id@,
                None,
                reply_to_message_id@,
            ),
    {
        let ghost before = self@;
        self.subscribe_logical(receiver_id);
        let found = match self.look(receiver_id, reply_to_message_id) {
            Some(o) => if !o.resolved {
                let mut p = o.copy();
                p.resolved = true;
                Some(p)
            } else {
                None
            },
            None => None,
        };
        match found {
            Some(o) => {
                self.set_obligation(receiver_id, reply_to_message_id, o);
                assert(self@ =~= with_obligation(before, receiver_id@, reply_to_message_id@, o));
                true
            },
            None => false,
        }
    }

    /// Whether the inbox with this id has given the reply it owed to `source`.
    pub fn has_resolved_required_reply_logical_from_source_id(
        &mut self,
        receiver_id: &str,
        source_inbox_id: &str,
        reply_to_message_id: &str,
    ) -> (r: bool)
        ensures
            r == has_replied(
                old(self)@,
                receiver_id@,
                source_inbox_id@,
                reply_to_message_id@,
            ),
            final(self)@ == with_inbox(old(self)@, receiver_id@),
    {
        self.subscribe_logical(receiver_id);
        match self.look(receiver_id, reply_to_message_id) {
            Some(o) => same_text(trimmed(o.source_inbox_id.as_str()), source_inbox_id)
                && o.resolved,
            None => false,
        }
    }

    /// As above, for a source thread.
    pub fn has_resolved_required_reply_logical(
        &mut self,
        receiver_id: &str,
        source_thread_id: ThreadId,
        reply_to_message_id: &str,
    ) -> (r: bool)
        ensures
            r == has_replied(
                old(self)@,
                receiver_id@,
                thread_text(source_thread_id),
                reply_to_message_id@,
            ),
            final(self)@ == with_inbox(old(self)@, receiver_id@),
    {
        let source = source_thread_id.to_text();
        self.has_resolved_required_reply_logical_from_source_id(
            receiver_id,
            source.as_str(),
            reply_to_message_id,
        )
    }

    /// As above, between two threads.
    pub fn has_resolved_required_reply(
        &mut self,
        receiver_thread_id: ThreadId,
        source_thread_id: ThreadId,
        reply_to_message_id: &str,
    ) -> (r: bool)
        ensures
            r == has_replied(
                old(self)@,
                thread_text(receiver_thread_id),
                thread_text(source_thread_id),
                reply_to_message_id@,
            ),
            final(self)@ == with_inbox(old(self)@, thread_text(receiver_thread_id)),
    {
        let id = receiver_thread_id.to_text();
        self.has_resolved_required_reply_logical(id.as_str(), source_thread_id, reply_to_message_id)
    }

    /// The obligations the filter selects, in order.
    fn select(&self, filter: &ReplyFilter) -> (v: Vec<Found>)
        ensures
            listed(self@, *filter, found_keys(v@)),
    {
        let mut v: Vec<Found> = Vec::new();
        let n: usize = self.by_inbox.len();
        let ghost m = self@;
        let ghost ids = self.by_inbox.keys();
        let mut i: usize = 0;
        while i < n
            invariant
                m == self@,
                ids == self.by_inbox.keys(),
                n == ids.len(),
                i <= n,
                ids.no_duplicates(),
                forall|k: Seq<char>| self.by_inbox@.contains_key(k) <==> #[trigger] ids.contains(k),
                found_sorted(v@),
                found_keys(v@).no_duplicates(),
                forall|key: ReplyKey| #[trigger]
                    found_keys(v@).contains(key) <==> ids.take(i as int).contains(key.0) && chosen(
                        m,
                        *filter,
                        key,
                    ),
                forall|q: int|
                    0 <= q < v@.len() ==> found_from(
                        #[trigger] v@[q],
                        *filter,
                        obligation(m, v@[q].inbox@, v@[q].id@),
                    ),
            decreases n - i,
        {
            let id = self.by_inbox.key(i);
            let state = self.by_inbox.value(i);
            let ghost done = ids.take(i as int);
            let ghost k0 = ids[i as int];
            proof {
                assert(ids.take(i + 1) =~= done.push(k0));
                if done.contains(k0) {
                    let q = choose|q: int| 0 <= q < done.len() && done[q] == k0;
                    assert(ids[q] == k0);
                }
                lemma_push_contains(done, k0);
            }
            select_in(id, state, filter, &mut v, Ghost(m));
            i = i + 1;
        }
        proof {
            assert(ids.take(n as int) =~= ids);
            let keys = found_keys(v@);
            assert forall|key: ReplyKey| #[trigger] keys.contains(key) <==> chosen(
                m,
                *filter,
                key,
            ) by {
                if chosen(m, *filter, key) {
                    assert(self.by_inbox@.contains_key(key.0));
                    assert(ids.contains(key.0));
                }
            }
            assert forall|a: int, b: int| 0 <= a < b < keys.len() implies !key_before(
                m,
                *filter,
                #[trigger] keys[b],
                #[trigger] keys[a],
            ) by {
                assert(found_from(v@[a], *filter, obligation(m, v@[a].inbox@, v@[a].id@)));
                assert(found_from(v@[b], *filter, obligation(m, v@[b].inbox@, v@[b].id@)));
                assert(!found_before(v@[b], v@[a]));
            }
        }
        v
    }
}

/// What a reader finds, and what is left: the oldest wanted message is taken
/// out and everything else stays as it is. Where no message is wanted, the
/// inbox stays as it is.
pub open spec fn popped(
    before: Map<Seq<char>, InboxView>,
    after: Map<Seq<char>, InboxView>,
    id: Seq<char>,
    sender: Option<Seq<char>>,
    r: Option<InboxMessage>,
) -> bool {
    let held = inbox_of(before, id);
    match r {
        Some(message) => exists|i: int| #[trigger]
            first_wanted(held.messages, sender, i) && message == held.messages[i] && after
                == before.insert(id, InboxView { messages: held.messages.remove(i), ..held }),
        None => (forall|i: int|
            0 <= i < held.messages.len() ==> !wanted(#[trigger] held.messages[i], sender))
            && after == with_inbox(before, id),
    }
}

/// What registering an obligation does: where the inbox owes no reply to the
/// message yet, it owes one from now on, under the next number.
pub open spec fn registered(
    before: Map<Seq<char>, InboxView>,
    after: Map<Seq<char>, InboxView>,
    id: Seq<char>,
    source_inbox_id: Seq<char>,
    source_agent_name: Seq<char>,
    source_thread_id: ThreadId,
    message_id: Seq<char>,
    content: Seq<char>,
) -> bool {
    let held = inbox_of(before, id);
    if held.obligations.contains_key(message_id) {
        after == with_inbox(before, id)
    } else {
        let o = obligation(after, id, message_id);
        &&& has_obligation(after, id, message_id)
        &&& after == before.insert(
            id,
            InboxView {
                reply_seq: next_number(held.reply_seq),
                obligations: held.obligations.insert(message_id, o),
                ..held
            },
        )
        &&& o.source_inbox_id@ == source_inbox_id
        &&& o.source_agent_name@ == source_agent_name
        &&& o.source_thread_id == source_thread_id
        &&& o.message_id@ == message_id
        &&& o.content@ == content
        &&& o.first_seen_seq == next_number(held.reply_seq)
        &&& o.reminder_count == 0
        &&& !o.observed_by_source_wait
        &&& !o.resolved
    }
}

/// Whether the inbox `id` has given the reply to `message_id` it owed to `source`.
pub open spec fn has_replied(
    m: Map<Seq<char>, InboxView>,
    id: Seq<char>,
    source: Seq<char>,
    message_id: Seq<char>,
) -> bool {
    &&& has_obligation(m, id, message_id)
    &&& trim(obligation(m, id, message_id).source_inbox_id@) == source
    &&& obligation(m, id, message_id).resolved
}


// ---------------------------------------------------------------------------
// Listing, reminding, observing and clearing obligations
// ---------------------------------------------------------------------------

/// The obligations of `keys`, each as `step` leaves it.
pub open spec fn obligations_are(
    r: Seq<RequiredReplyObligation>,
    m: Map<Seq<char>, InboxView>,
    keys: Seq<ReplyKey>,
    step: spec_fn(RequiredReplyObligation) -> RequiredReplyObligation,
) -> bool {
    &&& r.len() == keys.len()
    &&& forall|i: int|
        0 <= i < r.len() ==> #[trigger] r[i] == step(obligation(m, keys[i].0, keys[i].1))
}

/// The obligations of `keys`, each with its receiver and as `step` leaves it.
pub open spec fn pending_are(
    r: Seq<PendingRequiredReplyObligation>,
    m: Map<Seq<char>, InboxView>,
    keys: Seq<ReplyKey>,
    step: spec_fn(RequiredReplyObligation) -> RequiredReplyObligation,
) -> bool {
    &&& r.len() == keys.len()
    &&& forall|i: int|
        0 <= i < r.len() ==> pending_is(
            #[trigger] r[i],
            keys[i],
            step(obligation(m, keys[i].0, keys[i].1)),
        )
}

/// An obligation as it is.
pub open spec fn unchanged() -> spec_fn(RequiredReplyObligation) -> RequiredReplyObligation {
    |o: RequiredReplyObligation| o
}

/// An obligation after one more reminder.
pub open spec fn one_more_reminder() -> spec_fn(RequiredReplyObligation) -> RequiredReplyObligation {
    |o: RequiredReplyObligation| reminded(o)
}

/// An obligation after a wait has seen it.
pub open spec fn seen_by_wait() -> spec_fn(RequiredReplyObligation) -> RequiredReplyObligation {
    |o: RequiredReplyObligation| observed(o)
}

spec fn among(keys: Seq<ReplyKey>) -> spec_fn(ReplyKey) -> bool {
    |key: ReplyKey| keys.contains(key)
}

/// The obligations a filter selects.
pub open spec fn selected(m: Map<Seq<char>, InboxView>, f: ReplyFilter) -> spec_fn(
    ReplyKey,
) -> bool {
    |key: ReplyKey| chosen(m, f, key)
}

/// Whether these are the obligations of a thread that it was reminded of.
pub open spec fn claims_from(
    r: Seq<PendingRequiredReplyObligation>,
    before: Map<Seq<char>, InboxView>,
    after: Map<Seq<char>, InboxView>,
    source: ThreadId,
    max: u8,
) -> bool {
    &&& after == changed(
        before,
        selected(before, ReplyFilter::RemindFrom(source, max)),
        one_more_reminder(),
    )
    &&& exists|keys: Seq<ReplyKey>| #[trigger]
        listed(before, ReplyFilter::RemindFrom(source, max), keys) && pending_are(
            r,
            before,
            keys,
            one_more_reminder(),
        )
}

/// Whether these are the replies of an inbox that it was reminded of.
pub open spec fn claims_at(
    r: Seq<RequiredReplyObligation>,
    before: Map<Seq<char>, InboxView>,
    after: Map<Seq<char>, InboxView>,
    receiver: Seq<char>,
    max: u8,
) -> bool {
    exists|keys: Seq<ReplyKey>, id: String|
        id@ == receiver && #[trigger] listed(
            with_inbox(before, id@),
            ReplyFilter::RemindAt(id, max),
            keys,
        ) && obligations_are(r, with_inbox(before, id@), keys, one_more_reminder()) && after
            == changed(
            with_inbox(before, id@),
            selected(with_inbox(before, id@), ReplyFilter::RemindAt(id, max)),
            one_more_reminder(),
        )
}

/// As above, of those that no wait has seen.
pub open spec fn claims_unseen_at(
    r: Seq<RequiredReplyObligation>,
    before: Map<Seq<char>, InboxView>,
    after: Map<Seq<char>, InboxView>,
    receiver: Seq<char>,
    max: u8,
) -> bool {
    exists|keys: Seq<ReplyKey>, id: String|
        id@ == receiver && #[trigger] listed(
            with_inbox(before, id@),
            ReplyFilter::RemindUnobservedAt(id, max),
            keys,
        ) && obligations_are(r, with_inbox(before, id@), keys, one_more_reminder()) && after
            == changed(
            with_inbox(before, id@),
            selected(with_inbox(before, id@), ReplyFilter::RemindUnobservedAt(id, max)),
            one_more_reminder(),
        )
}

/// Whether the unfulfilled obligations of a thread are marked as seen, and so many were
/// not before.
pub open spec fn marks_seen(
    marked: nat,
    before: Map<Seq<char>, InboxView>,
    after: Map<Seq<char>, InboxView>,
    source: ThreadId,
) -> bool {
    &&& after == changed(
        before,
        selected(before, ReplyFilter::UnobservedFrom(source)),
        seen_by_wait(),
    )
    &&& exists|keys: Seq<ReplyKey>| #[trigger]
        listed(before, ReplyFilter::UnobservedFrom(source), keys) && marked == keys.len()
}

/// Whether all obligations of an inbox are dropped, so many.
pub open spec fn clears_at(
    cleared: nat,
    before: Map<Seq<char>, InboxView>,
    after: Map<Seq<char>, InboxView>,
    id: Seq<char>,
) -> bool {
    if before.contains_key(id) {
        &&& cleared == before[id].obligations.dom().len()
        &&& after == before.insert(id, InboxView { obligations: Map::empty(), ..before[id] })
    } else {
        cleared == 0 && after == before
    }
}

/// Whether all obligations that a thread has registered are dropped, so many.
pub open spec fn clears_from(
    cleared: nat,
    before: Map<Seq<char>, InboxView>,
    after: Map<Seq<char>, InboxView>,
    source: ThreadId,
) -> bool {
    &&& after == without(before, selected(before, ReplyFilter::RegisteredBy(source)))
    &&& exists|keys: Seq<ReplyKey>| #[trigger]
        listed(before, ReplyFilter::RegisteredBy(source), keys) && cleared == keys.len()
}

proof fn lemma_changed_nothing(
    m: Map<Seq<char>, InboxView>,
    step: spec_fn(RequiredReplyObligation) -> RequiredReplyObligation,
)
    ensures
        changed(m, among(Seq::empty()), step) == m,
        without(m, among(Seq::empty())) == m,
{
    let a = changed(m, among(Seq::empty()), step);
    assert forall|id: Seq<char>| m.contains_key(id) implies #[trigger] a[id] == m[id] by {
        assert(a[id].obligations =~= m[id].obligations);
    }
    assert(a =~= m);
    let b = without(m, among(Seq::empty()));
    assert forall|id: Seq<char>| m.contains_key(id) implies #[trigger] b[id] == m[id] by {
        assert(b[id].obligations =~= m[id].obligations);
    }
    assert(b =~= m);
}

proof fn lemma_changed_one(
    m: Map<Seq<char>, InboxView>,
    done: Seq<ReplyKey>,
    k0: ReplyKey,
    step: spec_fn(RequiredReplyObligation) -> RequiredReplyObligation,
)
    requires
        has_obligation(m, k0.0, k0.1),
        !done.contains(k0),
    ensures
        changed(m, among(done.push(k0)), step) == with_obligation(
            changed(m, among(done), step),
            k0.0,
            k0.1,
            step(obligation(m, k0.0, k0.1)),
        ),
        has_obligation(changed(m, among(done), step), k0.0, k0.1),
        obligation(changed(m, among(done), step), k0.0, k0.1) == obligation(m, k0.0, k0.1),
        without(m, among(done.push(k0))) == without(m, among(done)).insert(
            k0.0,
            InboxView {
                obligations: without(m, among(done))[k0.0].obligations.remove(k0.1),
                ..without(m, among(done))[k0.0]
            },
        ),
{
    lemma_push_contains(done, k0);
    let c = changed(m, among(done), step);
    let a = changed(m, among(done.push(k0)), step);
    let b = with_obligation(c, k0.0, k0.1, step(obligation(m, k0.0, k0.1)));
    assert forall|id: Seq<char>| m.contains_key(id) implies #[trigger] a[id] == b[id] by {
        assert(a[id].obligations =~= b[id].obligations);
        assert(a[id] =~= b[id]);
    }
    assert(a =~= b);
    let w = without(m, among(done));
    let x = without(m, among(done.push(k0)));
    let y = w.insert(k0.0, InboxView { obligations: w[k0.0].obligations.remove(k0.1), ..w[k0.0] });
    assert forall|id: Seq<char>| m.contains_key(id) implies #[trigger] x[id] == y[id] by {
        assert(x[id].obligations =~= y[id].obligations);
        assert(x[id] =~= y[id]);
    }
    assert(x =~= y);
}

proof fn lemma_all_selected(
    m: Map<Seq<char>, InboxView>,
    f: ReplyFilter,
    keys: Seq<ReplyKey>,
    step: spec_fn(RequiredReplyObligation) -> RequiredReplyObligation,
)
    requires
        listed(m, f, keys),
    ensures
        changed(m, among(keys), step) == changed(m, selected(m, f), step),
        without(m, among(keys)) == without(m, selected(m, f)),
{
    assert forall|key: ReplyKey| among(keys)(key) == #[trigger] selected(m, f)(key) by {
        assert(keys.contains(key) <==> chosen(m, f, key));
    }
    let a = changed(m, among(keys), step);
    let b = changed(m, selected(m, f), step);
    assert forall|id: Seq<char>| m.contains_key(id) implies #[trigger] a[id] == b[id] by {
        assert forall|x: Seq<char>| m[id].obligations.contains_key(x) implies
            #[trigger] a[id].obligations[x] == b[id].obligations[x] by {
            assert(among(keys)((id, x)) == selected(m, f)((id, x)));
        }
        assert(a[id].obligations =~= b[id].obligations);
    }
    assert(a =~= b);
    let x = without(m, among(keys));
    let y = without(m, selected(m, f));
    assert forall|id: Seq<char>| m.contains_key(id) implies #[trigger] x[id] == y[id] by {
        assert forall|k: Seq<char>| #[trigger]
            x[id].obligations.contains_key(k) <==> y[id].obligations.contains_key(k) by {
            assert(among(keys)((id, k)) == selected(m, f)((id, k)));
        }
        assert(x[id].obligations =~= y[id].obligations);
    }
    assert(x =~= y);
}

proof fn lemma_take_push(keys: Seq<ReplyKey>, i: int)
    requires
        0 <= i < keys.len(),
        keys.no_duplicates(),
    ensures
        keys.take(i + 1) == keys.take(i).push(keys[i]),
        !keys.take(i).contains(keys[i]),
{
    assert(keys.take(i + 1) =~= keys.take(i).push(keys[i]));
    if keys.take(i).contains(keys[i]) {
        let j = choose|j: int| 0 <= j < i && keys.take(i)[j] == keys[i];
        assert(keys[j] == keys[i]);
    }
}

impl InboxRuntime {
    /// The obligations the filter selects, in order, unchanged.
    fn list(&self, filter: &ReplyFilter) -> (r: Vec<PendingRequiredReplyObligation>)
        ensures
            exists|keys: Seq<ReplyKey>| #[trigger]
                listed(self@, *filter, keys) && pending_are(r@, self@, keys, unchanged()),
    {
        let found = self.select(filter);
        let ghost keys = found_keys(found@);
        let mut out: Vec<PendingRequiredReplyObligation> = Vec::new();
        let n: usize = found.len();
        let mut i: usize = 0;
        while i < n
            invariant
                n == found@.len(),
                i <= n,
                keys == found_keys(found@),
                listed(self@, *filter, keys),
                out@.len() == i,
                forall|q: int|
                    0 <= q < i ==> pending_is(
                        #[trigger] out@[q],
                        keys[q],
                        obligation(self@, keys[q].0, keys[q].1),
                    ),
            decreases n - i,
        {
            let f = &found[i];
            assert(keys.contains(keys[i as int]));
            assert(chosen(self@, *filter, keys[i as int]));
            match self.look(f.inbox.as_str(), f.id.as_str()) {
                Some(o) => {
                    out.push(
                        PendingRequiredReplyObligation {
                            receiver_inbox_id: f.inbox.clone(),
                            receiver_thread_id: ThreadId::from_string(f.inbox.as_str()),
                            obligation: o.copy(),
                        },
                    );
                },
                None => {},
            }
            i = i + 1;
        }
        assert(listed(self@, *filter, keys) && pending_are(out@, self@, keys, unchanged()));
        out
    }

    /// Reminds of the obligations the filter selects; hands them out in order.
    fn remind(&mut self, filter: &ReplyFilter) -> (r: Vec<PendingRequiredReplyObligation>)
        requires
            filter is RemindFrom || filter is RemindAt || filter is RemindUnobservedAt,
        ensures
            final(self)@ == changed(
                old(self)@,
                selected(old(self)@, *filter),
                one_more_reminder(),
            ),
            exists|keys: Seq<ReplyKey>| #[trigger]
                listed(old(self)@, *filter, keys) && pending_are(
                    r@,
                    old(self)@,
                    keys,
                    one_more_reminder(),
                ),
    {
        let ghost m = self@;
        let found = self.select(filter);
        let ghost keys = found_keys(found@);
        let ghost step = one_more_reminder();
        let mut out: Vec<PendingRequiredReplyObligation> = Vec::new();
        let n: usize = found.len();
        let mut i: usize = 0;
        proof {
            lemma_changed_nothing(m, step);
            assert(keys.take(0) =~= Seq::<ReplyKey>::empty());
        }
        while i < n
            invariant
                n == found@.len(),
                i <= n,
                keys == found_keys(found@),
                step == one_more_reminder(),
                listed(m, *filter, keys),
                filter is RemindFrom || filter is RemindAt || filter is RemindUnobservedAt,
                self@ == changed(m, among(keys.take(i as int)), step),
                out@.len() == i,
                forall|q: int|
                    0 <= q < i ==> pending_is(
                        #[trigger] out@[q],
                        keys[q],
                        reminded(obligation(m, keys[q].0, keys[q].1)),
                    ),
            decreases n - i,
        {
            let f = &found[i];
            let ghost k0 = keys[i as int];
            proof {
                assert(keys.contains(k0));
                assert(chosen(m, *filter, k0));
                lemma_take_push(keys, i as int);
                lemma_changed_one(m, keys.take(i as int), k0, step);
            }
            let next = match self.look(f.inbox.as_str(), f.id.as_str()) {
                Some(o) => {
                    let mut p = o.copy();
                    if p.reminder_count < u8::MAX {
                        p.reminder_count = p.reminder_count + 1;
                    }
                    Some(p)
                },
                None => None,
            };
            match next {
                Some(o) => {
                    assert(o == reminded(obligation(m, k0.0, k0.1)));
                    out.push(
                        PendingRequiredReplyObligation {
                            receiver_inbox_id: f.inbox.clone(),
                            receiver_thread_id: ThreadId::from_string(f.inbox.as_str()),
                            obligation: o.copy(),
                        },
                    );
                    self.set_obligation(f.inbox.as_str(), f.id.as_str(), o);
                },
                None => {},
            }
            i = i + 1;
        }
        proof {
            assert(keys.take(n as int) =~= keys);
            lemma_all_selected(m, *filter, keys, step);
            assert(pending_are(out@, m, keys, one_more_reminder()));
        }
        out
    }

    /// The replies an inbox owes and has not given, in order.
    pub fn unresolved_required_reply_obligations(&mut self, receiver_thread_id: ThreadId) -> (r: Vec<
        RequiredReplyObligation,
    >)
        ensures
            final(self)@ == with_inbox(old(self)@, thread_text(receiver_thread_id)),
            exists|keys: Seq<ReplyKey>, id: String|
                id@ == thread_text(receiver_thread_id) && #[trigger] listed(
                    final(self)@,
                    ReplyFilter::UnresolvedAt(id),
                    keys,
                ) && obligations_are(r@, final(self)@, keys, unchanged()),
    {
        let id = receiver_thread_id.to_text();
        self.subscribe_logical(id.as_str());
        let filter = ReplyFilter::UnresolvedAt(id);
        let list = self.list(&filter);
        let r = strip_receivers(list, Ghost(self@), Ghost(filter), Ghost(unchanged()));
        r
    }

    /// The unfulfilled obligations that a thread has registered, in order.
    pub fn unresolved_required_reply_obligations_from_source(&self, source_thread_id: ThreadId) -> (r:
        Vec<PendingRequiredReplyObligation>)
        ensures
            exists|keys: Seq<ReplyKey>, source: String|
                source@ == thread_text(source_thread_id) && #[trigger] listed(
                    self@,
                    ReplyFilter::UnresolvedFrom(source),
                    keys,
                ) && pending_are(r@, self@, keys, unchanged()),
    {
        let filter = ReplyFilter::UnresolvedFrom(source_thread_id.to_text());
        self.list(&filter)
    }

    /// Reminds of the obligations a thread has registered that are unfulfilled,
    /// that no wait has seen and that were reminded of fewer than
    /// `max_reminders` times; hands them out in order.
    pub fn claim_required_reply_reminders_from_source_thread(
        &mut self,
        source_thread_id: ThreadId,
        max_reminders: u8,
    ) -> (r: Vec<PendingRequiredReplyObligation>)
        ensures
            claims_from(r@, old(self)@, final(self)@, source_thread_id, max_reminders),
    {
        let filter = ReplyFilter::RemindFrom(source_thread_id, max_reminders);
        self.remind(&filter)
    }

    /// Reminds of the replies a thread owes that were reminded of fewer than
    /// `max_reminders` times; hands them out in order.
    pub fn claim_required_reply_reminders(
        &mut self,
        receiver_thread_id: ThreadId,
        max_reminders: u8,
    ) -> (r: Vec<RequiredReplyObligation>)
        ensures
            claims_at(
                r@,
                old(self)@,
                final(self)@,
                thread_text(receiver_thread_id),
                max_reminders,
            ),
    {
        let id = receiver_thread_id.to_text();
        self.subscribe_logical(id.as_str());
        let ghost m = self@;
        let filter = ReplyFilter::RemindAt(id, max_reminders);
        let list = self.remind(&filter);
        strip_receivers(list, Ghost(m), Ghost(filter), Ghost(one_more_reminder()))
    }

    /// As above, for those that no wait has seen.
    pub fn claim_unobserved_required_reply_reminders(
        &mut self,
        receiver_thread_id: ThreadId,
        max_reminders: u8,
    ) -> (r: Vec<RequiredReplyObligation>)
        ensures
            claims_unseen_at(
                r@,
                old(self)@,
                final(self)@,
                thread_text(receiver_thread_id),
                max_reminders,
            ),
    {
        let id = receiver_thread_id.to_text();
        self.subscribe_logical(id.as_str());
        let ghost m = self@;
        let filter = ReplyFilter::RemindUnobservedAt(id, max_reminders);
        let list = self.remind(&filter);
        strip_receivers(list, Ghost(m), Ghost(filter), Ghost(one_more_reminder()))
    }

    /// Marks the unfulfilled obligations a thread has registered as seen by a
    /// wait; counts those that were not marked before.
    pub fn mark_required_reply_obligations_observed_by_source_wait(
        &mut self,
        source_thread_id: ThreadId,
    ) -> (marked: usize)
        ensures
            marks_seen(marked as nat, old(self)@, final(self)@, source_thread_id),
    {
        let ghost m = self@;
        let filter = ReplyFilter::UnobservedFrom(source_thread_id);
        let found = self.select(&filter);
        let ghost keys = found_keys(found@);
        let ghost step = seen_by_wait();
        let n: usize = found.len();
        let mut i: usize = 0;
        proof {
            lemma_changed_nothing(m, step);
            assert(keys.take(0) =~= Seq::<ReplyKey>::empty());
        }
        while i < n
            invariant
                n == found@.len(),
                i <= n,
                keys == found_keys(found@),
                step == seen_by_wait(),
                listed(m, filter, keys),
                self@ == changed(m, among(keys.take(i as int)), step),
            decreases n - i,
        {
            let f = &found[i];
            let ghost k0 = keys[i as int];
            proof {
                assert(keys.contains(k0));
                assert(chosen(m, filter, k0));
                lemma_take_push(keys, i as int);
                lemma_changed_one(m, keys.take(i as int), k0, step);
            }
            let next = match self.look(f.inbox.as_str(), f.id.as_str()) {
                Some(o) => {
                    let mut p = o.copy();
                    p.observed_by_source_wait = true;
                    Some(p)
                },
                None => None,
            };
            match next {
                Some(o) => self.set_obligation(f.inbox.as_str(), f.id.as_str(), o),
                None => {},
            }
            i = i + 1;
        }
        proof {
            assert(keys.take(n as int) =~= keys);
            lemma_all_selected(m, filter, keys, step);
            assert(listed(m, ReplyFilter::UnobservedFrom(source_thread_id), keys));
        }
        n
    }

    /// Drops all obligations of a thread's inbox; counts them.
    pub fn clear_required_reply_obligations(&mut self, receiver_thread_id: ThreadId) -> (cleared:
        usize)
        ensures
            clears_at(
                cleared as nat,
                old(self)@,
                final(self)@,
                thread_text(receiver_thread_id),
            ),
    {
        let ghost before = self@;
        let id = receiver_thread_id.to_text();
        match self.by_inbox.remove(id.as_str()) {
            Some(state) => {
                let mut state = state;
                let cleared: usize = state.required_reply_obligations.len();
                state.required_reply_obligations = Table::new();
                self.by_inbox.insert(id, state);
                assert(self@ =~= before.insert(id@, state@));
                cleared
            },
            None => {
                assert(self@ =~= before);
                0
            },
        }
    }

    /// Drops all obligations that a thread has registered, in every inbox;
    /// counts them.
    pub fn clear_required_reply_obligations_for_source_thread(
        &mut self,
        source_thread_id: ThreadId,
    ) -> (cleared: usize)
        ensures
            clears_from(cleared as nat, old(self)@, final(self)@, source_thread_id),
    {
        let ghost m = self@;
        let filter = ReplyFilter::RegisteredBy(source_thread_id);
        let found = self.select(&filter);
        let ghost keys = found_keys(found@);
        let n: usize = found.len();
        let mut i: usize = 0;
        proof {
            lemma_changed_nothing(m, unchanged());
            assert(keys.take(0) =~= Seq::<ReplyKey>::empty());
        }
        while i < n
            invariant
                n == found@.len(),
                i <= n,
                keys == found_keys(found@),
                listed(m, filter, keys),
                self@ == without(m, among(keys.take(i as int))),
            decreases n - i,
        {
            let f = &found[i];
            let ghost k0 = keys[i as int];
            proof {
                assert(keys.contains(k0));
                assert(chosen(m, filter, k0));
                lemma_take_push(keys, i as int);
                lemma_changed_one(m, keys.take(i as int), k0, unchanged());
            }
            let ghost mid = self@;
            let mut state = self.take(f.inbox.as_str());
            state.required_reply_obligations.remove(f.id.as_str());
            self.put(f.inbox.as_str(), state);
            assert(self@ =~= mid.insert(
                k0.0,
                InboxView { obligations: mid[k0.0].obligations.remove(k0.1), ..mid[k0.0] },
            ));
            i = i + 1;
        }
        proof {
            assert(keys.take(n as int) =~= keys);
            lemma_all_selected(m, filter, keys, unchanged());
            assert(listed(m, ReplyFilter::RegisteredBy(source_thread_id), keys));
        }
        n
    }
}

/// The obligations of a listing, without their receivers.
fn strip_receivers(
    list: Vec<PendingRequiredReplyObligation>,
    Ghost(m): Ghost<Map<Seq<char>, InboxView>>,
    Ghost(filter): Ghost<ReplyFilter>,
    Ghost(step): Ghost<spec_fn(RequiredReplyObligation) -> RequiredReplyObligation>,
) -> (r: Vec<RequiredReplyObligation>)
    requires
        exists|keys: Seq<ReplyKey>| #[trigger]
            listed(m, filter, keys) && pending_are(list@, m, keys, step),
    ensures
        exists|keys: Seq<ReplyKey>| #[trigger]
            listed(m, filter, keys) && obligations_are(r@, m, keys, step),
{
    let ghost keys = choose|keys: Seq<ReplyKey>| #[trigger]
        listed(m, filter, keys) && pending_are(list@, m, keys, step);
    let mut out: Vec<RequiredReplyObligation> = Vec::new();
    let mut i: usize = 0;
    while i < list.len()
        invariant
            i <= list@.len(),
            pending_are(list@, m, keys, step),
            out@.len() == i,
            forall|q: int| 0 <= q < i ==> #[trigger] out@[q] == list@[q].obligation,
        decreases list@.len() - i,
    {
        out.push(list[i].obligation.copy());
        i = i + 1;
    }
    assert forall|q: int| 0 <= q < out@.len() implies #[trigger] out@[q] == step(
        obligation(m, keys[q].0, keys[q].1),
    ) by {
        assert(pending_is(list@[q], keys[q], step(obligation(m, keys[q].0, keys[q].1))));
    }
    assert(listed(m, filter, keys) && obligations_are(out@, m, keys, step));
    out
}


// ---------------------------------------------------------------------------
// Snapshots
// ---------------------------------------------------------------------------

/// The inboxes that a snapshot holds.
pub open spec fn snapshot_inboxes(s: InboxRuntimeSnapshot) -> Map<Seq<char>, InboxView> {
    inbox_views(s.by_thread).union_prefer_right(inbox_views(s.by_inbox))
}

/// The inboxes after a snapshot was read: those it holds replace the ones in
/// memory, the others stay.
pub open spec fn merged(m: Map<Seq<char>, InboxView>, s: InboxRuntimeSnapshot) -> Map<
    Seq<char>,
    InboxView,
> {
    m.union_prefer_right(snapshot_inboxes(s))
}

/// Whether a snapshot brings messages to the inbox `id` that the inbox in memory
/// had not seen.
pub open spec fn brings_news(
    m: Map<Seq<char>, InboxView>,
    s: InboxRuntimeSnapshot,
    id: Seq<char>,
) -> bool {
    snapshot_inboxes(s).contains_key(id) && snapshot_inboxes(s)[id].next_seq > inbox_of(
        m,
        id,
    ).next_seq
}

fn copy_inboxes(t: &Table<InboxState>) -> (r: Table<InboxState>)
    ensures
        inbox_views(r) == inbox_views(*t),
{
    let mut out: Table<InboxState> = Table::new();
    put_inboxes(&mut out, t, true);
    assert(inbox_views(out) =~= inbox_views(*t));
    out
}

/// Puts copies of the inboxes of `t` into `out`, over those that are there if
/// `replace`, else only where there is none.
fn put_inboxes(out: &mut Table<InboxState>, t: &Table<InboxState>, replace: bool)
    ensures
        inbox_views(*final(out)) == (if replace {
            inbox_views(*old(out)).union_prefer_right(inbox_views(*t))
        } else {
            inbox_views(*t).union_prefer_right(inbox_views(*old(out)))
        }),
{
    let n: usize = t.len();
    let ghost ids = t.keys();
    let ghost before = inbox_views(*out);
    let ghost from = inbox_views(*t);
    let mut i: usize = 0;
    while i < n
        invariant
            ids == t.keys(),
            from == inbox_views(*t),
            n == ids.len(),
            i <= n,
            ids.no_duplicates(),
            forall|k: Seq<char>| t@.contains_key(k) <==> #[trigger] ids.contains(k),
            forall|k: Seq<char>| #[trigger]
                inbox_views(*out).contains_key(k) <==> before.contains_key(k) || ids.take(
                    i as int,
                ).contains(k),
            forall|k: Seq<char>| #[trigger]
                inbox_views(*out).contains_key(k) ==> inbox_views(*out)[k] == (if ids.take(
                    i as int,
                ).contains(k) && (replace || !before.contains_key(k)) {
                    from[k]
                } else {
                    before[k]
                }),
        decreases n - i,
    {
        let ghost done = ids.take(i as int);
        let ghost k0 = ids[i as int];
        let ghost mid = inbox_views(*out);
        proof {
            assert(ids.take(i + 1) =~= done.push(k0));
            if done.contains(k0) {
                let q = choose|q: int| 0 <= q < done.len() && done[q] == k0;
                assert(ids[q] == k0);
            }
            lemma_push_contains(done, k0);
        }
        let id = t.key(i).clone();
        assert(mid.contains_key(k0) == out@.contains_key(k0));
        if replace || !out.contains_key(id.as_str()) {
            let state = t.value(i).copy();
            out.insert(id, state);
            assert(inbox_views(*out) =~= mid.insert(k0, from[k0]));
        }
        i = i + 1;
    }
    proof {
        assert(ids.take(n as int) =~= ids);
        if replace {
            assert(inbox_views(*out) =~= before.union_prefer_right(from));
        } else {
            assert(inbox_views(*out) =~= from.union_prefer_right(before));
        }
    }
}

/// Where the inbox store is.
pub open spec fn store_place(
    configured: Option<Seq<char>>,
    environment: Option<Seq<char>>,
    codex_home: Option<Seq<char>>,
) -> Option<Seq<char>> {
    match configured {
        Some(path) => Some(path),
        None => match environment {
            Some(path) => Some(path),
            None => match codex_home {
                Some(home) => Some(path_join(home, COLLAB_INBOX_STORE_SUBPATH@)),
                None => None,
            },
        },
    }
}

/// Where the inbox store is: at the configured place, or else where the
/// environment says, or else in the home directory of the program, if it is known.
pub fn collab_inbox_store_path(
    configured: Option<&str>,
    environment: Option<&str>,
    codex_home: Option<&str>,
) -> (r: Option<String>)
    ensures
        opt_text(r) == store_place(opt_str(configured), opt_str(environment), opt_str(codex_home)),
{
    if let Some(path) = configured {
        return Some(path.to_string());
    }
    if let Some(path) = environment {
        return Some(path.to_string());
    }
    match codex_home {
        Some(home) => Some(join_paths(home, COLLAB_INBOX_STORE_SUBPATH)),
        None => None,
    }
}

impl InboxRuntime {
    /// What is to be written to the inbox store.
    pub fn snapshot(&self) -> (r: InboxRuntimeSnapshot)
        ensures
            inbox_views(r.by_inbox) == self@,
            r.by_thread@ == Map::<Seq<char>, InboxState>::empty(),
    {
        InboxRuntimeSnapshot { by_inbox: copy_inboxes(&self.by_inbox), by_thread: Table::new() }
    }

    /// The inboxes a snapshot holds.
    pub fn from_snapshot(snapshot: InboxRuntimeSnapshot) -> (r: InboxRuntime)
        ensures
            r@ == snapshot_inboxes(snapshot),
    {
        let InboxRuntimeSnapshot { by_inbox, by_thread } = snapshot;
        let mut by_inbox = by_inbox;
        put_inboxes(&mut by_inbox, &by_thread, false);
        InboxRuntime { by_inbox }
    }

    /// Reads a snapshot over the inboxes in memory. Returns the ids of the
    /// inboxes whose waiting readers have to be woken.
    pub fn merge_snapshot(&mut self, snapshot: InboxRuntimeSnapshot) -> (woken: Vec<String>)
        ensures
            final(self)@ == merged(old(self)@, snapshot),
            forall|id: Seq<char>| #[trigger]
                crate::text::texts(woken@).contains(id) <==> brings_news(old(self)@, snapshot, id),
    {
        let ghost before = self@;
        let loaded = InboxRuntime::from_snapshot(snapshot);
        let ghost snap = loaded@;
        let mut woken: Vec<String> = Vec::new();
        let n: usize = loaded.by_inbox.len();
        let ghost ids = loaded.by_inbox.keys();
        let mut i: usize = 0;
        while i < n
            invariant
                self@ == before,
                snap == loaded@,
                ids == loaded.by_inbox.keys(),
                n == ids.len(),
                i <= n,
                snap == snapshot_inboxes(snapshot),
                forall|k: Seq<char>| loaded.by_inbox@.contains_key(k) <==> #[trigger] ids.contains(
                    k,
                ),
                forall|id: Seq<char>| #[trigger]
                    crate::text::texts(woken@).contains(id) <==> ids.take(i as int).contains(id)
                        && brings_news(before, snapshot, id),
            decreases n - i,
        {
            let ghost done = ids.take(i as int);
            let ghost k0 = ids[i as int];
            let ghost was = crate::text::texts(woken@);
            let id = loaded.by_inbox.key(i);
            let previous: u64 = match self.by_inbox.get(id.as_str()) {
                Some(state) => state.next_seq,
                None => 0,
            };
            if loaded.by_inbox.value(i).next_seq > previous {
                woken.push(id.clone());
                assert(crate::text::texts(woken@) =~= was.push(k0));
            }
            proof {
                assert(ids.take(i + 1) =~= done.push(k0));
                lemma_push_contains(done, k0);
                lemma_push_contains(was, k0);
                assert forall|x: Seq<char>| #[trigger]
                    crate::text::texts(woken@).contains(x) <==> ids.take(i + 1).contains(x)
                        && brings_news(before, snapshot, x) by {
                    assert(was.contains(x) <==> done.contains(x) && brings_news(before, snapshot, x));
                    assert(done.push(k0).contains(x) <==> done.contains(x) || x == k0);
                    assert(was.push(k0).contains(x) <==> was.contains(x) || x == k0);
                    assert(snap.contains_key(k0));
                }
            }
            i = i + 1;
        }
        proof {
            assert(ids.take(n as int) =~= ids);
            assert forall|id: Seq<char>| #[trigger]
                crate::text::texts(woken@).contains(id) <==> brings_news(before, snapshot, id) by {
                if brings_news(before, snapshot, id) {
                    assert(loaded.by_inbox@.contains_key(id));
                    assert(ids.contains(id));
                }
            }
        }
        put_inboxes(&mut self.by_inbox, &loaded.by_inbox, true);
        woken
    }
}

// ---------------------------------------------------------------------------
// Laws
// ---------------------------------------------------------------------------

/// Inboxes never hold more than their bound, whatever they held before.
pub proof fn law_inbox_is_bounded(inbox: InboxView, message: InboxMessage)
    ensures
        delivered(inbox, message).messages.len() <= MAX_MESSAGES_PER_THREAD,
{
}

/// First in, first out: in an inbox with room, a message that arrives is read
/// behind all that wait there, and their order stays. So a reader that takes any
/// message finds the one that arrived first.
pub proof fn law_inbox_is_fifo(
    before: Map<Seq<char>, InboxView>,
    after: Map<Seq<char>, InboxView>,
    id: Seq<char>,
    message: InboxMessage,
    r: Option<InboxMessage>,
)
    requires
        inbox_of(before, id).messages.len() < MAX_MESSAGES_PER_THREAD,
        popped(before.insert(id, delivered(inbox_of(before, id), message)), after, id, None, r),
    ensures
        r == Some(inbox_of(before, id).messages.push(message)[0]),
        after[id].messages == inbox_of(before, id).messages.push(message).skip(1),
{
    let m = before.insert(id, delivered(inbox_of(before, id), message));
    let all = inbox_of(before, id).messages.push(message);
    assert(inbox_of(m, id).messages =~= all);
    assert(wanted(all[0], None));
    let i = choose|i: int| #[trigger]
        first_wanted(all, None, i) && r == Some(all[i]) && after == m.insert(
            id,
            InboxView { messages: all.remove(i), ..inbox_of(m, id) },
        );
    if i > 0 {
        assert(!wanted(all[0], None));
    }
    assert(all.remove(0) =~= all.skip(1));
}

/// A reader that waits for one sender leaves the messages of all others where
/// they are, in their order.
pub proof fn law_targeted_read_keeps_other_senders(
    before: Map<Seq<char>, InboxView>,
    after: Map<Seq<char>, InboxView>,
    id: Seq<char>,
    sender: Seq<char>,
    r: Option<InboxMessage>,
)
    requires
        popped(before, after, id, Some(sender), r),
    ensures
        inbox_of(after, id).messages.filter(
            |m: InboxMessage| m.sender_agent_name@ != sender,
        ) == inbox_of(before, id).messages.filter(
            |m: InboxMessage| m.sender_agent_name@ != sender,
        ),
        r matches Some(m) ==> m.sender_agent_name@ == sender,
{
    let p = |m: InboxMessage| m.sender_agent_name@ != sender;
    let held = inbox_of(before, id).messages;
    if r is Some {
        let i = choose|i: int| #[trigger]
            first_wanted(held, Some(sender), i) && r == Some(held[i]) && after == before.insert(
                id,
                InboxView { messages: held.remove(i), ..inbox_of(before, id) },
            );
        lemma_filter_remove(held, p, i);
    }
}

proof fn lemma_filter_remove<T>(s: Seq<T>, p: spec_fn(T) -> bool, i: int)
    requires
        0 <= i < s.len(),
        !p(s[i]),
    ensures
        s.remove(i).filter(p) == s.filter(p),
    decreases s.len(),
{
    reveal(Seq::filter);
    if i == s.len() - 1 {
        assert(s.remove(i) =~= s.drop_last());
    } else {
        assert(s.remove(i).drop_last() =~= s.drop_last().remove(i));
        assert(s.remove(i).last() == s.last());
        lemma_filter_remove(s.drop_last(), p, i);
    }
}

/// A reply discharges the obligation once: from then on the inbox no longer
/// owes it, it counts as given, and giving it again changes nothing.
pub proof fn law_reply_discharges_once(
    m: Map<Seq<char>, InboxView>,
    id: Seq<char>,
    source: Seq<char>,
    message_id: Seq<char>,
)
    requires
        owes_reply(m, id, source, message_id),
    ensures
        ({
            let after = with_obligation(m, id, message_id, fulfilled(obligation(m, id, message_id)));
            &&& !owes_reply(after, id, source, message_id)
            &&& has_replied(after, id, source, message_id)
            &&& with_inbox(after, id) == after
        }),
{
    let after = with_obligation(m, id, message_id, fulfilled(obligation(m, id, message_id)));
    assert(with_inbox(after, id) =~= after);
}

/// Only the party that a reply is owed to is answered by it: an obligation that
/// another source registered stays open.
pub proof fn law_reply_to_other_source_is_not_owed(
    m: Map<Seq<char>, InboxView>,
    id: Seq<char>,
    source: Seq<char>,
    other: Seq<char>,
    message_id: Seq<char>,
)
    requires
        owes_reply(m, id, source, message_id),
        other != source,
    ensures
        !owes_reply(m, id, other, message_id),
{
}

/// Registering an obligation twice is registering it once.
pub proof fn law_registering_is_idempotent(
    m0: Map<Seq<char>, InboxView>,
    m1: Map<Seq<char>, InboxView>,
    m2: Map<Seq<char>, InboxView>,
    id: Seq<char>,
    source_inbox_id: Seq<char>,
    source_agent_name: Seq<char>,
    source_thread_id: ThreadId,
    message_id: Seq<char>,
    content: Seq<char>,
    other_content: Seq<char>,
)
    requires
        registered(
            m0,
            m1,
            id,
            source_inbox_id,
            source_agent_name,
            source_thread_id,
            message_id,
            content,
        ),
        registered(
            m1,
            m2,
            id,
            source_inbox_id,
            source_agent_name,
            source_thread_id,
            message_id,
            other_content,
        ),
    ensures
        m2 == m1,
{
    assert(m1.contains_key(id));
    assert(with_inbox(m1, id) =~= m1);
}

/// An obligation is reminded of at most `max` times: a reminder is only handed
/// out below that number, and raises the count by one.
pub proof fn law_reminders_are_bounded(
    m: Map<Seq<char>, InboxView>,
    thread: ThreadId,
    max: u8,
    key: ReplyKey,
)
    requires
        has_obligation(m, key.0, key.1),
    ensures
        ({
            let f = ReplyFilter::RemindFrom(thread, max);
            let after = changed(m, selected(m, f), one_more_reminder());
            let was = obligation(m, key.0, key.1);
            let is = obligation(after, key.0, key.1);
            &&& has_obligation(after, key.0, key.1)
            &&& chosen(m, f, key) ==> is.reminder_count == was.reminder_count + 1
                && is.reminder_count <= max
            &&& !chosen(m, f, key) ==> is == was
        }),
{
}

/// After the obligations of a thread were dropped, none registered by it is
/// left, and every other one is as it was.
pub proof fn law_clearing_spares_other_sources(
    m: Map<Seq<char>, InboxView>,
    thread: ThreadId,
    key: ReplyKey,
)
    ensures
        ({
            let f = ReplyFilter::RegisteredBy(thread);
            let after = without(m, selected(m, f));
            &&& has_obligation(after, key.0, key.1) <==> has_obligation(m, key.0, key.1)
                && obligation(m, key.0, key.1).source_thread_id != thread
            &&& has_obligation(after, key.0, key.1) ==> obligation(after, key.0, key.1)
                == obligation(m, key.0, key.1)
        }),
{
}

/// Reading back what was written: the inboxes of a snapshot are those it was
/// taken of, and reading it over them changes nothing.
pub proof fn law_snapshot_round_trip(m: Map<Seq<char>, InboxView>, s: InboxRuntimeSnapshot)
    requires
        inbox_views(s.by_inbox) == m,
        s.by_thread@ == Map::<Seq<char>, InboxState>::empty(),
    ensures
        snapshot_inboxes(s) == m,
        merged(m, s) == m,
        forall|id: Seq<char>| !brings_news(m, s, id),
{
    assert(snapshot_inboxes(s) =~= m);
    assert(merged(m, s) =~= m);
}

/// A message that arrives lies behind all others. Where there is no room for it, the
/// oldest leaves, and no other. It gets the next number, and nothing that is owed
/// changes.
pub proof fn law_arrivals_lie_behind_all(inbox: InboxView, message: InboxMessage)
    requires
        inbox.messages.len() <= 2048,
    ensures
        inbox.messages.len() < 2048 ==> delivered(inbox, message).messages == inbox.messages.push(
            message,
        ),
        inbox.messages.len() == 2048 ==> delivered(inbox, message).messages == inbox.messages.skip(
            1,
        ).push(message),
        inbox.next_seq < u64::MAX ==> delivered(inbox, message).next_seq == inbox.next_seq + 1,
        delivered(inbox, message).obligations == inbox.obligations,
        delivered(inbox, message).reply_seq == inbox.reply_seq,
{
    if inbox.messages.len() == 2048 {
        assert(delivered(inbox, message).messages =~= inbox.messages.skip(1).push(message));
    }
}

/// A reply that was not owed before is owed from then on: to whom and to what it was
/// asked for, without a reminder, and with the next number. What else is owed, and all
/// messages, stay as they are; so does all that is owed already.
pub proof fn law_registered_replies_are_owed(
    before: Map<Seq<char>, InboxView>,
    after: Map<Seq<char>, InboxView>,
    id: Seq<char>,
    source_inbox_id: Seq<char>,
    source_agent_name: Seq<char>,
    source_thread_id: ThreadId,
    message_id: Seq<char>,
    content: Seq<char>,
)
    requires
        registered(
            before,
            after,
            id,
            source_inbox_id,
            source_agent_name,
            source_thread_id,
            message_id,
            content,
        ),
    ensures
        has_obligation(after, id, message_id),
        has_obligation(before, id, message_id) ==> obligation(after, id, message_id) == obligation(
            before,
            id,
            message_id,
        ),
        !has_obligation(before, id, message_id) ==> {
            let o = obligation(after, id, message_id);
            &&& owes_reply(after, id, trim(source_inbox_id), message_id)
            &&& o.source_agent_name@ == source_agent_name
            &&& o.source_thread_id == source_thread_id
            &&& o.message_id@ == message_id
            &&& o.content@ == content
            &&& o.reminder_count == 0
            &&& !o.observed_by_source_wait
            &&& inbox_of(before, id).reply_seq < u64::MAX ==> o.first_seen_seq == inbox_of(
                before,
                id,
            ).reply_seq + 1
        },
        forall|x: Seq<char>, y: Seq<char>|
            x != id || y != message_id ==> (#[trigger] has_obligation(after, x, y)
                == has_obligation(before, x, y)) && (has_obligation(before, x, y) ==> obligation(
                after,
                x,
                y,
            ) == obligation(before, x, y)),
        forall|x: Seq<char>| (#[trigger] inbox_of(after, x)).messages == inbox_of(before, x).messages,
{
}

/// Which replies are meant: those of one inbox, of one source or of one thread. Only
/// where all of a thread are meant are replies that were given among them. None is
/// reminded of as often as may be, nor one that the waiting thread has seen, unless
/// all of its inbox are.
pub proof fn law_filters_select(f: ReplyFilter, inbox: Seq<char>, o: RequiredReplyObligation)
    ensures
        f matches ReplyFilter::UnresolvedAt(id) ==> (selects(f, inbox, o) <==> inbox == id@
            && !o.resolved),
        f matches ReplyFilter::UnresolvedFrom(id) ==> (selects(f, inbox, o) <==> trim(
            o.source_inbox_id@,
        ) == id@ && !o.resolved),
        f matches ReplyFilter::RemindFrom(t, max) ==> (selects(f, inbox, o) <==> o.source_thread_id
            == t && !o.resolved && !o.observed_by_source_wait && o.reminder_count < max),
        f matches ReplyFilter::RemindAt(id, max) ==> (selects(f, inbox, o) <==> inbox == id@
            && !o.resolved && o.reminder_count < max),
        f matches ReplyFilter::RemindUnobservedAt(id, max) ==> (selects(f, inbox, o) <==> inbox
            == id@ && !o.resolved && !o.observed_by_source_wait && o.reminder_count < max),
        f matches ReplyFilter::UnobservedFrom(t) ==> (selects(f, inbox, o) <==> o.source_thread_id
            == t && !o.resolved && !o.observed_by_source_wait),
        f matches ReplyFilter::RegisteredBy(t) ==> (selects(f, inbox, o) <==> o.source_thread_id
            == t),
{
}

/// Replies are listed in the order in which they were asked for.
pub proof fn law_lists_are_in_order(
    m: Map<Seq<char>, InboxView>,
    f: ReplyFilter,
    keys: Seq<ReplyKey>,
    i: int,
    j: int,
)
    requires
        listed(m, f, keys),
        0 <= i < j < keys.len(),
    ensures
        obligation(m, keys[i].0, keys[i].1).first_seen_seq <= obligation(
            m,
            keys[j].0,
            keys[j].1,
        ).first_seen_seq,
        keys[i] != keys[j],
        chosen(m, f, keys[i]),
{
    assert(!key_before(m, f, keys[j], keys[i]));
    assert(keys.contains(keys[i]));
}

/// A reply that is given, reminded of or seen changes in that alone.
pub proof fn law_obligations_change_in_one_thing(o: RequiredReplyObligation)
    ensures
        fulfilled(o).resolved,
        fulfilled(o) == (RequiredReplyObligation { resolved: true, ..o }),
        observed(o).observed_by_source_wait,
        observed(o).resolved == o.resolved,
        observed(o).reminder_count == o.reminder_count,
        o.reminder_count < 255 ==> reminded(o).reminder_count == o.reminder_count + 1,
        reminded(o).resolved == o.resolved,
        reminded(o).observed_by_source_wait == o.observed_by_source_wait,
        reminded(o).message_id == o.message_id,
        reminded(o).first_seen_seq == o.first_seen_seq,
{
}

/// Of a snapshot, an inbox of the old layout counts only where there is none of the
/// new one; and what a snapshot does not hold stays.
pub proof fn law_snapshots_are_merged(
    m: Map<Seq<char>, InboxView>,
    s: InboxRuntimeSnapshot,
    id: Seq<char>,
)
    ensures
        inbox_views(s.by_inbox).contains_key(id) ==> merged(m, s).contains_key(id) && merged(m, s)[id]
            == inbox_views(s.by_inbox)[id],
        !inbox_views(s.by_inbox).contains_key(id) && inbox_views(s.by_thread).contains_key(id)
            ==> merged(m, s).contains_key(id) && merged(m, s)[id] == inbox_views(s.by_thread)[id],
        !inbox_views(s.by_inbox).contains_key(id) && !inbox_views(s.by_thread).contains_key(id)
            ==> merged(m, s).contains_key(id) == m.contains_key(id) && (m.contains_key(id)
            ==> merged(m, s)[id] == m[id]),
{
}

/// A message that arrives is the last of the inbox it is for, whole and under the next
/// number; no other inbox changes, and nothing that is owed.
pub proof fn law_messages_arrive_where_they_are_for(
    before: Map<Seq<char>, InboxView>,
    after: Map<Seq<char>, InboxView>,
    id: Seq<char>,
    seq: u64,
    message: InboxMessage,
    other: Seq<char>,
)
    requires
        arrives(before, after, id, seq, message),
    ensures
        inbox_of(after, id).messages.len() > 0,
        inbox_of(after, id).messages.last() == message,
        inbox_of(before, id).messages.len() < 2048 ==> inbox_of(after, id).messages.drop_last()
            == inbox_of(before, id).messages,
        inbox_of(before, id).next_seq < u64::MAX ==> seq == inbox_of(before, id).next_seq + 1,
        inbox_of(after, id).next_seq == seq,
        inbox_of(after, id).obligations == inbox_of(before, id).obligations,
        other != id ==> inbox_of(after, other) == inbox_of(before, other),
{
    if inbox_of(before, id).messages.len() < 2048 {
        assert(inbox_of(after, id).messages.drop_last() =~= inbox_of(before, id).messages);
    }
}

/// A plain message asks for no reply, and is from whom it says.
pub proof fn law_plain_messages_ask_for_nothing(
    before: Map<Seq<char>, InboxView>,
    after: Map<Seq<char>, InboxView>,
    id: Seq<char>,
    seq: u64,
    sender_agent_name: String,
    message_id: String,
    reply_to_message_id: Option<String>,
    content: String,
)
    requires
        arrives_unasked(
            before,
            after,
            id,
            seq,
            sender_agent_name,
            message_id,
            reply_to_message_id,
            content,
        ),
    ensures
        ({
            let m = inbox_of(after, id).messages.last();
            &&& inbox_of(after, id).messages.len() > 0
            &&& !m.need_reply
            &&& m.sender_agent_name == sender_agent_name
            &&& m.message_id == message_id
            &&& m.reply_to_message_id == reply_to_message_id
            &&& m.content == content
            &&& m.seq == seq
        }),
{
}

/// A reply settles what is owed to whom it goes to, if it is owed and not given yet;
/// all else that is owed stays, and no message leaves.
pub proof fn law_replies_settle_what_is_owed(
    r: bool,
    before: Map<Seq<char>, InboxView>,
    after: Map<Seq<char>, InboxView>,
    id: Seq<char>,
    source: Option<Seq<char>>,
    message_id: Seq<char>,
    x: Seq<char>,
    y: Seq<char>,
)
    requires
        resolves(r, before, after, id, source, message_id),
    ensures
        r <==> has_obligation(before, id, message_id) && !obligation(
            before,
            id,
            message_id,
        ).resolved && (source is Some ==> trim(
            obligation(before, id, message_id).source_inbox_id@,
        ) == source->0),
        r ==> reply_state(after, id, message_id) == Some(true),
        !r ==> reply_state(after, id, message_id) == reply_state(before, id, message_id),
        x != id || y != message_id ==> has_obligation(after, x, y) == has_obligation(before, x, y)
            && (has_obligation(before, x, y) ==> obligation(after, x, y) == obligation(
            before,
            x,
            y,
        )),
        inbox_of(after, x).messages == inbox_of(before, x).messages,
        !still_owes(after, id, message_id) || !r,
{
}

/// A thread is reminded of what it is owed, as long as no wait of it has seen that and
/// it was reminded fewer times than it may be: each of these counts one more, and all
/// others stay. Those it was reminded of are handed out.
pub proof fn law_threads_are_reminded_of_what_they_are_owed(
    r: Seq<PendingRequiredReplyObligation>,
    before: Map<Seq<char>, InboxView>,
    after: Map<Seq<char>, InboxView>,
    source: ThreadId,
    max: u8,
    x: Seq<char>,
    y: Seq<char>,
)
    requires
        claims_from(r, before, after, source, max),
        has_obligation(before, x, y),
    ensures
        has_obligation(after, x, y),
        ({
            let o = obligation(before, x, y);
            let p = obligation(after, x, y);
            let due = o.source_thread_id == source && !o.resolved && !o.observed_by_source_wait
                && o.reminder_count < max;
            &&& due ==> p.reminder_count == o.reminder_count + 1 && p.message_id == o.message_id
                && !p.resolved && exists|i: int|
                0 <= i < r.len() && (#[trigger] r[i]).obligation == p && r[i].receiver_inbox_id@ == x
            &&& !due ==> p == o
        }),
{
    let f = ReplyFilter::RemindFrom(source, max);
    let keys = choose|keys: Seq<ReplyKey>| #[trigger]
        listed(before, f, keys) && pending_are(r, before, keys, one_more_reminder());
    if chosen(before, f, (x, y)) {
        assert(keys.contains((x, y)));
        let i = keys.index_of((x, y));
        assert(pending_is(r[i], keys[i], reminded(obligation(before, x, y))));
    }
}

/// An inbox is reminded of the replies that it owes, as long as it was reminded fewer
/// times than it may be; where only unseen ones are claimed, of those that no wait has
/// seen. Other inboxes' replies stay.
pub proof fn law_inboxes_are_reminded_of_what_they_owe(
    r: Seq<RequiredReplyObligation>,
    u: Seq<RequiredReplyObligation>,
    before: Map<Seq<char>, InboxView>,
    after: Map<Seq<char>, InboxView>,
    unseen: Map<Seq<char>, InboxView>,
    receiver: Seq<char>,
    max: u8,
    x: Seq<char>,
    y: Seq<char>,
)
    requires
        claims_at(r, before, after, receiver, max),
        claims_unseen_at(u, before, unseen, receiver, max),
        has_obligation(before, x, y),
    ensures
        ({
            let o = obligation(before, x, y);
            let due = x == receiver && !o.resolved && o.reminder_count < max;
            &&& has_obligation(after, x, y) && has_obligation(unseen, x, y)
            &&& due ==> obligation(after, x, y).reminder_count == o.reminder_count + 1
            &&& !due ==> obligation(after, x, y) == o
            &&& due && !o.observed_by_source_wait ==> obligation(unseen, x, y).reminder_count
                == o.reminder_count + 1
            &&& !due || o.observed_by_source_wait ==> obligation(unseen, x, y) == o
        }),
{
    let (k, id) = choose|keys: Seq<ReplyKey>, id: String|
        id@ == receiver && #[trigger] listed(
            with_inbox(before, id@),
            ReplyFilter::RemindAt(id, max),
            keys,
        ) && obligations_are(r, with_inbox(before, id@), keys, one_more_reminder()) && after
            == changed(
            with_inbox(before, id@),
            selected(with_inbox(before, id@), ReplyFilter::RemindAt(id, max)),
            one_more_reminder(),
        );
    let (l, jd) = choose|keys: Seq<ReplyKey>, id: String|
        id@ == receiver && #[trigger] listed(
            with_inbox(before, id@),
            ReplyFilter::RemindUnobservedAt(id, max),
            keys,
        ) && obligations_are(u, with_inbox(before, id@), keys, one_more_reminder()) && unseen
            == changed(
            with_inbox(before, id@),
            selected(with_inbox(before, id@), ReplyFilter::RemindUnobservedAt(id, max)),
            one_more_reminder(),
        );
    assert(obligation(with_inbox(before, receiver), x, y) == obligation(before, x, y));
}

/// A wait sees what its thread is owed and has not got; nothing else is marked, and
/// where nothing was to be marked, nothing changes.
pub proof fn law_waits_see_what_is_owed(
    marked: nat,
    before: Map<Seq<char>, InboxView>,
    after: Map<Seq<char>, InboxView>,
    source: ThreadId,
    x: Seq<char>,
    y: Seq<char>,
)
    requires
        marks_seen(marked, before, after, source),
        has_obligation(before, x, y),
    ensures
        ({
            let o = obligation(before, x, y);
            let p = obligation(after, x, y);
            &&& has_obligation(after, x, y)
            &&& o.source_thread_id == source && !o.resolved ==> p.observed_by_source_wait
            &&& o.source_thread_id == source && !o.resolved && !o.observed_by_source_wait ==> marked
                > 0
            &&& o.source_thread_id != source || o.resolved ==> p == o
            &&& p.reminder_count == o.reminder_count && p.resolved == o.resolved
        }),
{
    let f = ReplyFilter::UnobservedFrom(source);
    let keys = choose|keys: Seq<ReplyKey>| #[trigger]
        listed(before, f, keys) && marked == keys.len();
    if chosen(before, f, (x, y)) {
        assert(keys.contains((x, y)));
    }
}

/// What an inbox owed is dropped with it, and what a thread is owed with that thread;
/// all else stays, and no message leaves.
pub proof fn law_dropped_obligations_are_gone(
    cleared: nat,
    dropped: nat,
    before: Map<Seq<char>, InboxView>,
    after: Map<Seq<char>, InboxView>,
    left: Map<Seq<char>, InboxView>,
    id: Seq<char>,
    source: ThreadId,
    x: Seq<char>,
    y: Seq<char>,
)
    requires
        clears_at(cleared, before, after, id),
        clears_from(dropped, before, left, source),
    ensures
        !has_obligation(after, id, y),
        x != id ==> has_obligation(after, x, y) == has_obligation(before, x, y) && (has_obligation(
            before,
            x,
            y,
        ) ==> obligation(after, x, y) == obligation(before, x, y)),
        has_obligation(left, x, y) <==> has_obligation(before, x, y) && obligation(
            before,
            x,
            y,
        ).source_thread_id != source,
        has_obligation(before, x, y) && obligation(before, x, y).source_thread_id == source
            ==> dropped > 0,
        inbox_of(after, x).messages == inbox_of(before, x).messages,
        inbox_of(left, x).messages == inbox_of(before, x).messages,
{
    let f = ReplyFilter::RegisteredBy(source);
    let keys = choose|keys: Seq<ReplyKey>| #[trigger]
        listed(before, f, keys) && dropped == keys.len();
    if chosen(before, f, (x, y)) {
        assert(keys.contains((x, y)));
    }
}

/// The store is where it is configured to be, or else where the environment says, or
/// else below the home directory.
pub proof fn law_where_the_store_is(
    configured: Option<Seq<char>>,
    environment: Option<Seq<char>>,
    codex_home: Option<Seq<char>>,
)
    ensures
        configured is Some ==> store_place(configured, environment, codex_home) == configured,
        configured is None && environment is Some ==> store_place(
            configured,
            environment,
            codex_home,
        ) == environment,
        configured is None && environment is None && codex_home is Some ==> store_place(
            configured,
            environment,
            codex_home,
        ) == Some(path_join(codex_home->0, "office/collab_inbox.json"@)),
        configured is None && environment is None && codex_home is None ==> store_place(
            configured,
            environment,
            codex_home,
        ) is None,
{
}

/// Readers are woken where a snapshot has seen messages that the inbox had not.
pub proof fn law_news_wake_readers(
    m: Map<Seq<char>, InboxView>,
    s: InboxRuntimeSnapshot,
    id: Seq<char>,
)
    ensures
        inbox_views(s.by_inbox).contains_key(id) ==> (brings_news(m, s, id) <==> inbox_views(
            s.by_inbox,
        )[id].next_seq > inbox_of(m, id).next_seq),
        !inbox_views(s.by_inbox).contains_key(id) && !inbox_views(s.by_thread).contains_key(id)
            ==> !brings_news(m, s, id),
        brings_news(m, s, id) ==> inbox_of(merged(m, s), id).next_seq > inbox_of(m, id).next_seq,
{
}

} // verus!
