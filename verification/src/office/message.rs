//! Messages between the participants of the office, and who owes whom a reply.
use crate::table::{copy_table, Copied, Table};
use crate::text::{copy_opt, opt_text, same_text};
use vstd::prelude::*;

verus! {

/// What a participant is known by.
#[derive(Clone, Debug, Eq, PartialEq, Hash)]
pub struct ParticipantId(String);

impl View for ParticipantId {
    type V = Seq<char>;

    closed spec fn view(&self) -> Seq<char> {
        self.0@
    }
}

impl From<&str> for ParticipantId {
    fn from(value: &str) -> (r: ParticipantId)
        ensures
            r@ == value@,
    {
        ParticipantId::new(value)
    }
}

/// The characters fix a participant, but not the string that holds them: `from`
/// says what it gives by its view.
impl vstd::std_specs::convert::FromSpecImpl<&str> for ParticipantId {
    open spec fn obeys_from_spec() -> bool {
        false
    }

    open spec fn from_spec(value: &str) -> ParticipantId {
        choose|p: ParticipantId| p@ == value@
    }
}

impl From<String> for ParticipantId {
    fn from(value: String) -> (r: ParticipantId)
        ensures
            r@ == value@,
    {
        ParticipantId(value)
    }
}

impl vstd::std_specs::convert::FromSpecImpl<String> for ParticipantId {
    open spec fn obeys_from_spec() -> bool {
        true
    }

    closed spec fn from_spec(value: String) -> ParticipantId {
        ParticipantId(value)
    }
}

impl ParticipantId {
    pub fn new(id: &str) -> (r: ParticipantId)
        ensures
            r@ == id@,
    {
        ParticipantId(id.to_string())
    }

    pub fn as_str(&self) -> (r: &str)
        ensures
            r@ == self@,
    {
        self.0.as_str()
    }

    pub fn copy(&self) -> (r: ParticipantId)
        ensures
            r@ == self@,
    {
        ParticipantId(self.0.clone())
    }

    /// Whether both are the same participant.
    pub fn is(&self, other: &ParticipantId) -> (r: bool)
        ensures
            r == (self@ == other@),
    {
        same_text(self.0.as_str(), other.0.as_str())
    }
}

#[derive(Clone, Copy, Debug, Eq, PartialEq, Hash, Structural)]
pub enum ParticipantKind {
    Agent,
    Human,
}

#[derive(Clone, Debug, Eq, PartialEq)]
pub struct Participant {
    pub id: ParticipantId,
    pub kind: ParticipantKind,
    pub display_name: String,
}

#[derive(Clone, Debug, Eq, PartialEq)]
pub struct CollabMessage {
    pub message_id: String,
    pub from: ParticipantId,
    pub to: ParticipantId,
    pub content: String,
    pub need_reply: bool,
    pub reply_to_message_id: Option<String>,
}

#[derive(Clone, Debug, Eq, PartialEq)]
pub enum MessageDelivery {
    AgentQueued { target_id: ParticipantId },
    HumanQueued { target_id: ParticipantId },
}

#[derive(Clone, Debug, Eq, PartialEq)]
pub enum MessageHubError {
    UnknownSender { sender_id: ParticipantId },
    UnknownTarget { target_id: ParticipantId },
}

#[derive(Clone, Debug, Eq, PartialEq)]
pub struct ReplyObligation {
    pub message_id: String,
    pub requester: ParticipantId,
    pub target: ParticipantId,
    pub resolved_by: Option<String>,
}

#[derive(Clone, Debug)]
pub struct ReplyObligationBook {
    obligations: Table<ReplyObligation>,
}

#[derive(Clone, Debug)]
pub struct OfficeMessageHub {
    participants: Table<Participant>,
    inboxes: Table<Vec<CollabMessage>>,
    obligations: ReplyObligationBook,
}

#[derive(Clone, Debug)]
pub struct OfficeMessageHubSnapshot {
    pub participants: Table<Participant>,
    pub inboxes: Table<Vec<CollabMessage>>,
    pub obligations: ReplyObligationBook,
}

// ---------------------------------------------------------------------------
// Models
// ---------------------------------------------------------------------------

#[verifier::ext_equal]
pub struct ParticipantModel {
    pub id: Seq<char>,
    pub kind: ParticipantKind,
    pub display_name: Seq<char>,
}

#[verifier::ext_equal]
pub struct MessageModel {
    pub message_id: Seq<char>,
    pub from: Seq<char>,
    pub to: Seq<char>,
    pub content: Seq<char>,
    pub need_reply: bool,
    pub reply_to_message_id: Option<Seq<char>>,
}

#[verifier::ext_equal]
pub struct ObligationModel {
    pub message_id: Seq<char>,
    pub requester: Seq<char>,
    pub target: Seq<char>,
    pub resolved_by: Option<Seq<char>>,
}

#[verifier::ext_equal]
pub struct HubModel {
    pub participants: Map<Seq<char>, ParticipantModel>,
    pub inboxes: Map<Seq<char>, Seq<MessageModel>>,
    pub obligations: Map<Seq<char>, ObligationModel>,
}

impl View for Participant {
    type V = ParticipantModel;

    open spec fn view(&self) -> ParticipantModel {
        ParticipantModel { id: self.id@, kind: self.kind, display_name: self.display_name@ }
    }
}

impl View for CollabMessage {
    type V = MessageModel;

    open spec fn view(&self) -> MessageModel {
        MessageModel {
            message_id: self.message_id@,
            from: self.from@,
            to: self.to@,
            content: self.content@,
            need_reply: self.need_reply,
            reply_to_message_id: opt_text(self.reply_to_message_id),
        }
    }
}

impl View for ReplyObligation {
    type V = ObligationModel;

    open spec fn view(&self) -> ObligationModel {
        ObligationModel {
            message_id: self.message_id@,
            requester: self.requester@,
            target: self.target@,
            resolved_by: opt_text(self.resolved_by),
        }
    }
}

impl View for ReplyObligationBook {
    type V = Map<Seq<char>, ObligationModel>;

    closed spec fn view(&self) -> Map<Seq<char>, ObligationModel> {
        self.obligations@.map_values(|o: ReplyObligation| o@)
    }
}

pub open spec fn message_models(v: Seq<CollabMessage>) -> Seq<MessageModel> {
    v.map_values(|m: CollabMessage| m@)
}

pub open spec fn hub_model(
    participants: Map<Seq<char>, Participant>,
    inboxes: Map<Seq<char>, Vec<CollabMessage>>,
    obligations: Map<Seq<char>, ObligationModel>,
) -> HubModel {
    HubModel {
        participants: participants.map_values(|p: Participant| p@),
        inboxes: inboxes.map_values(|v: Vec<CollabMessage>| message_models(v@)),
        obligations,
    }
}

impl View for OfficeMessageHubSnapshot {
    type V = HubModel;

    open spec fn view(&self) -> HubModel {
        hub_model(self.participants@, self.inboxes@, self.obligations@)
    }
}

impl View for OfficeMessageHub {
    type V = HubModel;

    closed spec fn view(&self) -> HubModel {
        hub_model(self.participants@, self.inboxes@, self.obligations@)
    }
}

/// What waits for a participant, oldest first.
pub open spec fn inbox_of(m: HubModel, id: Seq<char>) -> Seq<MessageModel> {
    if m.inboxes.contains_key(id) {
        m.inboxes[id]
    } else {
        Seq::empty()
    }
}

/// The obligations after a message: one that asks for a reply opens an
/// obligation, one that answers another settles what its sender owed to whom it
/// goes.
pub open spec fn obligations_after(
    o: Map<Seq<char>, ObligationModel>,
    m: MessageModel,
) -> Map<Seq<char>, ObligationModel> {
    let asked = if m.need_reply {
        o.insert(
            m.message_id,
            ObligationModel {
                message_id: m.message_id,
                requester: m.from,
                target: m.to,
                resolved_by: None,
            },
        )
    } else {
        o
    };
    match m.reply_to_message_id {
        Some(id) => if asked.contains_key(id) && asked[id].requester == m.to && asked[id].target
            == m.from {
            asked.insert(id, ObligationModel { resolved_by: Some(m.message_id), ..asked[id] })
        } else {
            asked
        },
        None => asked,
    }
}

/// The hub after a message was queued for whom it goes to.
pub open spec fn hub_after(m: HubModel, message: MessageModel) -> HubModel {
    HubModel {
        inboxes: m.inboxes.insert(message.to, inbox_of(m, message.to).push(message)),
        obligations: obligations_after(m.obligations, message),
        ..m
    }
}

/// The hub without the message at `i` in the inbox of `id`.
pub open spec fn without_message(m: HubModel, id: Seq<char>, i: int) -> HubModel {
    HubModel { inboxes: m.inboxes.insert(id, inbox_of(m, id).remove(i)), ..m }
}

/// The place of the first message of a sender, or the number of messages.
pub open spec fn first_from(s: Seq<MessageModel>, sender: Seq<char>) -> int
    decreases s.len(),
{
    if s.len() == 0 {
        0
    } else if s[0].from == sender {
        0
    } else {
        1 + first_from(s.skip(1), sender)
    }
}

pub proof fn lemma_first_from(s: Seq<MessageModel>, sender: Seq<char>)
    ensures
        0 <= first_from(s, sender) <= s.len(),
        first_from(s, sender) < s.len() ==> s[first_from(s, sender)].from == sender,
        forall|j: int| 0 <= j < first_from(s, sender) ==> (#[trigger] s[j]).from != sender,
    decreases s.len(),
{
    if s.len() > 0 && s[0].from != sender {
        lemma_first_from(s.skip(1), sender);
        assert forall|j: int| 0 <= j < first_from(s, sender) implies (#[trigger] s[j]).from
            != sender by {
            if j > 0 {
                assert(s.skip(1)[j - 1] == s[j]);
            }
        }
    }
}

/// The place of the first message of a sender is the only one of its kind.
pub proof fn lemma_first_from_is(s: Seq<MessageModel>, sender: Seq<char>, i: int)
    requires
        0 <= i <= s.len(),
        i < s.len() ==> s[i].from == sender,
        forall|j: int| 0 <= j < i ==> (#[trigger] s[j]).from != sender,
    ensures
        first_from(s, sender) == i,
{
    lemma_first_from(s, sender);
    let k = first_from(s, sender);
    if k < i {
        assert(s[k].from != sender);
    }
    if i < k {
        assert(s[i].from != sender);
    }
}

/// Whether a participant was made known, and whom it was known as before.
pub open spec fn registers(
    r: Option<Participant>,
    was: HubModel,
    m: HubModel,
    p: ParticipantModel,
) -> bool {
    &&& m == (HubModel { participants: was.participants.insert(p.id, p), ..was })
    &&& match r {
        Some(q) => was.participants.contains_key(p.id) && q@ == was.participants[p.id],
        None => !was.participants.contains_key(p.id),
    }
}

/// Whether this is what it comes to that a message is sent.
pub open spec fn sends(
    r: Result<MessageDelivery, MessageHubError>,
    was: HubModel,
    m: HubModel,
    message: MessageModel,
) -> bool {
    &&& !was.participants.contains_key(message.from) ==> m == was && (
    r matches Err(MessageHubError::UnknownSender { sender_id }) && sender_id@ == message.from)
    &&& was.participants.contains_key(message.from) && !was.participants.contains_key(message.to)
        ==> m == was && (r matches Err(MessageHubError::UnknownTarget { target_id }) && target_id@
        == message.to)
    &&& was.participants.contains_key(message.from) && was.participants.contains_key(message.to)
        ==> m == hub_after(was, message) && match was.participants[message.to].kind {
        ParticipantKind::Agent => r matches Ok(MessageDelivery::AgentQueued { target_id })
            && target_id@ == was.participants[message.to].id,
        ParticipantKind::Human => r matches Ok(MessageDelivery::HumanQueued { target_id })
            && target_id@ == was.participants[message.to].id,
    }
}

/// Whether the oldest message was taken out of an inbox.
pub open spec fn pops(r: Option<CollabMessage>, was: HubModel, m: HubModel, target: Seq<char>) -> bool {
    match r {
        Some(c) => inbox_of(was, target).len() > 0 && c@ == inbox_of(was, target)[0] && m
            == without_message(was, target, 0),
        None => inbox_of(was, target).len() == 0 && m == was,
    }
}

/// Whether the oldest message of a sender was taken out of an inbox.
pub open spec fn pops_from(
    r: Option<CollabMessage>,
    was: HubModel,
    m: HubModel,
    target: Seq<char>,
    sender: Seq<char>,
) -> bool {
    let s = inbox_of(was, target);
    let i = first_from(s, sender);
    match r {
        Some(c) => i < s.len() && c@ == s[i] && m == without_message(was, target, i),
        None => i >= s.len() && m == was,
    }
}

// ---------------------------------------------------------------------------
// Participants and messages
// ---------------------------------------------------------------------------

pub open spec fn known_as(id: Seq<char>, kind: ParticipantKind, display_name: Seq<char>) -> ParticipantModel {
    ParticipantModel { id, kind, display_name }
}

/// A message that asks for nothing and answers nothing.
pub open spec fn plain(
    message_id: Seq<char>,
    from: Seq<char>,
    to: Seq<char>,
    content: Seq<char>,
) -> MessageModel {
    MessageModel { message_id, from, to, content, need_reply: false, reply_to_message_id: None }
}

/// A message that asks for a reply.
pub open spec fn asking(m: MessageModel) -> MessageModel {
    MessageModel { need_reply: true, ..m }
}

/// A message that answers another one.
pub open spec fn answering(m: MessageModel, id: Seq<char>) -> MessageModel {
    MessageModel { reply_to_message_id: Some(id), ..m }
}

impl Participant {
    pub fn agent(id: ParticipantId, display_name: &str) -> (r: Participant)
        ensures
            r@ == known_as(id@, ParticipantKind::Agent, display_name@),
    {
        Participant { id, kind: ParticipantKind::Agent, display_name: display_name.to_string() }
    }

    pub fn human(id: ParticipantId, display_name: &str) -> (r: Participant)
        ensures
            r@ == known_as(id@, ParticipantKind::Human, display_name@),
    {
        Participant { id, kind: ParticipantKind::Human, display_name: display_name.to_string() }
    }
}

impl Copied for Participant {
    type Model = ParticipantModel;

    open spec fn model(&self) -> ParticipantModel {
        self@
    }

    fn duplicate(&self) -> (r: Participant) {
        Participant {
            id: self.id.copy(),
            kind: self.kind,
            display_name: self.display_name.clone(),
        }
    }
}

impl CollabMessage {
    pub fn new(message_id: &str, from: ParticipantId, to: ParticipantId, content: &str) -> (r:
        CollabMessage)
        ensures
            r@ == plain(message_id@, from@, to@, content@),
    {
        CollabMessage {
            message_id: message_id.to_string(),
            from,
            to,
            content: content.to_string(),
            need_reply: false,
            reply_to_message_id: None,
        }
    }

    pub fn need_reply(self) -> (r: CollabMessage)
        ensures
            r@ == asking(self@),
    {
        let mut message = self;
        message.need_reply = true;
        message
    }

    pub fn reply_to(self, message_id: &str) -> (r: CollabMessage)
        ensures
            r@ == answering(self@, message_id@),
    {
        let mut message = self;
        message.reply_to_message_id = Some(message_id.to_string());
        message
    }

    pub fn copy(&self) -> (r: CollabMessage)
        ensures
            r@ == self@,
    {
        CollabMessage {
            message_id: self.message_id.clone(),
            from: self.from.copy(),
            to: self.to.copy(),
            content: self.content.clone(),
            need_reply: self.need_reply,
            reply_to_message_id: copy_opt(&self.reply_to_message_id),
        }
    }
}

fn copy_messages(v: &Vec<CollabMessage>) -> (r: Vec<CollabMessage>)
    ensures
        message_models(r@) == message_models(v@),
{
    let mut out: Vec<CollabMessage> = Vec::new();
    let ghost all = message_models(v@);
    let mut i: usize = 0;
    assert(message_models(out@) =~= all.take(0));
    while i < v.len()
        invariant
            i <= v@.len(),
            all == message_models(v@),
            message_models(out@) == all.take(i as int),
        decreases v@.len() - i,
    {
        let ghost before = message_models(out@);
        let m = v[i].copy();
        out.push(m);
        i = i + 1;
        assert(message_models(out@) =~= before.push(m@));
        assert(all.take(i as int) =~= all.take(i - 1).push(all[i - 1]));
    }
    assert(all.take(i as int) =~= all);
    out
}

impl Copied for Vec<CollabMessage> {
    type Model = Seq<MessageModel>;

    open spec fn model(&self) -> Seq<MessageModel> {
        message_models(self@)
    }

    fn duplicate(&self) -> (r: Vec<CollabMessage>) {
        copy_messages(self)
    }
}

// ---------------------------------------------------------------------------
// Obligations
// ---------------------------------------------------------------------------

impl ReplyObligation {
    /// Whether the reply was given.
    pub fn resolved(&self) -> (r: bool)
        ensures
            r == self@.resolved_by is Some,
    {
        self.resolved_by.is_some()
    }
}

impl Copied for ReplyObligation {
    type Model = ObligationModel;

    open spec fn model(&self) -> ObligationModel {
        self@
    }

    fn duplicate(&self) -> (r: ReplyObligation) {
        ReplyObligation {
            message_id: self.message_id.clone(),
            requester: self.requester.copy(),
            target: self.target.copy(),
            resolved_by: copy_opt(&self.resolved_by),
        }
    }
}

impl Default for ReplyObligationBook {
    fn default() -> (r: ReplyObligationBook)
        ensures
            r@ == Map::<Seq<char>, ObligationModel>::empty(),
    {
        ReplyObligationBook::new()
    }
}

impl ReplyObligationBook {
    pub fn new() -> (r: ReplyObligationBook)
        ensures
            r@ == Map::<Seq<char>, ObligationModel>::empty(),
    {
        let r = ReplyObligationBook { obligations: Table::new() };
        assert(r@ =~= Map::<Seq<char>, ObligationModel>::empty());
        r
    }

    /// Notes what a message asks for and what it settles.
    pub fn record_message(&mut self, message: &CollabMessage)
        ensures
            final(self)@ == obligations_after(old(self)@, message@),
    {
        let ghost before = self@;
        if message.need_reply {
            let o = ReplyObligation {
                message_id: message.message_id.clone(),
                requester: message.from.copy(),
                target: message.to.copy(),
                resolved_by: None,
            };
            self.obligations.insert(message.message_id.clone(), o);
            assert(self@ =~= before.insert(message.message_id@, o@));
        }
        let ghost asked = self@;
        if let Some(id) = &message.reply_to_message_id {
            if let Some(found) = self.obligations.get(id.as_str()) {
                if found.requester.is(&message.to) && found.target.is(&message.from) {
                    let mut o = found.duplicate();
                    o.resolved_by = Some(message.message_id.clone());
                    self.obligations.insert(id.clone(), o);
                    assert(self@ =~= asked.insert(id@, o@));
                }
            }
        }
    }

    pub fn get(&self, message_id: &str) -> (r: Option<&ReplyObligation>)
        ensures
            match r {
                Some(o) => self@.contains_key(message_id@) && o@ == self@[message_id@],
                None => !self@.contains_key(message_id@),
            },
    {
        self.obligations.get(message_id)
    }

    pub fn copy(&self) -> (r: ReplyObligationBook)
        ensures
            r@ == self@,
    {
        let r = ReplyObligationBook { obligations: copy_table(&self.obligations) };
        assert(r@ =~= self@);
        r
    }
}

// ---------------------------------------------------------------------------
// The hub
// ---------------------------------------------------------------------------

impl Default for OfficeMessageHub {
    fn default() -> (r: OfficeMessageHub)
        ensures
            r@ == (HubModel {
                participants: Map::empty(),
                inboxes: Map::empty(),
                obligations: Map::empty(),
            }),
    {
        OfficeMessageHub::new()
    }
}

impl Default for OfficeMessageHubSnapshot {
    fn default() -> (r: OfficeMessageHubSnapshot)
        ensures
            r@ == (HubModel {
                participants: Map::empty(),
                inboxes: Map::empty(),
                obligations: Map::empty(),
            }),
    {
        OfficeMessageHub::new().snapshot()
    }
}

impl OfficeMessageHub {
    pub fn new() -> (r: OfficeMessageHub)
        ensures
            r@ == (HubModel {
                participants: Map::empty(),
                inboxes: Map::empty(),
                obligations: Map::empty(),
            }),
    {
        let r = OfficeMessageHub {
            participants: Table::new(),
            inboxes: Table::new(),
            obligations: ReplyObligationBook::new(),
        };
        assert(r@.participants =~= Map::<Seq<char>, ParticipantModel>::empty());
        assert(r@.inboxes =~= Map::<Seq<char>, Seq<MessageModel>>::empty());
        r
    }

    /// Makes a participant known; hands back whom it was known as before.
    pub fn register(&mut self, participant: Participant) -> (r: Option<Participant>)
        ensures
            registers(r, old(self)@, final(self)@, participant@),
    {
        let ghost before = self@;
        let ghost p = participant@;
        let key = participant.id.as_str().to_string();
        let r = self.participants.insert(key, participant);
        assert(self@.participants =~= before.participants.insert(p.id, p));
        r
    }

    pub fn resolve(&self, target_id: &ParticipantId) -> (r: Option<&Participant>)
        ensures
            match r {
                Some(p) => self@.participants.contains_key(target_id@) && p@
                    == self@.participants[target_id@],
                None => !self@.participants.contains_key(target_id@),
            },
    {
        self.participants.get(target_id.as_str())
    }

    /// Queues a message for whom it goes to.
    pub fn send(&mut self, message: CollabMessage) -> (r: Result<MessageDelivery, MessageHubError>)
        ensures
            sends(r, old(self)@, final(self)@, message@),
    {
        let ghost before = self@;
        if !self.participants.contains_key(message.from.as_str()) {
            return Err(MessageHubError::UnknownSender { sender_id: message.from });
        }
        let target = match self.participants.get(message.to.as_str()) {
            Some(p) => p.duplicate(),
            None => {
                return Err(MessageHubError::UnknownTarget { target_id: message.to });
            },
        };
        self.obligations.record_message(&message);
        let key = message.to.as_str().to_string();
        let mut inbox = match self.inboxes.remove(key.as_str()) {
            Some(v) => v,
            None => Vec::new(),
        };
        assert(message_models(inbox@) =~= inbox_of(before, message@.to));
        let ghost sent = message@;
        inbox.push(message);
        assert(message_models(inbox@) =~= inbox_of(before, sent.to).push(sent));
        self.inboxes.insert(key, inbox);
        assert(self@.inboxes =~= hub_after(before, sent).inboxes);
        match target.kind {
            ParticipantKind::Agent => Ok(MessageDelivery::AgentQueued { target_id: target.id }),
            ParticipantKind::Human => Ok(MessageDelivery::HumanQueued { target_id: target.id }),
        }
    }

    /// Takes the message at `i` out of the inbox of `id`.
    fn take_message(&mut self, id: &str, i: usize) -> (r: CollabMessage)
        requires
            i < inbox_of(old(self)@, id@).len(),
        ensures
            r@ == inbox_of(old(self)@, id@)[i as int],
            final(self)@ == without_message(old(self)@, id@, i as int),
    {
        let ghost before = self@;
        let mut inbox = match self.inboxes.remove(id) {
            Some(v) => v,
            None => Vec::new(),
        };
        assert(message_models(inbox@) =~= inbox_of(before, id@));
        assert(inbox@[i as int]@ == inbox_of(before, id@)[i as int]);
        let r = inbox.remove(i);
        assert(message_models(inbox@) =~= inbox_of(before, id@).remove(i as int));
        self.inboxes.insert(id.to_string(), inbox);
        assert(self@.inboxes =~= without_message(before, id@, i as int).inboxes);
        r
    }

    /// Takes the oldest message out of an inbox.
    pub fn pop_for(&mut self, target_id: &ParticipantId) -> (r: Option<CollabMessage>)
        ensures
            pops(r, old(self)@, final(self)@, target_id@),
    {
        if self.queued_count(target_id) == 0 {
            return None;
        }
        Some(self.take_message(target_id.as_str(), 0))
    }

    /// Takes the oldest message of a sender out of an inbox.
    pub fn pop_for_from(&mut self, target_id: &ParticipantId, sender_id: &ParticipantId) -> (r:
        Option<CollabMessage>)
        ensures
            pops_from(r, old(self)@, final(self)@, target_id@, sender_id@),
    {
        let messages = self.messages_for(target_id);
        let ghost s = inbox_of(self@, target_id@);
        let mut i: usize = 0;
        while i < messages.len()
            invariant
                i <= messages@.len(),
                s == message_models(messages@),
                forall|j: int| 0 <= j < i ==> (#[trigger] s[j]).from != sender_id@,
                self@ == old(self)@,
                s == inbox_of(self@, target_id@),
            decreases messages@.len() - i,
        {
            assert(s[i as int] == messages@[i as int]@);
            if messages[i].from.is(sender_id) {
                proof {
                    lemma_first_from_is(s, sender_id@, i as int);
                }
                return Some(self.take_message(target_id.as_str(), i));
            }
            i = i + 1;
        }
        proof {
            lemma_first_from_is(s, sender_id@, i as int);
        }
        None
    }

    /// The number of messages that wait for a participant.
    pub fn queued_count(&self, target_id: &ParticipantId) -> (r: usize)
        ensures
            r == inbox_of(self@, target_id@).len(),
    {
        match self.inboxes.get(target_id.as_str()) {
            Some(v) => v.len(),
            None => 0,
        }
    }

    /// What waits for a participant, oldest first.
    pub fn messages_for(&self, target_id: &ParticipantId) -> (r: Vec<CollabMessage>)
        ensures
            message_models(r@) == inbox_of(self@, target_id@),
    {
        match self.inboxes.get(target_id.as_str()) {
            Some(v) => copy_messages(v),
            None => {
                let out: Vec<CollabMessage> = Vec::new();
                assert(message_models(out@) =~= Seq::<MessageModel>::empty());
                out
            },
        }
    }

    pub fn reply_obligation(&self, message_id: &str) -> (r: Option<&ReplyObligation>)
        ensures
            match r {
                Some(o) => self@.obligations.contains_key(message_id@) && o@
                    == self@.obligations[message_id@],
                None => !self@.obligations.contains_key(message_id@),
            },
    {
        self.obligations.get(message_id)
    }

    /// What the hub is kept as.
    pub fn snapshot(&self) -> (r: OfficeMessageHubSnapshot)
        ensures
            r@ == self@,
    {
        let r = OfficeMessageHubSnapshot {
            participants: copy_table(&self.participants),
            inboxes: copy_table(&self.inboxes),
            obligations: self.obligations.copy(),
        };
        assert(r@.participants =~= self@.participants);
        assert(r@.inboxes =~= self@.inboxes);
        r
    }

    /// The hub that was kept.
    pub fn from_snapshot(snapshot: OfficeMessageHubSnapshot) -> (r: OfficeMessageHub)
        ensures
            r@ == snapshot@,
    {
        OfficeMessageHub {
            participants: snapshot.participants,
            inboxes: snapshot.inboxes,
            obligations: snapshot.obligations,
        }
    }
}

// ---------------------------------------------------------------------------
// Laws
// ---------------------------------------------------------------------------

/// A reply from whom it was asked of to whom asked settles the obligation.
pub proof fn law_reply_settles(
    o: Map<Seq<char>, ObligationModel>,
    ask: MessageModel,
    reply: MessageModel,
)
    requires
        ask.need_reply,
        ask.reply_to_message_id is None,
        !reply.need_reply,
        reply.reply_to_message_id == Some(ask.message_id),
        reply.from == ask.to,
        reply.to == ask.from,
    ensures
        obligations_after(o, ask).contains_key(ask.message_id),
        obligations_after(o, ask)[ask.message_id].resolved_by is None,
        obligations_after(obligations_after(o, ask), reply)[ask.message_id].resolved_by == Some(
            reply.message_id,
        ),
{
}

/// A reply from anyone else, or to anyone else, settles nothing.
pub proof fn law_stranger_settles_nothing(
    o: Map<Seq<char>, ObligationModel>,
    id: Seq<char>,
    reply: MessageModel,
)
    requires
        o.contains_key(id),
        !reply.need_reply,
        reply.from != o[id].target || reply.to != o[id].requester,
    ensures
        obligations_after(o, reply)[id] == o[id],
{
}

/// A message without a request and without an answer changes no obligation.
pub proof fn law_plain_message_obliges_nobody(
    o: Map<Seq<char>, ObligationModel>,
    m: MessageModel,
)
    requires
        !m.need_reply,
        m.reply_to_message_id is None,
    ensures
        obligations_after(o, m) == o,
{
}

/// An inbox gives its messages back in the order in which they were sent.
pub proof fn law_hub_inbox_is_fifo(m: HubModel, a: MessageModel, b: MessageModel)
    requires
        a.to == b.to,
        inbox_of(m, a.to).len() == 0,
    ensures
        ({
            let both = hub_after(hub_after(m, a), b);
            &&& inbox_of(both, a.to)[0] == a
            &&& inbox_of(without_message(both, a.to, 0), a.to)[0] == b
            &&& inbox_of(without_message(without_message(both, a.to, 0), a.to, 0), a.to).len() == 0
        }),
{
}

/// A message reaches no inbox but that of whom it goes to.
pub proof fn law_message_reaches_its_target_only(m: HubModel, a: MessageModel, id: Seq<char>)
    requires
        id != a.to,
    ensures
        inbox_of(hub_after(m, a), id) == inbox_of(m, id),
{
}

/// A message is queued where both its sender and its target are known, behind what its
/// target has; else nothing changes. Nobody else's inbox changes.
pub proof fn law_messages_are_queued_for_those_who_are_known(
    r: Result<MessageDelivery, MessageHubError>,
    was: HubModel,
    m: HubModel,
    message: MessageModel,
    other: Seq<char>,
)
    requires
        sends(r, was, m, message),
    ensures
        r is Ok <==> was.participants.contains_key(message.from) && was.participants.contains_key(
            message.to,
        ),
        r is Err ==> m == was,
        !was.participants.contains_key(message.from) ==> r->Err_0 is UnknownSender,
        was.participants.contains_key(message.from) && r is Err ==> r->Err_0 is UnknownTarget,
        r is Ok ==> {
            &&& inbox_of(m, message.to) == inbox_of(was, message.to).push(message)
            &&& r->Ok_0 is AgentQueued <==> was.participants[message.to].kind
                == ParticipantKind::Agent
            &&& r->Ok_0 is HumanQueued <==> was.participants[message.to].kind
                == ParticipantKind::Human
            &&& message.need_reply && message.reply_to_message_id is None
                ==> m.obligations.contains_key(message.message_id)
                && m.obligations[message.message_id].requester == message.from
                && m.obligations[message.message_id].target == message.to
                && m.obligations[message.message_id].resolved_by is None
        },
        other != message.to ==> inbox_of(m, other) == inbox_of(was, other),
        m.participants == was.participants,
{
}

/// Messages leave an inbox oldest first; the others keep their order, and nothing is
/// settled by that.
pub proof fn law_oldest_messages_leave_first(
    r: Option<CollabMessage>,
    was: HubModel,
    m: HubModel,
    target: Seq<char>,
    other: Seq<char>,
)
    requires
        pops(r, was, m, target),
    ensures
        r is Some <==> inbox_of(was, target).len() > 0,
        r matches Some(c) ==> inbox_of(was, target) == seq![c@] + inbox_of(m, target),
        r is None ==> m == was,
        other != target ==> inbox_of(m, other) == inbox_of(was, other),
        m.obligations == was.obligations && m.participants == was.participants,
{
    if r is Some {
        assert(inbox_of(was, target) =~= seq![r->0@] + inbox_of(m, target));
    }
}

/// Of one sender's messages the oldest leaves; what others sent stays, in its order.
pub proof fn law_oldest_of_a_sender_leaves(
    r: Option<CollabMessage>,
    was: HubModel,
    m: HubModel,
    target: Seq<char>,
    sender: Seq<char>,
)
    requires
        pops_from(r, was, m, target, sender),
    ensures
        r is None ==> m == was && forall|i: int|
            0 <= i < inbox_of(was, target).len() ==> (#[trigger] inbox_of(was, target)[i]).from
                != sender,
        r matches Some(c) ==> c@.from == sender && exists|i: int|
            0 <= i < inbox_of(was, target).len() && #[trigger] inbox_of(was, target)[i] == c@
                && inbox_of(m, target) == inbox_of(was, target).take(i) + inbox_of(
                was,
                target,
            ).skip(i + 1) && forall|j: int|
                0 <= j < i ==> (#[trigger] inbox_of(was, target)[j]).from != sender,
        m.obligations == was.obligations,
{
    let s = inbox_of(was, target);
    lemma_first_from(s, sender);
    if r is Some {
        let i = first_from(s, sender);
        assert(inbox_of(m, target) =~= s.take(i) + s.skip(i + 1));
        assert(s[i] == r->0@);
    }
}

/// Who is registered is known under their id from then on; others, messages and what is
/// owed stay.
pub proof fn law_registered_participants_are_known(
    r: Option<Participant>,
    was: HubModel,
    m: HubModel,
    p: ParticipantModel,
    other: Seq<char>,
)
    requires
        registers(r, was, m, p),
    ensures
        m.participants.contains_key(p.id) && m.participants[p.id] == p,
        r is Some <==> was.participants.contains_key(p.id),
        other != p.id ==> m.participants.contains_key(other) == was.participants.contains_key(
            other,
        ) && m.participants[other] == was.participants[other],
        m.inboxes == was.inboxes && m.obligations == was.obligations,
{
}

/// A question and its answer: the one who is asked owes a reply until the answer names
/// the question, and then no more.
pub proof fn law_answers_settle_questions(
    o: Map<Seq<char>, ObligationModel>,
    ask: Seq<char>,
    answer: Seq<char>,
    who: Seq<char>,
    whom: Seq<char>,
    question: Seq<char>,
    reply: Seq<char>,
)
    ensures
        ({
            let q = asking(plain(ask, who, whom, question));
            let a = answering(plain(answer, whom, who, reply), ask);
            let asked = obligations_after(o, q);
            &&& q.need_reply && q.from == who && q.to == whom && q.content == question
                && q.message_id == ask && q.reply_to_message_id is None
            &&& !a.need_reply && a.reply_to_message_id == Some(ask) && a.content == reply
            &&& asked[ask].resolved_by is None && asked[ask].target == whom && asked[ask].requester
                == who
            &&& obligations_after(asked, a)[ask].resolved_by == Some(answer)
        }),
        obligations_after(o, plain(ask, who, whom, question)) == o,
{
}

/// A participant is of the kind and under the name that they were made with.
pub proof fn law_participants_are_known_as_made(
    id: Seq<char>,
    kind: ParticipantKind,
    display_name: Seq<char>,
)
    ensures
        known_as(id, kind, display_name).id == id,
        known_as(id, kind, display_name).kind == kind,
        known_as(id, kind, display_name).display_name == display_name,
{
}

} // verus!
