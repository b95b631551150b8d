//! How long an agent waits for a message, and for whom.
use crate::office::message::{
    first_from, lemma_first_from_is, message_models, CollabMessage, MessageModel, ParticipantId,
    ParticipantKind,
};
use crate::text::{opt_text, same_text};
use vstd::prelude::*;

verus! {

/// How long a wait for an agent lasts, in milliseconds.
pub const AGENT_DEFAULT_TIMEOUT_MS: u64 = 420_000;

#[derive(Clone, Debug, Eq, PartialEq)]
pub enum WaitOutcome {
    Delivered(CollabMessage),
    AgentTimeout { timeout_ms: u64 },
    HumanSuspended,
}

/// A wait of an agent for a human, for a reply to one message or for any.
#[derive(Clone, Debug, Eq, PartialEq)]
pub struct HumanWaitTicket {
    pub waiting_agent_id: ParticipantId,
    pub human_id: ParticipantId,
    pub requested_message_id: Option<String>,
}

#[derive(Clone, Debug, Eq, PartialEq)]
pub struct HumanWaitBook {
    tickets: Vec<HumanWaitTicket>,
}

#[derive(Clone, Copy, Debug, Eq, PartialEq)]
pub struct WaitPolicy {
    pub agent_default_timeout_ms: u64,
}

#[verifier::ext_equal]
pub struct TicketModel {
    pub waiting: Seq<char>,
    pub human: Seq<char>,
    pub requested: Option<Seq<char>>,
}

impl View for HumanWaitTicket {
    type V = TicketModel;

    open spec fn view(&self) -> TicketModel {
        TicketModel {
            waiting: self.waiting_agent_id@,
            human: self.human_id@,
            requested: opt_text(self.requested_message_id),
        }
    }
}

pub open spec fn ticket_models(v: Seq<HumanWaitTicket>) -> Seq<TicketModel> {
    v.map_values(|t: HumanWaitTicket| t@)
}

impl View for HumanWaitBook {
    type V = Seq<TicketModel>;

    closed spec fn view(&self) -> Seq<TicketModel> {
        ticket_models(self.tickets@)
    }
}

/// Whether a message ends a wait.
pub open spec fn ends_wait(t: TicketModel, m: MessageModel) -> bool {
    m.from == t.human && m.to == t.waiting && (t.requested matches Some(id)
        ==> m.reply_to_message_id == Some(id))
}

/// The place of the first wait that a message ends, or the number of waits.
pub open spec fn first_ended(s: Seq<TicketModel>, m: MessageModel) -> int
    decreases s.len(),
{
    if s.len() == 0 {
        0
    } else if ends_wait(s[0], m) {
        0
    } else {
        1 + first_ended(s.skip(1), m)
    }
}

proof fn lemma_first_ended_is(s: Seq<TicketModel>, m: MessageModel, i: int)
    requires
        0 <= i <= s.len(),
        i < s.len() ==> ends_wait(s[i], m),
        forall|j: int| 0 <= j < i ==> !ends_wait(#[trigger] s[j], m),
    ensures
        first_ended(s, m) == i,
    decreases s.len(),
{
    if s.len() > 0 && i > 0 {
        assert(!ends_wait(s[0], m));
        let t = s.skip(1);
        assert forall|j: int| 0 <= j < i - 1 implies !ends_wait(#[trigger] t[j], m) by {
            assert(t[j] == s[j + 1]);
        }
        if i < s.len() {
            assert(t[i - 1] == s[i]);
        }
        lemma_first_ended_is(t, m, i - 1);
    }
}

/// Whether the oldest wait that a message answers was ended.
pub open spec fn wakes(
    r: Option<HumanWaitTicket>,
    was: Seq<TicketModel>,
    now: Seq<TicketModel>,
    m: MessageModel,
) -> bool {
    let i = first_ended(was, m);
    match r {
        Some(t) => i < was.len() && t@ == was[i] && now == was.remove(i),
        None => i >= was.len() && now == was,
    }
}

/// Whether this is what a wait comes to.
pub open spec fn ends_or_waits(
    r: WaitOutcome,
    was: Seq<MessageModel>,
    now: Seq<MessageModel>,
    target: Seq<char>,
    kind: ParticipantKind,
    timeout_ms: u64,
) -> bool {
    let i = first_from(was, target);
    if i < was.len() {
        (r matches WaitOutcome::Delivered(m) && m@ == was[i]) && now == was.remove(i)
    } else {
        now == was && match kind {
            ParticipantKind::Agent => r == (WaitOutcome::AgentTimeout { timeout_ms }),
            ParticipantKind::Human => r == WaitOutcome::HumanSuspended,
        }
    }
}

impl HumanWaitTicket {
    /// Whether a message ends this wait.
    pub fn matches_message(&self, message: &CollabMessage) -> (r: bool)
        ensures
            r == ends_wait(self@, message@),
    {
        if !message.from.is(&self.human_id) || !message.to.is(&self.waiting_agent_id) {
            return false;
        }
        match &self.requested_message_id {
            Some(id) => match &message.reply_to_message_id {
                Some(answered) => same_text(answered.as_str(), id.as_str()),
                None => false,
            },
            None => true,
        }
    }

    pub fn copy(&self) -> (r: HumanWaitTicket)
        ensures
            r@ == self@,
    {
        HumanWaitTicket {
            waiting_agent_id: self.waiting_agent_id.copy(),
            human_id: self.human_id.copy(),
            requested_message_id: match &self.requested_message_id {
                Some(id) => Some(id.clone()),
                None => None,
            },
        }
    }
}

impl Default for HumanWaitBook {
    fn default() -> (r: HumanWaitBook)
        ensures
            r@ == Seq::<TicketModel>::empty(),
    {
        HumanWaitBook::new()
    }
}

impl HumanWaitBook {
    pub fn new() -> (r: HumanWaitBook)
        ensures
            r@ == Seq::<TicketModel>::empty(),
    {
        let r = HumanWaitBook { tickets: Vec::new() };
        assert(r@ =~= Seq::<TicketModel>::empty());
        r
    }

    /// Notes that an agent waits for a human.
    pub fn suspend(
        &mut self,
        waiting_agent_id: ParticipantId,
        human_id: ParticipantId,
        requested_message_id: Option<String>,
    ) -> (r: HumanWaitTicket)
        ensures
            r@ == (TicketModel {
                waiting: waiting_agent_id@,
                human: human_id@,
                requested: opt_text(requested_message_id),
            }),
            final(self)@ == old(self)@.push(r@),
    {
        let ghost before = self@;
        let ticket = HumanWaitTicket { waiting_agent_id, human_id, requested_message_id };
        let r = ticket.copy();
        self.tickets.push(ticket);
        assert(self@ =~= before.push(r@));
        r
    }

    /// Ends the oldest wait that a message answers.
    pub fn wake_for_message(&mut self, message: &CollabMessage) -> (r: Option<HumanWaitTicket>)
        ensures
            wakes(r, old(self)@, final(self)@, message@),
    {
        let ghost s = self@;
        let mut i: usize = 0;
        while i < self.tickets.len()
            invariant
                i <= self.tickets@.len(),
                s == self@,
                s == old(self)@,
                forall|j: int| 0 <= j < i ==> !ends_wait(#[trigger] s[j], message@),
            decreases self.tickets@.len() - i,
        {
            assert(s[i as int] == self.tickets@[i as int]@);
            if self.tickets[i].matches_message(message) {
                proof {
                    lemma_first_ended_is(s, message@, i as int);
                }
                let t = self.tickets.remove(i);
                assert(self@ =~= s.remove(i as int));
                return Some(t);
            }
            i = i + 1;
        }
        proof {
            lemma_first_ended_is(s, message@, i as int);
        }
        None
    }

    /// The waits of an agent, oldest first.
    pub fn pending_for_agent(&self, agent_id: &ParticipantId) -> (r: Vec<HumanWaitTicket>)
        ensures
            ticket_models(r@) == self@.filter(|t: TicketModel| t.waiting == agent_id@),
    {
        let ghost p = |t: TicketModel| t.waiting == agent_id@;
        let ghost s = self@;
        let mut out: Vec<HumanWaitTicket> = Vec::new();
        let mut i: usize = 0;
        proof {
            reveal(Seq::filter);
            assert(s.take(0).filter(p) =~= Seq::<TicketModel>::empty());
            assert(ticket_models(out@) =~= Seq::<TicketModel>::empty());
        }
        while i < self.tickets.len()
            invariant
                i <= self.tickets@.len(),
                s == self@,
                p == (|t: TicketModel| t.waiting == agent_id@),
                ticket_models(out@) == s.take(i as int).filter(p),
            decreases self.tickets@.len() - i,
        {
            let ghost before = ticket_models(out@);
            proof {
                assert(s[i as int] == self.tickets@[i as int]@);
                assert(s.take(i + 1).drop_last() =~= s.take(i as int));
                assert(s.take(i + 1).last() == s[i as int]);
                reveal(Seq::filter);
            }
            if self.tickets[i].waiting_agent_id.is(agent_id) {
                let t = self.tickets[i].copy();
                out.push(t);
                assert(ticket_models(out@) =~= before.push(t@));
            }
            i = i + 1;
        }
        assert(s.take(i as int) =~= s);
        out
    }
}

impl Default for WaitPolicy {
    fn default() -> (r: WaitPolicy)
        ensures
            r.agent_default_timeout_ms == AGENT_DEFAULT_TIMEOUT_MS,
    {
        WaitPolicy { agent_default_timeout_ms: AGENT_DEFAULT_TIMEOUT_MS }
    }
}

impl WaitPolicy {
    /// Takes the oldest message of the target out of the inbox; without one, a
    /// wait for an agent runs out and a wait for a human is suspended.
    pub fn wait_for(
        &self,
        target_id: &ParticipantId,
        target_kind: ParticipantKind,
        inbox: &mut Vec<CollabMessage>,
    ) -> (r: WaitOutcome)
        ensures
            ends_or_waits(
                r,
                message_models(old(inbox)@),
                message_models(final(inbox)@),
                target_id@,
                target_kind,
                self.agent_default_timeout_ms,
            ),
            !(r is Delivered) ==> final(inbox)@ == old(inbox)@,
    {
        let ghost s = message_models(inbox@);
        let mut i: usize = 0;
        while i < inbox.len()
            invariant
                i <= inbox@.len(),
                inbox@ == old(inbox)@,
                s == message_models(inbox@),
                forall|j: int| 0 <= j < i ==> (#[trigger] s[j]).from != target_id@,
            decreases inbox@.len() - i,
        {
            assert(s[i as int] == inbox@[i as int]@);
            if inbox[i].from.is(target_id) {
                proof {
                    lemma_first_from_is(s, target_id@, i as int);
                }
                let m = inbox.remove(i);
                assert(message_models(inbox@) =~= s.remove(i as int));
                return WaitOutcome::Delivered(m);
            }
            i = i + 1;
        }
        proof {
            lemma_first_from_is(s, target_id@, i as int);
        }
        match target_kind {
            ParticipantKind::Agent => WaitOutcome::AgentTimeout {
                timeout_ms: self.agent_default_timeout_ms,
            },
            ParticipantKind::Human => WaitOutcome::HumanSuspended,
        }
    }
}

/// A wait for a human ends only by a message of that human to that agent, and
/// where a reply was asked for, only by that reply.
pub proof fn law_only_the_awaited_reply_wakes(t: TicketModel, m: MessageModel)
    ensures
        m.from != t.human ==> !ends_wait(t, m),
        m.to != t.waiting ==> !ends_wait(t, m),
        t.requested is Some && m.reply_to_message_id != t.requested ==> !ends_wait(t, m),
        t.requested is None && m.from == t.human && m.to == t.waiting ==> ends_wait(t, m),
{
}

/// A message wakes the oldest wait that it answers, and no other; where it answers
/// none, all go on.
pub proof fn law_messages_wake_the_oldest_wait(
    r: Option<HumanWaitTicket>,
    was: Seq<TicketModel>,
    now: Seq<TicketModel>,
    m: MessageModel,
)
    requires
        wakes(r, was, now, m),
    ensures
        r is None ==> now == was && forall|i: int| 0 <= i < was.len() ==> !ends_wait(#[trigger] was[i], m),
        r matches Some(t) ==> t@.human == m.from && t@.waiting == m.to && (t@.requested is Some
            ==> m.reply_to_message_id == t@.requested) && exists|i: int|
            0 <= i < was.len() && #[trigger] was[i] == t@ && now == was.take(i) + was.skip(i + 1)
                && forall|j: int| 0 <= j < i ==> !ends_wait(#[trigger] was[j], m),
{
    lemma_first_ended(was, m);
    let i = first_ended(was, m);
    if r is Some {
        assert(now =~= was.take(i) + was.skip(i + 1));
        assert(was[i] == r->0@);
    }
}

proof fn lemma_first_ended(s: Seq<TicketModel>, m: MessageModel)
    ensures
        0 <= first_ended(s, m) <= s.len(),
        first_ended(s, m) < s.len() ==> ends_wait(s[first_ended(s, m)], m),
        forall|j: int| 0 <= j < first_ended(s, m) ==> !ends_wait(#[trigger] s[j], m),
    decreases s.len(),
{
    if s.len() > 0 && !ends_wait(s[0], m) {
        let t = s.skip(1);
        lemma_first_ended(t, m);
        assert forall|j: int| 0 <= j < first_ended(s, m) implies !ends_wait(#[trigger] s[j], m) by {
            if j > 0 {
                assert(s[j] == t[j - 1]);
            }
        }
    }
}

/// A wait gives the oldest message of whom is waited for, and takes it out of the
/// inbox. Where there is none, a wait for an agent runs out, one for a human is
/// suspended, and nothing is taken.
pub proof fn law_waits_give_what_is_waited_for(
    r: WaitOutcome,
    was: Seq<MessageModel>,
    now: Seq<MessageModel>,
    target: Seq<char>,
    kind: ParticipantKind,
    timeout_ms: u64,
)
    requires
        ends_or_waits(r, was, now, target, kind, timeout_ms),
    ensures
        (exists|i: int| 0 <= i < was.len() && (#[trigger] was[i]).from == target)
            <==> r is Delivered,
        r matches WaitOutcome::Delivered(m) ==> m@.from == target && exists|i: int|
            0 <= i < was.len() && #[trigger] was[i] == m@ && now == was.take(i) + was.skip(i + 1)
                && forall|j: int| 0 <= j < i ==> (#[trigger] was[j]).from != target,
        !(r is Delivered) ==> now == was && (kind == ParticipantKind::Human
            <==> r is HumanSuspended) && (r matches WaitOutcome::AgentTimeout { timeout_ms: t }
            ==> t == timeout_ms),
{
    crate::office::message::lemma_first_from(was, target);
    let i = first_from(was, target);
    if i < was.len() {
        assert(now =~= was.take(i) + was.skip(i + 1));
        assert(was[i].from == target);
    }
}

} // verus!
