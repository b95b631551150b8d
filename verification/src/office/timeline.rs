//! What happened in the office, with a summary after every few steps.
use crate::text::{decimal, decimal_of_usize};
use vstd::prelude::*;

verus! {

/// The number of steps between two summaries.
pub const STEPS_PER_SUMMARY: usize = 15;

#[derive(Clone, Debug, Eq, PartialEq)]
pub enum OfficeTimelineEvent {
    AgentStep { agent_id: String, summary: String },
    Message { message_id: String, from: String, to: String },
    ToolIntent { agent_id: String, tool_name: String },
    ToolResult { agent_id: String, tool_name: String, exit_code: i32 },
    HumanInput { human_id: String, message_id: String },
    Summary { step_index: usize, text: String },
}

#[derive(Clone, Debug, Eq, PartialEq)]
pub struct OfficeSummary {
    pub step_index: usize,
    pub text: String,
    pub source_event_count: usize,
    pub source_event_start: usize,
    pub source_event_end: usize,
}

/// Counts the steps since the last summary.
#[derive(Debug, Eq, PartialEq)]
pub struct StepSummaryClock {
    threshold: usize,
    steps_since_summary: usize,
    total_steps: usize,
}

#[derive(Clone, Debug, Eq, PartialEq)]
pub struct OfficeTimeline {
    clock: StepSummaryClock,
    events: Vec<OfficeTimelineEvent>,
    summaries: Vec<OfficeSummary>,
    last_summary_event_end: usize,
}

// ---------------------------------------------------------------------------
// Models
// ---------------------------------------------------------------------------

#[verifier::ext_equal]
pub struct ClockModel {
    pub threshold: nat,
    pub since: nat,
    pub total: nat,
}

#[verifier::ext_equal]
pub enum EventModel {
    AgentStep { agent_id: Seq<char>, summary: Seq<char> },
    Message { message_id: Seq<char>, from: Seq<char>, to: Seq<char> },
    ToolIntent { agent_id: Seq<char>, tool_name: Seq<char> },
    ToolResult { agent_id: Seq<char>, tool_name: Seq<char>, exit_code: i32 },
    HumanInput { human_id: Seq<char>, message_id: Seq<char> },
    Summary { step_index: nat, text: Seq<char> },
}

#[verifier::ext_equal]
pub struct SummaryModel {
    pub step_index: nat,
    pub text: Seq<char>,
    pub count: nat,
    pub start: nat,
    pub end: nat,
}

#[verifier::ext_equal]
pub struct TimelineModel {
    pub clock: ClockModel,
    pub events: Seq<EventModel>,
    pub summaries: Seq<SummaryModel>,
    pub last_end: nat,
}

impl View for OfficeTimelineEvent {
    type V = EventModel;

    open spec fn view(&self) -> EventModel {
        match *self {
            OfficeTimelineEvent::AgentStep { agent_id, summary } => EventModel::AgentStep {
                agent_id: agent_id@,
                summary: summary@,
            },
            OfficeTimelineEvent::Message { message_id, from, to } => EventModel::Message {
                message_id: message_id@,
                from: from@,
                to: to@,
            },
            OfficeTimelineEvent::ToolIntent { agent_id, tool_name } => EventModel::ToolIntent {
                agent_id: agent_id@,
                tool_name: tool_name@,
            },
            OfficeTimelineEvent::ToolResult { agent_id, tool_name, exit_code } => {
                EventModel::ToolResult { agent_id: agent_id@, tool_name: tool_name@, exit_code }
            },
            OfficeTimelineEvent::HumanInput { human_id, message_id } => EventModel::HumanInput {
                human_id: human_id@,
                message_id: message_id@,
            },
            OfficeTimelineEvent::Summary { step_index, text } => EventModel::Summary {
                step_index: step_index as nat,
                text: text@,
            },
        }
    }
}

impl View for OfficeSummary {
    type V = SummaryModel;

    open spec fn view(&self) -> SummaryModel {
        SummaryModel {
            step_index: self.step_index as nat,
            text: self.text@,
            count: self.source_event_count as nat,
            start: self.source_event_start as nat,
            end: self.source_event_end as nat,
        }
    }
}

impl View for StepSummaryClock {
    type V = ClockModel;

    closed spec fn view(&self) -> ClockModel {
        ClockModel {
            threshold: self.threshold as nat,
            since: self.steps_since_summary as nat,
            total: self.total_steps as nat,
        }
    }
}

impl View for OfficeTimeline {
    type V = TimelineModel;

    closed spec fn view(&self) -> TimelineModel {
        TimelineModel {
            clock: self.clock@,
            events: self.events@.map_values(|e: OfficeTimelineEvent| e@),
            summaries: self.summaries@.map_values(|s: OfficeSummary| s@),
            last_end: self.last_summary_event_end as nat,
        }
    }
}

/// Whether the next step calls for a summary.
pub open spec fn due(c: ClockModel) -> bool {
    c.since + 1 >= c.threshold
}

/// The clock after one more step.
pub open spec fn ticked(c: ClockModel) -> ClockModel {
    ClockModel {
        threshold: c.threshold,
        since: if due(c) {
            0
        } else {
            c.since + 1
        },
        total: c.total + 1,
    }
}

pub open spec fn new_clock(threshold: nat) -> ClockModel {
    ClockModel { threshold, since: 0, total: 0 }
}

pub open spec fn summary_text(steps: nat) -> Seq<char> {
    "Summary after "@ + decimal(steps) + " global Agent steps"@
}

/// The events with one more step of an agent.
pub open spec fn stepped(m: TimelineModel, agent: Seq<char>, summary: Seq<char>) -> Seq<
    EventModel,
> {
    m.events.push(EventModel::AgentStep { agent_id: agent, summary })
}

/// The summary that is made when it is due: of all events since the last one.
pub open spec fn summary_due(m: TimelineModel) -> SummaryModel {
    let end = m.events.len() + 1;
    SummaryModel {
        step_index: m.clock.total + 1,
        text: summary_text(m.clock.total + 1),
        count: if end >= m.last_end {
            (end - m.last_end) as nat
        } else {
            0
        },
        start: m.last_end,
        end,
    }
}

/// The timeline after one more event.
pub open spec fn told(m: TimelineModel, e: EventModel) -> TimelineModel {
    TimelineModel { events: m.events.push(e), ..m }
}

/// The timeline after one more step of an agent.
pub open spec fn timeline_after(
    m: TimelineModel,
    agent: Seq<char>,
    summary: Seq<char>,
) -> TimelineModel {
    let events = stepped(m, agent, summary);
    if due(m.clock) {
        let s = summary_due(m);
        TimelineModel {
            clock: ticked(m.clock),
            events: events.push(EventModel::Summary { step_index: s.step_index, text: s.text }),
            summaries: m.summaries.push(s),
            last_end: s.end,
        }
    } else {
        TimelineModel { clock: ticked(m.clock), events, ..m }
    }
}

// ---------------------------------------------------------------------------
// Functions
// ---------------------------------------------------------------------------

impl StepSummaryClock {
    #[verifier::type_invariant]
    spec fn wf(self) -> bool {
        self.steps_since_summary <= self.total_steps
    }

    pub fn new(threshold: usize) -> (r: StepSummaryClock)
        ensures
            r@ == new_clock(threshold as nat),
    {
        StepSummaryClock { threshold, steps_since_summary: 0, total_steps: 0 }
    }

    /// Counts a step; whether it calls for a summary.
    pub fn record_step(&mut self) -> (r: bool)
        requires
            old(self)@.total < usize::MAX,
        ensures
            final(self)@ == ticked(old(self)@),
            r == due(old(self)@),
    {
        proof {
            use_type_invariant(&*self);
        }
        let since: usize = self.steps_since_summary + 1;
        let total: usize = self.total_steps + 1;
        let threshold: usize = self.threshold;
        if since >= threshold {
            *self = StepSummaryClock { threshold, steps_since_summary: 0, total_steps: total };
            true
        } else {
            *self = StepSummaryClock { threshold, steps_since_summary: since, total_steps: total };
            false
        }
    }

    pub fn total_steps(&self) -> (r: usize)
        ensures
            r == self@.total,
    {
        self.total_steps
    }
}

impl Clone for StepSummaryClock {
    fn clone(&self) -> (r: StepSummaryClock)
        ensures
            r == *self,
    {
        proof {
            use_type_invariant(self);
        }
        StepSummaryClock {
            threshold: self.threshold,
            steps_since_summary: self.steps_since_summary,
            total_steps: self.total_steps,
        }
    }
}

impl Default for StepSummaryClock {
    fn default() -> (r: StepSummaryClock)
        ensures
            r@ == new_clock(STEPS_PER_SUMMARY as nat),
    {
        StepSummaryClock::new(STEPS_PER_SUMMARY)
    }
}

impl Default for OfficeTimeline {
    fn default() -> (r: OfficeTimeline)
        ensures
            r@ == (TimelineModel {
                clock: new_clock(STEPS_PER_SUMMARY as nat),
                events: Seq::empty(),
                summaries: Seq::empty(),
                last_end: 0,
            }),
    {
        OfficeTimeline::new()
    }
}

impl OfficeTimeline {
    pub fn new() -> (r: OfficeTimeline)
        ensures
            r@ == (TimelineModel {
                clock: new_clock(STEPS_PER_SUMMARY as nat),
                events: Seq::empty(),
                summaries: Seq::empty(),
                last_end: 0,
            }),
    {
        let r = OfficeTimeline {
            clock: StepSummaryClock::new(STEPS_PER_SUMMARY),
            events: Vec::new(),
            summaries: Vec::new(),
            last_summary_event_end: 0,
        };
        assert(r@.events =~= Seq::<EventModel>::empty());
        assert(r@.summaries =~= Seq::<SummaryModel>::empty());
        r
    }

    /// Records a step of an agent; hands back the summary that it called for.
    pub fn record_agent_step(&mut self, agent_id: &str, summary: &str) -> (r: Option<
        OfficeSummary,
    >)
        requires
            old(self)@.clock.total < usize::MAX,
        ensures
            final(self)@ == timeline_after(old(self)@, agent_id@, summary@),
            match r {
                Some(s) => due(old(self)@.clock) && s@ == summary_due(old(self)@),
                None => !due(old(self)@.clock),
            },
    {
        let ghost before = self@;
        let step = OfficeTimelineEvent::AgentStep {
            agent_id: agent_id.to_string(),
            summary: summary.to_string(),
        };
        self.events.push(step);
        assert(self@.events =~= stepped(before, agent_id@, summary@));
        if self.clock.record_step() {
            let source_event_start: usize = self.last_summary_event_end;
            let source_event_end: usize = self.events.len();
            let total: usize = self.clock.total_steps();
            let mut text = "Summary after ".to_string();
            text.append(decimal_of_usize(total).as_str());
            text.append(" global Agent steps");
            let count: usize = if source_event_end >= source_event_start {
                source_event_end - source_event_start
            } else {
                0
            };
            let kept = OfficeSummary {
                step_index: total,
                text: text.clone(),
                source_event_count: count,
                source_event_start,
                source_event_end,
            };
            let made = OfficeSummary {
                step_index: total,
                text: text.clone(),
                source_event_count: count,
                source_event_start,
                source_event_end,
            };
            assert(before.events.len() + 1 == source_event_end) by {
                assert(self@.events.len() == source_event_end);
            }
            assert(made@ =~= summary_due(before));
            self.last_summary_event_end = source_event_end;
            let ghost events = self@.events;
            let ghost summaries = self@.summaries;
            let noted = OfficeTimelineEvent::Summary { step_index: total, text };
            self.events.push(noted);
            self.summaries.push(kept);
            assert(self@.events =~= events.push(noted@));
            assert(self@.summaries =~= summaries.push(kept@));
            assert(self@ =~= timeline_after(before, agent_id@, summary@));
            Some(made)
        } else {
            assert(self@ =~= timeline_after(before, agent_id@, summary@));
            None
        }
    }

    pub fn append_event(&mut self, event: OfficeTimelineEvent)
        ensures
            final(self)@ == told(old(self)@, event@),
    {
        let ghost before = self@;
        self.events.push(event);
        assert(self@.events =~= before.events.push(event@));
    }

    pub fn events(&self) -> (r: &Vec<OfficeTimelineEvent>)
        ensures
            r@.map_values(|e: OfficeTimelineEvent| e@) == self@.events,
    {
        &self.events
    }

    pub fn summaries(&self) -> (r: &Vec<OfficeSummary>)
        ensures
            r@.map_values(|s: OfficeSummary| s@) == self@.summaries,
    {
        &self.summaries
    }

    pub fn total_steps(&self) -> (r: usize)
        ensures
            r == self@.clock.total,
    {
        self.clock.total_steps()
    }
}

// ---------------------------------------------------------------------------
// Laws
// ---------------------------------------------------------------------------

/// Whether the event at the end of a summary is that of the summary.
pub open spec fn is_told(m: TimelineModel, i: int) -> bool {
    let s = m.summaries[i];
    s.end < m.events.len() && m.events[s.end as int] == (EventModel::Summary {
        step_index: s.step_index,
        text: s.text,
    })
}

/// What holds of every timeline: a summary stands for each full round of steps,
/// the event at its end tells of it, and the events since the last summary are
/// those behind its end.
pub open spec fn is_regular(m: TimelineModel) -> bool {
    &&& m.clock.threshold > 0
    &&& m.clock.since == m.clock.total % m.clock.threshold
    &&& m.summaries.len() == m.clock.total / m.clock.threshold
    &&& m.last_end <= m.events.len()
    &&& forall|i: int|
        #![trigger m.summaries[i]]
        0 <= i < m.summaries.len() ==> m.summaries[i].step_index == (i + 1) * m.clock.threshold
            && m.summaries[i].start + m.summaries[i].count == m.summaries[i].end
            && m.summaries[i].start == (if i == 0 {
            0
        } else {
            m.summaries[i - 1].end
        }) && is_told(m, i)
    &&& m.last_end == (if m.summaries.len() == 0 {
        0
    } else {
        m.summaries.last().end
    })
}

/// A new timeline is regular.
pub proof fn law_new_timeline_is_regular()
    ensures
        is_regular(
            TimelineModel {
                clock: new_clock(STEPS_PER_SUMMARY as nat),
                events: Seq::empty(),
                summaries: Seq::empty(),
                last_end: 0,
            },
        ),
{
}

proof fn lemma_next_step(total: nat, t: nat)
    requires
        t > 0,
    ensures
        total % t + 1 >= t ==> (total + 1) % t == 0 && (total + 1) / t == total / t + 1
            && total + 1 == (total / t + 1) * t,
        total % t + 1 < t ==> (total + 1) % t == total % t + 1 && (total + 1) / t == total / t,
{
    let q = total / t;
    let r = total % t;
    vstd::arithmetic::div_mod::lemma_fundamental_div_mod(total as int, t as int);
    if r + 1 >= t {
        assert(r + 1 == t);
        assert(total + 1 == (q + 1) * t) by (nonlinear_arith)
            requires
                total == t * q + r,
                r + 1 == t,
        ;
        vstd::arithmetic::div_mod::lemma_fundamental_div_mod_converse(
            (total + 1) as int,
            t as int,
            (q + 1) as int,
            0,
        );
    } else {
        assert(total + 1 == q * t + (r + 1)) by (nonlinear_arith)
            requires
                total == t * q + r,
        ;
        vstd::arithmetic::div_mod::lemma_fundamental_div_mod_converse(
            (total + 1) as int,
            t as int,
            q as int,
            (r + 1) as int,
        );
    }
}

/// Every step keeps a timeline regular: after each full round of steps there is
/// exactly one more summary, and the summaries cover the events without a gap.
pub proof fn law_steps_keep_timeline_regular(
    m: TimelineModel,
    agent: Seq<char>,
    summary: Seq<char>,
)
    requires
        is_regular(m),
    ensures
        is_regular(timeline_after(m, agent, summary)),
{
    let n = timeline_after(m, agent, summary);
    lemma_next_step(m.clock.total, m.clock.threshold);
    if due(m.clock) {
        assert(n.summaries.last() == summary_due(m));
        assert forall|i: int|
            #![trigger n.summaries[i]]
            0 <= i < n.summaries.len() implies n.summaries[i].step_index == (i + 1)
            * n.clock.threshold && n.summaries[i].start + n.summaries[i].count
            == n.summaries[i].end && n.summaries[i].start == (if i == 0 {
            0
        } else {
            n.summaries[i - 1].end
        }) && is_told(n, i) by {
            if i < m.summaries.len() {
                assert(n.summaries[i] == m.summaries[i]);
                assert(is_told(m, i));
                if i > 0 {
                    assert(n.summaries[i - 1] == m.summaries[i - 1]);
                }
            } else if i > 0 {
                assert(n.summaries[i - 1] == m.summaries.last());
            }
        }
    }
}

/// Other events keep a timeline regular too.
pub proof fn law_events_keep_timeline_regular(m: TimelineModel, e: EventModel)
    requires
        is_regular(m),
    ensures
        is_regular(TimelineModel { events: m.events.push(e), ..m }),
{
}

/// Every step is told, with its agent and what it was, behind what happened before.
/// A summary follows just where it is due: of all that happened since the last one,
/// the step among it.
pub proof fn law_steps_are_told(m: TimelineModel, agent: Seq<char>, summary: Seq<char>)
    requires
        m.last_end <= m.events.len(),
    ensures
        ({
            let n = timeline_after(m, agent, summary);
            let k = m.events.len() as int;
            &&& n.events.len() > k
            &&& n.events.take(k) == m.events
            &&& n.events[k] == (EventModel::AgentStep { agent_id: agent, summary })
            &&& n.clock.total == m.clock.total + 1
            &&& n.clock.threshold == m.clock.threshold
            &&& m.clock.since + 1 < m.clock.threshold ==> n.events.len() == k + 1 && n.summaries
                == m.summaries && n.last_end == m.last_end && n.clock.since == m.clock.since + 1
            &&& m.clock.since + 1 >= m.clock.threshold ==> {
                let s = n.summaries.last();
                &&& n.clock.since == 0
                &&& n.events.len() == k + 2
                &&& n.events[k + 1] == (EventModel::Summary { step_index: s.step_index, text: s.text })
                &&& n.summaries.drop_last() == m.summaries && n.summaries.len() == m.summaries.len()
                    + 1
                &&& s.step_index == m.clock.total + 1
                &&& s.start == m.last_end && s.end == k + 1 && s.count == k + 1 - m.last_end
                &&& s.text == "Summary after "@ + decimal(m.clock.total + 1)
                    + " global Agent steps"@
                &&& n.last_end == k + 1
            }
        }),
{
    let n = timeline_after(m, agent, summary);
    assert(n.events.take(m.events.len() as int) =~= m.events);
    if due(m.clock) {
        assert(n.summaries.drop_last() =~= m.summaries);
    }
}

/// An event stands behind all others, and counts as no step and no summary.
pub proof fn law_events_are_told_in_order(m: TimelineModel, e: EventModel)
    ensures
        told(m, e).events.last() == e,
        told(m, e).events.drop_last() == m.events,
        told(m, e).clock == m.clock && told(m, e).summaries == m.summaries && told(m, e).last_end
            == m.last_end,
{
    assert(told(m, e).events.drop_last() =~= m.events);
}

} // verus!
