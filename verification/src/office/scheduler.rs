//! Which agents would gain from working together.
use crate::text::{clone_texts, contains_text, has_text, join, joined, lower, lowered, texts};
use crate::text_set::{ascending, TextSet};
use vstd::prelude::*;

verus! {

pub const OFFICE_SCHEDULER_SYSTEM_PROMPT: &'static str =
    "你的价值不是提醒简单阻塞或催促普通回复；每个 Agent 自己能感知这些。你的价值是基于 summary 列表发现 1+1 大于 2 的交流机会：两个 Agent 或人类可能互相启发、合并成果、减少重复劳动、或产生更高价值判断时，才提出协作建议。";

/// What an agent works on.
#[derive(Clone, Debug, Eq, PartialEq)]
pub struct AgentSummary {
    pub agent_id: String,
    pub summary: String,
    pub topics: TextSet,
}

#[derive(Debug, Eq, PartialEq)]
pub struct CollaborationOpportunity {
    pub participants: (String, String),
    pub shared_topics: Vec<String>,
    pub reason: String,
    pub expected_gain: String,
}

#[derive(Clone, Copy, Debug, Default, Eq, PartialEq)]
pub struct OpportunityScheduler;

#[verifier::ext_equal]
pub struct WorkModel {
    pub agent_id: Seq<char>,
    pub summary: Seq<char>,
    pub topics: Seq<Seq<char>>,
}

#[verifier::ext_equal]
pub struct OpportunityModel {
    pub left: Seq<char>,
    pub right: Seq<char>,
    pub shared: Seq<Seq<char>>,
    pub reason: Seq<char>,
    pub gain: Seq<char>,
}

impl View for AgentSummary {
    type V = WorkModel;

    open spec fn view(&self) -> WorkModel {
        WorkModel { agent_id: self.agent_id@, summary: self.summary@, topics: self.topics@ }
    }
}

impl View for CollaborationOpportunity {
    type V = OpportunityModel;

    open spec fn view(&self) -> OpportunityModel {
        OpportunityModel {
            left: self.participants.0@,
            right: self.participants.1@,
            shared: texts(self.shared_topics@),
            reason: self.reason@,
            gain: self.expected_gain@,
        }
    }
}

impl Clone for CollaborationOpportunity {
    fn clone(&self) -> (r: CollaborationOpportunity)
        ensures
            r@ == self@,
    {
        CollaborationOpportunity {
            participants: (self.participants.0.clone(), self.participants.1.clone()),
            shared_topics: clone_texts(&self.shared_topics),
            reason: self.reason.clone(),
            expected_gain: self.expected_gain.clone(),
        }
    }
}

/// Whether an agent only waits or is blocked.
pub open spec fn only_blocked(summary: Seq<char>) -> bool {
    has_text(lower(summary), "waiting"@) || has_text(lower(summary), "blocked"@) || has_text(
        summary,
        "等待"@,
    ) || has_text(summary, "阻塞"@) || has_text(summary, "催促"@)
}

/// The topics of both, in order.
pub open spec fn shared(a: Seq<Seq<char>>, b: Seq<Seq<char>>) -> Seq<Seq<char>> {
    a.filter(|t: Seq<char>| b.contains(t))
}

pub open spec fn opportunity(a: WorkModel, b: WorkModel) -> OpportunityModel {
    let topics = shared(a.topics, b.topics);
    OpportunityModel {
        left: a.agent_id,
        right: b.agent_id,
        shared: topics,
        reason: "shared high-value topics: "@ + joined(topics, ", "@),
        gain: a.agent_id + " and "@ + b.agent_id + " may combine findings around "@ + joined(
            topics,
            ", "@,
        ) + " for a higher-value outcome"@,
    }
}

/// Whether the two would gain from working together.
pub open spec fn fit(a: WorkModel, b: WorkModel) -> bool {
    !only_blocked(a.summary) && !only_blocked(b.summary) && shared(a.topics, b.topics).len() > 0
}

/// The opportunities of `a` with each of the others, in their order.
pub open spec fn opportunities_with(a: WorkModel, others: Seq<WorkModel>) -> Seq<OpportunityModel>
    decreases others.len(),
{
    if others.len() == 0 {
        Seq::empty()
    } else {
        let head = opportunities_with(a, others.drop_last());
        if fit(a, others.last()) {
            head.push(opportunity(a, others.last()))
        } else {
            head
        }
    }
}

/// The opportunities of the first `n` with all that stand behind them.
pub open spec fn opportunities_of(s: Seq<WorkModel>, n: nat) -> Seq<OpportunityModel>
    decreases n,
{
    if n == 0 {
        Seq::empty()
    } else {
        opportunities_of(s, (n - 1) as nat) + opportunities_with(s[n - 1], s.skip(n as int))
    }
}

pub open spec fn work_models(s: Seq<AgentSummary>) -> Seq<WorkModel> {
    s.map_values(|a: AgentSummary| a@)
}

pub open spec fn opportunity_models(s: Seq<CollaborationOpportunity>) -> Seq<OpportunityModel> {
    s.map_values(|o: CollaborationOpportunity| o@)
}

impl AgentSummary {
    /// What an agent works on; each topic counts once.
    pub fn new(agent_id: &str, summary: &str, topics: &Vec<String>) -> (r: AgentSummary)
        ensures
            r@.agent_id == agent_id@,
            r@.summary == summary@,
            ascending(r@.topics),
            forall|t: Seq<char>| #[trigger] r@.topics.contains(t) <==> texts(topics@).contains(t),
    {
        let mut set = TextSet::new();
        let ghost all = texts(topics@);
        let mut i: usize = 0;
        assert(forall|t: Seq<char>| #[trigger] set@.contains(t) <==> all.take(0).contains(t));
        while i < topics.len()
            invariant
                i <= topics@.len(),
                all == texts(topics@),
                ascending(set@),
                forall|t: Seq<char>| #[trigger]
                    set@.contains(t) <==> all.take(i as int).contains(t),
            decreases topics@.len() - i,
        {
            let ghost before = set@;
            let ghost done = all.take(i as int);
            let ghost x = all[i as int];
            set.insert(topics[i].as_str());
            i = i + 1;
            proof {
                crate::text_set::lemma_with_text(before, x);
                assert(all.take(i as int) =~= done.push(x));
                assert forall|t: Seq<char>| #[trigger] set@.contains(t) <==> all.take(
                    i as int,
                ).contains(t) by {
                    if done.contains(t) {
                        let q = choose|q: int| 0 <= q < done.len() && done[q] == t;
                        assert(done.push(x)[q] == t);
                    }
                    assert(done.push(x)[done.len() as int] == x);
                }
            }
        }
        assert(all.take(i as int) =~= all);
        AgentSummary { agent_id: agent_id.to_string(), summary: summary.to_string(), topics: set }
    }
}

/// Whether an agent only waits or is blocked.
pub fn is_low_value_blocker(summary: &str) -> (r: bool)
    ensures
        r == only_blocked(summary@),
{
    let low = lowered(summary);
    contains_text(low.as_str(), "waiting") || contains_text(low.as_str(), "blocked")
        || contains_text(summary, "等待") || contains_text(summary, "阻塞") || contains_text(
        summary,
        "催促",
    )
}

fn shared_topics(a: &TextSet, b: &TextSet) -> (r: Vec<String>)
    ensures
        texts(r@) == shared(a@, b@),
{
    let all = a.to_vec();
    let ghost p = |t: Seq<char>| b@.contains(t);
    let mut out: Vec<String> = Vec::new();
    let mut i: usize = 0;
    proof {
        reveal(Seq::filter);
        assert(a@.take(0).filter(p) =~= Seq::<Seq<char>>::empty());
        assert(texts(out@) =~= Seq::<Seq<char>>::empty());
    }
    while i < all.len()
        invariant
            i <= all@.len(),
            texts(all@) == a@,
            p == (|t: Seq<char>| b@.contains(t)),
            texts(out@) == a@.take(i as int).filter(p),
        decreases all@.len() - i,
    {
        let ghost before = texts(out@);
        proof {
            assert(texts(all@)[i as int] == all@[i as int]@);
            assert(a@.take(i + 1).drop_last() =~= a@.take(i as int));
            assert(a@.take(i + 1).last() == a@[i as int]);
            reveal(Seq::filter);
        }
        if b.contains(all[i].as_str()) {
            out.push(all[i].clone());
            assert(texts(out@) =~= before.push(all@[i as int]@));
        }
        i = i + 1;
    }
    assert(a@.take(i as int) =~= a@);
    out
}

fn find_opportunity(a: &AgentSummary, b: &AgentSummary) -> (r: Option<CollaborationOpportunity>)
    ensures
        match r {
            Some(o) => fit(a@, b@) && o@ == opportunity(a@, b@),
            None => !fit(a@, b@),
        },
{
    if is_low_value_blocker(a.summary.as_str()) || is_low_value_blocker(b.summary.as_str()) {
        return None;
    }
    let topics = shared_topics(&a.topics, &b.topics);
    assert(texts(topics@).len() == topics@.len());
    if topics.len() == 0 {
        return None;
    }
    let listed = join(&topics, ", ");
    let mut reason = "shared high-value topics: ".to_string();
    reason.append(listed.as_str());
    let mut gain = a.agent_id.clone();
    gain.append(" and ");
    gain.append(b.agent_id.as_str());
    gain.append(" may combine findings around ");
    gain.append(listed.as_str());
    gain.append(" for a higher-value outcome");
    Some(
        CollaborationOpportunity {
            participants: (a.agent_id.clone(), b.agent_id.clone()),
            shared_topics: topics,
            reason,
            expected_gain: gain,
        },
    )
}

impl OpportunityScheduler {
    pub fn system_prompt(&self) -> (r: &'static str)
        ensures
            r@ == OFFICE_SCHEDULER_SYSTEM_PROMPT@,
    {
        OFFICE_SCHEDULER_SYSTEM_PROMPT
    }

    /// The pairs of agents that would gain from working together: neither only
    /// waits or is blocked, and they share a topic.
    pub fn discover(&self, summaries: &Vec<AgentSummary>) -> (r: Vec<CollaborationOpportunity>)
        ensures
            opportunity_models(r@) == opportunities_of(
                work_models(summaries@),
                summaries@.len(),
            ),
    {
        let n: usize = summaries.len();
        let ghost s = work_models(summaries@);
        let mut out: Vec<CollaborationOpportunity> = Vec::new();
        let mut i: usize = 0;
        assert(opportunity_models(out@) =~= opportunities_of(s, 0));
        while i < n
            invariant
                n == summaries@.len(),
                i <= n,
                s == work_models(summaries@),
                opportunity_models(out@) == opportunities_of(s, i as nat),
            decreases n - i,
        {
            let ghost head = opportunities_of(s, i as nat);
            let ghost rest = s.skip(i + 1);
            let mut j: usize = i + 1;
            assert(opportunity_models(out@) =~= head + opportunities_with(s[i as int], rest.take(0)));
            while j < n
                invariant
                    n == summaries@.len(),
                    i < j <= n,
                    s == work_models(summaries@),
                    rest == s.skip(i + 1),
                    head == opportunities_of(s, i as nat),
                    opportunity_models(out@) == head + opportunities_with(
                        s[i as int],
                        rest.take(j - i - 1),
                    ),
                decreases n - j,
            {
                let ghost before = opportunity_models(out@);
                let ghost seen = rest.take(j - i - 1);
                proof {
                    assert(rest.take(j - i).drop_last() =~= seen);
                    assert(rest.take(j - i).last() == s[j as int]);
                    assert(s[i as int] == summaries@[i as int]@);
                    assert(s[j as int] == summaries@[j as int]@);
                }
                match find_opportunity(&summaries[i], &summaries[j]) {
                    Some(o) => {
                        out.push(o);
                        assert(opportunity_models(out@) =~= before.push(o@));
                        assert(head + opportunities_with(s[i as int], seen).push(o@) =~= before.push(
                            o@,
                        ));
                    },
                    None => {},
                }
                j = j + 1;
            }
            assert(rest.take(n - i - 1) =~= rest);
            i = i + 1;
        }
        out
    }
}

/// Every proposal is of two agents of which neither only waits or is blocked, and
/// which share a topic; the one that comes first stands first.
pub proof fn law_proposals_fit(s: Seq<WorkModel>, n: nat, k: int)
    requires
        n <= s.len(),
        0 <= k < opportunities_of(s, n).len(),
    ensures
        exists|i: int, j: int|
            0 <= i < n && i < j < s.len() && #[trigger] fit(s[i], s[j]) && opportunities_of(s, n)[k]
                == opportunity(s[i], s[j]),
    decreases n,
{
    if n > 0 {
        let head = opportunities_of(s, (n - 1) as nat);
        let tail = opportunities_with(s[n - 1], s.skip(n as int));
        if k < head.len() {
            law_proposals_fit(s, (n - 1) as nat, k);
            let (i, j) = choose|i: int, j: int|
                0 <= i < n - 1 && i < j < s.len() && #[trigger] fit(s[i], s[j]) && head[k]
                    == opportunity(s[i], s[j]);
            assert(fit(s[i], s[j]) && opportunities_of(s, n)[k] == opportunity(s[i], s[j]));
        } else {
            let rest = s.skip(n as int);
            lemma_opportunities_with(s[n - 1], rest, k - head.len());
            let j = choose|j: int|
                0 <= j < rest.len() && #[trigger] fit(s[n - 1], rest[j]) && tail[k - head.len()]
                    == opportunity(s[n - 1], rest[j]);
            assert(rest[j] == s[n + j]);
            assert(fit(s[n - 1], s[n + j]) && opportunities_of(s, n)[k] == opportunity(
                s[n - 1],
                s[n + j],
            ));
        }
    }
}

proof fn lemma_opportunities_with(a: WorkModel, others: Seq<WorkModel>, k: int)
    requires
        0 <= k < opportunities_with(a, others).len(),
    ensures
        exists|j: int|
            0 <= j < others.len() && #[trigger] fit(a, others[j]) && opportunities_with(a, others)[k]
                == opportunity(a, others[j]),
    decreases others.len(),
{
    if others.len() > 0 {
        let front = others.drop_last();
        let head = opportunities_with(a, front);
        if k < head.len() {
            lemma_opportunities_with(a, front, k);
            let j = choose|j: int|
                0 <= j < front.len() && #[trigger] fit(a, front[j]) && head[k] == opportunity(
                    a,
                    front[j],
                );
            assert(front[j] == others[j]);
            assert(fit(a, others[j]) && opportunities_with(a, others)[k] == opportunity(
                a,
                others[j],
            ));
        } else {
            assert(fit(a, others[others.len() - 1]));
        }
    }
}

/// An agent only waits where its summary says so, in English in whatever case, or in
/// Chinese.
pub proof fn law_who_only_waits(summary: Seq<char>)
    ensures
        only_blocked(summary) <==> has_text(lower(summary), "waiting"@) || has_text(
            lower(summary),
            "blocked"@,
        ) || has_text(summary, "等待"@) || has_text(summary, "阻塞"@) || has_text(summary, "催促"@),
{
}

/// Two agents fit just where neither only waits and there is a topic that both have.
/// The proposal names both, and every topic that they share.
pub proof fn law_agents_fit_by_topic(a: WorkModel, b: WorkModel)
    ensures
        fit(a, b) <==> !only_blocked(a.summary) && !only_blocked(b.summary) && exists|t: Seq<char>| #[trigger]
            a.topics.contains(t) && b.topics.contains(t),
        opportunity(a, b).left == a.agent_id,
        opportunity(a, b).right == b.agent_id,
        forall|t: Seq<char>| #[trigger]
            opportunity(a, b).shared.contains(t) <==> a.topics.contains(t) && b.topics.contains(t),
        opportunity(a, b).reason == "shared high-value topics: "@ + joined(
            opportunity(a, b).shared,
            ", "@,
        ),
        opportunity(a, b).gain == a.agent_id + " and "@ + b.agent_id
            + " may combine findings around "@ + joined(opportunity(a, b).shared, ", "@)
            + " for a higher-value outcome"@,
{
    broadcast use vstd::seq_lib::group_filter_ensures;

    let f = |t: Seq<char>| b.topics.contains(t);
    let s = a.topics.filter(f);
    assert(shared(a.topics, b.topics) == s);
    lemma_shared(a.topics, b.topics);
    if s.len() > 0 {
        assert(s.contains(s[0]));
        assert(a.topics.contains(s[0]));
    }
    if exists|t: Seq<char>| #[trigger] a.topics.contains(t) && b.topics.contains(t) {
        let t = choose|t: Seq<char>| #[trigger] a.topics.contains(t) && b.topics.contains(t);
        assert(s.contains(t));
    }
}

proof fn lemma_shared(a: Seq<Seq<char>>, b: Seq<Seq<char>>)
    ensures
        forall|t: Seq<char>| #[trigger]
            shared(a, b).contains(t) <==> a.contains(t) && b.contains(t),
    decreases a.len(),
{
    reveal(Seq::filter);
    let f = |t: Seq<char>| b.contains(t);
    if a.len() > 0 {
        let h = a.drop_last();
        lemma_shared(h, b);
        let s = shared(a, b);
        let r = shared(h, b);
        assert forall|t: Seq<char>| #[trigger] s.contains(t) <==> a.contains(t) && b.contains(t) by {
            if s.contains(t) {
                let i = s.index_of(t);
                if i < r.len() {
                    assert(r[i] == t);
                    assert(r.contains(t));
                    let k = h.index_of(t);
                    assert(a[k] == t);
                } else {
                    assert(t == a.last());
                    assert(a[a.len() - 1] == t);
                }
            }
            if a.contains(t) && b.contains(t) {
                if h.contains(t) {
                    assert(r.contains(t));
                    let i = r.index_of(t);
                    assert(s[i] == t);
                } else {
                    let k = a.index_of(t);
                    if k < a.len() - 1 {
                        assert(h[k] == t);
                    }
                    assert(a.last() == t);
                    assert(s[s.len() - 1] == t);
                }
            }
        }
    } else {
        assert(shared(a, b).len() == 0);
    }
}

/// Whoever fits is proposed.
pub proof fn law_all_who_fit_are_proposed(s: Seq<WorkModel>, n: nat, i: int, j: int)
    requires
        n <= s.len(),
        0 <= i < n,
        i < j < s.len(),
        fit(s[i], s[j]),
    ensures
        opportunities_of(s, n).contains(opportunity(s[i], s[j])),
    decreases n,
{
    let o = opportunity(s[i], s[j]);
    let head = opportunities_of(s, (n - 1) as nat);
    let tail = opportunities_with(s[n - 1], s.skip(n as int));
    if i < n - 1 {
        law_all_who_fit_are_proposed(s, (n - 1) as nat, i, j);
        let k = head.index_of(o);
        assert((head + tail)[k] == o);
    } else {
        let others = s.skip(n as int);
        assert(others[j - n] == s[j]);
        lemma_who_fits_is_proposed(s[i], others, j - n);
        let k = tail.index_of(o);
        assert((head + tail)[head.len() + k] == o);
    }
}

proof fn lemma_who_fits_is_proposed(a: WorkModel, others: Seq<WorkModel>, j: int)
    requires
        0 <= j < others.len(),
        fit(a, others[j]),
    ensures
        opportunities_with(a, others).contains(opportunity(a, others[j])),
    decreases others.len(),
{
    let head = opportunities_with(a, others.drop_last());
    let o = opportunity(a, others[j]);
    let all = opportunities_with(a, others);
    if j < others.len() - 1 {
        assert(others.drop_last()[j] == others[j]);
        lemma_who_fits_is_proposed(a, others.drop_last(), j);
        let k = head.index_of(o);
        assert(all[k] == o);
    } else {
        assert(all[all.len() - 1] == o);
    }
}

} // verus!
