//! The text by which an agent knows its owner.
use crate::office::pilot::{
    fact_models, FactModel, HumanProfile, ProfileModel, UserProfileFact, UserProfileFactStatus,
};
use crate::text::{decimal, decimal_of, join, joined, texts, trim, trimmed, chars_of};
use crate::time::{stamp_less, stamp_text, Timestamp};
use vstd::prelude::*;

verus! {

/// The number of facts that an agent is told.
pub const MAX_FACTS: usize = 16;

pub const PROFILE_PREAMBLE: &'static str =
    "This is durable context about the human owner this agent serves. Use it to adapt prioritization, communication style, and escalation judgment. Do not treat it as a replacement for the current task instructions.";

/// Whether a fact counts for more than another: it is more important, or as
/// important and surer, or the same in both and newer.
pub open spec fn outranks(a: FactModel, b: FactModel) -> bool {
    ||| a.salience > b.salience
    ||| a.salience == b.salience && a.confidence > b.confidence
    ||| a.salience == b.salience && a.confidence == b.confidence && stamp_less(
        b.updated_at,
        a.updated_at,
    )
}

/// The place of a fact among ranked ones: behind all that it does not outrank.
pub open spec fn rank_place(s: Seq<FactModel>, f: FactModel) -> int
    decreases s.len(),
{
    if s.len() == 0 || !outranks(f, s.last()) {
        s.len() as int
    } else {
        rank_place(s.drop_last(), f)
    }
}

/// The facts by rank; those of one rank stay in their order.
pub open spec fn ranked(s: Seq<FactModel>) -> Seq<FactModel>
    decreases s.len(),
{
    if s.len() == 0 {
        Seq::empty()
    } else {
        let head = ranked(s.drop_last());
        head.insert(rank_place(head, s.last()), s.last())
    }
}

pub open spec fn active_facts(s: Seq<FactModel>) -> Seq<FactModel> {
    s.filter(|f: FactModel| f.status == UserProfileFactStatus::Active)
}

pub open spec fn top_facts(s: Seq<FactModel>) -> Seq<FactModel> {
    let r = ranked(active_facts(s));
    if r.len() > MAX_FACTS {
        r.take(MAX_FACTS as int)
    } else {
        r
    }
}

pub open spec fn fact_line(f: FactModel) -> Seq<char> {
    "- ["@ + f.category.text() + " confidence="@ + decimal(f.confidence as nat) + " salience="@
        + decimal(f.salience as nat) + "] "@ + f.value
}

/// A line for a value that says something.
pub open spec fn scalar_lines(key: Seq<char>, value: Seq<char>) -> Seq<Seq<char>> {
    if trim(value).len() == 0 {
        Seq::empty()
    } else {
        seq![key + ": "@ + trim(value)]
    }
}

/// The lines of the values that say something.
pub open spec fn bullet_lines(values: Seq<Seq<char>>) -> Seq<Seq<char>>
    decreases values.len(),
{
    if values.len() == 0 {
        Seq::empty()
    } else {
        let head = bullet_lines(values.drop_last());
        if trim(values.last()).len() == 0 {
            head
        } else {
            head.push("- "@ + trim(values.last()))
        }
    }
}

/// The lines of a list, under its key; none where no value says anything.
pub open spec fn list_lines(key: Seq<char>, values: Seq<Seq<char>>) -> Seq<Seq<char>> {
    if bullet_lines(values).len() == 0 {
        Seq::empty()
    } else {
        seq![key + ":"@] + bullet_lines(values)
    }
}

pub open spec fn fact_lines(facts: Seq<FactModel>) -> Seq<Seq<char>> {
    if active_facts(facts).len() == 0 {
        Seq::empty()
    } else {
        seq![""@, "active_facts:"@] + top_facts(facts).map_values(|f: FactModel| fact_line(f))
    }
}

pub open spec fn reflection_lines(at: Option<Timestamp>) -> Seq<Seq<char>> {
    match at {
        Some(t) => seq![""@, "last_reflection_at: "@ + stamp_text(t)],
        None => Seq::empty(),
    }
}

pub open spec fn profile_lines(p: ProfileModel) -> Seq<Seq<char>> {
    seq!["# Owner Profile: "@ + p.user_id, ""@, PROFILE_PREAMBLE@, ""@] + scalar_lines(
        "role"@,
        p.role,
    ) + scalar_lines("report_preference"@, p.report_preference) + list_lines(
        "capabilities"@,
        p.capability_labels,
    ) + list_lines("do_not_disturb"@, p.do_not_disturb) + list_lines("likes"@, p.likes)
        + list_lines("dislikes"@, p.dislikes) + list_lines("preferences"@, p.preferences)
        + fact_lines(p.facts) + reflection_lines(p.last_reflection_at)
}

/// What an agent is told of its owner.
pub open spec fn owner_profile_text(p: ProfileModel) -> Seq<char> {
    joined(profile_lines(p), "\n"@)
}

fn push_line(lines: &mut Vec<String>, line: String)
    ensures
        texts(final(lines)@) == texts(old(lines)@) + seq![line@],
{
    let ghost before = texts(lines@);
    lines.push(line);
    assert(texts(lines@) =~= before + seq![line@]);
}

/// Adds a line for a value that says something.
pub fn push_profile_scalar(lines: &mut Vec<String>, key: &str, value: &str)
    ensures
        texts(final(lines)@) == texts(old(lines)@) + scalar_lines(key@, value@),
{
    let ghost before = texts(lines@);
    let value = trimmed(value);
    if chars_of(value).len() > 0 {
        let mut line = key.to_string();
        line.append(": ");
        line.append(value);
        push_line(lines, line);
    } else {
        assert(before + Seq::<Seq<char>>::empty() =~= before);
    }
}

/// Adds the lines of a list.
pub fn push_profile_list(lines: &mut Vec<String>, key: &str, values: &Vec<String>)
    ensures
        texts(final(lines)@) == texts(old(lines)@) + list_lines(key@, texts(values@)),
{
    let ghost before = texts(lines@);
    let ghost all = texts(values@);
    let mut bullets: Vec<String> = Vec::new();
    let mut i: usize = 0;
    assert(texts(bullets@) =~= bullet_lines(all.take(0)));
    while i < values.len()
        invariant
            i <= values@.len(),
            all == texts(values@),
            texts(bullets@) == bullet_lines(all.take(i as int)),
        decreases values@.len() - i,
    {
        proof {
            assert(all.take(i + 1).drop_last() =~= all.take(i as int));
            assert(all.take(i + 1).last() == values@[i as int]@);
        }
        let value = trimmed(values[i].as_str());
        if chars_of(value).len() > 0 {
            let ghost held = texts(bullets@);
            let mut line = "- ".to_string();
            line.append(value);
            bullets.push(line);
            assert(texts(bullets@) =~= held.push(line@));
        }
        i = i + 1;
    }
    assert(all.take(i as int) =~= all);
    assert(texts(bullets@).len() == bullets@.len());
    if bullets.len() == 0 {
        assert(before + Seq::<Seq<char>>::empty() =~= before);
        return ;
    }
    let mut head = key.to_string();
    head.append(":");
    push_line(lines, head);
    let ghost under = before + seq![head@];
    let ghost b = texts(bullets@);
    let mut k: usize = 0;
    assert(under + b.take(0) =~= under);
    while k < bullets.len()
        invariant
            k <= bullets@.len(),
            b == texts(bullets@),
            texts(lines@) == under + b.take(k as int),
        decreases bullets@.len() - k,
    {
        push_line(lines, bullets[k].clone());
        k = k + 1;
        assert(under + b.take(k as int) =~= under + b.take(k - 1) + seq![b[k - 1]]);
    }
    assert(b.take(k as int) =~= b);
    assert(under + b =~= before + (seq![head@] + b));
}

fn does_outrank(a: &UserProfileFact, b: &UserProfileFact) -> (r: bool)
    ensures
        r == outranks(a@, b@),
{
    a.salience > b.salience || (a.salience == b.salience && a.confidence > b.confidence) || (
    a.salience == b.salience && a.confidence == b.confidence && b.updated_at.is_before(
        &a.updated_at,
    ))
}

/// The facts by rank.
pub fn rank_active_facts(facts: &Vec<UserProfileFact>) -> (r: Vec<UserProfileFact>)
    ensures
        fact_models(r@) == ranked(active_facts(fact_models(facts@))),
{
    let ghost all = fact_models(facts@);
    let ghost p = |f: FactModel| f.status == UserProfileFactStatus::Active;
    let mut out: Vec<UserProfileFact> = Vec::new();
    let mut i: usize = 0;
    proof {
        reveal(Seq::filter);
        assert(all.take(0).filter(p) =~= Seq::<FactModel>::empty());
        assert(fact_models(out@) =~= ranked(Seq::<FactModel>::empty()));
    }
    while i < facts.len()
        invariant
            i <= facts@.len(),
            all == fact_models(facts@),
            p == (|f: FactModel| f.status == UserProfileFactStatus::Active),
            fact_models(out@) == ranked(all.take(i as int).filter(p)),
        decreases facts@.len() - i,
    {
        let ghost held = fact_models(out@);
        let ghost done = all.take(i as int).filter(p);
        proof {
            assert(all[i as int] == facts@[i as int]@);
            assert(all.take(i + 1).drop_last() =~= all.take(i as int));
            assert(all.take(i + 1).last() == all[i as int]);
            reveal(Seq::filter);
        }
        if facts[i].status == UserProfileFactStatus::Active {
            let f = facts[i].copy();
            let mut j: usize = out.len();
            assert(held.take(j as int) =~= held);
            while 0 < j && does_outrank(&f, &out[j - 1])
                invariant
                    j <= out@.len(),
                    held == fact_models(out@),
                    rank_place(held, f@) == rank_place(held.take(j as int), f@),
                decreases j,
            {
                assert(held.take(j as int).last() == out@[j - 1]@);
                assert(held.take(j as int).drop_last() =~= held.take(j - 1));
                j = j - 1;
            }
            proof {
                if j > 0 {
                    assert(held.take(j as int).last() == out@[j - 1]@);
                }
                assert(rank_place(held.take(j as int), f@) == j);
                assert(done.push(f@).drop_last() =~= done);
            }
            out.insert(j, f);
            assert(fact_models(out@) =~= held.insert(j as int, f@));
            assert(all.take(i + 1).filter(p) == done.push(f@));
        }
        i = i + 1;
    }
    assert(all.take(i as int) =~= all);
    out
}

fn push_facts(lines: &mut Vec<String>, facts: &Vec<UserProfileFact>)
    ensures
        texts(final(lines)@) == texts(old(lines)@) + fact_lines(fact_models(facts@)),
{
    let ghost before = texts(lines@);
    let order = rank_active_facts(facts);
    let ghost r = fact_models(order@);
    proof {
        lemma_ranked_len(active_facts(fact_models(facts@)));
    }
    if order.len() == 0 {
        assert(before + Seq::<Seq<char>>::empty() =~= before);
        return ;
    }
    push_line(lines, "".to_string());
    push_line(lines, "active_facts:".to_string());
    let ghost under = texts(lines@);
    let ghost top = top_facts(fact_models(facts@));
    let ghost shown = top.map_values(|f: FactModel| fact_line(f));
    let n: usize = if order.len() > MAX_FACTS {
        MAX_FACTS
    } else {
        order.len()
    };
    assert(top.len() == n);
    let mut i: usize = 0;
    assert(under + shown.take(0) =~= under);
    while i < n
        invariant
            i <= n <= order@.len(),
            n == top.len(),
            r == fact_models(order@),
            forall|k: int| 0 <= k < n ==> #[trigger] top[k] == r[k],
            shown == top.map_values(|f: FactModel| fact_line(f)),
            texts(lines@) == under + shown.take(i as int),
        decreases n - i,
    {
        let f = &order[i];
        assert(top[i as int] == f@);
        let mut line = "- [".to_string();
        line.append(f.category.as_str());
        line.append(" confidence=");
        line.append(decimal_of(f.confidence as u64).as_str());
        line.append(" salience=");
        line.append(decimal_of(f.salience as u64).as_str());
        line.append("] ");
        line.append(f.value.as_str());
        assert(line@ == shown[i as int]);
        push_line(lines, line);
        i = i + 1;
        assert(under + shown.take(i as int) =~= under + shown.take(i - 1) + seq![shown[i - 1]]);
    }
    assert(shown.take(i as int) =~= shown);
    assert(under + shown =~= before + (seq![""@, "active_facts:"@] + shown));
}

/// What an agent is told of its owner.
pub fn render_owner_profile_prompt(profile: &HumanProfile) -> (r: String)
    ensures
        r@ == owner_profile_text(profile@),
{
    let mut lines: Vec<String> = Vec::new();
    let mut title = "# Owner Profile: ".to_string();
    title.append(profile.user_id.as_str());
    lines.push(title);
    lines.push("".to_string());
    lines.push(PROFILE_PREAMBLE.to_string());
    lines.push("".to_string());
    assert(texts(lines@) =~= seq![
        "# Owner Profile: "@ + profile.user_id@,
        ""@,
        PROFILE_PREAMBLE@,
        ""@,
    ]);
    push_profile_scalar(&mut lines, "role", profile.role.as_str());
    push_profile_scalar(&mut lines, "report_preference", profile.report_preference.as_str());
    push_profile_list(&mut lines, "capabilities", &profile.capability_labels);
    push_profile_list(&mut lines, "do_not_disturb", &profile.do_not_disturb);
    push_profile_list(&mut lines, "likes", &profile.likes);
    push_profile_list(&mut lines, "dislikes", &profile.dislikes);
    push_profile_list(&mut lines, "preferences", &profile.preferences);
    push_facts(&mut lines, &profile.profile_facts);
    let ghost before = texts(lines@);
    if let Some(at) = profile.last_reflection_at {
        push_line(&mut lines, "".to_string());
        let mut line = "last_reflection_at: ".to_string();
        line.append(at.to_rfc3339().as_str());
        push_line(&mut lines, line);
        assert(texts(lines@) =~= before + seq![""@, line@]);
    } else {
        assert(before + Seq::<Seq<char>>::empty() =~= before);
    }
    assert(texts(lines@) == profile_lines(profile@));
    join(&lines, "\n")
}

// ---------------------------------------------------------------------------
// Laws
// ---------------------------------------------------------------------------

proof fn lemma_rank_place(s: Seq<FactModel>, f: FactModel)
    ensures
        0 <= rank_place(s, f) <= s.len(),
        forall|i: int| rank_place(s, f) <= i < s.len() ==> outranks(f, #[trigger] s[i]),
        rank_place(s, f) > 0 ==> !outranks(f, s[rank_place(s, f) - 1]),
    decreases s.len(),
{
    if s.len() > 0 && outranks(f, s.last()) {
        lemma_rank_place(s.drop_last(), f);
        assert forall|i: int| rank_place(s, f) <= i < s.len() implies outranks(
            f,
            #[trigger] s[i],
        ) by {
            if i < s.len() - 1 {
                assert(s.drop_last()[i] == s[i]);
            }
        }
    }
}

proof fn lemma_ranked_len(s: Seq<FactModel>)
    ensures
        ranked(s).len() == s.len(),
    decreases s.len(),
{
    if s.len() > 0 {
        lemma_ranked_len(s.drop_last());
        lemma_rank_place(ranked(s.drop_last()), s.last());
    }
}

/// Ranking leaves out no fact and adds none.
pub proof fn law_ranking_keeps_all_facts(s: Seq<FactModel>)
    ensures
        ranked(s).to_multiset() == s.to_multiset(),
    decreases s.len(),
{
    broadcast use vstd::seq_lib::group_to_multiset_ensures;

    if s.len() > 0 {
        let front = s.drop_last();
        law_ranking_keeps_all_facts(front);
        let head = ranked(front);
        lemma_rank_place(head, s.last());
        assert(front.push(s.last()) =~= s);
        assert(ranked(s).to_multiset() =~= head.to_multiset().insert(s.last()));
        assert(s.to_multiset() =~= front.to_multiset().insert(s.last()));
    } else {
        assert(ranked(s) =~= s);
    }
}

/// No fact stands behind one that it outranks.
pub proof fn law_ranking_is_by_rank(s: Seq<FactModel>)
    ensures
        forall|i: int, j: int|
            0 <= i < j < ranked(s).len() ==> !outranks(
                #[trigger] ranked(s)[j],
                #[trigger] ranked(s)[i],
            ),
    decreases s.len(),
{
    if s.len() > 0 {
        let f = s.last();
        let head = ranked(s.drop_last());
        law_ranking_is_by_rank(s.drop_last());
        lemma_rank_place(head, f);
        let k = rank_place(head, f);
        let r = ranked(s);
        assert forall|i: int, j: int| 0 <= i < j < r.len() implies !outranks(
            #[trigger] r[j],
            #[trigger] r[i],
        ) by {
            if j < k {
                assert(r[i] == head[i] && r[j] == head[j]);
            } else if j == k {
                assert(r[j] == f && r[i] == head[i]);
                assert(!outranks(f, head[k - 1]));
                if i < k - 1 {
                    assert(!outranks(head[k - 1], head[i]));
                }
            } else if i < k {
                assert(r[i] == head[i] && r[j] == head[j - 1]);
            } else if i == k {
                assert(r[i] == f && r[j] == head[j - 1]);
                assert(outranks(f, head[j - 1]));
            } else {
                assert(r[i] == head[i - 1] && r[j] == head[j - 1]);
            }
        }
    }
}

/// The more important of two facts comes first; of two as important, the surer; and of
/// two as sure, the newer.
pub proof fn law_important_facts_come_first(a: FactModel, b: FactModel)
    ensures
        a.salience > b.salience ==> outranks(a, b) && !outranks(b, a),
        a.salience == b.salience && a.confidence > b.confidence ==> outranks(a, b) && !outranks(
            b,
            a,
        ),
        a.salience == b.salience && a.confidence == b.confidence && (b.updated_at.secs
            < a.updated_at.secs) ==> outranks(a, b) && !outranks(b, a),
        !outranks(a, a),
{
}

/// An agent is told the facts that are in force, the first sixteen by rank, and no
/// other.
pub proof fn law_facts_in_force_are_told(facts: Seq<FactModel>)
    ensures
        top_facts(facts).len() <= 16,
        active_facts(facts).len() <= 16 ==> top_facts(facts) == ranked(active_facts(facts)),
        active_facts(facts).len() > 16 ==> top_facts(facts).len() == 16 && top_facts(facts)
            == ranked(active_facts(facts)).take(16),
        forall|i: int|
            0 <= i < active_facts(facts).len() ==> (#[trigger] active_facts(facts)[i]).status
                == UserProfileFactStatus::Active,
        active_facts(facts).len() > 0 ==> fact_lines(facts).len() == top_facts(facts).len() + 2,
        active_facts(facts).len() == 0 ==> fact_lines(facts).len() == 0,
{
    broadcast use vstd::seq_lib::group_filter_ensures;

    let f = |f: FactModel| f.status == UserProfileFactStatus::Active;
    let s = facts.filter(f);
    assert(active_facts(facts) == s);
    assert forall|i: int| 0 <= i < s.len() implies (#[trigger] s[i]).status
        == UserProfileFactStatus::Active by {
        assert(f(s[i]));
    }
    lemma_ranked_len(s);
}

/// A fact is told with its category, how sure and how important it is, and its value.
pub proof fn law_facts_are_told_whole(f: FactModel)
    ensures
        fact_line(f) == "- ["@ + f.category.text() + " confidence="@ + decimal(f.confidence as nat)
            + " salience="@ + decimal(f.salience as nat) + "] "@ + f.value,
{
}

proof fn lemma_in_sum(a: Seq<Seq<char>>, b: Seq<Seq<char>>)
    ensures
        forall|x: Seq<char>| a.contains(x) ==> #[trigger] (a + b).contains(x),
        forall|x: Seq<char>| b.contains(x) ==> #[trigger] (a + b).contains(x),
{
    assert forall|x: Seq<char>| a.contains(x) implies #[trigger] (a + b).contains(x) by {
        let i = a.index_of(x);
        assert((a + b)[i] == x);
    }
    assert forall|x: Seq<char>| b.contains(x) implies #[trigger] (a + b).contains(x) by {
        let i = b.index_of(x);
        assert((a + b)[a.len() + i] == x);
    }
}

proof fn lemma_bullets(values: Seq<Seq<char>>, i: int)
    requires
        0 <= i < values.len(),
        trim(values[i]).len() > 0,
    ensures
        bullet_lines(values).contains("- "@ + trim(values[i])),
    decreases values.len(),
{
    let b = bullet_lines(values);
    let h = bullet_lines(values.drop_last());
    let x = "- "@ + trim(values[i]);
    if i < values.len() - 1 {
        assert(values.drop_last()[i] == values[i]);
        lemma_bullets(values.drop_last(), i);
        let k = h.index_of(x);
        assert(b[k] == x);
    } else {
        assert(b[b.len() - 1] == x);
    }
}

proof fn lemma_list_lines(key: Seq<char>, values: Seq<Seq<char>>, i: int)
    requires
        0 <= i < values.len(),
        trim(values[i]).len() > 0,
    ensures
        list_lines(key, values).contains("- "@ + trim(values[i])),
        list_lines(key, values).contains(key + ":"@),
{
    lemma_bullets(values, i);
    lemma_in_sum(seq![key + ":"@], bullet_lines(values));
    assert(seq![key + ":"@][0] == key + ":"@);
    assert(seq![key + ":"@].contains(key + ":"@));
}

/// A profile is told under the name of its person, with their role and how they like
/// reports where these are known.
pub proof fn law_profiles_are_told_whole(p: ProfileModel)
    ensures
        profile_lines(p)[0] == "# Owner Profile: "@ + p.user_id,
        trim(p.role).len() > 0 ==> profile_lines(p).contains("role: "@ + trim(p.role)),
        trim(p.report_preference).len() > 0 ==> profile_lines(p).contains(
            "report_preference: "@ + trim(p.report_preference),
        ),
        p.last_reflection_at matches Some(t) ==> profile_lines(p).contains(
            "last_reflection_at: "@ + stamp_text(t),
        ),
{
    let a = seq!["# Owner Profile: "@ + p.user_id, ""@, PROFILE_PREAMBLE@, ""@];
    let b = scalar_lines("role"@, p.role);
    let c = scalar_lines("report_preference"@, p.report_preference);
    let d = list_lines("capabilities"@, p.capability_labels);
    let e = list_lines("do_not_disturb"@, p.do_not_disturb);
    let f = list_lines("likes"@, p.likes);
    let g = list_lines("dislikes"@, p.dislikes);
    let h = list_lines("preferences"@, p.preferences);
    let i = fact_lines(p.facts);
    let j = reflection_lines(p.last_reflection_at);
    lemma_in_sum(a, b);
    lemma_in_sum(a + b, c);
    lemma_in_sum(a + b + c, d);
    lemma_in_sum(a + b + c + d, e);
    lemma_in_sum(a + b + c + d + e, f);
    lemma_in_sum(a + b + c + d + e + f, g);
    lemma_in_sum(a + b + c + d + e + f + g, h);
    lemma_in_sum(a + b + c + d + e + f + g + h, i);
    lemma_in_sum(a + b + c + d + e + f + g + h + i, j);
    reveal_strlit("role");
    reveal_strlit(": ");
    reveal_strlit("role: ");
    reveal_strlit("report_preference");
    reveal_strlit("report_preference: ");
    assert("role"@ + ": "@ =~= "role: "@);
    assert("report_preference"@ + ": "@ =~= "report_preference: "@);
    if trim(p.role).len() > 0 {
        assert(b[0] == "role: "@ + trim(p.role));
        assert(b.contains("role: "@ + trim(p.role)));
    }
    if trim(p.report_preference).len() > 0 {
        assert(c[0] == "report_preference: "@ + trim(p.report_preference));
        assert(c.contains("report_preference: "@ + trim(p.report_preference)));
    }
    if let Some(t) = p.last_reflection_at {
        assert(j[1] == "last_reflection_at: "@ + stamp_text(t));
        assert(j.contains("last_reflection_at: "@ + stamp_text(t)));
    }
}

/// Whether a list of a profile is told, under its key: each of its values that says
/// something.
pub open spec fn tells_list(lines: Seq<Seq<char>>, key: Seq<char>, values: Seq<Seq<char>>) -> bool {
    forall|i: int|
        0 <= i < values.len() && trim(#[trigger] values[i]).len() > 0 ==> lines.contains(
            key + ":"@,
        ) && lines.contains("- "@ + trim(values[i]))
}

/// Every list of a profile is told under its own key.
pub proof fn law_lists_are_told(p: ProfileModel)
    ensures
        tells_list(profile_lines(p), "capabilities"@, p.capability_labels),
        tells_list(profile_lines(p), "do_not_disturb"@, p.do_not_disturb),
        tells_list(profile_lines(p), "likes"@, p.likes),
        tells_list(profile_lines(p), "dislikes"@, p.dislikes),
        tells_list(profile_lines(p), "preferences"@, p.preferences),
{
    let a = seq!["# Owner Profile: "@ + p.user_id, ""@, PROFILE_PREAMBLE@, ""@] + scalar_lines(
        "role"@,
        p.role,
    ) + scalar_lines("report_preference"@, p.report_preference);
    let d = list_lines("capabilities"@, p.capability_labels);
    let e = list_lines("do_not_disturb"@, p.do_not_disturb);
    let f = list_lines("likes"@, p.likes);
    let g = list_lines("dislikes"@, p.dislikes);
    let h = list_lines("preferences"@, p.preferences);
    let i = fact_lines(p.facts);
    let j = reflection_lines(p.last_reflection_at);
    let all = profile_lines(p);
    assert(all == a + d + e + f + g + h + i + j);
    lemma_in_sum(a, d);
    lemma_in_sum(a + d, e);
    lemma_in_sum(a + d + e, f);
    lemma_in_sum(a + d + e + f, g);
    lemma_in_sum(a + d + e + f + g, h);
    lemma_in_sum(a + d + e + f + g + h, i);
    lemma_in_sum(a + d + e + f + g + h + i, j);
    lemma_tells(all, d, "capabilities"@, p.capability_labels);
    lemma_tells(all, e, "do_not_disturb"@, p.do_not_disturb);
    lemma_tells(all, f, "likes"@, p.likes);
    lemma_tells(all, g, "dislikes"@, p.dislikes);
    lemma_tells(all, h, "preferences"@, p.preferences);
}

proof fn lemma_tells(
    all: Seq<Seq<char>>,
    part: Seq<Seq<char>>,
    key: Seq<char>,
    values: Seq<Seq<char>>,
)
    requires
        part == list_lines(key, values),
        forall|x: Seq<char>| part.contains(x) ==> #[trigger] all.contains(x),
    ensures
        tells_list(all, key, values),
{
    assert forall|i: int| 0 <= i < values.len() && trim(#[trigger] values[i]).len() > 0 implies all.contains(
        key + ":"@,
    ) && all.contains("- "@ + trim(values[i])) by {
        lemma_list_lines(key, values, i);
    }
}

} // verus!
