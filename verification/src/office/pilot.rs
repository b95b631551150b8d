//! The pilot directory: accounts, profiles of people and agents, who owns which
//! agent, and what is learned of people from what they say.
use crate::table::{lemma_push_contains, Table};
use crate::text::{
    chars_of, clone_texts, contains_char, contains_text, cut_at, cut_text, has_text, hex_digit,
    opt_text, same_text, strip_end, strip_end_chars, strip_prefixes, strip_prefixes_of, strip_start,
    strip_start_chars, text_of, texts, trim, trimmed,
};
use crate::time::{stamp_text, Timestamp};
use vstd::prelude::*;
use vstd::utf8::encode_utf8;

verus! {

#[derive(Clone, Debug, Eq, PartialEq)]
pub struct PilotAccount {
    pub user_id: String,
    pub username: String,
    pub password: String,
    pub agent_id: String,
}

#[derive(Clone, Debug, Eq, PartialEq)]
pub struct HumanProfile {
    pub user_id: String,
    pub role: String,
    pub capability_labels: Vec<String>,
    pub do_not_disturb: Vec<String>,
    pub report_preference: String,
    pub last_reflection_at: Option<Timestamp>,
    pub likes: Vec<String>,
    pub dislikes: Vec<String>,
    pub preferences: Vec<String>,
    pub profile_facts: Vec<UserProfileFact>,
    pub conversation_evidence: Vec<UserProfileEvidence>,
}

#[derive(Clone, Copy, Debug, Eq, PartialEq, Structural)]
pub enum UserProfileFactCategory {
    Like,
    Dislike,
    Capability,
    Preference,
    DoNotDisturb,
    CommunicationStyle,
}

#[derive(Clone, Copy, Debug, Eq, PartialEq, Structural)]
pub enum UserProfileFactStatus {
    Candidate,
    Active,
    Superseded,
}

#[derive(Clone, Debug, Eq, PartialEq)]
pub struct UserProfileEvidence {
    pub event_id: String,
    pub message_id: String,
    pub agent_id: String,
    pub content: String,
    pub observed_at: Timestamp,
}

#[derive(Clone, Debug, Eq, PartialEq)]
pub struct UserProfileFact {
    pub fact_id: String,
    pub user_id: String,
    pub category: UserProfileFactCategory,
    pub value: String,
    pub confidence: u8,
    pub salience: u8,
    pub status: UserProfileFactStatus,
    pub evidence_message_ids: Vec<String>,
    pub created_at: Timestamp,
    pub updated_at: Timestamp,
    pub last_seen_at: Timestamp,
}

#[derive(Clone, Debug, Eq, PartialEq)]
pub struct AgentProfile {
    pub agent_id: String,
    pub owner_user_id: String,
    pub allowed_tools: Vec<String>,
}

#[derive(Clone, Copy, Debug, Eq, PartialEq, Structural)]
pub enum AgentOwnerBindingType {
    PrimaryOwner,
}

#[derive(Clone, Copy, Debug, Eq, PartialEq, Structural)]
pub enum AgentOwnerBindingStatus {
    Active,
    Inactive,
}

#[derive(Clone, Debug, Eq, PartialEq)]
pub struct AgentOwnerBinding {
    pub agent_id: String,
    pub owner_user_id: String,
    pub binding_type: AgentOwnerBindingType,
    pub status: AgentOwnerBindingStatus,
    pub version: u64,
}

#[derive(Clone, Debug, Eq, PartialEq)]
pub struct PilotSession {
    pub user_id: String,
    pub agent_id: String,
}

#[derive(Clone, Debug, Eq, PartialEq)]
pub struct DailyReflection {
    pub user_id: String,
    pub profile_updates: Vec<String>,
    pub admitted_facts: Vec<UserProfileFact>,
    pub reflected_at: Timestamp,
}

/// A candidate for a fact: what it is about, its value, and how sure and how
/// important it is.
#[derive(Clone, Debug, Eq, PartialEq)]
pub struct FactCandidate {
    pub category: UserProfileFactCategory,
    pub value: String,
    pub confidence: u8,
    pub salience: u8,
}

// ---------------------------------------------------------------------------
// Models
// ---------------------------------------------------------------------------

#[verifier::ext_equal]
pub struct FactModel {
    pub fact_id: Seq<char>,
    pub user_id: Seq<char>,
    pub category: UserProfileFactCategory,
    pub value: Seq<char>,
    pub confidence: u8,
    pub salience: u8,
    pub status: UserProfileFactStatus,
    pub evidence: Seq<Seq<char>>,
    pub created_at: Timestamp,
    pub updated_at: Timestamp,
    pub last_seen_at: Timestamp,
}

#[verifier::ext_equal]
pub struct EvidenceModel {
    pub event_id: Seq<char>,
    pub message_id: Seq<char>,
    pub agent_id: Seq<char>,
    pub content: Seq<char>,
    pub observed_at: Timestamp,
}

#[verifier::ext_equal]
pub struct ProfileModel {
    pub user_id: Seq<char>,
    pub role: Seq<char>,
    pub capability_labels: Seq<Seq<char>>,
    pub do_not_disturb: Seq<Seq<char>>,
    pub report_preference: Seq<char>,
    pub last_reflection_at: Option<Timestamp>,
    pub likes: Seq<Seq<char>>,
    pub dislikes: Seq<Seq<char>>,
    pub preferences: Seq<Seq<char>>,
    pub facts: Seq<FactModel>,
    pub evidence: Seq<EvidenceModel>,
}

#[verifier::ext_equal]
pub struct CandidateModel {
    pub category: UserProfileFactCategory,
    pub value: Seq<char>,
    pub confidence: u8,
    pub salience: u8,
}

impl View for UserProfileFact {
    type V = FactModel;

    open spec fn view(&self) -> FactModel {
        FactModel {
            fact_id: self.fact_id@,
            user_id: self.user_id@,
            category: self.category,
            value: self.value@,
            confidence: self.confidence,
            salience: self.salience,
            status: self.status,
            evidence: texts(self.evidence_message_ids@),
            created_at: self.created_at,
            updated_at: self.updated_at,
            last_seen_at: self.last_seen_at,
        }
    }
}

impl View for UserProfileEvidence {
    type V = EvidenceModel;

    open spec fn view(&self) -> EvidenceModel {
        EvidenceModel {
            event_id: self.event_id@,
            message_id: self.message_id@,
            agent_id: self.agent_id@,
            content: self.content@,
            observed_at: self.observed_at,
        }
    }
}

pub open spec fn fact_models(v: Seq<UserProfileFact>) -> Seq<FactModel> {
    v.map_values(|f: UserProfileFact| f@)
}

impl View for HumanProfile {
    type V = ProfileModel;

    open spec fn view(&self) -> ProfileModel {
        ProfileModel {
            user_id: self.user_id@,
            role: self.role@,
            capability_labels: texts(self.capability_labels@),
            do_not_disturb: texts(self.do_not_disturb@),
            report_preference: self.report_preference@,
            last_reflection_at: self.last_reflection_at,
            likes: texts(self.likes@),
            dislikes: texts(self.dislikes@),
            preferences: texts(self.preferences@),
            facts: fact_models(self.profile_facts@),
            evidence: self.conversation_evidence@.map_values(|e: UserProfileEvidence| e@),
        }
    }
}

impl View for FactCandidate {
    type V = CandidateModel;

    open spec fn view(&self) -> CandidateModel {
        CandidateModel {
            category: self.category,
            value: self.value@,
            confidence: self.confidence,
            salience: self.salience,
        }
    }
}

pub open spec fn candidate_models(v: Seq<FactCandidate>) -> Seq<CandidateModel> {
    v.map_values(|c: FactCandidate| c@)
}

impl UserProfileFactCategory {
    pub open spec fn text(self) -> Seq<char> {
        match self {
            UserProfileFactCategory::Like => "like"@,
            UserProfileFactCategory::Dislike => "dislike"@,
            UserProfileFactCategory::Capability => "capability"@,
            UserProfileFactCategory::Preference => "preference"@,
            UserProfileFactCategory::DoNotDisturb => "do_not_disturb"@,
            UserProfileFactCategory::CommunicationStyle => "communication_style"@,
        }
    }

    pub fn as_str(self) -> (r: &'static str)
        ensures
            r@ == self.text(),
    {
        match self {
            UserProfileFactCategory::Like => "like",
            UserProfileFactCategory::Dislike => "dislike",
            UserProfileFactCategory::Capability => "capability",
            UserProfileFactCategory::Preference => "preference",
            UserProfileFactCategory::DoNotDisturb => "do_not_disturb",
            UserProfileFactCategory::CommunicationStyle => "communication_style",
        }
    }
}

// ---------------------------------------------------------------------------
// Reading facts from what people say
// ---------------------------------------------------------------------------

/// The characters that end a clause.
pub open spec fn clause_ends() -> Seq<char> {
    "。！!？?\n;；，"@
}

/// The position of the first character of `set` in `s`, or the length of `s`.
pub open spec fn first_of(s: Seq<char>, set: Seq<char>) -> int
    decreases s.len(),
{
    if s.len() == 0 || set.contains(s[0]) {
        0
    } else {
        1 + first_of(s.skip(1), set)
    }
}

proof fn lemma_first_of(s: Seq<char>, set: Seq<char>)
    ensures
        0 <= first_of(s, set) <= s.len(),
        first_of(s, set) < s.len() ==> set.contains(s[first_of(s, set)]),
        forall|j: int| 0 <= j < first_of(s, set) ==> !set.contains(#[trigger] s[j]),
    decreases s.len(),
{
    if s.len() > 0 && !set.contains(s[0]) {
        let t = s.skip(1);
        lemma_first_of(t, set);
        assert forall|j: int| 0 <= j < first_of(s, set) implies !set.contains(#[trigger] s[j]) by {
            if j > 0 {
                assert(t[j - 1] == s[j]);
            }
        }
        if first_of(t, set) < t.len() {
            assert(t[first_of(t, set)] == s[first_of(t, set) + 1]);
        }
    }
}

proof fn lemma_first_of_is(s: Seq<char>, set: Seq<char>, k: int)
    requires
        0 <= k <= s.len(),
        k < s.len() ==> set.contains(s[k]),
        forall|j: int| 0 <= j < k ==> !set.contains(#[trigger] s[j]),
    ensures
        first_of(s, set) == k,
{
    lemma_first_of(s, set);
    let f = first_of(s, set);
    if f < k {
        assert(!set.contains(s[f]));
    }
    if k < f {
        assert(!set.contains(s[k]));
    }
}

/// The clauses of a text, trimmed; empty ones are left out.
pub open spec fn clauses(s: Seq<char>) -> Seq<Seq<char>>
    decreases s.len(),
{
    let k = first_of(s, clause_ends());
    let head = trim(s.take(k));
    let rest = if 0 <= k < s.len() {
        clauses(s.skip(k + 1))
    } else {
        Seq::empty()
    };
    if head.len() > 0 {
        seq![head] + rest
    } else {
        rest
    }
}

/// The words that introduce a fact of a category, in the order in which they are
/// looked for.
pub open spec fn markers(category: UserProfileFactCategory) -> Seq<Seq<char>> {
    match category {
        UserProfileFactCategory::Dislike => seq![
            "我不喜欢"@,
            "不喜欢"@,
            "我讨厌"@,
            "讨厌"@,
            "反感"@,
            "不爱"@,
        ],
        UserProfileFactCategory::Like => seq!["我喜欢"@, "喜欢"@, "偏爱"@, "爱用"@],
        UserProfileFactCategory::Capability => seq![
            "我擅长"@,
            "擅长"@,
            "我会"@,
            "我负责"@,
            "负责"@,
            "我的能力是"@,
            "能力是"@,
        ],
        UserProfileFactCategory::DoNotDisturb => seq![
            "不要打扰"@,
            "不要频繁打扰"@,
            "别打扰"@,
            "不要提醒"@,
            "别提醒"@,
            "勿扰"@,
        ],
        UserProfileFactCategory::CommunicationStyle => seq![
            "请以后"@,
            "以后请"@,
            "希望你"@,
            "我希望"@,
            "汇报时"@,
            "回复时"@,
        ],
        UserProfileFactCategory::Preference => seq![
            "我偏好"@,
            "偏好"@,
            "更喜欢"@,
            "优先"@,
            "最好"@,
        ],
    }
}

/// A value without the punctuation around it.
pub open spec fn cleaned(value: Seq<char>) -> Seq<char> {
    trim(strip_end(strip_start(trim(value), "：:，,、 "@), "。.！!？?，,；;"@))
}

/// What somebody is not to be disturbed with; where nothing is said, what the
/// marker itself names.
pub open spec fn cleaned_do_not_disturb(value: Seq<char>, marker: Seq<char>) -> Seq<char> {
    let said = trim(strip_end(trim(value), "我"@));
    if said.len() == 0 {
        trim(strip_start(strip_start(strip_prefixes(marker, "不要"@), "别"@), "勿"@))
    } else {
        said
    }
}

pub open spec fn cleaned_for(
    value: Seq<char>,
    marker: Seq<char>,
    category: UserProfileFactCategory,
) -> Seq<char> {
    if category == UserProfileFactCategory::DoNotDisturb {
        cleaned_do_not_disturb(cleaned(value), marker)
    } else {
        cleaned(value)
    }
}

/// The value a clause gives behind a marker. A like that is denied is none.
pub open spec fn value_after(
    clause: Seq<char>,
    marker: Seq<char>,
    category: UserProfileFactCategory,
) -> Option<Seq<char>> {
    match cut_at(clause, marker) {
        Some((before, after)) => if category == UserProfileFactCategory::Like && before.len() > 0
            && "不没無无"@.contains(before.last()) {
            None
        } else if cleaned_for(after, marker, category).len() == 0 {
            None
        } else {
            Some(cleaned_for(after, marker, category))
        },
        None => None,
    }
}

/// The value that the first marker from place `i` on gives.
pub open spec fn marked_value(
    clause: Seq<char>,
    category: UserProfileFactCategory,
    i: nat,
) -> Option<Seq<char>>
    decreases markers(category).len() - i,
{
    if i >= markers(category).len() {
        None
    } else {
        match value_after(clause, markers(category)[i as int], category) {
            Some(value) => Some(value),
            None => marked_value(clause, category, i + 1),
        }
    }
}

pub open spec fn confidence_of(category: UserProfileFactCategory) -> u8 {
    match category {
        UserProfileFactCategory::Dislike => 88,
        UserProfileFactCategory::Like => 86,
        UserProfileFactCategory::Capability => 84,
        UserProfileFactCategory::DoNotDisturb => 90,
        UserProfileFactCategory::CommunicationStyle => 82,
        UserProfileFactCategory::Preference => 82,
    }
}

pub open spec fn salience_of(category: UserProfileFactCategory) -> u8 {
    match category {
        UserProfileFactCategory::Dislike => 84,
        UserProfileFactCategory::Like => 80,
        UserProfileFactCategory::Capability => 78,
        UserProfileFactCategory::DoNotDisturb => 86,
        UserProfileFactCategory::CommunicationStyle => 78,
        UserProfileFactCategory::Preference => 76,
    }
}

pub open spec fn has_category(
    facts: Seq<CandidateModel>,
    category: UserProfileFactCategory,
) -> bool {
    exists|i: int| 0 <= i < facts.len() && (#[trigger] facts[i]).category == category
}

/// The candidates after a clause was searched for a fact of one category. Only
/// the first fact of a category counts.
pub open spec fn searched(
    facts: Seq<CandidateModel>,
    clause: Seq<char>,
    category: UserProfileFactCategory,
) -> Seq<CandidateModel> {
    if has_category(facts, category) {
        facts
    } else {
        match marked_value(clause, category, 0) {
            Some(value) => facts.push(
                CandidateModel {
                    category,
                    value,
                    confidence: confidence_of(category),
                    salience: salience_of(category),
                },
            ),
            None => facts,
        }
    }
}

/// The candidates after a clause was searched for facts of all categories.
pub open spec fn searched_all(facts: Seq<CandidateModel>, clause: Seq<char>) -> Seq<
    CandidateModel,
> {
    let a = searched(facts, clause, UserProfileFactCategory::Dislike);
    let b = searched(a, clause, UserProfileFactCategory::Like);
    let c = searched(b, clause, UserProfileFactCategory::Capability);
    let d = searched(c, clause, UserProfileFactCategory::DoNotDisturb);
    let e = searched(d, clause, UserProfileFactCategory::CommunicationStyle);
    searched(e, clause, UserProfileFactCategory::Preference)
}

/// The candidates that a list of clauses gives.
pub open spec fn searched_clauses(list: Seq<Seq<char>>) -> Seq<CandidateModel>
    decreases list.len(),
{
    if list.len() == 0 {
        Seq::empty()
    } else {
        searched_all(searched_clauses(list.drop_last()), list.last())
    }
}

/// The first of the candidates with the same category and value.
pub open spec fn without_repeats(facts: Seq<CandidateModel>) -> Seq<CandidateModel>
    decreases facts.len(),
{
    if facts.len() == 0 {
        Seq::empty()
    } else {
        let kept = without_repeats(facts.drop_last());
        if repeats(kept, facts.last()) {
            kept
        } else {
            kept.push(facts.last())
        }
    }
}

pub open spec fn repeats(facts: Seq<CandidateModel>, fact: CandidateModel) -> bool {
    exists|i: int|
        0 <= i < facts.len() && (#[trigger] facts[i]).category == fact.category && facts[i].value
            == fact.value
}

/// The candidates for facts that a text gives.
pub open spec fn candidates_in(content: Seq<char>) -> Seq<CandidateModel> {
    without_repeats(searched_clauses(clauses(content)))
}

/// The clauses of a text, trimmed; empty ones are left out.
pub fn split_profile_clauses(content: &str) -> (r: Vec<String>)
    ensures
        texts(r@) == clauses(content@),
{
    let chars = chars_of(content);
    let n: usize = chars.len();
    let mut out: Vec<String> = Vec::new();
    let mut from: usize = 0;
    let mut more = true;
    assert(content@.skip(0) =~= content@);
    assert(texts(out@) + clauses(content@) =~= clauses(content@));
    while more
        invariant
            n == chars@.len(),
            chars@ == content@,
            from <= n,
            more ==> texts(out@) + clauses(content@.skip(from as int)) == clauses(content@),
            !more ==> texts(out@) == clauses(content@),
        decreases n - from + (if more {
                1int
            } else {
                0int
            }),
    {
        let ghost rest = content@.skip(from as int);
        let ghost start = from;
        let mut k: usize = from;
        while k < n && !contains_char("。！!？?\n;；，", chars[k])
            invariant
                n == chars@.len(),
                chars@ == content@,
                from <= k <= n,
                forall|j: int|
                    from <= j < k ==> !clause_ends().contains(#[trigger] content@[j]),
            decreases n - k,
        {
            k = k + 1;
        }
        proof {
            assert forall|j: int| 0 <= j < k - from implies !clause_ends().contains(
                #[trigger] rest[j],
            ) by {
                assert(rest[j] == content@[from + j]);
            }
            lemma_first_of_is(rest, clause_ends(), k - from);
        }
        let part = text_of(&chars, from, k);
        assert(part@ =~= rest.take(k - from));
        let head = trimmed(part.as_str());
        let ghost before = texts(out@);
        if !head.is_empty() {
            out.push(head.to_string());
            assert(texts(out@) =~= before.push(head@));
        }
        if k < n {
            from = k + 1;
            assert(rest.skip(k - start + 1) =~= content@.skip(from as int));
            assert(texts(out@) + clauses(content@.skip(from as int)) =~= before + clauses(rest));
        } else {
            more = false;
            assert(texts(out@) =~= before + clauses(rest));
        }
    }
    out
}

/// A value without the punctuation around it.
pub fn clean_profile_value(value: &str) -> (r: String)
    ensures
        r@ == cleaned(value@),
{
    let a = trimmed(value);
    let b = strip_start_chars(a, "：:，,、 ");
    let c = strip_end_chars(b, "。.！!？?，,；;");
    trimmed(c).to_string()
}

pub fn clean_do_not_disturb_value(value: &str, marker: &str) -> (r: String)
    ensures
        r@ == cleaned_do_not_disturb(value@, marker@),
{
    let said = trimmed(strip_end_chars(trimmed(value), "我"));
    if said.is_empty() {
        proof {
            reveal_strlit("不要");
        }
        let a = strip_prefixes_of(marker, "不要");
        let b = strip_start_chars(a, "别");
        let c = strip_start_chars(b, "勿");
        trimmed(c).to_string()
    } else {
        said.to_string()
    }
}

pub fn clean_profile_value_for_category(
    value: &str,
    marker: &str,
    category: UserProfileFactCategory,
) -> (r: String)
    ensures
        r@ == cleaned_for(value@, marker@, category),
{
    let value = clean_profile_value(value);
    if category == UserProfileFactCategory::DoNotDisturb {
        clean_do_not_disturb_value(value.as_str(), marker)
    } else {
        value
    }
}

/// The value a clause gives behind a marker.
pub fn extract_after_marker(clause: &str, marker: &str, category: UserProfileFactCategory) -> (r:
    Option<String>)
    ensures
        opt_text(r) == value_after(clause@, marker@, category),
{
    match cut_text(clause, marker) {
        Some((before, after)) => {
            if category == UserProfileFactCategory::Like {
                let head = chars_of(before);
                let n: usize = head.len();
                if n > 0 && contains_char("不没無无", head[n - 1]) {
                    return None;
                }
            }
            let value = clean_profile_value_for_category(after, marker, category);
            if value.as_str().is_empty() {
                None
            } else {
                Some(value)
            }
        },
        None => None,
    }
}

fn marker_at(category: UserProfileFactCategory, i: usize) -> (r: Option<&'static str>)
    ensures
        match r {
            Some(m) => i < markers(category).len() && m@ == markers(category)[i as int],
            None => i >= markers(category).len(),
        },
{
    match category {
        UserProfileFactCategory::Dislike => if i == 0 {
            Some("我不喜欢")
        } else if i == 1 {
            Some("不喜欢")
        } else if i == 2 {
            Some("我讨厌")
        } else if i == 3 {
            Some("讨厌")
        } else if i == 4 {
            Some("反感")
        } else if i == 5 {
            Some("不爱")
        } else {
            None
        },
        UserProfileFactCategory::Like => if i == 0 {
            Some("我喜欢")
        } else if i == 1 {
            Some("喜欢")
        } else if i == 2 {
            Some("偏爱")
        } else if i == 3 {
            Some("爱用")
        } else {
            None
        },
        UserProfileFactCategory::Capability => if i == 0 {
            Some("我擅长")
        } else if i == 1 {
            Some("擅长")
        } else if i == 2 {
            Some("我会")
        } else if i == 3 {
            Some("我负责")
        } else if i == 4 {
            Some("负责")
        } else if i == 5 {
            Some("我的能力是")
        } else if i == 6 {
            Some("能力是")
        } else {
            None
        },
        UserProfileFactCategory::DoNotDisturb => if i == 0 {
            Some("不要打扰")
        } else if i == 1 {
            Some("不要频繁打扰")
        } else if i == 2 {
            Some("别打扰")
        } else if i == 3 {
            Some("不要提醒")
        } else if i == 4 {
            Some("别提醒")
        } else if i == 5 {
            Some("勿扰")
        } else {
            None
        },
        UserProfileFactCategory::CommunicationStyle => if i == 0 {
            Some("请以后")
        } else if i == 1 {
            Some("以后请")
        } else if i == 2 {
            Some("希望你")
        } else if i == 3 {
            Some("我希望")
        } else if i == 4 {
            Some("汇报时")
        } else if i == 5 {
            Some("回复时")
        } else {
            None
        },
        UserProfileFactCategory::Preference => if i == 0 {
            Some("我偏好")
        } else if i == 1 {
            Some("偏好")
        } else if i == 2 {
            Some("更喜欢")
        } else if i == 3 {
            Some("优先")
        } else if i == 4 {
            Some("最好")
        } else {
            None
        },
    }
}

fn scores_of(category: UserProfileFactCategory) -> (r: (u8, u8))
    ensures
        r.0 == confidence_of(category),
        r.1 == salience_of(category),
{
    match category {
        UserProfileFactCategory::Dislike => (88, 84),
        UserProfileFactCategory::Like => (86, 80),
        UserProfileFactCategory::Capability => (84, 78),
        UserProfileFactCategory::DoNotDisturb => (90, 86),
        UserProfileFactCategory::CommunicationStyle => (82, 78),
        UserProfileFactCategory::Preference => (82, 76),
    }
}

/// Searches a clause for a fact of one category.
pub fn admit_marker_candidate(
    facts: &mut Vec<FactCandidate>,
    clause: &str,
    category: UserProfileFactCategory,
)
    ensures
        candidate_models(final(facts)@) == searched(
            candidate_models(old(facts)@),
            clause@,
            category,
        ),
{
    let ghost before = candidate_models(facts@);
    let mut k: usize = 0;
    while k < facts.len()
        invariant
            k <= facts@.len(),
            facts@ == old(facts)@,
            before == candidate_models(facts@),
            forall|j: int| 0 <= j < k ==> (#[trigger] before[j]).category != category,
        decreases facts@.len() - k,
    {
        if facts[k].category == category {
            assert(before[k as int].category == category);
            return;
        }
        k = k + 1;
    }
    let mut i: usize = 0;
    while i < 8
        invariant
            i <= 8,
            facts@ == old(facts)@,
            before == candidate_models(facts@),
            !has_category(before, category),
            marked_value(clause@, category, 0) == marked_value(clause@, category, i as nat),
        decreases 8 - i,
    {
        match marker_at(category, i) {
            Some(marker) => {
                if let Some(value) = extract_after_marker(clause, marker, category) {
                    let (confidence, salience) = scores_of(category);
                    let c = FactCandidate { category, value, confidence, salience };
                    facts.push(c);
                    assert(candidate_models(facts@) =~= before.push(c@));
                    return;
                }
            },
            None => {
                return;
            },
        }
        i = i + 1;
    }
    assert(markers(category).len() <= 8);
}

/// Drops candidates that repeat an earlier one.
pub fn dedupe_candidates(facts: Vec<FactCandidate>) -> (r: Vec<FactCandidate>)
    ensures
        candidate_models(r@) == without_repeats(candidate_models(facts@)),
{
    let ghost all = candidate_models(facts@);
    let mut out: Vec<FactCandidate> = Vec::new();
    let n: usize = facts.len();
    let mut i: usize = 0;
    while i < n
        invariant
            n == facts@.len(),
            i <= n,
            all == candidate_models(facts@),
            candidate_models(out@) == without_repeats(all.take(i as int)),
        decreases n - i,
    {
        let fact = &facts[i];
        let ghost kept = candidate_models(out@);
        let mut repeated = false;
        let mut j: usize = 0;
        while j < out.len()
            invariant
                j <= out@.len(),
                kept == candidate_models(out@),
                repeated ==> repeats(kept, fact@),
                !repeated ==> forall|q: int|
                    0 <= q < j ==> !((#[trigger] kept[q]).category == fact@.category
                        && kept[q].value == fact@.value),
            decreases out@.len() - j,
        {
            if out[j].category == fact.category && same_text(
                out[j].value.as_str(),
                fact.value.as_str(),
            ) {
                assert(kept[j as int].category == fact@.category);
                repeated = true;
            }
            j = j + 1;
        }
        proof {
            assert(all.take(i + 1).drop_last() =~= all.take(i as int));
            assert(all.take(i + 1).last() == fact@);
        }
        if !repeated {
            let c = FactCandidate {
                category: fact.category,
                value: fact.value.clone(),
                confidence: fact.confidence,
                salience: fact.salience,
            };
            out.push(c);
            assert(candidate_models(out@) =~= kept.push(fact@));
        }
        i = i + 1;
    }
    assert(all.take(n as int) =~= all);
    out
}

/// The candidates for facts that a text gives.
pub fn extract_profile_fact_candidates(content: &str) -> (r: Vec<FactCandidate>)
    ensures
        candidate_models(r@) == candidates_in(content@),
{
    let list = split_profile_clauses(content);
    let ghost all = texts(list@);
    let mut facts: Vec<FactCandidate> = Vec::new();
    assert(candidate_models(facts@) =~= searched_clauses(all.take(0)));
    let mut i: usize = 0;
    while i < list.len()
        invariant
            i <= list@.len(),
            all == texts(list@),
            candidate_models(facts@) == searched_clauses(all.take(i as int)),
        decreases list@.len() - i,
    {
        let clause = list[i].as_str();
        proof {
            assert(all.take(i + 1).drop_last() =~= all.take(i as int));
            assert(all.take(i + 1).last() == clause@);
        }
        admit_marker_candidate(&mut facts, clause, UserProfileFactCategory::Dislike);
        admit_marker_candidate(&mut facts, clause, UserProfileFactCategory::Like);
        admit_marker_candidate(&mut facts, clause, UserProfileFactCategory::Capability);
        admit_marker_candidate(&mut facts, clause, UserProfileFactCategory::DoNotDisturb);
        admit_marker_candidate(&mut facts, clause, UserProfileFactCategory::CommunicationStyle);
        admit_marker_candidate(&mut facts, clause, UserProfileFactCategory::Preference);
        i = i + 1;
    }
    assert(all.take(i as int) =~= all);
    dedupe_candidates(facts)
}


// ---------------------------------------------------------------------------
// Admitting facts to a profile
// ---------------------------------------------------------------------------

/// The SHA-256 digest of a sequence of bytes.
pub uninterp spec fn sha256_digest(bytes: Seq<u8>) -> Seq<u8>;

/// Trusted: `sha2::Sha256::digest`. Its 32 bytes depend on the message alone.
#[verifier::external_body]
fn sha256(bytes: &Vec<u8>) -> (r: Vec<u8>)
    ensures
        r@ == sha256_digest(bytes@),
        r@.len() == 32,
{
    <sha2::Sha256 as sha2::Digest>::digest(bytes).to_vec()
}

/// The `i`-th half byte of a sequence of bytes, the high half first.
pub open spec fn half_byte(bytes: Seq<u8>, i: int) -> int {
    if i % 2 == 0 {
        bytes[i / 2] as int / 16
    } else {
        bytes[i / 2] as int % 16
    }
}

/// The first `len` hexadecimal digits of a sequence of bytes.
pub open spec fn hex_start(bytes: Seq<u8>, len: nat) -> Seq<char> {
    Seq::new(
        if len <= 2 * bytes.len() {
            len
        } else {
            2 * bytes.len()
        },
        |i: int| hex_digit(half_byte(bytes, i)),
    )
}

/// The id of a fact: it depends on whom it is about, its category and its value.
pub open spec fn fact_id(
    user_id: Seq<char>,
    category: UserProfileFactCategory,
    value: Seq<char>,
) -> Seq<char> {
    "profile_fact_"@ + hex_start(
        sha256_digest(
            encode_utf8(user_id) + seq![0u8] + encode_utf8(category.text()) + seq![0u8]
                + encode_utf8(value),
        ),
        12,
    )
}

pub fn hex_prefix(bytes: &Vec<u8>, len: usize) -> (r: String)
    ensures
        r@ == hex_start(bytes@, len as nat),
{
    let mut out = String::new();
    let n: usize = bytes.len();
    let mut i: usize = 0;
    while i < len && i / 2 < n
        invariant
            n == bytes@.len(),
            i <= len,
            i <= 2 * n,
            out@ == hex_start(bytes@, i as nat),
        decreases len - i,
    {
        let byte: u8 = bytes[i / 2];
        let half: u8 = if i % 2 == 0 {
            byte / 16
        } else {
            byte % 16
        };
        let c: char = if half < 10 {
            (48u8 + half) as char
        } else {
            (87u8 + half) as char
        };
        out.push(c);
        i = i + 1;
        assert(out@ =~= hex_start(bytes@, i as nat));
    }
    assert(out@ =~= hex_start(bytes@, len as nat));
    out
}

fn push_bytes(out: &mut Vec<u8>, s: &str)
    ensures
        final(out)@ == old(out)@ + encode_utf8(s@),
{
    let bytes = s.as_bytes();
    let n: usize = bytes.len();
    let ghost before = out@;
    let mut i: usize = 0;
    while i < n
        invariant
            n == bytes@.len(),
            bytes@ == encode_utf8(s@),
            i <= n,
            out@ == before + bytes@.take(i as int),
        decreases n - i,
    {
        out.push(bytes[i]);
        i = i + 1;
        assert(bytes@.take(i as int) =~= bytes@.take(i - 1).push(bytes@[i - 1]));
        assert(out@ =~= before + bytes@.take(i as int));
    }
    assert(bytes@.take(n as int) =~= bytes@);
}

/// The id of a fact.
pub fn profile_fact_id(user_id: &str, category: UserProfileFactCategory, value: &str) -> (r: String)
    ensures
        r@ == fact_id(user_id@, category, value@),
{
    let mut message: Vec<u8> = Vec::new();
    push_bytes(&mut message, user_id);
    message.push(0u8);
    push_bytes(&mut message, category.as_str());
    message.push(0u8);
    push_bytes(&mut message, value);
    assert(message@ =~= encode_utf8(user_id@) + seq![0u8] + encode_utf8(category.text()) + seq![0u8]
        + encode_utf8(value@));
    let digest = sha256(&message);
    let mut out = "profile_fact_".to_string();
    out.append(hex_prefix(&digest, 12).as_str());
    out
}

/// The category whose facts a fact of this category contradicts.
pub open spec fn opposite(category: UserProfileFactCategory) -> Option<UserProfileFactCategory> {
    match category {
        UserProfileFactCategory::Like => Some(UserProfileFactCategory::Dislike),
        UserProfileFactCategory::Dislike => Some(UserProfileFactCategory::Like),
        _ => None,
    }
}

pub open spec fn is_active(
    f: FactModel,
    category: UserProfileFactCategory,
    value: Seq<char>,
) -> bool {
    f.category == category && f.value == value && f.status == UserProfileFactStatus::Active
}

/// A fact after one that contradicts it was admitted.
pub open spec fn overruled(
    f: FactModel,
    category: UserProfileFactCategory,
    value: Seq<char>,
    at: Timestamp,
) -> FactModel {
    if opposite(category) matches Some(o) && is_active(f, o, value) {
        FactModel { status: UserProfileFactStatus::Superseded, updated_at: at, ..f }
    } else {
        f
    }
}

/// The facts after one that contradicts some of them was admitted.
pub open spec fn superseded(
    facts: Seq<FactModel>,
    category: UserProfileFactCategory,
    value: Seq<char>,
    at: Timestamp,
) -> Seq<FactModel> {
    facts.map_values(|f: FactModel| overruled(f, category, value, at))
}

/// The place of the first active fact with this category and value, or the
/// number of facts.
pub open spec fn active_place(
    facts: Seq<FactModel>,
    category: UserProfileFactCategory,
    value: Seq<char>,
) -> int
    decreases facts.len(),
{
    if facts.len() == 0 || is_active(facts[0], category, value) {
        0
    } else {
        1 + active_place(facts.skip(1), category, value)
    }
}

/// `n` raised by `by`, at least `floor` and at most a hundred.
pub open spec fn raised(n: u8, by: u8, floor: u8) -> u8 {
    let sum = if n + by > 255 {
        255
    } else {
        n + by
    };
    let up = if sum < floor {
        floor as int
    } else {
        sum
    };
    if up > 100 {
        100
    } else {
        up as u8
    }
}

/// A fact that was seen again.
pub open spec fn strengthened(
    f: FactModel,
    evidence: Option<Seq<char>>,
    at: Timestamp,
    confidence: u8,
    salience: u8,
) -> FactModel {
    FactModel {
        confidence: raised(f.confidence, 6, confidence),
        salience: raised(f.salience, 4, salience),
        updated_at: at,
        last_seen_at: at,
        evidence: match evidence {
            Some(id) => if f.evidence.contains(id) {
                f.evidence
            } else {
                f.evidence.push(id)
            },
            None => f.evidence,
        },
        ..f
    }
}

pub open spec fn with_value(values: Seq<Seq<char>>, value: Seq<char>) -> Seq<Seq<char>> {
    if value.len() == 0 || values.contains(value) {
        values
    } else {
        values.push(value)
    }
}

/// Whether a wish about communication is about how to report.
pub open spec fn about_reporting(value: Seq<char>) -> bool {
    has_text(value, "结论"@) || has_text(value, "风险"@) || has_text(value, "细节"@)
}

/// A profile whose lists show a fact.
pub open spec fn materialized(
    p: ProfileModel,
    category: UserProfileFactCategory,
    value: Seq<char>,
) -> ProfileModel {
    match category {
        UserProfileFactCategory::Like => ProfileModel { likes: with_value(p.likes, value), ..p },
        UserProfileFactCategory::Dislike => ProfileModel {
            dislikes: with_value(p.dislikes, value),
            ..p
        },
        UserProfileFactCategory::Capability => ProfileModel {
            capability_labels: with_value(p.capability_labels, value),
            ..p
        },
        UserProfileFactCategory::Preference => ProfileModel {
            preferences: with_value(p.preferences, value),
            ..p
        },
        UserProfileFactCategory::DoNotDisturb => ProfileModel {
            do_not_disturb: with_value(p.do_not_disturb, value),
            ..p
        },
        UserProfileFactCategory::CommunicationStyle => ProfileModel {
            preferences: with_value(p.preferences, value),
            report_preference: if about_reporting(value) {
                value
            } else {
                p.report_preference
            },
            ..p
        },
    }
}

/// A fact that is seen for the first time.
pub open spec fn first_seen(
    user_id: Seq<char>,
    category: UserProfileFactCategory,
    value: Seq<char>,
    evidence: Option<Seq<char>>,
    at: Timestamp,
    confidence: u8,
    salience: u8,
) -> FactModel {
    FactModel {
        fact_id: fact_id(user_id, category, value),
        user_id,
        category,
        value,
        confidence,
        salience,
        status: UserProfileFactStatus::Active,
        evidence: match evidence {
            Some(id) => seq![id],
            None => Seq::empty(),
        },
        created_at: at,
        updated_at: at,
        last_seen_at: at,
    }
}

/// A profile after a fact was admitted, and that fact. What contradicts it is
/// superseded; where it was known, it is strengthened.
pub open spec fn admitted(
    p: ProfileModel,
    category: UserProfileFactCategory,
    value: Seq<char>,
    evidence: Option<Seq<char>>,
    at: Timestamp,
    confidence: u8,
    salience: u8,
) -> (ProfileModel, FactModel) {
    let v = cleaned(value);
    let facts = superseded(p.facts, category, v, at);
    let i = active_place(facts, category, v);
    if i < facts.len() {
        let f = strengthened(facts[i], evidence, at, confidence, salience);
        (materialized(ProfileModel { facts: facts.update(i, f), ..p }, category, v), f)
    } else {
        let f = first_seen(p.user_id, category, v, evidence, at, confidence, salience);
        (materialized(ProfileModel { facts: facts.push(f), ..p }, category, v), f)
    }
}

impl UserProfileFact {
    pub fn copy(&self) -> (r: UserProfileFact)
        ensures
            r@ == self@,
    {
        UserProfileFact {
            fact_id: self.fact_id.clone(),
            user_id: self.user_id.clone(),
            category: self.category,
            value: self.value.clone(),
            confidence: self.confidence,
            salience: self.salience,
            status: self.status,
            evidence_message_ids: clone_texts(&self.evidence_message_ids),
            created_at: self.created_at,
            updated_at: self.updated_at,
            last_seen_at: self.last_seen_at,
        }
    }
}

/// Whether a text is in a list.
pub fn holds_text(values: &Vec<String>, value: &str) -> (r: bool)
    ensures
        r == texts(values@).contains(value@),
{
    let mut i: usize = 0;
    while i < values.len()
        invariant
            i <= values@.len(),
            forall|j: int| 0 <= j < i ==> texts(values@)[j] != value@,
        decreases values@.len() - i,
    {
        if same_text(values[i].as_str(), value) {
            assert(texts(values@)[i as int] == value@);
            return true;
        }
        i = i + 1;
    }
    false
}

/// Adds a text to a list that does not hold it.
pub fn push_unique(values: &mut Vec<String>, value: String)
    ensures
        texts(final(values)@) == with_value(texts(old(values)@), value@),
{
    let ghost before = texts(values@);
    if !value.as_str().is_empty() && !holds_text(values, value.as_str()) {
        values.push(value);
        assert(texts(values@) =~= before.push(value@));
    }
}

fn raise(n: u8, by: u8, floor: u8) -> (r: u8)
    ensures
        r == raised(n, by, floor),
{
    let sum: u8 = n.saturating_add(by);
    let up: u8 = if sum < floor {
        floor
    } else {
        sum
    };
    if up > 100 {
        100
    } else {
        up
    }
}

/// Supersedes the facts that a new one contradicts.
pub fn supersede_opposite_preference(
    profile: &mut HumanProfile,
    category: UserProfileFactCategory,
    value: &str,
    observed_at: Timestamp,
)
    ensures
        final(profile)@ == (ProfileModel {
            facts: superseded(old(profile)@.facts, category, value@, observed_at),
            ..old(profile)@
        }),
{
    let ghost before = profile@;
    let ghost done = superseded(before.facts, category, value@, observed_at);
    let contrary = match category {
        UserProfileFactCategory::Like => UserProfileFactCategory::Dislike,
        UserProfileFactCategory::Dislike => UserProfileFactCategory::Like,
        _ => {
            assert(done =~= before.facts);
            return;
        },
    };
    let n: usize = profile.profile_facts.len();
    let mut i: usize = 0;
    while i < n
        invariant
            n == profile.profile_facts@.len(),
            n == before.facts.len(),
            i <= n,
            opposite(category) == Some(contrary),
            done == superseded(before.facts, category, value@, observed_at),
            profile@ == (ProfileModel { facts: profile@.facts, ..before }),
            forall|j: int| 0 <= j < i ==> #[trigger] profile@.facts[j] == done[j],
            forall|j: int| i <= j < n ==> #[trigger] profile@.facts[j] == before.facts[j],
        decreases n - i,
    {
        let hit = profile.profile_facts[i].category == contrary && same_text(
            profile.profile_facts[i].value.as_str(),
            value,
        ) && profile.profile_facts[i].status == UserProfileFactStatus::Active;
        assert(profile@.facts[i as int] == before.facts[i as int]);
        if hit {
            let ghost mid = profile.profile_facts@;
            let mut fact = profile.profile_facts[i].copy();
            fact.status = UserProfileFactStatus::Superseded;
            fact.updated_at = observed_at;
            profile.profile_facts.set(i, fact);
            assert(profile@.facts =~= fact_models(mid).update(i as int, fact@));
            assert(fact@ =~= done[i as int]);
        }
        i = i + 1;
    }
    assert(profile@.facts =~= done);
}

/// Shows a fact in the lists of a profile.
pub fn materialize_profile_fact(
    profile: &mut HumanProfile,
    category: UserProfileFactCategory,
    value: &str,
)
    ensures
        final(profile)@ == materialized(old(profile)@, category, value@),
{
    match category {
        UserProfileFactCategory::Like => push_unique(&mut profile.likes, value.to_string()),
        UserProfileFactCategory::Dislike => push_unique(&mut profile.dislikes, value.to_string()),
        UserProfileFactCategory::Capability => push_unique(
            &mut profile.capability_labels,
            value.to_string(),
        ),
        UserProfileFactCategory::Preference => push_unique(
            &mut profile.preferences,
            value.to_string(),
        ),
        UserProfileFactCategory::DoNotDisturb => push_unique(
            &mut profile.do_not_disturb,
            value.to_string(),
        ),
        UserProfileFactCategory::CommunicationStyle => {
            push_unique(&mut profile.preferences, value.to_string());
            if contains_text(value, "结论") || contains_text(value, "风险") || contains_text(
                value,
                "细节",
            ) {
                profile.report_preference = value.to_string();
            }
        },
    }
}

proof fn lemma_active_place(
    facts: Seq<FactModel>,
    category: UserProfileFactCategory,
    value: Seq<char>,
    k: int,
)
    requires
        0 <= k <= facts.len(),
        k < facts.len() ==> is_active(facts[k], category, value),
        forall|j: int| 0 <= j < k ==> !is_active(#[trigger] facts[j], category, value),
    ensures
        active_place(facts, category, value) == k,
    decreases k,
{
    if k > 0 {
        assert(!is_active(facts[0], category, value));
        let t = facts.skip(1);
        assert forall|j: int| 0 <= j < k - 1 implies !is_active(#[trigger] t[j], category, value) by {
            assert(t[j] == facts[j + 1]);
        }
        if k < facts.len() {
            assert(t[k - 1] == facts[k]);
        }
        lemma_active_place(t, category, value, k - 1);
    }
}

/// Admits a fact to a profile.
pub fn admit_profile_fact(
    profile: &mut HumanProfile,
    category: UserProfileFactCategory,
    value: &str,
    evidence_message_id: Option<String>,
    observed_at: Timestamp,
    confidence: u8,
    salience: u8,
) -> (r: UserProfileFact)
    ensures
        (final(profile)@, r@) == admitted(
            old(profile)@,
            category,
            value@,
            opt_text(evidence_message_id),
            observed_at,
            confidence,
            salience,
        ),
{
    let ghost before = profile@;
    let value = clean_profile_value(value);
    supersede_opposite_preference(profile, category, value.as_str(), observed_at);
    let ghost facts = superseded(before.facts, category, value@, observed_at);
    let n: usize = profile.profile_facts.len();
    let mut i: usize = 0;
    while i < n && !(profile.profile_facts[i].category == category && same_text(
        profile.profile_facts[i].value.as_str(),
        value.as_str(),
    ) && profile.profile_facts[i].status == UserProfileFactStatus::Active)
        invariant
            n == profile.profile_facts@.len(),
            n == facts.len(),
            i <= n,
            fact_models(profile.profile_facts@) == facts,
            profile@ == (ProfileModel { facts, ..before }),
            forall|j: int| 0 <= j < i ==> !is_active(#[trigger] facts[j], category, value@),
        decreases n - i,
    {
        assert(facts[i as int] == profile.profile_facts@[i as int]@);
        i = i + 1;
    }
    proof {
        if i < n {
            assert(facts[i as int] == profile.profile_facts@[i as int]@);
        }
        lemma_active_place(facts, category, value@, i as int);
    }
    if i < n {
        let ghost was = facts[i as int];
        let ghost mid = profile.profile_facts@;
        let mut fact = profile.profile_facts[i].copy();
        fact.confidence = raise(fact.confidence, 6, confidence);
        fact.salience = raise(fact.salience, 4, salience);
        fact.updated_at = observed_at;
        fact.last_seen_at = observed_at;
        if let Some(id) = evidence_message_id {
            if !holds_text(&fact.evidence_message_ids, id.as_str()) {
                let ghost held = texts(fact.evidence_message_ids@);
                fact.evidence_message_ids.push(id);
                assert(texts(fact.evidence_message_ids@) =~= held.push(id@));
            }
        }
        assert(fact@ =~= strengthened(
            was,
            opt_text(evidence_message_id),
            observed_at,
            confidence,
            salience,
        ));
        let updated = fact.copy();
        profile.profile_facts.set(i, fact);
        assert(profile@.facts =~= facts.update(i as int, fact@));
        materialize_profile_fact(profile, category, value.as_str());
        return updated;
    }
    let mut evidence_message_ids: Vec<String> = Vec::new();
    if let Some(id) = evidence_message_id {
        evidence_message_ids.push(id);
        assert(texts(evidence_message_ids@) =~= seq![id@]);
    } else {
        assert(texts(evidence_message_ids@) =~= Seq::<Seq<char>>::empty());
    }
    let fact = UserProfileFact {
        fact_id: profile_fact_id(profile.user_id.as_str(), category, value.as_str()),
        user_id: profile.user_id.clone(),
        category,
        value: value.clone(),
        confidence,
        salience,
        status: UserProfileFactStatus::Active,
        evidence_message_ids,
        created_at: observed_at,
        updated_at: observed_at,
        last_seen_at: observed_at,
    };
    let copied = fact.copy();
    let ghost mid = profile.profile_facts@;
    profile.profile_facts.push(fact);
    assert(profile@.facts =~= facts.push(fact@));
    assert(fact@ =~= first_seen(
        before.user_id,
        category,
        value@,
        opt_text(evidence_message_id),
        observed_at,
        confidence,
        salience,
    ));
    materialize_profile_fact(profile, category, value.as_str());
    copied
}

// ---------------------------------------------------------------------------
// Laws of facts
// ---------------------------------------------------------------------------

/// Confidence and salience of a fact that is seen again stay within a hundred
/// and never fall, as long as they were within it.
pub proof fn law_scores_stay_within_bounds(n: u8, by: u8, floor: u8)
    requires
        n <= 100,
        floor <= 100,
    ensures
        raised(n, by, floor) <= 100,
        raised(n, by, floor) >= n,
        raised(n, by, floor) >= floor,
{
}

/// Somebody does not like and dislike one thing at a time: after a like was
/// admitted, no dislike with its value is active, and the other way round.
pub proof fn law_likes_and_dislikes_exclude_each_other(
    p: ProfileModel,
    category: UserProfileFactCategory,
    value: Seq<char>,
    evidence: Option<Seq<char>>,
    at: Timestamp,
    confidence: u8,
    salience: u8,
    i: int,
)
    requires
        opposite(category) is Some,
        0 <= i < admitted(p, category, value, evidence, at, confidence, salience).0.facts.len(),
    ensures
        !is_active(
            admitted(p, category, value, evidence, at, confidence, salience).0.facts[i],
            opposite(category)->0,
            cleaned(value),
        ),
{
    let v = cleaned(value);
    let facts = superseded(p.facts, category, v, at);
    let k = active_place(facts, category, v);
    lemma_active_place_is_active(facts, category, v);
    if k < facts.len() {
        assert(is_active(facts[k], category, v));
        if i != k {
            assert(facts[i] == overruled(p.facts[i], category, v, at));
        }
    } else {
        if i < facts.len() {
            assert(facts[i] == overruled(p.facts[i], category, v, at));
        }
    }
}

proof fn lemma_active_place_is_active(
    facts: Seq<FactModel>,
    category: UserProfileFactCategory,
    value: Seq<char>,
)
    ensures
        0 <= active_place(facts, category, value) <= facts.len(),
        active_place(facts, category, value) < facts.len() ==> is_active(
            facts[active_place(facts, category, value)],
            category,
            value,
        ),
    decreases facts.len(),
{
    if facts.len() > 0 && !is_active(facts[0], category, value) {
        lemma_active_place_is_active(facts.skip(1), category, value);
        let k = active_place(facts.skip(1), category, value);
        if k < facts.skip(1).len() {
            assert(facts.skip(1)[k] == facts[k + 1]);
        }
    }
}

/// A text gives at most one fact of a category.
pub proof fn law_one_candidate_per_category(content: Seq<char>, i: int, j: int)
    requires
        0 <= i < j < candidates_in(content).len(),
    ensures
        candidates_in(content)[i].category != candidates_in(content)[j].category,
{
    let list = searched_clauses(clauses(content));
    lemma_searched_clauses_distinct(clauses(content));
    lemma_without_repeats_same(list);
}

spec fn distinct_categories(facts: Seq<CandidateModel>) -> bool {
    forall|i: int, j: int|
        0 <= i < j < facts.len() ==> (#[trigger] facts[i]).category != (#[trigger] facts[j]).category
}

proof fn lemma_searched_distinct(
    facts: Seq<CandidateModel>,
    clause: Seq<char>,
    category: UserProfileFactCategory,
)
    requires
        distinct_categories(facts),
    ensures
        distinct_categories(searched(facts, clause, category)),
{
}

proof fn lemma_searched_clauses_distinct(list: Seq<Seq<char>>)
    ensures
        distinct_categories(searched_clauses(list)),
    decreases list.len(),
{
    if list.len() > 0 {
        let clause = list.last();
        let facts = searched_clauses(list.drop_last());
        lemma_searched_clauses_distinct(list.drop_last());
        let a = searched(facts, clause, UserProfileFactCategory::Dislike);
        lemma_searched_distinct(facts, clause, UserProfileFactCategory::Dislike);
        let b = searched(a, clause, UserProfileFactCategory::Like);
        lemma_searched_distinct(a, clause, UserProfileFactCategory::Like);
        let c = searched(b, clause, UserProfileFactCategory::Capability);
        lemma_searched_distinct(b, clause, UserProfileFactCategory::Capability);
        let d = searched(c, clause, UserProfileFactCategory::DoNotDisturb);
        lemma_searched_distinct(c, clause, UserProfileFactCategory::DoNotDisturb);
        let e = searched(d, clause, UserProfileFactCategory::CommunicationStyle);
        lemma_searched_distinct(d, clause, UserProfileFactCategory::CommunicationStyle);
        lemma_searched_distinct(e, clause, UserProfileFactCategory::Preference);
    }
}

proof fn lemma_without_repeats_same(facts: Seq<CandidateModel>)
    requires
        distinct_categories(facts),
    ensures
        without_repeats(facts) == facts,
    decreases facts.len(),
{
    if facts.len() > 0 {
        let rest = facts.drop_last();
        assert forall|i: int, j: int| 0 <= i < j < rest.len() implies (#[trigger] rest[i]).category
            != (#[trigger] rest[j]).category by {
            assert(facts[i].category != facts[j].category);
        }
        lemma_without_repeats_same(rest);
        if repeats(rest, facts.last()) {
            let i = choose|i: int|
                0 <= i < rest.len() && (#[trigger] rest[i]).category == facts.last().category
                    && rest[i].value == facts.last().value;
            assert(facts[i].category != facts[facts.len() - 1].category);
        }
        assert(rest.push(facts.last()) =~= facts);
    } else {
        assert(facts =~= Seq::<CandidateModel>::empty());
    }
}


// ---------------------------------------------------------------------------
// Learning from reflections and messages
// ---------------------------------------------------------------------------

pub open spec fn reflection_id(at: Timestamp) -> Seq<char> {
    "daily-reflection-"@ + stamp_text(at)
}

/// What an update of a reflection is about.
pub open spec fn reflected_category(p: ProfileModel, update: Seq<char>) -> UserProfileFactCategory {
    if p.do_not_disturb.contains(update) {
        UserProfileFactCategory::DoNotDisturb
    } else {
        UserProfileFactCategory::Capability
    }
}

/// A profile after the updates of a reflection were admitted one after the
/// other, and the facts that were admitted.
pub open spec fn reflected(p: ProfileModel, updates: Seq<Seq<char>>, at: Timestamp) -> (
    ProfileModel,
    Seq<FactModel>,
)
    decreases updates.len(),
{
    if updates.len() == 0 {
        (p, Seq::empty())
    } else {
        let (q, facts) = reflected(p, updates.drop_last(), at);
        let update = trim(updates.last());
        if update.len() == 0 {
            (q, facts)
        } else {
            let (r, f) = admitted(
                q,
                reflected_category(q, update),
                update,
                Some(reflection_id(at)),
                at,
                78,
                72,
            );
            (r, facts.push(f))
        }
    }
}

/// A profile after candidates were admitted one after the other, and the facts
/// that were admitted.
pub open spec fn learned(
    p: ProfileModel,
    candidates: Seq<CandidateModel>,
    message_id: Seq<char>,
    at: Timestamp,
) -> (ProfileModel, Seq<FactModel>)
    decreases candidates.len(),
{
    if candidates.len() == 0 {
        (p, Seq::empty())
    } else {
        let (q, facts) = learned(p, candidates.drop_last(), message_id, at);
        let c = candidates.last();
        let (r, f) = admitted(
            q,
            c.category,
            c.value,
            Some(message_id),
            at,
            c.confidence,
            c.salience,
        );
        (r, facts.push(f))
    }
}

pub open spec fn knows_message(p: ProfileModel, message_id: Seq<char>) -> bool {
    exists|i: int| 0 <= i < p.evidence.len() && (#[trigger] p.evidence[i]).message_id == message_id
}

/// A profile that keeps a message as evidence.
pub open spec fn with_evidence(
    p: ProfileModel,
    agent_id: Seq<char>,
    message_id: Seq<char>,
    content: Seq<char>,
    at: Timestamp,
) -> ProfileModel {
    if knows_message(p, message_id) {
        p
    } else {
        ProfileModel {
            evidence: p.evidence.push(
                EvidenceModel {
                    event_id: "profile-event-"@ + message_id,
                    message_id,
                    agent_id,
                    content,
                    observed_at: at,
                },
            ),
            ..p
        }
    }
}

impl HumanProfile {
    /// Admits the updates of a reflection.
    fn reflect(&mut self, updates: &Vec<String>, reflected_at: Timestamp) -> (r: Vec<
        UserProfileFact,
    >)
        ensures
            (final(self)@, fact_models(r@)) == reflected(
                old(self)@,
                texts(updates@),
                reflected_at,
            ),
    {
        let ghost before = self@;
        let ghost all = texts(updates@);
        let mut facts: Vec<UserProfileFact> = Vec::new();
        assert(fact_models(facts@) =~= Seq::<FactModel>::empty());
        let mut i: usize = 0;
        while i < updates.len()
            invariant
                i <= updates@.len(),
                all == texts(updates@),
                (self@, fact_models(facts@)) == reflected(before, all.take(i as int), reflected_at),
            decreases updates@.len() - i,
        {
            let update = trimmed(updates[i].as_str());
            proof {
                assert(all.take(i + 1).drop_last() =~= all.take(i as int));
                assert(all.take(i + 1).last() == updates@[i as int]@);
            }
            if !update.is_empty() {
                let category = if holds_text(&self.do_not_disturb, update) {
                    UserProfileFactCategory::DoNotDisturb
                } else {
                    UserProfileFactCategory::Capability
                };
                let mut id = "daily-reflection-".to_string();
                id.append(reflected_at.to_rfc3339().as_str());
                let ghost held = fact_models(facts@);
                let fact = admit_profile_fact(
                    self,
                    category,
                    update,
                    Some(id),
                    reflected_at,
                    78,
                    72,
                );
                facts.push(fact);
                assert(fact_models(facts@) =~= held.push(fact@));
            }
            i = i + 1;
        }
        assert(all.take(i as int) =~= all);
        facts
    }

    /// Admits candidates that a message gave.
    fn learn(&mut self, candidates: &Vec<FactCandidate>, message_id: &str, at: Timestamp) -> (r: Vec<
        UserProfileFact,
    >)
        ensures
            (final(self)@, fact_models(r@)) == learned(
                old(self)@,
                candidate_models(candidates@),
                message_id@,
                at,
            ),
    {
        let ghost before = self@;
        let ghost all = candidate_models(candidates@);
        let mut facts: Vec<UserProfileFact> = Vec::new();
        assert(fact_models(facts@) =~= Seq::<FactModel>::empty());
        let mut i: usize = 0;
        while i < candidates.len()
            invariant
                i <= candidates@.len(),
                all == candidate_models(candidates@),
                (self@, fact_models(facts@)) == learned(before, all.take(i as int), message_id@, at),
            decreases candidates@.len() - i,
        {
            let c = &candidates[i];
            proof {
                assert(all.take(i + 1).drop_last() =~= all.take(i as int));
                assert(all.take(i + 1).last() == c@);
            }
            let ghost held = fact_models(facts@);
            let fact = admit_profile_fact(
                self,
                c.category,
                c.value.as_str(),
                Some(message_id.to_string()),
                at,
                c.confidence,
                c.salience,
            );
            facts.push(fact);
            assert(fact_models(facts@) =~= held.push(fact@));
            i = i + 1;
        }
        assert(all.take(i as int) =~= all);
        facts
    }

    /// Keeps a message as evidence.
    fn keep_evidence(&mut self, agent_id: &str, message_id: &str, content: &str, at: Timestamp)
        ensures
            final(self)@ == with_evidence(
                old(self)@,
                agent_id@,
                message_id@,
                content@,
                at,
            ),
    {
        let ghost before = self@;
        let n: usize = self.conversation_evidence.len();
        let mut i: usize = 0;
        while i < n
            invariant
                n == self.conversation_evidence@.len(),
                i <= n,
                self@ == before,
                before == old(self)@,
                forall|j: int| 0 <= j < i ==> (#[trigger] before.evidence[j]).message_id != message_id@,
            decreases n - i,
        {
            assert(before.evidence[i as int] == self.conversation_evidence@[i as int]@);
            if same_text(self.conversation_evidence[i].message_id.as_str(), message_id) {
                return;
            }
            i = i + 1;
        }
        let mut event_id = "profile-event-".to_string();
        event_id.append(message_id);
        let evidence = UserProfileEvidence {
            event_id,
            message_id: message_id.to_string(),
            agent_id: agent_id.to_string(),
            content: content.to_string(),
            observed_at: at,
        };
        self.conversation_evidence.push(evidence);
        assert(self@.evidence =~= before.evidence.push(evidence@));
        assert(self@ =~= with_evidence(before, agent_id@, message_id@, content@, at));
    }
}

fn copy_facts(facts: &Vec<UserProfileFact>) -> (r: Vec<UserProfileFact>)
    ensures
        fact_models(r@) == fact_models(facts@),
{
    let ghost all = fact_models(facts@);
    let mut out: Vec<UserProfileFact> = Vec::new();
    let mut i: usize = 0;
    while i < facts.len()
        invariant
            i <= facts@.len(),
            all == fact_models(facts@),
            fact_models(out@) == all.take(i as int),
        decreases facts@.len() - i,
    {
        let ghost held = fact_models(out@);
        let fact = facts[i].copy();
        out.push(fact);
        i = i + 1;
        assert(fact_models(out@) =~= held.push(fact@));
        assert(all.take(i as int) =~= all.take(i - 1).push(all[i - 1]));
    }
    assert(all.take(i as int) =~= all);
    out
}

impl UserProfileEvidence {
    pub fn copy(&self) -> (r: UserProfileEvidence)
        ensures
            r == *self,
    {
        UserProfileEvidence {
            event_id: self.event_id.clone(),
            message_id: self.message_id.clone(),
            agent_id: self.agent_id.clone(),
            content: self.content.clone(),
            observed_at: self.observed_at,
        }
    }
}

impl HumanProfile {
    pub fn copy(&self) -> (r: HumanProfile)
        ensures
            r@ == self@,
    {
        let mut conversation_evidence: Vec<UserProfileEvidence> = Vec::new();
        let mut i: usize = 0;
        while i < self.conversation_evidence.len()
            invariant
                i <= self.conversation_evidence@.len(),
                conversation_evidence@ == self.conversation_evidence@.take(i as int),
            decreases self.conversation_evidence@.len() - i,
        {
            conversation_evidence.push(self.conversation_evidence[i].copy());
            i = i + 1;
            assert(self.conversation_evidence@.take(i as int) =~= self.conversation_evidence@.take(
                i - 1,
            ).push(self.conversation_evidence@[i - 1]));
        }
        assert(self.conversation_evidence@.take(i as int) =~= self.conversation_evidence@);
        HumanProfile {
            user_id: self.user_id.clone(),
            role: self.role.clone(),
            capability_labels: clone_texts(&self.capability_labels),
            do_not_disturb: clone_texts(&self.do_not_disturb),
            report_preference: self.report_preference.clone(),
            last_reflection_at: self.last_reflection_at,
            likes: clone_texts(&self.likes),
            dislikes: clone_texts(&self.dislikes),
            preferences: clone_texts(&self.preferences),
            profile_facts: copy_facts(&self.profile_facts),
            conversation_evidence,
        }
    }
}

// ---------------------------------------------------------------------------
// The directory
// ---------------------------------------------------------------------------

/// Who is in the office: accounts by user name, people by user id, agents and
/// the owners bound to them by agent id.
#[derive(Clone, Debug)]
pub struct PilotDirectory {
    accounts: Table<PilotAccount>,
    human_profiles: Table<HumanProfile>,
    agent_profiles: Table<AgentProfile>,
    agent_owner_bindings: Table<AgentOwnerBinding>,
}

/// The content of a directory.
#[verifier::ext_equal]
pub struct DirectoryModel {
    pub accounts: Map<Seq<char>, PilotAccount>,
    pub people: Map<Seq<char>, ProfileModel>,
    pub agents: Map<Seq<char>, AgentProfile>,
    pub bindings: Map<Seq<char>, AgentOwnerBinding>,
}

impl View for PilotDirectory {
    type V = DirectoryModel;

    closed spec fn view(&self) -> DirectoryModel {
        DirectoryModel {
            accounts: self.accounts@,
            people: profile_models(self.human_profiles),
            agents: self.agent_profiles@,
            bindings: self.agent_owner_bindings@,
        }
    }
}

pub open spec fn profile_models(t: Table<HumanProfile>) -> Map<Seq<char>, ProfileModel> {
    t@.map_values(|p: HumanProfile| p@)
}

/// The binding of an agent to the owner that its profile names.
pub open spec fn binding_of(b: AgentOwnerBinding, profile: AgentProfile) -> bool {
    &&& b.agent_id == profile.agent_id
    &&& b.owner_user_id == profile.owner_user_id
    &&& b.binding_type == AgentOwnerBindingType::PrimaryOwner
    &&& b.status == AgentOwnerBindingStatus::Active
    &&& b.version == 1
}

/// Every agent is bound to the owner that its profile names, and to no other.
pub open spec fn bindings_follow_profiles(
    bindings: Map<Seq<char>, AgentOwnerBinding>,
    agents: Map<Seq<char>, AgentProfile>,
) -> bool {
    &&& bindings.dom() == agents.dom()
    &&& forall|id: Seq<char>| #[trigger]
        agents.contains_key(id) ==> binding_of(bindings[id], agents[id])
}

/// The bindings that agent profiles imply.
pub fn derive_owner_bindings_from_profiles(agent_profiles: &Table<AgentProfile>) -> (r: Table<
    AgentOwnerBinding,
>)
    ensures
        bindings_follow_profiles(r@, agent_profiles@),
{
    let mut out: Table<AgentOwnerBinding> = Table::new();
    let n: usize = agent_profiles.len();
    let ghost ids = agent_profiles.keys();
    let mut i: usize = 0;
    while i < n
        invariant
            ids == agent_profiles.keys(),
            n == ids.len(),
            i <= n,
            forall|k: Seq<char>| agent_profiles@.contains_key(k) <==> #[trigger] ids.contains(k),
            forall|k: Seq<char>| #[trigger]
                out@.contains_key(k) <==> ids.take(i as int).contains(k),
            forall|k: Seq<char>| #[trigger]
                out@.contains_key(k) ==> binding_of(out@[k], agent_profiles@[k]),
        decreases n - i,
    {
        let ghost done = ids.take(i as int);
        let ghost k0 = ids[i as int];
        proof {
            assert(ids.take(i + 1) =~= done.push(k0));
            lemma_push_contains(done, k0);
        }
        let profile = agent_profiles.value(i);
        let binding = AgentOwnerBinding {
            agent_id: profile.agent_id.clone(),
            owner_user_id: profile.owner_user_id.clone(),
            binding_type: AgentOwnerBindingType::PrimaryOwner,
            status: AgentOwnerBindingStatus::Active,
            version: 1,
        };
        out.insert(agent_profiles.key(i).clone(), binding);
        i = i + 1;
    }
    proof {
        assert(ids.take(n as int) =~= ids);
        assert forall|k: Seq<char>| out@.dom().contains(k) <==> #[trigger]
            agent_profiles@.dom().contains(k) by {
            assert(agent_profiles@.contains_key(k) <==> ids.contains(k));
            assert(out@.contains_key(k) <==> ids.contains(k));
        }
        assert(out@.dom() =~= agent_profiles@.dom());
    }
    out
}

/// Whether this is an account of the user.
pub open spec fn is_account_of(d: DirectoryModel, user: Seq<char>, a: PilotAccount) -> bool {
    a.user_id@ == user && exists|name: Seq<char>| #[trigger]
        d.accounts.contains_key(name) && d.accounts[name] == a
}

/// Whether this is what a user name and a password open.
pub open spec fn is_login(
    r: Option<PilotSession>,
    d: DirectoryModel,
    username: Seq<char>,
    password: Seq<char>,
) -> bool {
    match r {
        Some(s) => d.accounts.contains_key(username) && d.accounts[username].password@ == password
            && s.user_id == d.accounts[username].user_id && s.agent_id
            == d.accounts[username].agent_id,
        None => d.accounts.contains_key(username) ==> d.accounts[username].password@ != password,
    }
}

/// The binding of an agent to its owner, if it is in force.
pub open spec fn active_binding(d: DirectoryModel, agent: Seq<char>) -> Option<AgentOwnerBinding> {
    if d.bindings.contains_key(agent) && d.bindings[agent].binding_type
        == AgentOwnerBindingType::PrimaryOwner && d.bindings[agent].status
        == AgentOwnerBindingStatus::Active {
        Some(d.bindings[agent])
    } else {
        None
    }
}

/// Whether an interview replaced what a person said of themselves.
pub open spec fn interviews(
    r: Option<HumanProfile>,
    was: DirectoryModel,
    d: DirectoryModel,
    user: Seq<char>,
    role: Seq<char>,
    capabilities: Seq<Seq<char>>,
    avoid: Seq<Seq<char>>,
    report_preference: Seq<char>,
) -> bool {
    match r {
        Some(p) => was.people.contains_key(user) && p@ == (ProfileModel {
            role,
            capability_labels: capabilities,
            do_not_disturb: avoid,
            report_preference,
            ..was.people[user]
        }) && d == (DirectoryModel { people: was.people.insert(user, p@), ..was }),
        None => !was.people.contains_key(user) && d == was,
    }
}

/// Whether what a person's day gave was admitted to their profile.
pub open spec fn reflects(
    r: Option<DailyReflection>,
    was: DirectoryModel,
    d: DirectoryModel,
    user: Seq<char>,
    profile_updates: Seq<String>,
    at: Timestamp,
) -> bool {
    match r {
        Some(done) => {
            let (p, facts) = reflected(was.people[user], texts(profile_updates), at);
            &&& was.people.contains_key(user)
            &&& done.user_id@ == user
            &&& done.profile_updates@ == profile_updates
            &&& fact_models(done.admitted_facts@) == facts
            &&& done.reflected_at == at
            &&& d == (DirectoryModel {
                people: was.people.insert(
                    user,
                    ProfileModel { last_reflection_at: Some(at), ..p },
                ),
                ..was
            })
        },
        None => !was.people.contains_key(user) && d == was,
    }
}

/// Whether what a message says of a person was learned.
pub open spec fn learns(
    r: Option<Vec<UserProfileFact>>,
    was: DirectoryModel,
    d: DirectoryModel,
    user: Seq<char>,
    agent: Seq<char>,
    message_id: Seq<char>,
    content: Seq<char>,
    at: Timestamp,
) -> bool {
    match r {
        Some(facts) => {
            let p = with_evidence(was.people[user], agent, message_id, content, at);
            let (q, admitted) = learned(p, candidates_in(content), message_id, at);
            &&& was.people.contains_key(user)
            &&& fact_models(facts@) == admitted
            &&& d == (DirectoryModel { people: was.people.insert(user, q), ..was })
        },
        None => !was.people.contains_key(user) && d == was,
    }
}

impl PilotDirectory {
    /// A directory of what is given. Where no owner is bound to any agent, the
    /// owners that the agents' profiles name are.
    pub fn from_parts(
        accounts: Table<PilotAccount>,
        human_profiles: Table<HumanProfile>,
        agent_profiles: Table<AgentProfile>,
        agent_owner_bindings: Table<AgentOwnerBinding>,
    ) -> (r: PilotDirectory)
        ensures
            r@.accounts == accounts@,
            r@.people == profile_models(human_profiles),
            r@.agents == agent_profiles@,
            if agent_owner_bindings@.dom().len() == 0 {
                bindings_follow_profiles(r@.bindings, agent_profiles@)
            } else {
                r@.bindings == agent_owner_bindings@
            },
    {
        let agent_owner_bindings = if agent_owner_bindings.len() == 0 {
            derive_owner_bindings_from_profiles(&agent_profiles)
        } else {
            agent_owner_bindings
        };
        PilotDirectory { accounts, human_profiles, agent_profiles, agent_owner_bindings }
    }

    pub fn accounts(&self) -> (r: &Table<PilotAccount>)
        ensures
            r@ == self@.accounts,
    {
        &self.accounts
    }

    pub fn human_profiles(&self) -> (r: &Table<HumanProfile>)
        ensures
            profile_models(*r) == self@.people,
    {
        &self.human_profiles
    }

    pub fn agent_profiles(&self) -> (r: &Table<AgentProfile>)
        ensures
            r@ == self@.agents,
    {
        &self.agent_profiles
    }

    pub fn agent_owner_bindings(&self) -> (r: &Table<AgentOwnerBinding>)
        ensures
            r@ == self@.bindings,
    {
        &self.agent_owner_bindings
    }

    /// An account of this user.
    pub fn account_for_user(&self, user_id: &str) -> (r: Option<&PilotAccount>)
        ensures
            match r {
                Some(a) => is_account_of(self@, user_id@, *a),
                None => forall|a: PilotAccount| !is_account_of(self@, user_id@, a),
            },
    {
        let n: usize = self.accounts.len();
        let ghost ids = self.accounts.keys();
        let mut i: usize = 0;
        while i < n
            invariant
                ids == self.accounts.keys(),
                n == ids.len(),
                i <= n,
                forall|k: Seq<char>| self.accounts@.contains_key(k) <==> #[trigger] ids.contains(k),
                forall|j: int|
                    0 <= j < i ==> self.accounts@[#[trigger] ids[j]].user_id@ != user_id@,
            decreases n - i,
        {
            let account = self.accounts.value(i);
            if same_text(account.user_id.as_str(), user_id) {
                assert(self@.accounts.contains_key(ids[i as int]) && self@.accounts[ids[i as int]]
                    == *account);
                return Some(account);
            }
            i = i + 1;
        }
        proof {
            assert forall|name: Seq<char>| #[trigger] self@.accounts.contains_key(name) implies
                self@.accounts[name].user_id@ != user_id@ by {
                assert(ids.contains(name));
                let j = choose|j: int| 0 <= j < ids.len() && ids[j] == name;
                assert(self.accounts@[ids[j]].user_id@ != user_id@);
            }
        }
        None
    }

    pub fn account_count(&self) -> (r: usize)
        ensures
            r == self@.accounts.dom().len(),
    {
        self.accounts.len()
    }

    /// The session of an account, for its user name and password.
    pub fn login(&self, username: &str, password: &str) -> (r: Option<PilotSession>)
        ensures
            is_login(r, self@, username@, password@),
    {
        match self.accounts.get(username) {
            Some(account) => if same_text(account.password.as_str(), password) {
                Some(
                    PilotSession {
                        user_id: account.user_id.clone(),
                        agent_id: account.agent_id.clone(),
                    },
                )
            } else {
                None
            },
            None => None,
        }
    }

    pub fn human_profile(&self, user_id: &str) -> (r: Option<&HumanProfile>)
        ensures
            match r {
                Some(p) => self@.people.contains_key(user_id@) && p@ == self@.people[user_id@],
                None => !self@.people.contains_key(user_id@),
            },
    {
        self.human_profiles.get(user_id)
    }

    pub fn agent_profile(&self, agent_id: &str) -> (r: Option<&AgentProfile>)
        ensures
            match r {
                Some(p) => self@.agents.contains_key(agent_id@) && *p == self@.agents[agent_id@],
                None => !self@.agents.contains_key(agent_id@),
            },
    {
        self.agent_profiles.get(agent_id)
    }

    /// The binding of an agent to its owner, if it is in force.
    pub fn active_owner_binding(&self, agent_id: &str) -> (r: Option<&AgentOwnerBinding>)
        ensures
            match r {
                Some(b) => active_binding(self@, agent_id@) == Some(*b),
                None => active_binding(self@, agent_id@) is None,
            },
    {
        match self.agent_owner_bindings.get(agent_id) {
            Some(binding) => if binding.binding_type == AgentOwnerBindingType::PrimaryOwner
                && binding.status == AgentOwnerBindingStatus::Active {
                Some(binding)
            } else {
                None
            },
            None => None,
        }
    }

    /// Replaces what a person said of themselves in an interview.
    pub fn run_mini_interview(
        &mut self,
        user_id: &str,
        role: String,
        capabilities: Vec<String>,
        avoid: Vec<String>,
        report_preference: String,
    ) -> (r: Option<HumanProfile>)
        ensures
            interviews(
                r,
                old(self)@,
                final(self)@,
                user_id@,
                role@,
                texts(capabilities@),
                texts(avoid@),
                report_preference@,
            ),
    {
        let ghost before = self@;
        match self.human_profiles.remove(user_id) {
            Some(profile) => {
                let mut profile = profile;
                profile.role = role;
                profile.capability_labels = capabilities;
                profile.do_not_disturb = avoid;
                profile.report_preference = report_preference;
                let copied = profile.copy();
                self.human_profiles.insert(user_id.to_string(), profile);
                assert(self@.people =~= before.people.insert(user_id@, profile@));
                Some(copied)
            },
            None => {
                assert(self@.people =~= before.people);
                None
            },
        }
    }

    /// Admits what a person's day gave to their profile.
    pub fn daily_reflection(
        &mut self,
        user_id: &str,
        profile_updates: Vec<String>,
        reflected_at: Timestamp,
    ) -> (r: Option<DailyReflection>)
        ensures
            reflects(r, old(self)@, final(self)@, user_id@, profile_updates@, reflected_at),
    {
        let ghost before = self@;
        match self.human_profiles.remove(user_id) {
            Some(profile) => {
                let mut profile = profile;
                let admitted_facts = profile.reflect(&profile_updates, reflected_at);
                profile.last_reflection_at = Some(reflected_at);
                self.human_profiles.insert(user_id.to_string(), profile);
                assert(self@.people =~= before.people.insert(user_id@, profile@));
                Some(
                    DailyReflection {
                        user_id: user_id.to_string(),
                        profile_updates,
                        admitted_facts,
                        reflected_at,
                    },
                )
            },
            None => {
                assert(self@.people =~= before.people);
                None
            },
        }
    }

    /// Learns of a person from a message they sent to their agent.
    pub fn record_owner_message_profile_evidence(
        &mut self,
        user_id: &str,
        agent_id: &str,
        message_id: &str,
        content: &str,
        observed_at: Timestamp,
    ) -> (r: Option<Vec<UserProfileFact>>)
        ensures
            learns(
                r,
                old(self)@,
                final(self)@,
                user_id@,
                agent_id@,
                message_id@,
                content@,
                observed_at,
            ),
    {
        let ghost before = self@;
        match self.human_profiles.remove(user_id) {
            Some(profile) => {
                let mut profile = profile;
                profile.keep_evidence(agent_id, message_id, content, observed_at);
                let candidates = extract_profile_fact_candidates(content);
                let facts = profile.learn(&candidates, message_id, observed_at);
                self.human_profiles.insert(user_id.to_string(), profile);
                assert(self@.people =~= before.people.insert(user_id@, profile@));
                Some(facts)
            },
            None => {
                assert(self@.people =~= before.people);
                None
            },
        }
    }
}

/// A message is kept as evidence once, however often it is recorded.
pub proof fn law_evidence_is_kept_once(
    p: ProfileModel,
    agent_id: Seq<char>,
    message_id: Seq<char>,
    content: Seq<char>,
    at: Timestamp,
    later: Timestamp,
)
    ensures
        ({
            let q = with_evidence(p, agent_id, message_id, content, at);
            with_evidence(q, agent_id, message_id, content, later) == q
        }),
{
    let q = with_evidence(p, agent_id, message_id, content, at);
    if !knows_message(p, message_id) {
        assert(q.evidence[p.evidence.len() as int].message_id == message_id);
    }
    assert(knows_message(q, message_id));
}


// ---------------------------------------------------------------------------
// The people the pilot starts with
// ---------------------------------------------------------------------------

/// Somebody the pilot starts with.
pub struct SeedPerson {
    pub username: Seq<char>,
    pub user_id: Seq<char>,
    pub agent_id: Seq<char>,
    pub role: Seq<char>,
    pub capabilities: Seq<Seq<char>>,
    pub avoid: Seq<Seq<char>>,
}

/// The people the pilot starts with.
pub open spec fn seed_people() -> Seq<SeedPerson> {
    seq![
        SeedPerson {
            username: "ceo"@,
            user_id: "user_ceo"@,
            agent_id: "agent_ceo"@,
            role: "CEO"@,
            capabilities: seq!["方向判断"@, "资源决策"@, "最终优先级"@],
            avoid: seq!["实现细节频繁打扰"@],
        },
        SeedPerson {
            username: "employee_a"@,
            user_id: "user_a"@,
            agent_id: "agent_a"@,
            role: "算法"@,
            capabilities: seq!["模型方案"@, "实验设计"@],
            avoid: seq!["部署琐事"@],
        },
        SeedPerson {
            username: "employee_b"@,
            user_id: "user_b"@,
            agent_id: "agent_b"@,
            role: "Infra"@,
            capabilities: seq!["部署"@, "算力"@, "成本"@],
            avoid: seq!["审美细节"@],
        },
        SeedPerson {
            username: "employee_c"@,
            user_id: "user_c"@,
            agent_id: "agent_c"@,
            role: "产品"@,
            capabilities: seq!["用户场景"@, "需求优先级"@],
            avoid: seq!["低风险格式调整"@],
        },
        SeedPerson {
            username: "employee_d"@,
            user_id: "user_d"@,
            agent_id: "agent_d"@,
            role: "工程"@,
            capabilities: seq!["代码改动"@, "技术风险"@],
            avoid: seq!["普通资料搜索"@],
        },
        SeedPerson {
            username: "employee_e"@,
            user_id: "user_e"@,
            agent_id: "agent_e"@,
            role: "运营设计"@,
            capabilities: seq!["表达"@, "审美"@, "外部沟通"@],
            avoid: seq!["底层实现细节"@],
        },
    ]
}

pub open spec fn seed_account(a: PilotAccount, p: SeedPerson) -> bool {
    a.user_id@ == p.user_id && a.username@ == p.username && a.password@ == "password"@ && a.agent_id@
        == p.agent_id
}

pub open spec fn seed_profile(p: SeedPerson) -> ProfileModel {
    ProfileModel {
        user_id: p.user_id,
        role: p.role,
        capability_labels: p.capabilities,
        do_not_disturb: p.avoid,
        report_preference: "先结论后细节"@,
        last_reflection_at: None,
        likes: Seq::empty(),
        dislikes: Seq::empty(),
        preferences: Seq::empty(),
        facts: Seq::empty(),
        evidence: Seq::empty(),
    }
}

pub open spec fn seed_agent(a: AgentProfile, p: SeedPerson) -> bool {
    a.agent_id@ == p.agent_id && a.owner_user_id@ == p.user_id && texts(a.allowed_tools@) == seq![
        "call"@,
        "wait"@,
        "read_agent_status"@,
    ]
}

pub open spec fn seed_binding(b: AgentOwnerBinding, p: SeedPerson) -> bool {
    b.agent_id@ == p.agent_id && b.owner_user_id@ == p.user_id && b.binding_type
        == AgentOwnerBindingType::PrimaryOwner && b.status == AgentOwnerBindingStatus::Active
        && b.version == 1
}

/// The directory holds these people, each with an account, a profile and an
/// agent that is theirs, and nobody else.
pub open spec fn seeded_with(d: DirectoryModel, people: Seq<SeedPerson>) -> bool {
    &&& d.accounts.dom() == people.map_values(|p: SeedPerson| p.username).to_set()
    &&& d.people.dom() == people.map_values(|p: SeedPerson| p.user_id).to_set()
    &&& d.agents.dom() == people.map_values(|p: SeedPerson| p.agent_id).to_set()
    &&& d.bindings.dom() == people.map_values(|p: SeedPerson| p.agent_id).to_set()
    &&& forall|i: int|
        0 <= i < people.len() ==> {
            let p = #[trigger] people[i];
            &&& seed_account(d.accounts[p.username], p)
            &&& d.people[p.user_id] == seed_profile(p)
            &&& seed_agent(d.agents[p.agent_id], p)
            &&& seed_binding(d.bindings[p.agent_id], p)
        }
}

/// The last letters of the names tell the people apart.
spec fn seed_letter(i: int) -> char {
    seq!['o', 'a', 'b', 'c', 'd', 'e'][i]
}

proof fn lemma_seed_letters()
    ensures
        seed_people().len() == 6,
        forall|i: int|
            0 <= i < 6 ==> {
                let p = #[trigger] seed_people()[i];
                p.username.len() > 0 && p.username.last() == seed_letter(i) && p.user_id.len() > 0
                    && p.user_id.last() == seed_letter(i) && p.agent_id.len() > 0
                    && p.agent_id.last() == seed_letter(i)
            },
{
    reveal_strlit("ceo");
    reveal_strlit("user_ceo");
    reveal_strlit("agent_ceo");
    reveal_strlit("employee_a");
    reveal_strlit("user_a");
    reveal_strlit("agent_a");
    reveal_strlit("employee_b");
    reveal_strlit("user_b");
    reveal_strlit("agent_b");
    reveal_strlit("employee_c");
    reveal_strlit("user_c");
    reveal_strlit("agent_c");
    reveal_strlit("employee_d");
    reveal_strlit("user_d");
    reveal_strlit("agent_d");
    reveal_strlit("employee_e");
    reveal_strlit("user_e");
    reveal_strlit("agent_e");
}

spec fn person_added(d: DirectoryModel, e: DirectoryModel, p: SeedPerson) -> bool {
    &&& e.accounts == d.accounts.insert(p.username, e.accounts[p.username])
    &&& e.people == d.people.insert(p.user_id, seed_profile(p))
    &&& e.agents == d.agents.insert(p.agent_id, e.agents[p.agent_id])
    &&& e.bindings == d.bindings.insert(p.agent_id, e.bindings[p.agent_id])
    &&& seed_account(e.accounts[p.username], p)
    &&& seed_agent(e.agents[p.agent_id], p)
    &&& seed_binding(e.bindings[p.agent_id], p)
}

proof fn lemma_to_set_push(s: Seq<Seq<char>>, x: Seq<char>)
    ensures
        s.push(x).to_set() == s.to_set().insert(x),
{
    lemma_push_contains(s, x);
    assert(s.push(x).to_set() =~= s.to_set().insert(x));
}

proof fn lemma_seeded_push(d: DirectoryModel, e: DirectoryModel, all: Seq<SeedPerson>, n: int)
    requires
        all == seed_people(),
        0 <= n < 6,
        seeded_with(d, all.take(n)),
        person_added(d, e, all[n]),
    ensures
        seeded_with(e, all.take(n + 1)),
{
    lemma_seed_letters();
    let done = all.take(n);
    let p = all[n];
    assert(all.take(n + 1) =~= done.push(p));
    let f = |p: SeedPerson| p.username;
    let g = |p: SeedPerson| p.user_id;
    let h = |p: SeedPerson| p.agent_id;
    assert(done.push(p).map_values(f) =~= done.map_values(f).push(p.username));
    assert(done.push(p).map_values(g) =~= done.map_values(g).push(p.user_id));
    assert(done.push(p).map_values(h) =~= done.map_values(h).push(p.agent_id));
    lemma_to_set_push(done.map_values(f), p.username);
    lemma_to_set_push(done.map_values(g), p.user_id);
    lemma_to_set_push(done.map_values(h), p.agent_id);
    assert forall|i: int| 0 <= i < done.push(p).len() implies {
        let q = #[trigger] done.push(p)[i];
        &&& seed_account(e.accounts[q.username], q)
        &&& e.people[q.user_id] == seed_profile(q)
        &&& seed_agent(e.agents[q.agent_id], q)
        &&& seed_binding(e.bindings[q.agent_id], q)
    } by {
        if i < n {
            let q = done[i];
            assert(q == seed_people()[i]);
            assert(seed_letter(i) != seed_letter(n));
            assert(q.username != p.username);
            assert(q.user_id != p.user_id);
            assert(q.agent_id != p.agent_id);
        }
    }
}

impl PilotDirectory {
    fn add_person(
        &mut self,
        username: &str,
        user_id: &str,
        agent_id: &str,
        role: &str,
        capabilities: Vec<String>,
        avoid: Vec<String>,
    )
        ensures
            person_added(
                old(self)@,
                final(self)@,
                (SeedPerson {
                    username: username@,
                    user_id: user_id@,
                    agent_id: agent_id@,
                    role: role@,
                    capabilities: texts(capabilities@),
                    avoid: texts(avoid@),
                }),
            ),
    {
        let ghost before = self@;
        let ghost p = SeedPerson {
            username: username@,
            user_id: user_id@,
            agent_id: agent_id@,
            role: role@,
            capabilities: texts(capabilities@),
            avoid: texts(avoid@),
        };
        let account = PilotAccount {
            user_id: user_id.to_string(),
            username: username.to_string(),
            password: "password".to_string(),
            agent_id: agent_id.to_string(),
        };
        self.accounts.insert(username.to_string(), account);
        let profile = HumanProfile {
            user_id: user_id.to_string(),
            role: role.to_string(),
            capability_labels: capabilities,
            do_not_disturb: avoid,
            report_preference: "先结论后细节".to_string(),
            last_reflection_at: None,
            likes: Vec::new(),
            dislikes: Vec::new(),
            preferences: Vec::new(),
            profile_facts: Vec::new(),
            conversation_evidence: Vec::new(),
        };
        assert(profile@ =~= seed_profile(p));
        self.human_profiles.insert(user_id.to_string(), profile);
        let mut allowed_tools: Vec<String> = Vec::new();
        allowed_tools.push("call".to_string());
        allowed_tools.push("wait".to_string());
        allowed_tools.push("read_agent_status".to_string());
        assert(texts(allowed_tools@) =~= seq!["call"@, "wait"@, "read_agent_status"@]);
        let agent = AgentProfile {
            agent_id: agent_id.to_string(),
            owner_user_id: user_id.to_string(),
            allowed_tools,
        };
        self.agent_profiles.insert(agent_id.to_string(), agent);
        let binding = AgentOwnerBinding {
            agent_id: agent_id.to_string(),
            owner_user_id: user_id.to_string(),
            binding_type: AgentOwnerBindingType::PrimaryOwner,
            status: AgentOwnerBindingStatus::Active,
            version: 1,
        };
        self.agent_owner_bindings.insert(agent_id.to_string(), binding);
        assert(self@.people =~= before.people.insert(user_id@, profile@));
        assert(self@.accounts =~= before.accounts.insert(username@, account));
        assert(self@.agents =~= before.agents.insert(agent_id@, agent));
        assert(self@.bindings =~= before.bindings.insert(agent_id@, binding));
        assert(self@.accounts =~= before.accounts.insert(username@, self@.accounts[username@]));
        assert(self@.agents =~= before.agents.insert(agent_id@, self@.agents[agent_id@]));
        assert(self@.bindings =~= before.bindings.insert(agent_id@, self@.bindings[agent_id@]));
    }

    /// The directory the pilot starts with: a chief executive and five employees,
    /// each with an agent.
    pub fn six_person_seed() -> (r: PilotDirectory)
        ensures
            seeded_with(r@, seed_people()),
    {
        let ghost all = seed_people();
        let mut d = PilotDirectory {
            accounts: Table::new(),
            human_profiles: Table::new(),
            agent_profiles: Table::new(),
            agent_owner_bindings: Table::new(),
        };
        proof {
            lemma_seed_letters();
            assert(all.take(0) =~= Seq::<SeedPerson>::empty());
            assert(d@.people =~= Map::<Seq<char>, ProfileModel>::empty());
            let none = Seq::<SeedPerson>::empty();
            assert(none.map_values(|p: SeedPerson| p.username).to_set() =~= Set::empty());
            assert(none.map_values(|p: SeedPerson| p.user_id).to_set() =~= Set::empty());
            assert(none.map_values(|p: SeedPerson| p.agent_id).to_set() =~= Set::empty());
        }
        let mut capabilities: Vec<String> = Vec::new();
        capabilities.push("方向判断".to_string());
        capabilities.push("资源决策".to_string());
        capabilities.push("最终优先级".to_string());
        let mut avoid: Vec<String> = Vec::new();
        avoid.push("实现细节频繁打扰".to_string());
        proof {
            assert(texts(capabilities@) =~= all[0].capabilities);
            assert(texts(avoid@) =~= all[0].avoid);
        }
        let ghost before = d@;
        d.add_person("ceo", "user_ceo", "agent_ceo", "CEO", capabilities, avoid);
        proof {
            lemma_seeded_push(before, d@, all, 0);
        }
        let mut capabilities: Vec<String> = Vec::new();
        capabilities.push("模型方案".to_string());
        capabilities.push("实验设计".to_string());
        let mut avoid: Vec<String> = Vec::new();
        avoid.push("部署琐事".to_string());
        proof {
            assert(texts(capabilities@) =~= all[1].capabilities);
            assert(texts(avoid@) =~= all[1].avoid);
        }
        let ghost before = d@;
        d.add_person("employee_a", "user_a", "agent_a", "算法", capabilities, avoid);
        proof {
            lemma_seeded_push(before, d@, all, 1);
        }
        let mut capabilities: Vec<String> = Vec::new();
        capabilities.push("部署".to_string());
        capabilities.push("算力".to_string());
        capabilities.push("成本".to_string());
        let mut avoid: Vec<String> = Vec::new();
        avoid.push("审美细节".to_string());
        proof {
            assert(texts(capabilities@) =~= all[2].capabilities);
            assert(texts(avoid@) =~= all[2].avoid);
        }
        let ghost before = d@;
        d.add_person("employee_b", "user_b", "agent_b", "Infra", capabilities, avoid);
        proof {
            lemma_seeded_push(before, d@, all, 2);
        }
        let mut capabilities: Vec<String> = Vec::new();
        capabilities.push("用户场景".to_string());
        capabilities.push("需求优先级".to_string());
        let mut avoid: Vec<String> = Vec::new();
        avoid.push("低风险格式调整".to_string());
        proof {
            assert(texts(capabilities@) =~= all[3].capabilities);
            assert(texts(avoid@) =~= all[3].avoid);
        }
        let ghost before = d@;
        d.add_person("employee_c", "user_c", "agent_c", "产品", capabilities, avoid);
        proof {
            lemma_seeded_push(before, d@, all, 3);
        }
        let mut capabilities: Vec<String> = Vec::new();
        capabilities.push("代码改动".to_string());
        capabilities.push("技术风险".to_string());
        let mut avoid: Vec<String> = Vec::new();
        avoid.push("普通资料搜索".to_string());
        proof {
            assert(texts(capabilities@) =~= all[4].capabilities);
            assert(texts(avoid@) =~= all[4].avoid);
        }
        let ghost before = d@;
        d.add_person("employee_d", "user_d", "agent_d", "工程", capabilities, avoid);
        proof {
            lemma_seeded_push(before, d@, all, 4);
        }
        let mut capabilities: Vec<String> = Vec::new();
        capabilities.push("表达".to_string());
        capabilities.push("审美".to_string());
        capabilities.push("外部沟通".to_string());
        let mut avoid: Vec<String> = Vec::new();
        avoid.push("底层实现细节".to_string());
        proof {
            assert(texts(capabilities@) =~= all[5].capabilities);
            assert(texts(avoid@) =~= all[5].avoid);
        }
        let ghost before = d@;
        d.add_person("employee_e", "user_e", "agent_e", "运营设计", capabilities, avoid);
        proof {
            lemma_seeded_push(before, d@, all, 5);
        }
        assert(all.take(6) =~= all);
        d
    }
}

/// Everybody the pilot starts with can log in, and gets the agent that is bound
/// to them.
pub proof fn law_seeded_people_own_their_agents(d: DirectoryModel, i: int)
    requires
        seeded_with(d, seed_people()),
        0 <= i < 6,
    ensures
        ({
            let p = seed_people()[i];
            &&& d.accounts.contains_key(p.username)
            &&& d.accounts[p.username].agent_id@ == p.agent_id
            &&& d.bindings.contains_key(p.agent_id)
            &&& d.bindings[p.agent_id].owner_user_id@ == d.accounts[p.username].user_id@
            &&& d.bindings[p.agent_id].status == AgentOwnerBindingStatus::Active
        }),
{
    lemma_seed_letters();
    let all = seed_people();
    let p = all[i];
    let names = all.map_values(|p: SeedPerson| p.username);
    let agents = all.map_values(|p: SeedPerson| p.agent_id);
    assert(names.len() == 6 && agents.len() == 6);
    assert(names[i] == p.username);
    assert(names.contains(p.username));
    assert(names.to_set().contains(p.username));
    assert(agents[i] == p.agent_id);
    assert(agents.contains(p.agent_id));
    assert(agents.to_set().contains(p.agent_id));
    assert(d.accounts.dom().contains(p.username));
    assert(d.bindings.dom().contains(p.agent_id));
    assert(seed_account(d.accounts[p.username], p));
}

/// An account is opened by its own password alone, and opens its own session.
pub proof fn law_passwords_open_accounts(
    r: Option<PilotSession>,
    d: DirectoryModel,
    username: Seq<char>,
    password: Seq<char>,
)
    requires
        is_login(r, d, username, password),
    ensures
        r is Some <==> d.accounts.contains_key(username) && d.accounts[username].password@
            == password,
        r is Some ==> r->0.user_id@ == d.accounts[username].user_id@ && r->0.agent_id@
            == d.accounts[username].agent_id@,
{
}

/// An agent has the owner that is bound to it, as long as the binding is in force.
pub proof fn law_bindings_count_while_in_force(d: DirectoryModel, agent: Seq<char>)
    ensures
        active_binding(d, agent) is Some <==> d.bindings.contains_key(agent)
            && d.bindings[agent].status == AgentOwnerBindingStatus::Active,
        active_binding(d, agent) is Some ==> active_binding(d, agent)->0 == d.bindings[agent],
{
}

/// Whether a fact is known: one of its category and value is in force.
pub open spec fn is_known(facts: Seq<FactModel>, category: UserProfileFactCategory, value: Seq<char>) -> bool {
    exists|i: int|
        0 <= i < facts.len() && (#[trigger] facts[i]).category == category && facts[i].value == value
            && facts[i].status == UserProfileFactStatus::Active
}

proof fn lemma_superseded(
    facts: Seq<FactModel>,
    category: UserProfileFactCategory,
    value: Seq<char>,
    at: Timestamp,
)
    ensures
        superseded(facts, category, value, at).len() == facts.len(),
        is_known(superseded(facts, category, value, at), category, value) == is_known(
            facts,
            category,
            value,
        ),
        forall|i: int|
            0 <= i < facts.len() && facts[i].category == category
                ==> #[trigger] superseded(facts, category, value, at)[i] == facts[i],
{
    let s = superseded(facts, category, value, at);
    if is_known(facts, category, value) {
        let i = choose|i: int|
            0 <= i < facts.len() && (#[trigger] facts[i]).category == category && facts[i].value
                == value && facts[i].status == UserProfileFactStatus::Active;
        assert(s[i] == facts[i]);
    }
    if is_known(s, category, value) {
        let i = choose|i: int|
            0 <= i < s.len() && (#[trigger] s[i]).category == category && s[i].value == value
                && s[i].status == UserProfileFactStatus::Active;
        assert(s[i] == overruled(facts[i], category, value, at));
        assert(facts[i].category == category);
    }
}

/// A fact that is admitted is in force, says what was seen, and bears the time and
/// the message that it was seen in. One that was not known is new; one that was known
/// stays the same fact, and is at least as sure as before.
pub proof fn law_admitted_facts_are_in_force(
    p: ProfileModel,
    category: UserProfileFactCategory,
    value: Seq<char>,
    evidence: Option<Seq<char>>,
    at: Timestamp,
    confidence: u8,
    salience: u8,
)
    ensures
        ({
            let (q, f) = admitted(p, category, value, evidence, at, confidence, salience);
            let v = cleaned(value);
            &&& q.facts.contains(f)
            &&& f.category == category
            &&& f.value == v
            &&& f.status == UserProfileFactStatus::Active
            &&& f.last_seen_at == at && f.updated_at == at
            &&& evidence is Some ==> f.evidence.contains(evidence->0)
            &&& q.user_id == p.user_id && q.role == p.role && q.evidence == p.evidence
            &&& q.last_reflection_at == p.last_reflection_at
            &&& !is_known(p.facts, category, v) ==> {
                &&& q.facts.len() == p.facts.len() + 1
                &&& f.confidence == confidence
                &&& f.salience == salience
                &&& f.created_at == at
                &&& f.user_id == p.user_id
                &&& f.fact_id == fact_id(p.user_id, category, v)
                &&& evidence is None ==> f.evidence.len() == 0
            }
            &&& is_known(p.facts, category, v) ==> {
                &&& q.facts.len() == p.facts.len()
                &&& exists|i: int|
                    0 <= i < p.facts.len() && (#[trigger] p.facts[i]).category == category
                        && p.facts[i].value == v && p.facts[i].created_at == f.created_at
                        && p.facts[i].fact_id == f.fact_id && q.facts[i] == f && (
                    p.facts[i].confidence <= 94 && p.facts[i].confidence + 6 >= confidence
                        ==> f.confidence == p.facts[i].confidence + 6) && (p.facts[i].salience <= 96
                        && p.facts[i].salience + 4 >= salience ==> f.salience
                        == p.facts[i].salience + 4)
            }
        }),
{
    let v = cleaned(value);
    let facts = superseded(p.facts, category, v, at);
    lemma_superseded(p.facts, category, v, at);
    lemma_active_place_is_active(facts, category, v);
    lemma_active_place_none(facts, category, v);
    let (q, f) = admitted(p, category, value, evidence, at, confidence, salience);
    let i = active_place(facts, category, v);
    if i < facts.len() {
        assert(is_known(facts, category, v)) by {
            assert(facts[i].category == category);
        }
        assert(overruled(p.facts[i], category, v, at) == facts[i]);
        assert(p.facts[i].category == category);
        assert(facts[i] == p.facts[i]);
        assert(q.facts[i] == f);
        if evidence is Some {
            let e = facts[i].evidence;
            if !e.contains(evidence->0) {
                let n = e.push(evidence->0);
                assert(n[n.len() - 1] == evidence->0);
            }
        }
    } else {
        assert(q.facts[facts.len() as int] == f);
        assert(!is_known(facts, category, v));
        if evidence is Some {
            assert(f.evidence[0] == evidence->0);
        }
    }
}

proof fn lemma_active_place_none(
    facts: Seq<FactModel>,
    category: UserProfileFactCategory,
    value: Seq<char>,
)
    ensures
        is_known(facts, category, value) ==> active_place(facts, category, value) < facts.len(),
    decreases facts.len(),
{
    if is_known(facts, category, value) && !is_active(facts[0], category, value) {
        let t = facts.skip(1);
        let i = choose|i: int|
            0 <= i < facts.len() && (#[trigger] facts[i]).category == category && facts[i].value
                == value && facts[i].status == UserProfileFactStatus::Active;
        assert(i > 0);
        assert(t[i - 1] == facts[i]);
        assert(is_known(t, category, value));
        lemma_active_place_none(t, category, value);
    }
}

/// A fact overrules just those in force that say the opposite of the same thing: a
/// like a dislike, and a dislike a like. All other facts stay as they are.
pub proof fn law_facts_overrule_their_opposite(
    facts: Seq<FactModel>,
    category: UserProfileFactCategory,
    value: Seq<char>,
    at: Timestamp,
    i: int,
)
    requires
        0 <= i < facts.len(),
    ensures
        ({
            let f = facts[i];
            let g = superseded(facts, category, value, at)[i];
            let opposed = f.value == value && f.status == UserProfileFactStatus::Active && ((category
                == UserProfileFactCategory::Like && f.category == UserProfileFactCategory::Dislike)
                || (category == UserProfileFactCategory::Dislike && f.category
                == UserProfileFactCategory::Like));
            &&& opposed ==> g.status == UserProfileFactStatus::Superseded && g.updated_at == at
                && g.value == f.value && g.category == f.category && g.fact_id == f.fact_id
            &&& !opposed ==> g == f
        }),
{
}

/// A fact shows in the list of its category, once; a wish about how to report also
/// says how the person likes reports. No other list changes.
pub proof fn law_facts_show_in_their_list(
    p: ProfileModel,
    category: UserProfileFactCategory,
    value: Seq<char>,
)
    requires
        value.len() > 0,
    ensures
        ({
            let q = materialized(p, category, value);
            &&& category == UserProfileFactCategory::Like ==> q.likes.contains(value)
            &&& category != UserProfileFactCategory::Like ==> q.likes == p.likes
            &&& category == UserProfileFactCategory::Dislike ==> q.dislikes.contains(value)
            &&& category != UserProfileFactCategory::Dislike ==> q.dislikes == p.dislikes
            &&& category == UserProfileFactCategory::Capability ==> q.capability_labels.contains(
                value,
            )
            &&& category != UserProfileFactCategory::Capability ==> q.capability_labels
                == p.capability_labels
            &&& category == UserProfileFactCategory::DoNotDisturb ==> q.do_not_disturb.contains(
                value,
            )
            &&& category != UserProfileFactCategory::DoNotDisturb ==> q.do_not_disturb
                == p.do_not_disturb
            &&& category == UserProfileFactCategory::Preference || category
                == UserProfileFactCategory::CommunicationStyle ==> q.preferences.contains(value)
            &&& category != UserProfileFactCategory::Preference && category
                != UserProfileFactCategory::CommunicationStyle ==> q.preferences == p.preferences
            &&& category == UserProfileFactCategory::CommunicationStyle && (has_text(
                value,
                "结论"@,
            ) || has_text(value, "风险"@) || has_text(value, "细节"@)) ==> q.report_preference
                == value
            &&& category != UserProfileFactCategory::CommunicationStyle || !(has_text(value, "结论"@)
                || has_text(value, "风险"@) || has_text(value, "细节"@)) ==> q.report_preference
                == p.report_preference
            &&& q.facts == p.facts && q.role == p.role
            &&& q.likes.contains(value) && p.likes.contains(value) ==> q.likes == p.likes
        }),
{
    lemma_with_value(p.likes, value);
    lemma_with_value(p.dislikes, value);
    lemma_with_value(p.capability_labels, value);
    lemma_with_value(p.do_not_disturb, value);
    lemma_with_value(p.preferences, value);
}

proof fn lemma_with_value(values: Seq<Seq<char>>, value: Seq<char>)
    requires
        value.len() > 0,
    ensures
        with_value(values, value).contains(value),
{
    if !values.contains(value) {
        let n = values.push(value);
        assert(n[n.len() - 1] == value);
    }
}

/// What is learned from a message is one fact for each candidate, in their order, of
/// its category and with its value.
pub proof fn law_every_candidate_is_learned(
    p: ProfileModel,
    candidates: Seq<CandidateModel>,
    message_id: Seq<char>,
    at: Timestamp,
)
    ensures
        ({
            let (q, facts) = learned(p, candidates, message_id, at);
            &&& facts.len() == candidates.len()
            &&& forall|i: int|
                0 <= i < facts.len() ==> (#[trigger] facts[i]).category == candidates[i].category
                    && facts[i].value == cleaned(candidates[i].value)
                    && facts[i].evidence.contains(message_id) && facts[i].last_seen_at == at
            &&& q.user_id == p.user_id && q.role == p.role && q.evidence == p.evidence
            &&& candidates.len() == 0 ==> q == p
        }),
    decreases candidates.len(),
{
    if candidates.len() > 0 {
        let t = candidates.drop_last();
        let c = candidates.last();
        law_every_candidate_is_learned(p, t, message_id, at);
        let (q, facts) = learned(p, t, message_id, at);
        law_admitted_facts_are_in_force(
            q,
            c.category,
            c.value,
            Some(message_id),
            at,
            c.confidence,
            c.salience,
        );
        let (_, all) = learned(p, candidates, message_id, at);
        assert forall|i: int| 0 <= i < all.len() implies (#[trigger] all[i]).category
            == candidates[i].category && all[i].value == cleaned(candidates[i].value)
            && all[i].evidence.contains(message_id) && all[i].last_seen_at == at by {
            if i < facts.len() {
                assert(all[i] == facts[i]);
                assert(candidates[i] == t[i]);
            }
        }
    }
}

/// What a reflection gives is what somebody can do or is not to be disturbed with; an
/// update that says nothing gives nothing, and every other one fact.
pub proof fn law_reflections_give_facts(p: ProfileModel, updates: Seq<Seq<char>>, at: Timestamp)
    ensures
        ({
            let (q, facts) = reflected(p, updates, at);
            &&& facts.len() <= updates.len()
            &&& (forall|i: int| 0 <= i < updates.len() ==> trim(#[trigger] updates[i]).len() > 0)
                ==> facts.len() == updates.len()
            &&& (forall|i: int| 0 <= i < updates.len() ==> trim(#[trigger] updates[i]).len() == 0)
                ==> facts.len() == 0 && q == p
            &&& forall|i: int|
                0 <= i < facts.len() ==> ((#[trigger] facts[i]).category
                    == UserProfileFactCategory::Capability || facts[i].category
                    == UserProfileFactCategory::DoNotDisturb) && facts[i].last_seen_at == at
                    && facts[i].evidence.contains("daily-reflection-"@ + stamp_text(at))
            &&& q.user_id == p.user_id && q.role == p.role && q.evidence == p.evidence
        }),
    decreases updates.len(),
{
    if updates.len() > 0 {
        let t = updates.drop_last();
        law_reflections_give_facts(p, t, at);
        assert forall|i: int| 0 <= i < t.len() implies #[trigger] t[i] == updates[i] by {}
        let (q, facts) = reflected(p, t, at);
        let u = trim(updates.last());
        assert(updates.last() == updates[updates.len() - 1]);
        if u.len() > 0 {
            law_admitted_facts_are_in_force(
                q,
                reflected_category(q, u),
                u,
                Some(reflection_id(at)),
                at,
                78,
                72,
            );
            let (_, all) = reflected(p, updates, at);
            assert forall|i: int| 0 <= i < all.len() implies ((#[trigger] all[i]).category
                == UserProfileFactCategory::Capability || all[i].category
                == UserProfileFactCategory::DoNotDisturb) && all[i].last_seen_at == at
                && all[i].evidence.contains("daily-reflection-"@ + stamp_text(at)) by {
                if i < facts.len() {
                    assert(all[i] == facts[i]);
                }
            }
        }
    }
}

/// A message that is not known is kept as evidence behind the others, with its text,
/// its agent and the time; nothing else of the profile changes.
pub proof fn law_messages_are_kept_as_evidence(
    p: ProfileModel,
    agent_id: Seq<char>,
    message_id: Seq<char>,
    content: Seq<char>,
    at: Timestamp,
)
    ensures
        ({
            let q = with_evidence(p, agent_id, message_id, content, at);
            &&& knows_message(p, message_id) ==> q == p
            &&& !knows_message(p, message_id) ==> {
                &&& q.evidence.drop_last() == p.evidence
                &&& q.evidence.len() == p.evidence.len() + 1
                &&& q.evidence.last().message_id == message_id
                &&& q.evidence.last().agent_id == agent_id
                &&& q.evidence.last().content == content
                &&& q.evidence.last().observed_at == at
                &&& q.facts == p.facts && q.likes == p.likes && q.user_id == p.user_id
            }
            &&& knows_message(q, message_id)
        }),
{
    let q = with_evidence(p, agent_id, message_id, content, at);
    if !knows_message(p, message_id) {
        assert(q.evidence.drop_last() =~= p.evidence);
        assert(q.evidence[p.evidence.len() as int].message_id == message_id);
    }
}

/// Clauses say something and are trimmed, and none goes on over what ends a clause.
pub proof fn law_clauses_end_at_punctuation(s: Seq<char>)
    ensures
        forall|i: int|
            0 <= i < clauses(s).len() ==> (#[trigger] clauses(s)[i]).len() > 0 && trim(clauses(s)[i])
                == clauses(s)[i] && forall|j: int|
                0 <= j < clauses(s)[i].len() ==> !"。！!？?\n;；，"@.contains(
                    #[trigger] clauses(s)[i][j],
                ),
        (forall|j: int| 0 <= j < s.len() ==> !"。！!？?\n;；，"@.contains(#[trigger] s[j])) && trim(
            s,
        ).len() > 0 ==> clauses(s) == seq![trim(s)],
    decreases s.len(),
{
    let set = clause_ends();
    let k = first_of(s, set);
    lemma_first_of(s, set);
    let h = s.take(k);
    let head = trim(h);
    crate::text::law_trimming_once_is_enough(h);
    crate::text::law_trimming_takes_white_space_away(h);
    let (a, b) = choose|a: int, b: int| #[trigger]
        crate::text::is_middle(h, a, b) && trim(h) == h.subrange(a, b);
    assert forall|j: int| 0 <= j < head.len() implies !set.contains(#[trigger] head[j]) by {
        assert(head[j] == s[a + j]);
    }
    if k < s.len() {
        law_clauses_end_at_punctuation(s.skip(k + 1));
    } else {
        assert(h =~= s);
    }
    let rest = if k < s.len() {
        clauses(s.skip(k + 1))
    } else {
        Seq::empty()
    };
    assert forall|i: int| 0 <= i < clauses(s).len() implies (#[trigger] clauses(s)[i]).len() > 0
        && trim(clauses(s)[i]) == clauses(s)[i] && forall|j: int|
        0 <= j < clauses(s)[i].len() ==> !set.contains(#[trigger] clauses(s)[i][j]) by {
        if head.len() > 0 {
            if i == 0 {
                assert(clauses(s)[0] == head);
            } else {
                assert(clauses(s)[i] == rest[i - 1]);
            }
        } else {
            assert(clauses(s) == rest);
        }
    }
    if (forall|j: int| 0 <= j < s.len() ==> !set.contains(#[trigger] s[j])) && trim(s).len() > 0 {
        assert(k == s.len());
        assert(seq![head] + Seq::<Seq<char>>::empty() =~= seq![trim(s)]);
    }
}

/// A value is given where the words that introduce it stand, and something behind
/// them; a like is not where a word of denial stands right before.
pub proof fn law_values_stand_behind_their_words(
    before: Seq<char>,
    marker: Seq<char>,
    after: Seq<char>,
    category: UserProfileFactCategory,
)
    requires
        marker.len() > 0,
        cut_at(before + marker + after, marker) == Some((before, after)),
    ensures
        ({
            let v = value_after(before + marker + after, marker, category);
            let denied = before.len() > 0 && "不没無无"@.contains(before.last());
            &&& category == UserProfileFactCategory::Like && denied ==> v is None
            &&& category != UserProfileFactCategory::DoNotDisturb && cleaned(after).len() == 0
                ==> v is None
            &&& category != UserProfileFactCategory::DoNotDisturb && cleaned(after).len() > 0 && !(
            category == UserProfileFactCategory::Like && denied) ==> v == Some(cleaned(after))
            &&& category == UserProfileFactCategory::DoNotDisturb && trim(
                strip_end(trim(cleaned(after)), "我"@),
            ).len() > 0 ==> v == Some(trim(strip_end(trim(cleaned(after)), "我"@)))
        }),
{
}

/// Without the words of a category, nothing of that category is found.
pub proof fn law_nothing_is_found_without_its_words(
    clause: Seq<char>,
    category: UserProfileFactCategory,
    i: nat,
)
    requires
        forall|j: int| i <= j < markers(category).len() ==> !has_text(clause, #[trigger] markers(category)[j]),
        forall|j: int| 0 <= j < markers(category).len() ==> (#[trigger] markers(category)[j]).len() > 0,
    ensures
        marked_value(clause, category, i) is None,
    decreases markers(category).len() - i,
{
    if i < markers(category).len() {
        let m = markers(category)[i as int];
        crate::text::law_cuts_are_made_at_the_first_mark(clause, m);
        assert(!has_text(clause, m));
        assert(cut_at(clause, m) is None) by {
            if let Some((b, a)) = cut_at(clause, m) {
                assert((b + m + a).subrange(b.len() as int, (b.len() + m.len()) as int) =~= m);
                assert(crate::text::occurs_at(clause, m, b.len() as int));
            }
        }
        law_nothing_is_found_without_its_words(clause, category, i + 1);
    }
}

/// How sure and how important a candidate is depends on its category alone.
pub proof fn law_candidates_are_scored_by_category(content: Seq<char>, i: int)
    requires
        0 <= i < candidates_in(content).len(),
    ensures
        ({
            let c = candidates_in(content)[i];
            match c.category {
                UserProfileFactCategory::DoNotDisturb => c.confidence == 90 && c.salience == 86,
                UserProfileFactCategory::Dislike => c.confidence == 88 && c.salience == 84,
                UserProfileFactCategory::Like => c.confidence == 86 && c.salience == 80,
                UserProfileFactCategory::Capability => c.confidence == 84 && c.salience == 78,
                UserProfileFactCategory::CommunicationStyle => c.confidence == 82 && c.salience
                    == 78,
                UserProfileFactCategory::Preference => c.confidence == 82 && c.salience == 76,
            }
        }),
        candidates_in(content)[i].value.len() > 0,
{
    let list = clauses(content);
    lemma_scored_clauses(list);
    lemma_searched_clauses_distinct(list);
    lemma_without_repeats_same(searched_clauses(list));
}

spec fn all_scored(facts: Seq<CandidateModel>) -> bool {
    forall|i: int|
        0 <= i < facts.len() ==> (#[trigger] facts[i]).confidence == confidence_of(facts[i].category)
            && facts[i].salience == salience_of(facts[i].category) && facts[i].value.len() > 0
}

proof fn lemma_marked_value(clause: Seq<char>, category: UserProfileFactCategory, i: nat)
    ensures
        marked_value(clause, category, i) is Some ==> marked_value(clause, category, i)->0.len() > 0,
    decreases markers(category).len() - i,
{
    if i < markers(category).len() {
        lemma_marked_value(clause, category, i + 1);
    }
}

proof fn lemma_scored_clauses(list: Seq<Seq<char>>)
    ensures
        all_scored(searched_clauses(list)),
    decreases list.len(),
{
    if list.len() > 0 {
        lemma_scored_clauses(list.drop_last());
        let c = list.last();
        lemma_marked_value(c, UserProfileFactCategory::Dislike, 0);
        lemma_marked_value(c, UserProfileFactCategory::Like, 0);
        lemma_marked_value(c, UserProfileFactCategory::Capability, 0);
        lemma_marked_value(c, UserProfileFactCategory::DoNotDisturb, 0);
        lemma_marked_value(c, UserProfileFactCategory::CommunicationStyle, 0);
        lemma_marked_value(c, UserProfileFactCategory::Preference, 0);
    }
}

/// Everybody the pilot starts with logs in with the same first password, has said
/// nothing yet but what their place says, and has an agent that may call, wait and
/// look after others. Their user and their agent have the same name.
pub proof fn law_seeded_people_start_alike(d: DirectoryModel, i: int)
    requires
        seeded_with(d, seed_people()),
        0 <= i < 6,
    ensures
        ({
            let p = seed_people()[i];
            let name = seq!["ceo"@, "a"@, "b"@, "c"@, "d"@, "e"@][i];
            let a = d.accounts[p.username];
            let h = d.people[p.user_id];
            &&& p.user_id == "user_"@ + name
            &&& p.agent_id == "agent_"@ + name
            &&& i == 0 ==> p.username == "ceo"@
            &&& i > 0 ==> p.username == "employee_"@ + name
            &&& a.password@ == "password"@
            &&& a.username@ == p.username
            &&& a.user_id@ == p.user_id
            &&& h.user_id == p.user_id
            &&& h.role == seq!["CEO"@, "算法"@, "Infra"@, "产品"@, "工程"@, "运营设计"@][i]
            &&& h.report_preference == "先结论后细节"@
            &&& h.last_reflection_at is None
            &&& h.facts.len() == 0 && h.evidence.len() == 0 && h.likes.len() == 0
                && h.dislikes.len() == 0 && h.preferences.len() == 0
            &&& h.do_not_disturb.len() == 1
            &&& h.capability_labels.len() >= 2
            &&& texts(d.agents[p.agent_id].allowed_tools@) == seq![
                "call"@,
                "wait"@,
                "read_agent_status"@,
            ]
            &&& d.agents[p.agent_id].owner_user_id@ == p.user_id
        }),
{
    let p = seed_people()[i];
    reveal_strlit("user_");
    reveal_strlit("agent_");
    reveal_strlit("employee_");
    reveal_strlit("ceo");
    reveal_strlit("a");
    reveal_strlit("b");
    reveal_strlit("c");
    reveal_strlit("d");
    reveal_strlit("e");
    reveal_strlit("user_ceo");
    reveal_strlit("user_a");
    reveal_strlit("user_b");
    reveal_strlit("user_c");
    reveal_strlit("user_d");
    reveal_strlit("user_e");
    reveal_strlit("agent_ceo");
    reveal_strlit("agent_a");
    reveal_strlit("agent_b");
    reveal_strlit("agent_c");
    reveal_strlit("agent_d");
    reveal_strlit("agent_e");
    reveal_strlit("employee_a");
    reveal_strlit("employee_b");
    reveal_strlit("employee_c");
    reveal_strlit("employee_d");
    reveal_strlit("employee_e");
    let name = seq!["ceo"@, "a"@, "b"@, "c"@, "d"@, "e"@][i];
    assert(p.user_id =~= "user_"@ + name);
    assert(p.agent_id =~= "agent_"@ + name);
    if i > 0 {
        assert(p.username =~= "employee_"@ + name);
    }
}

/// Of a category only the first fact counts; what a clause says of a category that has
/// none yet comes behind the others.
pub proof fn law_first_facts_count(
    facts: Seq<CandidateModel>,
    clause: Seq<char>,
    category: UserProfileFactCategory,
)
    ensures
        has_category(facts, category) || marked_value(clause, category, 0) is None ==> searched(
            facts,
            clause,
            category,
        ) == facts,
        !has_category(facts, category) && marked_value(clause, category, 0) is Some ==> {
            let r = searched(facts, clause, category);
            &&& r.drop_last() == facts
            &&& r.len() == facts.len() + 1
            &&& r.last().category == category
            &&& r.last().value == marked_value(clause, category, 0)->0
        },
{
    if !has_category(facts, category) && marked_value(clause, category, 0) is Some {
        assert(searched(facts, clause, category).drop_last() =~= facts);
    }
}

/// No candidate is left that repeats another, and none is lost but for a repeat.
pub proof fn law_repeats_are_dropped(facts: Seq<CandidateModel>)
    ensures
        forall|i: int, j: int|
            0 <= i < j < without_repeats(facts).len() ==> !((#[trigger] without_repeats(
                facts,
            )[i]).category == (#[trigger] without_repeats(facts)[j]).category && without_repeats(
                facts,
            )[i].value == without_repeats(facts)[j].value),
        forall|i: int| 0 <= i < facts.len() ==> repeats(without_repeats(facts), #[trigger] facts[i]),
    decreases facts.len(),
{
    if facts.len() > 0 {
        let h = facts.drop_last();
        law_repeats_are_dropped(h);
        let k = without_repeats(h);
        let r = without_repeats(facts);
        assert forall|i: int| 0 <= i < facts.len() implies repeats(r, #[trigger] facts[i]) by {
            if i < h.len() {
                assert(facts[i] == h[i]);
                assert(repeats(k, h[i]));
                let j = choose|j: int|
                    0 <= j < k.len() && (#[trigger] k[j]).category == h[i].category && k[j].value
                        == h[i].value;
                assert(r[j] == k[j]);
            } else {
                assert(facts[i] == facts.last());
                if repeats(k, facts.last()) {
                    assert(r == k);
                } else {
                    assert(r[k.len() as int] == facts.last());
                }
            }
        }
        assert forall|i: int, j: int| 0 <= i < j < r.len() implies !((#[trigger] r[i]).category == (
        #[trigger] r[j]).category && r[i].value == r[j].value) by {
            assert(r[i] == k[i]);
            if j < k.len() {
                assert(r[j] == k[j]);
            } else {
                assert(r[j] == facts.last());
                assert(!repeats(k, facts.last()));
            }
        }
    }
}

/// The number that a hexadecimal digit stands for.
pub open spec fn hex_value(c: char) -> int {
    if '0' <= c <= '9' {
        c as int - '0' as int
    } else {
        c as int - 'a' as int + 10
    }
}

/// Bytes are written as two digits each, the high half first; no more are written than
/// asked for.
pub proof fn law_bytes_are_written_as_two_digits(bytes: Seq<u8>, len: nat, i: int)
    requires
        0 <= i < bytes.len(),
        2 * i + 1 < len,
    ensures
        len <= 2 * bytes.len() ==> hex_start(bytes, len).len() == len,
        len > 2 * bytes.len() ==> hex_start(bytes, len).len() == 2 * bytes.len(),
        16 * hex_value(hex_start(bytes, len)[2 * i]) + hex_value(hex_start(bytes, len)[2 * i + 1])
            == bytes[i],
{
    assert((2 * i) % 2 == 0 && (2 * i) / 2 == i);
    assert((2 * i + 1) % 2 == 1 && (2 * i + 1) / 2 == i);
    let b = bytes[i] as int;
    assert(b == 16 * (b / 16) + b % 16);
}

/// An interview changes what it asks for, of the person who is asked, and nothing else.
pub proof fn law_interviews_change_what_they_ask_for(
    r: Option<HumanProfile>,
    was: DirectoryModel,
    d: DirectoryModel,
    user: Seq<char>,
    role: Seq<char>,
    capabilities: Seq<Seq<char>>,
    avoid: Seq<Seq<char>>,
    report_preference: Seq<char>,
    other: Seq<char>,
)
    requires
        interviews(r, was, d, user, role, capabilities, avoid, report_preference),
    ensures
        r is Some <==> was.people.contains_key(user),
        r is None ==> d == was,
        r matches Some(p) ==> {
            let o = was.people[user];
            &&& d.people[user] == p@
            &&& p@.role == role
            &&& p@.capability_labels == capabilities
            &&& p@.do_not_disturb == avoid
            &&& p@.report_preference == report_preference
            &&& p@.user_id == o.user_id && p@.likes == o.likes && p@.dislikes == o.dislikes
            &&& p@.preferences == o.preferences && p@.facts == o.facts && p@.evidence == o.evidence
            &&& p@.last_reflection_at == o.last_reflection_at
        },
        other != user ==> d.people.contains_key(other) == was.people.contains_key(other)
            && d.people[other] == was.people[other],
        d.accounts == was.accounts && d.agents == was.agents && d.bindings == was.bindings,
{
}

/// A reflection hands back what it was given, and marks the person's profile with its
/// time; a message leaves itself as evidence. Nobody else's profile changes.
pub proof fn law_people_are_learned_of_one_by_one(
    r: Option<DailyReflection>,
    l: Option<Vec<UserProfileFact>>,
    was: DirectoryModel,
    d: DirectoryModel,
    e: DirectoryModel,
    user: Seq<char>,
    profile_updates: Seq<String>,
    agent: Seq<char>,
    message_id: Seq<char>,
    content: Seq<char>,
    at: Timestamp,
    other: Seq<char>,
)
    requires
        reflects(r, was, d, user, profile_updates, at),
        learns(l, was, e, user, agent, message_id, content, at),
    ensures
        r is Some <==> was.people.contains_key(user),
        l is Some <==> was.people.contains_key(user),
        r matches Some(done) ==> {
            &&& done.user_id@ == user
            &&& done.profile_updates@ == profile_updates
            &&& done.reflected_at == at
            &&& d.people[user].last_reflection_at == Some(at)
            &&& done.admitted_facts@.len() <= profile_updates.len()
        },
        l matches Some(facts) ==> {
            &&& knows_message(e.people[user], message_id)
            &&& facts@.len() == candidates_in(content).len()
            &&& e.people[user].last_reflection_at == was.people[user].last_reflection_at
        },
        other != user ==> d.people[other] == was.people[other] && e.people[other]
            == was.people[other],
        d.accounts == was.accounts && e.accounts == was.accounts,
{
    if was.people.contains_key(user) {
        law_reflections_give_facts(was.people[user], texts(profile_updates), at);
        assert(texts(profile_updates).len() == profile_updates.len());
        let done = r->0;
        assert(fact_models(done.admitted_facts@).len() == done.admitted_facts@.len());
        let p = with_evidence(was.people[user], agent, message_id, content, at);
        law_messages_are_kept_as_evidence(was.people[user], agent, message_id, content, at);
        law_every_candidate_is_learned(p, candidates_in(content), message_id, at);
        lemma_learning_keeps_reflection(p, candidates_in(content), message_id, at);
        assert(fact_models(l->0@).len() == l->0@.len());
    }
}

proof fn lemma_learning_keeps_reflection(
    p: ProfileModel,
    candidates: Seq<CandidateModel>,
    message_id: Seq<char>,
    at: Timestamp,
)
    ensures
        ({
            let (q, _) = learned(p, candidates, message_id, at);
            q.last_reflection_at == p.last_reflection_at
        }),
    decreases candidates.len(),
{
    if candidates.len() > 0 {
        lemma_learning_keeps_reflection(p, candidates.drop_last(), message_id, at);
    }
}

/// The id of a fact is made of whom it is about, its category and its value, in this
/// order and with a zero byte between them: facts that differ in none have the same.
pub proof fn law_facts_are_known_by_what_they_say(
    user_id: Seq<char>,
    category: UserProfileFactCategory,
    value: Seq<char>,
)
    ensures
        fact_id(user_id, category, value) == "profile_fact_"@ + hex_start(
            sha256_digest(
                encode_utf8(user_id) + seq![0u8] + encode_utf8(
                    match category {
                        UserProfileFactCategory::Like => "like"@,
                        UserProfileFactCategory::Dislike => "dislike"@,
                        UserProfileFactCategory::Capability => "capability"@,
                        UserProfileFactCategory::Preference => "preference"@,
                        UserProfileFactCategory::DoNotDisturb => "do_not_disturb"@,
                        UserProfileFactCategory::CommunicationStyle => "communication_style"@,
                    },
                ) + seq![0u8] + encode_utf8(value),
            ),
            12,
        ),
{
}

/// What is said of a value is kept without the punctuation and the white space around
/// it; a value without either is kept as it is.
pub proof fn law_plain_values_are_kept(value: Seq<char>)
    requires
        value.len() > 0,
        !crate::text::is_space(value[0]) && !crate::text::is_space(value.last()),
        !"：:，,、 "@.contains(value[0]),
        !"。.！!？?，,；;"@.contains(value.last()),
    ensures
        cleaned(value) == value,
{
    assert(crate::text::trim_start(value) == value);
    assert(crate::text::trim_end(value) == value);
    assert(strip_start(value, "：:，,、 "@) == value);
    assert(strip_end(value, "。.！!？?，,；;"@) == value);
}

} // verus!
