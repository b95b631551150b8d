//! What becomes of the requests of the office's owners.
use crate::ids::{thread_text, ThreadId};
use crate::office::blackboard::{
    BlackboardModel, BlackboardNote, NoteModel, OfficeBlackboard, OfficeBlackboardStore,
};
use crate::office::memory::{are_paths_of, AgentMemoryStore};
use crate::office::persistence::{PersistentPilotDirectory, PilotWebSession};
use crate::office::pilot::{
    candidates_in, fact_models, is_account_of, learned, reflected, with_evidence, DailyReflection,
    DirectoryModel, HumanProfile, PilotAccount, ProfileModel, UserProfileFact,
};
use crate::office::profile_prompt::{owner_profile_text, render_owner_profile_prompt};
use crate::office::runtime::{last_open, activity_of, open_by_status, queued, OfficeRuntimeStore, RuntimeModel};
use crate::office::snapshot::OfficeAgentContextSnapshot;
use crate::office::web::{
    build_me, builds_me, plain_status, register_session_participants,
    reply_status_from_need_reply, session_fits, ItemModel, OfficeInboxMessage,
    OfficeMeResponse, OfficeOwnerDelivery,
};
use crate::text::{
    blank, copy_opt, is_blank, opt_str, opt_text, same_text, texts, trim, trimmed,
};
use crate::time::Timestamp;
use crate::tools::handlers::collab_inbox::{
    delivered, fulfilled, has_obligation, inbox_of, next_number, obligation, owes_reply,
    with_inbox, with_obligation, InboxMessage, InboxRuntime, InboxView,
};
use vstd::prelude::*;

verus! {

/// How a person reports unless they say otherwise.
pub const DEFAULT_REPORT_PREFERENCE: &'static str = "先结论后细节";

pub const NOT_LOGGED_IN: &'static str = "not logged in";

pub const PROFILE_NOT_FOUND: &'static str = "profile not found";

/// Why a request is refused: a status of HTTP and a message.
#[derive(Clone, Debug, Eq, PartialEq)]
pub struct WebFailure {
    pub status: u16,
    pub message: String,
}

pub open spec fn fails_with(f: WebFailure, status: u16, message: Seq<char>) -> bool {
    f.status == status && f.message@ == message
}

fn failure(status: u16, message: &str) -> (r: WebFailure)
    ensures
        fails_with(r, status, message@),
{
    WebFailure { status, message: message.to_string() }
}

#[derive(Clone, Debug)]
pub struct LoginRequest {
    pub username: String,
    pub password: String,
}

#[derive(Clone, Debug)]
pub struct InterviewRequest {
    pub role: String,
    pub capabilities: Vec<String>,
    pub avoid: Vec<String>,
    pub report_preference: String,
}

#[derive(Clone, Debug)]
pub struct OwnerMessageRequest {
    pub message_id: Option<String>,
    pub content: String,
    pub need_reply: bool,
    pub reply_to_message_id: Option<String>,
}

#[derive(Clone, Debug)]
pub struct BlackboardPostRequest {
    pub author_id: String,
    pub content: String,
}

// ---------------------------------------------------------------------------
// Sessions
// ---------------------------------------------------------------------------

/// Whether this is the session that a token opens, or that nobody is logged in.
pub open spec fn opens_session(
    r: Result<PilotWebSession, WebFailure>,
    sessions: Map<Seq<char>, PilotWebSession>,
    token: Option<Seq<char>>,
) -> bool {
    match r {
        Ok(s) => token is Some && sessions.contains_key(token->0) && s == sessions[token->0],
        Err(f) => fails_with(f, 401, NOT_LOGGED_IN@) && (token is None || !sessions.contains_key(
            token->0,
        )),
    }
}

/// The session that a token opens, or that nobody is logged in.
pub fn current_session(directory: &PersistentPilotDirectory, token: Option<&str>) -> (r: Result<
    PilotWebSession,
    WebFailure,
>)
    ensures
        opens_session(r, directory.sessions(), opt_str(token)),
{
    if let Some(t) = token {
        if let Some(s) = directory.web_session(t) {
            return Ok(s.copy());
        }
    }
    Err(failure(401, NOT_LOGGED_IN))
}

/// Whether the name and the password are those of an account.
pub open spec fn may_log_in(d: DirectoryModel, request: LoginRequest) -> bool {
    d.accounts.contains_key(trim(request.username@)) && d.accounts[trim(
        request.username@,
    )].password@ == request.password@
}

/// Whether this is what a login comes to: where the name and the password are those of
/// an account, its session is open under the token.
pub open spec fn logs_in(
    r: Result<PilotWebSession, WebFailure>,
    people: DirectoryModel,
    was: Map<Seq<char>, PilotWebSession>,
    sessions: Map<Seq<char>, PilotWebSession>,
    request: LoginRequest,
    token: Seq<char>,
    now: Timestamp,
) -> bool {
    if may_log_in(people, request) {
        let a = people.accounts[trim(request.username@)];
        exists|s: PilotWebSession|
            s.token@ == token && s.user_id == a.user_id && s.agent_id == a.agent_id && s.created_at
                == now && #[trigger] was.insert(token, s) == sessions && match r {
                Ok(made) => made == s && exists|b: PilotAccount|
                    is_account_of(people, s.user_id@, b) && #[trigger] session_fits(people, b, s),
                Err(f) => fails_with(f, 500, "session profile is inconsistent"@) && exists|
                    b: PilotAccount,
                |
                    is_account_of(people, s.user_id@, b) && !(#[trigger] session_fits(
                        people,
                        b,
                        s,
                    )),
            }
    } else {
        sessions == was && (r matches Err(f) && fails_with(f, 401, "invalid username or password"@))
    }
}

/// Opens a session under a token for whom the name and the password are of. The
/// session stays open where what it belongs to does not fit together.
pub fn log_in(
    directory: &mut PersistentPilotDirectory,
    request: &LoginRequest,
    token: String,
    now: Timestamp,
) -> (r: Result<PilotWebSession, WebFailure>)
    ensures
        final(directory).people() == old(directory).people(),
        final(directory).place() == old(directory).place(),
        logs_in(
            r,
            old(directory).people(),
            old(directory).sessions(),
            final(directory).sessions(),
            *request,
            token@,
            now,
        ),
{
    let username = trimmed(request.username.as_str());
    let session = match directory.login(username, request.password.as_str()) {
        Some(s) => s,
        None => {
            return Err(failure(401, "invalid username or password"));
        },
    };
    let ghost a = directory.people().accounts[username@];
    let ghost d = directory.people();
    let s = directory.create_web_session(token, session, now);
    assert(is_account_of(d, s.user_id@, a)) by {
        assert(d.accounts.contains_key(username@) && d.accounts[username@] == a);
    }
    if register_session_participants(directory, &s) {
        Ok(s)
    } else {
        Err(failure(500, "session profile is inconsistent"))
    }
}

/// Whether the session that a token opens was ended, if there was one.
pub open spec fn logs_out(
    r: bool,
    was: Map<Seq<char>, PilotWebSession>,
    sessions: Map<Seq<char>, PilotWebSession>,
    token: Option<Seq<char>>,
) -> bool {
    match token {
        Some(t) => sessions == was.remove(t) && r == was.contains_key(t),
        None => sessions == was && !r,
    }
}

/// Ends the session that a token opens.
pub fn log_out(directory: &mut PersistentPilotDirectory, token: Option<&str>) -> (r: bool)
    ensures
        final(directory).people() == old(directory).people(),
        final(directory).place() == old(directory).place(),
        logs_out(r, old(directory).sessions(), final(directory).sessions(), opt_str(token)),
{
    match token {
        Some(t) => directory.delete_web_session(t),
        None => false,
    }
}

/// The session that a token opens, where what it belongs to fits together.
pub fn fitting_session(directory: &PersistentPilotDirectory, token: Option<&str>) -> (r: Result<
    PilotWebSession,
    WebFailure,
>)
    ensures
        match r {
            Ok(s) => opt_str(token) is Some && directory.sessions().contains_key(
                opt_str(token)->0,
            ) && s == directory.sessions()[opt_str(token)->0] && exists|a: PilotAccount|
                is_account_of(directory.people(), s.user_id@, a) && #[trigger] session_fits(
                    directory.people(),
                    a,
                    s,
                ),
            Err(f) => if opt_str(token) is Some && directory.sessions().contains_key(
                opt_str(token)->0,
            ) {
                let s = directory.sessions()[opt_str(token)->0];
                fails_with(f, 500, PROFILE_NOT_FOUND@) && ((forall|a: PilotAccount|
                    !is_account_of(directory.people(), s.user_id@, a)) || exists|a: PilotAccount|
                    is_account_of(directory.people(), s.user_id@, a) && !(#[trigger] session_fits(
                        directory.people(),
                        a,
                        s,
                    )))
            } else {
                fails_with(f, 401, NOT_LOGGED_IN@)
            },
        },
{
    let s = match current_session(directory, token) {
        Ok(s) => s,
        Err(f) => {
            return Err(f);
        },
    };
    if register_session_participants(directory, &s) {
        Ok(s)
    } else {
        Err(failure(500, PROFILE_NOT_FOUND))
    }
}

/// Whether this is what somebody with a session is shown, or that there is no profile.
pub open spec fn shows(
    r: Result<OfficeMeResponse, WebFailure>,
    d: DirectoryModel,
    was: RuntimeModel,
    m: RuntimeModel,
    inboxes: Map<Seq<char>, InboxView>,
    s: PilotWebSession,
    now: Timestamp,
) -> bool {
    match r {
        Ok(me) => builds_me(Some(me), d, was, m, inboxes, s, now),
        Err(f) => fails_with(f, 500, PROFILE_NOT_FOUND@) && builds_me(
            None,
            d,
            was,
            m,
            inboxes,
            s,
            now,
        ),
    }
}

/// What somebody with this session is shown.
pub fn show_me(
    directory: &PersistentPilotDirectory,
    store: &mut OfficeRuntimeStore,
    inboxes: &InboxRuntime,
    session: &PilotWebSession,
    now: Timestamp,
) -> (r: Result<OfficeMeResponse, WebFailure>)
    ensures
        final(store).place() == old(store).place(),
        shows(r, directory.people(), old(store)@, final(store)@, inboxes@, *session, now),
{
    match build_me(directory, store, inboxes, session, now) {
        Some(me) => Ok(me),
        None => Err(failure(500, PROFILE_NOT_FOUND)),
    }
}

// ---------------------------------------------------------------------------
// What a person says of themselves
// ---------------------------------------------------------------------------

/// The profile of a person after an interview.
pub open spec fn interviewed(p: ProfileModel, request: InterviewRequest) -> ProfileModel {
    ProfileModel {
        role: request.role@,
        capability_labels: texts(request.capabilities@),
        do_not_disturb: texts(request.avoid@),
        report_preference: if blank(request.report_preference@) {
            DEFAULT_REPORT_PREFERENCE@
        } else {
            request.report_preference@
        },
        ..p
    }
}

/// The user of the session that a token opens.
pub open spec fn user_of(directory: PersistentPilotDirectory, token: Option<Seq<char>>) -> Option<
    Seq<char>,
> {
    match token {
        Some(t) => if directory.sessions().contains_key(t) {
            Some(directory.sessions()[t].user_id@)
        } else {
            None
        },
        None => None,
    }
}

/// Whether this is what an interview comes to.
pub open spec fn takes_interview(
    r: Result<HumanProfile, WebFailure>,
    was: DirectoryModel,
    people: DirectoryModel,
    user: Option<Seq<char>>,
    request: InterviewRequest,
) -> bool {
    match user {
        Some(user) => if was.people.contains_key(user) {
            (r matches Ok(p) && p@ == interviewed(was.people[user], request)) && people == (
            DirectoryModel {
                people: was.people.insert(user, interviewed(was.people[user], request)),
                ..was
            })
        } else {
            (r matches Err(f) && fails_with(f, 404, PROFILE_NOT_FOUND@)) && people == was
        },
        None => (r matches Err(f) && fails_with(f, 401, NOT_LOGGED_IN@)) && people == was,
    }
}

/// Takes over what a person said in an interview.
pub fn interview(
    directory: &mut PersistentPilotDirectory,
    token: Option<&str>,
    request: InterviewRequest,
) -> (r: Result<HumanProfile, WebFailure>)
    ensures
        final(directory).sessions() == old(directory).sessions(),
        final(directory).place() == old(directory).place(),
        takes_interview(
            r,
            old(directory).people(),
            final(directory).people(),
            user_of(*old(directory), opt_str(token)),
            request,
        ),
{
    let session = match current_session(directory, token) {
        Ok(s) => s,
        Err(f) => {
            return Err(f);
        },
    };
    let InterviewRequest { role, capabilities, avoid, report_preference } = request;
    let report_preference = if is_blank(report_preference.as_str()) {
        DEFAULT_REPORT_PREFERENCE.to_string()
    } else {
        report_preference
    };
    match directory.run_mini_interview(
        session.user_id.as_str(),
        role,
        capabilities,
        avoid,
        report_preference,
    ) {
        Some(p) => Ok(p),
        None => Err(failure(404, PROFILE_NOT_FOUND)),
    }
}

/// Whether this is what a reflection comes to.
pub open spec fn takes_reflection(
    r: Result<(DailyReflection, HumanProfile), WebFailure>,
    was: DirectoryModel,
    people: DirectoryModel,
    user: Option<Seq<char>>,
    profile_updates: Seq<String>,
    now: Timestamp,
) -> bool {
    match user {
        Some(user) => if was.people.contains_key(user) {
            let (p, facts) = reflected(was.people[user], texts(profile_updates), now);
            let q = ProfileModel { last_reflection_at: Some(now), ..p };
            (r matches Ok((d, profile)) && d.user_id@ == user && d.profile_updates@
                == profile_updates && fact_models(d.admitted_facts@) == facts && d.reflected_at
                == now && profile@ == q) && people == (DirectoryModel {
                people: was.people.insert(user, q),
                ..was
            })
        } else {
            (r matches Err(f) && fails_with(f, 404, PROFILE_NOT_FOUND@)) && people == was
        },
        None => (r matches Err(f) && fails_with(f, 401, NOT_LOGGED_IN@)) && people == was,
    }
}

/// Takes over what a person's day gave; hands back what came of it and the
/// profile as it is then.
pub fn reflection(
    directory: &mut PersistentPilotDirectory,
    token: Option<&str>,
    profile_updates: Vec<String>,
    now: Timestamp,
) -> (r: Result<(DailyReflection, HumanProfile), WebFailure>)
    ensures
        final(directory).sessions() == old(directory).sessions(),
        final(directory).place() == old(directory).place(),
        takes_reflection(
            r,
            old(directory).people(),
            final(directory).people(),
            user_of(*old(directory), opt_str(token)),
            profile_updates@,
            now,
        ),
{
    let session = match current_session(directory, token) {
        Ok(s) => s,
        Err(f) => {
            return Err(f);
        },
    };
    let done = match directory.daily_reflection(session.user_id.as_str(), profile_updates, now) {
        Some(d) => d,
        None => {
            return Err(failure(404, PROFILE_NOT_FOUND));
        },
    };
    match directory.human_profile(session.user_id.as_str()) {
        Some(p) => Ok((done, p.copy())),
        None => Err(failure(404, PROFILE_NOT_FOUND)),
    }
}

/// Whether this is the text of an owner's profile, or why there is none.
pub open spec fn tells_owner_profile(
    r: Result<String, String>,
    people: DirectoryModel,
    session: PilotWebSession,
) -> bool {
    match r {
        Ok(text) => people.people.contains_key(session.user_id@) && people.agents.contains_key(
            session.agent_id@,
        ) && people.agents[session.agent_id@].owner_user_id@ == session.user_id@ && text@
            == owner_profile_text(people.people[session.user_id@]),
        Err(e) => if !people.people.contains_key(session.user_id@) {
            e@ == "human profile not found"@
        } else if !people.agents.contains_key(session.agent_id@) {
            e@ == "agent profile not found"@
        } else {
            people.agents[session.agent_id@].owner_user_id@ != session.user_id@ && e@
                == "agent profile owner mismatch"@
        },
    }
}

/// The text of an owner's profile for their agent, or why there is none.
pub fn owner_profile_prompt_for_session(
    directory: &PersistentPilotDirectory,
    session: &PilotWebSession,
) -> (r: Result<String, String>)
    ensures
        tells_owner_profile(r, directory.people(), *session),
{
    let human_profile = match directory.human_profile(session.user_id.as_str()) {
        Some(p) => p,
        None => {
            return Err("human profile not found".to_string());
        },
    };
    let agent_profile = match directory.agent_profile(session.agent_id.as_str()) {
        Some(p) => p,
        None => {
            return Err("agent profile not found".to_string());
        },
    };
    if !same_text(agent_profile.owner_user_id.as_str(), session.user_id.as_str()) {
        return Err("agent profile owner mismatch".to_string());
    }
    Ok(render_owner_profile_prompt(human_profile))
}

// ---------------------------------------------------------------------------
// A message of an owner to their agent
// ---------------------------------------------------------------------------

/// A message of an owner that was taken.
#[derive(Clone, Debug)]
pub struct OwnerMessage {
    pub session: PilotWebSession,
    pub message_id: String,
    pub content: String,
    pub need_reply: bool,
    pub reply_to_message_id: Option<String>,
}

/// The text, where it is there and not blank.
pub open spec fn said(s: Option<String>) -> Option<Seq<char>> {
    match s {
        Some(t) => if blank(t@) {
            None
        } else {
            Some(t@)
        },
        None => None,
    }
}

/// Whether a message was taken as it was sent. A message without an id gets the
/// fresh one; one from a page asks for a reply unless it is itself one.
pub open spec fn is_taken(
    m: OwnerMessage,
    request: OwnerMessageRequest,
    json: bool,
    fresh_id: Seq<char>,
) -> bool {
    &&& m.message_id@ == (match said(request.message_id) {
        Some(id) => id,
        None => fresh_id,
    })
    &&& m.content@ == trim(request.content@)
    &&& opt_text(m.reply_to_message_id) == said(request.reply_to_message_id)
    &&& m.need_reply == (request.need_reply || (!json && said(request.reply_to_message_id) is None))
}

fn keep_said(s: &Option<String>) -> (r: Option<String>)
    ensures
        opt_text(r) == said(*s),
{
    match s {
        Some(t) => if is_blank(t.as_str()) {
            None
        } else {
            Some(t.clone())
        },
        None => None,
    }
}

/// Whether this is what a message of an owner comes to.
pub open spec fn takes_message(
    r: Result<OwnerMessage, WebFailure>,
    people: DirectoryModel,
    sessions: Map<Seq<char>, PilotWebSession>,
    token: Option<Seq<char>>,
    request: OwnerMessageRequest,
    json: bool,
    fresh_id: Seq<char>,
) -> bool {
    match r {
        Ok(m) => !blank(request.content@) && is_taken(m, request, json, fresh_id) && token is Some
            && sessions.contains_key(token->0) && m.session == sessions[token->0] && exists|
            a: PilotAccount,
        |
            is_account_of(people, m.session.user_id@, a) && #[trigger] session_fits(
                people,
                a,
                m.session,
            ),
        Err(f) => if token is None {
            fails_with(f, 401, NOT_LOGGED_IN@)
        } else if blank(request.content@) {
            fails_with(f, 400, "message content is required"@)
        } else if !sessions.contains_key(token->0) {
            fails_with(f, 401, NOT_LOGGED_IN@)
        } else {
            let s = sessions[token->0];
            fails_with(f, 500, PROFILE_NOT_FOUND@) && ((forall|a: PilotAccount|
                !is_account_of(people, s.user_id@, a)) || exists|a: PilotAccount|
                is_account_of(people, s.user_id@, a) && !(#[trigger] session_fits(people, a, s)))
        },
    }
}

/// Takes a message of an owner: it has to say something, and come from somebody
/// who is logged in and whose account fits together.
pub fn take_owner_message(
    directory: &PersistentPilotDirectory,
    token: Option<&str>,
    request: &OwnerMessageRequest,
    json: bool,
    fresh_id: &str,
) -> (r: Result<OwnerMessage, WebFailure>)
    ensures
        takes_message(
            r,
            directory.people(),
            directory.sessions(),
            opt_str(token),
            *request,
            json,
            fresh_id@,
        ),
{
    if token.is_none() {
        return Err(failure(401, NOT_LOGGED_IN));
    }
    if is_blank(request.content.as_str()) {
        return Err(failure(400, "message content is required"));
    }
    let session = match fitting_session(directory, token) {
        Ok(s) => s,
        Err(f) => {
            return Err(f);
        },
    };
    let message_id = match keep_said(&request.message_id) {
        Some(id) => id,
        None => fresh_id.to_string(),
    };
    let reply_to_message_id = keep_said(&request.reply_to_message_id);
    let need_reply = request.need_reply || (!json && reply_to_message_id.is_none());
    let ghost s = session;
    let taken = OwnerMessage {
        session,
        message_id,
        content: trimmed(request.content.as_str()).to_string(),
        need_reply,
        reply_to_message_id,
    };
    assert(taken.session == s);
    assert(is_taken(taken, *request, json, fresh_id@));
    Ok(taken)
}

/// Whether this is what is learned from a message.
pub open spec fn learns_from(
    r: Result<Vec<UserProfileFact>, WebFailure>,
    was: DirectoryModel,
    people: DirectoryModel,
    message: OwnerMessage,
    now: Timestamp,
) -> bool {
    if was.people.contains_key(message.session.user_id@) {
        let p = with_evidence(
            was.people[message.session.user_id@],
            message.session.agent_id@,
            message.message_id@,
            message.content@,
            now,
        );
        let (q, admitted) = learned(p, candidates_in(message.content@), message.message_id@, now);
        (r matches Ok(facts) && fact_models(facts@) == admitted) && people == (DirectoryModel {
            people: was.people.insert(message.session.user_id@, q),
            ..was
        })
    } else {
        (r matches Err(f) && fails_with(f, 404, PROFILE_NOT_FOUND@)) && people == was
    }
}

/// Learns of a person from a message to their agent.
pub fn learn_from_owner_message(
    directory: &mut PersistentPilotDirectory,
    message: &OwnerMessage,
    now: Timestamp,
) -> (r: Result<Vec<UserProfileFact>, WebFailure>)
    ensures
        final(directory).sessions() == old(directory).sessions(),
        final(directory).place() == old(directory).place(),
        learns_from(r, old(directory).people(), final(directory).people(), *message, now),
{
    match directory.record_owner_message_profile_evidence(
        message.session.user_id.as_str(),
        message.session.agent_id.as_str(),
        message.message_id.as_str(),
        message.content.as_str(),
        now,
    ) {
        Some(facts) => Ok(facts),
        None => Err(failure(404, PROFILE_NOT_FOUND)),
    }
}

/// The message as it lies in an inbox.
pub open spec fn is_inbox_copy(i: InboxMessage, m: OwnerMessage, seq: u64, need_reply: bool) -> bool {
    &&& i.seq == seq
    &&& i.sender_agent_name@ == m.session.user_id@
    &&& i.message_id@ == m.message_id@
    &&& i.need_reply == need_reply
    &&& opt_text(i.reply_to_message_id) == opt_text(m.reply_to_message_id)
    &&& i.content@ == m.content@
}

/// Whether a message of an owner was put into the inbox of their agent.
pub open spec fn queues_message(
    seq: u64,
    was: Map<Seq<char>, InboxView>,
    m: Map<Seq<char>, InboxView>,
    message: OwnerMessage,
) -> bool {
    &&& seq == next_number(inbox_of(was, message.session.agent_id@).next_seq)
    &&& exists|i: InboxMessage| #[trigger]
        is_inbox_copy(i, message, seq, message.need_reply) && m == was.insert(
            message.session.agent_id@,
            delivered(inbox_of(was, message.session.agent_id@), i),
        )
}

/// Puts a message of an owner into the inbox of their agent.
pub fn queue_owner_message(inboxes: &mut InboxRuntime, message: &OwnerMessage) -> (seq: u64)
    ensures
        queues_message(seq, old(inboxes)@, final(inboxes)@, *message),
{
    let sender = message.session.user_id.clone();
    let message_id = message.message_id.clone();
    let reply_to = copy_opt(&message.reply_to_message_id);
    let content = message.content.clone();
    let ghost i = InboxMessage {
        seq: next_number(inbox_of(inboxes@, message.session.agent_id@).next_seq),
        sender_agent_name: sender,
        message_id,
        need_reply: message.need_reply,
        reply_to_message_id: reply_to,
        content,
    };
    let seq: u64 = inboxes.append_logical_message(
        message.session.agent_id.as_str(),
        sender,
        message_id,
        message.need_reply,
        reply_to,
        content,
    );
    assert(is_inbox_copy(i, *message, seq, message.need_reply));
    seq
}

/// Whether this is what the agent's thread is handed of a message.
pub open spec fn is_delivery_of(d: OfficeOwnerDelivery, m: OwnerMessage) -> bool {
    &&& d.agent_id@ == m.session.agent_id@
    &&& d.owner_user_id@ == m.session.user_id@
    &&& d.message_id@ == m.message_id@
    &&& d.content@ == m.content@
    &&& d.need_reply == m.need_reply
    &&& opt_text(d.reply_to_message_id) == opt_text(m.reply_to_message_id)
}

/// Whether a message was noted, and its answer is to name the message that it should.
pub open spec fn notes_message(
    r: OfficeOwnerDelivery,
    was: RuntimeModel,
    m: RuntimeModel,
    message: OwnerMessage,
    now: Timestamp,
) -> bool {
    let agent = message.session.agent_id@;
    &&& is_delivery_of(r, message)
    &&& if message.need_reply {
        let (n, _) = queued(
            was,
            agent,
            message.session.user_id@,
            message.message_id@,
            message.content@,
            now,
        );
        opt_text(r.owner_reply_target_message_id) == Some(message.message_id@) && m == n
    } else {
        m == was && match last_open(was, agent, activity_of(was, agent)) {
            Some(id) => opt_text(r.owner_reply_target_message_id) == Some(id),
            None => match r.owner_reply_target_message_id {
                Some(id) => open_by_status(was, agent, id@),
                None => forall|id: Seq<char>| !open_by_status(was, agent, id),
            },
        }
    }
}

/// Notes a message that asks for a reply, and finds the message that the agent's
/// answer is to name: this one, or else one that is still open.
pub fn note_owner_message(store: &mut OfficeRuntimeStore, message: &OwnerMessage, now: Timestamp) -> (r:
    OfficeOwnerDelivery)
    ensures
        final(store).place() == old(store).place(),
        notes_message(r, old(store)@, final(store)@, *message, now),
{
    let agent = message.session.agent_id.as_str();
    let target = if message.need_reply {
        store.mark_owner_message_queued(
            agent,
            message.session.user_id.as_str(),
            message.message_id.as_str(),
            message.content.as_str(),
            now,
        );
        Some(message.message_id.clone())
    } else {
        store.latest_unanswered_owner_message_id(agent)
    };
    OfficeOwnerDelivery {
        agent_id: message.session.agent_id.clone(),
        owner_user_id: message.session.user_id.clone(),
        message_id: message.message_id.clone(),
        owner_reply_target_message_id: target,
        content: message.content.clone(),
        need_reply: message.need_reply,
        reply_to_message_id: copy_opt(&message.reply_to_message_id),
    }
}

/// The inboxes after an obligation of a person was settled, towards whomever.
pub open spec fn settled_any(
    m: Map<Seq<char>, InboxView>,
    user: Seq<char>,
    id: Seq<char>,
) -> Map<Seq<char>, InboxView> {
    if has_obligation(m, user, id) && !obligation(m, user, id).resolved {
        with_obligation(m, user, id, fulfilled(obligation(m, user, id)))
    } else {
        with_inbox(m, user)
    }
}

/// The inboxes after an obligation of a person towards a thread was settled.
pub open spec fn settled_from(
    m: Map<Seq<char>, InboxView>,
    user: Seq<char>,
    source: Seq<char>,
    id: Seq<char>,
) -> Map<Seq<char>, InboxView> {
    if owes_reply(m, user, source, id) {
        with_obligation(m, user, id, fulfilled(obligation(m, user, id)))
    } else {
        with_inbox(m, user)
    }
}

/// The inboxes after a message was put into the inbox of a thread: what it
/// answers is settled, towards that thread or else towards whomever.
pub open spec fn settled_with(
    m: Map<Seq<char>, InboxView>,
    message: OwnerMessage,
    source: Seq<char>,
    i: InboxMessage,
) -> Map<Seq<char>, InboxView> {
    let user = message.session.user_id@;
    match message.reply_to_message_id {
        Some(id) => {
            let a = settled_from(m, user, source, id@);
            let b = a.insert(source, delivered(inbox_of(a, source), i));
            if owes_reply(m, user, source, id@) {
                b
            } else {
                settled_any(b, user, id@)
            }
        },
        None => m.insert(source, delivered(inbox_of(m, source), i)),
    }
}

/// The number of a message that is put into the inbox of a thread after what it
/// answers was settled towards that thread.
pub open spec fn settled_number(
    m: Map<Seq<char>, InboxView>,
    message: OwnerMessage,
    source: Seq<char>,
) -> u64 {
    next_number(
        inbox_of(
            match message.reply_to_message_id {
                Some(id) => settled_from(m, message.session.user_id@, source, id@),
                None => m,
            },
            source,
        ).next_seq,
    )
}

fn settle_with_thread(inboxes: &mut InboxRuntime, message: &OwnerMessage, thread: ThreadId)
    ensures
        exists|i: InboxMessage| #[trigger]
            is_inbox_copy(
                i,
                *message,
                settled_number(old(inboxes)@, *message, thread_text(thread)),
                false,
            ) && final(inboxes)@ == settled_with(
                old(inboxes)@,
                *message,
                thread_text(thread),
                i,
            ),
{
    let ghost m = inboxes@;
    let user = message.session.user_id.as_str();
    let source = thread.to_text();
    let done = match &message.reply_to_message_id {
        Some(id) => inboxes.resolve_required_reply_logical_from_source_id(
            user,
            source.as_str(),
            id.as_str(),
        ),
        None => true,
    };
    let ghost a = inboxes@;
    let sender = message.session.user_id.clone();
    let message_id = message.message_id.clone();
    let reply_to = copy_opt(&message.reply_to_message_id);
    let content = message.content.clone();
    let ghost i = InboxMessage {
        seq: next_number(inbox_of(a, source@).next_seq),
        sender_agent_name: sender,
        message_id,
        need_reply: false,
        reply_to_message_id: reply_to,
        content,
    };
    inboxes.append_message(thread, sender, message_id, reply_to, content);
    if !done {
        if let Some(id) = &message.reply_to_message_id {
            inboxes.resolve_required_reply_logical_any_source(user, id.as_str());
        }
    }
    assert(is_inbox_copy(i, *message, settled_number(m, *message, source@), false));
    assert(inboxes@ == settled_with(m, *message, source@, i));
}

/// Whether a message that was handed to its agent's thread is settled.
pub open spec fn settles(
    was: Map<Seq<char>, InboxView>,
    m: Map<Seq<char>, InboxView>,
    message: OwnerMessage,
    thread: Option<ThreadId>,
) -> bool {
    match thread {
        Some(t) => exists|i: InboxMessage| #[trigger]
            is_inbox_copy(i, message, settled_number(was, message, thread_text(t)), false) && m
                == settled_with(was, message, thread_text(t), i),
        None => m == (match message.reply_to_message_id {
            Some(id) => settled_any(was, message.session.user_id@, id@),
            None => was,
        }),
    }
}

/// What is left of a message that was handed to its agent's thread. It lies in
/// the inbox of the thread that the agent had before, if it had one, and what it
/// answers is settled.
pub fn settle_owner_message(
    inboxes: &mut InboxRuntime,
    message: &OwnerMessage,
    thread: Option<ThreadId>,
)
    ensures
        settles(old(inboxes)@, final(inboxes)@, *message, thread),
{
    match thread {
        Some(t) => {
            settle_with_thread(inboxes, message, t);
        },
        None => {
            if let Some(id) = &message.reply_to_message_id {
                inboxes.resolve_required_reply_logical_any_source(
                    message.session.user_id.as_str(),
                    id.as_str(),
                );
            }
        },
    }
}

/// The message as it is shown to whom sent it.
pub open spec fn shown_to_sender(message: OwnerMessage) -> ItemModel {
    ItemModel {
        message_id: message.message_id@,
        from: message.session.user_id@,
        to: message.session.agent_id@,
        content: message.content@,
        need_reply: message.need_reply,
        reply_status: plain_status(message.need_reply),
        reply_to_message_id: opt_text(message.reply_to_message_id),
    }
}

/// The message as it is shown to whom sent it.
pub fn owner_message_view(message: &OwnerMessage) -> (r: OfficeInboxMessage)
    ensures
        r@ == shown_to_sender(*message),
{
    OfficeInboxMessage {
        message_id: message.message_id.clone(),
        from: message.session.user_id.clone(),
        to: message.session.agent_id.clone(),
        content: message.content.clone(),
        need_reply: message.need_reply,
        reply_status: reply_status_from_need_reply(message.need_reply),
        reply_to_message_id: copy_opt(&message.reply_to_message_id),
    }
}

// ---------------------------------------------------------------------------
// The blackboard, and what an agent knows of itself
// ---------------------------------------------------------------------------

/// Whether a note was put on the blackboard, or refused.
pub open spec fn posts_note(
    r: Result<BlackboardNote, WebFailure>,
    was: BlackboardModel,
    m: BlackboardModel,
    request: BlackboardPostRequest,
    note_id: Seq<char>,
    now: Timestamp,
) -> bool {
    if blank(request.content@) {
        (r matches Err(f) && fails_with(f, 400, "content required"@)) && m == was
    } else {
        let n = NoteModel {
            id: note_id,
            author: request.author_id@,
            content: request.content@,
            created_at: now,
        };
        (r matches Ok(note) && note@ == n) && m == (BlackboardModel {
            notes: was.notes.push(n),
            ..was
        })
    }
}

/// Puts a note on the blackboard, if it says something.
pub fn post_note(
    store: &mut OfficeBlackboardStore,
    request: &BlackboardPostRequest,
    note_id: &str,
    now: Timestamp,
) -> (r: Result<BlackboardNote, WebFailure>)
    ensures
        final(store).place() == old(store).place(),
        posts_note(r, old(store)@, final(store)@, *request, note_id@, now),
{
    if is_blank(request.content.as_str()) {
        return Err(failure(400, "content required"));
    }
    Ok(
        store.add_note(note_id, request.author_id.as_str(), request.content.as_str(), now),
    )
}

/// Whether this is what an agent is told of its own situation.
pub open spec fn tells_context(
    r: Option<OfficeAgentContextSnapshot>,
    people: DirectoryModel,
    memory: Seq<char>,
    store: RuntimeModel,
    inboxes: Map<Seq<char>, InboxView>,
    blackboard: BlackboardModel,
    agent: Seq<char>,
) -> bool {
    if people.agents.contains_key(agent) {
        r matches Some(s) && s.agent_id@ == agent && s.owner_user_id@
            == people.agents[agent].owner_user_id@ && s.inbox_queued_count == inbox_of(
            inboxes,
            agent,
        ).messages.len() && s.blackboard@ == blackboard && match s.runtime {
            Some(record) => store.agents.contains_key(agent) && record@ == store.agents[agent],
            None => !store.agents.contains_key(agent),
        } && exists|p: crate::office::memory::AgentMemoryPaths| #[trigger]
            are_paths_of(p, memory, agent) && s.memory_identity_path@ == p.identity@
                && s.memory_path@ == p.memory@ && s.owner_profile_path@ == p.owner_profile@
                && s.peer_notes_path@ == p.peer_notes@
    } else {
        r is None
    }
}

/// What an agent is told of its own situation, if it has a profile.
pub fn agent_context_snapshot(
    directory: &PersistentPilotDirectory,
    memory: &AgentMemoryStore,
    store: &OfficeRuntimeStore,
    inboxes: &InboxRuntime,
    blackboard: &OfficeBlackboard,
    agent_id: &str,
) -> (r: Option<OfficeAgentContextSnapshot>)
    ensures
        tells_context(
            r,
            directory.people(),
            memory.place(),
            store@,
            inboxes@,
            blackboard@,
            agent_id@,
        ),
{
    let profile = match directory.agent_profile(agent_id) {
        Some(p) => p,
        None => {
            return None;
        },
    };
    let runtime = match store.get(agent_id) {
        Some(record) => Some(record.copy()),
        None => None,
    };
    let paths = memory.paths_for(agent_id);
    assert(are_paths_of(paths, memory.place(), agent_id@));
    Some(
        OfficeAgentContextSnapshot::new(
            agent_id,
            profile.owner_user_id.as_str(),
            runtime,
            inboxes.messages_for_logical(agent_id).len(),
            paths,
            blackboard.copy(),
        ),
    )
}

// ---------------------------------------------------------------------------
// Laws
// ---------------------------------------------------------------------------

/// A session is opened by its own token alone.
pub proof fn law_tokens_open_their_session(
    r: Result<PilotWebSession, WebFailure>,
    sessions: Map<Seq<char>, PilotWebSession>,
    token: Option<Seq<char>>,
)
    requires
        opens_session(r, sessions, token),
    ensures
        r is Ok <==> token is Some && sessions.contains_key(token->0),
        r is Ok ==> r->Ok_0 == sessions[token->0],
        r is Err ==> r->Err_0.status == 401,
{
}

/// Nobody is logged in but with the password of the account that is named; their
/// session is then open under the token, and belongs to that account. Other sessions
/// stay open, and no other is opened.
pub proof fn law_passwords_open_sessions(
    r: Result<PilotWebSession, WebFailure>,
    people: DirectoryModel,
    was: Map<Seq<char>, PilotWebSession>,
    sessions: Map<Seq<char>, PilotWebSession>,
    request: LoginRequest,
    token: Seq<char>,
    now: Timestamp,
    other: Seq<char>,
)
    requires
        logs_in(r, people, was, sessions, request, token, now),
    ensures
        other != token ==> sessions.contains_key(other) == was.contains_key(other) && (
        was.contains_key(other) ==> sessions[other] == was[other]),
        !people.accounts.contains_key(trim(request.username@)) ==> r is Err && r->Err_0.status == 401
            && sessions == was,
        people.accounts.contains_key(trim(request.username@)) ==> {
            let a = people.accounts[trim(request.username@)];
            &&& a.password@ != request.password@ ==> r is Err && r->Err_0.status == 401 && sessions
                == was
            &&& a.password@ == request.password@ ==> {
                &&& sessions.contains_key(token)
                &&& sessions[token].user_id == a.user_id
                &&& sessions[token].agent_id == a.agent_id
                &&& sessions[token].token@ == token
                &&& sessions[token].created_at == now
                &&& r is Ok ==> r->Ok_0 == sessions[token]
                &&& r is Err ==> r->Err_0.status == 500
            }
        },
{
}

/// An interview changes what the person who is logged in said, and nothing else: their
/// role, what they can do, what they are not to be disturbed with and how they like
/// reports, which has a default where it is blank.
pub proof fn law_interviews_are_taken_over(
    r: Result<HumanProfile, WebFailure>,
    was: DirectoryModel,
    people: DirectoryModel,
    user: Option<Seq<char>>,
    request: InterviewRequest,
    other: Seq<char>,
)
    requires
        takes_interview(r, was, people, user, request),
    ensures
        r is Ok <==> user is Some && was.people.contains_key(user->0),
        user is None ==> r->Err_0.status == 401,
        user is Some && r is Err ==> r->Err_0.status == 404,
        r is Err ==> people == was,
        people.accounts == was.accounts && people.agents == was.agents,
        user != Some(other) ==> people.people.contains_key(other) == was.people.contains_key(other)
            && people.people[other] == was.people[other],
        r is Ok ==> {
            let p = was.people[user->0];
            let q = people.people[user->0];
            &&& r->Ok_0@ == q
            &&& q.role == request.role@
            &&& q.capability_labels == texts(request.capabilities@)
            &&& q.do_not_disturb == texts(request.avoid@)
            &&& blank(request.report_preference@) ==> q.report_preference == "先结论后细节"@
            &&& !blank(request.report_preference@) ==> q.report_preference
                == request.report_preference@
            &&& q == (ProfileModel {
                role: q.role,
                capability_labels: q.capability_labels,
                do_not_disturb: q.do_not_disturb,
                report_preference: q.report_preference,
                ..p
            })
        },
{
}

/// A reflection is of the person who is logged in, bears the time and hands back what
/// it was given; nobody else's profile changes.
pub proof fn law_reflections_are_taken_over(
    r: Result<(DailyReflection, HumanProfile), WebFailure>,
    was: DirectoryModel,
    people: DirectoryModel,
    user: Option<Seq<char>>,
    profile_updates: Seq<String>,
    now: Timestamp,
    other: Seq<char>,
)
    requires
        takes_reflection(r, was, people, user, profile_updates, now),
    ensures
        r is Ok <==> user is Some && was.people.contains_key(user->0),
        user is None ==> r->Err_0.status == 401,
        user is Some && r is Err ==> r->Err_0.status == 404,
        r is Err ==> people == was,
        people.accounts == was.accounts && people.agents == was.agents,
        user != Some(other) ==> people.people[other] == was.people[other],
        r matches Ok((d, profile)) ==> {
            &&& d.user_id@ == user->0
            &&& d.reflected_at == now
            &&& d.profile_updates@ == profile_updates
            &&& profile@ == people.people[user->0]
            &&& profile@.last_reflection_at == Some(now)
        },
{
}

/// The profile of an owner is told to their own agent alone.
pub proof fn law_profiles_are_told_to_the_own_agent(
    r: Result<String, String>,
    people: DirectoryModel,
    session: PilotWebSession,
)
    requires
        tells_owner_profile(r, people, session),
    ensures
        r is Ok <==> people.people.contains_key(session.user_id@) && people.agents.contains_key(
            session.agent_id@,
        ) && people.agents[session.agent_id@].owner_user_id@ == session.user_id@,
        r matches Ok(text) ==> text@ == owner_profile_text(people.people[session.user_id@]),
{
}

/// A message of an owner is taken where it says something and comes from a session
/// that is open and fits together. It keeps the id it was given, or else gets the
/// fresh one; it keeps its text without the white space around it, and the message
/// that it answers. It asks for a reply where it says so; a message from a page that
/// answers none asks for one too.
pub proof fn law_owner_messages_are_taken_as_sent(
    r: Result<OwnerMessage, WebFailure>,
    people: DirectoryModel,
    sessions: Map<Seq<char>, PilotWebSession>,
    token: Option<Seq<char>>,
    request: OwnerMessageRequest,
    json: bool,
    fresh_id: Seq<char>,
)
    requires
        takes_message(r, people, sessions, token, request, json, fresh_id),
    ensures
        token is None ==> r is Err && r->Err_0.status == 401,
        token is Some && blank(request.content@) ==> r is Err && r->Err_0.status == 400,
        token is Some && !blank(request.content@) && !sessions.contains_key(token->0) ==> r is Err
            && r->Err_0.status == 401,
        r matches Ok(m) ==> {
            &&& m.session == sessions[token->0]
            &&& m.content@ == trim(request.content@)
            &&& match request.message_id {
                Some(id) => m.message_id@ == (if blank(id@) {
                    fresh_id
                } else {
                    id@
                }),
                None => m.message_id@ == fresh_id,
            }
            &&& match request.reply_to_message_id {
                Some(id) => if blank(id@) {
                    m.reply_to_message_id is None
                } else {
                    m.reply_to_message_id is Some && m.reply_to_message_id->0@ == id@
                },
                None => m.reply_to_message_id is None,
            }
            &&& request.need_reply ==> m.need_reply
            &&& json ==> m.need_reply == request.need_reply
            &&& !json && m.reply_to_message_id is None ==> m.need_reply
            &&& !json && m.reply_to_message_id is Some ==> m.need_reply == request.need_reply
        },
{
}

/// What a message gives away of a person is noted with that person alone.
pub proof fn law_messages_tell_of_their_sender(
    r: Result<Vec<UserProfileFact>, WebFailure>,
    was: DirectoryModel,
    people: DirectoryModel,
    message: OwnerMessage,
    now: Timestamp,
    other: Seq<char>,
)
    requires
        learns_from(r, was, people, message, now),
    ensures
        r is Ok <==> was.people.contains_key(message.session.user_id@),
        r is Err ==> people == was && r->Err_0.status == 404,
        people.accounts == was.accounts && people.agents == was.agents,
        other != message.session.user_id@ ==> people.people[other] == was.people[other],
{
}

/// A message reaches the agent of its session with all that it says. One that asks for
/// a reply is noted and is what the answer is to name; another leaves the store as it
/// is, and the answer is to name a message that is open, if there is one.
pub proof fn law_messages_are_handed_over_whole(
    r: OfficeOwnerDelivery,
    was: RuntimeModel,
    m: RuntimeModel,
    message: OwnerMessage,
    now: Timestamp,
)
    requires
        notes_message(r, was, m, message, now),
    ensures
        r.agent_id@ == message.session.agent_id@,
        r.owner_user_id@ == message.session.user_id@,
        r.message_id@ == message.message_id@,
        r.content@ == message.content@,
        r.need_reply == message.need_reply,
        opt_text(r.reply_to_message_id) == opt_text(message.reply_to_message_id),
        message.need_reply ==> crate::office::runtime::is_queued(
            m,
            message.session.agent_id@,
            message.message_id@,
        ) && opt_text(r.owner_reply_target_message_id) == Some(message.message_id@),
        !message.need_reply ==> m == was,
        !message.need_reply && r.owner_reply_target_message_id is None
            ==> !crate::office::runtime::has_open_message(was, message.session.agent_id@),
{
}

/// What a message answers is owed no more, and what else is owed stays so. The
/// message lies last in the inbox of the thread, if there is one, with all that it
/// says; nobody else gets it.
pub proof fn law_answers_of_owners_are_settled(
    was: Map<Seq<char>, InboxView>,
    m: Map<Seq<char>, InboxView>,
    message: OwnerMessage,
    thread: Option<ThreadId>,
    x: Seq<char>,
    y: Seq<char>,
)
    requires
        settles(was, m, message, thread),
    ensures
        message.reply_to_message_id matches Some(id) ==> has_obligation(
            was,
            message.session.user_id@,
            id@,
        ) ==> has_obligation(m, message.session.user_id@, id@) && obligation(
            m,
            message.session.user_id@,
            id@,
        ).resolved,
        (x != message.session.user_id@ || message.reply_to_message_id is None
            || message.reply_to_message_id->0@ != y) ==> has_obligation(m, x, y) == has_obligation(
            was,
            x,
            y,
        ) && (has_obligation(was, x, y) ==> obligation(m, x, y) == obligation(was, x, y)),
        thread is None || thread_text(thread->0) != x ==> inbox_of(m, x).messages == inbox_of(
            was,
            x,
        ).messages,
        thread matches Some(t) ==> {
            let got = inbox_of(m, thread_text(t)).messages;
            &&& got.len() > 0
            &&& got.last().message_id@ == message.message_id@
            &&& got.last().sender_agent_name@ == message.session.user_id@
            &&& got.last().content@ == message.content@
            &&& !got.last().need_reply
        },
{
}

/// A note says what was posted, by whom and when, and lies behind all others; one that
/// says nothing is refused.
pub proof fn law_notes_are_posted(
    r: Result<BlackboardNote, WebFailure>,
    was: BlackboardModel,
    m: BlackboardModel,
    request: BlackboardPostRequest,
    note_id: Seq<char>,
    now: Timestamp,
)
    requires
        posts_note(r, was, m, request, note_id, now),
    ensures
        r is Err <==> blank(request.content@),
        r is Err ==> m == was && r->Err_0.status == 400,
        r matches Ok(note) ==> {
            &&& m.notes.len() == was.notes.len() + 1
            &&& m.notes.drop_last() == was.notes
            &&& m.notes.last() == note@
            &&& note@.content == request.content@
            &&& note@.author == request.author_id@
            &&& note@.id == note_id
            &&& note@.created_at == now
        },
{
    if r is Ok {
        assert(m.notes.drop_last() =~= was.notes);
    }
}

/// An agent with a profile is told of itself: its owner, how many messages wait, where
/// its memory lies, what is on the blackboard, and its record if there is one.
pub proof fn law_agents_are_told_of_themselves(
    r: Option<OfficeAgentContextSnapshot>,
    people: DirectoryModel,
    memory: Seq<char>,
    store: RuntimeModel,
    inboxes: Map<Seq<char>, InboxView>,
    blackboard: BlackboardModel,
    agent: Seq<char>,
)
    requires
        tells_context(r, people, memory, store, inboxes, blackboard, agent),
    ensures
        r is Some <==> people.agents.contains_key(agent),
        r matches Some(s) ==> {
            let base = crate::paths::path_join(
                crate::paths::path_join(memory, "agents"@),
                agent,
            );
            &&& s.agent_id@ == agent
            &&& s.owner_user_id@ == people.agents[agent].owner_user_id@
            &&& s.inbox_queued_count == inbox_of(inboxes, agent).messages.len()
            &&& s.blackboard@ == blackboard
            &&& s.runtime is Some <==> store.agents.contains_key(agent)
            &&& s.runtime matches Some(record) ==> record@ == store.agents[agent]
            &&& s.memory_identity_path@ == crate::paths::path_join(base, "identity.md"@)
            &&& s.memory_path@ == crate::paths::path_join(base, "memory.md"@)
            &&& s.owner_profile_path@ == crate::paths::path_join(base, "owner_profile.md"@)
            &&& s.peer_notes_path@ == crate::paths::path_join(base, "peer_notes.md"@)
        },
{
}

/// Whoever logs out ends their own session, and no other.
pub proof fn law_logging_out_ends_the_session(
    r: bool,
    was: Map<Seq<char>, PilotWebSession>,
    sessions: Map<Seq<char>, PilotWebSession>,
    token: Option<Seq<char>>,
    other: Seq<char>,
)
    requires
        logs_out(r, was, sessions, token),
    ensures
        r <==> token is Some && was.contains_key(token->0),
        token is Some ==> !sessions.contains_key(token->0),
        token != Some(other) ==> sessions.contains_key(other) == was.contains_key(other) && (
        was.contains_key(other) ==> sessions[other] == was[other]),
{
}

/// A message of an owner lies last in the inbox of their agent, with all that it says;
/// nobody else gets it.
pub proof fn law_owner_messages_reach_their_agent(
    seq: u64,
    was: Map<Seq<char>, InboxView>,
    m: Map<Seq<char>, InboxView>,
    message: OwnerMessage,
    other: Seq<char>,
)
    requires
        queues_message(seq, was, m, message),
    ensures
        ({
            let got = inbox_of(m, message.session.agent_id@).messages;
            &&& got.len() > 0
            &&& got.last().seq == seq
            &&& got.last().sender_agent_name@ == message.session.user_id@
            &&& got.last().message_id@ == message.message_id@
            &&& got.last().content@ == message.content@
            &&& got.last().need_reply == message.need_reply
            &&& opt_text(got.last().reply_to_message_id) == opt_text(message.reply_to_message_id)
        }),
        other != message.session.agent_id@ ==> inbox_of(m, other) == inbox_of(was, other),
{
}

/// Whoever sent a message is shown it as it went out.
pub proof fn law_senders_are_shown_their_message(message: OwnerMessage)
    ensures
        ({
            let v = shown_to_sender(message);
            &&& v.message_id == message.message_id@
            &&& v.from == message.session.user_id@
            &&& v.to == message.session.agent_id@
            &&& v.content == message.content@
            &&& v.need_reply == message.need_reply
            &&& message.need_reply ==> v.reply_status
                == crate::office::web::OfficeInboxReplyStatus::Pending
            &&& !message.need_reply ==> v.reply_status
                == crate::office::web::OfficeInboxReplyStatus::NotRequired
            &&& v.reply_to_message_id == opt_text(message.reply_to_message_id)
        }),
{
}

/// Whoever cannot be shown their office is told so, and nothing is noted.
pub proof fn law_nothing_is_shown_without_a_profile(
    r: Result<OfficeMeResponse, WebFailure>,
    d: DirectoryModel,
    was: RuntimeModel,
    m: RuntimeModel,
    inboxes: Map<Seq<char>, InboxView>,
    s: PilotWebSession,
    now: Timestamp,
)
    requires
        shows(r, d, was, m, inboxes, s, now),
    ensures
        !d.people.contains_key(s.user_id@) || !d.agents.contains_key(s.agent_id@) ==> r is Err,
        d.agents.contains_key(s.agent_id@) && d.agents[s.agent_id@].owner_user_id@ != s.user_id@
            ==> r is Err,
        r matches Err(f) ==> f.status == 500 && m == was,
        r matches Ok(me) ==> me.user_id@ == s.user_id@ && me.agent_id@ == s.agent_id@,
{
}

} // verus!
