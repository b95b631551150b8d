//! What the pilot directory is kept as, with the sessions of its web users.
use crate::office::pilot::{
    active_binding, bindings_follow_profiles, interviews, is_account_of, is_login, learns,
    profile_models, reflects, seed_people, seeded_with, AgentOwnerBinding, AgentProfile,
    DailyReflection, DirectoryModel, HumanProfile, PilotAccount, PilotDirectory, PilotSession,
    ProfileModel, UserProfileFact,
};
use crate::table::{copy_table, Copied, Table};
use crate::text::{clone_texts, texts};
use crate::time::Timestamp;
use vstd::prelude::*;

verus! {

#[derive(Clone, Debug, Eq, PartialEq)]
pub struct PilotWebSession {
    pub token: String,
    pub user_id: String,
    pub agent_id: String,
    pub created_at: Timestamp,
}

/// What is written to and read from the pilot store.
#[derive(Clone, Debug)]
pub struct PilotStoreSnapshot {
    pub accounts: Table<PilotAccount>,
    pub human_profiles: Table<HumanProfile>,
    pub agent_profiles: Table<AgentProfile>,
    pub agent_owner_bindings: Table<AgentOwnerBinding>,
    pub web_sessions: Table<PilotWebSession>,
}

/// The directory and the sessions of its web users, kept in a store.
#[derive(Clone, Debug)]
pub struct PersistentPilotDirectory {
    path: String,
    directory: PilotDirectory,
    web_sessions: Table<PilotWebSession>,
}

/// An agent profile, by content.
#[verifier::ext_equal]
pub struct AgentModel {
    pub agent_id: Seq<char>,
    pub owner_user_id: Seq<char>,
    pub allowed_tools: Seq<Seq<char>>,
}

pub open spec fn agent_model(a: AgentProfile) -> AgentModel {
    AgentModel {
        agent_id: a.agent_id@,
        owner_user_id: a.owner_user_id@,
        allowed_tools: texts(a.allowed_tools@),
    }
}

pub open spec fn agent_models(m: Map<Seq<char>, AgentProfile>) -> Map<Seq<char>, AgentModel> {
    m.map_values(|a: AgentProfile| agent_model(a))
}

/// The content of a snapshot.
#[verifier::ext_equal]
pub struct StoreModel {
    pub accounts: Map<Seq<char>, PilotAccount>,
    pub people: Map<Seq<char>, ProfileModel>,
    pub agents: Map<Seq<char>, AgentModel>,
    pub bindings: Map<Seq<char>, AgentOwnerBinding>,
    pub sessions: Map<Seq<char>, PilotWebSession>,
}

impl View for PilotStoreSnapshot {
    type V = StoreModel;

    open spec fn view(&self) -> StoreModel {
        StoreModel {
            accounts: self.accounts@,
            people: profile_models(self.human_profiles),
            agents: agent_models(self.agent_profiles@),
            bindings: self.agent_owner_bindings@,
            sessions: self.web_sessions@,
        }
    }
}

pub open spec fn store_model(
    d: DirectoryModel,
    sessions: Map<Seq<char>, PilotWebSession>,
) -> StoreModel {
    StoreModel {
        accounts: d.accounts,
        people: d.people,
        agents: agent_models(d.agents),
        bindings: d.bindings,
        sessions,
    }
}

/// Whether a directory and its sessions are those that a snapshot holds.
pub open spec fn holds(
    d: DirectoryModel,
    sessions: Map<Seq<char>, PilotWebSession>,
    s: StoreModel,
) -> bool {
    &&& d.accounts == s.accounts
    &&& d.people == s.people
    &&& agent_models(d.agents) == s.agents
    &&& if s.bindings.dom().len() == 0 {
        bindings_follow_profiles(d.bindings, d.agents)
    } else {
        d.bindings == s.bindings
    }
    &&& sessions == s.sessions
}

/// Whether a session was opened under a token.
pub open spec fn opens(
    r: PilotWebSession,
    was: Map<Seq<char>, PilotWebSession>,
    sessions: Map<Seq<char>, PilotWebSession>,
    token: Seq<char>,
    session: PilotSession,
    created_at: Timestamp,
) -> bool {
    &&& r.token@ == token
    &&& r.user_id == session.user_id
    &&& r.agent_id == session.agent_id
    &&& r.created_at == created_at
    &&& sessions == was.insert(token, r)
}

impl PilotAccount {
    pub fn copy(&self) -> (r: PilotAccount)
        ensures
            r == *self,
    {
        PilotAccount {
            user_id: self.user_id.clone(),
            username: self.username.clone(),
            password: self.password.clone(),
            agent_id: self.agent_id.clone(),
        }
    }
}

impl AgentProfile {
    pub fn copy(&self) -> (r: AgentProfile)
        ensures
            agent_model(r) == agent_model(*self),
    {
        AgentProfile {
            agent_id: self.agent_id.clone(),
            owner_user_id: self.owner_user_id.clone(),
            allowed_tools: clone_texts(&self.allowed_tools),
        }
    }
}

impl AgentOwnerBinding {
    pub fn copy(&self) -> (r: AgentOwnerBinding)
        ensures
            r == *self,
    {
        AgentOwnerBinding {
            agent_id: self.agent_id.clone(),
            owner_user_id: self.owner_user_id.clone(),
            binding_type: self.binding_type,
            status: self.status,
            version: self.version,
        }
    }
}

impl PilotWebSession {
    pub fn copy(&self) -> (r: PilotWebSession)
        ensures
            r == *self,
    {
        PilotWebSession {
            token: self.token.clone(),
            user_id: self.user_id.clone(),
            agent_id: self.agent_id.clone(),
            created_at: self.created_at,
        }
    }
}

impl Copied for PilotAccount {
    type Model = PilotAccount;

    open spec fn model(&self) -> PilotAccount {
        *self
    }

    fn duplicate(&self) -> (r: PilotAccount) {
        self.copy()
    }
}

impl Copied for HumanProfile {
    type Model = ProfileModel;

    open spec fn model(&self) -> ProfileModel {
        self@
    }

    fn duplicate(&self) -> (r: HumanProfile) {
        self.copy()
    }
}

impl Copied for AgentProfile {
    type Model = AgentModel;

    open spec fn model(&self) -> AgentModel {
        agent_model(*self)
    }

    fn duplicate(&self) -> (r: AgentProfile) {
        self.copy()
    }
}

impl Copied for AgentOwnerBinding {
    type Model = AgentOwnerBinding;

    open spec fn model(&self) -> AgentOwnerBinding {
        *self
    }

    fn duplicate(&self) -> (r: AgentOwnerBinding) {
        self.copy()
    }
}

impl Copied for PilotWebSession {
    type Model = PilotWebSession;

    open spec fn model(&self) -> PilotWebSession {
        *self
    }

    fn duplicate(&self) -> (r: PilotWebSession) {
        self.copy()
    }
}

fn snapshot_of(directory: &PilotDirectory, web_sessions: &Table<PilotWebSession>) -> (r:
    PilotStoreSnapshot)
    ensures
        r@ == store_model(directory@, web_sessions@),
{
    let r = PilotStoreSnapshot {
        accounts: copy_table(directory.accounts()),
        human_profiles: copy_table(directory.human_profiles()),
        agent_profiles: copy_table(directory.agent_profiles()),
        agent_owner_bindings: copy_table(directory.agent_owner_bindings()),
        web_sessions: copy_table(web_sessions),
    };
    proof {
        let m = store_model(directory@, web_sessions@);
        assert(r@.accounts =~= m.accounts);
        assert forall|k: Seq<char>| directory@.people.contains_key(k) implies #[trigger] r@.people[k]
            == directory@.people[k] by {}
        assert(r@.people =~= m.people);
        assert(r@.agents =~= m.agents);
        assert(r@.bindings =~= m.bindings);
        assert(r@.sessions =~= m.sessions);
    }
    r
}

impl PilotStoreSnapshot {
    /// The store the pilot starts with.
    pub fn seeded() -> (r: PilotStoreSnapshot)
        ensures
            exists|d: DirectoryModel| #[trigger]
                seeded_with(d, seed_people()) && r@ == store_model(d, Map::empty()),
    {
        let directory = PilotDirectory::six_person_seed();
        let sessions: Table<PilotWebSession> = Table::new();
        let r = snapshot_of(&directory, &sessions);
        assert(seeded_with(directory@, seed_people()) && r@ == store_model(
            directory@,
            Map::empty(),
        ));
        r
    }

    /// The directory a snapshot holds.
    pub fn into_directory(self) -> (r: PilotDirectory)
        ensures
            r@.accounts == self@.accounts,
            r@.people == self@.people,
            agent_models(r@.agents) == self@.agents,
            if self@.bindings.dom().len() == 0 {
                bindings_follow_profiles(r@.bindings, r@.agents)
            } else {
                r@.bindings == self@.bindings
            },
    {
        PilotDirectory::from_parts(
            self.accounts,
            self.human_profiles,
            self.agent_profiles,
            self.agent_owner_bindings,
        )
    }
}

impl PersistentPilotDirectory {
    pub closed spec fn people(&self) -> DirectoryModel {
        self.directory@
    }

    pub closed spec fn sessions(&self) -> Map<Seq<char>, PilotWebSession> {
        self.web_sessions@
    }

    pub closed spec fn place(&self) -> Seq<char> {
        self.path@
    }

    /// A store at `path` that holds what the pilot starts with.
    pub fn seeded(path: String) -> (r: PersistentPilotDirectory)
        ensures
            r.place() == path@,
            seeded_with(r.people(), seed_people()),
            r.sessions() == Map::<Seq<char>, PilotWebSession>::empty(),
    {
        PersistentPilotDirectory {
            path,
            directory: PilotDirectory::six_person_seed(),
            web_sessions: Table::new(),
        }
    }

    /// The store at `path` that a snapshot was read from.
    pub fn from_snapshot(path: String, snapshot: PilotStoreSnapshot) -> (r:
        PersistentPilotDirectory)
        ensures
            r.place() == path@,
            holds(r.people(), r.sessions(), snapshot@),
    {
        let PilotStoreSnapshot {
            accounts,
            human_profiles,
            agent_profiles,
            agent_owner_bindings,
            web_sessions,
        } = snapshot;
        PersistentPilotDirectory {
            path,
            directory: PilotDirectory::from_parts(
                accounts,
                human_profiles,
                agent_profiles,
                agent_owner_bindings,
            ),
            web_sessions,
        }
    }

    pub fn path(&self) -> (r: &str)
        ensures
            r@ == self.place(),
    {
        self.path.as_str()
    }

    pub fn directory(&self) -> (r: &PilotDirectory)
        ensures
            r@ == self.people(),
    {
        &self.directory
    }

    /// The directory, for changing it.
    pub fn directory_mut(&mut self) -> (r: &mut PilotDirectory)
        ensures
            r@ == old(self).people(),
            final(self).people() == final(r)@,
            final(self).sessions() == old(self).sessions(),
            final(self).place() == old(self).place(),
    {
        &mut self.directory
    }

    /// Opens a session of a web user under a token.
    pub fn create_web_session(
        &mut self,
        token: String,
        session: PilotSession,
        created_at: Timestamp,
    ) -> (r: PilotWebSession)
        ensures
            opens(
                r,
                old(self).sessions(),
                final(self).sessions(),
                token@,
                session,
                created_at,
            ),
            final(self).people() == old(self).people(),
            final(self).place() == old(self).place(),
    {
        let web_session = PilotWebSession {
            token: token.clone(),
            user_id: session.user_id,
            agent_id: session.agent_id,
            created_at,
        };
        let r = web_session.copy();
        self.web_sessions.insert(token, web_session);
        r
    }

    pub fn web_session(&self, token: &str) -> (r: Option<&PilotWebSession>)
        ensures
            match r {
                Some(s) => self.sessions().contains_key(token@) && *s == self.sessions()[token@],
                None => !self.sessions().contains_key(token@),
            },
    {
        self.web_sessions.get(token)
    }

    /// Closes a session; says whether it was open.
    pub fn delete_web_session(&mut self, token: &str) -> (r: bool)
        ensures
            r == old(self).sessions().contains_key(token@),
            final(self).sessions() == old(self).sessions().remove(token@),
            final(self).people() == old(self).people(),
            final(self).place() == old(self).place(),
    {
        self.web_sessions.remove(token).is_some()
    }

    pub fn account_count(&self) -> (r: usize)
        ensures
            r == self.people().accounts.dom().len(),
    {
        self.directory.account_count()
    }

    /// The session of an account, for its user name and password.
    pub fn login(&self, username: &str, password: &str) -> (r: Option<PilotSession>)
        ensures
            is_login(r, self.people(), username@, password@),
    {
        self.directory.login(username, password)
    }

    /// An account of this user.
    pub fn account_for_user(&self, user_id: &str) -> (r: Option<&PilotAccount>)
        ensures
            match r {
                Some(a) => is_account_of(self.people(), user_id@, *a),
                None => forall|a: PilotAccount| !is_account_of(self.people(), user_id@, a),
            },
    {
        self.directory.account_for_user(user_id)
    }

    pub fn human_profile(&self, user_id: &str) -> (r: Option<&HumanProfile>)
        ensures
            match r {
                Some(p) => self.people().people.contains_key(user_id@) && p@
                    == self.people().people[user_id@],
                None => !self.people().people.contains_key(user_id@),
            },
    {
        self.directory.human_profile(user_id)
    }

    pub fn agent_profile(&self, agent_id: &str) -> (r: Option<&AgentProfile>)
        ensures
            match r {
                Some(p) => self.people().agents.contains_key(agent_id@) && *p
                    == self.people().agents[agent_id@],
                None => !self.people().agents.contains_key(agent_id@),
            },
    {
        self.directory.agent_profile(agent_id)
    }

    /// The binding of an agent to its owner, if it is in force.
    pub fn active_owner_binding(&self, agent_id: &str) -> (r: Option<&AgentOwnerBinding>)
        ensures
            match r {
                Some(b) => active_binding(self.people(), agent_id@) == Some(*b),
                None => active_binding(self.people(), agent_id@) is None,
            },
    {
        self.directory.active_owner_binding(agent_id)
    }

    /// Replaces what a person said of themselves in an interview.
    pub fn run_mini_interview(
        &mut self,
        user_id: &str,
        role: String,
        capabilities: Vec<String>,
        avoid: Vec<String>,
        report_preference: String,
    ) -> (r: Option<HumanProfile>)
        ensures
            final(self).sessions() == old(self).sessions(),
            final(self).place() == old(self).place(),
            interviews(
                r,
                old(self).people(),
                final(self).people(),
                user_id@,
                role@,
                texts(capabilities@),
                texts(avoid@),
                report_preference@,
            ),
    {
        self.directory.run_mini_interview(user_id, role, capabilities, avoid, report_preference)
    }

    /// Admits what a person's day gave to their profile.
    pub fn daily_reflection(
        &mut self,
        user_id: &str,
        profile_updates: Vec<String>,
        reflected_at: Timestamp,
    ) -> (r: Option<DailyReflection>)
        ensures
            final(self).sessions() == old(self).sessions(),
            final(self).place() == old(self).place(),
            reflects(
                r,
                old(self).people(),
                final(self).people(),
                user_id@,
                profile_updates@,
                reflected_at,
            ),
    {
        self.directory.daily_reflection(user_id, profile_updates, reflected_at)
    }

    /// Learns of a person from a message they sent to their agent.
    pub fn record_owner_message_profile_evidence(
        &mut self,
        user_id: &str,
        agent_id: &str,
        message_id: &str,
        content: &str,
        observed_at: Timestamp,
    ) -> (r: Option<Vec<UserProfileFact>>)
        ensures
            final(self).sessions() == old(self).sessions(),
            final(self).place() == old(self).place(),
            learns(
                r,
                old(self).people(),
                final(self).people(),
                user_id@,
                agent_id@,
                message_id@,
                content@,
                observed_at,
            ),
    {
        self.directory.record_owner_message_profile_evidence(
            user_id,
            agent_id,
            message_id,
            content,
            observed_at,
        )
    }

    /// What is to be written to the store.
    pub fn snapshot(&self) -> (r: PilotStoreSnapshot)
        ensures
            r@ == store_model(self.people(), self.sessions()),
    {
        snapshot_of(&self.directory, &self.web_sessions)
    }
}

// ---------------------------------------------------------------------------
// Laws
// ---------------------------------------------------------------------------

/// What is written and read back is what was there, as long as some agent is
/// bound to an owner; where none is, reading binds the owners that the agents'
/// profiles name.
pub proof fn law_store_round_trip(
    d: DirectoryModel,
    sessions: Map<Seq<char>, PilotWebSession>,
    read: DirectoryModel,
    read_sessions: Map<Seq<char>, PilotWebSession>,
)
    requires
        d.bindings.dom().finite(),
        d.bindings.dom().len() > 0,
        read.accounts == store_model(d, sessions).accounts,
        read.people == store_model(d, sessions).people,
        agent_models(read.agents) == store_model(d, sessions).agents,
        if store_model(d, sessions).bindings.dom().len() == 0 {
            bindings_follow_profiles(read.bindings, read.agents)
        } else {
            read.bindings == store_model(d, sessions).bindings
        },
        read_sessions == store_model(d, sessions).sessions,
    ensures
        store_model(read, read_sessions) == store_model(d, sessions),
{
}

/// A token that was given out opens the session it was given out for, until it
/// is taken back.
pub proof fn law_session_lives_until_deleted(
    sessions: Map<Seq<char>, PilotWebSession>,
    token: Seq<char>,
    session: PilotWebSession,
    other: Seq<char>,
)
    ensures
        sessions.insert(token, session)[token] == session,
        !sessions.insert(token, session).remove(token).contains_key(token),
        other != token ==> sessions.insert(token, session).remove(token).contains_key(other)
            == sessions.contains_key(other),
{
}

/// A session belongs to whom it was opened for, from that time on; the others stay.
pub proof fn law_sessions_belong_to_their_user(
    r: PilotWebSession,
    was: Map<Seq<char>, PilotWebSession>,
    sessions: Map<Seq<char>, PilotWebSession>,
    token: Seq<char>,
    session: PilotSession,
    created_at: Timestamp,
    other: Seq<char>,
)
    requires
        opens(r, was, sessions, token, session, created_at),
    ensures
        sessions.contains_key(token) && sessions[token] == r,
        r.token@ == token && r.user_id@ == session.user_id@ && r.agent_id@ == session.agent_id@,
        r.created_at == created_at,
        other != token ==> sessions.contains_key(other) == was.contains_key(other) && (
        was.contains_key(other) ==> sessions[other] == was[other]),
{
}

/// What is read back is what was written; where nobody was bound, every agent is bound
/// to the owner that its profile names.
pub proof fn law_stores_are_read_as_written(
    d: DirectoryModel,
    sessions: Map<Seq<char>, PilotWebSession>,
    read: DirectoryModel,
    read_sessions: Map<Seq<char>, PilotWebSession>,
    agent: Seq<char>,
)
    requires
        holds(read, read_sessions, store_model(d, sessions)),
    ensures
        read.accounts == d.accounts,
        read.people == d.people,
        read_sessions == sessions,
        read.agents.dom() == d.agents.dom(),
        d.agents.contains_key(agent) ==> read.agents[agent].owner_user_id@
            == d.agents[agent].owner_user_id@ && read.agents[agent].agent_id@
            == d.agents[agent].agent_id@,
        d.bindings.dom().len() > 0 ==> read.bindings == d.bindings,
        d.bindings.dom().len() == 0 && d.agents.contains_key(agent) ==> read.bindings.contains_key(
            agent,
        ) && read.bindings[agent].owner_user_id@ == d.agents[agent].owner_user_id@,
{
    assert(agent_models(read.agents).dom() =~= read.agents.dom());
    assert(agent_models(d.agents).dom() =~= d.agents.dom());
    if d.agents.contains_key(agent) {
        assert(agent_models(read.agents)[agent] == agent_model(read.agents[agent]));
        assert(agent_models(d.agents)[agent] == agent_model(d.agents[agent]));
        if d.bindings.dom().len() == 0 {
            assert(read.bindings.dom().contains(agent));
        }
    }
}

} // verus!
