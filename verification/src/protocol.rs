//! Plain values shared by the tools: what agents are called, how they stand,
//! where a session comes from, and what a tool call takes and gives.
use crate::ids::ThreadId;
use crate::text::{opt_text, same_text};
use vstd::prelude::*;

verus! {

/// The name of the root agent of a session.
pub const PRIMARY_AGENT_NAME: &'static str = "wmj-assistant";

/// Why a tool call failed: something the model is told, or the end of the turn.
#[derive(Debug, Clone, PartialEq, Eq)]
pub enum FunctionCallError {
    RespondToModel(String),
    Fatal(String),
}

/// Whether the error tells the model `message`.
pub open spec fn tells_model(e: FunctionCallError, message: Seq<char>) -> bool {
    e matches FunctionCallError::RespondToModel(m) && m@ == message
}

impl FunctionCallError {
    /// An error that tells the model `message`.
    pub fn respond(message: &str) -> (r: FunctionCallError)
        ensures
            tells_model(r, message@),
    {
        FunctionCallError::RespondToModel(message.to_string())
    }

    /// The text of the error.
    pub fn message(&self) -> (r: String)
        ensures
            r@ == (match *self {
                FunctionCallError::RespondToModel(m) => m@,
                FunctionCallError::Fatal(m) => "Fatal error: "@ + m@,
            }),
    {
        match self {
            FunctionCallError::RespondToModel(m) => m.clone(),
            FunctionCallError::Fatal(m) => {
                let mut out = "Fatal error: ".to_string();
                out.append(m.as_str());
                out
            },
        }
    }
}

/// How an agent stands.
#[derive(Debug, Clone, PartialEq, Eq)]
pub enum AgentStatus {
    PendingInit,
    Running,
    Interrupted,
    Completed(Option<String>),
    Errored(String),
    Shutdown,
    NotFound,
}

/// What a spawned agent is for.
#[derive(Debug, Clone, Copy, PartialEq, Eq, Structural)]
pub enum SpawnedAgentType {
    Worker,
    Explorer,
    Verifier,
}

/// How a sub-agent came to be.
#[derive(Debug, Clone, PartialEq, Eq)]
pub enum SubAgentSource {
    Review,
    ThreadSpawn {
        parent_thread_id: ThreadId,
        depth: i32,
        agent_type: Option<SpawnedAgentType>,
        agent_name_hint: Option<String>,
    },
    Other(String),
}

/// Where a session comes from.
#[derive(Debug, Clone, PartialEq, Eq)]
pub enum SessionSource {
    Cli,
    Exec,
    SubAgent(SubAgentSource),
    Other(String),
}

/// The sandbox permissions a shell call asks for.
#[derive(Debug, Clone, Copy, PartialEq, Eq, Structural)]
pub enum SandboxPermissions {
    UseDefault,
    RequireEscalated,
}

/// The parameters of a local shell call.
#[derive(Debug, Clone, PartialEq, Eq)]
pub struct ShellParams {
    pub command: Vec<String>,
    pub workdir: Option<String>,
    pub timeout_ms: Option<u64>,
    pub sandbox_permissions: Option<SandboxPermissions>,
    pub prefix_rule: Option<Vec<String>>,
    pub justification: Option<String>,
}

/// What a tool is called with.
#[derive(Debug, Clone, PartialEq, Eq)]
pub enum ToolPayload {
    Function { arguments: String },
    Custom { input: String },
    LocalShell { params: ShellParams },
    Mcp { server: String, tool: String, raw_arguments: String },
}

/// What a function tool gives back.
#[derive(Debug, Clone, PartialEq, Eq)]
pub struct FunctionOutput {
    pub text: String,
    pub success: Option<bool>,
}

/// The names under which the agents of a session are known.
#[derive(Debug, Clone)]
pub struct AgentNames {
    /// Threads and their names; the first entry for a thread or a name counts.
    pub entries: Vec<(ThreadId, String)>,
    /// What an agent without a name is called.
    pub unnamed: String,
}

pub open spec fn first_named(e: Seq<(ThreadId, String)>, name: Seq<char>) -> Option<ThreadId>
    decreases e.len(),
{
    if e.len() == 0 {
        None
    } else if e[0].1@ == name {
        Some(e[0].0)
    } else {
        first_named(e.skip(1), name)
    }
}

pub open spec fn first_name(e: Seq<(ThreadId, String)>, thread: ThreadId) -> Option<Seq<char>>
    decreases e.len(),
{
    if e.len() == 0 {
        None
    } else if e[0].0 == thread {
        Some(e[0].1@)
    } else {
        first_name(e.skip(1), thread)
    }
}

impl AgentNames {
    /// The thread with this name.
    pub open spec fn thread_of(self, name: Seq<char>) -> Option<ThreadId> {
        first_named(self.entries@, name)
    }

    /// The name of this thread.
    pub open spec fn name_of(self, thread: ThreadId) -> Option<Seq<char>> {
        first_name(self.entries@, thread)
    }

    /// The name of this thread, or what an agent without a name is called.
    pub open spec fn called(self, thread: ThreadId) -> Seq<char> {
        match self.name_of(thread) {
            Some(name) => name,
            None => self.unnamed@,
        }
    }

    /// The thread with this name.
    pub fn thread_id_for_agent_name(&self, name: &str) -> (r: Option<ThreadId>)
        ensures
            r == self.thread_of(name@),
    {
        let n: usize = self.entries.len();
        let mut i: usize = 0;
        assert(self.entries@.skip(0) =~= self.entries@);
        while i < n
            invariant
                n == self.entries@.len(),
                i <= n,
                first_named(self.entries@, name@) == first_named(
                    self.entries@.skip(i as int),
                    name@,
                ),
            decreases n - i,
        {
            assert(self.entries@.skip(i as int).skip(1) =~= self.entries@.skip(i + 1));
            if same_text(self.entries[i].1.as_str(), name) {
                return Some(self.entries[i].0);
            }
            i = i + 1;
        }
        None
    }

    /// The name of this thread.
    pub fn agent_name_for_thread(&self, thread: ThreadId) -> (r: Option<String>)
        ensures
            opt_text(r) == self.name_of(thread),
    {
        let n: usize = self.entries.len();
        let mut i: usize = 0;
        assert(self.entries@.skip(0) =~= self.entries@);
        while i < n
            invariant
                n == self.entries@.len(),
                i <= n,
                first_name(self.entries@, thread) == first_name(
                    self.entries@.skip(i as int),
                    thread,
                ),
            decreases n - i,
        {
            assert(self.entries@.skip(i as int).skip(1) =~= self.entries@.skip(i + 1));
            if self.entries[i].0 == thread {
                return Some(self.entries[i].1.clone());
            }
            i = i + 1;
        }
        None
    }

    /// The name of this thread, or what an agent without a name is called.
    pub fn name_or_unnamed(&self, thread: ThreadId) -> (r: String)
        ensures
            r@ == self.called(thread),
    {
        match self.agent_name_for_thread(thread) {
            Some(name) => name,
            None => self.unnamed.clone(),
        }
    }
}

/// A name is that of the first agent that has it, and an agent goes by the first name
/// it has.
pub proof fn law_first_names_count(e: Seq<(ThreadId, String)>, name: Seq<char>, thread: ThreadId)
    ensures
        match first_named(e, name) {
            Some(t) => exists|i: int|
                0 <= i < e.len() && (#[trigger] e[i]).1@ == name && e[i].0 == t && forall|j: int|
                    0 <= j < i ==> (#[trigger] e[j]).1@ != name,
            None => forall|i: int| 0 <= i < e.len() ==> (#[trigger] e[i]).1@ != name,
        },
        match first_name(e, thread) {
            Some(n) => exists|i: int|
                0 <= i < e.len() && (#[trigger] e[i]).0 == thread && e[i].1@ == n && forall|j: int|
                    0 <= j < i ==> (#[trigger] e[j]).0 != thread,
            None => forall|i: int| 0 <= i < e.len() ==> (#[trigger] e[i]).0 != thread,
        },
    decreases e.len(),
{
    if e.len() > 0 {
        let t = e.skip(1);
        law_first_names_count(t, name, thread);
        assert forall|i: int| 0 <= i < t.len() implies #[trigger] t[i] == e[i + 1] by {}
        assert forall|i: int| 1 <= i < e.len() implies #[trigger] e[i] == t[i - 1] by {}
        if e[0].1@ == name {
            assert(e[0].0 == first_named(e, name)->0);
        } else if first_named(e, name) is Some {
            let i = choose|i: int|
                0 <= i < t.len() && (#[trigger] t[i]).1@ == name && t[i].0 == first_named(t, name)->0
                    && forall|j: int| 0 <= j < i ==> (#[trigger] t[j]).1@ != name;
            assert(e[i + 1].1@ == name);
            assert forall|j: int| 0 <= j < i + 1 implies (#[trigger] e[j]).1@ != name by {
                if j > 0 {
                    assert(t[j - 1].1@ != name);
                }
            }
        }
        if e[0].0 == thread {
            assert(e[0].1@ == first_name(e, thread)->0);
        } else if first_name(e, thread) is Some {
            let i = choose|i: int|
                0 <= i < t.len() && (#[trigger] t[i]).0 == thread && t[i].1@ == first_name(
                    t,
                    thread,
                )->0 && forall|j: int| 0 <= j < i ==> (#[trigger] t[j]).0 != thread;
            assert(e[i + 1].0 == thread);
            assert forall|j: int| 0 <= j < i + 1 implies (#[trigger] e[j]).0 != thread by {
                if j > 0 {
                    assert(t[j - 1].0 != thread);
                }
            }
        }
    }
}

} // verus!
