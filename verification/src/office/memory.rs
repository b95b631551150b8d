//! The files in which an agent's memory is kept.
use crate::paths::{join_paths, path_join};
use crate::text::{ends_with_text, ends, join, joined, opt_text, texts};
use crate::time::{ymd, Day};
use vstd::prelude::*;

verus! {

#[derive(Clone, Debug, Eq, PartialEq)]
pub struct AgentMemoryPaths {
    pub root: String,
    pub identity: String,
    pub memory: String,
    pub owner_profile: String,
    pub peer_notes: String,
    pub daily_reflections: String,
}

#[derive(Clone, Debug, Eq, PartialEq)]
pub struct AgentMemoryStore {
    root: String,
}

/// A file that is to be written, always or only where there is none.
#[derive(Clone, Debug, Eq, PartialEq)]
pub struct MemoryFile {
    pub path: String,
    pub content: String,
    pub keep_existing: bool,
}

#[verifier::ext_equal]
pub struct FileModel {
    pub path: Seq<char>,
    pub content: Seq<char>,
    pub keep_existing: bool,
}

impl View for MemoryFile {
    type V = FileModel;

    open spec fn view(&self) -> FileModel {
        FileModel {
            path: self.path@,
            content: self.content@,
            keep_existing: self.keep_existing,
        }
    }
}

pub open spec fn file_models(v: Seq<MemoryFile>) -> Seq<FileModel> {
    v.map_values(|f: MemoryFile| f@)
}

/// The directory of an agent's memory.
pub open spec fn agent_root(root: Seq<char>, agent: Seq<char>) -> Seq<char> {
    path_join(path_join(root, "agents"@), agent)
}

/// Whether the paths are those of an agent below `root`.
pub open spec fn are_paths_of(p: AgentMemoryPaths, root: Seq<char>, agent: Seq<char>) -> bool {
    let base = agent_root(root, agent);
    &&& p.root@ == base
    &&& p.identity@ == path_join(base, "identity.md"@)
    &&& p.memory@ == path_join(base, "memory.md"@)
    &&& p.owner_profile@ == path_join(base, "owner_profile.md"@)
    &&& p.peer_notes@ == path_join(base, "peer_notes.md"@)
    &&& p.daily_reflections@ == path_join(base, "daily_reflections"@)
}

/// The files of an agent: who it is, which is always written anew, and what it
/// remembers, which is written only where there is nothing yet.
pub open spec fn agent_files(root: Seq<char>, agent: Seq<char>, owner: Seq<char>) -> Seq<
    FileModel,
> {
    let base = agent_root(root, agent);
    seq![
        FileModel {
            path: path_join(base, "identity.md"@),
            content: "# Identity\n\nagent_id: "@ + agent + "\nowner_user_id: "@ + owner + "\n"@,
            keep_existing: false,
        },
        FileModel {
            path: path_join(base, "memory.md"@),
            content: "# Long-Term Memory\n\n"@,
            keep_existing: true,
        },
        FileModel {
            path: path_join(base, "owner_profile.md"@),
            content: "# Owner Profile\n\n"@,
            keep_existing: true,
        },
        FileModel {
            path: path_join(base, "peer_notes.md"@),
            content: "# Peer Notes\n\n"@,
            keep_existing: true,
        },
    ]
}

/// A text that ends in a line break.
pub open spec fn with_line_end(s: Seq<char>) -> Seq<char> {
    if ends(s, "\n"@) {
        s
    } else {
        s + "\n"@
    }
}

/// The files of an agent, and behind them its owner's profile with this text.
pub open spec fn profile_files(
    root: Seq<char>,
    agent: Seq<char>,
    owner: Seq<char>,
    content: Seq<char>,
) -> Seq<FileModel> {
    agent_files(root, agent, owner).push(
        FileModel {
            path: path_join(agent_root(root, agent), "owner_profile.md"@),
            content: with_line_end(content),
            keep_existing: false,
        },
    )
}

/// The files whose texts make up the memory that a prompt is given, in order.
pub open spec fn remembered_paths(root: Seq<char>, agent: Seq<char>) -> Seq<Seq<char>> {
    let base = agent_root(root, agent);
    seq![
        path_join(base, "identity.md"@),
        path_join(base, "owner_profile.md"@),
        path_join(base, "memory.md"@),
        path_join(base, "peer_notes.md"@),
    ]
}

/// The texts that are there.
pub open spec fn present(s: Seq<Option<String>>) -> Seq<Seq<char>>
    decreases s.len(),
{
    if s.len() == 0 {
        Seq::empty()
    } else {
        let head = present(s.drop_last());
        match s.last() {
            Some(t) => head.push(t@),
            None => head,
        }
    }
}

impl AgentMemoryPaths {
    pub fn new(root: &str, agent_id: &str) -> (r: AgentMemoryPaths)
        ensures
            are_paths_of(r, root@, agent_id@),
    {
        let base = join_paths(join_paths(root, "agents").as_str(), agent_id);
        AgentMemoryPaths {
            identity: join_paths(base.as_str(), "identity.md"),
            memory: join_paths(base.as_str(), "memory.md"),
            owner_profile: join_paths(base.as_str(), "owner_profile.md"),
            peer_notes: join_paths(base.as_str(), "peer_notes.md"),
            daily_reflections: join_paths(base.as_str(), "daily_reflections"),
            root: base,
        }
    }

    /// The file of a day's reflection, where there is such a day.
    pub fn daily_reflection(&self, date: &Day) -> (r: Option<String>)
        ensures
            match ymd(date.year, date.month, date.day) {
                Some(text) => opt_text(r) == Some(
                    path_join(self.daily_reflections@, text + ".md"@),
                ),
                None => r is None,
            },
    {
        match date.to_text() {
            Some(text) => {
                let mut name = text;
                name.append(".md");
                Some(join_paths(self.daily_reflections.as_str(), name.as_str()))
            },
            None => None,
        }
    }
}

/// A text that ends in a line break.
pub fn ensure_trailing_newline(content: &str) -> (r: String)
    ensures
        r@ == with_line_end(content@),
{
    let mut out = content.to_string();
    if !ends_with_text(content, "\n") {
        out.append("\n");
    }
    out
}

impl AgentMemoryStore {
    pub closed spec fn place(&self) -> Seq<char> {
        self.root@
    }

    pub fn new(root: &str) -> (r: AgentMemoryStore)
        ensures
            r.place() == root@,
    {
        AgentMemoryStore { root: root.to_string() }
    }

    pub fn root(&self) -> (r: &str)
        ensures
            r@ == self.place(),
    {
        self.root.as_str()
    }

    pub fn paths_for(&self, agent_id: &str) -> (r: AgentMemoryPaths)
        ensures
            are_paths_of(r, self.place(), agent_id@),
    {
        AgentMemoryPaths::new(self.root.as_str(), agent_id)
    }

    /// The files that an agent has to have.
    pub fn ensure_agent_files(&self, agent_id: &str, owner_user_id: &str) -> (r: (
        AgentMemoryPaths,
        Vec<MemoryFile>,
    ))
        ensures
            are_paths_of(r.0, self.place(), agent_id@),
            file_models(r.1@) == agent_files(self.place(), agent_id@, owner_user_id@),
    {
        let paths = self.paths_for(agent_id);
        let mut identity = "# Identity\n\nagent_id: ".to_string();
        identity.append(agent_id);
        identity.append("\nowner_user_id: ");
        identity.append(owner_user_id);
        identity.append("\n");
        let mut files: Vec<MemoryFile> = Vec::new();
        files.push(
            MemoryFile { path: paths.identity.clone(), content: identity, keep_existing: false },
        );
        files.push(
            MemoryFile {
                path: paths.memory.clone(),
                content: "# Long-Term Memory\n\n".to_string(),
                keep_existing: true,
            },
        );
        files.push(
            MemoryFile {
                path: paths.owner_profile.clone(),
                content: "# Owner Profile\n\n".to_string(),
                keep_existing: true,
            },
        );
        files.push(
            MemoryFile {
                path: paths.peer_notes.clone(),
                content: "# Peer Notes\n\n".to_string(),
                keep_existing: true,
            },
        );
        assert(file_models(files@) =~= agent_files(self.place(), agent_id@, owner_user_id@));
        (paths, files)
    }

    /// The files that an agent has to have, and behind them its owner's profile
    /// with this text.
    pub fn write_owner_profile_text(
        &self,
        agent_id: &str,
        owner_user_id: &str,
        content: &str,
    ) -> (r: (AgentMemoryPaths, Vec<MemoryFile>))
        ensures
            are_paths_of(r.0, self.place(), agent_id@),
            file_models(r.1@) == profile_files(
                self.place(),
                agent_id@,
                owner_user_id@,
                content@,
            ),
    {
        let (paths, mut files) = self.ensure_agent_files(agent_id, owner_user_id);
        let ghost before = file_models(files@);
        let file = MemoryFile {
            path: paths.owner_profile.clone(),
            content: ensure_trailing_newline(content),
            keep_existing: false,
        };
        files.push(file);
        assert(file_models(files@) =~= before.push(file@));
        (paths, files)
    }

    /// The files whose texts make up the memory that a prompt is given, in order.
    pub fn prompt_memory_paths(&self, agent_id: &str) -> (r: Vec<String>)
        ensures
            texts(r@) == remembered_paths(self.place(), agent_id@),
    {
        let paths = self.paths_for(agent_id);
        let mut out: Vec<String> = Vec::new();
        out.push(paths.identity);
        out.push(paths.owner_profile);
        out.push(paths.memory);
        out.push(paths.peer_notes);
        assert(texts(out@) =~= {
            let base = agent_root(self.place(), agent_id@);
            seq![
                path_join(base, "identity.md"@),
                path_join(base, "owner_profile.md"@),
                path_join(base, "memory.md"@),
                path_join(base, "peer_notes.md"@),
            ]
        });
        out
    }

    /// The memory that a prompt is given, of the files that there are.
    pub fn read_prompt_memory(contents: &Vec<Option<String>>) -> (r: String)
        ensures
            r@ == joined(present(contents@), "\n\n"@),
    {
        let mut parts: Vec<String> = Vec::new();
        let mut i: usize = 0;
        assert(texts(parts@) =~= present(contents@.take(0)));
        while i < contents.len()
            invariant
                i <= contents@.len(),
                texts(parts@) == present(contents@.take(i as int)),
            decreases contents@.len() - i,
        {
            let ghost before = texts(parts@);
            assert(contents@.take(i + 1).drop_last() =~= contents@.take(i as int));
            if let Some(text) = &contents[i] {
                parts.push(text.clone());
                assert(texts(parts@) =~= before.push(text@));
            }
            i = i + 1;
        }
        assert(contents@.take(i as int) =~= contents@);
        join(&parts, "\n\n")
    }
}

/// No file of an agent is lost: what is there is kept, but for who the agent is.
pub proof fn law_only_identity_is_overwritten(root: Seq<char>, agent: Seq<char>, owner: Seq<char>)
    ensures
        forall|i: int|
            0 <= i < agent_files(root, agent, owner).len() && !(#[trigger] agent_files(
                root,
                agent,
                owner,
            )[i]).keep_existing ==> agent_files(root, agent, owner)[i].path == path_join(
                agent_root(root, agent),
                "identity.md"@,
            ),
{
}

/// The files of an agent lie where its paths say, in its own directory below the root.
/// Who it is tells its own id and its owner's.
pub proof fn law_files_lie_where_the_paths_say(
    p: AgentMemoryPaths,
    root: Seq<char>,
    agent: Seq<char>,
    owner: Seq<char>,
)
    requires
        are_paths_of(p, root, agent),
    ensures
        p.root@ == path_join(path_join(root, "agents"@), agent),
        p.identity@ == path_join(p.root@, "identity.md"@),
        p.daily_reflections@ == path_join(p.root@, "daily_reflections"@),
        agent_files(root, agent, owner).len() == 4,
        agent_files(root, agent, owner)[0].path == p.identity@,
        agent_files(root, agent, owner)[1].path == p.memory@,
        agent_files(root, agent, owner)[2].path == p.owner_profile@,
        agent_files(root, agent, owner)[3].path == p.peer_notes@,
        agent_files(root, agent, owner)[0].content == "# Identity\n\nagent_id: "@ + agent
            + "\nowner_user_id: "@ + owner + "\n"@,
        !agent_files(root, agent, owner)[0].keep_existing,
        forall|i: int|
            1 <= i < 4 ==> (#[trigger] agent_files(root, agent, owner)[i]).keep_existing,
        agent_files(root, agent, owner)[1].content == "# Long-Term Memory\n\n"@,
        agent_files(root, agent, owner)[2].content == "# Owner Profile\n\n"@,
        agent_files(root, agent, owner)[3].content == "# Peer Notes\n\n"@,
        remembered_paths(root, agent) == seq![p.identity@, p.owner_profile@, p.memory@, p.peer_notes@],
{
}

/// The profile of an owner is written last and over what was there, whole and with a
/// line break at its end.
pub proof fn law_owner_profiles_are_written_over(
    root: Seq<char>,
    agent: Seq<char>,
    owner: Seq<char>,
    content: Seq<char>,
)
    ensures
        ({
            let f = profile_files(root, agent, owner, content);
            &&& f.drop_last() == agent_files(root, agent, owner)
            &&& f.last().path == f[2].path
            &&& !f.last().keep_existing
            &&& ends(content, "\n"@) ==> f.last().content == content
            &&& !ends(content, "\n"@) ==> f.last().content == content + "\n"@
        }),
        ends(with_line_end(content), "\n"@),
{
    let f = profile_files(root, agent, owner, content);
    assert(f.drop_last() =~= agent_files(root, agent, owner));
    reveal_strlit("\n");
    let w = content + "\n"@;
    assert(w.subrange(w.len() - 1, w.len() as int) =~= "\n"@);
}

/// Files that are not there add nothing to what is remembered; the others stand in
/// their order.
pub proof fn law_memory_is_what_is_there(a: Seq<Option<String>>, t: Option<String>)
    ensures
        t is None ==> present(a.push(t)) == present(a),
        t is Some ==> present(a.push(t)) == present(a).push(t->0@),
        present(Seq::<Option<String>>::empty()).len() == 0,
{
    assert(a.push(t).drop_last() =~= a);
}

} // verus!
