//! What the whole office can read.
use crate::text::{clone_texts, texts};
use crate::time::Timestamp;
use vstd::prelude::*;

verus! {

#[derive(Clone, Debug, Eq, PartialEq)]
pub struct BlackboardNote {
    pub id: String,
    pub author_id: String,
    pub content: String,
    pub created_at: Timestamp,
}

#[derive(Clone, Debug, Eq, PartialEq)]
pub struct ProjectState {
    pub id: String,
    pub title: String,
    pub summary: String,
    pub owner_agent_ids: Vec<String>,
    pub updated_at: Timestamp,
}

#[derive(Clone, Debug, Eq, PartialEq)]
pub struct OfficeBlackboard {
    pub company_goals: Vec<String>,
    pub active_projects: Vec<ProjectState>,
    pub shared_notes: Vec<BlackboardNote>,
}

/// The blackboard and the place where it is kept.
#[derive(Clone, Debug)]
pub struct OfficeBlackboardStore {
    path: String,
    blackboard: OfficeBlackboard,
}

#[verifier::ext_equal]
pub struct NoteModel {
    pub id: Seq<char>,
    pub author: Seq<char>,
    pub content: Seq<char>,
    pub created_at: Timestamp,
}

#[verifier::ext_equal]
pub struct ProjectModel {
    pub id: Seq<char>,
    pub title: Seq<char>,
    pub summary: Seq<char>,
    pub owners: Seq<Seq<char>>,
    pub updated_at: Timestamp,
}

#[verifier::ext_equal]
pub struct BlackboardModel {
    pub goals: Seq<Seq<char>>,
    pub projects: Seq<ProjectModel>,
    pub notes: Seq<NoteModel>,
}

impl View for BlackboardNote {
    type V = NoteModel;

    open spec fn view(&self) -> NoteModel {
        NoteModel {
            id: self.id@,
            author: self.author_id@,
            content: self.content@,
            created_at: self.created_at,
        }
    }
}

impl View for ProjectState {
    type V = ProjectModel;

    open spec fn view(&self) -> ProjectModel {
        ProjectModel {
            id: self.id@,
            title: self.title@,
            summary: self.summary@,
            owners: texts(self.owner_agent_ids@),
            updated_at: self.updated_at,
        }
    }
}

impl View for OfficeBlackboard {
    type V = BlackboardModel;

    open spec fn view(&self) -> BlackboardModel {
        BlackboardModel {
            goals: texts(self.company_goals@),
            projects: self.active_projects@.map_values(|p: ProjectState| p@),
            notes: self.shared_notes@.map_values(|n: BlackboardNote| n@),
        }
    }
}

impl View for OfficeBlackboardStore {
    type V = BlackboardModel;

    closed spec fn view(&self) -> BlackboardModel {
        self.blackboard@
    }
}

/// Whether a note was put behind those that were there.
pub open spec fn adds_note(
    n: NoteModel,
    was: BlackboardModel,
    m: BlackboardModel,
    id: Seq<char>,
    author: Seq<char>,
    content: Seq<char>,
    now: Timestamp,
) -> bool {
    &&& n == (NoteModel { id, author, content, created_at: now })
    &&& m == (BlackboardModel { notes: was.notes.push(n), ..was })
}

impl BlackboardNote {
    pub fn copy(&self) -> (r: BlackboardNote)
        ensures
            r == *self,
    {
        BlackboardNote {
            id: self.id.clone(),
            author_id: self.author_id.clone(),
            content: self.content.clone(),
            created_at: self.created_at,
        }
    }
}

impl ProjectState {
    pub fn copy(&self) -> (r: ProjectState)
        ensures
            r@ == self@,
    {
        ProjectState {
            id: self.id.clone(),
            title: self.title.clone(),
            summary: self.summary.clone(),
            owner_agent_ids: clone_texts(&self.owner_agent_ids),
            updated_at: self.updated_at,
        }
    }
}

impl Default for OfficeBlackboard {
    fn default() -> (r: OfficeBlackboard)
        ensures
            r@ == (BlackboardModel {
                goals: Seq::empty(),
                projects: Seq::empty(),
                notes: Seq::empty(),
            }),
    {
        OfficeBlackboard::empty()
    }
}

impl OfficeBlackboard {
    /// A blackboard with nothing on it.
    pub fn empty() -> (r: OfficeBlackboard)
        ensures
            r@ == (BlackboardModel {
                goals: Seq::empty(),
                projects: Seq::empty(),
                notes: Seq::empty(),
            }),
    {
        let r = OfficeBlackboard {
            company_goals: Vec::new(),
            active_projects: Vec::new(),
            shared_notes: Vec::new(),
        };
        assert(r@.goals =~= Seq::<Seq<char>>::empty());
        assert(r@.projects =~= Seq::<ProjectModel>::empty());
        assert(r@.notes =~= Seq::<NoteModel>::empty());
        r
    }

    pub fn copy(&self) -> (r: OfficeBlackboard)
        ensures
            r@ == self@,
    {
        let ghost projects = self@.projects;
        let ghost notes = self@.notes;
        let mut active_projects: Vec<ProjectState> = Vec::new();
        let mut i: usize = 0;
        assert(active_projects@.map_values(|p: ProjectState| p@) =~= projects.take(0));
        while i < self.active_projects.len()
            invariant
                i <= self.active_projects@.len(),
                projects == self@.projects,
                active_projects@.map_values(|p: ProjectState| p@) == projects.take(i as int),
            decreases self.active_projects@.len() - i,
        {
            let ghost before = active_projects@.map_values(|p: ProjectState| p@);
            let p = self.active_projects[i].copy();
            active_projects.push(p);
            i = i + 1;
            assert(active_projects@.map_values(|p: ProjectState| p@) =~= before.push(p@));
            assert(projects.take(i as int) =~= projects.take(i - 1).push(projects[i - 1]));
        }
        assert(projects.take(i as int) =~= projects);
        let mut shared_notes: Vec<BlackboardNote> = Vec::new();
        let mut k: usize = 0;
        assert(shared_notes@.map_values(|n: BlackboardNote| n@) =~= notes.take(0));
        while k < self.shared_notes.len()
            invariant
                k <= self.shared_notes@.len(),
                notes == self@.notes,
                shared_notes@.map_values(|n: BlackboardNote| n@) == notes.take(k as int),
            decreases self.shared_notes@.len() - k,
        {
            let ghost before = shared_notes@.map_values(|n: BlackboardNote| n@);
            let n = self.shared_notes[k].copy();
            shared_notes.push(n);
            k = k + 1;
            assert(shared_notes@.map_values(|n: BlackboardNote| n@) =~= before.push(n@));
            assert(notes.take(k as int) =~= notes.take(k - 1).push(notes[k - 1]));
        }
        assert(notes.take(k as int) =~= notes);
        OfficeBlackboard {
            company_goals: clone_texts(&self.company_goals),
            active_projects,
            shared_notes,
        }
    }
}

impl OfficeBlackboardStore {
    pub closed spec fn place(&self) -> Seq<char> {
        self.path@
    }

    /// The store at `path` with this content.
    pub fn from_blackboard(path: String, blackboard: OfficeBlackboard) -> (r:
        OfficeBlackboardStore)
        ensures
            r@ == blackboard@,
            r.place() == path@,
    {
        OfficeBlackboardStore { path, blackboard }
    }

    pub fn path(&self) -> (r: &str)
        ensures
            r@ == self.place(),
    {
        self.path.as_str()
    }

    pub fn blackboard(&self) -> (r: &OfficeBlackboard)
        ensures
            r@ == self@,
    {
        &self.blackboard
    }

    /// Puts a note behind those that are there.
    pub fn add_note(&mut self, id: &str, author_id: &str, content: &str, now: Timestamp) -> (r:
        BlackboardNote)
        ensures
            adds_note(r@, old(self)@, final(self)@, id@, author_id@, content@, now),
            final(self).place() == old(self).place(),
    {
        let ghost before = self@;
        let note = BlackboardNote {
            id: id.to_string(),
            author_id: author_id.to_string(),
            content: content.to_string(),
            created_at: now,
        };
        let r = note.copy();
        self.blackboard.shared_notes.push(note);
        assert(self@.notes =~= before.notes.push(r@));
        r
    }

    /// Replaces the content by what was read anew.
    pub fn reload(&mut self, blackboard: OfficeBlackboard)
        ensures
            final(self)@ == blackboard@,
            final(self).place() == old(self).place(),
    {
        self.blackboard = blackboard;
    }
}

/// A note keeps its id, its author, its text and its time, and lies last; the other
/// notes, the goals and the projects stay.
pub proof fn law_notes_lie_behind_each_other(
    n: NoteModel,
    was: BlackboardModel,
    m: BlackboardModel,
    id: Seq<char>,
    author: Seq<char>,
    content: Seq<char>,
    now: Timestamp,
)
    requires
        adds_note(n, was, m, id, author, content, now),
    ensures
        m.notes.len() == was.notes.len() + 1,
        m.notes.last() == n,
        m.notes.drop_last() == was.notes,
        n.id == id && n.author == author && n.content == content && n.created_at == now,
        m.goals == was.goals && m.projects == was.projects,
{
    assert(m.notes.drop_last() =~= was.notes);
}

} // verus!
