//! Where the work of an agent is kept.
use crate::paths::{join_paths, path_join};
use vstd::prelude::*;

verus! {

pub const OFFICE_AGENT_SYSTEM_PROMPT_RULES: &'static str =
    "你拥有私有工作空间和公共工作空间。主人上传的文件先进入私有空间；只有接收主人材料、抽取个人材料、或完全个人化且与团队无关的临时处理，才留在私有空间。只要工作和团队协作、共同任务、共享产物、其他 Agent 或人类可能受益的信息有关，就默认进入公共空间完成。若私有材料后来与公共任务相关，必须把相关摘要、结论或产物迁移到公共空间。";

#[derive(Clone, Copy, Debug, Eq, PartialEq, Structural)]
pub enum WorkspaceArea {
    Private,
    Public,
}

#[derive(Clone, Copy, Debug, Eq, PartialEq, Structural)]
pub enum WorkspaceItemKind {
    PrivateMaterial,
    SharedMaterial,
    WorkProduct,
}

#[derive(Clone, Debug, Eq, PartialEq)]
pub struct WorkspaceItem {
    pub owner_agent_id: String,
    pub area: WorkspaceArea,
    pub kind: WorkspaceItemKind,
    pub path: String,
    pub description: String,
}

#[derive(Clone, Copy, Debug, Default, Eq, PartialEq)]
pub struct WorkspacePolicy;

#[derive(Clone, Debug, Eq, PartialEq)]
pub struct AgentWorkspace {
    pub agent_id: String,
    pub private_root: String,
    pub public_root: String,
    pub items: Vec<WorkspaceItem>,
}

#[verifier::ext_equal]
pub struct ItemModel {
    pub owner: Seq<char>,
    pub area: WorkspaceArea,
    pub kind: WorkspaceItemKind,
    pub path: Seq<char>,
    pub description: Seq<char>,
}

#[verifier::ext_equal]
pub struct WorkspaceModel {
    pub agent_id: Seq<char>,
    pub private_root: Seq<char>,
    pub public_root: Seq<char>,
    pub items: Seq<ItemModel>,
}

impl View for WorkspaceItem {
    type V = ItemModel;

    open spec fn view(&self) -> ItemModel {
        ItemModel {
            owner: self.owner_agent_id@,
            area: self.area,
            kind: self.kind,
            path: self.path@,
            description: self.description@,
        }
    }
}

impl View for AgentWorkspace {
    type V = WorkspaceModel;

    open spec fn view(&self) -> WorkspaceModel {
        WorkspaceModel {
            agent_id: self.agent_id@,
            private_root: self.private_root@,
            public_root: self.public_root@,
            items: self.items@.map_values(|i: WorkspaceItem| i@),
        }
    }
}

/// Work that others take part in, or can use, is public.
pub open spec fn work_area(collaborative: bool, reusable_by_team: bool) -> WorkspaceArea {
    if collaborative || reusable_by_team {
        WorkspaceArea::Public
    } else {
        WorkspaceArea::Private
    }
}

pub open spec fn root_of(w: WorkspaceModel, area: WorkspaceArea) -> Seq<char> {
    match area {
        WorkspaceArea::Private => w.private_root,
        WorkspaceArea::Public => w.public_root,
    }
}

/// An item of the workspace, below the root of its area.
pub open spec fn item(
    w: WorkspaceModel,
    area: WorkspaceArea,
    kind: WorkspaceItemKind,
    path: Seq<char>,
    description: Seq<char>,
) -> ItemModel {
    ItemModel {
        owner: w.agent_id,
        area,
        kind,
        path: path_join(root_of(w, area), path),
        description,
    }
}

/// What an owner uploads is private.
pub open spec fn upload_area() -> WorkspaceArea {
    WorkspaceArea::Private
}

/// What an owner uploaded.
pub open spec fn upload(w: WorkspaceModel, path: Seq<char>, description: Seq<char>) -> ItemModel {
    item(w, upload_area(), WorkspaceItemKind::PrivateMaterial, path, description)
}

/// What an agent made.
pub open spec fn product(
    w: WorkspaceModel,
    path: Seq<char>,
    description: Seq<char>,
    collaborative: bool,
    reusable_by_team: bool,
) -> ItemModel {
    item(
        w,
        work_area(collaborative, reusable_by_team),
        WorkspaceItemKind::WorkProduct,
        path,
        description,
    )
}

/// What is shared of private material.
pub open spec fn shared_summary(w: WorkspaceModel, path: Seq<char>, description: Seq<char>) -> ItemModel {
    item(w, WorkspaceArea::Public, WorkspaceItemKind::SharedMaterial, path, description)
}

impl WorkspacePolicy {
    pub fn area_for_owner_upload(&self) -> (r: WorkspaceArea)
        ensures
            r == upload_area(),
    {
        WorkspaceArea::Private
    }

    pub fn area_for_work(&self, collaborative: bool, reusable_by_team: bool) -> (r: WorkspaceArea)
        ensures
            r == work_area(collaborative, reusable_by_team),
    {
        if collaborative || reusable_by_team {
            WorkspaceArea::Public
        } else {
            WorkspaceArea::Private
        }
    }

    pub fn system_prompt_rules(&self) -> (r: &'static str)
        ensures
            r@ == OFFICE_AGENT_SYSTEM_PROMPT_RULES@,
    {
        OFFICE_AGENT_SYSTEM_PROMPT_RULES
    }
}

impl WorkspaceItem {
    pub fn copy(&self) -> (r: WorkspaceItem)
        ensures
            r == *self,
    {
        WorkspaceItem {
            owner_agent_id: self.owner_agent_id.clone(),
            area: self.area,
            kind: self.kind,
            path: self.path.clone(),
            description: self.description.clone(),
        }
    }
}

impl AgentWorkspace {
    pub fn new(agent_id: &str, private_root: &str, public_root: &str) -> (r: AgentWorkspace)
        ensures
            r@ == (WorkspaceModel {
                agent_id: agent_id@,
                private_root: private_root@,
                public_root: public_root@,
                items: Seq::empty(),
            }),
    {
        let r = AgentWorkspace {
            agent_id: agent_id.to_string(),
            private_root: private_root.to_string(),
            public_root: public_root.to_string(),
            items: Vec::new(),
        };
        assert(r@.items =~= Seq::<ItemModel>::empty());
        r
    }

    fn put(
        &mut self,
        area: WorkspaceArea,
        kind: WorkspaceItemKind,
        relative_path: &str,
        description: &str,
    ) -> (r: WorkspaceItem)
        ensures
            r@ == item(old(self)@, area, kind, relative_path@, description@),
            final(self)@ == (WorkspaceModel { items: old(self)@.items.push(r@), ..old(self)@ }),
    {
        let ghost before = self@;
        let path = match area {
            WorkspaceArea::Private => join_paths(self.private_root.as_str(), relative_path),
            WorkspaceArea::Public => join_paths(self.public_root.as_str(), relative_path),
        };
        let made = WorkspaceItem {
            owner_agent_id: self.agent_id.clone(),
            area,
            kind,
            path,
            description: description.to_string(),
        };
        let r = made.copy();
        self.items.push(made);
        assert(self@.items =~= before.items.push(r@));
        r
    }

    /// What an owner uploads is private.
    pub fn receive_owner_upload(&mut self, relative_path: &str, description: &str) -> (r:
        WorkspaceItem)
        ensures
            r@ == upload(old(self)@, relative_path@, description@),
            final(self)@ == (WorkspaceModel { items: old(self)@.items.push(r@), ..old(self)@ }),
    {
        self.put(
            WorkspaceArea::Private,
            WorkspaceItemKind::PrivateMaterial,
            relative_path,
            description,
        )
    }

    /// A work product is kept where its use calls for.
    pub fn write_work_product(
        &mut self,
        relative_path: &str,
        description: &str,
        collaborative: bool,
        reusable_by_team: bool,
    ) -> (r: WorkspaceItem)
        ensures
            r@ == product(
                old(self)@,
                relative_path@,
                description@,
                collaborative,
                reusable_by_team,
            ),
            final(self)@ == (WorkspaceModel { items: old(self)@.items.push(r@), ..old(self)@ }),
    {
        let area = WorkspacePolicy.area_for_work(collaborative, reusable_by_team);
        self.put(area, WorkspaceItemKind::WorkProduct, relative_path, description)
    }

    /// A summary of private material is shared.
    pub fn migrate_summary_to_public(&mut self, relative_path: &str, description: &str) -> (r:
        WorkspaceItem)
        ensures
            r@ == shared_summary(old(self)@, relative_path@, description@),
            final(self)@ == (WorkspaceModel { items: old(self)@.items.push(r@), ..old(self)@ }),
    {
        self.put(
            WorkspaceArea::Public,
            WorkspaceItemKind::SharedMaterial,
            relative_path,
            description,
        )
    }
}

/// What an owner uploads stays below the private root. What others take part in or can
/// use lies below the public one, and so does what is shared; all else that an agent
/// makes stays private. Every item is its agent's, under the name and the words given.
pub proof fn law_items_lie_where_they_belong(
    w: WorkspaceModel,
    path: Seq<char>,
    description: Seq<char>,
    collaborative: bool,
    reusable_by_team: bool,
)
    ensures
        ({
            let u = upload(w, path, description);
            let p = product(w, path, description, collaborative, reusable_by_team);
            let s = shared_summary(w, path, description);
            &&& u.area == WorkspaceArea::Private && u.path == path_join(w.private_root, path)
            &&& u.kind == WorkspaceItemKind::PrivateMaterial
            &&& collaborative || reusable_by_team ==> p.area == WorkspaceArea::Public && p.path
                == path_join(w.public_root, path)
            &&& !collaborative && !reusable_by_team ==> p.area == WorkspaceArea::Private && p.path
                == path_join(w.private_root, path)
            &&& p.kind == WorkspaceItemKind::WorkProduct
            &&& s.area == WorkspaceArea::Public && s.path == path_join(w.public_root, path)
            &&& s.kind == WorkspaceItemKind::SharedMaterial
            &&& u.owner == w.agent_id && p.owner == w.agent_id && s.owner == w.agent_id
            &&& u.description == description && p.description == description && s.description
                == description
        }),
{
}

} // verus!
