//! What an agent is told of its own situation.
use crate::office::blackboard::OfficeBlackboard;
use crate::office::memory::AgentMemoryPaths;
use crate::office::runtime::AgentRuntimeRecord;
use vstd::prelude::*;

verus! {

#[derive(Clone, Debug, Eq, PartialEq)]
pub struct OfficeAgentContextSnapshot {
    pub agent_id: String,
    pub owner_user_id: String,
    pub runtime: Option<AgentRuntimeRecord>,
    pub inbox_queued_count: usize,
    pub memory_identity_path: String,
    pub memory_path: String,
    pub owner_profile_path: String,
    pub peer_notes_path: String,
    pub blackboard: OfficeBlackboard,
}

impl OfficeAgentContextSnapshot {
    pub fn new(
        agent_id: &str,
        owner_user_id: &str,
        runtime: Option<AgentRuntimeRecord>,
        inbox_queued_count: usize,
        memory_paths: AgentMemoryPaths,
        blackboard: OfficeBlackboard,
    ) -> (r: OfficeAgentContextSnapshot)
        ensures
            r.agent_id@ == agent_id@,
            r.owner_user_id@ == owner_user_id@,
            r.runtime == runtime,
            r.inbox_queued_count == inbox_queued_count,
            r.memory_identity_path@ == memory_paths.identity@,
            r.memory_path@ == memory_paths.memory@,
            r.owner_profile_path@ == memory_paths.owner_profile@,
            r.peer_notes_path@ == memory_paths.peer_notes@,
            r.blackboard == blackboard,
    {
        OfficeAgentContextSnapshot {
            agent_id: agent_id.to_string(),
            owner_user_id: owner_user_id.to_string(),
            runtime,
            inbox_queued_count,
            memory_identity_path: memory_paths.identity,
            memory_path: memory_paths.memory,
            owner_profile_path: memory_paths.owner_profile,
            peer_notes_path: memory_paths.peer_notes,
            blackboard,
        }
    }
}

} // verus!
