//! Handlers of the collaboration tools.
pub mod collab_inbox;
pub mod wait;
pub mod call;
pub mod read_agent_status;
