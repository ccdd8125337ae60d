//! Events a gateway records as it works, for listeners and logs.
use crate::agent::{AgentDefinitionId, AgentInstanceId, AgentOutput};
use crate::session::SessionId;
use vstd::prelude::*;

verus! {

/// Something that happened in a gateway.
#[derive(Debug, Clone)]
pub enum GatewayEvent {
    AgentDefinitionCreated { id: AgentDefinitionId, name: String },
    AgentDefinitionDeleted { id: AgentDefinitionId },
    SessionCreated { id: SessionId, name: String },
    SessionSwitched { id: SessionId },
    SessionDeleted { id: SessionId },
    AgentInstanceCreated { id: AgentInstanceId, definition_id: AgentDefinitionId, session_id: SessionId },
    AgentInstanceSwitched { id: AgentInstanceId },
    AgentInstanceDeleted { id: AgentInstanceId },
    /// A message was sent; `content` is its first fifty characters.
    MessageSent { agent_instance_id: AgentInstanceId, content: String },
    MessageReceived { agent_instance_id: AgentInstanceId, output: AgentOutput },
    Error { message: String },
}

} // verus!
