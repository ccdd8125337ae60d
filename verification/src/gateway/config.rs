//! Gateway limits.
use vstd::prelude::*;

verus! {

/// How many sessions, agents per session and agent definitions a gateway
/// holds at most.
#[derive(Debug, Clone, Copy, PartialEq, Eq, Structural)]
pub struct GatewayConfig {
    pub max_sessions: usize,
    pub max_agents_per_session: usize,
    pub max_agent_definitions: usize,
}

impl Default for GatewayConfig {
    /// Ten sessions, five agents per session, fifty definitions.
    fn default() -> (c: Self)
        ensures
            c.max_sessions == 10,
            c.max_agents_per_session == 5,
            c.max_agent_definitions == 50,
    {
        GatewayConfig { max_sessions: 10, max_agents_per_session: 5, max_agent_definitions: 50 }
    }
}

} // verus!
