//! The plain data of the agent swarm: agent identities, roles and statuses,
//! task priorities and results, and cluster information.
use crate::agent::error::PrismError;
use crate::ident::{format_uuid, parse_uuid, random_uuid, uuid_text, uuid_text_value};
use vstd::prelude::*;
use vstd::string::StringExecFns;

verus! {

/// Unique identifier of an agent: the 128-bit value of a UUID.
#[derive(Debug, Clone, Copy, PartialEq, Eq, Structural, Hash)]
pub struct AgentId(pub u128);

impl AgentId {
    /// A new random id: a fresh version-4 UUID.
    pub fn new() -> (r: AgentId)
        ensures
            crate::ident::is_v4_uuid(r.0),
    {
        AgentId(random_uuid())
    }

    /// Parse an agent id from UUID text; fails on text that is not a UUID.
    pub fn from_string(s: &str) -> (r: Result<AgentId, PrismError>)
        ensures
            match uuid_text_value(s@) {
                Some(v) => r == Ok::<AgentId, PrismError>(AgentId(v)),
                None => r matches Err(PrismError::Validation { .. }),
            },
    {
        match parse_uuid(s) {
            Some(v) => Ok(AgentId(v)),
            None => Err(
                PrismError::Validation {
                    message: "Invalid agent ID format: ".to_string().concat(s),
                },
            ),
        }
    }

    /// The 128-bit value of the id.
    pub fn as_uuid(&self) -> (r: u128)
        ensures
            r == self.0,
    {
        self.0
    }

    /// The id as hyphenated UUID text, which `from_string` reads back.
    pub fn to_string(&self) -> (r: String)
        ensures
            r@ == uuid_text(self.0),
            uuid_text_value(r@) == Some(self.0),
    {
        format_uuid(self.0)
    }
}

/// Role of an agent in the swarm.
#[derive(Debug, Clone, Copy, PartialEq, Eq, Structural, Hash)]
pub enum AgentRole {
    /// Orchestrates local replication tasks.
    Master,
    /// Monitors specific systems or services.
    Worker,
    /// Bridges sites.
    Gateway,
    /// Lightweight monitoring on mobile devices.
    Mobile,
}

/// The name of a role.
pub open spec fn role_name(role: AgentRole) -> Seq<char> {
    match role {
        AgentRole::Master => "master"@,
        AgentRole::Worker => "worker"@,
        AgentRole::Gateway => "gateway"@,
        AgentRole::Mobile => "mobile"@,
    }
}

impl AgentRole {
    /// The role's name in lower case.
    pub fn to_string(&self) -> (r: String)
        ensures
            r@ == role_name(*self),
    {
        match self {
            AgentRole::Master => "master".to_owned(),
            AgentRole::Worker => "worker".to_owned(),
            AgentRole::Gateway => "gateway".to_owned(),
            AgentRole::Mobile => "mobile".to_owned(),
        }
    }
}

/// Operational status of an agent.
#[derive(Debug, Clone, PartialEq, Eq)]
pub enum AgentStatus {
    /// Starting up.
    Initializing,
    /// Operational and healthy.
    Healthy,
    /// Operational with issues.
    Degraded { reason: String },
    /// Failed; needs intervention.
    Failed { reason: String },
    /// Shutting down.
    Stopping,
    /// Stopped.
    Stopped,
}

/// The text of a status.
pub open spec fn status_text(status: AgentStatus) -> Seq<char> {
    match status {
        AgentStatus::Initializing => "initializing"@,
        AgentStatus::Healthy => "healthy"@,
        AgentStatus::Degraded { reason } => "degraded: "@ + reason@,
        AgentStatus::Failed { reason } => "failed: "@ + reason@,
        AgentStatus::Stopping => "stopping"@,
        AgentStatus::Stopped => "stopped"@,
    }
}

impl AgentStatus {
    /// The status as text: its name, with the reason after a colon.
    pub fn to_string(&self) -> (r: String)
        ensures
            r@ == status_text(*self),
    {
        match self {
            AgentStatus::Initializing => "initializing".to_owned(),
            AgentStatus::Healthy => "healthy".to_owned(),
            AgentStatus::Degraded { reason } => "degraded: ".to_owned().concat(reason.as_str()),
            AgentStatus::Failed { reason } => "failed: ".to_owned().concat(reason.as_str()),
            AgentStatus::Stopping => "stopping".to_owned(),
            AgentStatus::Stopped => "stopped".to_owned(),
        }
    }
}

/// Priority of a task.
#[derive(Debug, Clone, Copy, PartialEq, Eq, Structural)]
pub enum TaskPriority {
    Low,
    Normal,
    High,
    Critical,
}

/// Result of executing a task.
#[derive(Debug, Clone, PartialEq, Eq)]
pub enum TaskResult {
    Success { duration_ms: u64, output: Option<String> },
    Failure { error: String, retry_count: u32 },
    Timeout { duration_ms: u64 },
}

/// Information about the cluster as a whole.
#[derive(Debug, Clone)]
pub struct ClusterInfo {
    pub cluster_id: String,
    pub total_agents: usize,
    pub healthy_agents: usize,
    pub sites: Vec<String>,
    pub leader_agent: Option<AgentId>,
    pub consensus_view: u64,
}

} // verus!
