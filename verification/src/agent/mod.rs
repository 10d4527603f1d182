//! Core agent infrastructure: errors, the plain data of the agent swarm, and
//! the decisions of agent-to-agent messaging.
pub mod communication;
pub mod error;
pub mod swarm;
