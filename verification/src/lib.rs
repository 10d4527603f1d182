//! PRISM storage and coordination primitives: conflict-free replicated data
//! types, content-addressed storage helpers, and the plain data of the agent
//! swarm, consensus and network layers, with their contracts proved by Verus.

pub mod crdt;
pub mod cas;
pub mod agent;
pub mod consensus;
pub mod grahmos;
pub mod ident;
pub mod network;
pub mod text;
