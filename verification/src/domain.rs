//! The persisted data model: workspaces, sessions, agents, plans.

pub mod agent;
pub mod session;
pub mod workspace;
