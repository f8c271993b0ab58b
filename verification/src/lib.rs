//! Orchestration and reconciliation engine for multiplexer-hosted coding
//! sessions: a persisted state model with its invariants, working-copy
//! provisioning plans, idempotent process-controller decisions, and the
//! reconciliation rules that keep persisted state consistent with external
//! reality.

pub mod agent_cli;
pub mod clipboard;
pub mod codec;
pub mod config;
pub mod dashboard;
pub mod domain;
pub mod error;
pub mod frontmatter;
pub mod gh;
pub mod ids;
pub mod json;
pub mod ops;
pub mod plan;
pub mod provision;
pub mod reconcile;
pub mod store;
pub mod strutil;
pub mod template;
pub mod tmux;
pub mod watcher;
