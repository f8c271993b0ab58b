//! Sessions: one working copy (or one per repository), one multiplexer
//! window, one primary agent process.

use vstd::prelude::*;
use crate::ids;
use crate::strutil;

verus! {

/// The session status machine. `Failed` carries a free-text reason.
#[derive(Debug, Clone, PartialEq)]
pub enum SessionStatus {
    Creating,
    Active,
    Paused,
    Completed,
    Failed(String),
    Archived,
}

impl SessionStatus {
    /// The label used in command output; `Failed` includes its reason.
    pub fn text(&self) -> (r: String)
        ensures
            self is Creating ==> r@ == "Creating"@,
            self is Active ==> r@ == "Active"@,
            self is Paused ==> r@ == "Paused"@,
            self is Completed ==> r@ == "Completed"@,
            self is Failed ==> r@ == "Failed: "@ + self->Failed_0@,
            self is Archived ==> r@ == "Archived"@,
    {
        match self {
            SessionStatus::Creating => "Creating".to_owned(),
            SessionStatus::Active => "Active".to_owned(),
            SessionStatus::Paused => "Paused".to_owned(),
            SessionStatus::Completed => "Completed".to_owned(),
            SessionStatus::Failed(m) => strutil::concat2("Failed: ", m.as_str()),
            SessionStatus::Archived => "Archived".to_owned(),
        }
    }
}

/// The transitions the session status machine allows: `Creating` to
/// `Active`, `Active` and `Paused` back and forth, `Active` to `Completed`,
/// any non-archived state to `Failed`, and any state to `Archived`.
pub open spec fn session_step(a: SessionStatus, b: SessionStatus) -> bool {
    ||| (a is Creating && b is Active)
    ||| (a is Active && b is Paused)
    ||| (a is Paused && b is Active)
    ||| (a is Active && b is Completed)
    ||| (!(a is Archived) && b is Failed)
    ||| b is Archived
}

/// Extra descriptive fields a session may carry.
#[derive(Debug, Clone, PartialEq)]
pub struct SessionMetadata {
    pub description: Option<String>,
    pub pr_number: Option<u64>,
    pub parent_session: Option<u128>,
    pub turns: Option<u32>,
}

impl SessionMetadata {
    /// All fields empty.
    pub fn empty() -> (r: SessionMetadata)
        ensures
            r.description is None,
            r.pr_number is None,
            r.parent_session is None,
            r.turns is None,
    {
        SessionMetadata {
            description: None,
            pr_number: None,
            parent_session: None,
            turns: None,
        }
    }
}

/// A repository name paired with the working-copy path provisioned for it.
#[derive(Debug, Clone, PartialEq)]
pub struct RepoWorktree {
    pub repo: String,
    pub path: String,
}

/// One working context: a working copy, a multiplexer window and the agents
/// spawned inside it.
#[derive(Debug, Clone)]
pub struct Session {
    pub id: u128,
    pub name: String,
    pub branch: String,
    pub worktree_path: String,
    pub tmux_window: String,
    pub status: SessionStatus,
    pub claude_session_id: Option<String>,
    pub template: Option<String>,
    pub system_prompt_override: Option<String>,
    pub created_at: String,
    pub updated_at: String,
    pub agents: Vec<u128>,
    pub metadata: SessionMetadata,
    /// True for the permanent workspace-root session, which is never killed.
    pub is_main: bool,
    /// Multi-repo only: one entry per provisioned repository, names unique.
    pub repo_worktrees: Vec<RepoWorktree>,
}

/// The repository names of `rw`, in order.
pub open spec fn repo_names(rw: Seq<RepoWorktree>) -> Seq<Seq<char>> {
    rw.map_values(|e: RepoWorktree| e.repo@)
}

/// Entries name distinct repositories.
pub open spec fn repo_worktrees_wf(rw: Seq<RepoWorktree>) -> bool {
    forall|i: int, j: int| 0 <= i < j < rw.len() ==> repo_names(rw)[i] != repo_names(rw)[j]
}

impl Session {
    /// A fresh session in `Creating` state with no agents.
    pub fn new(name: String, branch: String, worktree_path: String, tmux_window: String) -> (r:
        Session)
        ensures
            r.name@ == name@,
            r.branch@ == branch@,
            r.worktree_path@ == worktree_path@,
            r.tmux_window@ == tmux_window@,
            r.status is Creating,
            r.claude_session_id is None,
            r.template is None,
            r.system_prompt_override is None,
            r.agents@.len() == 0,
            r.metadata.description is None,
            r.metadata.pr_number is None,
            r.metadata.parent_session is None,
            r.metadata.turns is None,
            !r.is_main,
            r.repo_worktrees@.len() == 0,
            r.created_at@ == r.updated_at@,
    {
        let now = ids::now_stamp();
        let now2 = now.clone();
        Session {
            id: ids::fresh_uuid(),
            name,
            branch,
            worktree_path,
            tmux_window,
            status: SessionStatus::Creating,
            claude_session_id: None,
            template: None,
            system_prompt_override: None,
            created_at: now,
            updated_at: now2,
            agents: Vec::new(),
            metadata: SessionMetadata::empty(),
            is_main: false,
            repo_worktrees: Vec::new(),
        }
    }

    /// True while the session counts as live: `Active` or still `Creating`.
    pub fn is_active(&self) -> (r: bool)
        ensures
            r == (self.status is Active || self.status is Creating),
    {
        match &self.status {
            SessionStatus::Active => true,
            SessionStatus::Creating => true,
            _ => false,
        }
    }
}

} // verus!
