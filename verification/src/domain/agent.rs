//! Agents: sub-tasks of a session, headless or attached to a pane, with a
//! one-way status machine.

use vstd::prelude::*;
use crate::ids;
use crate::strutil;

verus! {

/// How an agent runs: one-shot with a captured result, attached to a pane,
/// or a bare shell.
#[derive(Debug, Clone, PartialEq, Eq, Structural)]
pub enum AgentMode {
    Headless,
    Interactive,
    Shell,
}

impl AgentMode {
    /// The lowercase label used in command output.
    pub fn text(&self) -> (r: String)
        ensures
            self is Headless ==> r@ == "headless"@,
            self is Interactive ==> r@ == "interactive"@,
            self is Shell ==> r@ == "shell"@,
    {
        match self {
            AgentMode::Headless => "headless".to_owned(),
            AgentMode::Interactive => "interactive".to_owned(),
            AgentMode::Shell => "shell".to_owned(),
        }
    }
}

/// The agent status machine. `Failed` carries a free-text reason.
#[derive(Debug, Clone, PartialEq)]
pub enum AgentStatus {
    Queued,
    Running,
    Completed,
    Failed(String),
    Ingested,
}

impl AgentStatus {
    /// The label used in command output; `Failed` includes its reason.
    pub fn text(&self) -> (r: String)
        ensures
            self is Queued ==> r@ == "Queued"@,
            self is Running ==> r@ == "Running"@,
            self is Completed ==> r@ == "Completed"@,
            self is Failed ==> r@ == "Failed: "@ + self->Failed_0@,
            self is Ingested ==> r@ == "Ingested"@,
    {
        match self {
            AgentStatus::Queued => "Queued".to_owned(),
            AgentStatus::Running => "Running".to_owned(),
            AgentStatus::Completed => "Completed".to_owned(),
            AgentStatus::Failed(m) => strutil::concat2("Failed: ", m.as_str()),
            AgentStatus::Ingested => "Ingested".to_owned(),
        }
    }
}

/// The transitions the agent status machine allows: forward only, and
/// `Ingested` only from `Completed`.
pub open spec fn agent_step(a: AgentStatus, b: AgentStatus) -> bool {
    ||| (a is Queued && b is Running)
    ||| (a is Running && b is Completed)
    ||| (a is Running && b is Failed)
    ||| (a is Completed && b is Ingested)
}

/// An agent created `Queued` is never observed `Queued` again after any
/// transition, and `Ingested` is reachable only from `Completed`.
pub proof fn lemma_agent_status_machine(a: AgentStatus, b: AgentStatus)
    requires
        agent_step(a, b),
    ensures
        !(b is Queued),
        b is Ingested ==> a is Completed,
{
}

/// The structured result of a completed headless agent.
#[derive(Debug, Clone, PartialEq)]
pub struct AgentResult {
    pub success: bool,
    pub summary: String,
    pub duration_ms: u64,
    pub session_id: String,
    pub raw_result: Option<String>,
}

/// A sub-task spawned from a session.
#[derive(Debug, Clone)]
pub struct Agent {
    pub id: u128,
    pub parent_session: u128,
    pub name: String,
    pub mode: AgentMode,
    pub status: AgentStatus,
    pub template: Option<String>,
    pub prompt: String,
    pub system_prompt: Option<String>,
    pub worktree_path: String,
    pub tmux_pane: Option<String>,
    pub pid: Option<u32>,
    pub claude_session_id: Option<String>,
    pub output_file: String,
    pub result: Option<AgentResult>,
    pub created_at: String,
    pub completed_at: Option<String>,
}

impl Agent {
    /// A fresh agent: `Queued`, with its output artifact path derived from
    /// its identifier so that no two agents collide.
    pub fn new(
        parent_session: u128,
        name: String,
        mode: AgentMode,
        prompt: String,
        worktree_path: String,
        output_dir: String,
    ) -> (r: Agent)
        ensures
            r.parent_session == parent_session,
            r.name@ == name@,
            r.mode == mode,
            r.status is Queued,
            r.template is None,
            r.prompt@ == prompt@,
            r.system_prompt is None,
            r.worktree_path@ == worktree_path@,
            r.tmux_pane is None,
            r.pid is None,
            r.claude_session_id is None,
            r.output_file@ == output_dir@ + "/"@ + ids::uuid_chars(r.id) + "/output.json"@,
            r.result is None,
            r.completed_at is None,
    {
        let id = ids::fresh_uuid();
        let id_text = ids::uuid_string(id);
        let with_dir = strutil::concat3(output_dir.as_str(), "/", id_text.as_str());
        let output_file = strutil::concat2(with_dir.as_str(), "/output.json");
        Agent {
            id,
            parent_session,
            name,
            mode,
            status: AgentStatus::Queued,
            template: None,
            prompt,
            system_prompt: None,
            worktree_path,
            tmux_pane: None,
            pid: None,
            claude_session_id: None,
            output_file,
            result: None,
            created_at: ids::now_stamp(),
            completed_at: None,
        }
    }

    /// True while the agent's backing process is believed to run.
    pub fn is_running(&self) -> (r: bool)
        ensures
            r == (self.status is Running),
    {
        match &self.status {
            AgentStatus::Running => true,
            _ => false,
        }
    }

    /// True in the terminal states.
    pub fn is_done(&self) -> (r: bool)
        ensures
            r == (self.status is Completed || self.status is Failed || self.status is Ingested),
    {
        match &self.status {
            AgentStatus::Completed => true,
            AgentStatus::Failed(_) => true,
            AgentStatus::Ingested => true,
            _ => false,
        }
    }

    /// Marks the agent's process as started.
    pub fn mark_running(&mut self)
        requires
            old(self).status is Queued,
        ensures
            *final(self) == (Agent { status: AgentStatus::Running, ..*old(self) }),
            agent_step(old(self).status, final(self).status),
    {
        self.status = AgentStatus::Running;
    }

    /// Records a successful completion with its result; the completion
    /// timestamp comes from the clock.
    pub fn complete_with(&mut self, result: AgentResult)
        requires
            old(self).status is Running,
        ensures
            final(self).status is Completed,
            final(self).result == Some(result),
            final(self).completed_at is Some,
            *final(self) == (Agent {
                status: AgentStatus::Completed,
                result: Some(result),
                completed_at: final(self).completed_at,
                ..*old(self)
            }),
            agent_step(old(self).status, final(self).status),
    {
        self.status = AgentStatus::Completed;
        self.result = Some(result);
        self.completed_at = Some(ids::now_stamp());
    }

    /// Records a failure with its reason.
    pub fn fail_with(&mut self, reason: String)
        requires
            old(self).status is Running,
        ensures
            final(self).status is Failed,
            final(self).status->Failed_0@ == reason@,
            final(self).completed_at is Some,
            *final(self) == (Agent {
                status: final(self).status,
                completed_at: final(self).completed_at,
                ..*old(self)
            }),
            agent_step(old(self).status, final(self).status),
    {
        self.status = AgentStatus::Failed(reason);
        self.completed_at = Some(ids::now_stamp());
    }

    /// Marks a completed result as consumed. One-way and only from
    /// `Completed`.
    pub fn mark_ingested(&mut self)
        requires
            old(self).status is Completed,
        ensures
            *final(self) == (Agent { status: AgentStatus::Ingested, ..*old(self) }),
            agent_step(old(self).status, final(self).status),
    {
        self.status = AgentStatus::Ingested;
    }
}

} // verus!
