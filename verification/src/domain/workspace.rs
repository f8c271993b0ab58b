//! The workspace and the aggregate persisted state: the single root of
//! truth that every other component reads or mutates.

use vstd::prelude::*;
use crate::domain::agent::Agent;
use crate::domain::session::Session;
use crate::strutil;

verus! {

/// Whether the workspace manages one repository or several.
#[derive(Debug, Clone, PartialEq, Eq, Structural)]
pub enum WorkspaceKind {
    SingleRepo,
    MultiRepo,
}

/// One repository of a multi-repo workspace.
#[derive(Debug, Clone, PartialEq)]
pub struct RepoInfo {
    pub root: String,
    /// Directory name relative to the workspace root.
    pub name: String,
    pub default_branch: String,
    pub remote_url: Option<String>,
}

/// The root directory the orchestrator manages. Well-formed when
/// `kind == MultiRepo` exactly if `repos` is non-empty.
#[derive(Debug, Clone)]
pub struct Workspace {
    pub root: String,
    pub name: String,
    pub default_branch: String,
    pub remote_url: Option<String>,
    pub worktree_prefix: String,
    pub worktree_base_dir: String,
    pub kind: WorkspaceKind,
    pub repos: Vec<RepoInfo>,
}

impl Workspace {
    /// The invariant tying `kind` to `repos`.
    pub open spec fn wf(&self) -> bool {
        (self.kind is MultiRepo) <==> self.repos@.len() > 0
    }

    pub fn is_multi_repo(&self) -> (r: bool)
        ensures
            r == (self.kind is MultiRepo),
    {
        match self.kind {
            WorkspaceKind::MultiRepo => true,
            WorkspaceKind::SingleRepo => false,
        }
    }

    /// The root of the first tracked repository with this name, if any.
    pub fn repo_root_by_name(&self, name: &str) -> (r: Option<String>)
        ensures
            (r is Some) == (exists|i: int|
                0 <= i < self.repos@.len() && (#[trigger] self.repos@[i]).name@ == name@),
            match r {
                Some(p) => exists|i: int|
                    {
                        &&& 0 <= i < self.repos@.len()
                        &&& (#[trigger] self.repos@[i]).name@ == name@
                        &&& p@ == self.repos@[i].root@
                        &&& forall|j: int| 0 <= j < i ==> (#[trigger] self.repos@[j]).name@ != name@
                    },
                None => true,
            },
    {
        let mut i: usize = 0;
        while i < self.repos.len()
            invariant
                0 <= i <= self.repos@.len(),
                forall|j: int| 0 <= j < i ==> (#[trigger] self.repos@[j]).name@ != name@,
            decreases self.repos@.len() - i,
        {
            if strutil::str_eq(self.repos[i].name.as_str(), name) {
                return Some(self.repos[i].root.clone());
            }
            i = i + 1;
        }
        None
    }
}

/// The aggregate persisted state: workspace, sessions, agents and the name
/// of the multiplexer session that hosts the windows.
#[derive(Debug, Clone)]
pub struct WorkspaceState {
    pub workspace: Workspace,
    pub sessions: Vec<Session>,
    pub agents: Vec<Agent>,
    pub tmux_session_name: String,
}

/// At most one session is the main session.
pub open spec fn at_most_one_main(sessions: Seq<Session>) -> bool {
    forall|i: int, j: int|
        0 <= i < j < sessions.len() ==> !(#[trigger] sessions[i].is_main && #[trigger] sessions[j].is_main)
}

impl WorkspaceState {
    /// The state invariant: the workspace is well-formed and at most one
    /// session is marked main.
    pub open spec fn wf(&self) -> bool {
        &&& self.workspace.wf()
        &&& at_most_one_main(self.sessions@)
    }

    /// An empty state for a freshly initialized workspace.
    pub fn new(workspace: Workspace, tmux_session_name: String) -> (r: WorkspaceState)
        ensures
            r.workspace == workspace,
            r.sessions@.len() == 0,
            r.agents@.len() == 0,
            r.tmux_session_name@ == tmux_session_name@,
            workspace.wf() ==> r.wf(),
    {
        WorkspaceState { workspace, sessions: Vec::new(), agents: Vec::new(), tmux_session_name }
    }

    /// Index of the first session with the given name, if any.
    pub fn session_index_by_name(&self, name: &str) -> (r: Option<usize>)
        ensures
            match r {
                Some(i) => {
                    &&& i < self.sessions@.len()
                    &&& self.sessions@[i as int].name@ == name@
                    &&& forall|j: int| 0 <= j < i ==> self.sessions@[j].name@ != name@
                },
                None => forall|j: int|
                    0 <= j < self.sessions@.len() ==> self.sessions@[j].name@ != name@,
            },
    {
        let mut i: usize = 0;
        while i < self.sessions.len()
            invariant
                0 <= i <= self.sessions@.len(),
                forall|j: int| 0 <= j < i ==> self.sessions@[j].name@ != name@,
            decreases self.sessions@.len() - i,
        {
            if strutil::str_eq(self.sessions[i].name.as_str(), name) {
                return Some(i);
            }
            i = i + 1;
        }
        None
    }

    /// The first session with the given name, if any.
    pub fn find_session_by_name(&self, name: &str) -> (r: Option<&Session>)
        ensures
            (r is Some) == (exists|i: int|
                0 <= i < self.sessions@.len() && #[trigger] self.sessions@[i].name@ == name@),
            match r {
                Some(s) => exists|i: int|
                    {
                        &&& 0 <= i < self.sessions@.len()
                        &&& *s == self.sessions@[i]
                        &&& #[trigger] self.sessions@[i].name@ == name@
                        &&& forall|j: int| 0 <= j < i ==> self.sessions@[j].name@ != name@
                    },
                None => true,
            },
    {
        match self.session_index_by_name(name) {
            Some(i) => Some(&self.sessions[i]),
            None => None,
        }
    }

    /// Index of the first session with the given id, if any.
    pub fn session_index_by_id(&self, id: u128) -> (r: Option<usize>)
        ensures
            match r {
                Some(i) => {
                    &&& i < self.sessions@.len()
                    &&& self.sessions@[i as int].id == id
                    &&& forall|j: int| 0 <= j < i ==> self.sessions@[j].id != id
                },
                None => forall|j: int| 0 <= j < self.sessions@.len() ==> self.sessions@[j].id != id,
            },
    {
        let mut i: usize = 0;
        while i < self.sessions.len()
            invariant
                0 <= i <= self.sessions@.len(),
                forall|j: int| 0 <= j < i ==> self.sessions@[j].id != id,
            decreases self.sessions@.len() - i,
        {
            if self.sessions[i].id == id {
                return Some(i);
            }
            i = i + 1;
        }
        None
    }

    /// The first session with the given id, if any.
    pub fn find_session_by_id(&self, id: u128) -> (r: Option<&Session>)
        ensures
            (r is Some) == (exists|i: int|
                0 <= i < self.sessions@.len() && #[trigger] self.sessions@[i].id == id),
            match r {
                Some(s) => s.id == id && exists|i: int|
                    0 <= i < self.sessions@.len() && *s == #[trigger] self.sessions@[i],
                None => true,
            },
    {
        match self.session_index_by_id(id) {
            Some(i) => Some(&self.sessions[i]),
            None => None,
        }
    }

    /// Index of the first agent with the given id, if any.
    pub fn agent_index_by_id(&self, id: u128) -> (r: Option<usize>)
        ensures
            match r {
                Some(i) => {
                    &&& i < self.agents@.len()
                    &&& self.agents@[i as int].id == id
                    &&& forall|j: int| 0 <= j < i ==> self.agents@[j].id != id
                },
                None => forall|j: int| 0 <= j < self.agents@.len() ==> self.agents@[j].id != id,
            },
    {
        let mut i: usize = 0;
        while i < self.agents.len()
            invariant
                0 <= i <= self.agents@.len(),
                forall|j: int| 0 <= j < i ==> self.agents@[j].id != id,
            decreases self.agents@.len() - i,
        {
            if self.agents[i].id == id {
                return Some(i);
            }
            i = i + 1;
        }
        None
    }

    /// Index of the first agent with the given name, if any.
    pub fn agent_index_by_name(&self, name: &str) -> (r: Option<usize>)
        ensures
            match r {
                Some(i) => {
                    &&& i < self.agents@.len()
                    &&& self.agents@[i as int].name@ == name@
                    &&& forall|j: int| 0 <= j < i ==> self.agents@[j].name@ != name@
                },
                None => forall|j: int|
                    0 <= j < self.agents@.len() ==> self.agents@[j].name@ != name@,
            },
    {
        let mut i: usize = 0;
        while i < self.agents.len()
            invariant
                0 <= i <= self.agents@.len(),
                forall|j: int| 0 <= j < i ==> self.agents@[j].name@ != name@,
            decreases self.agents@.len() - i,
        {
            if strutil::str_eq(self.agents[i].name.as_str(), name) {
                return Some(i);
            }
            i = i + 1;
        }
        None
    }

    /// The first agent with the given id, if any.
    pub fn find_agent_by_id(&self, id: u128) -> (r: Option<&Agent>)
        ensures
            (r is Some) == (exists|i: int|
                0 <= i < self.agents@.len() && #[trigger] self.agents@[i].id == id),
            match r {
                Some(a) => a.id == id && exists|i: int|
                    0 <= i < self.agents@.len() && *a == #[trigger] self.agents@[i],
                None => true,
            },
    {
        match self.agent_index_by_id(id) {
            Some(i) => Some(&self.agents[i]),
            None => None,
        }
    }

    /// The agents owned by the given session, in state order.
    pub fn agents_for_session(&self, session_id: u128) -> (r: Vec<&Agent>)
        ensures
            r@.map_values(|a: &Agent| *a) == self.agents@.filter(
                |a: Agent| a.parent_session == session_id,
            ),
    {
        let pred = |a: Agent| a.parent_session == session_id;
        let mut out: Vec<&Agent> = Vec::new();
        let mut i: usize = 0;
        while i < self.agents.len()
            invariant
                0 <= i <= self.agents@.len(),
                out@.map_values(|a: &Agent| *a) =~= self.agents@.take(i as int).filter(
                    |a: Agent| a.parent_session == session_id,
                ),
            decreases self.agents@.len() - i,
        {
            proof {
                reveal(Seq::filter);
                assert(self.agents@.take(i + 1).drop_last() =~= self.agents@.take(i as int));
                assert(self.agents@.take(i + 1).last() == self.agents@[i as int]);
            }
            if self.agents[i].parent_session == session_id {
                out.push(&self.agents[i]);
            }
            i = i + 1;
        }
        proof {
            reveal(Seq::filter);
            assert(self.agents@.take(self.agents@.len() as int) =~= self.agents@);
        }
        out
    }

    /// The sessions that count as live (`Active` or `Creating`), in order.
    pub fn active_sessions(&self) -> (r: Vec<&Session>)
        ensures
            r@.map_values(|s: &Session| *s) == self.sessions@.filter(
                |s: Session| s.status is Active || s.status is Creating,
            ),
    {
        let mut out: Vec<&Session> = Vec::new();
        let mut i: usize = 0;
        while i < self.sessions.len()
            invariant
                0 <= i <= self.sessions@.len(),
                out@.map_values(|s: &Session| *s) =~= self.sessions@.take(i as int).filter(
                    |s: Session| s.status is Active || s.status is Creating,
                ),
            decreases self.sessions@.len() - i,
        {
            proof {
                reveal(Seq::filter);
                assert(self.sessions@.take(i + 1).drop_last() =~= self.sessions@.take(i as int));
                assert(self.sessions@.take(i + 1).last() == self.sessions@[i as int]);
            }
            if self.sessions[i].is_active() {
                out.push(&self.sessions[i]);
            }
            i = i + 1;
        }
        proof {
            reveal(Seq::filter);
            assert(self.sessions@.take(self.sessions@.len() as int) =~= self.sessions@);
        }
        out
    }

    /// The agents whose status is `Running`, in order.
    pub fn running_agents(&self) -> (r: Vec<&Agent>)
        ensures
            r@.map_values(|a: &Agent| *a) == self.agents@.filter(|a: Agent| a.status is Running),
    {
        let mut out: Vec<&Agent> = Vec::new();
        let mut i: usize = 0;
        while i < self.agents.len()
            invariant
                0 <= i <= self.agents@.len(),
                out@.map_values(|a: &Agent| *a) =~= self.agents@.take(i as int).filter(
                    |a: Agent| a.status is Running,
                ),
            decreases self.agents@.len() - i,
        {
            proof {
                reveal(Seq::filter);
                assert(self.agents@.take(i + 1).drop_last() =~= self.agents@.take(i as int));
                assert(self.agents@.take(i + 1).last() == self.agents@[i as int]);
            }
            if self.agents[i].is_running() {
                out.push(&self.agents[i]);
            }
            i = i + 1;
        }
        proof {
            reveal(Seq::filter);
            assert(self.agents@.take(self.agents@.len() as int) =~= self.agents@);
        }
        out
    }
}

} // verus!
