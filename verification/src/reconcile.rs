//! The reconciliation engine: compares persisted state against the observed
//! existence of working copies, windows and panes, and repairs drift. A full
//! sweep covers every session and agent; the incremental tick checks exactly
//! one eligible agent, advancing a round-robin cursor.

use vstd::prelude::*;
use crate::domain::agent::{Agent, AgentStatus, agent_step};
use crate::domain::session::{SessionStatus, session_step};
use crate::domain::workspace::WorkspaceState;

verus! {

/// The rows of the correction table on which a non-archived session moves
/// to a new status.
pub open spec fn correction_applies(
    worktree_exists: bool,
    window_exists: bool,
    st: SessionStatus,
) -> bool {
    ||| (!worktree_exists && !window_exists)
    ||| (!worktree_exists && window_exists)
    ||| (worktree_exists && !window_exists && st is Active)
}

/// A ghost string for the failure reason in the correction table.
pub open spec fn missing_reason() -> Seq<char> {
    "working copy missing"@
}

/// Evaluates the correction table for one non-archived session.
pub fn session_correction(worktree_exists: bool, window_exists: bool, st: &SessionStatus) -> (r:
    Option<SessionStatus>)
    requires
        !(st is Archived),
    ensures
        !worktree_exists && !window_exists ==> r == Some(SessionStatus::Archived),
        !worktree_exists && window_exists ==> (r matches Some(n) && n is Failed
            && n->Failed_0@ == missing_reason()),
        worktree_exists && !window_exists && st is Active ==> (r matches Some(n) && n is Paused),
        worktree_exists && !window_exists && !(st is Active) ==> r is None,
        worktree_exists && window_exists ==> r is None,
        r matches Some(n) ==> session_step(*st, n),
{
    if !worktree_exists && !window_exists {
        Some(SessionStatus::Archived)
    } else if !worktree_exists {
        Some(SessionStatus::Failed("working copy missing".to_owned()))
    } else if !window_exists {
        match st {
            SessionStatus::Active => Some(SessionStatus::Paused),
            _ => None,
        }
    } else {
        None
    }
}

/// Applies the correction table to every session, given one observation pair
/// (working copy exists, window exists) per session. Returns how many
/// sessions were corrected.
pub fn sweep_sessions(state: &mut WorkspaceState, obs: &Vec<(bool, bool)>) -> (fixed: usize)
    requires
        obs@.len() == old(state).sessions@.len(),
    ensures
        final(state).workspace == old(state).workspace,
        final(state).agents == old(state).agents,
        final(state).tmux_session_name == old(state).tmux_session_name,
        final(state).sessions@.len() == old(state).sessions@.len(),
        forall|i: int|
            0 <= i < old(state).sessions@.len() ==> {
                let s = old(state).sessions@[i];
                let n = #[trigger] final(state).sessions@[i];
                if s.status is Archived {
                    n == s
                } else {
                    if correction_applies(obs@[i].0, obs@[i].1, s.status) {
                        {
                            &&& n.status == (if !obs@[i].0 && !obs@[i].1 {
                                SessionStatus::Archived
                            } else if !obs@[i].0 {
                                n.status
                            } else {
                                SessionStatus::Paused
                            })
                            &&& (!obs@[i].0 && obs@[i].1 ==> n.status is Failed
                                && n.status->Failed_0@ == missing_reason())
                            &&& session_step(s.status, n.status)
                            &&& n == (crate::domain::session::Session { status: n.status, ..s })
                        }
                    } else {
                        n == s
                    }
                }
            },
        (fixed == 0) ==> final(state).sessions@ == old(state).sessions@,
{
    let mut fixed: usize = 0;
    let mut i: usize = 0;
    let n = state.sessions.len();
    while i < n
        invariant
            n == old(state).sessions@.len(),
            obs@.len() == n,
            0 <= i <= n,
            state.workspace == old(state).workspace,
            state.agents == old(state).agents,
            state.tmux_session_name == old(state).tmux_session_name,
            state.sessions@.len() == n,
            0 <= fixed <= i,
            forall|j: int| i <= j < n ==> #[trigger] state.sessions@[j] == old(state).sessions@[j],
            forall|j: int|
                0 <= j < i ==> {
                    let s = old(state).sessions@[j];
                    let m = #[trigger] state.sessions@[j];
                    if s.status is Archived {
                        m == s
                    } else {
                        if correction_applies(obs@[j].0, obs@[j].1, s.status) {
                            {
                                &&& m.status == (if !obs@[j].0 && !obs@[j].1 {
                                    SessionStatus::Archived
                                } else if !obs@[j].0 {
                                    m.status
                                } else {
                                    SessionStatus::Paused
                                })
                                &&& (!obs@[j].0 && obs@[j].1 ==> m.status is Failed
                                    && m.status->Failed_0@ == missing_reason())
                                &&& session_step(s.status, m.status)
                                &&& m == (crate::domain::session::Session { status: m.status, ..s })
                            }
                        } else {
                            m == s
                        }
                    }
                },
            fixed == 0 ==> state.sessions@ =~= old(state).sessions@,
        decreases n - i,
    {
        let archived = match &state.sessions[i].status {
            SessionStatus::Archived => true,
            _ => false,
        };
        if !archived {
            let (w, t) = (obs[i].0, obs[i].1);
            let cor = session_correction(w, t, &state.sessions[i].status);
            match cor {
                Some(newst) => {
                    let sref = &mut state.sessions[i];
                    sref.status = newst;
                    fixed = fixed + 1;
                },
                None => (),
            }
        }
        i = i + 1;
    }
    fixed
}

/// True when the incremental tick must look at this agent: it records a pane
/// and its process is believed to run.
pub open spec fn agent_needs_check(a: Agent) -> bool {
    a.tmux_pane is Some && a.status is Running
}

/// Marks one running agent whose pane disappeared as failed and clears the
/// recorded handle.
pub fn apply_pane_lost(state: &mut WorkspaceState, i: usize)
    requires
        i < old(state).agents@.len(),
        agent_needs_check(old(state).agents@[i as int]),
    ensures
        final(state).workspace == old(state).workspace,
        final(state).sessions == old(state).sessions,
        final(state).tmux_session_name == old(state).tmux_session_name,
        final(state).agents@.len() == old(state).agents@.len(),
        forall|j: int|
            0 <= j < old(state).agents@.len() && j != i ==> #[trigger] final(state).agents@[j]
                == old(state).agents@[j],
        final(state).agents@[i as int].status is Failed,
        final(state).agents@[i as int].status->Failed_0@ == "pane lost"@,
        final(state).agents@[i as int].tmux_pane is None,
        final(state).agents@[i as int] == (Agent {
            status: final(state).agents@[i as int].status,
            tmux_pane: None,
            ..old(state).agents@[i as int]
        }),
        agent_step(old(state).agents@[i as int].status, final(state).agents@[i as int].status),
{
    let aref = &mut state.agents[i];
    aref.status = AgentStatus::Failed("pane lost".to_owned());
    aref.tmux_pane = None;
}

/// Applies pane-lost corrections across all agents, given one observation
/// per agent saying whether its pane still exists (ignored for agents that
/// need no check). Returns how many agents were corrected.
pub fn sweep_agents(state: &mut WorkspaceState, pane_exists: &Vec<bool>) -> (fixed: usize)
    requires
        pane_exists@.len() == old(state).agents@.len(),
    ensures
        final(state).workspace == old(state).workspace,
        final(state).sessions == old(state).sessions,
        final(state).tmux_session_name == old(state).tmux_session_name,
        final(state).agents@.len() == old(state).agents@.len(),
        forall|i: int|
            0 <= i < old(state).agents@.len() ==> {
                let a = old(state).agents@[i];
                let m = #[trigger] final(state).agents@[i];
                if agent_needs_check(a) && !pane_exists@[i] {
                    &&& m.status is Failed
                    &&& m.status->Failed_0@ == "pane lost"@
                    &&& m.tmux_pane is None
                    &&& m == (Agent { status: m.status, tmux_pane: None, ..a })
                    &&& agent_step(a.status, m.status)
                } else {
                    m == a
                }
            },
        (fixed == 0) ==> final(state).agents@ == old(state).agents@,
{
    let mut fixed: usize = 0;
    let mut i: usize = 0;
    let n = state.agents.len();
    while i < n
        invariant
            n == old(state).agents@.len(),
            pane_exists@.len() == n,
            0 <= i <= n,
            state.workspace == old(state).workspace,
            state.sessions == old(state).sessions,
            state.tmux_session_name == old(state).tmux_session_name,
            state.agents@.len() == n,
            0 <= fixed <= i,
            forall|j: int| i <= j < n ==> #[trigger] state.agents@[j] == old(state).agents@[j],
            forall|j: int|
                0 <= j < i ==> {
                    let a = old(state).agents@[j];
                    let m = #[trigger] state.agents@[j];
                    if agent_needs_check(a) && !pane_exists@[j] {
                        &&& m.status is Failed
                        &&& m.status->Failed_0@ == "pane lost"@
                        &&& m.tmux_pane is None
                        &&& m == (Agent { status: m.status, tmux_pane: None, ..a })
                        &&& agent_step(a.status, m.status)
                    } else {
                        m == a
                    }
                },
            fixed == 0 ==> state.agents@ =~= old(state).agents@,
        decreases n - i,
    {
        let needs = match (&state.agents[i].tmux_pane, &state.agents[i].status) {
            (Some(_), AgentStatus::Running) => true,
            _ => false,
        };
        if needs && !pane_exists[i] {
            apply_pane_lost(state, i);
            fixed = fixed + 1;
        }
        i = i + 1;
    }
    fixed
}

/// Circular distance from `a` to `b` in a ring of `n` positions.
pub open spec fn ring_dist(a: int, b: int, n: int) -> int {
    if b >= a {
        b - a
    } else {
        b - a + n
    }
}

/// Picks the next agent the incremental tick must check: the first eligible
/// agent at or after the cursor, wrapping around at most once. Returns the
/// advanced cursor and the chosen index, or `None` when no agent needs a
/// check.
pub fn next_reconcile_target(agents: &Vec<Agent>, cursor: usize) -> (r: (usize, Option<usize>))
    ensures
        r.1 matches Some(i) ==> {
            &&& i < agents@.len()
            &&& agent_needs_check(agents@[i as int])
            &&& r.0 == i + 1
            &&& forall|j: int|
                0 <= j < agents@.len() && agent_needs_check(#[trigger] agents@[j]) ==> ring_dist(
                    (cursor as int) % (agents@.len() as int),
                    i as int,
                    agents@.len() as int,
                ) <= ring_dist(
                    (cursor as int) % (agents@.len() as int),
                    j,
                    agents@.len() as int,
                )
        },
        r.1 is None ==> forall|j: int|
            0 <= j < agents@.len() ==> !agent_needs_check(#[trigger] agents@[j]),
{
    let n = agents.len();
    if n == 0 {
        return (0, None);
    }
    let start = cursor % n;
    let mut k: usize = 0;
    while k < n
        invariant
            n == agents@.len(),
            n > 0,
            start == (cursor as int) % (n as int),
            0 <= start < n,
            0 <= k <= n,
            forall|j: int|
                0 <= j < n && ring_dist(start as int, j, n as int) < k ==> !agent_needs_check(
                    #[trigger] agents@[j],
                ),
        decreases n - k,
    {
        let idx = if k < n - start {
            start + k
        } else {
            k - (n - start)
        };
        proof {
            assert(ring_dist(start as int, idx as int, n as int) == k);
        }
        let eligible = match (&agents[idx].tmux_pane, &agents[idx].status) {
            (Some(_), AgentStatus::Running) => true,
            _ => false,
        };
        if eligible {
            proof {
                assert forall|j: int|
                    0 <= j < n && agent_needs_check(#[trigger] agents@[j]) implies ring_dist(
                    start as int,
                    idx as int,
                    n as int,
                ) <= ring_dist(start as int, j, n as int) by {
                    if ring_dist(start as int, j, n as int) < k {
                        assert(!agent_needs_check(agents@[j]));
                    }
                }
            }
            return (idx + 1, Some(idx));
        }
        k = k + 1;
    }
    proof {
        assert forall|j: int| 0 <= j < n implies !agent_needs_check(#[trigger] agents@[j]) by {
            assert(0 <= ring_dist(start as int, j, n as int) < n);
        }
    }
    (cursor, None)
}

} // verus!
