//! The orchestration facade's decisions: creating, spawning, killing and
//! cleaning up sessions as pure state transformations. The process and
//! filesystem work around them happens at the edges; these functions decide
//! and commit.

use vstd::prelude::*;
use crate::domain::agent::Agent;
use crate::domain::session::{RepoWorktree, Session, SessionStatus};
use crate::domain::workspace::{WorkspaceState, at_most_one_main};
use crate::error::VibeError;
use crate::strutil;
use crate::strutil::lex_le;

verus! {

/// Filtering sessions never creates a second main session.
proof fn lemma_filter_keeps_amom(s: Seq<Session>, pred: spec_fn(Session) -> bool)
    requires
        at_most_one_main(s),
    ensures
        at_most_one_main(s.filter(pred)),
    decreases s.len(),
{
    reveal(Seq::filter);
    if s.len() > 0 {
        assert(forall|i: int, j: int|
            0 <= i < j < s.drop_last().len() ==> !(#[trigger] s.drop_last()[i].is_main
                && #[trigger] s.drop_last()[j].is_main));
        lemma_filter_keeps_amom(s.drop_last(), pred);
        let f = s.filter(pred);
        let fd = s.drop_last().filter(pred);
        if pred(s.last()) {
            assert(f == fd.push(s.last()));
            assert forall|i: int, j: int| 0 <= i < j < f.len() implies !(#[trigger] f[i].is_main
                && #[trigger] f[j].is_main) by {
                if j < f.len() - 1 {
                    assert(f[i] == fd[i] && f[j] == fd[j]);
                } else {
                    assert(f[j] == s.last());
                    // a main element of the filtered prefix came from the
                    // prefix, so a main last element would make two
                    if f[i].is_main && s.last().is_main {
                        assert(f[i] == fd[i]);
                        assert(fd.contains(fd[i]));
                        s.drop_last().lemma_filter_contains_rev(pred, fd[i]);
                        let w = choose|w: int|
                            0 <= w < s.drop_last().len() && s.drop_last()[w] == fd[i];
                        assert(s[w] == s.drop_last()[w]);
                        assert(s[w].is_main && s[s.len() - 1].is_main);
                    }
                }
            }
        } else {
            assert(f == fd);
        }
    }
}

/// What a kill request may do.
#[derive(Debug, PartialEq)]
pub enum KillDecision {
    /// No session has the requested name.
    NotFound,
    /// The request names the main session, which is never killed.
    MainRefused,
    /// The session is live and the request lacks force; nothing happens.
    ActiveSkipped,
    /// The session at this index is to be torn down.
    Proceed(usize),
}

/// Decides a kill request against the first session with the target name.
/// The main session is refused whether or not the request carries force; a
/// live session without force is left alone.
pub fn check_kill(state: &WorkspaceState, target: &str, force: bool) -> (r: KillDecision)
    ensures
        (forall|j: int|
            0 <= j < state.sessions@.len() ==> (#[trigger] state.sessions@[j].name@) != target@)
            ==> r == KillDecision::NotFound,
        forall|i: int|
            (0 <= i < state.sessions@.len() && (#[trigger] state.sessions@[i].name@) == target@
                && (forall|j: int| 0 <= j < i ==> (#[trigger] state.sessions@[j].name@) != target@))
                ==> {
                let s = state.sessions@[i];
                if s.is_main {
                    r == KillDecision::MainRefused
                } else if !force && (s.status is Active || s.status is Creating) {
                    r == KillDecision::ActiveSkipped
                } else {
                    r == KillDecision::Proceed(i as usize)
                }
            },
{
    match state.session_index_by_name(target) {
        None => KillDecision::NotFound,
        Some(i) => {
            if state.sessions[i].is_main {
                KillDecision::MainRefused
            } else if !force && state.sessions[i].is_active() {
                KillDecision::ActiveSkipped
            } else {
                KillDecision::Proceed(i)
            }
        },
    }
}

/// Removes a session and every agent it owns from the state.
pub fn remove_session(state: &mut WorkspaceState, session_id: u128)
    ensures
        final(state).workspace == old(state).workspace,
        final(state).tmux_session_name == old(state).tmux_session_name,
        final(state).sessions@ == old(state).sessions@.filter(|s: Session| s.id != session_id),
        final(state).agents@ == old(state).agents@.filter(
            |a: Agent| a.parent_session != session_id,
        ),
        old(state).wf() ==> final(state).wf(),
{
    let mut src_sessions: Vec<Session> = Vec::new();
    core::mem::swap(&mut src_sessions, &mut state.sessions);
    let ghost all = src_sessions@;
    let total = src_sessions.len();
    let mut kept_sessions: Vec<Session> = Vec::new();
    let mut i: usize = 0;
    while src_sessions.len() > 0
        invariant
            all.len() == total,
            0 <= i <= total,
            src_sessions@ =~= all.skip(i as int),
            kept_sessions@ =~= all.take(i as int).filter(|s: Session| s.id != session_id),
        decreases all.len() - i,
    {
        proof {
            reveal(Seq::filter);
            assert(all.take(i + 1).drop_last() =~= all.take(i as int));
            assert(all.take(i + 1).last() == all[i as int]);
            assert(all.skip(i as int)[0] == all[i as int]);
            assert(all.skip(i as int).remove(0) =~= all.skip(i + 1));
        }
        let s = src_sessions.remove(0);
        if s.id != session_id {
            kept_sessions.push(s);
        }
        i = i + 1;
    }
    proof {
        assert(all.take(all.len() as int) =~= all);
    }
    state.sessions = kept_sessions;

    let mut src_agents: Vec<Agent> = Vec::new();
    core::mem::swap(&mut src_agents, &mut state.agents);
    let ghost alla = src_agents@;
    let total_a = src_agents.len();
    let mut kept_agents: Vec<Agent> = Vec::new();
    let mut k: usize = 0;
    while src_agents.len() > 0
        invariant
            alla.len() == total_a,
            0 <= k <= total_a,
            src_agents@ =~= alla.skip(k as int),
            kept_agents@ =~= alla.take(k as int).filter(
                |a: Agent| a.parent_session != session_id,
            ),
        decreases alla.len() - k,
    {
        proof {
            reveal(Seq::filter);
            assert(alla.take(k + 1).drop_last() =~= alla.take(k as int));
            assert(alla.take(k + 1).last() == alla[k as int]);
            assert(alla.skip(k as int)[0] == alla[k as int]);
            assert(alla.skip(k as int).remove(0) =~= alla.skip(k + 1));
        }
        let a = src_agents.remove(0);
        if a.parent_session != session_id {
            kept_agents.push(a);
        }
        k = k + 1;
    }
    proof {
        assert(alla.take(alla.len() as int) =~= alla);
    }
    state.agents = kept_agents;
    proof {
        if old(state).wf() {
            lemma_filter_keeps_amom(all, |s: Session| s.id != session_id);
        }
    }
}

/// The default branch name derived from a session name.
pub fn default_branch_name(name: &str) -> (r: String)
    ensures
        r@ == "feat/"@ + name@,
{
    strutil::concat2("feat/", name)
}

/// Rejects a session name that is already taken by any session.
pub fn check_new_session_name(state: &WorkspaceState, name: &str) -> (r: Option<VibeError>)
    ensures
        (r is Some) == (exists|i: int|
            0 <= i < state.sessions@.len() && (#[trigger] state.sessions@[i].name@) == name@),
        r matches Some(e) ==> e is User,
{
    match state.session_index_by_name(name) {
        Some(i) => {
            let msg = strutil::concat3("Session '", name, "' already exists. Use a different name.");
            Some(VibeError::User(msg))
        },
        None => None,
    }
}

/// Appends a freshly provisioned session in `Active` state and returns its
/// identifier.
pub fn register_session(
    state: &mut WorkspaceState,
    name: String,
    branch: String,
    worktree_path: String,
    window_id: String,
    repo_worktrees: Vec<RepoWorktree>,
    template: Option<String>,
) -> (id: u128)
    ensures
        final(state).workspace == old(state).workspace,
        final(state).tmux_session_name == old(state).tmux_session_name,
        final(state).agents == old(state).agents,
        final(state).sessions@.len() == old(state).sessions@.len() + 1,
        forall|i: int|
            0 <= i < old(state).sessions@.len() ==> #[trigger] final(state).sessions@[i]
                == old(state).sessions@[i],
        ({
            let s = final(state).sessions@.last();
            &&& s.name@ == name@
            &&& s.branch@ == branch@
            &&& s.worktree_path@ == worktree_path@
            &&& s.tmux_window@ == window_id@
            &&& s.status is Active
            &&& !s.is_main
            &&& s.repo_worktrees == repo_worktrees
            &&& s.template == template
            &&& s.agents@.len() == 0
            &&& s.id == id
        }),
        old(state).wf() ==> final(state).wf(),
{
    let mut s = Session::new(name, branch, worktree_path, window_id);
    s.status = SessionStatus::Active;
    s.repo_worktrees = repo_worktrees;
    s.template = template;
    let id = s.id;
    state.sessions.push(s);
    proof {
        if old(state).wf() {
            assert forall|i: int, j: int|
                0 <= i < j < final(state).sessions@.len() implies !(
            #[trigger] final(state).sessions@[i].is_main
                && #[trigger] final(state).sessions@[j].is_main) by {
                if j < final(state).sessions@.len() - 1 {
                    assert(final(state).sessions@[i] == old(state).sessions@[i]);
                    assert(final(state).sessions@[j] == old(state).sessions@[j]);
                }
            }
        }
    }
    id
}

/// Ensures the permanent main session exists: when no session is marked
/// main, one pointing at the workspace root is inserted first. Calling it
/// again changes nothing, and afterwards exactly one main session exists.
pub fn ensure_main_session(state: &mut WorkspaceState) -> (changed: bool)
    ensures
        final(state).workspace == old(state).workspace,
        final(state).tmux_session_name == old(state).tmux_session_name,
        final(state).agents == old(state).agents,
        changed == !(exists|i: int|
            0 <= i < old(state).sessions@.len() && (#[trigger] old(state).sessions@[i]).is_main),
        !changed ==> final(state).sessions == old(state).sessions,
        changed ==> {
            &&& final(state).sessions@.len() == old(state).sessions@.len() + 1
            &&& final(state).sessions@[0].is_main
            &&& final(state).sessions@[0].name@ == "main"@
            &&& final(state).sessions@[0].status is Active
            &&& final(state).sessions@[0].branch@ == old(state).workspace.default_branch@
            &&& final(state).sessions@[0].worktree_path@ == old(state).workspace.root@
            &&& forall|i: int|
                0 <= i < old(state).sessions@.len() ==> #[trigger] final(state).sessions@[i + 1]
                    == old(state).sessions@[i]
        },
        exists|i: int|
            0 <= i < final(state).sessions@.len() && (#[trigger] final(state).sessions@[i]).is_main,
        old(state).wf() ==> final(state).wf(),
{
    let mut i: usize = 0;
    while i < state.sessions.len()
        invariant
            0 <= i <= state.sessions@.len(),
            state == old(state),
            forall|j: int| 0 <= j < i ==> !(#[trigger] state.sessions@[j]).is_main,
        decreases state.sessions@.len() - i,
    {
        if state.sessions[i].is_main {
            return false;
        }
        i = i + 1;
    }
    let name = "main".to_owned();
    let branch = state.workspace.default_branch.clone();
    let root = state.workspace.root.clone();
    let mut s = Session::new(name, branch, root, String::new());
    s.is_main = true;
    s.status = SessionStatus::Active;
    state.sessions.insert(0, s);
    proof {
        assert(final(state).sessions@[0].is_main);
        assert forall|i: int, j: int|
            0 <= i < j < final(state).sessions@.len() implies !(
        #[trigger] final(state).sessions@[i].is_main
            && #[trigger] final(state).sessions@[j].is_main) by {
            assert(final(state).sessions@[j] == old(state).sessions@[j - 1]);
        }
    }
    true
}

/// True of a session a cleanup pass selects: archived, or completed when
/// the pass covers completed sessions too.
pub open spec fn cleanup_selects(s: Session, all: bool) -> bool {
    s.status is Archived || (all && s.status is Completed)
}

/// The indices of the sessions a cleanup pass would remove, in order.
pub fn cleanup_selection(state: &WorkspaceState, all: bool) -> (r: Vec<usize>)
    ensures
        forall|k: int|
            0 <= k < r@.len() ==> (#[trigger] r@[k]) < state.sessions@.len() && cleanup_selects(
                state.sessions@[r@[k] as int],
                all,
            ),
        forall|k1: int, k2: int| 0 <= k1 < k2 < r@.len() ==> r@[k1] < r@[k2],
        forall|i: int|
            0 <= i < state.sessions@.len() && cleanup_selects(#[trigger] state.sessions@[i], all)
                ==> r@.contains(i as usize),
{
    let mut r: Vec<usize> = Vec::new();
    let mut i: usize = 0;
    while i < state.sessions.len()
        invariant
            0 <= i <= state.sessions@.len(),
            forall|k: int|
                0 <= k < r@.len() ==> (#[trigger] r@[k]) < i && cleanup_selects(
                    state.sessions@[r@[k] as int],
                    all,
                ),
            forall|k1: int, k2: int| 0 <= k1 < k2 < r@.len() ==> r@[k1] < r@[k2],
            forall|j: int|
                0 <= j < i && cleanup_selects(#[trigger] state.sessions@[j], all) ==> r@.contains(
                    j as usize,
                ),
        decreases state.sessions@.len() - i,
    {
        let selected = match &state.sessions[i].status {
            SessionStatus::Archived => true,
            SessionStatus::Completed => all,
            _ => false,
        };
        let ghost prev_r = r@;
        if selected {
            r.push(i);
            assert(r@.last() == i as usize);
        }
        proof {
            assert forall|j: int|
                0 <= j < i + 1 && cleanup_selects(#[trigger] state.sessions@[j], all) implies r@
                .contains(j as usize) by {
                if j < i {
                    assert(prev_r.contains(j as usize));
                    let w = choose|w: int| 0 <= w < prev_r.len() && prev_r[w] == j as usize;
                    assert(r@[w] == j as usize);
                } else {
                    assert(selected);
                    assert(r@[r@.len() - 1] == j as usize);
                }
            }
        }
        i = i + 1;
    }
    r
}

/// Removes the sessions with the given identifiers and every agent they
/// own.
pub fn remove_sessions_by_ids(state: &mut WorkspaceState, gone: &Vec<u128>)
    ensures
        final(state).workspace == old(state).workspace,
        final(state).tmux_session_name == old(state).tmux_session_name,
        final(state).sessions@ == old(state).sessions@.filter(
            |s: Session| !gone@.contains(s.id),
        ),
        final(state).agents@ == old(state).agents@.filter(
            |a: Agent| !gone@.contains(a.parent_session),
        ),
        old(state).wf() ==> final(state).wf(),
{
    let mut src_sessions: Vec<Session> = Vec::new();
    core::mem::swap(&mut src_sessions, &mut state.sessions);
    let ghost all = src_sessions@;
    let total = src_sessions.len();
    let mut kept_sessions: Vec<Session> = Vec::new();
    let mut i: usize = 0;
    while src_sessions.len() > 0
        invariant
            all.len() == total,
            0 <= i <= total,
            src_sessions@ =~= all.skip(i as int),
            kept_sessions@ =~= all.take(i as int).filter(|s: Session| !gone@.contains(s.id)),
        decreases all.len() - i,
    {
        proof {
            reveal(Seq::filter);
            assert(all.take(i + 1).drop_last() =~= all.take(i as int));
            assert(all.take(i + 1).last() == all[i as int]);
            assert(all.skip(i as int)[0] == all[i as int]);
            assert(all.skip(i as int).remove(0) =~= all.skip(i + 1));
        }
        let s = src_sessions.remove(0);
        let is_gone = contains_id(gone, s.id);
        if !is_gone {
            kept_sessions.push(s);
        }
        i = i + 1;
    }
    proof {
        assert(all.take(all.len() as int) =~= all);
    }
    state.sessions = kept_sessions;

    let mut src_agents: Vec<Agent> = Vec::new();
    core::mem::swap(&mut src_agents, &mut state.agents);
    let ghost alla = src_agents@;
    let total_a = src_agents.len();
    let mut kept_agents: Vec<Agent> = Vec::new();
    let mut k: usize = 0;
    while src_agents.len() > 0
        invariant
            alla.len() == total_a,
            0 <= k <= total_a,
            src_agents@ =~= alla.skip(k as int),
            kept_agents@ =~= alla.take(k as int).filter(
                |a: Agent| !gone@.contains(a.parent_session),
            ),
        decreases alla.len() - k,
    {
        proof {
            reveal(Seq::filter);
            assert(alla.take(k + 1).drop_last() =~= alla.take(k as int));
            assert(alla.take(k + 1).last() == alla[k as int]);
            assert(alla.skip(k as int)[0] == alla[k as int]);
            assert(alla.skip(k as int).remove(0) =~= alla.skip(k + 1));
        }
        let a = src_agents.remove(0);
        let is_gone = contains_id(gone, a.parent_session);
        if !is_gone {
            kept_agents.push(a);
        }
        k = k + 1;
    }
    proof {
        assert(alla.take(alla.len() as int) =~= alla);
    }
    state.agents = kept_agents;
    proof {
        if old(state).wf() {
            lemma_filter_keeps_amom(all, |s: Session| !gone@.contains(s.id));
        }
    }
}

/// True when the list holds the identifier.
fn contains_id(v: &Vec<u128>, x: u128) -> (r: bool)
    ensures
        r == v@.contains(x),
{
    let mut i: usize = 0;
    while i < v.len()
        invariant
            0 <= i <= v@.len(),
            forall|j: int| 0 <= j < i ==> v@[j] != x,
        decreases v@.len() - i,
    {
        if v[i] == x {
            return true;
        }
        i = i + 1;
    }
    false
}

/// Resolves the parent session for a spawn: the named session when a name
/// is given, else the most recently created live session, where creation
/// stamps compare lexicographically and the last of equals wins.
pub fn resolve_parent_session(state: &WorkspaceState, session_name: Option<&str>) -> (r: Result<
    usize,
    VibeError,
>)
    ensures
        match session_name {
            Some(n) => match r {
                Ok(i) => {
                    &&& i < state.sessions@.len()
                    &&& state.sessions@[i as int].name@ == n@
                },
                Err(e) => e is SessionNotFound && forall|j: int|
                    0 <= j < state.sessions@.len() ==> (#[trigger] state.sessions@[j].name@) != n@,
            },
            None => match r {
                Ok(i) => {
                    let c = state.sessions@[i as int].created_at@;
                    &&& i < state.sessions@.len()
                    &&& (state.sessions@[i as int].status is Active
                        || state.sessions@[i as int].status is Creating)
                    &&& forall|j: int|
                        0 <= j < state.sessions@.len() && ((#[trigger] state.sessions@[j].status)
                            is Active || state.sessions@[j].status is Creating) ==> lex_le(
                            state.sessions@[j].created_at@,
                            c,
                        )
                    &&& forall|j: int|
                        i < j < state.sessions@.len() && ((#[trigger] state.sessions@[j].status)
                            is Active || state.sessions@[j].status is Creating) ==> !lex_le(
                            c,
                            state.sessions@[j].created_at@,
                        )
                },
                Err(e) => e is User && forall|j: int|
                    0 <= j < state.sessions@.len() ==> !((#[trigger] state.sessions@[j].status)
                        is Active || state.sessions@[j].status is Creating),
            },
        },
{
    match session_name {
        Some(n) => match state.session_index_by_name(n) {
            Some(i) => Ok(i),
            None => Err(VibeError::SessionNotFound(n.to_owned())),
        },
        None => {
            let mut best: Option<usize> = None;
            let mut i: usize = 0;
            while i < state.sessions.len()
                invariant
                    0 <= i <= state.sessions@.len(),
                    match best {
                        None => forall|j: int|
                            0 <= j < i ==> !((#[trigger] state.sessions@[j].status) is Active
                                || state.sessions@[j].status is Creating),
                        Some(b) => {
                            let c = state.sessions@[b as int].created_at@;
                            &&& b < i
                            &&& (state.sessions@[b as int].status is Active
                                || state.sessions@[b as int].status is Creating)
                            &&& forall|j: int|
                                0 <= j < i && ((#[trigger] state.sessions@[j].status) is Active
                                    || state.sessions@[j].status is Creating) ==> lex_le(
                                    state.sessions@[j].created_at@,
                                    c,
                                )
                            &&& forall|j: int|
                                b < j < i && ((#[trigger] state.sessions@[j].status) is Active
                                    || state.sessions@[j].status is Creating) ==> !lex_le(
                                    c,
                                    state.sessions@[j].created_at@,
                                )
                        },
                    },
                decreases state.sessions@.len() - i,
            {
                if state.sessions[i].is_active() {
                    let take_it = match best {
                        None => true,
                        Some(b) => strutil::str_le(
                            state.sessions[b].created_at.as_str(),
                            state.sessions[i].created_at.as_str(),
                        ),
                    };
                    proof {
                        strutil::lemma_lex_refl(state.sessions@[i as int].created_at@);
                        match best {
                            Some(b) => {
                                let cb = state.sessions@[b as int].created_at@;
                                let ci = state.sessions@[i as int].created_at@;
                                strutil::lemma_lex_total(cb, ci);
                                if take_it {
                                    assert forall|j: int|
                                        0 <= j < i + 1 && ((#[trigger] state.sessions@[j].status)
                                            is Active || state.sessions@[j].status is Creating)
                                        implies lex_le(state.sessions@[j].created_at@, ci) by {
                                        if j < i {
                                            strutil::lemma_lex_trans(
                                                state.sessions@[j].created_at@,
                                                cb,
                                                ci,
                                            );
                                        } else {
                                            strutil::lemma_lex_refl(ci);
                                        }
                                    }
                                }
                            },
                            None => {},
                        }
                    }
                    if take_it {
                        best = Some(i);
                    }
                }
                i = i + 1;
            }
            match best {
                Some(b) => Ok(b),
                None => Err(VibeError::User("No active sessions found".to_owned())),
            }
        },
    }
}

/// Appends a spawned agent and records it on its parent session.
pub fn commit_spawn(state: &mut WorkspaceState, agent: Agent, parent_idx: usize)
    requires
        parent_idx < old(state).sessions@.len(),
    ensures
        final(state).workspace == old(state).workspace,
        final(state).tmux_session_name == old(state).tmux_session_name,
        final(state).agents@ == old(state).agents@.push(agent),
        final(state).sessions@.len() == old(state).sessions@.len(),
        forall|i: int|
            0 <= i < old(state).sessions@.len() && i != parent_idx
                ==> (#[trigger] final(state).sessions@[i]) == old(state).sessions@[i],
        final(state).sessions@[parent_idx as int] == (Session {
            agents: final(state).sessions@[parent_idx as int].agents,
            ..old(state).sessions@[parent_idx as int]
        }),
        final(state).sessions@[parent_idx as int].agents@ == old(
            state,
        ).sessions@[parent_idx as int].agents@.push(agent.id),
        old(state).wf() ==> final(state).wf(),
{
    let agent_id = agent.id;
    state.agents.push(agent);
    let sref = &mut state.sessions[parent_idx];
    sref.agents.push(agent_id);
    proof {
        if old(state).wf() {
            assert forall|i: int, j: int|
                0 <= i < j < final(state).sessions@.len() implies !(
            #[trigger] final(state).sessions@[i].is_main
                && #[trigger] final(state).sessions@[j].is_main) by {
                assert(final(state).sessions@[i].is_main == old(state).sessions@[i].is_main);
                assert(final(state).sessions@[j].is_main == old(state).sessions@[j].is_main);
            }
        }
    }
}

} // verus!
