//! The working-copy provisioner's decisions: collision-resistant naming,
//! base-reference resolution, the partial-failure policy of multi-repo
//! provisioning, the listing parser, and orphan detection.

use vstd::prelude::*;
use crate::domain::session::{RepoWorktree, repo_worktrees_wf};
use crate::domain::workspace::RepoInfo;
use crate::strutil::lex_le;
use crate::domain::workspace::WorkspaceState;
use crate::strutil;
use crate::strutil::{seq_join, split_seq, contains_seq, starts_with_seq};
use vstd::string::StrSliceExecFns;

verus! {

/// A working copy the version-control tool reports.
#[derive(Debug, Clone, PartialEq)]
pub struct WorktreeInfo {
    pub path: String,
    pub branch: String,
}

/// The generated directory name of a single-repo working copy.
pub fn worktree_dir_name(repo_name: &str, short_id: &str) -> (r: String)
    ensures
        r@ == repo_name@ + "-vibe-"@ + short_id@,
{
    strutil::concat3(repo_name, "-vibe-", short_id)
}

/// The base reference a provisioning starts from: the explicit one, else
/// the remote's default branch.
pub fn resolved_base_ref(base: Option<&str>, default_branch: &str) -> (r: String)
    ensures
        match base {
            Some(b) => r@ == b@,
            None => r@ == "origin/"@ + default_branch@,
        },
{
    match base {
        Some(b) => b.to_owned(),
        None => strutil::concat2("origin/", default_branch),
    }
}

/// The root directory of a multi-repo session's working copies.
pub fn multi_repo_session_root(base_dir: &str, parent_name: &str, short_id: &str) -> (r: String)
    ensures
        r@ == base_dir@ + "/"@ + parent_name@ + "-vibe-"@ + short_id@,
{
    let name = worktree_dir_name(parent_name, short_id);
    strutil::concat3(base_dir, "/", name.as_str())
}

/// Where one repository's working copy goes inside a session root.
pub fn repo_target_path(session_root: &str, repo_name: &str) -> (r: String)
    ensures
        r@ == session_root@ + "/"@ + repo_name@,
{
    strutil::concat3(session_root, "/", repo_name)
}

/// What provisioning one repository came to.
#[derive(Debug, Clone, PartialEq)]
pub struct RepoProvisionOutcome {
    pub repo: String,
    pub path: String,
    /// The failure message, or `None` on success.
    pub error: Option<String>,
}

/// The working-copy map entries of the successful outcomes, in order.
pub open spec fn success_entries(rs: Seq<RepoProvisionOutcome>) -> Seq<RepoWorktree>
    decreases rs.len(),
{
    if rs.len() == 0 {
        Seq::empty()
    } else {
        success_entries(rs.drop_last()) + (if rs.last().error is None {
            seq![RepoWorktree { repo: rs.last().repo, path: rs.last().path }]
        } else {
            Seq::empty()
        })
    }
}

/// The failure messages of the failed outcomes, in order.
pub open spec fn failure_msgs(rs: Seq<RepoProvisionOutcome>) -> Seq<Seq<char>>
    decreases rs.len(),
{
    if rs.len() == 0 {
        Seq::empty()
    } else {
        failure_msgs(rs.drop_last()) + (match rs.last().error {
            Some(e) => seq![rs.last().repo@ + ": "@ + e@],
            None => Seq::empty(),
        })
    }
}

/// Every successful entry's repository name comes from some outcome.
proof fn lemma_success_entries_names(rs: Seq<RepoProvisionOutcome>)
    ensures
        forall|k: int|
            0 <= k < success_entries(rs).len() ==> exists|i: int|
                0 <= i < rs.len() && (#[trigger] success_entries(rs)[k]).repo@ == rs[i].repo@,
    decreases rs.len(),
{
    if rs.len() > 0 {
        lemma_success_entries_names(rs.drop_last());
        let e = success_entries(rs);
        let ed = success_entries(rs.drop_last());
        assert forall|k: int|
            0 <= k < e.len() implies exists|i: int|
            0 <= i < rs.len() && (#[trigger] e[k]).repo@ == rs[i].repo@ by {
            if k < ed.len() {
                assert(e[k] == ed[k]);
                let w = choose|i: int|
                    0 <= i < rs.drop_last().len() && ed[k].repo@ == rs.drop_last()[i].repo@;
                assert(e[k].repo@ == rs[w].repo@);
            } else {
                assert(e[k].repo@ == rs[rs.len() - 1].repo@);
            }
        }
    }
}

/// Outcomes for distinct repositories fold to a map of distinct
/// repositories.
proof fn lemma_success_entries_unique(rs: Seq<RepoProvisionOutcome>)
    requires
        forall|i: int, j: int|
            0 <= i < j < rs.len() ==> (#[trigger] rs[i]).repo@ != (#[trigger] rs[j]).repo@,
    ensures
        repo_worktrees_wf(success_entries(rs)),
    decreases rs.len(),
{
    if rs.len() > 0 {
        let d = rs.drop_last();
        assert(forall|i: int, j: int|
            0 <= i < j < d.len() ==> (#[trigger] d[i]).repo@ != (#[trigger] d[j]).repo@);
        lemma_success_entries_unique(d);
        lemma_success_entries_names(d);
        let e = success_entries(rs);
        let ed = success_entries(d);
        assert forall|k1: int, k2: int|
            0 <= k1 < k2 < e.len() implies crate::domain::session::repo_names(e)[k1]
            != crate::domain::session::repo_names(e)[k2] by {
            if k2 < ed.len() {
                assert(e[k1] == ed[k1] && e[k2] == ed[k2]);
                assert(crate::domain::session::repo_names(ed)[k1] != crate::domain::session::repo_names(
                    ed,
                )[k2]);
            } else {
                assert(e[k2].repo@ == rs[rs.len() - 1].repo@);
                assert(e[k1] == ed[k1]);
                let w = choose|i: int| 0 <= i < d.len() && ed[k1].repo@ == d[i].repo@;
                assert(rs[w].repo@ != rs[rs.len() - 1].repo@);
            }
        }
    }
}

/// Folds the per-repository outcomes under the partial-failure policy: the
/// operation succeeds with the successful subset and one warning per
/// failure when at least one repository succeeded, and fails with one
/// aggregated message when none did.
pub fn fold_multi_repo(results: &Vec<RepoProvisionOutcome>) -> (r: Result<
    (Vec<RepoWorktree>, Vec<String>),
    String,
>)
    ensures
        (r is Ok) == (exists|i: int|
            0 <= i < results@.len() && (#[trigger] results@[i]).error is None),
        r matches Ok(p) ==> p.0@ == success_entries(results@) && p.1.deep_view() == failure_msgs(
            results@,
        ),
        r matches Err(m) ==> m@ == "Failed to create worktrees in any repo: "@ + seq_join(
            failure_msgs(results@),
            "; "@,
        ),
        (forall|i: int, j: int|
            0 <= i < j < results@.len() ==> (#[trigger] results@[i]).repo@
                != (#[trigger] results@[j]).repo@) && r is Ok ==> repo_worktrees_wf(
            r->Ok_0.0@,
        ),
{
    let mut map: Vec<RepoWorktree> = Vec::new();
    let mut warnings: Vec<String> = Vec::new();
    let mut any_ok = false;
    let mut i: usize = 0;
    while i < results.len()
        invariant
            0 <= i <= results@.len(),
            map@ =~= success_entries(results@.take(i as int)),
            warnings.deep_view() =~= failure_msgs(results@.take(i as int)),
            any_ok == (exists|j: int| 0 <= j < i && (#[trigger] results@[j]).error is None),
        decreases results@.len() - i,
    {
        proof {
            assert(results@.take(i + 1).drop_last() =~= results@.take(i as int));
            assert(results@.take(i + 1).last() == results@[i as int]);
        }
        let is_ok = match &results[i].error {
            None => true,
            Some(_) => false,
        };
        if is_ok {
            map.push(
                RepoWorktree { repo: results[i].repo.clone(), path: results[i].path.clone() },
            );
            any_ok = true;
            proof {
                assert(map@ =~= success_entries(results@.take(i + 1)));
                assert(warnings.deep_view() =~= failure_msgs(results@.take(i + 1)));
            }
        } else {
            let err_text = match &results[i].error {
                Some(e) => e.clone(),
                None => String::new(),
            };
            let msg = strutil::concat3(results[i].repo.as_str(), ": ", err_text.as_str());
            let ghost pre = warnings@;
            let ghost pre_dv = warnings.deep_view();
            warnings.push(msg);
            proof {
                let dvp = warnings.deep_view();
                assert(warnings@ == pre.push(warnings@.last()));
                assert(dvp.len() == warnings@.len());
                assert(pre_dv.len() == pre.len());
                assert forall|j: int| 0 <= j < dvp.len() implies dvp[j] == pre_dv.push(
                    results@[i as int].repo@ + ": "@ + results@[i as int].error->0@,
                )[j] by {
                    if j < dvp.len() - 1 {
                        assert(warnings@[j] == pre[j]);
                        assert(dvp[j] == pre_dv[j]);
                    } else {
                        assert(dvp[j] == warnings@[j]@);
                    }
                }
                assert(dvp =~= pre_dv.push(
                    results@[i as int].repo@ + ": "@ + results@[i as int].error->0@,
                ));
                assert(map@ =~= success_entries(results@.take(i + 1)));
                assert(warnings.deep_view() =~= failure_msgs(results@.take(i + 1)));
            }
        }
        i = i + 1;
    }
    proof {
        assert(results@.take(results@.len() as int) =~= results@);
    }
    if any_ok {
        proof {
            if forall|i: int, j: int|
                0 <= i < j < results@.len() ==> (#[trigger] results@[i]).repo@
                    != (#[trigger] results@[j]).repo@ {
                lemma_success_entries_unique(results@);
            }
        }
        Ok((map, warnings))
    } else {
        let joined = strutil::join_with(&warnings, "; ");
        Err(strutil::concat2("Failed to create worktrees in any repo: ", joined.as_str()))
    }
}

/// True of a working copy this orchestrator manages: its directory name
/// carries the generated marker.
pub open spec fn managed_name(path: Seq<char>) -> bool {
    contains_seq(split_seq(path, '/').last(), "-vibe-"@)
}

/// True when some session records this working-copy path.
pub open spec fn known_path(state: WorkspaceState, path: Seq<char>) -> bool {
    exists|j: int|
        0 <= j < state.sessions@.len() && (#[trigger] state.sessions@[j]).worktree_path@ == path
}

/// The listed working copies that no session records: present on disk but
/// absent from state.
pub fn orphaned_worktrees(wts: &Vec<WorktreeInfo>, state: &WorkspaceState) -> (r: Vec<usize>)
    ensures
        forall|k: int|
            0 <= k < r@.len() ==> (#[trigger] r@[k]) < wts@.len() && !known_path(
                *state,
                wts@[r@[k] as int].path@,
            ),
        forall|k1: int, k2: int| 0 <= k1 < k2 < r@.len() ==> r@[k1] < r@[k2],
        forall|i: int|
            0 <= i < wts@.len() && !known_path(*state, (#[trigger] wts@[i]).path@) ==> r@.contains(
                i as usize,
            ),
{
    let mut r: Vec<usize> = Vec::new();
    let mut i: usize = 0;
    while i < wts.len()
        invariant
            0 <= i <= wts@.len(),
            forall|k: int|
                0 <= k < r@.len() ==> (#[trigger] r@[k]) < i && !known_path(
                    *state,
                    wts@[r@[k] as int].path@,
                ),
            forall|k1: int, k2: int| 0 <= k1 < k2 < r@.len() ==> r@[k1] < r@[k2],
            forall|j: int|
                0 <= j < i && !known_path(*state, (#[trigger] wts@[j]).path@) ==> r@.contains(
                    j as usize,
                ),
        decreases wts@.len() - i,
    {
        let mut known = false;
        let mut j: usize = 0;
        while j < state.sessions.len()
            invariant
                0 <= j <= state.sessions@.len(),
                i < wts@.len(),
                known ==> known_path(*state, wts@[i as int].path@),
                !known ==> forall|t: int|
                    0 <= t < j ==> (#[trigger] state.sessions@[t]).worktree_path@
                        != wts@[i as int].path@,
            decreases state.sessions@.len() - j,
        {
            if strutil::str_eq(
                state.sessions[j].worktree_path.as_str(),
                wts[i].path.as_str(),
            ) {
                known = true;
            }
            j = j + 1;
        }
        let ghost pre_r = r@;
        if !known {
            r.push(i);
            assert(r@.last() == i as usize);
        }
        proof {
            assert forall|t: int|
                0 <= t < i + 1 && !known_path(*state, (#[trigger] wts@[t]).path@) implies r@
                .contains(t as usize) by {
                if t < i {
                    assert(pre_r.contains(t as usize));
                    let w = choose|w: int| 0 <= w < pre_r.len() && pre_r[w] == t as usize;
                    assert(r@[w] == t as usize);
                } else {
                    assert(!known);
                    assert(r@[r@.len() - 1] == t as usize);
                }
            }
        }
        i = i + 1;
    }
    r
}

/// True of directory names the repository discovery skips.
pub fn is_hidden_name(name: &str) -> (r: bool)
    ensures
        r == (name@.len() > 0 && name@[0] == '.'),
{
    let n = name.unicode_len();
    if n == 0 {
        false
    } else {
        name.get_char(0) == '.'
    }
}

/// Orders discovered repositories by name, ascending; the result is a
/// rearrangement of the input.
pub fn sort_repos_by_name(repos: &mut Vec<RepoInfo>)
    ensures
        final(repos)@.len() == old(repos)@.len(),
        final(repos)@.to_multiset() == old(repos)@.to_multiset(),
        forall|k1: int, k2: int|
            0 <= k1 < k2 < final(repos)@.len() ==> lex_le(
                final(repos)@[k1].name@,
                final(repos)@[k2].name@,
            ),
{
    let n = repos.len();
    let mut i: usize = 1;
    while i < n
        invariant
            n == repos@.len(),
            0 <= i,
            repos@.to_multiset() == old(repos)@.to_multiset(),
            forall|k1: int, k2: int|
                0 <= k1 < k2 < i && k2 < n ==> lex_le(repos@[k1].name@, repos@[k2].name@),
        decreases n - i,
    {
        let ghost pre = repos@;
        let x = repos.remove(i);
        proof {
            pre.to_multiset_ensures();
            assert(repos@.to_multiset() == pre.to_multiset().remove(pre[i as int]));
        }
        let mut j: usize = 0;
        while j < i && crate::strutil::str_le(repos[j].name.as_str(), x.name.as_str())
            invariant
                i < n,
                n == pre.len(),
                repos@.len() == n - 1,
                0 <= j <= i,
                forall|k: int| 0 <= k < j ==> lex_le((#[trigger] repos@[k]).name@, x.name@),
            decreases i - j,
        {
            j = j + 1;
        }
        proof {
            if j < i {
                crate::strutil::lemma_lex_total(repos@[j as int].name@, x.name@);
            }
        }
        let ghost mid = repos@;
        let ghost xg = x;
        repos.insert(j, x);
        proof {
            vstd::seq_lib::to_multiset_insert(mid, j as int, xg);
            assert(repos@.to_multiset() =~= pre.to_multiset());
            assert(forall|k: int| 0 <= k < i ==> #[trigger] mid[k] == pre[k]);
            assert forall|k1: int, k2: int|
                0 <= k1 < k2 < i + 1 && k2 < n implies lex_le(
                repos@[k1].name@,
                repos@[k2].name@,
            ) by {
                if k2 < j {
                    assert(repos@[k1] == mid[k1] && repos@[k2] == mid[k2]);
                } else if k2 == j {
                    if k1 < j {
                        assert(repos@[k1] == mid[k1]);
                        assert(repos@[j as int] == xg);
                        assert(lex_le(mid[k1].name@, xg.name@));
                    }
                } else {
                    assert(repos@[k2] == mid[k2 - 1]);
                    if k1 < j {
                        assert(repos@[k1] == mid[k1]);
                        assert(lex_le(pre[k1].name@, pre[k2 - 1].name@));
                    } else if k1 == j {
                        assert(repos@[k1] == xg);
                        assert(j < i);
                        assert(lex_le(xg.name@, mid[j as int].name@));
                        if k2 - 1 > j {
                            assert(lex_le(pre[j as int].name@, pre[k2 - 1].name@));
                            crate::strutil::lemma_lex_trans(
                                xg.name@,
                                pre[j as int].name@,
                                pre[k2 - 1].name@,
                            );
                        }
                    } else {
                        assert(repos@[k1] == mid[k1 - 1]);
                        assert(lex_le(pre[k1 - 1].name@, pre[k2 - 1].name@));
                    }
                }
            }
        }
        i = i + 1;
    }
}

/// What accumulating a porcelain listing flushes at a block boundary: an
/// entry when both a path and a branch were seen and the path's directory
/// name carries the managed marker.
pub open spec fn flush_entry(cp: Option<Seq<char>>, cb: Option<Seq<char>>) -> Seq<(
    Seq<char>,
    Seq<char>,
)> {
    match (cp, cb) {
        (Some(p), Some(b)) => if managed_name(p) {
            seq![(p, b)]
        } else {
            Seq::empty()
        },
        _ => Seq::empty(),
    }
}

/// The managed working copies a porcelain listing names: `worktree ` lines
/// carry paths, `branch refs/heads/` lines carry branches, and a blank
/// line closes a block.
pub open spec fn worktrees_of_lines(
    ls: Seq<Seq<char>>,
    cp: Option<Seq<char>>,
    cb: Option<Seq<char>>,
) -> Seq<(Seq<char>, Seq<char>)>
    decreases ls.len(),
{
    if ls.len() == 0 {
        flush_entry(cp, cb)
    } else {
        let l = ls[0];
        if l.len() == 0 {
            flush_entry(cp, cb) + worktrees_of_lines(ls.drop_first(), None, None)
        } else if starts_with_seq(l, "worktree "@) {
            worktrees_of_lines(ls.drop_first(), Some(l.skip(9)), cb)
        } else if starts_with_seq(l, "branch refs/heads/"@) {
            worktrees_of_lines(ls.drop_first(), cp, Some(l.skip(18)))
        } else {
            worktrees_of_lines(ls.drop_first(), cp, cb)
        }
    }
}

/// The pairs a listing parse yields.
pub open spec fn wt_pairs(v: Seq<WorktreeInfo>) -> Seq<(Seq<char>, Seq<char>)> {
    v.map_values(|w: WorktreeInfo| (w.path@, w.branch@))
}

/// Parses a porcelain working-copy listing, keeping the managed entries.
pub fn parse_worktree_list(text: &str) -> (r: Vec<WorktreeInfo>)
    ensures
        wt_pairs(r@) == worktrees_of_lines(split_seq(text@, '\n'), None, None),
{
    let lines = strutil::split_char(text, '\n');
    let ghost ls = split_seq(text@, '\n');
    let mut out: Vec<WorktreeInfo> = Vec::new();
    let mut cur_path: Option<String> = None;
    let mut cur_branch: Option<String> = None;
    let mut i: usize = 0;
    proof {
        assert(ls.skip(0) =~= ls);
        assert(wt_pairs(out@) + worktrees_of_lines(ls, None, None) =~= worktrees_of_lines(
            ls,
            None,
            None,
        ));
    }
    while i < lines.len()
        invariant
            ls == split_seq(text@, '\n'),
            lines.deep_view() == ls,
            lines@.len() == ls.len(),
            0 <= i <= ls.len(),
            worktrees_of_lines(ls, None, None) =~= wt_pairs(out@) + worktrees_of_lines(
                ls.skip(i as int),
                match cur_path {
                    Some(p) => Some(p@),
                    None => None,
                },
                match cur_branch {
                    Some(b) => Some(b@),
                    None => None,
                },
            ),
        decreases ls.len() - i,
    {
        proof {
            assert(ls.skip(i as int)[0] == ls[i as int]);
            assert(ls.skip(i as int).drop_first() =~= ls.skip(i + 1));
            assert(lines@[i as int]@ == ls[i as int]);
        }
        let line = &lines[i];
        let ln = line.as_str().unicode_len();
        if ln == 0 {
            // block boundary: flush a complete managed entry
            let flushed = flush_current(&cur_path, &cur_branch);
            let ghost pre_out = out@;
            match flushed {
                Some(wt) => {
                    out.push(wt);
                    proof {
                        assert(wt_pairs(out@) =~= wt_pairs(pre_out) + flush_entry(
                            match cur_path {
                                Some(p) => Some(p@),
                                None => None,
                            },
                            match cur_branch {
                                Some(b) => Some(b@),
                                None => None,
                            },
                        ));
                    }
                },
                None => {
                    proof {
                        assert(wt_pairs(out@) =~= wt_pairs(pre_out) + flush_entry(
                            match cur_path {
                                Some(p) => Some(p@),
                                None => None,
                            },
                            match cur_branch {
                                Some(b) => Some(b@),
                                None => None,
                            },
                        ));
                    }
                },
            }
            cur_path = None;
            cur_branch = None;
        } else if strutil::str_starts_with(line.as_str(), "worktree ") {
            proof {
                reveal_strlit("worktree ");
            }
            let p = line.as_str().substring_char(9, ln);
            proof {
                assert(p@ =~= ls[i as int].skip(9));
            }
            cur_path = Some(p.to_owned());
        } else if strutil::str_starts_with(line.as_str(), "branch refs/heads/") {
            proof {
                reveal_strlit("branch refs/heads/");
            }
            let b = line.as_str().substring_char(18, ln);
            proof {
                assert(b@ =~= ls[i as int].skip(18));
            }
            cur_branch = Some(b.to_owned());
        }
        i = i + 1;
    }
    proof {
        assert(ls.skip(ls.len() as int).len() == 0);
    }
    let flushed = flush_current(&cur_path, &cur_branch);
    let ghost pre_out = out@;
    match flushed {
        Some(wt) => {
            out.push(wt);
            proof {
                assert(wt_pairs(out@) =~= wt_pairs(pre_out) + flush_entry(
                    match cur_path {
                        Some(p) => Some(p@),
                        None => None,
                    },
                    match cur_branch {
                        Some(b) => Some(b@),
                        None => None,
                    },
                ));
            }
        },
        None => {
            proof {
                assert(wt_pairs(out@) =~= wt_pairs(pre_out) + flush_entry(
                    match cur_path {
                        Some(p) => Some(p@),
                        None => None,
                    },
                    match cur_branch {
                        Some(b) => Some(b@),
                        None => None,
                    },
                ));
            }
        },
    }
    out
}

/// Flushes the accumulated block: an entry when a managed path and a
/// branch are both present.
fn flush_current(cur_path: &Option<String>, cur_branch: &Option<String>) -> (r: Option<
    WorktreeInfo,
>)
    ensures
        match r {
            Some(wt) => flush_entry(
                match cur_path {
                    Some(p) => Some(p@),
                    None => None,
                },
                match cur_branch {
                    Some(b) => Some(b@),
                    None => None,
                },
            ) == seq![(wt.path@, wt.branch@)],
            None => flush_entry(
                match cur_path {
                    Some(p) => Some(p@),
                    None => None,
                },
                match cur_branch {
                    Some(b) => Some(b@),
                    None => None,
                },
            ) == Seq::<(Seq<char>, Seq<char>)>::empty(),
        },
{
    match (cur_path, cur_branch) {
        (Some(p), Some(b)) => {
            let segments = strutil::split_char(p.as_str(), '/');
            proof {
                assert(split_seq(p@, '/').len() > 0);
                assert(segments@.len() == segments.deep_view().len());
            }
            let base = &segments[segments.len() - 1];
            proof {
                assert(base@ == split_seq(p@, '/').last());
            }
            if strutil::str_contains(base.as_str(), "-vibe-") {
                Some(WorktreeInfo { path: p.clone(), branch: b.clone() })
            } else {
                None
            }
        },
        _ => None,
    }
}

} // verus!
