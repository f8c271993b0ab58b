use vibe::agent_cli;
use vibe::codec;
use vibe::config::{GlobalConfig, MergedConfig, WorkspaceConfig};
use vibe::domain::agent::{Agent, AgentMode, AgentResult, AgentStatus};
use vibe::domain::session::{Session, SessionStatus};
use vibe::domain::workspace::{Workspace, WorkspaceKind, WorkspaceState};
use vibe::error::VibeError;
use vibe::json;
use vibe::ops;
use vibe::ops::KillDecision;
use vibe::provision;
use vibe::provision::RepoProvisionOutcome;
use vibe::reconcile;
use vibe::store;
use vibe::tmux;
use vibe::tmux::NavLock;
use vibe::tmux::TmuxStep;

fn make_state() -> WorkspaceState {
    let ws = Workspace {
        root: "/tmp/demo-repo".to_owned(),
        name: "demo-repo".to_owned(),
        default_branch: "main".to_owned(),
        remote_url: None,
        worktree_prefix: "-vibe-".to_owned(),
        worktree_base_dir: "/tmp".to_owned(),
        kind: WorkspaceKind::SingleRepo,
        repos: vec![],
    };
    WorkspaceState::new(ws, "vibe-demo-repo".to_owned())
}

/// The correction table on an active session, all four observation pairs.
#[test]
fn test_reconciliation_table() {
    let active = SessionStatus::Active;
    assert_eq!(
        reconcile::session_correction(false, false, &active),
        Some(SessionStatus::Archived)
    );
    assert_eq!(
        reconcile::session_correction(false, true, &active),
        Some(SessionStatus::Failed("working copy missing".to_owned()))
    );
    assert_eq!(reconcile::session_correction(true, false, &active), Some(SessionStatus::Paused));
    assert_eq!(reconcile::session_correction(true, true, &active), None);
}

#[test]
fn test_sweep_sessions_fixes_drift() {
    let mut state = make_state();
    let mut s1 = Session::new(
        "one".to_owned(),
        "feat/one".to_owned(),
        "/tmp/one".to_owned(),
        "@1".to_owned(),
    );
    s1.status = SessionStatus::Active;
    let mut s2 = Session::new(
        "two".to_owned(),
        "feat/two".to_owned(),
        "/tmp/two".to_owned(),
        "@2".to_owned(),
    );
    s2.status = SessionStatus::Active;
    state.sessions.push(s1);
    state.sessions.push(s2);

    // session one lost its window, session two is intact
    let fixed = reconcile::sweep_sessions(&mut state, &vec![(true, false), (true, true)]);
    assert_eq!(fixed, 1);
    assert_eq!(state.sessions[0].status, SessionStatus::Paused);
    assert_eq!(state.sessions[1].status, SessionStatus::Active);
}

#[test]
fn test_sweep_agents_pane_lost() {
    let mut state = make_state();
    let mut a = Agent::new(
        1,
        "worker".to_owned(),
        AgentMode::Interactive,
        "p".to_owned(),
        "/tmp/one".to_owned(),
        "/tmp/agents".to_owned(),
    );
    a.status = AgentStatus::Running;
    a.tmux_pane = Some("%5".to_owned());
    state.agents.push(a);

    let fixed = reconcile::sweep_agents(&mut state, &vec![false]);
    assert_eq!(fixed, 1);
    assert_eq!(state.agents[0].status, AgentStatus::Failed("pane lost".to_owned()));
    assert!(state.agents[0].tmux_pane.is_none());
}

#[test]
fn test_round_robin_targets_one_agent() {
    let mut agents = Vec::new();
    for i in 0..3u128 {
        let mut a = Agent::new(
            1,
            format!("a{i}"),
            AgentMode::Interactive,
            "p".to_owned(),
            "/tmp".to_owned(),
            "/tmp/agents".to_owned(),
        );
        a.status = AgentStatus::Running;
        a.tmux_pane = Some(format!("%{i}"));
        agents.push(a);
    }
    let (c1, t1) = reconcile::next_reconcile_target(&agents, 0);
    assert_eq!(t1, Some(0));
    let (c2, t2) = reconcile::next_reconcile_target(&agents, c1);
    assert_eq!(t2, Some(1));
    let (c3, t3) = reconcile::next_reconcile_target(&agents, c2);
    assert_eq!(t3, Some(2));
    let (_, t4) = reconcile::next_reconcile_target(&agents, c3);
    assert_eq!(t4, Some(0));
}

/// Killing the main session always fails as a user error, with or without
/// force.
#[test]
fn test_main_session_protection() {
    let mut state = make_state();
    assert!(ops::ensure_main_session(&mut state));
    assert_eq!(ops::check_kill(&state, "main", false), KillDecision::MainRefused);
    assert_eq!(ops::check_kill(&state, "main", true), KillDecision::MainRefused);
}

/// The session ensure operation creates once and then does nothing.
#[test]
fn test_ensure_exists_idempotent() {
    let mut names: Vec<String> = Vec::new();
    assert!(tmux::ensure_name(&mut names, "vibe-demo"));
    assert!(!tmux::ensure_name(&mut names, "vibe-demo"));
    assert_eq!(names.len(), 1);

    let mut state = make_state();
    assert!(ops::ensure_main_session(&mut state));
    let count = state.sessions.len();
    assert!(!ops::ensure_main_session(&mut state));
    assert_eq!(state.sessions.len(), count);
}

/// Multi-repo provisioning: one failure out of three keeps the other two
/// and warns once; three failures fail the whole operation.
#[test]
fn test_multi_repo_partial_failure() {
    let results = vec![
        RepoProvisionOutcome {
            repo: "api".to_owned(),
            path: "/s/api".to_owned(),
            error: None,
        },
        RepoProvisionOutcome {
            repo: "web".to_owned(),
            path: "/s/web".to_owned(),
            error: Some("branch exists".to_owned()),
        },
        RepoProvisionOutcome {
            repo: "ops".to_owned(),
            path: "/s/ops".to_owned(),
            error: None,
        },
    ];
    let (map, warnings) = provision::fold_multi_repo(&results).unwrap();
    assert_eq!(map.len(), 2);
    assert_eq!(map[0].repo, "api");
    assert_eq!(map[1].repo, "ops");
    assert_eq!(warnings, vec!["web: branch exists".to_owned()]);

    let all_failed = vec![
        RepoProvisionOutcome {
            repo: "api".to_owned(),
            path: "/s/api".to_owned(),
            error: Some("no remote".to_owned()),
        },
        RepoProvisionOutcome {
            repo: "web".to_owned(),
            path: "/s/web".to_owned(),
            error: Some("no remote".to_owned()),
        },
        RepoProvisionOutcome {
            repo: "ops".to_owned(),
            path: "/s/ops".to_owned(),
            error: Some("no remote".to_owned()),
        },
    ];
    let err = provision::fold_multi_repo(&all_failed).unwrap_err();
    assert_eq!(
        err,
        "Failed to create worktrees in any repo: api: no remote; web: no remote; ops: no remote"
    );
}

/// Creating a single-repo session, refusing a kill without force, then
/// killing with force removes it from the state.
#[test]
fn test_create_and_kill_scenario() {
    let mut state = make_state();

    // provisioning names the working copy under the base directory
    let dir = provision::worktree_dir_name("demo-repo", "ab12cd34");
    assert_eq!(dir, "demo-repo-vibe-ab12cd34");
    let path = format!("/tmp/{dir}");

    assert!(ops::check_new_session_name(&state, "demo").is_none());
    let branch = ops::default_branch_name("demo");
    assert_eq!(branch, "feat/demo");

    let mut windows: Vec<String> = Vec::new();
    assert!(tmux::ensure_name(&mut windows, "demo"));

    ops::register_session(
        &mut state,
        "demo".to_owned(),
        branch,
        path,
        "@7".to_owned(),
        vec![],
        None,
    );
    assert_eq!(state.sessions.len(), 1);
    assert_eq!(state.sessions[0].status, SessionStatus::Active);
    assert!(ops::check_new_session_name(&state, "demo").is_some());

    // active without force: nothing happens
    assert_eq!(ops::check_kill(&state, "demo", false), KillDecision::ActiveSkipped);
    assert_eq!(state.sessions.len(), 1);

    // with force: the session and its agents leave the state
    match ops::check_kill(&state, "demo", true) {
        KillDecision::Proceed(i) => {
            let id = state.sessions[i].id;
            ops::remove_session(&mut state, id);
        },
        other => panic!("expected a proceed decision, got {other:?}"),
    }
    assert!(state.find_session_by_name("demo").is_none());

    let text = codec::encode_state(&state);
    let back = codec::decode_state(&text).unwrap();
    assert!(back.find_session_by_name("demo").is_none());
}

/// An agent moves only forward: queued, running, then a terminal state,
/// and ingested only from completed.
#[test]
fn test_agent_lifecycle_transitions() {
    let mut a = Agent::new(
        1,
        "worker".to_owned(),
        AgentMode::Headless,
        "p".to_owned(),
        "/tmp".to_owned(),
        "/tmp/agents".to_owned(),
    );
    assert_eq!(a.status, AgentStatus::Queued);
    a.mark_running();
    assert_eq!(a.status, AgentStatus::Running);
    a.complete_with(AgentResult {
        success: true,
        summary: "done".to_owned(),
        duration_ms: 10,
        session_id: "s".to_owned(),
        raw_result: Some("done".to_owned()),
    });
    assert_eq!(a.status, AgentStatus::Completed);
    a.mark_ingested();
    assert_eq!(a.status, AgentStatus::Ingested);
    assert!(a.is_done());

    let mut b = Agent::new(
        1,
        "worker2".to_owned(),
        AgentMode::Headless,
        "p".to_owned(),
        "/tmp".to_owned(),
        "/tmp/agents".to_owned(),
    );
    b.mark_running();
    b.fail_with("boom".to_owned());
    assert_eq!(b.status, AgentStatus::Failed("boom".to_owned()));
}

#[test]
fn test_resolve_parent_prefers_latest_active() {
    let mut state = make_state();
    let mut s1 = Session::new("old".to_owned(), "b1".to_owned(), "/t/1".to_owned(), "@1".to_owned());
    s1.status = SessionStatus::Active;
    s1.created_at = "2026-01-01T00:00:00Z".to_owned();
    let mut s2 = Session::new("new".to_owned(), "b2".to_owned(), "/t/2".to_owned(), "@2".to_owned());
    s2.status = SessionStatus::Active;
    s2.created_at = "2026-02-01T00:00:00Z".to_owned();
    let mut s3 = Session::new("done".to_owned(), "b3".to_owned(), "/t/3".to_owned(), "@3".to_owned());
    s3.status = SessionStatus::Completed;
    s3.created_at = "2026-03-01T00:00:00Z".to_owned();
    state.sessions.push(s1);
    state.sessions.push(s2);
    state.sessions.push(s3);

    assert_eq!(ops::resolve_parent_session(&state, None).unwrap(), 1);
    assert_eq!(ops::resolve_parent_session(&state, Some("old")).unwrap(), 0);
    assert!(matches!(
        ops::resolve_parent_session(&state, Some("gone")),
        Err(VibeError::SessionNotFound(_))
    ));
}

#[test]
fn test_commit_spawn_links_agent_to_parent() {
    let mut state = make_state();
    ops::register_session(
        &mut state,
        "demo".to_owned(),
        "feat/demo".to_owned(),
        "/tmp/w".to_owned(),
        "@1".to_owned(),
        vec![],
        None,
    );
    let agent = Agent::new(
        state.sessions[0].id,
        "helper".to_owned(),
        AgentMode::Headless,
        "do it".to_owned(),
        "/tmp/w".to_owned(),
        "/tmp/agents".to_owned(),
    );
    let agent_id = agent.id;
    ops::commit_spawn(&mut state, agent, 0);
    assert_eq!(state.agents.len(), 1);
    assert_eq!(state.sessions[0].agents, vec![agent_id]);
}

#[test]
fn test_cleanup_selection_policy() {
    let mut state = make_state();
    let mut s1 = Session::new("a".to_owned(), "b".to_owned(), "/1".to_owned(), "@1".to_owned());
    s1.status = SessionStatus::Archived;
    let mut s2 = Session::new("b".to_owned(), "b".to_owned(), "/2".to_owned(), "@2".to_owned());
    s2.status = SessionStatus::Completed;
    let mut s3 = Session::new("c".to_owned(), "b".to_owned(), "/3".to_owned(), "@3".to_owned());
    s3.status = SessionStatus::Active;
    state.sessions.push(s1);
    state.sessions.push(s2);
    state.sessions.push(s3);

    assert_eq!(ops::cleanup_selection(&state, false), vec![0]);
    assert_eq!(ops::cleanup_selection(&state, true), vec![0, 1]);
}

#[test]
fn test_gitignore_update_idempotent() {
    let fresh = store::gitignore_update(None).unwrap();
    assert_eq!(fresh, "# Vibe agent orchestrator\n.vibe/\n");
    assert!(store::gitignore_update(Some(&fresh)).is_none());

    let appended = store::gitignore_update(Some("target/\n")).unwrap();
    assert_eq!(appended, "target/\n\n# Vibe agent orchestrator\n.vibe/\n");
    assert!(store::gitignore_update(Some(&appended)).is_none());
}

#[test]
fn test_state_manager_layout() {
    let sm = store::StateManager::new("/tmp/demo-repo");
    assert_eq!(sm.vibe_dir(), "/tmp/demo-repo/.vibe");
    assert_eq!(sm.state_file(), "/tmp/demo-repo/.vibe/workspace.json");
    assert_eq!(sm.agents_dir(), "/tmp/demo-repo/.vibe/agents");
    assert_eq!(sm.plans_dir(), "/tmp/demo-repo/.vibe/plans");
}

#[test]
fn test_tmux_error_classification() {
    assert!(tmux::is_transient_tmux_error("lost server\n"));
    assert!(tmux::is_transient_tmux_error("error: no server running on /tmp/tmux"));
    assert!(!tmux::is_transient_tmux_error("bad target: window not found"));
    assert!(tmux::is_benign_tmux_error("session not found: vibe-x"));

    assert_eq!(tmux::classify_mutating_attempt(true, "", 0), TmuxStep::Done);
    assert_eq!(
        tmux::classify_mutating_attempt(false, "no server running", 0),
        TmuxStep::BenignOk
    );
    assert_eq!(
        tmux::classify_mutating_attempt(false, "server exited unexpectedly", 0),
        TmuxStep::RetryLater
    );
    assert_eq!(
        tmux::classify_mutating_attempt(false, "server exited unexpectedly", 2),
        TmuxStep::FailNow
    );
    assert_eq!(tmux::classify_mutating_attempt(false, "bad target", 0), TmuxStep::FailNow);
    assert_eq!(
        tmux::classify_query_attempt(false, "no server running", 0),
        TmuxStep::RetryLater
    );
    assert_eq!(tmux::tmux_backoff_ms(1), 100);
    assert_eq!(tmux::tmux_backoff_ms(2), 200);
}

#[test]
fn test_nav_bindings_config_batch() {
    let cfg = tmux::nav_bindings_config("vibe-demo", "[29~", "[33~");
    assert!(cfg.contains("set-option -s user-keys[0] \"\\033[29~\""));
    assert!(cfg.contains("set-option -s user-keys[1] \"\\033[33~\""));
    assert!(cfg.contains("bind-key -n User0"));
    assert!(cfg.contains("bind-key -n User1"));
    assert!(cfg.contains("#{==:#{session_name},vibe-demo}"));
    assert_eq!(cfg.lines().count(), 6);

    let cleanup = tmux::nav_cleanup_config();
    assert_eq!(cleanup.lines().count(), 6);
    assert!(cleanup.contains("unbind-key -n User0"));
}

#[test]
fn test_nav_lock_ownership() {
    assert_eq!(tmux::read_nav_lock(Some("1234")), NavLock::Owner(1234));
    assert_eq!(tmux::read_nav_lock(Some("123x")), NavLock::Corrupt);
    assert_eq!(tmux::read_nav_lock(None), NavLock::Absent);
    assert!(tmux::nav_cleanup_allowed(&NavLock::Owner(77), 77));
    assert!(!tmux::nav_cleanup_allowed(&NavLock::Owner(77), 78));
    assert!(tmux::nav_cleanup_allowed(&NavLock::Absent, 78));
    assert!(tmux::nav_cleanup_allowed(&NavLock::Corrupt, 78));
    assert!(!tmux::nav_lock_stale(&NavLock::Absent, false));
    assert!(tmux::nav_lock_stale(&NavLock::Corrupt, false));
    assert!(tmux::nav_lock_stale(&NavLock::Owner(77), false));
    assert!(!tmux::nav_lock_stale(&NavLock::Owner(77), true));
}

#[test]
fn test_verify_nav_bindings_listing() {
    let opts = "escape-time 100\nuser-keys[0] \"\\033[29~\"\nuser-keys[1] \"\\033[33~\"\n";
    let keys = "bind-key -n User0 ...\nbind-key -n User1 ...\n";
    assert!(tmux::nav_bindings_ok(opts, keys, "[29~", "[33~"));
    assert!(!tmux::nav_bindings_ok(opts, "nothing", "[29~", "[33~"));
    assert!(!tmux::nav_bindings_ok("user-keys[0] \"x\"", keys, "[29~", "[33~"));
}

#[test]
fn test_parse_pane_list() {
    let listing = "%1\t100\tzsh\tdashboard\t/tmp\n%2\t200\tnode\tdemo\t/tmp/demo\nshort\n";
    let panes = tmux::parse_pane_list(listing);
    assert_eq!(panes.len(), 2);
    assert_eq!(panes[0].pane_id, "%1");
    assert_eq!(panes[0].pid, 100);
    assert_eq!(panes[1].window_name, "demo");
    assert_eq!(panes[1].current_path, "/tmp/demo");
}

#[test]
fn test_parse_worktree_list() {
    let listing = "worktree /tmp/demo-repo\nHEAD abc\nbranch refs/heads/main\n\nworktree /tmp/demo-repo-vibe-ab12cd34\nHEAD def\nbranch refs/heads/feat/demo\n\nworktree /tmp/elsewhere\nHEAD 123\nbranch refs/heads/other\n";
    let wts = provision::parse_worktree_list(listing);
    assert_eq!(wts.len(), 1);
    assert_eq!(wts[0].path, "/tmp/demo-repo-vibe-ab12cd34");
    assert_eq!(wts[0].branch, "feat/demo");
}

#[test]
fn test_orphan_detection() {
    let mut state = make_state();
    let mut s = Session::new(
        "demo".to_owned(),
        "feat/demo".to_owned(),
        "/tmp/demo-repo-vibe-11111111".to_owned(),
        "@1".to_owned(),
    );
    s.status = SessionStatus::Active;
    state.sessions.push(s);
    let wts = vec![
        provision::WorktreeInfo {
            path: "/tmp/demo-repo-vibe-11111111".to_owned(),
            branch: "feat/demo".to_owned(),
        },
        provision::WorktreeInfo {
            path: "/tmp/demo-repo-vibe-22222222".to_owned(),
            branch: "feat/lost".to_owned(),
        },
    ];
    assert_eq!(provision::orphaned_worktrees(&wts, &state), vec![1]);
}

#[test]
fn test_interactive_command_escaping() {
    let none: Vec<String> = vec![];
    let cmd = agent_cli::interactive_command(None, &none, &none, None, None, &none);
    assert_eq!(cmd, "agent");

    let tools = vec!["Read".to_owned(), "Grep".to_owned()];
    let cmd2 = agent_cli::interactive_command(
        Some("it's here"),
        &tools,
        &none,
        Some("plan"),
        None,
        &none,
    );
    assert_eq!(
        cmd2,
        "agent --system-prompt 'it'\\''s here' --allowedTools 'Read,Grep' --permission-mode plan"
    );
}

#[test]
fn test_headless_command_shapes() {
    let none: Vec<String> = vec![];
    let args = agent_cli::headless_args("do the task", Some("sys"), &none, &none, None, &none);
    assert_eq!(
        args,
        vec!["-p", "--output-format", "json", "--system-prompt", "sys", "do the task"]
    );
    let line = agent_cli::headless_window_command(None, "run 'x'");
    assert_eq!(line, "agent -p --output-format json  'run '\\''x'\\'''");
}

#[test]
fn test_agent_output_reading() {
    let text = "{\"type\":\"result\",\"subtype\":\"success\",\"is_error\":false,\"duration_ms\":1500,\"num_turns\":3,\"result\":\"all done\",\"session_id\":\"sess-1\"}";
    let out = agent_cli::agent_output_from_text(text).unwrap();
    assert_eq!(out.subtype, "success");
    assert_eq!(out.duration_ms, 1500);
    assert_eq!(out.num_turns, 3);

    let result = agent_cli::to_agent_result(&out);
    assert!(result.success);
    assert_eq!(result.summary, "all done");
    assert_eq!(result.raw_result, Some("all done".to_owned()));

    // missing optional counts read as zero
    let out2 = agent_cli::agent_output_from_text(
        "{\"type\":\"result\",\"subtype\":\"error\",\"is_error\":true}",
    )
    .unwrap();
    assert_eq!(out2.duration_ms, 0);
    assert_eq!(out2.result, "");
    assert!(!agent_cli::to_agent_result(&out2).success);

    // the writer feeds the reader
    let rewritten = json::json_to_string(&agent_cli::agent_output_to_json(&out));
    let reread = agent_cli::agent_output_from_text(&rewritten).unwrap();
    assert_eq!(reread, out);
}

#[test]
fn test_truncate_summary_clips() {
    let long = "x".repeat(600);
    let clipped = agent_cli::truncate_summary(&long, 500);
    assert_eq!(clipped.chars().count(), 503);
    assert!(clipped.ends_with("..."));
    assert_eq!(agent_cli::truncate_summary("short", 500), "short");
}

#[test]
fn test_parse_pr_identifier_cases() {
    assert_eq!(vibe::gh::parse_pr_identifier("123").unwrap(), 123);
    assert_eq!(
        vibe::gh::parse_pr_identifier("https://github.com/org/repo/pull/456").unwrap(),
        456
    );
    assert!(matches!(
        vibe::gh::parse_pr_identifier("not-a-pr"),
        Err(VibeError::User(_))
    ));
}

#[test]
fn test_pr_info_reading() {
    let text = "{\"number\":7,\"title\":\"Fix\",\"headRefName\":\"fix\",\"baseRefName\":\"main\",\"additions\":3,\"deletions\":1,\"files\":[{\"path\":\"a.rs\",\"additions\":3,\"deletions\":1}]}";
    let info = vibe::gh::prinfo_from_text(text).unwrap();
    assert_eq!(info.number, 7);
    assert_eq!(info.body, "");
    assert_eq!(info.files.len(), 1);
    assert_eq!(info.files[0].path, "a.rs");
}

#[test]
fn test_watcher_classification() {
    let out_text = "{\"type\":\"result\",\"subtype\":\"success\",\"is_error\":false,\"result\":\"ok\",\"session_id\":\"s\"}";
    let out = agent_cli::agent_output_from_text(out_text).unwrap();

    let id = 5u128;
    let path = "/w/.vibe/agents/00000000-0000-0000-0000-000000000005/output.json".to_owned();
    match vibe::watcher::watch_classify(&path, Some(&out)) {
        Some(vibe::watcher::WatcherEvent::AgentCompleted { agent_id, result }) => {
            assert_eq!(agent_id, id);
            assert!(result.success);
        },
        other => panic!("expected a completion event, got {other:?}"),
    }

    // an artifact in an unrecognized directory is reported as a raw write
    match vibe::watcher::watch_classify("/w/.vibe/agents/not-an-id/output.json", Some(&out)) {
        Some(vibe::watcher::WatcherEvent::AgentOutputWritten { path: p }) => {
            assert_eq!(p, "/w/.vibe/agents/not-an-id/output.json");
        },
        other => panic!("expected a raw write event, got {other:?}"),
    }

    // other files are ignored, as is an unparsable artifact
    assert!(vibe::watcher::watch_classify("/w/.vibe/agents/x/notes.txt", Some(&out)).is_none());
    assert!(vibe::watcher::watch_classify(&path, None).is_none());
}

#[test]
fn test_config_derivations() {
    let g = GlobalConfig::default();
    assert_eq!(g.tmux_session_prefix, "vibe-");
    assert_eq!(g.dashboard_key_display(), "F16");
    assert_eq!(g.overview_key_display(), "F19");
    let cfg = MergedConfig {
        global: g,
        workspace: WorkspaceConfig::default(),
        global_config_dir: "/home/u/.config/vibe".to_owned(),
    };
    assert_eq!(cfg.worktree_base_dir("/tmp/demo-repo"), "/tmp");
    assert_eq!(cfg.worktree_base_dir("/demo"), "/");
    assert_eq!(cfg.worktree_base_dir("demo"), "demo");
    let dirs = cfg.template_dir_candidates("/tmp/demo-repo");
    assert_eq!(dirs[0], "/tmp/demo-repo/.vibe/templates");
    assert_eq!(dirs[1], "/home/u/.config/vibe/templates");
}

#[test]
fn test_compute_columns_grid() {
    assert_eq!(vibe::dashboard::compute_columns(0, 80, 24), 1);
    assert_eq!(vibe::dashboard::compute_columns(1, 80, 24), 1);
    assert_eq!(vibe::dashboard::compute_columns(2, 80, 24), 2);
    assert_eq!(vibe::dashboard::compute_columns(4, 80, 24), 2);
    assert_eq!(vibe::dashboard::compute_columns(5, 80, 24), 3);
    assert_eq!(vibe::dashboard::compute_columns(9, 80, 24), 3);
    assert_eq!(vibe::dashboard::compute_columns(10, 80, 24), 4);
}

#[test]
fn test_visible_sessions_pin_main_first() {
    let mut sessions = Vec::new();
    let mut s1 = Session::new("a".to_owned(), "b".to_owned(), "/1".to_owned(), "@1".to_owned());
    s1.status = SessionStatus::Active;
    let mut s2 = Session::new("archived".to_owned(), "b".to_owned(), "/2".to_owned(), "@2".to_owned());
    s2.status = SessionStatus::Archived;
    let mut s3 = Session::new("main".to_owned(), "b".to_owned(), "/3".to_owned(), "@3".to_owned());
    s3.status = SessionStatus::Active;
    s3.is_main = true;
    sessions.push(s1);
    sessions.push(s2);
    sessions.push(s3);
    assert_eq!(vibe::dashboard::visible_session_indices(&sessions), vec![2, 0]);
}

#[test]
fn test_identifier_text_roundtrip() {
    let mut state = make_state();
    let mut agent = Agent::new(
        5,
        "fixed".to_owned(),
        AgentMode::Headless,
        "p".to_owned(),
        "/tmp".to_owned(),
        "/tmp/agents".to_owned(),
    );
    agent.id = 5;
    state.agents.push(agent);
    let text = codec::encode_state(&state);
    assert!(text.contains("00000000-0000-0000-0000-000000000005"));
    let back = codec::decode_state(&text).unwrap();
    assert_eq!(back.agents[0].id, 5);
    assert_eq!(vibe::dashboard::session_color_index(0x0102_0304_0506_0708_090a_0b0c_0d0e_0f10u128), 1);
}

#[test]
fn test_clipboard_text_format() {
    let result = AgentResult {
        success: true,
        summary: "short".to_owned(),
        duration_ms: 1540,
        session_id: "s".to_owned(),
        raw_result: Some("full text".to_owned()),
    };
    assert_eq!(
        vibe::clipboard::agent_result_clipboard_text(&result, "critic"),
        "## Agent: critic\n\nfull text\n\n---\n*Duration: 1.5s*"
    );
    let no_raw = AgentResult { raw_result: None, duration_ms: 50, ..result };
    assert_eq!(
        vibe::clipboard::agent_result_clipboard_text(&no_raw, "a"),
        "## Agent: a\n\nshort\n\n---\n*Duration: 0.1s*"
    );
}

#[test]
fn test_decode_state_rejects_bad_documents() {
    match codec::decode_state("not json at all") {
        Err(VibeError::State(_)) => (),
        other => panic!("expected a state error, got {other:?}"),
    }
    match codec::decode_state("{\"workspace\": 3}") {
        Err(VibeError::State(_)) => (),
        other => panic!("expected a state error, got {other:?}"),
    }
}

#[test]
fn test_duplicate_session_name_is_user_error() {
    let mut state = make_state();
    ops::register_session(
        &mut state,
        "demo".to_owned(),
        "feat/demo".to_owned(),
        "/tmp/w".to_owned(),
        "@1".to_owned(),
        vec![],
        None,
    );
    match ops::check_new_session_name(&state, "demo") {
        Some(VibeError::User(m)) => assert!(m.contains("already exists")),
        other => panic!("expected a user error, got {other:?}"),
    }
}

#[test]
fn test_first_line_of_listing() {
    assert_eq!(vibe::tmux::first_line("%3\n%4\n"), "%3");
    assert_eq!(vibe::tmux::first_line("only"), "only");
}

#[test]
fn test_error_messages() {
    assert_eq!(VibeError::User("plain words".to_owned()).text(), "plain words");
    assert_eq!(VibeError::Tmux("boom".to_owned()).text(), "tmux error: boom");
}

#[test]
fn test_exotic_strings_roundtrip() {
    let mut state = make_state();
    let mut s = Session::new(
        "line\nbreak \"quoted\" back\\slash \u{00e9}".to_owned(),
        "b".to_owned(),
        "/t".to_owned(),
        "@1".to_owned(),
    );
    s.status = SessionStatus::Failed("tab\there".to_owned());
    state.sessions.push(s);
    let text = codec::encode_state(&state);
    let back = codec::decode_state(&text).unwrap();
    assert_eq!(back.sessions[0].name, "line\nbreak \"quoted\" back\\slash \u{00e9}");
    assert_eq!(back.sessions[0].status, SessionStatus::Failed("tab\there".to_owned()));
}
