use vibe::codec;
use vibe::domain::agent::{Agent, AgentMode, AgentStatus};
use vibe::domain::session::{RepoWorktree, Session, SessionStatus};
use vibe::domain::workspace::{RepoInfo, Workspace, WorkspaceKind, WorkspaceState};

fn make_workspace() -> Workspace {
    Workspace {
        root: "/tmp/test-repo".to_owned(),
        name: "test-repo".to_owned(),
        default_branch: "main".to_owned(),
        remote_url: None,
        worktree_prefix: "test-repo-forge".to_owned(),
        worktree_base_dir: "/tmp".to_owned(),
        kind: WorkspaceKind::SingleRepo,
        repos: vec![],
    }
}

fn make_session(name: &str) -> Session {
    Session::new(
        name.to_owned(),
        format!("feat/{name}"),
        format!("/tmp/{name}"),
        name.to_owned(),
    )
}

fn make_agent(session_id: u128, name: &str) -> Agent {
    Agent::new(
        session_id,
        name.to_owned(),
        AgentMode::Headless,
        "do something".to_owned(),
        "/tmp/test".to_owned(),
        "/tmp/agents".to_owned(),
    )
}

#[test]
fn test_agent_new_defaults() {
    let agent = make_agent(7, "test-agent");
    assert_eq!(agent.name, "test-agent");
    assert_eq!(agent.mode, AgentMode::Headless);
    assert_eq!(agent.status, AgentStatus::Queued);
    assert!(agent.template.is_none());
    assert!(agent.result.is_none());
    assert!(agent.completed_at.is_none());
    assert!(agent.output_file.contains("output.json"));
}

#[test]
fn test_is_running() {
    let mut agent = make_agent(7, "test-agent");
    assert!(!agent.is_running());
    agent.status = AgentStatus::Running;
    assert!(agent.is_running());
    agent.status = AgentStatus::Completed;
    assert!(!agent.is_running());
}

#[test]
fn test_is_done() {
    let mut agent = make_agent(7, "test-agent");
    assert!(!agent.is_done());
    agent.status = AgentStatus::Running;
    assert!(!agent.is_done());
    agent.status = AgentStatus::Completed;
    assert!(agent.is_done());
    agent.status = AgentStatus::Failed("err".to_owned());
    assert!(agent.is_done());
    agent.status = AgentStatus::Ingested;
    assert!(agent.is_done());
}

#[test]
fn test_agent_serialization_roundtrip() {
    let agent = make_agent(7, "test-agent");
    let mut state = WorkspaceState::new(make_workspace(), "forge-test".to_owned());
    state.agents.push(agent.clone());
    let text = codec::encode_state(&state);
    let back = codec::decode_state(&text).expect("the encoder writes the schema");
    assert_eq!(back.agents[0].id, agent.id);
    assert_eq!(back.agents[0].name, agent.name);
    assert_eq!(back.agents[0].status, agent.status);
}

#[test]
fn test_workspace_state_new() {
    let ws = make_workspace();
    let state = WorkspaceState::new(ws, "forge-test".to_owned());
    assert!(state.sessions.is_empty());
    assert!(state.agents.is_empty());
    assert_eq!(state.tmux_session_name, "forge-test");
}

#[test]
fn test_find_session_by_name() {
    let ws = make_workspace();
    let mut state = WorkspaceState::new(ws, "forge-test".to_owned());
    let session = make_session("my-feature");
    state.sessions.push(session);

    assert!(state.find_session_by_name("my-feature").is_some());
    assert!(state.find_session_by_name("nonexistent").is_none());
}

#[test]
fn test_active_sessions() {
    let ws = make_workspace();
    let mut state = WorkspaceState::new(ws, "forge-test".to_owned());

    let mut s1 = make_session("active");
    s1.status = SessionStatus::Active;
    let mut s2 = make_session("archived");
    s2.status = SessionStatus::Archived;
    let s3 = make_session("creating");

    state.sessions.push(s1);
    state.sessions.push(s2);
    state.sessions.push(s3);

    let active = state.active_sessions();
    assert_eq!(active.len(), 2);
}

#[test]
fn test_agents_for_session() {
    let ws = make_workspace();
    let mut state = WorkspaceState::new(ws, "forge-test".to_owned());

    let session = make_session("my-feature");
    let session_id = session.id;
    state.sessions.push(session);

    let a1 = make_agent(session_id, "agent-1");
    let a2 = make_agent(session_id, "agent-2");
    let a3 = make_agent(session_id.wrapping_add(1), "other-agent");

    state.agents.push(a1);
    state.agents.push(a2);
    state.agents.push(a3);

    let session_agents = state.agents_for_session(session_id);
    assert_eq!(session_agents.len(), 2);
}

#[test]
fn test_agent_index_by_name() {
    let ws = make_workspace();
    let mut state = WorkspaceState::new(ws, "forge-test".to_owned());
    state.agents.push(make_agent(1, "first"));
    state.agents.push(make_agent(1, "second"));
    assert_eq!(state.agent_index_by_name("second"), Some(1));
    assert_eq!(state.agent_index_by_name("absent"), None);
}

#[test]
fn test_running_agents() {
    let ws = make_workspace();
    let mut state = WorkspaceState::new(ws, "forge-test".to_owned());

    let session_id = 42u128;
    let mut a1 = make_agent(session_id, "running");
    a1.status = AgentStatus::Running;
    let mut a2 = make_agent(session_id, "completed");
    a2.status = AgentStatus::Completed;

    state.agents.push(a1);
    state.agents.push(a2);

    assert_eq!(state.running_agents().len(), 1);
}

#[test]
fn test_state_serialization_roundtrip() {
    let ws = make_workspace();
    let mut state = WorkspaceState::new(ws, "forge-test".to_owned());
    state.sessions.push(make_session("test"));

    let text = codec::encode_state(&state);
    let back = codec::decode_state(&text).expect("the encoder writes the schema");
    assert_eq!(back.sessions.len(), 1);
    assert_eq!(back.sessions[0].name, "test");
}

/// An existing single-repo document without the later fields must read
/// with their defaults, and survive a write-and-read cycle.
#[test]
fn test_backwards_compat_deserialization() {
    let old_json = r#"{
        "workspace": {
            "root": "/tmp/test-repo",
            "name": "test-repo",
            "default_branch": "main",
            "remote_url": null,
            "worktree_prefix": "-vibe-",
            "worktree_base_dir": "/tmp"
        },
        "sessions": [{
            "id": "00000000-0000-0000-0000-000000000001",
            "name": "my-feature",
            "branch": "feat/my-feature",
            "worktree_path": "/tmp/my-feature",
            "tmux_window": "@1",
            "status": "Active",
            "claude_session_id": null,
            "template": null,
            "system_prompt_override": null,
            "created_at": "2026-01-01T00:00:00Z",
            "updated_at": "2026-01-01T00:00:00Z",
            "agents": [],
            "metadata": {
                "description": null,
                "pr_number": null,
                "parent_session": null,
                "turns": null
            }
        }],
        "agents": [],
        "tmux_session_name": "vibe-test"
    }"#;

    let state = codec::decode_state(old_json).expect("older documents must read");
    assert_eq!(state.workspace.kind, WorkspaceKind::SingleRepo);
    assert!(state.workspace.repos.is_empty());
    assert!(!state.workspace.is_multi_repo());
    assert!(state.sessions[0].repo_worktrees.is_empty());
    assert!(!state.sessions[0].is_main);

    // and it round-trips through the writer
    let rewritten = codec::encode_state(&state);
    let again = codec::decode_state(&rewritten).expect("rewritten documents must read");
    assert_eq!(again.sessions[0].name, "my-feature");
    assert_eq!(again.workspace.kind, WorkspaceKind::SingleRepo);
    assert!(!again.sessions[0].is_main);
}

#[test]
fn test_multi_repo_serialization_roundtrip() {
    let ws = Workspace {
        root: "/tmp/my-platform".to_owned(),
        name: "my-platform".to_owned(),
        default_branch: "main".to_owned(),
        remote_url: None,
        worktree_prefix: "-vibe-".to_owned(),
        worktree_base_dir: "/tmp".to_owned(),
        kind: WorkspaceKind::MultiRepo,
        repos: vec![
            RepoInfo {
                root: "/tmp/my-platform/api".to_owned(),
                name: "api".to_owned(),
                default_branch: "main".to_owned(),
                remote_url: Some("git@github.com:org/api.git".to_owned()),
            },
            RepoInfo {
                root: "/tmp/my-platform/web".to_owned(),
                name: "web".to_owned(),
                default_branch: "main".to_owned(),
                remote_url: None,
            },
        ],
    };

    let mut state = WorkspaceState::new(ws, "vibe-my-platform".to_owned());
    let mut session = make_session("onboarding");
    session.repo_worktrees.push(RepoWorktree {
        repo: "api".to_owned(),
        path: "/tmp/my-platform-vibe-abc12345/api".to_owned(),
    });
    session.repo_worktrees.push(RepoWorktree {
        repo: "web".to_owned(),
        path: "/tmp/my-platform-vibe-abc12345/web".to_owned(),
    });
    state.sessions.push(session);

    let text = codec::encode_state(&state);
    let back = codec::decode_state(&text).expect("the encoder writes the schema");

    assert!(back.workspace.is_multi_repo());
    assert_eq!(back.workspace.repos.len(), 2);
    assert_eq!(back.sessions[0].repo_worktrees.len(), 2);
    assert!(back.sessions[0].repo_worktrees.iter().any(|e| e.repo == "api"));
    assert!(back.sessions[0].repo_worktrees.iter().any(|e| e.repo == "web"));
}
