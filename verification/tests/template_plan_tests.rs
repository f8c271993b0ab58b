use vibe::domain::agent::AgentMode;
use vibe::plan::{Plan, PlanStatus, slug_from_title};
use vibe::template::{AgentTemplate, builtin_templates};

#[test]
fn test_parse_valid_template() {
    let content = "+++\ndescription = \"Test template\"\nmode = \"headless\"\npermission_mode = \"plan\"\nallowed_tools = [\"Read\", \"Grep\"]\ndisallowed_tools = [\"Edit\"]\n+++\n\nYou are a test agent. Do test things.";

    let t = AgentTemplate::parse("test", content).unwrap();
    assert_eq!(t.name, "test");
    assert_eq!(t.description, "Test template");
    assert_eq!(t.mode, AgentMode::Headless);
    assert_eq!(t.allowed_tools, vec!["Read", "Grep"]);
    assert_eq!(t.disallowed_tools, vec!["Edit"]);
    assert_eq!(t.permission_mode, Some("plan".to_owned()));
    assert!(t.system_prompt.contains("test agent"));
}

#[test]
fn test_parse_interactive_mode() {
    let content = "+++\ndescription = \"Interactive agent\"\nmode = \"interactive\"\n+++\n\nDo things interactively.";

    let t = AgentTemplate::parse("interactive", content).unwrap();
    assert_eq!(t.mode, AgentMode::Interactive);
    assert!(t.allowed_tools.is_empty());
    assert!(t.disallowed_tools.is_empty());
    assert!(t.permission_mode.is_none());
}

#[test]
fn test_parse_missing_frontmatter() {
    let content = "# No frontmatter here\nJust markdown.";
    assert!(AgentTemplate::parse("bad", content).is_err());
}

#[test]
fn test_parse_invalid_toml() {
    let content = "+++\nnot = [valid toml\n+++\nBody";
    assert!(AgentTemplate::parse("bad", content).is_err());
}

#[test]
fn test_all_builtins_parse() {
    for (name, content) in builtin_templates() {
        let result = AgentTemplate::parse(&name, &content);
        assert!(result.is_ok(), "Built-in template '{name}' failed to parse: {:?}", result.err());
    }
}

#[test]
fn test_load_all_includes_builtins() {
    let empty_dirs: Vec<(String, String)> = vec![];
    let templates = AgentTemplate::load_all(&empty_dirs);
    assert_eq!(templates.len(), 5);
    let names: Vec<&str> = templates.iter().map(|t| t.name.as_str()).collect();
    assert!(names.contains(&"planner"));
    assert!(names.contains(&"implementer"));
    assert!(names.contains(&"critic"));
    assert!(names.contains(&"tester"));
    assert!(names.contains(&"refactorer"));
}

#[test]
fn test_load_by_name_builtin() {
    let empty_dirs: Vec<(String, String)> = vec![];
    let t = AgentTemplate::load("critic", &empty_dirs).unwrap();
    assert_eq!(t.name, "critic");
    assert!(!t.system_prompt.is_empty());
}

#[test]
fn test_load_by_name_not_found() {
    let empty_dirs: Vec<(String, String)> = vec![];
    assert!(AgentTemplate::load("nonexistent", &empty_dirs).is_err());
}

#[test]
fn test_workspace_file_beats_builtin() {
    let files = vec![(
        "critic".to_owned(),
        "+++\ndescription = \"Local override\"\n+++\n\nLocal critic.".to_owned(),
    )];
    let t = AgentTemplate::load("critic", &files).unwrap();
    assert_eq!(t.description, "Local override");
}

#[test]
fn test_slug_from_title() {
    assert_eq!(slug_from_title("My Cool Plan"), "my-cool-plan");
    assert_eq!(slug_from_title("fix auth/login"), "fix-auth-login");
    assert_eq!(slug_from_title("  spaces  "), "spaces");
}

#[test]
fn test_parse_no_frontmatter() {
    let result = Plan::parse("# Just markdown", "test.md");
    assert!(result.is_err());
}

#[test]
fn test_plan_content_roundtrip() {
    let plan = Plan::new("Test Plan".to_owned(), Some("my-session".to_owned()), "/tmp/plans");
    let body = "# Implementation\n\n- Step 1\n- Step 2\n";
    let content = plan.file_content(body);

    let (loaded, loaded_body) = Plan::parse(&content, &plan.file_path).unwrap();
    assert_eq!(loaded.id, plan.id);
    assert_eq!(loaded.title, "Test Plan");
    assert_eq!(loaded.session_name, Some("my-session".to_owned()));
    assert_eq!(loaded.status, PlanStatus::Draft);
    assert_eq!(loaded_body, body);
}

#[test]
fn test_plan_new_file_name() {
    let plan = Plan::new("My Cool Plan".to_owned(), None, "/tmp/plans");
    assert!(plan.file_path.starts_with("/tmp/plans/my-cool-plan-"));
    assert!(plan.file_path.ends_with(".md"));
}

#[test]
fn test_sort_plans_latest_first() {
    let mut a = Plan::new("A".to_owned(), None, "/p");
    a.updated_at = "2026-01-01T00:00:00Z".to_owned();
    let mut b = Plan::new("B".to_owned(), None, "/p");
    b.updated_at = "2026-03-01T00:00:00Z".to_owned();
    let mut c = Plan::new("C".to_owned(), None, "/p");
    c.updated_at = "2026-02-01T00:00:00Z".to_owned();
    let mut plans = vec![a, b, c];
    vibe::plan::sort_plans_latest_first(&mut plans);
    let titles: Vec<&str> = plans.iter().map(|p| p.title.as_str()).collect();
    assert_eq!(titles, vec!["B", "C", "A"]);
}

#[test]
fn test_find_plan_by_title_and_id() {
    let a = Plan::new("Alpha Work".to_owned(), None, "/p");
    let b = Plan::new("Beta Work".to_owned(), None, "/p");
    let id_prefix: String = {
        // the file name ends with the first characters of the identifier
        let stem = b.file_path.trim_end_matches(".md");
        stem[stem.len() - 8..].to_owned()
    };
    let plans = vec![a, b];
    assert_eq!(vibe::plan::find_plan(&plans, "alpha"), Some(0));
    assert_eq!(vibe::plan::find_plan(&plans, &id_prefix), Some(1));
    assert_eq!(vibe::plan::find_plan(&plans, "gamma"), None);
}
