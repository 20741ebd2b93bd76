use orchestra::json::JsonValue;
use orchestra::launch::{
    build_mcp_config, claude_launch, find_server_for, plan_permissions, spawn_failure_text,
    PermissionPlan,
};
use orchestra::mcp_manager::McpServerConfig;

fn server(id: &str, worktree: &str, path: &str) -> McpServerConfig {
    McpServerConfig {
        server_id: id.to_string(),
        worktree_id: worktree.to_string(),
        worktree_path: format!("/w/{worktree}"),
        server_path: path.to_string(),
        port: None,
    }
}

fn texts(items: &[&str]) -> Vec<String> {
    items.iter().map(|s| s.to_string()).collect()
}

#[test]
fn full_mode_skips_permissions() {
    let plan = plan_permissions(Some("full"), "wt", "/w/wt", &vec![]);
    assert!(matches!(plan, PermissionPlan::SkipPermissions));
    let launch = claude_launch("agent", &plan, false, "hello");
    assert_eq!(launch.program, "agent");
    assert_eq!(
        launch.args,
        texts(&["--print", "--verbose", "--output-format", "stream-json", "--dangerously-skip-permissions", "hello"])
    );
    assert_eq!(launch.env.len(), 1);
    assert_eq!(launch.env[0].name, "APPROVAL_ENDPOINT");
    assert_eq!(launch.env[0].value, "http://localhost:8080/api/approval-request");
}

#[test]
fn other_modes_accept_edits() {
    for mode in [None, Some("safe"), Some("anything"), Some(""), Some("FULL")] {
        let plan = plan_permissions(mode, "wt", "/w/wt", &vec![server("s", "wt", "/srv.js")]);
        assert!(matches!(plan, PermissionPlan::AcceptEdits));
        assert_eq!(
            claude_launch("agent", &plan, true, "msg").args,
            texts(&["--print", "--verbose", "--output-format", "stream-json", "--permission-mode", "acceptEdits", "msg"])
        );
    }
}

#[test]
fn mcp_mode_without_a_server_accepts_edits() {
    let plan = plan_permissions(Some("mcp"), "wt", "/w/wt", &vec![server("s", "other", "/srv.js")]);
    assert!(matches!(plan, PermissionPlan::AcceptEdits));
}

#[test]
fn mcp_mode_points_the_agent_to_the_server_of_the_worktree() {
    let servers = vec![server("s0", "other", "/zero.js"), server("s1", "wt", "/one.js"), server("s2", "wt", "/two.js")];
    assert_eq!(find_server_for(&servers, "wt").map(|s| s.server_id.clone()), Some("s1".to_string()));
    assert!(find_server_for(&servers, "none").is_none());
    let plan = plan_permissions(Some("mcp"), "wt", "/w/wt", &servers);
    match &plan {
        PermissionPlan::McpConfig { server_id, config_file, config_text } => {
            assert_eq!(server_id, "s1");
            assert_eq!(config_file, "/tmp/mcp_config_wt.json");
            assert_eq!(
                config_text,
                r#"{"mcpServers":{"orchestra-worktree":{"args":["/one.js"],"command":"node","env":{"WORKTREE_ID":"wt","WORKTREE_PATH":"/w/wt"}}}}"#
            );
        }
        other => panic!("unexpected plan {:?}", other),
    }
    assert_eq!(
        claude_launch("agent", &plan, true, "go").args,
        texts(&[
            "--print",
            "--verbose",
            "--output-format",
            "stream-json",
            "--mcp-config",
            "/tmp/mcp_config_wt.json",
            "--permission-prompt-tool",
            "mcp__orchestra-worktree__approval_prompt",
            "go",
        ])
    );
    // A configuration that could not be written falls back to accepting edits.
    assert_eq!(
        claude_launch("agent", &plan, false, "go").args,
        texts(&["--print", "--verbose", "--output-format", "stream-json", "--permission-mode", "acceptEdits", "go"])
    );
}

#[test]
fn mcp_configuration_document() {
    let config = build_mcp_config("/srv/index.js", "/w/a b", "id-1");
    let entry = config.get("mcpServers").unwrap().get("orchestra-worktree").unwrap();
    assert_eq!(entry.get_str("command"), Some("node"));
    assert_eq!(entry.get("args"), Some(&JsonValue::array(vec![JsonValue::string("/srv/index.js")])));
    assert_eq!(entry.get("env").unwrap().get_str("WORKTREE_PATH"), Some("/w/a b"));
    assert_eq!(entry.get("env").unwrap().get_str("WORKTREE_ID"), Some("id-1"));
    let text = config.to_text();
    assert_eq!(JsonValue::parse(&text).map(|read| read.to_text()), Some(text));
}

#[test]
fn spawn_failures_name_the_program() {
    assert_eq!(
        spawn_failure_text("The Agent", "agent", "No such file or directory (os error 2)"),
        "Failed to start The Agent: No such file or directory (os error 2). Make sure 'agent' is installed and in PATH."
    );
}
