//! How the agent process is started: its arguments, which follow from the
//! permission mode and from the MCP server of the worktree, and its
//! environment.

use crate::json::{json_text, Field, Json, JsonMember, JsonValue};
use crate::mcp_manager::{EnvVar, LaunchSpec, McpServerConfig};
use crate::text::{same_text, views};
use vstd::prelude::*;
use vstd::string::StringExecFns;

verus! {

/// How the agent is to come by its permissions.
#[derive(Debug)]
pub enum PermissionPlan {
    /// The agent asks nobody.
    SkipPermissions,
    /// The agent may edit, and asks for the rest itself.
    AcceptEdits,
    /// The agent asks through the MCP server `server_id`, whose
    /// configuration `config_text` is to be written to `config_file` first.
    McpConfig { server_id: String, config_file: String, config_text: String },
}

/// The mathematical value of a `PermissionPlan`.
pub enum PlanModel {
    SkipPermissions,
    AcceptEdits,
    McpConfig { server_id: Seq<char>, config_file: Seq<char>, config_text: Seq<char> },
}

impl View for PermissionPlan {
    type V = PlanModel;

    open spec fn view(&self) -> PlanModel {
        match self {
            PermissionPlan::SkipPermissions => PlanModel::SkipPermissions,
            PermissionPlan::AcceptEdits => PlanModel::AcceptEdits,
            PermissionPlan::McpConfig { server_id, config_file, config_text } => {
                PlanModel::McpConfig {
                    server_id: server_id@,
                    config_file: config_file@,
                    config_text: config_text@,
                }
            },
        }
    }
}

/// The MCP configuration that points the agent to the server of a worktree.
pub open spec fn mcp_config(
    server_path: Seq<char>,
    worktree_path: Seq<char>,
    worktree_id: Seq<char>,
) -> Json {
    let env = Json::Object(
        seq![
            Field { key: "WORKTREE_PATH"@, value: Json::String(worktree_path) },
            Field { key: "WORKTREE_ID"@, value: Json::String(worktree_id) },
        ],
    );
    let server = Json::Object(
        seq![
            Field { key: "command"@, value: Json::String("node"@) },
            Field { key: "args"@, value: Json::Array(seq![Json::String(server_path)]) },
            Field { key: "env"@, value: env },
        ],
    );
    Json::Object(
        seq![
            Field {
                key: "mcpServers"@,
                value: Json::Object(seq![Field { key: "orchestra-worktree"@, value: server }]),
            },
        ],
    )
}

/// The file that takes the MCP configuration of a worktree.
pub open spec fn config_file_name(worktree_id: Seq<char>) -> Seq<char> {
    "/tmp/mcp_config_"@ + worktree_id + ".json"@
}

/// The first of the servers that serves the worktree.
pub open spec fn server_for(servers: Seq<McpServerConfig>, worktree_id: Seq<char>) -> Option<
    McpServerConfig,
>
    decreases servers.len(),
{
    if servers.len() == 0 {
        None
    } else if servers[0].worktree_id@ == worktree_id {
        Some(servers[0])
    } else {
        server_for(servers.drop_first(), worktree_id)
    }
}

/// The plan for a permission mode: `full` asks nobody; `mcp` asks through
/// the server of the worktree, if it has one; anything else, and no mode at
/// all, accepts edits.
pub open spec fn planned(
    permission_mode: Option<Seq<char>>,
    worktree_id: Seq<char>,
    worktree_path: Seq<char>,
    servers: Seq<McpServerConfig>,
) -> PlanModel {
    match permission_mode {
        Some(mode) => if mode == "full"@ {
            PlanModel::SkipPermissions
        } else if mode == "mcp"@ {
            match server_for(servers, worktree_id) {
                Some(server) => PlanModel::McpConfig {
                    server_id: server.server_id@,
                    config_file: config_file_name(worktree_id),
                    config_text: json_text(
                        mcp_config(server.server_path@, worktree_path, worktree_id),
                    ),
                },
                None => PlanModel::AcceptEdits,
            }
        } else {
            PlanModel::AcceptEdits
        },
        None => PlanModel::AcceptEdits,
    }
}

/// The arguments that a plan puts between the fixed ones and the message.
/// A configuration that could not be written falls back to accepting edits.
pub open spec fn permission_arguments(plan: PlanModel, config_written: bool) -> Seq<Seq<char>> {
    match plan {
        PlanModel::SkipPermissions => seq!["--dangerously-skip-permissions"@],
        PlanModel::AcceptEdits => seq!["--permission-mode"@, "acceptEdits"@],
        PlanModel::McpConfig { server_id, config_file, config_text } => if config_written {
            seq![
                "--mcp-config"@,
                config_file,
                "--permission-prompt-tool"@,
                "mcp__orchestra-worktree__approval_prompt"@,
            ]
        } else {
            seq!["--permission-mode"@, "acceptEdits"@]
        },
    }
}

/// The arguments of the agent: print mode with streamed JSON output, what
/// the plan asks for, and the user's message last.
pub open spec fn claude_arguments(
    plan: PlanModel,
    config_written: bool,
    user_message: Seq<char>,
) -> Seq<Seq<char>> {
    seq!["--print"@, "--verbose"@, "--output-format"@, "stream-json"@] + permission_arguments(
        plan,
        config_written,
    ) + seq![user_message]
}

/// The error for an agent that could not be started: the agent's title,
/// what went wrong, and the program that has to be at hand.
pub open spec fn spawn_failure(title: Seq<char>, program: Seq<char>, error: Seq<char>) -> Seq<
    char,
> {
    "Failed to start "@ + title + ": "@ + error + ". Make sure '"@ + program
        + "' is installed and in PATH."@
}

/// Builds the MCP configuration that points the agent to the server of a worktree.
pub fn build_mcp_config(server_path: &str, worktree_path: &str, worktree_id: &str) -> (r:
    JsonValue)
    ensures
        r@ == mcp_config(server_path@, worktree_path@, worktree_id@),
{
    let ghost want = mcp_config(server_path@, worktree_path@, worktree_id@);
    let ghost want_server = want->Object_0[0].value->Object_0[0].value;
    let mut env: Vec<JsonMember> = Vec::new();
    env.push(JsonMember::new("WORKTREE_PATH", JsonValue::string(worktree_path)));
    env.push(JsonMember::new("WORKTREE_ID", JsonValue::string(worktree_id)));
    let env = JsonValue::object(env);
    assert(env@->Object_0 =~= want_server->Object_0[2].value->Object_0);
    let mut args: Vec<JsonValue> = Vec::new();
    args.push(JsonValue::string(server_path));
    let args = JsonValue::array(args);
    assert(args@->Array_0 =~= seq![Json::String(server_path@)]);
    let mut server: Vec<JsonMember> = Vec::new();
    server.push(JsonMember::new("command", JsonValue::string("node")));
    server.push(JsonMember::new("args", args));
    server.push(JsonMember::new("env", env));
    let server = JsonValue::object(server);
    assert(server@->Object_0 =~= want_server->Object_0);
    let mut servers: Vec<JsonMember> = Vec::new();
    servers.push(JsonMember::new("orchestra-worktree", server));
    let servers = JsonValue::object(servers);
    assert(servers@->Object_0 =~= want->Object_0[0].value->Object_0);
    let mut top: Vec<JsonMember> = Vec::new();
    top.push(JsonMember::new("mcpServers", servers));
    let top = JsonValue::object(top);
    assert(top@->Object_0 =~= want->Object_0);
    top
}

/// Finds the first of the servers that serves the worktree.
pub fn find_server_for<'a>(servers: &'a Vec<McpServerConfig>, worktree_id: &str) -> (r: Option<
    &'a McpServerConfig,
>)
    ensures
        match r {
            Some(server) => server_for(servers@, worktree_id@) == Some(*server),
            None => server_for(servers@, worktree_id@) is None,
        },
{
    let mut i: usize = 0;
    assert(servers@.subrange(0, servers@.len() as int) =~= servers@);
    while i < servers.len()
        invariant
            0 <= i <= servers.len(),
            server_for(servers@, worktree_id@) == server_for(
                servers@.subrange(i as int, servers@.len() as int),
                worktree_id@,
            ),
        decreases servers.len() - i,
    {
        let ghost rest = servers@.subrange(i as int, servers@.len() as int);
        assert(rest[0] == servers@[i as int]);
        assert(rest.drop_first() =~= servers@.subrange(i + 1, servers@.len() as int));
        if same_text(servers[i].worktree_id.as_str(), worktree_id) {
            return Some(&servers[i]);
        }
        i = i + 1;
    }
    None
}

/// Plans how the agent comes by its permissions.
pub fn plan_permissions(
    permission_mode: Option<&str>,
    worktree_id: &str,
    worktree_path: &str,
    servers: &Vec<McpServerConfig>,
) -> (r: PermissionPlan)
    ensures
        r@ == planned(
            match permission_mode {
                Some(mode) => Some(mode@),
                None => None,
            },
            worktree_id@,
            worktree_path@,
            servers@,
        ),
{
    match permission_mode {
        Some(mode) => {
            if same_text(mode, "full") {
                PermissionPlan::SkipPermissions
            } else if same_text(mode, "mcp") {
                match find_server_for(servers, worktree_id) {
                    Some(server) => {
                        let config = build_mcp_config(
                            server.server_path.as_str(),
                            worktree_path,
                            worktree_id,
                        );
                        let mut config_file = String::from_str("/tmp/mcp_config_");
                        config_file.append(worktree_id);
                        config_file.append(".json");
                        PermissionPlan::McpConfig {
                            server_id: server.server_id.clone(),
                            config_file,
                            config_text: config.to_text(),
                        }
                    },
                    None => PermissionPlan::AcceptEdits,
                }
            } else {
                PermissionPlan::AcceptEdits
            }
        },
        None => PermissionPlan::AcceptEdits,
    }
}

/// Appends a text to a list of arguments.
fn push_text(args: &mut Vec<String>, text: &str)
    ensures
        views(final(args)@) == views(old(args)@).push(text@),
{
    args.push(String::from_str(text));
    assert(views(args@) =~= views(old(args)@).push(text@));
}

/// Says how to start the agent: its program with its arguments, and the
/// address of the approval gateway in its environment.
pub fn claude_launch(
    program: &str,
    plan: &PermissionPlan,
    config_written: bool,
    user_message: &str,
) -> (r: LaunchSpec)
    ensures
        r.program@ == program@,
        views(r.args@) == claude_arguments(plan@, config_written, user_message@),
        r.env@.len() == 1,
        r.env@[0].name@ == "APPROVAL_ENDPOINT"@,
        r.env@[0].value@ == "http://localhost:8080/api/approval-request"@,
{
    let mut args: Vec<String> = Vec::new();
    assert(views(args@) =~= Seq::<Seq<char>>::empty());
    push_text(&mut args, "--print");
    push_text(&mut args, "--verbose");
    push_text(&mut args, "--output-format");
    push_text(&mut args, "stream-json");
    let ghost fixed = views(args@);
    assert(fixed =~= seq!["--print"@, "--verbose"@, "--output-format"@, "stream-json"@]);
    match plan {
        PermissionPlan::SkipPermissions => {
            push_text(&mut args, "--dangerously-skip-permissions");
        },
        PermissionPlan::AcceptEdits => {
            push_text(&mut args, "--permission-mode");
            push_text(&mut args, "acceptEdits");
        },
        PermissionPlan::McpConfig { server_id, config_file, config_text } => {
            if config_written {
                push_text(&mut args, "--mcp-config");
                push_text(&mut args, config_file.as_str());
                push_text(&mut args, "--permission-prompt-tool");
                push_text(&mut args, "mcp__orchestra-worktree__approval_prompt");
            } else {
                push_text(&mut args, "--permission-mode");
                push_text(&mut args, "acceptEdits");
            }
        },
    }
    assert(views(args@) =~= fixed + permission_arguments(plan@, config_written));
    push_text(&mut args, user_message);
    assert(views(args@) =~= claude_arguments(plan@, config_written, user_message@));
    let mut env: Vec<EnvVar> = Vec::new();
    env.push(
        EnvVar {
            name: String::from_str("APPROVAL_ENDPOINT"),
            value: String::from_str("http://localhost:8080/api/approval-request"),
        },
    );
    LaunchSpec { program: String::from_str(program), args, env }
}

/// The error text for an agent that could not be started.
pub fn spawn_failure_text(title: &str, program: &str, error: &str) -> (r: String)
    ensures
        r@ == spawn_failure(title@, program@, error@),
{
    let mut text = String::from_str("Failed to start ");
    text.append(title);
    text.append(": ");
    text.append(error);
    text.append(". Make sure '");
    text.append(program);
    text.append("' is installed and in PATH.");
    assert(text@ =~= spawn_failure(title@, program@, error@));
    text
}

} // verus!
