//! The manager of the MCP servers and of the approvals that their tools ask
//! for: which servers there are and whether they run, and the two tables of
//! pending approvals with the relay that takes a decision to them.

use crate::approval::{
    fulfill_approval, found, fulfilled, handler_gone, http_not_found, not_found, not_found_text,
};
pub use crate::approval::{
    ApprovalBehavior, ApprovalRequest, ApprovalResponse, HttpApprovalRequest, PendingHttpApproval,
};
use crate::ident::fresh_id;
use crate::table::Table;
use vstd::prelude::*;
use vstd::string::StringExecFns;

verus! {

/// How an MCP server is set up.
#[derive(Debug)]
pub struct McpServerConfig {
    pub server_id: String,
    pub worktree_id: String,
    pub worktree_path: String,
    pub server_path: String,
    pub port: Option<u16>,
}

impl Clone for McpServerConfig {
    fn clone(&self) -> (r: McpServerConfig)
        ensures
            r == *self,
    {
        McpServerConfig {
            server_id: self.server_id.clone(),
            worktree_id: self.worktree_id.clone(),
            worktree_path: self.worktree_path.clone(),
            server_path: self.server_path.clone(),
            port: self.port,
        }
    }
}

/// One variable of the environment of a process.
#[derive(Debug)]
pub struct EnvVar {
    pub name: String,
    pub value: String,
}

/// How to start a process: the program, its arguments, and what to add to
/// its environment.
#[derive(Debug)]
pub struct LaunchSpec {
    pub program: String,
    pub args: Vec<String>,
    pub env: Vec<EnvVar>,
}

/// What a look at a process without waiting for it showed.
#[derive(Debug, Clone, Copy, PartialEq, Eq, Structural)]
pub enum ProcessProbe {
    /// The process has exited.
    Exited,
    /// The process is still running.
    Running,
    /// The look itself failed.
    Failed,
}

/// An MCP server: how it is set up, and whether a process stands behind it.
#[derive(Debug)]
pub struct McpServer {
    pub config: McpServerConfig,
    pub has_process: bool,
}

/// The error for starting a server that has a process already.
pub open spec fn already_running() -> Seq<char> {
    "MCP server is already running"@
}

/// The error for a server that the manager does not have.
pub open spec fn server_not_found(server_id: Seq<char>) -> Seq<char> {
    "MCP server not found: "@ + server_id
}

/// Whether a server that was looked at runs: it has a process, and the look
/// found that process running.
pub open spec fn runs(has_process: bool, probe: ProcessProbe) -> bool {
    has_process && probe == ProcessProbe::Running
}

impl McpServer {
    /// A server that has not been started.
    pub fn new(config: McpServerConfig) -> (r: McpServer)
        ensures
            r.config == config,
            !r.has_process,
    {
        McpServer { config, has_process: false }
    }

    /// How to start the server's process: `node` with the server's script,
    /// and the worktree's path and id in the environment. A server that has a
    /// process already is not started again.
    pub fn launch_spec(&self) -> (r: Result<LaunchSpec, String>)
        ensures
            self.has_process ==> (r matches Err(e) && e@ == already_running()),
            !self.has_process ==> (r matches Ok(spec) && {
                &&& spec.program@ == "node"@
                &&& spec.args@.len() == 1
                &&& spec.args@[0] == self.config.server_path
                &&& spec.env@.len() == 2
                &&& spec.env@[0].name@ == "WORKTREE_PATH"@
                &&& spec.env@[0].value == self.config.worktree_path
                &&& spec.env@[1].name@ == "WORKTREE_ID"@
                &&& spec.env@[1].value == self.config.worktree_id
            }),
    {
        if self.has_process {
            return Err(String::from_str("MCP server is already running"));
        }
        let mut args: Vec<String> = Vec::new();
        args.push(self.config.server_path.clone());
        let mut env: Vec<EnvVar> = Vec::new();
        env.push(
            EnvVar {
                name: String::from_str("WORKTREE_PATH"),
                value: self.config.worktree_path.clone(),
            },
        );
        env.push(
            EnvVar {
                name: String::from_str("WORKTREE_ID"),
                value: self.config.worktree_id.clone(),
            },
        );
        Ok(LaunchSpec { program: String::from_str("node"), args, env })
    }

    /// Takes in how the start of the server's process went. A server that
    /// has a process already refuses; a start that failed leaves the server
    /// without a process and hands the failure on.
    pub fn start(&mut self, spawned: Result<(), String>) -> (r: Result<(), String>)
        ensures
            final(self).config == old(self).config,
            old(self).has_process ==> final(self).has_process && (r matches Err(e) && e@
                == already_running()),
            !old(self).has_process ==> final(self).has_process == (spawned is Ok) && r == spawned,
    {
        if self.has_process {
            return Err(String::from_str("MCP server is already running"));
        }
        if spawned.is_ok() {
            self.has_process = true;
        }
        spawned
    }

    /// Takes in how killing the server's process went: the server has no
    /// process afterwards, and a failure is handed on. A server without a
    /// process has nothing to stop.
    pub fn stop(&mut self, killed: Result<(), String>) -> (r: Result<(), String>)
        ensures
            final(self).config == old(self).config,
            !final(self).has_process,
            r == if old(self).has_process {
                killed
            } else {
                Ok::<(), String>(())
            },
    {
        if self.has_process {
            self.has_process = false;
            killed
        } else {
            Ok(())
        }
    }

    /// Takes in a look at the server's process and tells whether the server
    /// runs. A process that has exited, or that could not be looked at, is
    /// given up.
    pub fn is_running(&mut self, probe: ProcessProbe) -> (r: bool)
        ensures
            final(self).config == old(self).config,
            r == runs(old(self).has_process, probe),
            final(self).has_process == r,
    {
        if self.has_process {
            match probe {
                ProcessProbe::Running => true,
                _ => {
                    self.has_process = false;
                    false
                },
            }
        } else {
            false
        }
    }
}

/// The manager's state: the servers, the approvals that are polled for, and
/// the approvals whose network calls wait for a decision.
pub struct McpManager {
    pub servers: Table<McpServer>,
    pub pending_approvals: Table<ApprovalRequest>,
    pub pending_http_approvals: Table<PendingHttpApproval>,
}

/// The text of the error of a result, if it is one.
pub open spec fn error_of(r: Result<(), String>) -> Option<Seq<char>> {
    match r {
        Ok(_) => None,
        Err(e) => Some(e@),
    }
}

/// What the relay answers once the network table has answered `http`: a
/// decision that was delivered there is done; any other goes to the polled
/// table, which knows the request or not.
pub open spec fn relayed(http_delivered: bool, polled: bool, approval_id: Seq<char>) -> Option<
    Seq<char>,
> {
    if http_delivered || polled {
        None
    } else {
        Some(not_found(approval_id))
    }
}

/// Takes a decision that the network table did not deliver to the polled
/// table: a request that is pending there leaves it, and one that is not is
/// reported. A decision that was delivered over the network changes nothing.
pub fn settle_polled(
    pending: &mut Table<ApprovalRequest>,
    approval_id: &str,
    http: Result<(), String>,
) -> (r: Result<(), String>)
    ensures
        http is Ok ==> final(pending)@ == old(pending)@,
        http is Ok ==> final(pending).order() == old(pending).order(),
        http is Err ==> final(pending)@ == old(pending)@.remove(approval_id@),
        error_of(r) == relayed(http is Ok, old(pending)@.contains_key(approval_id@), approval_id@),
{
    match http {
        Ok(()) => Ok(()),
        Err(_) => {
            match pending.remove(approval_id) {
                Some(_) => Ok(()),
                None => Err(not_found_text(approval_id)),
            }
        },
    }
}

impl McpManager {
    /// A manager without servers and without pending approvals.
    pub fn new() -> (r: McpManager)
        ensures
            r.servers@ == Map::<Seq<char>, McpServer>::empty(),
            r.pending_approvals@ == Map::<Seq<char>, ApprovalRequest>::empty(),
            r.pending_http_approvals@ == Map::<Seq<char>, PendingHttpApproval>::empty(),
            r.servers.order().len() == 0,
            r.pending_approvals.order().len() == 0,
            r.pending_http_approvals.order().len() == 0,
    {
        McpManager {
            servers: Table::new(),
            pending_approvals: Table::new(),
            pending_http_approvals: Table::new(),
        }
    }

    /// Sets up a server for the given worktree under a fresh id. The server
    /// has no process yet.
    pub fn prepare_server(worktree_id: String, worktree_path: String, server_path: String) -> (r:
        McpServer)
        ensures
            !r.has_process,
            r.config.worktree_id == worktree_id,
            r.config.worktree_path == worktree_path,
            r.config.server_path == server_path,
            r.config.port == None::<u16>,
    {
        McpServer::new(
            McpServerConfig {
                server_id: fresh_id(),
                worktree_id,
                worktree_path,
                server_path,
                port: None,
            },
        )
    }

    /// Takes in a server and how the start of its process went. A server
    /// whose process was started is kept under its id, and the id is handed
    /// back; a start that failed is handed on and leaves the manager as it is.
    pub fn create_server(&mut self, server: McpServer, spawned: Result<(), String>) -> (r: Result<
        String,
        String,
    >)
        ensures
            final(self).pending_approvals == old(self).pending_approvals,
            final(self).pending_http_approvals == old(self).pending_http_approvals,
            server.has_process ==> (r matches Err(e) && e@ == already_running()),
            server.has_process || spawned is Err ==> final(self).servers == old(self).servers,
            !server.has_process ==> match spawned {
                Ok(_) => {
                    &&& (r matches Ok(server_id) && server_id@ == server.config.server_id@)
                    &&& final(self).servers@ == old(self).servers@.insert(
                        server.config.server_id@,
                        McpServer { config: server.config, has_process: true },
                    )
                },
                Err(e) => r == Err::<String, String>(e),
            },
    {
        let mut server = server;
        match server.start(spawned) {
            Ok(()) => {
                let server_id = server.config.server_id.clone();
                let _ = self.servers.insert(server_id.clone(), server);
                Ok(server_id)
            },
            Err(e) => Err(e),
        }
    }

    /// Takes in how stopping the process of the server `server_id` went. A
    /// server that was stopped leaves the manager; one whose process could
    /// not be stopped stays, without its process, and the failure is handed
    /// on; a server that the manager does not have is reported.
    pub fn stop_server(&mut self, server_id: &str, killed: Result<(), String>) -> (r: Result<
        (),
        String,
    >)
        ensures
            final(self).pending_approvals == old(self).pending_approvals,
            final(self).pending_http_approvals == old(self).pending_http_approvals,
            !old(self).servers@.contains_key(server_id@) ==> {
                &&& final(self).servers@ == old(self).servers@
                &&& (r matches Err(e) && e@ == server_not_found(server_id@))
            },
            old(self).servers@.contains_key(server_id@) ==> {
                let before = old(self).servers@[server_id@];
                let failed = before.has_process && killed is Err;
                &&& r == if before.has_process {
                    killed
                } else {
                    Ok::<(), String>(())
                }
                &&& !failed ==> final(self).servers@ == old(self).servers@.remove(server_id@)
                &&& failed ==> final(self).servers@ == old(self).servers@.insert(
                    server_id@,
                    McpServer { config: before.config, has_process: false },
                )
            },
    {
        match self.servers.remove(server_id) {
            Some(server) => {
                let mut server = server;
                let ghost before = server;
                let stopped = server.stop(killed);
                if stopped.is_err() {
                    let _ = self.servers.insert(String::from_str(server_id), server);
                    proof {
                        assert(self.servers@ =~= old(self).servers@.insert(
                            server_id@,
                            McpServer { config: before.config, has_process: false },
                        ));
                    }
                }
                stopped
            },
            None => {
                proof {
                    assert(self.servers@ =~= old(self).servers@);
                }
                let mut text = String::from_str("MCP server not found: ");
                text.append(server_id);
                Err(text)
            },
        }
    }

    /// The configurations of the servers, in the order in which the servers came.
    pub fn list_servers(&self) -> (r: Vec<McpServerConfig>)
        ensures
            r@.len() == self.servers.values().len(),
            forall|i: int| 0 <= i < r@.len() ==> r@[i] == self.servers.values()[i].config,
    {
        let mut out: Vec<McpServerConfig> = Vec::new();
        let n = self.servers.len();
        let mut i: usize = 0;
        proof {
            assert(self.servers.consistent());
        }
        while i < n
            invariant
                0 <= i <= n,
                n == self.servers.order().len(),
                n == self.servers.values().len(),
                out@.len() == i,
                forall|j: int| 0 <= j < i ==> out@[j] == self.servers.values()[j].config,
            decreases n - i,
        {
            let server = self.servers.value_at(i);
            out.push(server.config.clone());
            i = i + 1;
        }
        out
    }

    /// Takes in a look at the process of the server `server_id` and tells
    /// whether the server runs; nothing where the manager has no such server.
    pub fn get_server_status(&mut self, server_id: &str, probe: ProcessProbe) -> (r: Option<bool>)
        ensures
            final(self).pending_approvals == old(self).pending_approvals,
            final(self).pending_http_approvals == old(self).pending_http_approvals,
            !old(self).servers@.contains_key(server_id@) ==> r is None && final(self).servers@
                == old(self).servers@,
            old(self).servers@.contains_key(server_id@) ==> {
                let before = old(self).servers@[server_id@];
                let running = runs(before.has_process, probe);
                &&& r == Some(running)
                &&& final(self).servers@ == old(self).servers@.insert(
                    server_id@,
                    McpServer { config: before.config, has_process: running },
                )
            },
    {
        match self.servers.remove(server_id) {
            Some(server) => {
                let mut server = server;
                let running = server.is_running(probe);
                let _ = self.servers.insert(String::from_str(server_id), server);
                proof {
                    assert(self.servers@ =~= old(self).servers@.insert(server_id@, server));
                }
                Some(running)
            },
            None => {
                proof {
                    assert(self.servers@ =~= old(self).servers@);
                }
                None
            },
        }
    }

    /// Takes in a request for approval that will be polled for: keeps it
    /// under a fresh id and hands the id back.
    pub fn request_approval(&mut self, request: ApprovalRequest) -> (r: Result<String, String>)
        ensures
            r matches Ok(approval_id) && final(self).pending_approvals@ == old(
                self,
            ).pending_approvals@.insert(approval_id@, request),
            final(self).servers == old(self).servers,
            final(self).pending_http_approvals == old(self).pending_http_approvals,
    {
        let approval_id = fresh_id();
        let _ = self.pending_approvals.insert(approval_id.clone(), request);
        Ok(approval_id)
    }

    /// Relays a decision: first to the request that waits over the network
    /// under this id, and where that did not deliver it, to the request that
    /// is polled for under this id. Either request leaves its table.
    pub fn respond_to_approval(&mut self, approval_id: String, response: ApprovalResponse) -> (r:
        Result<(), String>)
        ensures
            final(self).servers == old(self).servers,
            final(self).pending_http_approvals@ == old(self).pending_http_approvals@.remove(
                approval_id@,
            ),
            !old(self).pending_http_approvals@.contains_key(approval_id@) ==> {
                &&& final(self).pending_approvals@ == old(self).pending_approvals@.remove(
                    approval_id@,
                )
                &&& error_of(r) == relayed(
                    false,
                    old(self).pending_approvals@.contains_key(approval_id@),
                    approval_id@,
                )
            },
            old(self).pending_http_approvals@.contains_key(approval_id@) ==> {
                ||| r is Ok && final(self).pending_approvals@ == old(self).pending_approvals@
                ||| {
                    &&& final(self).pending_approvals@ == old(self).pending_approvals@.remove(
                        approval_id@,
                    )
                    &&& error_of(r) == relayed(
                        false,
                        old(self).pending_approvals@.contains_key(approval_id@),
                        approval_id@,
                    )
                }
            },
    {
        let http = self.respond_to_http_approval(approval_id.clone(), response);
        settle_polled(&mut self.pending_approvals, approval_id.as_str(), http)
    }

    /// Delivers a decision to the request that waits over the network under
    /// `approval_id`. The request leaves the table; a second decision for the
    /// same id finds nothing.
    pub fn respond_to_http_approval(&mut self, approval_id: String, response: ApprovalResponse) -> (r:
        Result<(), String>)
        ensures
            final(self).servers == old(self).servers,
            final(self).pending_approvals == old(self).pending_approvals,
            final(self).pending_http_approvals@ == old(self).pending_http_approvals@.remove(
                approval_id@,
            ),
            final(self).pending_http_approvals@.dom() == fulfilled(
                old(self).pending_http_approvals@.dom(),
                approval_id@,
            ),
            !found(old(self).pending_http_approvals@.dom(), approval_id@) ==> {
                &&& (r matches Err(e) && e@ == http_not_found(approval_id@))
                &&& final(self).pending_http_approvals@ == old(self).pending_http_approvals@
                &&& final(self).pending_http_approvals.order() == old(
                    self,
                ).pending_http_approvals.order()
            },
            found(old(self).pending_http_approvals@.dom(), approval_id@) ==> (r is Ok || (
            r matches Err(e) && e@ == handler_gone())),
    {
        fulfill_approval(&mut self.pending_http_approvals, approval_id.as_str(), response)
    }

    /// Lets go of every server that has no process. The servers that have
    /// one stay as they are.
    pub fn cleanup_dead_servers(&mut self)
        ensures
            final(self).pending_approvals == old(self).pending_approvals,
            final(self).pending_http_approvals == old(self).pending_http_approvals,
            forall|k: Seq<char>|
                final(self).servers@.contains_key(k) <==> old(self).servers@.contains_key(k)
                    && old(self).servers@[k].has_process,
            forall|k: Seq<char>|
                final(self).servers@.contains_key(k) ==> final(self).servers@[k] == old(
                    self,
                ).servers@[k],
    {
        let mut i: usize = 0;
        let mut n = self.servers.len();
        while i < n
            invariant
                0 <= i <= n,
                n == self.servers.order().len(),
                self.servers.consistent(),
                self.pending_approvals == old(self).pending_approvals,
                self.pending_http_approvals == old(self).pending_http_approvals,
                forall|k: Seq<char>|
                    self.servers@.contains_key(k) ==> old(self).servers@.contains_key(k)
                        && self.servers@[k] == old(self).servers@[k],
                forall|k: Seq<char>|
                    old(self).servers@.contains_key(k) && old(self).servers@[k].has_process
                        ==> self.servers@.contains_key(k),
                forall|j: int| 0 <= j < i ==> (#[trigger] self.servers.values()[j]).has_process,
            decreases n - i,
        {
            let ghost key = self.servers.order()[i as int];
            proof {
                assert(self.servers@.contains_key(self.servers.order()[i as int]));
            }
            if self.servers.value_at(i).has_process {
                i = i + 1;
            } else {
                let _ = self.servers.remove_at(i);
                n = n - 1;
            }
        }
        proof {
            assert forall|k: Seq<char>| self.servers@.contains_key(k) implies old(
                self,
            ).servers@[k].has_process by {
                assert(self.servers.order().to_set().contains(k));
                let j = choose|j: int|
                    0 <= j < self.servers.order().len() && self.servers.order()[j] == k;
                assert(self.servers@.contains_key(self.servers.order()[j]));
                assert(self.servers.values()[j].has_process);
            }
        }
    }

    /// The requests that are polled for, each with its id, in the order in
    /// which they came.
    pub fn get_pending_approvals(&self) -> (r: Vec<(String, ApprovalRequest)>)
        ensures
            r@.len() == self.pending_approvals.order().len(),
            forall|i: int|
                0 <= i < r@.len() ==> r@[i].0@ == self.pending_approvals.order()[i] && r@[i].1@
                    == self.pending_approvals.values()[i]@,
    {
        let mut out: Vec<(String, ApprovalRequest)> = Vec::new();
        let n = self.pending_approvals.len();
        let mut i: usize = 0;
        proof {
            assert(self.pending_approvals.consistent());
        }
        while i < n
            invariant
                0 <= i <= n,
                n == self.pending_approvals.order().len(),
                n == self.pending_approvals.values().len(),
                out@.len() == i,
                forall|j: int|
                    0 <= j < i ==> out@[j].0@ == self.pending_approvals.order()[j] && out@[j].1@
                        == self.pending_approvals.values()[j]@,
            decreases n - i,
        {
            let key = self.pending_approvals.key_at(i).clone();
            let request = self.pending_approvals.value_at(i).clone();
            out.push((key, request));
            i = i + 1;
        }
        out
    }
}

impl Default for McpManager {
    fn default() -> (r: McpManager)
        ensures
            r.servers@ == Map::<Seq<char>, McpServer>::empty(),
            r.pending_approvals@ == Map::<Seq<char>, ApprovalRequest>::empty(),
            r.pending_http_approvals@ == Map::<Seq<char>, PendingHttpApproval>::empty(),
    {
        McpManager::new()
    }
}

} // verus!
