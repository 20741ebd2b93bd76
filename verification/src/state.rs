//! The application's state: the worktrees, the agent processes and the MCP
//! manager, with the operations that the commands of the user interface
//! perform on them.

use crate::clock::now_rfc3339;
use crate::ident::fresh_id;
use crate::mcp_manager::McpManager;
use crate::process::ClaudeProcess;
use crate::table::Table;
use crate::text::same_text;
use crate::worktree::WorktreeConfig;
use vstd::prelude::*;
use vstd::string::StringExecFns;

verus! {

/// The state that the commands share.
pub struct AppState {
    pub worktrees: Table<WorktreeConfig>,
    pub processes: Table<ClaudeProcess>,
    pub mcp_manager: McpManager,
}

/// The place of the first of `worktrees` that lies at `path`, or their
/// number where none does.
pub open spec fn place_of_path(worktrees: Seq<WorktreeConfig>, path: Seq<char>) -> int
    decreases worktrees.len(),
{
    if worktrees.len() == 0 {
        0
    } else if worktrees[0].path@ == path {
        0
    } else {
        1 + place_of_path(worktrees.drop_first(), path)
    }
}

/// The place of the first worktree at `path` is the first place with that path.
proof fn lemma_place_of_path(worktrees: Seq<WorktreeConfig>, path: Seq<char>, at: int)
    requires
        0 <= at <= worktrees.len(),
        forall|i: int| 0 <= i < at ==> (#[trigger] worktrees[i]).path@ != path,
        at < worktrees.len() ==> worktrees[at].path@ == path,
    ensures
        place_of_path(worktrees, path) == at,
    decreases worktrees.len(),
{
    if worktrees.len() > 0 && at > 0 {
        let rest = worktrees.drop_first();
        assert(worktrees[0].path@ != path);
        assert forall|i: int| 0 <= i < at - 1 implies (#[trigger] rest[i]).path@ != path by {
            assert(rest[i] == worktrees[i + 1]);
        }
        lemma_place_of_path(rest, path, at - 1);
    }
}

impl AppState {
    /// A state without worktrees, processes, servers and pending approvals.
    pub fn new() -> (r: AppState)
        ensures
            r.worktrees@ == Map::<Seq<char>, WorktreeConfig>::empty(),
            r.processes@ == Map::<Seq<char>, ClaudeProcess>::empty(),
            r.worktrees.order().len() == 0,
            r.processes.order().len() == 0,
            r.mcp_manager.servers.order().len() == 0,
            r.mcp_manager.pending_approvals.order().len() == 0,
            r.mcp_manager.pending_http_approvals.order().len() == 0,
    {
        AppState {
            worktrees: Table::new(),
            processes: Table::new(),
            mcp_manager: McpManager::new(),
        }
    }

    /// Records a worktree that git has made: gives it a fresh id, marks it
    /// active and made now, keeps it under its id, and hands a copy back.
    pub fn create_worktree(
        &mut self,
        repo_path: String,
        branch_name: String,
        worktree_name: String,
        worktree_path: String,
    ) -> (r: WorktreeConfig)
        ensures
            r.name == worktree_name,
            r.path == worktree_path,
            r.branch == branch_name,
            r.base_repo == repo_path,
            r.is_active,
            final(self).worktrees@ == old(self).worktrees@.insert(r.id@, r),
            final(self).processes == old(self).processes,
            final(self).mcp_manager == old(self).mcp_manager,
    {
        let worktree = WorktreeConfig {
            id: fresh_id(),
            name: worktree_name,
            path: worktree_path,
            branch: branch_name,
            base_repo: repo_path,
            is_active: true,
            created_at: now_rfc3339(),
        };
        let _ = self.worktrees.insert(worktree.id.clone(), worktree.clone());
        worktree
    }

    /// The worktrees, in the order in which they were recorded.
    pub fn list_worktrees(&self) -> (r: Vec<WorktreeConfig>)
        ensures
            r@ == self.worktrees.values(),
    {
        let mut out: Vec<WorktreeConfig> = Vec::new();
        let n = self.worktrees.len();
        let mut i: usize = 0;
        while i < n
            invariant
                0 <= i <= n,
                self.worktrees.consistent(),
                n == self.worktrees.values().len(),
                out@ == self.worktrees.values().take(i as int),
            decreases n - i,
        {
            out.push(self.worktrees.value_at(i).clone());
            assert(out@ =~= self.worktrees.values().take(i + 1));
            i = i + 1;
        }
        assert(self.worktrees.values().take(n as int) =~= self.worktrees.values());
        out
    }

    /// Records an agent process that the operating system has started with
    /// the id `pid`: gives it a fresh id, marks it running and begun now,
    /// keeps it under its id, and hands a copy back.
    pub fn start_claude_process(&mut self, worktree_id: String, user_message: String, pid: u32) -> (r:
        ClaudeProcess)
        ensures
            r.worktree_id == worktree_id,
            r.pid == Some(pid),
            r.status@ == "running"@,
            r.task == Some(user_message),
            r.started_at is Some,
            r.last_activity == r.started_at,
            final(self).processes@ == old(self).processes@.insert(r.id@, r),
            final(self).worktrees == old(self).worktrees,
            final(self).mcp_manager == old(self).mcp_manager,
    {
        let mut process = ClaudeProcess::starting(
            fresh_id(),
            worktree_id,
            user_message,
            now_rfc3339(),
        );
        process.mark_running(pid);
        let _ = self.processes.insert(process.id.clone(), process.clone());
        process
    }

    /// Marks the process `process_id` as stopped and tells whether there is
    /// such a process. Stopping a process that is not there changes nothing.
    pub fn stop_claude_process(&mut self, process_id: &str) -> (r: bool)
        ensures
            r == old(self).processes@.contains_key(process_id@),
            final(self).worktrees == old(self).worktrees,
            final(self).mcp_manager == old(self).mcp_manager,
            final(self).processes.order() == old(self).processes.order(),
            !r ==> final(self).processes@ == old(self).processes@,
            r ==> {
                let before = old(self).processes@[process_id@];
                let after = final(self).processes@[process_id@];
                &&& final(self).processes@ == old(self).processes@.insert(process_id@, after)
                &&& after.status@ == "stopped"@
                &&& after.id == before.id
                &&& after.worktree_id == before.worktree_id
                &&& after.pid == before.pid
                &&& after.task == before.task
                &&& after.started_at == before.started_at
                &&& after.last_activity == before.last_activity
            },
    {
        let found = match self.processes.get(process_id) {
            Some(process) => Some(process.clone()),
            None => None,
        };
        match found {
            Some(process) => {
                let mut process = process;
                process.mark_stopped();
                let _ = self.processes.insert(String::from_str(process_id), process);
                true
            },
            None => false,
        }
    }

    /// The processes, in the order in which they were recorded.
    pub fn list_processes(&self) -> (r: Vec<ClaudeProcess>)
        ensures
            r@ == self.processes.values(),
    {
        let mut out: Vec<ClaudeProcess> = Vec::new();
        let n = self.processes.len();
        let mut i: usize = 0;
        while i < n
            invariant
                0 <= i <= n,
                self.processes.consistent(),
                n == self.processes.values().len(),
                out@ == self.processes.values().take(i as int),
            decreases n - i,
        {
            out.push(self.processes.value_at(i).clone());
            assert(out@ =~= self.processes.values().take(i + 1));
            i = i + 1;
        }
        assert(self.processes.values().take(n as int) =~= self.processes.values());
        out
    }

    /// Forgets the first worktree that lies at `worktree_path`, once git has
    /// removed it, and tells whether there was one.
    pub fn remove_worktree(&mut self, worktree_path: &str) -> (r: bool)
        ensures
            final(self).processes == old(self).processes,
            final(self).mcp_manager == old(self).mcp_manager,
            ({
                let at = place_of_path(old(self).worktrees.values(), worktree_path@);
                &&& r == (at < old(self).worktrees.values().len())
                &&& !r ==> final(self).worktrees@ == old(self).worktrees@
                &&& !r ==> final(self).worktrees.order() == old(self).worktrees.order()
                &&& r ==> final(self).worktrees@ == old(self).worktrees@.remove(
                    old(self).worktrees.order()[at],
                ) && final(self).worktrees.order() == old(self).worktrees.order().remove(at)
                    && final(self).worktrees.values() == old(self).worktrees.values().remove(at)
            }),
    {
        let n = self.worktrees.len();
        let mut i: usize = 0;
        while i < n
            invariant
                0 <= i <= n,
                *self == *old(self),
                self.worktrees.consistent(),
                n == self.worktrees.values().len(),
                forall|j: int|
                    0 <= j < i ==> (#[trigger] self.worktrees.values()[j]).path@ != worktree_path@,
            decreases n - i,
        {
            if same_text(self.worktrees.value_at(i).path.as_str(), worktree_path) {
                proof {
                    lemma_place_of_path(self.worktrees.values(), worktree_path@, i as int);
                }
                let _ = self.worktrees.remove_at(i);
                return true;
            }
            i = i + 1;
        }
        proof {
            lemma_place_of_path(self.worktrees.values(), worktree_path@, n as int);
        }
        false
    }
}

impl Default for AppState {
    fn default() -> (r: AppState)
        ensures
            r.worktrees@ == Map::<Seq<char>, WorktreeConfig>::empty(),
            r.processes@ == Map::<Seq<char>, ClaudeProcess>::empty(),
            r.worktrees.order().len() == 0,
            r.processes.order().len() == 0,
    {
        AppState::new()
    }
}

} // verus!
