//! The records that describe a supervised agent process and its output.

use vstd::prelude::*;
use vstd::string::StringExecFns;

verus! {

/// A supervised agent process as the user interface sees it.
///
/// `status` is one of `starting`, `running`, `stopped` and `error`.
#[derive(Debug)]
pub struct ClaudeProcess {
    pub id: String,
    pub worktree_id: String,
    pub pid: Option<u32>,
    pub status: String,
    pub task: Option<String>,
    pub started_at: Option<String>,
    pub last_activity: Option<String>,
}

/// One piece of output of a supervised process, handed on to subscribers.
#[derive(Debug)]
pub struct ProcessOutput {
    pub process_id: String,
    pub content: String,
    pub is_error: bool,
    pub timestamp: String,
}

/// A copy of an optional text.
pub fn copy_text(v: &Option<String>) -> (r: Option<String>)
    ensures
        r == *v,
{
    match v {
        Some(s) => Some(s.clone()),
        None => None,
    }
}

impl Clone for ClaudeProcess {
    fn clone(&self) -> (r: ClaudeProcess)
        ensures
            r == *self,
    {
        ClaudeProcess {
            id: self.id.clone(),
            worktree_id: self.worktree_id.clone(),
            pid: self.pid,
            status: self.status.clone(),
            task: copy_text(&self.task),
            started_at: copy_text(&self.started_at),
            last_activity: copy_text(&self.last_activity),
        }
    }
}

impl Clone for ProcessOutput {
    fn clone(&self) -> (r: ProcessOutput)
        ensures
            r == *self,
    {
        ProcessOutput {
            process_id: self.process_id.clone(),
            content: self.content.clone(),
            is_error: self.is_error,
            timestamp: self.timestamp.clone(),
        }
    }
}

impl ClaudeProcess {
    /// The record of a process that is about to be spawned: it has no pid
    /// yet, its status is `starting`, and it began and was last active at `now`.
    pub fn starting(id: String, worktree_id: String, task: String, now: String) -> (r:
        ClaudeProcess)
        ensures
            r.id == id,
            r.worktree_id == worktree_id,
            r.pid == None::<u32>,
            r.status@ == "starting"@,
            r.task == Some(task),
            r.started_at == Some(now),
            r.last_activity == Some(now),
    {
        ClaudeProcess {
            id,
            worktree_id,
            pid: None,
            status: String::from_str("starting"),
            task: Some(task),
            started_at: Some(now.clone()),
            last_activity: Some(now),
        }
    }

    /// Records that the operating system has given the process the id `pid`:
    /// the status becomes `running`, and nothing else changes.
    pub fn mark_running(&mut self, pid: u32)
        ensures
            final(self).pid == Some(pid),
            final(self).status@ == "running"@,
            final(self).id == old(self).id,
            final(self).worktree_id == old(self).worktree_id,
            final(self).task == old(self).task,
            final(self).started_at == old(self).started_at,
            final(self).last_activity == old(self).last_activity,
    {
        self.pid = Some(pid);
        self.status = String::from_str("running");
    }

    /// Records that the process was stopped: the status becomes `stopped`,
    /// and nothing else changes.
    pub fn mark_stopped(&mut self)
        ensures
            final(self).status@ == "stopped"@,
            final(self).id == old(self).id,
            final(self).worktree_id == old(self).worktree_id,
            final(self).pid == old(self).pid,
            final(self).task == old(self).task,
            final(self).started_at == old(self).started_at,
            final(self).last_activity == old(self).last_activity,
    {
        self.status = String::from_str("stopped");
    }
}

} // verus!
