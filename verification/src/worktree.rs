//! Git worktrees: the records that describe them, the reading of what git
//! lists, and the rules for removing one.

use crate::text::{after_prefix, same_text, strip_prefix, text_of, trim, trimmed, views};
use vstd::prelude::*;
use vstd::string::StringExecFns;

verus! {

/// A worktree that was made for an agent.
#[derive(Debug)]
pub struct WorktreeConfig {
    pub id: String,
    pub name: String,
    pub path: String,
    pub branch: String,
    pub base_repo: String,
    pub is_active: bool,
    pub created_at: String,
}

/// A worktree as git lists it.
#[derive(Debug)]
pub struct GitWorktreeInfo {
    pub path: String,
    pub branch: String,
    pub is_main: bool,
    pub is_bare: bool,
    pub is_detached: bool,
}

impl Clone for WorktreeConfig {
    fn clone(&self) -> (r: WorktreeConfig)
        ensures
            r == *self,
    {
        WorktreeConfig {
            id: self.id.clone(),
            name: self.name.clone(),
            path: self.path.clone(),
            branch: self.branch.clone(),
            base_repo: self.base_repo.clone(),
            is_active: self.is_active,
            created_at: self.created_at.clone(),
        }
    }
}

impl Clone for GitWorktreeInfo {
    fn clone(&self) -> (r: GitWorktreeInfo)
        ensures
            r == *self,
    {
        GitWorktreeInfo {
            path: self.path.clone(),
            branch: self.branch.clone(),
            is_main: self.is_main,
            is_bare: self.is_bare,
            is_detached: self.is_detached,
        }
    }
}

/// The mathematical value of a `GitWorktreeInfo`.
pub struct WorktreeInfo {
    pub path: Seq<char>,
    pub branch: Seq<char>,
    pub is_main: bool,
    pub is_bare: bool,
    pub is_detached: bool,
}

impl View for GitWorktreeInfo {
    type V = WorktreeInfo;

    open spec fn view(&self) -> WorktreeInfo {
        WorktreeInfo {
            path: self.path@,
            branch: self.branch@,
            is_main: self.is_main,
            is_bare: self.is_bare,
            is_detached: self.is_detached,
        }
    }
}

/// The values of a sequence of listed worktrees, in order.
pub open spec fn infos_of(infos: Seq<GitWorktreeInfo>) -> Seq<WorktreeInfo> {
    Seq::new(infos.len(), |i: int| infos[i]@)
}

/// The value of the worktree that is being read, if there is one.
pub open spec fn info_of(current: Option<GitWorktreeInfo>) -> Option<WorktreeInfo> {
    match current {
        Some(info) => Some(info@),
        None => None,
    }
}

/// How far the listing has been read: the worktrees that are complete, and
/// the one that is being read.
pub struct Listing {
    pub done: Seq<WorktreeInfo>,
    pub current: Option<WorktreeInfo>,
}

/// The complete worktrees once the one that is being read is closed.
pub open spec fn closed(listing: Listing) -> Seq<WorktreeInfo> {
    match listing.current {
        Some(info) => listing.done.push(info),
        None => listing.done,
    }
}

/// Reads one line of the listing. A `worktree` line closes the worktree
/// that was being read and opens the next; a `branch` line, `bare` and
/// `detached` describe the open worktree; any other line says nothing.
pub open spec fn read_line(listing: Listing, line: Seq<char>) -> Listing {
    if after_prefix(line, "worktree "@) is Some {
        Listing {
            done: closed(listing),
            current: Some(
                WorktreeInfo {
                    path: after_prefix(line, "worktree "@)->0,
                    branch: "unknown"@,
                    is_main: false,
                    is_bare: false,
                    is_detached: false,
                },
            ),
        }
    } else if after_prefix(line, "branch "@) is Some {
        match listing.current {
            Some(info) => Listing {
                done: listing.done,
                current: Some(WorktreeInfo { branch: after_prefix(line, "branch "@)->0, ..info }),
            },
            None => listing,
        }
    } else if line == "bare"@ {
        match listing.current {
            Some(info) => Listing {
                done: listing.done,
                current: Some(WorktreeInfo { is_bare: true, ..info }),
            },
            None => listing,
        }
    } else if line == "detached"@ {
        match listing.current {
            Some(info) => Listing {
                done: listing.done,
                current: Some(
                    WorktreeInfo { is_detached: true, branch: "HEAD (detached)"@, ..info },
                ),
            },
            None => listing,
        }
    } else {
        listing
    }
}

/// Reads the lines of the listing in order.
pub open spec fn read_lines(lines: Seq<Seq<char>>) -> Listing
    decreases lines.len(),
{
    if lines.len() == 0 {
        Listing { done: Seq::empty(), current: None }
    } else {
        read_line(read_lines(lines.drop_last()), lines.last())
    }
}

/// Marks the first worktree whose path is `repo_path` as the main one.
pub open spec fn with_main(infos: Seq<WorktreeInfo>, repo_path: Seq<char>) -> Seq<WorktreeInfo>
    decreases infos.len(),
{
    if infos.len() == 0 {
        infos
    } else if infos[0].path == repo_path {
        seq![WorktreeInfo { is_main: true, ..infos[0] }] + infos.drop_first()
    } else {
        seq![infos[0]] + with_main(infos.drop_first(), repo_path)
    }
}

/// The worktrees that a porcelain listing of git describes, with the main one marked.
pub open spec fn listed(lines: Seq<Seq<char>>, repo_path: Seq<char>) -> Seq<WorktreeInfo> {
    with_main(closed(read_lines(lines)), repo_path)
}

/// Marking changes only the first worktree at `repo_path`.
proof fn lemma_with_main_at(infos: Seq<WorktreeInfo>, repo_path: Seq<char>, at: int)
    requires
        0 <= at <= infos.len(),
        forall|i: int| 0 <= i < at ==> (#[trigger] infos[i]).path != repo_path,
        at < infos.len() ==> infos[at].path == repo_path,
    ensures
        with_main(infos, repo_path) == if at < infos.len() {
            infos.update(at, WorktreeInfo { is_main: true, ..infos[at] })
        } else {
            infos
        },
    decreases infos.len(),
{
    if infos.len() == 0 {
    } else if at == 0 {
        assert(seq![WorktreeInfo { is_main: true, ..infos[0] }] + infos.drop_first()
            =~= infos.update(0, WorktreeInfo { is_main: true, ..infos[0] }));
    } else {
        let rest = infos.drop_first();
        assert(infos[0].path != repo_path);
        assert forall|i: int| 0 <= i < at - 1 implies (#[trigger] rest[i]).path != repo_path by {
            assert(rest[i] == infos[i + 1]);
        }
        lemma_with_main_at(rest, repo_path, at - 1);
        if at < infos.len() {
            assert(seq![infos[0]] + rest.update(
                at - 1,
                WorktreeInfo { is_main: true, ..rest[at - 1] },
            ) =~= infos.update(at, WorktreeInfo { is_main: true, ..infos[at] }));
        } else {
            assert(seq![infos[0]] + rest =~= infos);
        }
    }
}

/// Reads one line of the listing into `done` and `current`.
fn take_line(done: &mut Vec<GitWorktreeInfo>, current: Option<GitWorktreeInfo>, line: &str) -> (r:
    Option<GitWorktreeInfo>)
    ensures
        (Listing { done: infos_of(final(done)@), current: info_of(r) }) == read_line(
            Listing { done: infos_of(old(done)@), current: info_of(current) },
            line@,
        ),
{
    let ghost before = Listing { done: infos_of(old(done)@), current: info_of(current) };
    match strip_prefix(line, "worktree ") {
        Some(path) => {
            match current {
                Some(info) => {
                    done.push(info);
                    assert(infos_of(done@) =~= closed(before));
                },
                None => {},
            }
            return Some(
                GitWorktreeInfo {
                    path: String::from_str(path),
                    branch: String::from_str("unknown"),
                    is_main: false,
                    is_bare: false,
                    is_detached: false,
                },
            );
        },
        None => {},
    }
    match strip_prefix(line, "branch ") {
        Some(branch) => {
            return match current {
                Some(info) => {
                    let mut info = info;
                    info.branch = String::from_str(branch);
                    Some(info)
                },
                None => None,
            };
        },
        None => {},
    }
    if same_text(line, "bare") {
        match current {
            Some(info) => {
                let mut info = info;
                info.is_bare = true;
                Some(info)
            },
            None => None,
        }
    } else if same_text(line, "detached") {
        match current {
            Some(info) => {
                let mut info = info;
                info.is_detached = true;
                info.branch = String::from_str("HEAD (detached)");
                Some(info)
            },
            None => None,
        }
    } else {
        current
    }
}

/// Reads the lines of a porcelain listing of git's worktrees and marks the
/// worktree at `repo_path` as the main one.
pub fn parse_worktree_list(lines: &Vec<String>, repo_path: &str) -> (r: Vec<GitWorktreeInfo>)
    ensures
        infos_of(r@) == listed(views(lines@), repo_path@),
{
    let ghost texts = views(lines@);
    let mut done: Vec<GitWorktreeInfo> = Vec::new();
    let mut current: Option<GitWorktreeInfo> = None;
    let mut i: usize = 0;
    assert(infos_of(done@) =~= Seq::<WorktreeInfo>::empty());
    while i < lines.len()
        invariant
            0 <= i <= lines.len(),
            texts == views(lines@),
            (Listing { done: infos_of(done@), current: info_of(current) }) == read_lines(
                texts.take(i as int),
            ),
        decreases lines.len() - i,
    {
        proof {
            assert(texts.take(i + 1).drop_last() =~= texts.take(i as int));
            assert(texts.take(i + 1).last() == lines@[i as int]@);
        }
        current = take_line(&mut done, current, lines[i].as_str());
        i = i + 1;
    }
    assert(texts.take(lines.len() as int) =~= texts);
    match current {
        Some(info) => {
            done.push(info);
        },
        None => {},
    }
    assert(infos_of(done@) =~= closed(read_lines(texts)));
    let ghost all = infos_of(done@);
    let mut at: usize = 0;
    while at < done.len()
        invariant
            0 <= at <= done.len(),
            all == infos_of(done@),
            all == closed(read_lines(views(lines@))),
            forall|j: int| 0 <= j < at ==> (#[trigger] all[j]).path != repo_path@,
        decreases done.len() - at,
    {
        if same_text(done[at].path.as_str(), repo_path) {
            proof {
                lemma_with_main_at(all, repo_path@, at as int);
            }
            let mut marked = done[at].clone();
            marked.is_main = true;
            done.set(at, marked);
            assert(infos_of(done@) =~= all.update(
                at as int,
                WorktreeInfo { is_main: true, ..all[at as int] },
            ));
            return done;
        }
        at = at + 1;
    }
    proof {
        lemma_with_main_at(all, repo_path@, at as int);
    }
    done
}

/// What stands in the way of removing a worktree.
pub open spec fn obstacles(has_changes: bool, has_unpushed: bool) -> Seq<char> {
    if has_changes && has_unpushed {
        "uncommitted changes and unpushed commits"@
    } else if has_changes {
        "uncommitted changes"@
    } else {
        "unpushed commits"@
    }
}

/// Why a worktree is not removed, if it is not: it has changes that are not
/// committed or commits that are not pushed, and removal is not forced.
pub open spec fn removal_refusal(has_changes: bool, has_unpushed: bool, force: bool) -> Option<
    Seq<char>,
> {
    if (has_changes || has_unpushed) && !force {
        Some(
            "Cannot remove worktree: it has "@ + obstacles(has_changes, has_unpushed)
                + ". Use force option to remove anyway."@,
        )
    } else {
        None
    }
}

/// The branch to delete with a worktree, given what git printed as the
/// current branch: the branch that it names, unless it names none or names
/// `main` or `master`.
pub open spec fn branch_to_delete(printed: Seq<char>) -> Option<Seq<char>> {
    let name = trimmed(printed);
    if name.len() == 0 || name == "main"@ || name == "master"@ {
        None
    } else {
        Some(name)
    }
}

/// The arguments with which git removes a worktree.
pub open spec fn removal_arguments(worktree_path: Seq<char>, force: bool) -> Seq<Seq<char>> {
    if force {
        seq!["worktree"@, "remove"@, "--force"@, worktree_path]
    } else {
        seq!["worktree"@, "remove"@, worktree_path]
    }
}

/// Decides whether a worktree may be removed; `force` counts as given only
/// where it is given as true.
pub fn check_removal(has_changes: bool, has_unpushed: bool, force: Option<bool>) -> (r: Result<
    (),
    String,
>)
    ensures
        match removal_refusal(has_changes, has_unpushed, force == Some(true)) {
            Some(reason) => (r matches Err(e) && e@ == reason),
            None => r is Ok,
        },
{
    let forced = match force {
        Some(f) => f,
        None => false,
    };
    if (has_changes || has_unpushed) && !forced {
        let mut text = String::from_str("Cannot remove worktree: it has ");
        if has_changes && has_unpushed {
            text.append("uncommitted changes and unpushed commits");
        } else if has_changes {
            text.append("uncommitted changes");
        } else {
            text.append("unpushed commits");
        }
        text.append(". Use force option to remove anyway.");
        Err(text)
    } else {
        Ok(())
    }
}

/// Picks the branch to delete with a worktree from what git printed as the
/// current branch.
pub fn pick_branch_to_delete(printed: &str) -> (r: Option<String>)
    ensures
        text_of(r) == branch_to_delete(printed@),
{
    let name = trim(printed);
    if name.is_empty() || same_text(name, "main") || same_text(name, "master") {
        None
    } else {
        Some(String::from_str(name))
    }
}

/// Builds the arguments with which git removes a worktree.
pub fn removal_command(worktree_path: &str, force: bool) -> (r: Vec<String>)
    ensures
        views(r@) == removal_arguments(worktree_path@, force),
{
    let mut args: Vec<String> = Vec::new();
    args.push(String::from_str("worktree"));
    args.push(String::from_str("remove"));
    if force {
        args.push(String::from_str("--force"));
    }
    args.push(String::from_str(worktree_path));
    assert(views(args@) =~= removal_arguments(worktree_path@, force));
    args
}

} // verus!
