//! Creating, reusing and removing managed worktrees.

use vstd::prelude::*;
use vstd::string::*;

use crate::errors::{io_error, GitErrorView, GitToolingError};
use crate::filters::{checkout_filter_config_env_overrides, filter_env_step};
use crate::operations::{
    canonicalize, canonicalize_step, git_status_step, hook_free_args, no_env, run_git_for_status,
    GitAnswer, GitAsk, GitProgress, GitReply, GitRequest, GitStep, HostKind,
};
use crate::paths::{
    is_same_path, join_path, joined_path, lemma_parts_of_child, parent, parent_of, path_parts,
    path_starts_with, starts_with, Part,
};
use crate::progress::{Progress, Step};
use crate::text::{concat2, list3, list4, list6};
use crate::worktree::{
    inspect_step, inspect_worktree, lemma_valid_name_is_component, managed_dir, managed_same_repository_step,
    managed_worktrees_dir, name_problem, same_repository_step,
    validate_managed_same_repository_worktree_with_info, validate_managed_worktree_name,
    validate_same_repository_worktree_with_info, InfoView, WorktreeInfo,
};

verus! {

/// Result of creating or reusing a managed worktree.
pub struct ManagedWorktree {
    pub name: String,
    pub path: String,
    /// The worktree did not exist before.
    pub created: bool,
    /// The branch that was created together with the worktree.
    pub created_branch: Option<String>,
    pub info: WorktreeInfo,
}

/// A managed worktree, in specifications.
pub struct ManagedView {
    pub name: Seq<char>,
    pub path: Seq<char>,
    pub created: bool,
    pub created_branch: Option<Seq<char>>,
    pub info: InfoView,
}

impl DeepView for ManagedWorktree {
    type V = ManagedView;

    open spec fn deep_view(&self) -> ManagedView {
        ManagedView {
            name: self.name@,
            path: self.path@,
            created: self.created,
            created_branch: self.created_branch.deep_view(),
            info: self.info.deep_view(),
        }
    }
}

impl ManagedWorktree {
    /// The worktree again.
    pub fn copy(&self) -> (copy: ManagedWorktree)
        ensures
            copy.deep_view() == self.deep_view(),
    {
        ManagedWorktree {
            name: self.name.clone(),
            path: self.path.clone(),
            created: self.created,
            created_branch: self.created_branch.clone(),
            info: self.info.copy(),
        }
    }
}

/// A resolved path has to lie under the resolved path of the directory that holds it; `shown` is
/// the directory that the error names.
pub open spec fn stays_under(
    canonical: Seq<char>,
    canonical_parent: Seq<char>,
    shown: Seq<char>,
    used: int,
) -> GitStep<Seq<char>> {
    if path_starts_with(canonical, canonical_parent) {
        Step::Done(canonical, used)
    } else {
        Step::Failed(
            GitErrorView::ManagedWorktreePathEscapes { path: canonical, base: shown },
            used,
        )
    }
}

/// Resolving a path, and checking that it stays under a directory.
pub open spec fn resolve_under_step(
    path: Seq<char>,
    canonical_parent: Seq<char>,
    shown: Seq<char>,
    answers: Seq<GitAnswer>,
    at: int,
) -> GitStep<Seq<char>> {
    match canonicalize_step(path, answers, at) {
        Step::Ask(ask) => Step::Ask(ask),
        Step::Failed(error, used) => Step::Failed(error, used),
        Step::Done(canonical, used) => stays_under(canonical, canonical_parent, shown, used),
    }
}

fn resolve_under(
    path: &str,
    canonical_parent: &str,
    shown: &str,
    replies: &Vec<GitReply>,
    at: usize,
) -> (progress: GitProgress<String>)
    ensures
        progress.deep_view() == resolve_under_step(
            path@,
            canonical_parent@,
            shown@,
            replies.deep_view(),
            at as int,
        ),
{
    match canonicalize(path, replies, at) {
        Progress::Ask(ask) => Progress::Ask(ask),
        Progress::Failed(error, used) => Progress::Failed(error, used),
        Progress::Done(canonical, used) => {
            if starts_with(canonical.as_str(), canonical_parent) {
                Progress::Done(canonical, used)
            } else {
                Progress::Failed(
                    GitToolingError::ManagedWorktreePathEscapes {
                        path: canonical,
                        base: shown.to_owned(),
                    },
                    used,
                )
            }
        },
    }
}

/// What making sure of a directory comes to: where nothing stands at the path it is created, and
/// in any case it has to resolve to a place under its parent.
pub open spec fn managed_dir_step(
    path: Seq<char>,
    canonical_parent: Seq<char>,
    answers: Seq<GitAnswer>,
    at: int,
) -> GitStep<Seq<char>> {
    if 0 <= at < answers.len() && answers[at] is Found {
        match answers[at]->Found_0 {
            Ok(_) => resolve_under_step(path, canonical_parent, path, answers, at + 1),
            Err(failure) => if !failure.not_found {
                Step::Failed(GitErrorView::Io(failure.text), at + 1)
            } else if at + 1 < answers.len() && answers[at + 1] is DirCreated {
                match answers[at + 1]->DirCreated_0 {
                    Ok(_) => resolve_under_step(path, canonical_parent, path, answers, at + 2),
                    Err(failure) => Step::Failed(GitErrorView::Io(failure.text), at + 2),
                }
            } else {
                Step::Ask(GitAsk::CreateDir(path))
            },
        }
    } else {
        Step::Ask(GitAsk::LookUp(path))
    }
}

/// Makes sure that `path` is a directory under its parent.
pub fn ensure_managed_dir(
    path: &str,
    canonical_parent: &str,
    replies: &Vec<GitReply>,
    at: usize,
) -> (progress: GitProgress<String>)
    ensures
        progress.deep_view() == managed_dir_step(
            path@,
            canonical_parent@,
            replies.deep_view(),
            at as int,
        ),
{
    if at < replies.len() {
        assert(replies.deep_view()[at as int] == replies[at as int].deep_view());
        if let GitReply::Found(found) = &replies[at] {
            match found {
                Ok(_) => return resolve_under(path, canonical_parent, path, replies, at + 1),
                Err(failure) => {
                    if !failure.not_found {
                        return Progress::Failed(io_error(failure), at + 1);
                    }
                    if at + 1 < replies.len() {
                        assert(replies.deep_view()[at + 1] == replies[at + 1].deep_view());
                        if let GitReply::DirCreated(created) = &replies[at + 1] {
                            return match created {
                                Ok(_) => resolve_under(
                                    path,
                                    canonical_parent,
                                    path,
                                    replies,
                                    at + 2,
                                ),
                                Err(failure) => Progress::Failed(io_error(failure), at + 2),
                            };
                        }
                    }
                    return Progress::Ask(GitRequest::CreateDir(path.to_owned()));
                },
            }
        }
    }
    Progress::Ask(GitRequest::LookUp(path.to_owned()))
}

/// What making sure of the directory of the managed worktrees comes to: first of the directory
/// that holds it, then of itself, both under the common directory of the repository.
pub open spec fn managed_base_step(
    source: InfoView,
    managed_base: Seq<char>,
    answers: Seq<GitAnswer>,
    at: int,
) -> GitStep<Seq<char>> {
    match canonicalize_step(source.common_dir, answers, at) {
        Step::Ask(ask) => Step::Ask(ask),
        Step::Failed(error, used) => Step::Failed(error, used),
        Step::Done(canonical_common_dir, used) => match parent_of(managed_base) {
            None => Step::Failed(
                GitErrorView::Io("managed worktree base must have parent"@),
                used,
            ),
            Some(managed_parent) => match managed_dir_step(
                managed_parent,
                canonical_common_dir,
                answers,
                used,
            ) {
                Step::Ask(ask) => Step::Ask(ask),
                Step::Failed(error, used) => Step::Failed(error, used),
                Step::Done(canonical_parent, used) => match managed_dir_step(
                    managed_base,
                    canonical_parent,
                    answers,
                    used,
                ) {
                    Step::Ask(ask) => Step::Ask(ask),
                    Step::Failed(error, used) => Step::Failed(error, used),
                    Step::Done(canonical_base, used) => stays_under(
                        canonical_base,
                        canonical_common_dir,
                        managed_base,
                        used,
                    ),
                },
            },
        },
    }
}

/// Makes sure of the directory of the managed worktrees, and resolves it.
pub fn ensure_managed_base(
    source: &WorktreeInfo,
    managed_base: &str,
    replies: &Vec<GitReply>,
    at: usize,
) -> (progress: GitProgress<String>)
    ensures
        progress.deep_view() == managed_base_step(
            source.deep_view(),
            managed_base@,
            replies.deep_view(),
            at as int,
        ),
{
    let (canonical_common_dir, at): (String, usize) = match canonicalize(
        source.common_dir.as_str(),
        replies,
        at,
    ) {
        Progress::Ask(ask) => return Progress::Ask(ask),
        Progress::Failed(error, used) => return Progress::Failed(error, used),
        Progress::Done(canonical, used) => (canonical, used),
    };
    let managed_parent: String = match parent(managed_base) {
        Some(managed_parent) => managed_parent,
        None => {
            return Progress::Failed(
                GitToolingError::Io("managed worktree base must have parent".to_owned()),
                at,
            );
        },
    };
    let (canonical_parent, at): (String, usize) = match ensure_managed_dir(
        managed_parent.as_str(),
        canonical_common_dir.as_str(),
        replies,
        at,
    ) {
        Progress::Ask(ask) => return Progress::Ask(ask),
        Progress::Failed(error, used) => return Progress::Failed(error, used),
        Progress::Done(canonical, used) => (canonical, used),
    };
    match ensure_managed_dir(managed_base, canonical_parent.as_str(), replies, at) {
        Progress::Ask(ask) => Progress::Ask(ask),
        Progress::Failed(error, used) => Progress::Failed(error, used),
        Progress::Done(canonical_base, used) => {
            if starts_with(canonical_base.as_str(), canonical_common_dir.as_str()) {
                Progress::Done(canonical_base, used)
            } else {
                Progress::Failed(
                    GitToolingError::ManagedWorktreePathEscapes {
                        path: canonical_base,
                        base: managed_base.to_owned(),
                    },
                    used,
                )
            }
        },
    }
}

/// What checking an existing target comes to.
pub open spec fn target_under_base_step(
    target_path: Seq<char>,
    canonical_base: Seq<char>,
    answers: Seq<GitAnswer>,
    at: int,
) -> GitStep<()> {
    match resolve_under_step(target_path, canonical_base, canonical_base, answers, at) {
        Step::Ask(ask) => Step::Ask(ask),
        Step::Failed(error, used) => Step::Failed(error, used),
        Step::Done(_, used) => Step::Done((), used),
    }
}

/// Checks that what stands at `target_path` resolves to a place under `canonical_base`.
pub fn ensure_managed_target_stays_under_base(
    target_path: &str,
    canonical_base: &str,
    replies: &Vec<GitReply>,
    at: usize,
) -> (progress: GitProgress<()>)
    ensures
        progress.deep_view() == target_under_base_step(
            target_path@,
            canonical_base@,
            replies.deep_view(),
            at as int,
        ),
{
    match resolve_under(target_path, canonical_base, canonical_base, replies, at) {
        Progress::Ask(ask) => Progress::Ask(ask),
        Progress::Failed(error, used) => Progress::Failed(error, used),
        Progress::Done(_, used) => Progress::Done((), used),
    }
}

/// Whether a branch exists: it does where git can resolve it.
pub open spec fn branch_exists_step(
    repo_root: Seq<char>,
    name: Seq<char>,
    host: HostKind,
    answers: Seq<GitAnswer>,
    at: int,
) -> GitStep<bool> {
    match git_status_step(
        repo_root,
        seq!["rev-parse"@, "--verify"@, "refs/heads/"@ + name],
        no_env(),
        host,
        answers,
        at,
    ) {
        Step::Ask(ask) => Step::Ask(ask),
        Step::Failed(error, used) => if error is GitCommand {
            Step::Done(false, used)
        } else {
            Step::Failed(error, used)
        },
        Step::Done(_, used) => Step::Done(true, used),
    }
}

/// Asks git whether the branch `name` exists.
pub fn branch_exists(
    repo_root: &str,
    name: &str,
    host: HostKind,
    replies: &Vec<GitReply>,
    at: usize,
) -> (progress: GitProgress<bool>)
    ensures
        progress.deep_view() == branch_exists_step(
            repo_root@,
            name@,
            host,
            replies.deep_view(),
            at as int,
        ),
{
    let none: Vec<(String, String)> = Vec::new();
    assert(none.deep_view() =~= no_env());
    let reference: String = concat2("refs/heads/", name);
    match run_git_for_status(
        repo_root,
        list3("rev-parse", "--verify", reference.as_str()),
        none,
        host,
        replies,
        at,
    ) {
        Progress::Ask(ask) => Progress::Ask(ask),
        Progress::Failed(error, used) => match error {
            GitToolingError::GitCommand { .. } => Progress::Done(false, used),
            _ => Progress::Failed(error, used),
        },
        Progress::Done(_, used) => Progress::Done(true, used),
    }
}

/// The arguments that add a worktree: for a branch that exists, and else with a new branch.
pub open spec fn add_args(target_path: Seq<char>, name: Seq<char>, branch_exists: bool) -> Seq<
    Seq<char>,
> {
    if branch_exists {
        seq!["worktree"@, "add"@, target_path, name]
    } else {
        seq!["worktree"@, "add"@, "-b"@, name, target_path, "HEAD"@]
    }
}

/// What adding a worktree comes to: the branch that was created with it, if any. The checkout
/// runs with the filters of the repository switched off.
pub open spec fn add_step(
    repo_root: Seq<char>,
    target_path: Seq<char>,
    name: Seq<char>,
    host: HostKind,
    answers: Seq<GitAnswer>,
    at: int,
) -> GitStep<Option<Seq<char>>> {
    match filter_env_step(repo_root, host, answers, at) {
        Step::Ask(ask) => Step::Ask(ask),
        Step::Failed(error, used) => Step::Failed(error, used),
        Step::Done(env, used) => match branch_exists_step(repo_root, name, host, answers, used) {
            Step::Ask(ask) => Step::Ask(ask),
            Step::Failed(error, used) => Step::Failed(error, used),
            Step::Done(exists, used) => match git_status_step(
                repo_root,
                add_args(target_path, name, exists),
                env,
                host,
                answers,
                used,
            ) {
                Step::Ask(ask) => Step::Ask(ask),
                Step::Failed(error, used) => Step::Failed(error, used),
                Step::Done(_, used) => Step::Done(
                    if exists {
                        None
                    } else {
                        Some(name)
                    },
                    used,
                ),
            },
        },
    }
}

/// Adds a worktree for the branch `name` at `target_path`.
pub fn add_managed_worktree(
    repo_root: &str,
    target_path: &str,
    name: &str,
    host: HostKind,
    replies: &Vec<GitReply>,
    at: usize,
) -> (progress: GitProgress<Option<String>>)
    ensures
        progress.deep_view() == add_step(
            repo_root@,
            target_path@,
            name@,
            host,
            replies.deep_view(),
            at as int,
        ),
{
    let (env, at): (Vec<(String, String)>, usize) = match checkout_filter_config_env_overrides(
        repo_root,
        host,
        replies,
        at,
    ) {
        Progress::Ask(ask) => return Progress::Ask(ask),
        Progress::Failed(error, used) => return Progress::Failed(error, used),
        Progress::Done(env, used) => (env, used),
    };
    let (exists, at): (bool, usize) = match branch_exists(repo_root, name, host, replies, at) {
        Progress::Ask(ask) => return Progress::Ask(ask),
        Progress::Failed(error, used) => return Progress::Failed(error, used),
        Progress::Done(exists, used) => (exists, used),
    };
    let args: Vec<String> = if exists {
        list4("worktree", "add", target_path, name)
    } else {
        list6("worktree", "add", "-b", name, target_path, "HEAD")
    };
    match run_git_for_status(repo_root, args, env, host, replies, at) {
        Progress::Ask(ask) => Progress::Ask(ask),
        Progress::Failed(error, used) => Progress::Failed(error, used),
        Progress::Done(_, used) => {
            if exists {
                Progress::Done(None, used)
            } else {
                Progress::Done(Some(name.to_owned()), used)
            }
        },
    }
}

/// What stands at the target of a managed worktree: it is checked where it exists and added where
/// it does not. The result says whether it was added, and the branch that was created with it.
pub open spec fn target_step(
    source: InfoView,
    canonical_base: Seq<char>,
    name: Seq<char>,
    host: HostKind,
    answers: Seq<GitAnswer>,
    at: int,
) -> GitStep<(bool, Option<Seq<char>>)> {
    let target_path = joined_path(canonical_base, name);
    if 0 <= at < answers.len() && answers[at] is Found {
        if answers[at]->Found_0 is Ok {
            match target_under_base_step(target_path, canonical_base, answers, at + 1) {
                Step::Ask(ask) => Step::Ask(ask),
                Step::Failed(error, used) => Step::Failed(error, used),
                Step::Done(_, used) => Step::Done((false, None), used),
            }
        } else {
            match add_step(source.repo_root, target_path, name, host, answers, at + 1) {
                Step::Ask(ask) => Step::Ask(ask),
                Step::Failed(error, used) => Step::Failed(error, used),
                Step::Done(created_branch, used) => Step::Done((true, created_branch), used),
            }
        }
    } else {
        Step::Ask(GitAsk::LookUp(target_path))
    }
}

fn ensure_target(
    source: &WorktreeInfo,
    canonical_base: &str,
    name: &str,
    host: HostKind,
    replies: &Vec<GitReply>,
    at: usize,
) -> (progress: GitProgress<(bool, Option<String>)>)
    ensures
        progress.deep_view() == target_step(
            source.deep_view(),
            canonical_base@,
            name@,
            host,
            replies.deep_view(),
            at as int,
        ),
{
    let target_path: String = join_path(canonical_base, name);
    if at < replies.len() {
        assert(replies.deep_view()[at as int] == replies[at as int].deep_view());
        if let GitReply::Found(found) = &replies[at] {
            return match found {
                Ok(_) => match ensure_managed_target_stays_under_base(
                    target_path.as_str(),
                    canonical_base,
                    replies,
                    at + 1,
                ) {
                    Progress::Ask(ask) => Progress::Ask(ask),
                    Progress::Failed(error, used) => Progress::Failed(error, used),
                    Progress::Done(_, used) => Progress::Done((false, None), used),
                },
                Err(_) => match add_managed_worktree(
                    source.repo_root.as_str(),
                    target_path.as_str(),
                    name,
                    host,
                    replies,
                    at + 1,
                ) {
                    Progress::Ask(ask) => Progress::Ask(ask),
                    Progress::Failed(error, used) => Progress::Failed(error, used),
                    Progress::Done(created_branch, used) => Progress::Done(
                        (true, created_branch),
                        used,
                    ),
                },
            };
        }
    }
    Progress::Ask(GitRequest::LookUp(target_path))
}

/// What creating or reusing a managed worktree comes to.
pub open spec fn create_step(
    repository_path: Seq<char>,
    name: Seq<char>,
    host: HostKind,
    answers: Seq<GitAnswer>,
    at: int,
) -> GitStep<ManagedView> {
    match name_problem(name) {
        Some(reason) => Step::Failed(GitErrorView::InvalidWorktreeName { name, reason }, at),
        None => match inspect_step(repository_path, host, answers, at) {
            Step::Ask(ask) => Step::Ask(ask),
            Step::Failed(error, used) => Step::Failed(error, used),
            Step::Done(source, used) => match managed_base_step(
                source,
                managed_dir(source.common_dir),
                answers,
                used,
            ) {
                Step::Ask(ask) => Step::Ask(ask),
                Step::Failed(error, used) => Step::Failed(error, used),
                Step::Done(canonical_base, used) => match target_step(
                    source,
                    canonical_base,
                    name,
                    host,
                    answers,
                    used,
                ) {
                    Step::Ask(ask) => Step::Ask(ask),
                    Step::Failed(error, used) => Step::Failed(error, used),
                    Step::Done((created, created_branch), used) => match same_repository_step(
                        source,
                        joined_path(canonical_base, name),
                        host,
                        answers,
                        used,
                    ) {
                        Step::Ask(ask) => Step::Ask(ask),
                        Step::Failed(error, used) => Step::Failed(error, used),
                        Step::Done(info, used) => Step::Done(
                            ManagedView {
                                name,
                                path: joined_path(canonical_base, name),
                                created,
                                created_branch,
                                info,
                            },
                            used,
                        ),
                    },
                },
            },
        },
    }
}

/// Create or reuse `codex/worktrees/<name>` under the git common dir for `repository_path`.
pub fn create_or_reuse_managed_worktree(
    repository_path: &str,
    name: &str,
    host: HostKind,
    replies: &Vec<GitReply>,
    at: usize,
) -> (progress: GitProgress<ManagedWorktree>)
    ensures
        progress.deep_view() == create_step(
            repository_path@,
            name@,
            host,
            replies.deep_view(),
            at as int,
        ),
{
    match validate_managed_worktree_name(name) {
        Err(error) => return Progress::Failed(error, at),
        Ok(_) => {},
    }
    let (source, at): (WorktreeInfo, usize) = match inspect_worktree(
        repository_path,
        host,
        replies,
        at,
    ) {
        Progress::Ask(ask) => return Progress::Ask(ask),
        Progress::Failed(error, used) => return Progress::Failed(error, used),
        Progress::Done(source, used) => (source, used),
    };
    let managed_base: String = managed_worktrees_dir(source.common_dir.as_str());
    let (canonical_base, at): (String, usize) = match ensure_managed_base(
        &source,
        managed_base.as_str(),
        replies,
        at,
    ) {
        Progress::Ask(ask) => return Progress::Ask(ask),
        Progress::Failed(error, used) => return Progress::Failed(error, used),
        Progress::Done(canonical_base, used) => (canonical_base, used),
    };
    let (created, created_branch, at): (bool, Option<String>, usize) = match ensure_target(
        &source,
        canonical_base.as_str(),
        name,
        host,
        replies,
        at,
    ) {
        Progress::Ask(ask) => return Progress::Ask(ask),
        Progress::Failed(error, used) => return Progress::Failed(error, used),
        Progress::Done((created, created_branch), used) => (created, created_branch, used),
    };
    let target_path: String = join_path(canonical_base.as_str(), name);
    match validate_same_repository_worktree_with_info(
        &source,
        target_path.as_str(),
        host,
        replies,
        at,
    ) {
        Progress::Ask(ask) => Progress::Ask(ask),
        Progress::Failed(error, used) => Progress::Failed(error, used),
        Progress::Done(info, used) => Progress::Done(
            ManagedWorktree {
                name: name.to_owned(),
                path: target_path,
                created,
                created_branch,
                info,
            },
            used,
        ),
    }
}

/// What removing a managed worktree comes to, and the root of the checkout from which it was
/// removed. Git refuses where the worktree holds changes: it is not forced.
pub open spec fn remove_from_step(
    repository_path: Seq<char>,
    worktree_path: Seq<char>,
    host: HostKind,
    answers: Seq<GitAnswer>,
    at: int,
) -> GitStep<Seq<char>> {
    match inspect_step(repository_path, host, answers, at) {
        Step::Ask(ask) => Step::Ask(ask),
        Step::Failed(error, used) => Step::Failed(error, used),
        Step::Done(source, used) => match managed_same_repository_step(
            source,
            worktree_path,
            host,
            answers,
            used,
        ) {
            Step::Ask(ask) => Step::Ask(ask),
            Step::Failed(error, used) => Step::Failed(error, used),
            Step::Done(candidate, used) => match git_status_step(
                source.repo_root,
                seq!["worktree"@, "remove"@, candidate.repo_root],
                no_env(),
                host,
                answers,
                used,
            ) {
                Step::Ask(ask) => Step::Ask(ask),
                Step::Failed(error, used) => Step::Failed(error, used),
                Step::Done(_, used) => Step::Done(source.repo_root, used),
            },
        },
    }
}

fn remove_from(
    repository_path: &str,
    worktree_path: &str,
    host: HostKind,
    replies: &Vec<GitReply>,
    at: usize,
) -> (progress: GitProgress<String>)
    ensures
        progress.deep_view() == remove_from_step(
            repository_path@,
            worktree_path@,
            host,
            replies.deep_view(),
            at as int,
        ),
{
    let (source, at): (WorktreeInfo, usize) = match inspect_worktree(
        repository_path,
        host,
        replies,
        at,
    ) {
        Progress::Ask(ask) => return Progress::Ask(ask),
        Progress::Failed(error, used) => return Progress::Failed(error, used),
        Progress::Done(source, used) => (source, used),
    };
    let (candidate, at): (WorktreeInfo, usize) =
        match validate_managed_same_repository_worktree_with_info(
        &source,
        worktree_path,
        host,
        replies,
        at,
    ) {
        Progress::Ask(ask) => return Progress::Ask(ask),
        Progress::Failed(error, used) => return Progress::Failed(error, used),
        Progress::Done(candidate, used) => (candidate, used),
    };
    let none: Vec<(String, String)> = Vec::new();
    assert(none.deep_view() =~= no_env());
    match run_git_for_status(
        source.repo_root.as_str(),
        list3("worktree", "remove", candidate.repo_root.as_str()),
        none,
        host,
        replies,
        at,
    ) {
        Progress::Ask(ask) => Progress::Ask(ask),
        Progress::Failed(error, used) => Progress::Failed(error, used),
        Progress::Done(_, used) => Progress::Done(source.repo_root, used),
    }
}

/// What removing a managed worktree comes to.
pub open spec fn remove_step(
    repository_path: Seq<char>,
    worktree_path: Seq<char>,
    host: HostKind,
    answers: Seq<GitAnswer>,
    at: int,
) -> GitStep<()> {
    match remove_from_step(repository_path, worktree_path, host, answers, at) {
        Step::Ask(ask) => Step::Ask(ask),
        Step::Failed(error, used) => Step::Failed(error, used),
        Step::Done(_, used) => Step::Done((), used),
    }
}

/// Remove a managed worktree from the same repository as `repository_path`.
pub fn remove_managed_worktree(
    repository_path: &str,
    worktree_path: &str,
    host: HostKind,
    replies: &Vec<GitReply>,
    at: usize,
) -> (progress: GitProgress<()>)
    ensures
        progress.deep_view() == remove_step(
            repository_path@,
            worktree_path@,
            host,
            replies.deep_view(),
            at as int,
        ),
{
    match remove_from(repository_path, worktree_path, host, replies, at) {
        Progress::Ask(ask) => Progress::Ask(ask),
        Progress::Failed(error, used) => Progress::Failed(error, used),
        Progress::Done(_, used) => Progress::Done((), used),
    }
}

/// What taking back a new worktree comes to: the worktree is removed, and then the branch that
/// was created with it; a branch that was there before stays.
pub open spec fn remove_created_step(
    repository_path: Seq<char>,
    worktree_path: Seq<char>,
    created_branch: Option<Seq<char>>,
    host: HostKind,
    answers: Seq<GitAnswer>,
    at: int,
) -> GitStep<()> {
    match remove_from_step(repository_path, worktree_path, host, answers, at) {
        Step::Ask(ask) => Step::Ask(ask),
        Step::Failed(error, used) => Step::Failed(error, used),
        Step::Done(repo_root, used) => match created_branch {
            None => Step::Done((), used),
            Some(branch) => git_status_step(
                repo_root,
                seq!["branch"@, "-D"@, branch],
                no_env(),
                host,
                answers,
                used,
            ),
        },
    }
}

/// Takes back a worktree that was just created, with the branch that was created for it.
pub fn remove_created_managed_worktree(
    repository_path: &str,
    worktree_path: &str,
    created_branch: &Option<String>,
    host: HostKind,
    replies: &Vec<GitReply>,
    at: usize,
) -> (progress: GitProgress<()>)
    ensures
        progress.deep_view() == remove_created_step(
            repository_path@,
            worktree_path@,
            created_branch.deep_view(),
            host,
            replies.deep_view(),
            at as int,
        ),
{
    match remove_from(repository_path, worktree_path, host, replies, at) {
        Progress::Ask(ask) => Progress::Ask(ask),
        Progress::Failed(error, used) => Progress::Failed(error, used),
        Progress::Done(repo_root, used) => match created_branch {
            None => Progress::Done((), used),
            Some(branch) => {
                let none: Vec<(String, String)> = Vec::new();
                assert(none.deep_view() =~= no_env());
                run_git_for_status(
                    repo_root.as_str(),
                    list3("branch", "-D", branch.as_str()),
                    none,
                    host,
                    replies,
                    used,
                )
            },
        },
    }
}

/// Where a procedure asks for a git command, the command runs no hook of the repository.
pub open spec fn runs_no_hook<T>(host: HostKind, step: GitStep<T>) -> bool {
    step matches Step::Ask(GitAsk::RunGit { dir: _, args, env: _ }) ==> exists|rest: Seq<Seq<char>>|
        args == #[trigger] hook_free_args(host, rest)
}

#[verifier::spinoff_prover]
proof fn lemma_inspect_runs_no_hook(
    path: Seq<char>,
    host: HostKind,
    answers: Seq<GitAnswer>,
    at: int,
)
    ensures
        runs_no_hook(host, inspect_step(path, host, answers, at)),
{
}

#[verifier::spinoff_prover]
proof fn lemma_managed_base_runs_no_hook(
    source: InfoView,
    managed_base: Seq<char>,
    host: HostKind,
    answers: Seq<GitAnswer>,
    at: int,
)
    ensures
        runs_no_hook(host, managed_base_step(source, managed_base, answers, at)),
{
}

#[verifier::spinoff_prover]
proof fn lemma_target_runs_no_hook(
    source: InfoView,
    canonical_base: Seq<char>,
    name: Seq<char>,
    host: HostKind,
    answers: Seq<GitAnswer>,
    at: int,
)
    ensures
        runs_no_hook(host, target_step(source, canonical_base, name, host, answers, at)),
{
}

#[verifier::spinoff_prover]
proof fn lemma_create_runs_no_hook(
    repository_path: Seq<char>,
    name: Seq<char>,
    host: HostKind,
    answers: Seq<GitAnswer>,
    at: int,
)
    ensures
        runs_no_hook(host, create_step(repository_path, name, host, answers, at)),
{
    lemma_inspect_runs_no_hook(repository_path, host, answers, at);
    if let Step::Done(source, used) = inspect_step(repository_path, host, answers, at) {
        let base = managed_dir(source.common_dir);
        lemma_managed_base_runs_no_hook(source, base, host, answers, used);
        if let Step::Done(canonical_base, used) = managed_base_step(source, base, answers, used) {
            lemma_target_runs_no_hook(source, canonical_base, name, host, answers, used);
            if let Step::Done(_, used) = target_step(
                source,
                canonical_base,
                name,
                host,
                answers,
                used,
            ) {
                lemma_inspect_runs_no_hook(joined_path(canonical_base, name), host, answers, used);
            }
        }
    }
}

#[verifier::spinoff_prover]
proof fn lemma_remove_runs_no_hook(
    repository_path: Seq<char>,
    worktree_path: Seq<char>,
    host: HostKind,
    answers: Seq<GitAnswer>,
    at: int,
)
    ensures
        runs_no_hook(host, remove_from_step(repository_path, worktree_path, host, answers, at)),
{
    lemma_inspect_runs_no_hook(repository_path, host, answers, at);
    if let Step::Done(source, used) = inspect_step(repository_path, host, answers, at) {
        lemma_inspect_runs_no_hook(worktree_path, host, answers, used);
    }
}

/// No git command that creates, checks or removes a worktree runs a hook of the repository.
pub proof fn lemma_no_hook_is_run(
    repository_path: Seq<char>,
    worktree_path: Seq<char>,
    name: Seq<char>,
    created_branch: Option<Seq<char>>,
    host: HostKind,
    answers: Seq<GitAnswer>,
    at: int,
)
    ensures
        runs_no_hook(host, inspect_step(worktree_path, host, answers, at)),
        runs_no_hook(host, create_step(repository_path, name, host, answers, at)),
        runs_no_hook(host, remove_step(repository_path, worktree_path, host, answers, at)),
        runs_no_hook(
            host,
            remove_created_step(repository_path, worktree_path, created_branch, host, answers, at),
        ),
{
    lemma_inspect_runs_no_hook(worktree_path, host, answers, at);
    lemma_create_runs_no_hook(repository_path, name, host, answers, at);
    lemma_remove_runs_no_hook(repository_path, worktree_path, host, answers, at);
}

/// Creating a managed worktree creates no other directory than the one that holds the managed
/// worktrees of the repository and its parent.
#[verifier::spinoff_prover]
pub proof fn lemma_create_makes_only_managed_directories(
    repository_path: Seq<char>,
    name: Seq<char>,
    host: HostKind,
    answers: Seq<GitAnswer>,
    at: int,
    path: Seq<char>,
)
    requires
        create_step(repository_path, name, host, answers, at) == Step::<
            GitAsk,
            GitErrorView,
            ManagedView,
        >::Ask(GitAsk::CreateDir(path)),
    ensures
        inspect_step(repository_path, host, answers, at) matches Step::Done(source, _) && (path
            == managed_dir(source.common_dir) || Some(path) == parent_of(
            managed_dir(source.common_dir),
        )),
{
    assert forall|p: Seq<char>, from: int| !(#[trigger] inspect_step(p, host, answers, from) matches
        Step::Ask(GitAsk::CreateDir(_))) by {}
}

/// A checkout that adds a worktree runs with the environment that switches off every filter
/// driver which the repository has configured.
#[verifier::spinoff_prover]
pub proof fn lemma_checkout_runs_no_filter(
    repo_root: Seq<char>,
    target_path: Seq<char>,
    name: Seq<char>,
    host: HostKind,
    answers: Seq<GitAnswer>,
    at: int,
    exists_before: bool,
    env: Seq<(Seq<char>, Seq<char>)>,
)
    requires
        add_step(repo_root, target_path, name, host, answers, at) == Step::<
            GitAsk,
            GitErrorView,
            Option<Seq<char>>,
        >::Ask(
            GitAsk::RunGit {
                dir: repo_root,
                args: hook_free_args(host, add_args(target_path, name, exists_before)),
                env,
            },
        ),
    ensures
        filter_env_step(repo_root, host, answers, at) matches Step::Done(configured, _) && env
            == configured,
{
    reveal_strlit("worktree");
    reveal_strlit("config");
    reveal_strlit("rev-parse");
    let args = hook_free_args(host, add_args(target_path, name, exists_before));
    assert(args[2] == "worktree"@);
    assert("worktree"@.len() == 8);
    assert("config"@.len() == 6);
    assert("rev-parse"@.len() == 9);
    match filter_env_step(repo_root, host, answers, at) {
        Step::Ask(ask) => {
            assert(ask->args[2] == "config"@);
        },
        Step::Failed(_, _) => {},
        Step::Done(configured, used) => {
            if let Step::Ask(ask) = branch_exists_step(repo_root, name, host, answers, used) {
                assert(ask->args[2] == "rev-parse"@);
            }
        },
    }
}

/// A managed worktree that was created or reused has the name that was asked for, lies directly
/// under the resolved directory of the managed worktrees, belongs to the repository that was
/// asked for, and carries a new branch, of its own name, only if it is new.
#[verifier::spinoff_prover]
pub proof fn lemma_created_worktree_belongs_to_the_repository(
    repository_path: Seq<char>,
    name: Seq<char>,
    host: HostKind,
    answers: Seq<GitAnswer>,
    at: int,
    managed: ManagedView,
    used: int,
)
    requires
        create_step(repository_path, name, host, answers, at) == Step::<
            GitAsk,
            GitErrorView,
            ManagedView,
        >::Done(managed, used),
    ensures
        name_problem(name) is None,
        managed.name == name,
        managed.created_branch is Some ==> managed.created && managed.created_branch == Some(name),
        inspect_step(repository_path, host, answers, at) matches Step::Done(source, inspected) && {
            &&& is_same_path(managed.info.common_dir, source.common_dir)
            &&& managed_base_step(
                source,
                managed_dir(source.common_dir),
                answers,
                inspected,
            ) matches Step::Done(base, _) && path_parts(managed.path) == path_parts(base).push(
                Part::Normal(name),
            )
        },
{
    lemma_valid_name_is_component(name);
    assert forall|base: Seq<char>| #[trigger]
        path_parts(joined_path(base, name)) == path_parts(base).push(Part::Normal(name)) by {
        lemma_parts_of_child(base, name);
    }
}

/// The resolved directory of the managed worktrees lies under the resolved common directory of
/// the repository.
pub proof fn lemma_managed_base_stays_in_the_repository(
    source: InfoView,
    answers: Seq<GitAnswer>,
    at: int,
    base: Seq<char>,
    used: int,
)
    requires
        managed_base_step(source, managed_dir(source.common_dir), answers, at) == Step::<
            GitAsk,
            GitErrorView,
            Seq<char>,
        >::Done(base, used),
    ensures
        canonicalize_step(source.common_dir, answers, at) matches Step::Done(common_dir, _)
            && path_starts_with(base, common_dir),
{
}

/// A worktree is removed only from the repository that was asked for, and only if its root lies
/// under the resolved directory of the managed worktrees of that repository. It is not forced.
#[verifier::spinoff_prover]
pub proof fn lemma_only_managed_worktrees_are_removed(
    repository_path: Seq<char>,
    worktree_path: Seq<char>,
    host: HostKind,
    answers: Seq<GitAnswer>,
    at: int,
    dir: Seq<char>,
    root: Seq<char>,
    env: Seq<(Seq<char>, Seq<char>)>,
)
    requires
        remove_from_step(repository_path, worktree_path, host, answers, at) == Step::<
            GitAsk,
            GitErrorView,
            Seq<char>,
        >::Ask(
            GitAsk::RunGit {
                dir,
                args: hook_free_args(host, seq!["worktree"@, "remove"@, root]),
                env,
            },
        ),
    ensures
        inspect_step(repository_path, host, answers, at) matches Step::Done(source, inspected) && {
            &&& dir == source.repo_root
            &&& same_repository_step(source, worktree_path, host, answers, inspected) matches Step::Done(
                candidate,
                checked,
            ) && {
                &&& is_same_path(candidate.common_dir, source.common_dir)
                &&& root == candidate.repo_root
                &&& canonicalize_step(
                    managed_dir(source.common_dir),
                    answers,
                    checked,
                ) matches Step::Done(base, _) && path_starts_with(root, base)
            }
        },
{
    reveal_strlit("worktree");
    reveal_strlit("rev-parse");
    assert("worktree"@.len() == 8);
    assert("rev-parse"@.len() == 9);
    let args = hook_free_args(host, seq!["worktree"@, "remove"@, root]);
    assert(args[2] == "worktree"@ && args[4] == root);
    assert forall|p: Seq<char>, from: int| (#[trigger] inspect_step(p, host, answers, from) matches
        Step::Ask(GitAsk::RunGit { dir: _, args: asked, env: _ }) ==> asked[2] == "rev-parse"@) by {}
    if let Step::Done(source, inspected) = inspect_step(repository_path, host, answers, at) {
        if let Step::Done(candidate, checked) = managed_same_repository_step(
            source,
            worktree_path,
            host,
            answers,
            inspected,
        ) {
            assert(hook_free_args(host, seq!["worktree"@, "remove"@, candidate.repo_root])[4]
                == candidate.repo_root);
        }
    }
}

} // verus!
