//! Worktrees of a git repository: what git says of a checkout, and where managed ones live.

use vstd::prelude::*;
use vstd::string::*;

use crate::errors::{GitErrorView, GitToolingError};
use crate::operations::{
    canonicalize, canonicalize_step, ensure_git_repository, ensure_git_repository_step,
    git_stdout_step, repository_root_step, resolve_repository_root, run_git_for_stdout, GitAnswer,
    GitProgress, GitReply, GitStep, HostKind,
};
use crate::paths::{
    components, is_component_name, is_same_path, join_path, joined_path, lemma_parts_of_child,
    path_parts, path_starts_with, same_path, starts_with, Part, PathPart,
};
use crate::progress::{Progress, Step};
use crate::text::{chars_of, contains_char, list3, same_text};

verus! {

/// Details git reports for a checkout that is inside a worktree.
pub struct WorktreeInfo {
    pub repo_root: String,
    pub git_dir: String,
    pub common_dir: String,
    pub current_branch: Option<String>,
}

/// A checkout, in specifications.
pub struct InfoView {
    pub repo_root: Seq<char>,
    pub git_dir: Seq<char>,
    pub common_dir: Seq<char>,
    pub current_branch: Option<Seq<char>>,
}

impl DeepView for WorktreeInfo {
    type V = InfoView;

    open spec fn deep_view(&self) -> InfoView {
        InfoView {
            repo_root: self.repo_root@,
            git_dir: self.git_dir@,
            common_dir: self.common_dir@,
            current_branch: self.current_branch.deep_view(),
        }
    }
}

impl WorktreeInfo {
    /// The same details again.
    pub fn copy(&self) -> (copy: WorktreeInfo)
        ensures
            copy.deep_view() == self.deep_view(),
    {
        WorktreeInfo {
            repo_root: self.repo_root.clone(),
            git_dir: self.git_dir.clone(),
            common_dir: self.common_dir.clone(),
            current_branch: self.current_branch.clone(),
        }
    }
}

/// The directory of the managed worktrees below the common directory of a repository.
pub open spec fn managed_dir(common_dir: Seq<char>) -> Seq<char> {
    joined_path(joined_path(common_dir, "codex"@), "worktrees"@)
}

/// Return the managed worktree directory under a repository git common dir.
pub fn managed_worktrees_dir(common_dir: &str) -> (dir: String)
    ensures
        dir@ == managed_dir(common_dir@),
{
    join_path(join_path(common_dir, "codex").as_str(), "worktrees")
}

/// The characters that the name of a managed worktree may hold.
pub open spec fn is_name_char(c: char) -> bool {
    ||| 'a' <= c <= 'z'
    ||| 'A' <= c <= 'Z'
    ||| '0' <= c <= '9'
    ||| c == '.'
    ||| c == '_'
    ||| c == '-'
}

fn name_char(c: char) -> (is: bool)
    ensures
        is == is_name_char(c),
{
    ('a' <= c && c <= 'z') || ('A' <= c && c <= 'Z') || ('0' <= c && c <= '9') || c == '.' || c
        == '_' || c == '-'
}

/// Why a text cannot be the name of a managed worktree.
pub open spec fn name_problem(name: Seq<char>) -> Option<Seq<char>> {
    if name.len() == 0 {
        Some("name must not be empty"@)
    } else if name[0] == '-' {
        Some("name must not start with '-'"@)
    } else if name.contains('/') || name.contains('\\') {
        Some("name must not contain path separators"@)
    } else if name.contains('\0') {
        Some("name must not contain NUL bytes"@)
    } else if exists|i: int| 0 <= i < name.len() && !is_name_char(#[trigger] name[i]) {
        Some("name must contain only ASCII letters, digits, '.', '_', or '-'"@)
    } else if path_parts(name) != seq![Part::Normal(name)] {
        Some("name must map to exactly one child path"@)
    } else {
        None
    }
}

fn has_only_name_chars(name: &str) -> (only: bool)
    ensures
        only == !(exists|i: int| 0 <= i < name@.len() && !is_name_char(#[trigger] name@[i])),
{
    let chars: Vec<char> = chars_of(name);
    let mut i: usize = 0;
    while i < chars.len()
        invariant
            i <= chars.len(),
            chars@ == name@,
            forall|j: int| 0 <= j < i ==> is_name_char(#[trigger] name@[j]),
        decreases chars.len() - i,
    {
        if !name_char(chars[i]) {
            assert(!is_name_char(name@[i as int]));
            return false;
        }
        i += 1;
    }
    true
}

fn is_single_component(name: &str) -> (single: bool)
    ensures
        single == (path_parts(name@) == seq![Part::Normal(name@)]),
{
    let parts: Vec<PathPart> = components(name);
    assert(parts.deep_view().len() == parts.len());
    if parts.len() != 1 {
        assert(parts.deep_view().len() != seq![Part::Normal(name@)].len());
        return false;
    }
    assert(parts.deep_view() =~= seq![parts[0].deep_view()]);
    assert(seq![Part::Normal(name@)][0] == Part::Normal(name@));
    match &parts[0] {
        PathPart::Normal(part) => {
            assert(parts.deep_view()[0] == Part::Normal(part@));
            same_text(part.as_str(), name)
        },
        _ => {
            assert(parts.deep_view()[0] != Part::Normal(name@));
            false
        },
    }
}

/// Checks that `name` can be the name of a managed worktree.
pub fn validate_managed_worktree_name(name: &str) -> (checked: Result<(), GitToolingError>)
    ensures
        match name_problem(name@) {
            Some(reason) => checked is Err && checked->Err_0.deep_view()
                == (GitErrorView::InvalidWorktreeName { name: name@, reason }),
            None => checked is Ok,
        },
{
    let reason: Option<&str> = if name.is_empty() {
        Some("name must not be empty")
    } else if name.get_char(0) == '-' {
        Some("name must not start with '-'")
    } else if contains_char(name, '/') || contains_char(name, '\\') {
        Some("name must not contain path separators")
    } else if contains_char(name, '\0') {
        Some("name must not contain NUL bytes")
    } else if !has_only_name_chars(name) {
        Some("name must contain only ASCII letters, digits, '.', '_', or '-'")
    } else if !is_single_component(name) {
        Some("name must map to exactly one child path")
    } else {
        None
    };
    match reason {
        Some(reason) => Err(
            GitToolingError::InvalidWorktreeName {
                name: name.to_owned(),
                reason: reason.to_owned(),
            },
        ),
        None => Ok(()),
    }
}

/// Where the managed worktree of a name lives.
pub open spec fn managed_path(common_dir: Seq<char>, name: Seq<char>) -> Seq<char> {
    joined_path(managed_dir(common_dir), name)
}

/// Return the path for a named managed worktree under `common_dir`.
pub fn managed_worktree_path(common_dir: &str, name: &str) -> (path: Result<
    String,
    GitToolingError,
>)
    ensures
        match name_problem(name@) {
            Some(reason) => path is Err && path->Err_0.deep_view()
                == (GitErrorView::InvalidWorktreeName { name: name@, reason }),
            None => path is Ok && path->Ok_0@ == managed_path(common_dir@, name@),
        },
{
    match validate_managed_worktree_name(name) {
        Err(error) => Err(error),
        Ok(_) => Ok(join_path(managed_worktrees_dir(common_dir).as_str(), name)),
    }
}

/// What resolving a path that git wrote comes to: a relative one starts at the directory in which
/// git ran.
pub open spec fn git_path_step(
    command_dir: Seq<char>,
    path: Seq<char>,
    answers: Seq<GitAnswer>,
    at: int,
) -> GitStep<Seq<char>> {
    canonicalize_step(joined_path(command_dir, path), answers, at)
}

/// Resolves a path that git wrote in `command_dir`.
pub fn canonicalize_git_path(
    command_dir: &str,
    path: &str,
    replies: &Vec<GitReply>,
    at: usize,
) -> (progress: GitProgress<String>)
    ensures
        progress.deep_view() == git_path_step(
            command_dir@,
            path@,
            replies.deep_view(),
            at as int,
        ),
{
    canonicalize(join_path(command_dir, path).as_str(), replies, at)
}

/// The branch that is checked out, where one is.
pub open spec fn current_branch_step(
    path: Seq<char>,
    host: HostKind,
    answers: Seq<GitAnswer>,
    at: int,
) -> GitStep<Option<Seq<char>>> {
    match git_stdout_step(path, seq!["rev-parse"@, "--abbrev-ref"@, "HEAD"@], host, answers, at) {
        Step::Ask(ask) => Step::Ask(ask),
        Step::Failed(error, used) => Step::Failed(error, used),
        Step::Done(branch, used) => if branch == "HEAD"@ || branch.len() == 0 {
            Step::Done(None, used)
        } else {
            Step::Done(Some(branch), used)
        },
    }
}

/// Finds the branch that is checked out in `path`.
pub fn current_branch(
    path: &str,
    host: HostKind,
    replies: &Vec<GitReply>,
    at: usize,
) -> (progress: GitProgress<Option<String>>)
    ensures
        progress.deep_view() == current_branch_step(path@, host, replies.deep_view(), at as int),
{
    match run_git_for_stdout(path, list3("rev-parse", "--abbrev-ref", "HEAD"), host, replies, at) {
        Progress::Ask(ask) => Progress::Ask(ask),
        Progress::Failed(error, used) => Progress::Failed(error, used),
        Progress::Done(branch, used) => {
            if same_text(branch.as_str(), "HEAD") || branch.as_str().is_empty() {
                Progress::Done(None, used)
            } else {
                Progress::Done(Some(branch), used)
            }
        },
    }
}

/// What asking git for one of its directories comes to: the canonical path of it.
pub open spec fn git_dir_step(
    path: Seq<char>,
    which: Seq<char>,
    host: HostKind,
    answers: Seq<GitAnswer>,
    at: int,
) -> GitStep<Seq<char>> {
    match git_stdout_step(
        path,
        seq!["rev-parse"@, "--path-format=absolute"@, which],
        host,
        answers,
        at,
    ) {
        Step::Ask(ask) => Step::Ask(ask),
        Step::Failed(error, used) => Step::Failed(error, used),
        Step::Done(dir, used) => git_path_step(path, dir, answers, used),
    }
}

fn git_directory(
    path: &str,
    which: &str,
    host: HostKind,
    replies: &Vec<GitReply>,
    at: usize,
) -> (progress: GitProgress<String>)
    ensures
        progress.deep_view() == git_dir_step(path@, which@, host, replies.deep_view(), at as int),
{
    match run_git_for_stdout(
        path,
        list3("rev-parse", "--path-format=absolute", which),
        host,
        replies,
        at,
    ) {
        Progress::Ask(ask) => Progress::Ask(ask),
        Progress::Failed(error, used) => Progress::Failed(error, used),
        Progress::Done(dir, used) => canonicalize_git_path(path, dir.as_str(), replies, used),
    }
}

/// What asking git for the root of a work tree comes to: the canonical path of it.
pub open spec fn root_step(
    path: Seq<char>,
    host: HostKind,
    answers: Seq<GitAnswer>,
    at: int,
) -> GitStep<Seq<char>> {
    match repository_root_step(path, host, answers, at) {
        Step::Ask(ask) => Step::Ask(ask),
        Step::Failed(error, used) => Step::Failed(error, used),
        Step::Done(root, used) => git_path_step(path, root, answers, used),
    }
}

fn canonical_root(
    path: &str,
    host: HostKind,
    replies: &Vec<GitReply>,
    at: usize,
) -> (progress: GitProgress<String>)
    ensures
        progress.deep_view() == root_step(path@, host, replies.deep_view(), at as int),
{
    match resolve_repository_root(path, host, replies, at) {
        Progress::Ask(ask) => Progress::Ask(ask),
        Progress::Failed(error, used) => Progress::Failed(error, used),
        Progress::Done(root, used) => canonicalize_git_path(path, root.as_str(), replies, used),
    }
}

/// What inspecting a checkout comes to: it is in a repository, and git names its root, its git
/// directory, the common directory of the repository and the branch, in this order.
pub open spec fn inspect_step(
    path: Seq<char>,
    host: HostKind,
    answers: Seq<GitAnswer>,
    at: int,
) -> GitStep<InfoView> {
    match ensure_git_repository_step(path, host, answers, at) {
        Step::Ask(ask) => Step::Ask(ask),
        Step::Failed(error, used) => Step::Failed(error, used),
        Step::Done(_, used) => match root_step(path, host, answers, used) {
            Step::Ask(ask) => Step::Ask(ask),
            Step::Failed(error, used) => Step::Failed(error, used),
            Step::Done(repo_root, used) => match git_dir_step(
                path,
                "--git-dir"@,
                host,
                answers,
                used,
            ) {
                Step::Ask(ask) => Step::Ask(ask),
                Step::Failed(error, used) => Step::Failed(error, used),
                Step::Done(git_dir, used) => match git_dir_step(
                    path,
                    "--git-common-dir"@,
                    host,
                    answers,
                    used,
                ) {
                    Step::Ask(ask) => Step::Ask(ask),
                    Step::Failed(error, used) => Step::Failed(error, used),
                    Step::Done(common_dir, used) => match current_branch_step(
                        path,
                        host,
                        answers,
                        used,
                    ) {
                        Step::Ask(ask) => Step::Ask(ask),
                        Step::Failed(error, used) => Step::Failed(error, used),
                        Step::Done(current_branch, used) => Step::Done(
                            InfoView { repo_root, git_dir, common_dir, current_branch },
                            used,
                        ),
                    },
                },
            },
        },
    }
}

/// Inspect the repository/worktree containing `path`.
pub fn inspect_worktree(
    path: &str,
    host: HostKind,
    replies: &Vec<GitReply>,
    at: usize,
) -> (progress: GitProgress<WorktreeInfo>)
    ensures
        progress.deep_view() == inspect_step(path@, host, replies.deep_view(), at as int),
{
    let at: usize = match ensure_git_repository(path, host, replies, at) {
        Progress::Ask(ask) => return Progress::Ask(ask),
        Progress::Failed(error, used) => return Progress::Failed(error, used),
        Progress::Done(_, used) => used,
    };
    let (repo_root, at): (String, usize) = match canonical_root(path, host, replies, at) {
        Progress::Ask(ask) => return Progress::Ask(ask),
        Progress::Failed(error, used) => return Progress::Failed(error, used),
        Progress::Done(root, used) => (root, used),
    };
    let (git_dir, at): (String, usize) = match git_directory(path, "--git-dir", host, replies, at) {
        Progress::Ask(ask) => return Progress::Ask(ask),
        Progress::Failed(error, used) => return Progress::Failed(error, used),
        Progress::Done(dir, used) => (dir, used),
    };
    let (common_dir, at): (String, usize) = match git_directory(
        path,
        "--git-common-dir",
        host,
        replies,
        at,
    ) {
        Progress::Ask(ask) => return Progress::Ask(ask),
        Progress::Failed(error, used) => return Progress::Failed(error, used),
        Progress::Done(dir, used) => (dir, used),
    };
    match current_branch(path, host, replies, at) {
        Progress::Ask(ask) => Progress::Ask(ask),
        Progress::Failed(error, used) => Progress::Failed(error, used),
        Progress::Done(current_branch, used) => Progress::Done(
            WorktreeInfo { repo_root, git_dir, common_dir, current_branch },
            used,
        ),
    }
}

/// What checking that a checkout belongs to a repository comes to.
pub open spec fn same_repository_step(
    expected: InfoView,
    candidate_path: Seq<char>,
    host: HostKind,
    answers: Seq<GitAnswer>,
    at: int,
) -> GitStep<InfoView> {
    match inspect_step(candidate_path, host, answers, at) {
        Step::Ask(ask) => Step::Ask(ask),
        Step::Failed(error, used) => Step::Failed(error, used),
        Step::Done(candidate, used) => if is_same_path(
            candidate.common_dir,
            expected.common_dir,
        ) {
            Step::Done(candidate, used)
        } else {
            Step::Failed(
                GitErrorView::WorktreeRepositoryMismatch {
                    path: candidate.repo_root,
                    expected_common_dir: expected.common_dir,
                    actual_common_dir: candidate.common_dir,
                },
                used,
            )
        },
    }
}

/// Checks that `candidate_path` is in a checkout of the repository of `expected`.
pub fn validate_same_repository_worktree_with_info(
    expected: &WorktreeInfo,
    candidate_path: &str,
    host: HostKind,
    replies: &Vec<GitReply>,
    at: usize,
) -> (progress: GitProgress<WorktreeInfo>)
    ensures
        progress.deep_view() == same_repository_step(
            expected.deep_view(),
            candidate_path@,
            host,
            replies.deep_view(),
            at as int,
        ),
{
    match inspect_worktree(candidate_path, host, replies, at) {
        Progress::Ask(ask) => Progress::Ask(ask),
        Progress::Failed(error, used) => Progress::Failed(error, used),
        Progress::Done(candidate, used) => {
            if same_path(candidate.common_dir.as_str(), expected.common_dir.as_str()) {
                Progress::Done(candidate, used)
            } else {
                Progress::Failed(
                    GitToolingError::WorktreeRepositoryMismatch {
                        path: candidate.repo_root,
                        expected_common_dir: expected.common_dir.clone(),
                        actual_common_dir: candidate.common_dir,
                    },
                    used,
                )
            }
        },
    }
}

/// What checking that a checkout is a managed worktree of a repository comes to: its root has to
/// lie under the directory of the managed worktrees, with symbolic links resolved.
pub open spec fn managed_same_repository_step(
    expected: InfoView,
    candidate_path: Seq<char>,
    host: HostKind,
    answers: Seq<GitAnswer>,
    at: int,
) -> GitStep<InfoView> {
    match same_repository_step(expected, candidate_path, host, answers, at) {
        Step::Ask(ask) => Step::Ask(ask),
        Step::Failed(error, used) => Step::Failed(error, used),
        Step::Done(candidate, used) => match canonicalize_step(
            managed_dir(expected.common_dir),
            answers,
            used,
        ) {
            Step::Ask(ask) => Step::Ask(ask),
            Step::Failed(error, used) => Step::Failed(error, used),
            Step::Done(canonical_base, used) => if path_starts_with(
                candidate.repo_root,
                canonical_base,
            ) {
                Step::Done(candidate, used)
            } else {
                Step::Failed(
                    GitErrorView::ManagedWorktreePathEscapes {
                        path: candidate.repo_root,
                        base: managed_dir(expected.common_dir),
                    },
                    used,
                )
            },
        },
    }
}

/// Validate that `candidate_path` is a managed worktree for `expected`.
pub fn validate_managed_same_repository_worktree_with_info(
    expected: &WorktreeInfo,
    candidate_path: &str,
    host: HostKind,
    replies: &Vec<GitReply>,
    at: usize,
) -> (progress: GitProgress<WorktreeInfo>)
    ensures
        progress.deep_view() == managed_same_repository_step(
            expected.deep_view(),
            candidate_path@,
            host,
            replies.deep_view(),
            at as int,
        ),
{
    let (candidate, at): (WorktreeInfo, usize) = match validate_same_repository_worktree_with_info(
        expected,
        candidate_path,
        host,
        replies,
        at,
    ) {
        Progress::Ask(ask) => return Progress::Ask(ask),
        Progress::Failed(error, used) => return Progress::Failed(error, used),
        Progress::Done(candidate, used) => (candidate, used),
    };
    let managed_base: String = managed_worktrees_dir(expected.common_dir.as_str());
    match canonicalize(managed_base.as_str(), replies, at) {
        Progress::Ask(ask) => Progress::Ask(ask),
        Progress::Failed(error, used) => Progress::Failed(error, used),
        Progress::Done(canonical_base, used) => {
            if starts_with(candidate.repo_root.as_str(), canonical_base.as_str()) {
                Progress::Done(candidate, used)
            } else {
                Progress::Failed(
                    GitToolingError::ManagedWorktreePathEscapes {
                        path: candidate.repo_root,
                        base: managed_base,
                    },
                    used,
                )
            }
        },
    }
}

/// A text without a problem is a single component.
pub proof fn lemma_valid_name_is_component(name: Seq<char>)
    requires
        name_problem(name) is None,
    ensures
        is_component_name(name),
{
    let parts = path_parts(name);
    assert(parts[0] == Part::Normal(name));
    crate::paths::lemma_path_parts_list(name);
}

/// The directory of the managed worktrees is two levels below the common directory.
pub proof fn lemma_managed_dir_parts(common_dir: Seq<char>)
    ensures
        path_parts(managed_dir(common_dir)) == path_parts(common_dir).push(
            Part::Normal("codex"@),
        ).push(Part::Normal("worktrees"@)),
{
    reveal_strlit("codex");
    reveal_strlit("worktrees");
    assert(is_component_name("codex"@)) by {
        assert("codex"@.len() == 5);
        assert(seq!['.'].len() == 1);
        assert(seq!['.', '.'].len() == 2);
        assert forall|i: int| 0 <= i < "codex"@.len() implies "codex"@[i] != '/' by {}
    }
    assert(is_component_name("worktrees"@)) by {
        assert("worktrees"@.len() == 9);
        assert(seq!['.'].len() == 1);
        assert(seq!['.', '.'].len() == 2);
        assert forall|i: int| 0 <= i < "worktrees"@.len() implies "worktrees"@[i] != '/' by {}
    }
    lemma_parts_of_child(common_dir, "codex"@);
    lemma_parts_of_child(joined_path(common_dir, "codex"@), "worktrees"@);
}

/// A managed worktree is a direct child of the directory of the managed worktrees, whatever its
/// valid name, and so lies under the common directory of the repository.
pub proof fn lemma_managed_path_is_child(common_dir: Seq<char>, name: Seq<char>)
    requires
        name_problem(name) is None,
    ensures
        path_parts(managed_path(common_dir, name)) == path_parts(managed_dir(common_dir)).push(
            Part::Normal(name),
        ),
        path_starts_with(managed_path(common_dir, name), managed_dir(common_dir)),
        path_starts_with(managed_path(common_dir, name), common_dir),
{
    lemma_valid_name_is_component(name);
    lemma_parts_of_child(managed_dir(common_dir), name);
    lemma_managed_dir_parts(common_dir);
    let base = path_parts(managed_dir(common_dir));
    let whole = path_parts(managed_path(common_dir, name));
    assert(whole.take(base.len() as int) =~= base);
    assert(whole.take(path_parts(common_dir).len() as int) =~= path_parts(common_dir));
}

/// Two managed worktrees of one repository are at the same path only if they have the same name.
pub proof fn lemma_managed_paths_are_distinct(common_dir: Seq<char>, a: Seq<char>, b: Seq<char>)
    requires
        name_problem(a) is None,
        name_problem(b) is None,
        is_same_path(managed_path(common_dir, a), managed_path(common_dir, b)),
    ensures
        a == b,
{
    lemma_managed_path_is_child(common_dir, a);
    lemma_managed_path_is_child(common_dir, b);
    assert(path_parts(managed_path(common_dir, a)).last() == Part::Normal(a));
    assert(path_parts(managed_path(common_dir, b)).last() == Part::Normal(b));
}

/// A text is the name of a managed worktree exactly where it is not empty, does not begin with a
/// hyphen, holds only ASCII letters, digits, dots, underscores and hyphens, and is neither `.` nor
/// `..`.
pub proof fn lemma_names_hold_only_plain_characters(name: Seq<char>)
    ensures
        name_problem(name) is None <==> {
            &&& name.len() > 0
            &&& name[0] != '-'
            &&& name != seq!['.']
            &&& name != seq!['.', '.']
            &&& forall|i: int|
                0 <= i < name.len() ==> ('a' <= #[trigger] name[i] <= 'z' || 'A' <= name[i] <= 'Z'
                    || '0' <= name[i] <= '9' || name[i] == '.' || name[i] == '_' || name[i] == '-')
        },
{
    if name_problem(name) is None {
        lemma_valid_name_is_component(name);
        assert forall|i: int| 0 <= i < name.len() implies ('a' <= #[trigger] name[i] <= 'z' || 'A'
            <= name[i] <= 'Z' || '0' <= name[i] <= '9' || name[i] == '.' || name[i] == '_'
            || name[i] == '-') by {
            assert(is_name_char(name[i]));
        }
    } else if name.len() > 0 && name[0] != '-' && name != seq!['.'] && name != seq!['.', '.']
        && forall|i: int| 0 <= i < name.len() ==> is_name_char(#[trigger] name[i]) {
        assert forall|i: int| 0 <= i < name.len() implies name[i] != '/' && name[i] != '\\'
            && name[i] != '\0' by {
            assert(is_name_char(name[i]));
        }
        assert(is_component_name(name));
        crate::paths::lemma_names_are_components(seq!['/'], name);
    }
}

/// A text that is no name is refused for the first of these reasons that holds of it.
pub proof fn lemma_names_are_refused_for_a_reason(name: Seq<char>)
    ensures
        name.len() == 0 ==> name_problem(name) == Some("name must not be empty"@),
        name.len() > 0 && name[0] == '-' ==> name_problem(name) == Some(
            "name must not start with '-'"@,
        ),
        name.len() > 0 && name[0] != '-' ==> {
            &&& name.contains('/') || name.contains('\\') ==> name_problem(name) == Some(
                "name must not contain path separators"@,
            )
            &&& !name.contains('/') && !name.contains('\\') ==> {
                &&& name.contains('\0') ==> name_problem(name) == Some(
                    "name must not contain NUL bytes"@,
                )
                &&& !name.contains('\0') && (exists|i: int|
                    0 <= i < name.len() && !is_name_char(#[trigger] name[i])) ==> name_problem(name)
                    == Some(
                    "name must contain only ASCII letters, digits, '.', '_', or '-'"@,
                )
            }
        },
        name_problem(seq!['.']) == Some("name must map to exactly one child path"@),
        name_problem(seq!['.', '.']) == Some("name must map to exactly one child path"@),
{
    let dot = seq!['.'];
    let dots = seq!['.', '.'];
    lemma_names_hold_only_plain_characters(dot);
    lemma_names_hold_only_plain_characters(dots);
    assert(is_name_char('.'));
    assert forall|i: int| 0 <= i < dots.len() implies dots[i] == '.' by {}
}

} // verus!
