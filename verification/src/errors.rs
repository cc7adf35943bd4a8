//! What can go wrong while git worktrees are managed.

use vstd::prelude::*;
use vstd::string::*;

use crate::encoding::{debug_path, debug_text, path_for_debug, text_for_debug};
use crate::text::{concat2, concat3, concat4, concat6};

verus! {

/// How a process ended.
pub struct ExitStatus {
    /// The exit code, where the process was not ended by a signal.
    pub code: Option<i32>,
    /// The status in words.
    pub text: String,
}

/// A failed call into the file system or the operating system.
pub struct IoFailure {
    /// The call failed because something does not exist.
    pub not_found: bool,
    /// The failure in words.
    pub text: String,
}

/// Errors returned while managing git worktrees.
pub enum GitToolingError {
    /// A git command ended with a failure.
    GitCommand { command: String, status: ExitStatus, stderr: String },
    /// A git command wrote something that is no text.
    GitOutputUtf8 { command: String },
    /// The path is in no repository.
    NotAGitRepository { path: String },
    /// The name cannot be that of a managed worktree.
    InvalidWorktreeName { name: String, reason: String },
    /// The path is outside the directory of the managed worktrees.
    ManagedWorktreePathEscapes { path: String, base: String },
    /// The worktree belongs to another repository.
    WorktreeRepositoryMismatch {
        path: String,
        expected_common_dir: String,
        actual_common_dir: String,
    },
    /// The path does not start at the repository root.
    NonRelativePath { path: String },
    /// The path leaves the repository.
    PathEscapesRepository { path: String },
    /// A path was expected below another one.
    PathPrefix,
    /// A directory could not be walked; the failure in words.
    Walkdir(String),
    /// A call into the file system or the operating system failed; the failure in words.
    Io(String),
}

/// An exit status, in specifications.
pub struct StatusView {
    pub code: Option<i32>,
    pub text: Seq<char>,
}

/// A failed call, in specifications.
pub struct IoFailureView {
    pub not_found: bool,
    pub text: Seq<char>,
}

/// A git error, in specifications.
pub enum GitErrorView {
    GitCommand { command: Seq<char>, status: StatusView, stderr: Seq<char> },
    GitOutputUtf8 { command: Seq<char> },
    NotAGitRepository { path: Seq<char> },
    InvalidWorktreeName { name: Seq<char>, reason: Seq<char> },
    ManagedWorktreePathEscapes { path: Seq<char>, base: Seq<char> },
    WorktreeRepositoryMismatch {
        path: Seq<char>,
        expected_common_dir: Seq<char>,
        actual_common_dir: Seq<char>,
    },
    NonRelativePath { path: Seq<char> },
    PathEscapesRepository { path: Seq<char> },
    PathPrefix,
    Walkdir(Seq<char>),
    Io(Seq<char>),
}

impl DeepView for ExitStatus {
    type V = StatusView;

    open spec fn deep_view(&self) -> StatusView {
        StatusView { code: self.code, text: self.text@ }
    }
}

impl DeepView for IoFailure {
    type V = IoFailureView;

    open spec fn deep_view(&self) -> IoFailureView {
        IoFailureView { not_found: self.not_found, text: self.text@ }
    }
}

impl DeepView for GitToolingError {
    type V = GitErrorView;

    open spec fn deep_view(&self) -> GitErrorView {
        match self {
            GitToolingError::GitCommand { command, status, stderr } => GitErrorView::GitCommand {
                command: command@,
                status: status.deep_view(),
                stderr: stderr@,
            },
            GitToolingError::GitOutputUtf8 { command } => GitErrorView::GitOutputUtf8 {
                command: command@,
            },
            GitToolingError::NotAGitRepository { path } => GitErrorView::NotAGitRepository {
                path: path@,
            },
            GitToolingError::InvalidWorktreeName { name, reason } => {
                GitErrorView::InvalidWorktreeName { name: name@, reason: reason@ }
            },
            GitToolingError::ManagedWorktreePathEscapes { path, base } => {
                GitErrorView::ManagedWorktreePathEscapes { path: path@, base: base@ }
            },
            GitToolingError::WorktreeRepositoryMismatch {
                path,
                expected_common_dir,
                actual_common_dir,
            } => GitErrorView::WorktreeRepositoryMismatch {
                path: path@,
                expected_common_dir: expected_common_dir@,
                actual_common_dir: actual_common_dir@,
            },
            GitToolingError::NonRelativePath { path } => GitErrorView::NonRelativePath {
                path: path@,
            },
            GitToolingError::PathEscapesRepository { path } => {
                GitErrorView::PathEscapesRepository { path: path@ }
            },
            GitToolingError::PathPrefix => GitErrorView::PathPrefix,
            GitToolingError::Walkdir(text) => GitErrorView::Walkdir(text@),
            GitToolingError::Io(text) => GitErrorView::Io(text@),
        }
    }
}

/// What is said of an error.
pub open spec fn git_error_message(error: GitErrorView) -> Seq<char> {
    match error {
        GitErrorView::GitCommand { command, status, stderr } => "git command `"@ + command
            + "` failed with status "@ + status.text + ": "@ + stderr,
        GitErrorView::GitOutputUtf8 { command } => "git command `"@ + command
            + "` produced non-UTF-8 output"@,
        GitErrorView::NotAGitRepository { path } => debug_path(path) + " is not a git repository"@,
        GitErrorView::InvalidWorktreeName { name, reason } => "invalid managed worktree name "@
            + debug_text(name) + ": "@ + reason,
        GitErrorView::ManagedWorktreePathEscapes { path, base } => "path "@ + debug_path(path)
            + " escapes managed worktree directory "@ + debug_path(base),
        GitErrorView::WorktreeRepositoryMismatch { path, expected_common_dir, actual_common_dir } =>
        "worktree "@ + debug_path(path) + " belongs to git common dir "@ + debug_path(
            actual_common_dir,
        ) + ", expected "@ + debug_path(expected_common_dir),
        GitErrorView::NonRelativePath { path } => "path "@ + debug_path(path)
            + " must be relative to the repository root"@,
        GitErrorView::PathEscapesRepository { path } => "path "@ + debug_path(path)
            + " escapes the repository root"@,
        GitErrorView::PathPrefix => "failed to process path inside worktree"@,
        GitErrorView::Walkdir(text) => text,
        GitErrorView::Io(text) => text,
    }
}

impl GitToolingError {
    /// The error in words.
    pub fn message(&self) -> (text: String)
        ensures
            text@ == git_error_message(self.deep_view()),
    {
        match self {
            GitToolingError::GitCommand { command, status, stderr } => concat6(
                "git command `",
                command.as_str(),
                "` failed with status ",
                status.text.as_str(),
                ": ",
                stderr.as_str(),
            ),
            GitToolingError::GitOutputUtf8 { command } => concat3(
                "git command `",
                command.as_str(),
                "` produced non-UTF-8 output",
            ),
            GitToolingError::NotAGitRepository { path } => concat2(
                path_for_debug(path.as_str()).as_str(),
                " is not a git repository",
            ),
            GitToolingError::InvalidWorktreeName { name, reason } => concat4(
                "invalid managed worktree name ",
                text_for_debug(name.as_str()).as_str(),
                ": ",
                reason.as_str(),
            ),
            GitToolingError::ManagedWorktreePathEscapes { path, base } => concat4(
                "path ",
                path_for_debug(path.as_str()).as_str(),
                " escapes managed worktree directory ",
                path_for_debug(base.as_str()).as_str(),
            ),
            GitToolingError::WorktreeRepositoryMismatch {
                path,
                expected_common_dir,
                actual_common_dir,
            } => concat6(
                "worktree ",
                path_for_debug(path.as_str()).as_str(),
                " belongs to git common dir ",
                path_for_debug(actual_common_dir.as_str()).as_str(),
                ", expected ",
                path_for_debug(expected_common_dir.as_str()).as_str(),
            ),
            GitToolingError::NonRelativePath { path } => concat3(
                "path ",
                path_for_debug(path.as_str()).as_str(),
                " must be relative to the repository root",
            ),
            GitToolingError::PathEscapesRepository { path } => concat3(
                "path ",
                path_for_debug(path.as_str()).as_str(),
                " escapes the repository root",
            ),
            GitToolingError::PathPrefix => "failed to process path inside worktree".to_owned(),
            GitToolingError::Walkdir(text) => text.clone(),
            GitToolingError::Io(text) => text.clone(),
        }
    }
}

/// An error of the file system or the operating system, as a git error.
pub fn io_error(failure: &IoFailure) -> (error: GitToolingError)
    ensures
        error.deep_view() == GitErrorView::Io(failure.text@),
{
    GitToolingError::Io(failure.text.clone())
}

/// What is said of an error holds everything that is known of it, in these words.
pub proof fn lemma_errors_say_what_went_wrong(
    command: Seq<char>,
    status: StatusView,
    text: Seq<char>,
    path: Seq<char>,
    other: Seq<char>,
    third: Seq<char>,
)
    ensures
        git_error_message(GitErrorView::GitCommand { command, status, stderr: text })
            == "git command `"@ + command + "` failed with status "@ + status.text + ": "@ + text,
        git_error_message(GitErrorView::GitOutputUtf8 { command }) == "git command `"@ + command
            + "` produced non-UTF-8 output"@,
        git_error_message(GitErrorView::NotAGitRepository { path }) == debug_path(path)
            + " is not a git repository"@,
        git_error_message(GitErrorView::InvalidWorktreeName { name: path, reason: text })
            == "invalid managed worktree name "@ + debug_text(path) + ": "@ + text,
        git_error_message(GitErrorView::ManagedWorktreePathEscapes { path, base: other })
            == "path "@ + debug_path(path) + " escapes managed worktree directory "@ + debug_path(
            other,
        ),
        git_error_message(
            GitErrorView::WorktreeRepositoryMismatch {
                path,
                expected_common_dir: other,
                actual_common_dir: third,
            },
        ) == "worktree "@ + debug_path(path) + " belongs to git common dir "@ + debug_path(third)
            + ", expected "@ + debug_path(other),
        git_error_message(GitErrorView::NonRelativePath { path }) == "path "@ + debug_path(path)
            + " must be relative to the repository root"@,
        git_error_message(GitErrorView::PathEscapesRepository { path }) == "path "@ + debug_path(
            path,
        ) + " escapes the repository root"@,
        git_error_message(GitErrorView::PathPrefix) == "failed to process path inside worktree"@,
        git_error_message(GitErrorView::Walkdir(text)) == text,
        git_error_message(GitErrorView::Io(text)) == text,
{
}

} // verus!
