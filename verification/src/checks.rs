//! The steps that the worktree tools share.

use vstd::prelude::*;
use vstd::string::*;

use crate::bounds::{
    git_error, git_error_view, model_error, worktree_model_error, CallErrorView, FunctionCallError,
};
use crate::environment::{SessionSettingsUpdate, UpdateView};
use crate::errors::{GitErrorView, GitToolingError};
use crate::managed::{ManagedView, ManagedWorktree};
use crate::metadata::{
    metadata_content, metadata_path, metadata_text, worktree_metadata_path, MetadataView,
    WorktreeMetadata,
};
use crate::paths::{
    is_absolute, is_absolute_path, is_same_path, join_path, joined_path, path_below,
    path_starts_with, rendered_path, same_path, starts_with, strip_prefix, tidied, tidy,
};
use crate::progress::{Progress, Step};
use crate::session::{
    result_view, ActiveView, ActiveWorktree, ActiveWorktreeOwnership, BlockingOutcome,
    BlockingView, MetadataRead, MetadataReadView, OwnershipView, ToolAnswer, ToolAsk, ToolProgress,
    ToolReply, ToolRequest, ToolStep,
};
use crate::text::{concat2, concat3, concat4, concat5, concat6};
use crate::worktree::{managed_dir, managed_worktrees_dir, InfoView, WorktreeInfo};

verus! {

/// What an operation on a repository comes to, for the tool that handed it to another task.
pub open spec fn git_outcome<V>(outcome: BlockingView<Result<V, GitErrorView>>) -> Result<
    V,
    CallErrorView,
> {
    match outcome {
        BlockingView::JoinFailed(problem) => Err(
            model_error("worktree operation failed to join blocking task: "@ + problem),
        ),
        BlockingView::Finished(Err(error)) => Err(git_error_view(error)),
        BlockingView::Finished(Ok(value)) => Ok(value),
    }
}

/// The value of an operation on a repository, or the error that the model is told.
pub fn git_blocking<'a, T: DeepView>(
    outcome: &'a BlockingOutcome<Result<T, GitToolingError>>,
) -> (value: Result<&'a T, FunctionCallError>)
    ensures
        match value {
            Ok(value) => git_outcome(crate::session::outcome_view(*outcome)) == Ok::<
                T::V,
                CallErrorView,
            >(value.deep_view()),
            Err(error) => git_outcome(crate::session::outcome_view(*outcome)) == Err::<
                T::V,
                CallErrorView,
            >(error.deep_view()),
        },
{
    match outcome {
        BlockingOutcome::JoinFailed(problem) => Err(
            worktree_model_error(
                concat2(
                    "worktree operation failed to join blocking task: ",
                    problem.as_str(),
                ).as_str(),
            ),
        ),
        BlockingOutcome::Finished(Err(error)) => Err(git_error(error)),
        BlockingOutcome::Finished(Ok(value)) => Ok(value),
    }
}

/// What inspecting a checkout comes to.
pub open spec fn inspected_step(path: Seq<char>, answers: Seq<ToolAnswer>, at: int) -> ToolStep<
    InfoView,
> {
    if 0 <= at < answers.len() && answers[at] is Inspected {
        match git_outcome(answers[at]->Inspected_0) {
            Ok(info) => Step::Done(info, at + 1),
            Err(error) => Step::Failed(error, at + 1),
        }
    } else {
        Step::Ask(ToolAsk::Inspect(path))
    }
}

/// Inspects the checkout that holds `path`.
pub fn inspect_worktree_blocking(path: &str, replies: &Vec<ToolReply>, at: usize) -> (progress:
    ToolProgress<WorktreeInfo>)
    ensures
        progress.deep_view() == inspected_step(path@, replies.deep_view(), at as int),
{
    if at < replies.len() {
        assert(replies.deep_view()[at as int] == replies[at as int].deep_view());
        if let ToolReply::Inspected(outcome) = &replies[at] {
            return match git_blocking(outcome) {
                Ok(info) => Progress::Done(info.copy(), at + 1),
                Err(error) => Progress::Failed(error, at + 1),
            };
        }
    }
    Progress::Ask(ToolRequest::Inspect(path.to_owned()))
}

/// What inspecting a place comes to that may be in no repository.
pub open spec fn inspected_optional_step(
    path: Seq<char>,
    answers: Seq<ToolAnswer>,
    at: int,
) -> ToolStep<Option<InfoView>> {
    if 0 <= at < answers.len() && answers[at] is Inspected {
        match answers[at]->Inspected_0 {
            BlockingView::Finished(Err(GitErrorView::NotAGitRepository { path: _ })) => Step::Done(
                None,
                at + 1,
            ),
            outcome => match git_outcome(outcome) {
                Ok(info) => Step::Done(Some(info), at + 1),
                Err(error) => Step::Failed(error, at + 1),
            },
        }
    } else {
        Step::Ask(ToolAsk::Inspect(path))
    }
}

/// Inspects the checkout that holds `path`, where one does.
pub fn inspect_optional_worktree_blocking(
    path: &str,
    replies: &Vec<ToolReply>,
    at: usize,
) -> (progress: ToolProgress<Option<WorktreeInfo>>)
    ensures
        progress.deep_view() == inspected_optional_step(path@, replies.deep_view(), at as int),
{
    if at < replies.len() {
        assert(replies.deep_view()[at as int] == replies[at as int].deep_view());
        if let ToolReply::Inspected(outcome) = &replies[at] {
            if let BlockingOutcome::Finished(Err(GitToolingError::NotAGitRepository { .. })) =
                outcome {
                return Progress::Done(None, at + 1);
            }
            return match git_blocking(outcome) {
                Ok(info) => Progress::Done(Some(info.copy()), at + 1),
                Err(error) => Progress::Failed(error, at + 1),
            };
        }
    }
    Progress::Ask(ToolRequest::Inspect(path.to_owned()))
}

/// What creating or reusing a managed worktree comes to.
pub open spec fn managed_step(
    repository_path: Seq<char>,
    name: Seq<char>,
    answers: Seq<ToolAnswer>,
    at: int,
) -> ToolStep<ManagedView> {
    if 0 <= at < answers.len() && answers[at] is Managed {
        match git_outcome(answers[at]->Managed_0) {
            Ok(managed) => Step::Done(managed, at + 1),
            Err(error) => Step::Failed(error, at + 1),
        }
    } else {
        Step::Ask(ToolAsk::CreateManaged { repository_path, name })
    }
}

/// Creates or reuses the managed worktree `name`.
pub fn create_or_reuse_managed_worktree_blocking(
    repository_path: &str,
    name: &str,
    replies: &Vec<ToolReply>,
    at: usize,
) -> (progress: ToolProgress<ManagedWorktree>)
    ensures
        progress.deep_view() == managed_step(
            repository_path@,
            name@,
            replies.deep_view(),
            at as int,
        ),
{
    if at < replies.len() {
        assert(replies.deep_view()[at as int] == replies[at as int].deep_view());
        if let ToolReply::Managed(outcome) = &replies[at] {
            return match git_blocking(outcome) {
                Ok(managed) => Progress::Done(managed.copy(), at + 1),
                Err(error) => Progress::Failed(error, at + 1),
            };
        }
    }
    Progress::Ask(
        ToolRequest::CreateManaged {
            repository_path: repository_path.to_owned(),
            name: name.to_owned(),
        },
    )
}

/// What a removal comes to that was asked for with `ask`.
pub open spec fn removed_step(ask: ToolAsk, answers: Seq<ToolAnswer>, at: int) -> ToolStep<()> {
    if 0 <= at < answers.len() && answers[at] is Removed {
        match git_outcome(answers[at]->Removed_0) {
            Ok(_) => Step::Done((), at + 1),
            Err(error) => Step::Failed(error, at + 1),
        }
    } else {
        Step::Ask(ask)
    }
}

fn removal(request: ToolRequest, replies: &Vec<ToolReply>, at: usize) -> (progress: ToolProgress<
    (),
>)
    ensures
        progress.deep_view() == removed_step(request.deep_view(), replies.deep_view(), at as int),
{
    if at < replies.len() {
        assert(replies.deep_view()[at as int] == replies[at as int].deep_view());
        if let ToolReply::Removed(outcome) = &replies[at] {
            return match git_blocking(outcome) {
                Ok(_) => Progress::Done((), at + 1),
                Err(error) => Progress::Failed(error, at + 1),
            };
        }
    }
    Progress::Ask(request)
}

/// Removes the managed worktree at `worktree_path`.
pub fn remove_managed_worktree_blocking(
    repository_path: &str,
    worktree_path: &str,
    replies: &Vec<ToolReply>,
    at: usize,
) -> (progress: ToolProgress<()>)
    ensures
        progress.deep_view() == removed_step(
            (ToolAsk::RemoveManaged {
                repository_path: repository_path@,
                worktree_path: worktree_path@,
            }),
            replies.deep_view(),
            at as int,
        ),
{
    removal(
        ToolRequest::RemoveManaged {
            repository_path: repository_path.to_owned(),
            worktree_path: worktree_path.to_owned(),
        },
        replies,
        at,
    )
}

/// Takes back the new worktree at `worktree_path`, and the branch that was created with it.
pub fn remove_created_managed_worktree_blocking(
    repository_path: &str,
    worktree_path: &str,
    created_branch: &Option<String>,
    replies: &Vec<ToolReply>,
    at: usize,
) -> (progress: ToolProgress<()>)
    ensures
        progress.deep_view() == removed_step(
            (ToolAsk::RemoveCreated {
                repository_path: repository_path@,
                worktree_path: worktree_path@,
                created_branch: created_branch.deep_view(),
            }),
            replies.deep_view(),
            at as int,
        ),
{
    removal(
        ToolRequest::RemoveCreated {
            repository_path: repository_path.to_owned(),
            worktree_path: worktree_path.to_owned(),
            created_branch: created_branch.clone(),
        },
        replies,
        at,
    )
}

/// What resolving a path comes to, where it has to be there.
pub open spec fn canonical_step(path: Seq<char>, answers: Seq<ToolAnswer>, at: int) -> ToolStep<
    Seq<char>,
> {
    if 0 <= at < answers.len() && answers[at] is Canonical {
        match answers[at]->Canonical_0 {
            Ok(canonical) => Step::Done(canonical, at + 1),
            Err(problem) => Step::Failed(
                model_error(
                    "failed to canonicalize worktree path `"@ + path + "`: "@ + problem,
                ),
                at + 1,
            ),
        }
    } else {
        Step::Ask(ToolAsk::Canonicalize(path))
    }
}

/// Resolves `path`, which has to be there.
pub fn canonicalize_for_worktree_check(path: &str, replies: &Vec<ToolReply>, at: usize) -> (progress:
    ToolProgress<String>)
    ensures
        progress.deep_view() == canonical_step(path@, replies.deep_view(), at as int),
{
    if at < replies.len() {
        assert(replies.deep_view()[at as int] == replies[at as int].deep_view());
        if let ToolReply::Canonical(result) = &replies[at] {
            return match result {
                Ok(canonical) => Progress::Done(canonical.clone(), at + 1),
                Err(problem) => Progress::Failed(
                    worktree_model_error(
                        concat4(
                            "failed to canonicalize worktree path `",
                            path,
                            "`: ",
                            problem.as_str(),
                        ).as_str(),
                    ),
                    at + 1,
                ),
            };
        }
    }
    Progress::Ask(ToolRequest::Canonicalize(path.to_owned()))
}

/// What resolving a path comes to, where it may be missing.
pub open spec fn resolved_step(path: Seq<char>, answers: Seq<ToolAnswer>, at: int) -> ToolStep<
    Option<Seq<char>>,
> {
    if 0 <= at < answers.len() && answers[at] is Canonical {
        match answers[at]->Canonical_0 {
            Ok(canonical) => Step::Done(Some(canonical), at + 1),
            Err(_) => Step::Done(None, at + 1),
        }
    } else {
        Step::Ask(ToolAsk::Canonicalize(path))
    }
}

/// Resolves `path`, where it is there.
pub fn resolve_path(path: &str, replies: &Vec<ToolReply>, at: usize) -> (progress: ToolProgress<
    Option<String>,
>)
    ensures
        progress.deep_view() == resolved_step(path@, replies.deep_view(), at as int),
{
    if at < replies.len() {
        assert(replies.deep_view()[at as int] == replies[at as int].deep_view());
        if let ToolReply::Canonical(result) = &replies[at] {
            return match result {
                Ok(canonical) => Progress::Done(Some(canonical.clone()), at + 1),
                Err(_) => Progress::Done(None, at + 1),
            };
        }
    }
    Progress::Ask(ToolRequest::Canonicalize(path.to_owned()))
}

/// An absolute path, written in the shortest way; another path ends the turn.
pub open spec fn absolute_or_fatal(path: Seq<char>, field: Seq<char>) -> Result<
    Seq<char>,
    CallErrorView,
> {
    if is_absolute_path(path) {
        Ok(tidied(path))
    } else {
        Err(
            CallErrorView::Fatal(
                field + " is not absolute: "@ + "path is not absolute: "@ + path,
            ),
        )
    }
}

/// The absolute path `path`, which `field` stands for in the error.
pub fn absolute_path(path: &str, field: &str) -> (absolute: Result<String, FunctionCallError>)
    ensures
        result_view(absolute) == absolute_or_fatal(path@, field@),
{
    if is_absolute(path) {
        Ok(tidy(path))
    } else {
        Err(
            FunctionCallError::Fatal(
                concat4(field, " is not absolute: ", "path is not absolute: ", path),
            ),
        )
    }
}

/// The result of a step that needs no answer.
pub open spec fn settled<T>(result: Result<T, CallErrorView>, at: int) -> ToolStep<T> {
    match result {
        Ok(value) => Step::Done(value, at),
        Err(error) => Step::Failed(error, at),
    }
}

/// The path that a caller means: a relative one starts at the current directory.
pub fn resolve_candidate_path(current_cwd: &str, path: &str) -> (candidate: String)
    ensures
        candidate@ == joined_path(current_cwd@, path@),
{
    join_path(current_cwd, path)
}

/// The data beside a managed worktree, where there is any; its origin has to be an absolute path.
pub open spec fn read_outcome(path: Seq<char>, read: BlockingView<MetadataReadView>) -> Result<
    Option<MetadataView>,
    CallErrorView,
> {
    match read {
        BlockingView::JoinFailed(problem) => Err(
            model_error("worktree metadata read failed to join blocking task: "@ + problem),
        ),
        BlockingView::Finished(MetadataReadView::Missing) => Ok(None),
        BlockingView::Finished(MetadataReadView::Unreadable(problem)) => Err(
            model_error("failed to read managed worktree metadata: "@ + problem),
        ),
        BlockingView::Finished(MetadataReadView::Malformed(problem)) => Err(
            model_error(
                "failed to parse managed worktree metadata `"@ + path + "`: "@ + problem,
            ),
        ),
        BlockingView::Finished(MetadataReadView::Present(metadata)) => if is_absolute_path(
            metadata.original_cwd,
        ) {
            Ok(Some(metadata))
        } else {
            Err(
                model_error(
                    "managed worktree metadata contains invalid original cwd: "@
                        + "path is not absolute: "@ + metadata.original_cwd,
                ),
            )
        },
    }
}

/// What reading the data beside a managed worktree comes to.
pub open spec fn read_step(
    common_dir: Seq<char>,
    name: Seq<char>,
    answers: Seq<ToolAnswer>,
    at: int,
) -> ToolStep<Option<MetadataView>> {
    if 0 <= at < answers.len() && answers[at] is MetadataRead {
        settled(
            read_outcome(metadata_path(common_dir, name), answers[at]->MetadataRead_0),
            at + 1,
        )
    } else {
        Step::Ask(ToolAsk::ReadMetadata(metadata_path(common_dir, name)))
    }
}

fn metadata_of(path: &str, read: &MetadataRead) -> (metadata: Result<
    Option<WorktreeMetadata>,
    FunctionCallError,
>)
    ensures
        result_view(metadata) == read_outcome(path@, BlockingView::Finished(read.deep_view())),
{
    match read {
        MetadataRead::Missing => Ok(None),
        MetadataRead::Unreadable(problem) => Err(
            worktree_model_error(
                concat2("failed to read managed worktree metadata: ", problem.as_str()).as_str(),
            ),
        ),
        MetadataRead::Malformed(problem) => Err(
            worktree_model_error(
                concat4(
                    "failed to parse managed worktree metadata `",
                    path,
                    "`: ",
                    problem.as_str(),
                ).as_str(),
            ),
        ),
        MetadataRead::Present(metadata) => {
            if is_absolute(metadata.original_cwd.as_str()) {
                Ok(Some(metadata.copy()))
            } else {
                Err(
                    worktree_model_error(
                        concat3(
                            "managed worktree metadata contains invalid original cwd: ",
                            "path is not absolute: ",
                            metadata.original_cwd.as_str(),
                        ).as_str(),
                    ),
                )
            }
        },
    }
}

/// Reads the data beside the managed worktree `name`.
pub fn read_worktree_metadata_blocking(
    common_dir: &str,
    name: &str,
    replies: &Vec<ToolReply>,
    at: usize,
) -> (progress: ToolProgress<Option<WorktreeMetadata>>)
    ensures
        progress.deep_view() == read_step(common_dir@, name@, replies.deep_view(), at as int),
{
    let path: String = worktree_metadata_path(common_dir, name);
    if at < replies.len() {
        assert(replies.deep_view()[at as int] == replies[at as int].deep_view());
        if let ToolReply::MetadataRead(outcome) = &replies[at] {
            return match outcome {
                BlockingOutcome::JoinFailed(problem) => Progress::Failed(
                    worktree_model_error(
                        concat2(
                            "worktree metadata read failed to join blocking task: ",
                            problem.as_str(),
                        ).as_str(),
                    ),
                    at + 1,
                ),
                BlockingOutcome::Finished(read) => match metadata_of(path.as_str(), read) {
                    Ok(metadata) => Progress::Done(metadata, at + 1),
                    Err(error) => Progress::Failed(error, at + 1),
                },
            };
        }
    }
    Progress::Ask(ToolRequest::ReadMetadata(path))
}

/// What writing the data beside a managed worktree comes to.
pub open spec fn write_outcome(written: BlockingView<Result<(), Seq<char>>>) -> Result<
    (),
    CallErrorView,
> {
    match written {
        BlockingView::JoinFailed(problem) => Err(
            model_error("worktree metadata write failed to join blocking task: "@ + problem),
        ),
        BlockingView::Finished(Err(problem)) => Err(
            model_error("failed to write managed worktree metadata: "@ + problem),
        ),
        BlockingView::Finished(Ok(_)) => Ok(()),
    }
}

/// What keeping data beside a managed worktree comes to.
pub open spec fn write_step(
    common_dir: Seq<char>,
    name: Seq<char>,
    metadata: MetadataView,
    answers: Seq<ToolAnswer>,
    at: int,
) -> ToolStep<()> {
    if 0 <= at < answers.len() && answers[at] is MetadataWritten {
        settled(write_outcome(answers[at]->MetadataWritten_0), at + 1)
    } else {
        Step::Ask(
            ToolAsk::WriteMetadata {
                path: metadata_path(common_dir, name),
                content: metadata_text(metadata),
            },
        )
    }
}

/// Keeps where the session `owner_thread_id` came from when it created the worktree `name`.
pub fn write_worktree_metadata_blocking(
    common_dir: &str,
    name: &str,
    original_cwd: &str,
    owner_thread_id: &str,
    replies: &Vec<ToolReply>,
    at: usize,
) -> (progress: ToolProgress<()>)
    ensures
        progress.deep_view() == write_step(
            common_dir@,
            name@,
            (MetadataView {
                original_cwd: original_cwd@,
                owner_thread_id: Some(owner_thread_id@),
            }),
            replies.deep_view(),
            at as int,
        ),
{
    let metadata: WorktreeMetadata = WorktreeMetadata {
        original_cwd: original_cwd.to_owned(),
        owner_thread_id: Some(owner_thread_id.to_owned()),
    };
    if at < replies.len() {
        assert(replies.deep_view()[at as int] == replies[at as int].deep_view());
        if let ToolReply::MetadataWritten(outcome) = &replies[at] {
            return match outcome {
                BlockingOutcome::JoinFailed(problem) => Progress::Failed(
                    worktree_model_error(
                        concat2(
                            "worktree metadata write failed to join blocking task: ",
                            problem.as_str(),
                        ).as_str(),
                    ),
                    at + 1,
                ),
                BlockingOutcome::Finished(Err(problem)) => Progress::Failed(
                    worktree_model_error(
                        concat2(
                            "failed to write managed worktree metadata: ",
                            problem.as_str(),
                        ).as_str(),
                    ),
                    at + 1,
                ),
                BlockingOutcome::Finished(Ok(_)) => Progress::Done((), at + 1),
            };
        }
    }
    Progress::Ask(
        ToolRequest::WriteMetadata {
            path: worktree_metadata_path(common_dir, name),
            content: metadata_content(&metadata),
        },
    )
}

/// What finding the directory in a worktree comes to that stands for the current directory in the
/// original checkout.
pub open spec fn anticipated_step(
    original_repo_root: Seq<char>,
    original_cwd: Seq<char>,
    worktree_path: Seq<char>,
    answers: Seq<ToolAnswer>,
    at: int,
) -> ToolStep<Seq<char>> {
    match canonical_step(original_repo_root, answers, at) {
        Step::Ask(ask) => Step::Ask(ask),
        Step::Failed(error, used) => Step::Failed(error, used),
        Step::Done(root, used) => match canonical_step(original_cwd, answers, used) {
            Step::Ask(ask) => Step::Ask(ask),
            Step::Failed(error, used) => Step::Failed(error, used),
            Step::Done(cwd, used) => match path_below(cwd, root) {
                None => Step::Failed(
                    model_error(
                        "failed to resolve original cwd `"@ + cwd
                            + "` relative to repository root `"@ + root + "`: "@
                            + "prefix not found"@,
                    ),
                    used,
                ),
                Some(rest) => settled(
                    absolute_or_fatal(
                        joined_path(worktree_path, rendered_path(rest)),
                        "worktree cwd"@,
                    ),
                    used,
                ),
            },
        },
    }
}

/// Finds the directory in the worktree at `worktree_path` that stands for `original_cwd`.
pub fn anticipated_worktree_cwd(
    original_repo_root: &str,
    original_cwd: &str,
    worktree_path: &str,
    replies: &Vec<ToolReply>,
    at: usize,
) -> (progress: ToolProgress<String>)
    ensures
        progress.deep_view() == anticipated_step(
            original_repo_root@,
            original_cwd@,
            worktree_path@,
            replies.deep_view(),
            at as int,
        ),
{
    let (root, at): (String, usize) = match canonicalize_for_worktree_check(
        original_repo_root,
        replies,
        at,
    ) {
        Progress::Ask(ask) => return Progress::Ask(ask),
        Progress::Failed(error, used) => return Progress::Failed(error, used),
        Progress::Done(root, used) => (root, used),
    };
    let (cwd, at): (String, usize) = match canonicalize_for_worktree_check(
        original_cwd,
        replies,
        at,
    ) {
        Progress::Ask(ask) => return Progress::Ask(ask),
        Progress::Failed(error, used) => return Progress::Failed(error, used),
        Progress::Done(cwd, used) => (cwd, used),
    };
    match strip_prefix(cwd.as_str(), root.as_str()) {
        None => Progress::Failed(
            worktree_model_error(
                concat6(
                    "failed to resolve original cwd `",
                    cwd.as_str(),
                    "` relative to repository root `",
                    root.as_str(),
                    "`: ",
                    "prefix not found",
                ).as_str(),
            ),
            at,
        ),
        Some(rest) => match absolute_path(
            join_path(worktree_path, rest.as_str()).as_str(),
            "worktree cwd",
        ) {
            Ok(path) => Progress::Done(path, at),
            Err(error) => Progress::Failed(error, at),
        },
    }
}

/// What finding the directory to enter in a worktree comes to: the one that stands for the current
/// directory, where it is there and lies inside the worktree with symbolic links resolved, and the
/// root of the worktree otherwise.
pub open spec fn matching_step(
    original_repo_root: Seq<char>,
    original_cwd: Seq<char>,
    worktree_path: Seq<char>,
    answers: Seq<ToolAnswer>,
    at: int,
) -> ToolStep<Seq<char>> {
    match anticipated_step(original_repo_root, original_cwd, worktree_path, answers, at) {
        Step::Ask(ask) => Step::Ask(ask),
        Step::Failed(error, used) => Step::Failed(error, used),
        Step::Done(candidate, used) => match resolved_step(candidate, answers, used) {
            Step::Ask(ask) => Step::Ask(ask),
            Step::Failed(error, used) => Step::Failed(error, used),
            Step::Done(None, used) => settled(
                absolute_or_fatal(worktree_path, "worktree cwd"@),
                used,
            ),
            Step::Done(Some(canonical_candidate), used) => match canonical_step(
                worktree_path,
                answers,
                used,
            ) {
                Step::Ask(ask) => Step::Ask(ask),
                Step::Failed(error, used) => Step::Failed(error, used),
                Step::Done(canonical_worktree, used) => if path_starts_with(
                    canonical_candidate,
                    canonical_worktree,
                ) {
                    settled(absolute_or_fatal(candidate, "worktree cwd"@), used)
                } else {
                    settled(absolute_or_fatal(worktree_path, "worktree cwd"@), used)
                },
            },
        },
    }
}

fn settle(result: Result<String, FunctionCallError>, at: usize) -> (progress: ToolProgress<String>)
    ensures
        progress.deep_view() == settled(result_view(result), at as int),
{
    match result {
        Ok(value) => Progress::Done(value, at),
        Err(error) => Progress::Failed(error, at),
    }
}

/// Finds the directory to enter in the worktree at `worktree_path`.
pub fn matching_worktree_cwd(
    original_repo_root: &str,
    original_cwd: &str,
    worktree_path: &str,
    replies: &Vec<ToolReply>,
    at: usize,
) -> (progress: ToolProgress<String>)
    ensures
        progress.deep_view() == matching_step(
            original_repo_root@,
            original_cwd@,
            worktree_path@,
            replies.deep_view(),
            at as int,
        ),
{
    let (candidate, at): (String, usize) = match anticipated_worktree_cwd(
        original_repo_root,
        original_cwd,
        worktree_path,
        replies,
        at,
    ) {
        Progress::Ask(ask) => return Progress::Ask(ask),
        Progress::Failed(error, used) => return Progress::Failed(error, used),
        Progress::Done(candidate, used) => (candidate, used),
    };
    let (canonical_candidate, at): (String, usize) = match resolve_path(
        candidate.as_str(),
        replies,
        at,
    ) {
        Progress::Ask(ask) => return Progress::Ask(ask),
        Progress::Failed(error, used) => return Progress::Failed(error, used),
        Progress::Done(None, used) => {
            return settle(absolute_path(worktree_path, "worktree cwd"), used);
        },
        Progress::Done(Some(canonical), used) => (canonical, used),
    };
    match canonicalize_for_worktree_check(worktree_path, replies, at) {
        Progress::Ask(ask) => Progress::Ask(ask),
        Progress::Failed(error, used) => Progress::Failed(error, used),
        Progress::Done(canonical_worktree, used) => {
            if starts_with(canonical_candidate.as_str(), canonical_worktree.as_str()) {
                settle(absolute_path(candidate.as_str(), "worktree cwd"), used)
            } else {
                settle(absolute_path(worktree_path, "worktree cwd"), used)
            }
        },
    }
}

/// The error about a path that the session may not write to.
pub open spec fn not_writable(tool_name: Seq<char>, path: Seq<char>) -> CallErrorView {
    model_error(
        tool_name + " requires filesystem write permission for `"@ + path
            + "` before it can change the session workdir; additional permissions or configuration are required"@,
    )
}

/// What checking one path for write permission comes to.
pub open spec fn writable_path_step(
    tool_name: Seq<char>,
    full_disk_write: bool,
    cwd: Seq<char>,
    path: Seq<char>,
    answers: Seq<ToolAnswer>,
    at: int,
) -> ToolStep<()> {
    match canonical_step(path, answers, at) {
        Step::Ask(ask) => Step::Ask(ask),
        Step::Failed(error, used) => Step::Failed(error, used),
        Step::Done(canonical, used) => if full_disk_write {
            Step::Done((), used)
        } else if 0 <= used < answers.len() && answers[used] is Writable {
            if answers[used]->Writable_0 {
                Step::Done((), used + 1)
            } else {
                Step::Failed(not_writable(tool_name, canonical), used + 1)
            }
        } else {
            Step::Ask(ToolAsk::PathWritable { path: canonical, cwd })
        },
    }
}

/// What checking paths for write permission comes to: every one of them has to be writable.
pub open spec fn writable_step(
    tool_name: Seq<char>,
    full_disk_write: bool,
    cwd: Seq<char>,
    paths: Seq<Seq<char>>,
    answers: Seq<ToolAnswer>,
    at: int,
) -> ToolStep<()>
    decreases paths.len(),
{
    if paths.len() == 0 {
        Step::Done((), at)
    } else {
        match writable_path_step(tool_name, full_disk_write, cwd, paths[0], answers, at) {
            Step::Ask(ask) => Step::Ask(ask),
            Step::Failed(error, used) => Step::Failed(error, used),
            Step::Done(_, used) => writable_step(
                tool_name,
                full_disk_write,
                cwd,
                paths.drop_first(),
                answers,
                used,
            ),
        }
    }
}

fn ensure_worktree_path_writable(
    tool_name: &str,
    full_disk_write: bool,
    cwd: &str,
    path: &str,
    replies: &Vec<ToolReply>,
    at: usize,
) -> (progress: ToolProgress<()>)
    ensures
        progress.deep_view() == writable_path_step(
            tool_name@,
            full_disk_write,
            cwd@,
            path@,
            replies.deep_view(),
            at as int,
        ),
{
    let (canonical, at): (String, usize) = match canonicalize_for_worktree_check(
        path,
        replies,
        at,
    ) {
        Progress::Ask(ask) => return Progress::Ask(ask),
        Progress::Failed(error, used) => return Progress::Failed(error, used),
        Progress::Done(canonical, used) => (canonical, used),
    };
    if full_disk_write {
        return Progress::Done((), at);
    }
    if at < replies.len() {
        assert(replies.deep_view()[at as int] == replies[at as int].deep_view());
        if let ToolReply::Writable(is_writable) = &replies[at] {
            return if *is_writable {
                Progress::Done((), at + 1)
            } else {
                Progress::Failed(
                    worktree_model_error(
                        concat4(
                            tool_name,
                            " requires filesystem write permission for `",
                            canonical.as_str(),
                            "` before it can change the session workdir; additional permissions or configuration are required",
                        ).as_str(),
                    ),
                    at + 1,
                )
            };
        }
    }
    Progress::Ask(ToolRequest::PathWritable { path: canonical, cwd: cwd.to_owned() })
}

/// Fails where the session may not write to one of `paths`. What it may write to is worked out from
/// the directory `cwd`.
pub fn ensure_worktree_paths_writable(
    tool_name: &str,
    full_disk_write: bool,
    cwd: &str,
    paths: &Vec<String>,
    replies: &Vec<ToolReply>,
    at: usize,
) -> (progress: ToolProgress<()>)
    ensures
        progress.deep_view() == writable_step(
            tool_name@,
            full_disk_write,
            cwd@,
            paths.deep_view(),
            replies.deep_view(),
            at as int,
        ),
{
    let mut i: usize = 0;
    let mut next: usize = at;
    assert(paths.deep_view().skip(0) =~= paths.deep_view());
    while i < paths.len()
        invariant
            i <= paths.len(),
            writable_step(
                tool_name@,
                full_disk_write,
                cwd@,
                paths.deep_view(),
                replies.deep_view(),
                at as int,
            ) == writable_step(
                tool_name@,
                full_disk_write,
                cwd@,
                paths.deep_view().skip(i as int),
                replies.deep_view(),
                next as int,
            ),
        decreases paths.len() - i,
    {
        proof {
            let rest = paths.deep_view().skip(i as int);
            assert(rest[0] == paths[i as int]@);
            assert(rest.drop_first() =~= paths.deep_view().skip(i + 1));
        }
        match ensure_worktree_path_writable(
            tool_name,
            full_disk_write,
            cwd,
            paths[i].as_str(),
            replies,
            next,
        ) {
            Progress::Ask(ask) => return Progress::Ask(ask),
            Progress::Failed(error, used) => return Progress::Failed(error, used),
            Progress::Done(_, used) => {
                next = used;
            },
        }
        i += 1;
    }
    Progress::Done((), next)
}

/// What checking comes to that the session is still where its active worktree is.
///
/// In an adopted directory the current one has to lie inside it. Of a managed worktree the
/// repository has to be the same as before, the root has to be that of the worktree, and the
/// worktree has to lie under the directory of the managed worktrees.
pub open spec fn still_inside_step(
    active: ActiveView,
    current_cwd: Seq<char>,
    answers: Seq<ToolAnswer>,
    at: int,
) -> ToolStep<()> {
    match active.ownership {
        OwnershipView::Adopted => match canonical_step(current_cwd, answers, at) {
            Step::Ask(ask) => Step::Ask(ask),
            Step::Failed(error, used) => Step::Failed(error, used),
            Step::Done(cwd, used) => match canonical_step(active.worktree_path, answers, used) {
                Step::Ask(ask) => Step::Ask(ask),
                Step::Failed(error, used) => Step::Failed(error, used),
                Step::Done(active_path, used) => if path_starts_with(cwd, active_path) {
                    Step::Done((), used)
                } else {
                    Step::Failed(
                        model_error(
                            "current cwd `"@ + cwd + "` is not inside active adopted workdir `"@
                                + active.worktree_path
                                + "`; refusing to exit stale worktree state"@,
                        ),
                        used,
                    )
                },
            },
        },
        OwnershipView::ManagedByCodex(common_dir) => match inspected_step(
            current_cwd,
            answers,
            at,
        ) {
            Step::Ask(ask) => Step::Ask(ask),
            Step::Failed(error, used) => Step::Failed(error, used),
            Step::Done(info, used) => if !is_same_path(info.common_dir, common_dir) {
                Step::Failed(
                    model_error(
                        "active worktree common git dir changed from `"@ + common_dir + "` to `"@
                            + info.common_dir + "`; refusing to exit automatically"@,
                    ),
                    used,
                )
            } else {
                match canonical_step(info.repo_root, answers, used) {
                    Step::Ask(ask) => Step::Ask(ask),
                    Step::Failed(error, used) => Step::Failed(error, used),
                    Step::Done(root, used) => match canonical_step(
                        active.worktree_path,
                        answers,
                        used,
                    ) {
                        Step::Ask(ask) => Step::Ask(ask),
                        Step::Failed(error, used) => Step::Failed(error, used),
                        Step::Done(active_path, used) => if !is_same_path(root, active_path) {
                            Step::Failed(
                                model_error(
                                    "current cwd `"@ + current_cwd
                                        + "` is not inside active worktree `"@
                                        + active.worktree_path
                                        + "`; refusing to exit stale worktree state"@,
                                ),
                                used,
                            )
                        } else if !path_starts_with(
                            active.worktree_path,
                            managed_dir(common_dir),
                        ) {
                            Step::Failed(
                                model_error(
                                    "active worktree `"@ + active.worktree_path
                                        + "` is not under the managed worktree directory for `"@
                                        + common_dir + "`"@,
                                ),
                                used,
                            )
                        } else {
                            Step::Done((), used)
                        },
                    },
                }
            },
        },
    }
}

fn ensure_inside_adopted(
    active: &ActiveWorktree,
    current_cwd: &str,
    replies: &Vec<ToolReply>,
    at: usize,
) -> (progress: ToolProgress<()>)
    requires
        active.ownership is Adopted,
    ensures
        progress.deep_view() == still_inside_step(
            active.deep_view(),
            current_cwd@,
            replies.deep_view(),
            at as int,
        ),
{
    let (cwd, at): (String, usize) = match canonicalize_for_worktree_check(
        current_cwd,
        replies,
        at,
    ) {
        Progress::Ask(ask) => return Progress::Ask(ask),
        Progress::Failed(error, used) => return Progress::Failed(error, used),
        Progress::Done(cwd, used) => (cwd, used),
    };
    match canonicalize_for_worktree_check(active.worktree_path.as_str(), replies, at) {
        Progress::Ask(ask) => Progress::Ask(ask),
        Progress::Failed(error, used) => Progress::Failed(error, used),
        Progress::Done(active_path, used) => {
            if starts_with(cwd.as_str(), active_path.as_str()) {
                Progress::Done((), used)
            } else {
                Progress::Failed(
                    worktree_model_error(
                        concat5(
                            "current cwd `",
                            cwd.as_str(),
                            "` is not inside active adopted workdir `",
                            active.worktree_path.as_str(),
                            "`; refusing to exit stale worktree state",
                        ).as_str(),
                    ),
                    used,
                )
            }
        },
    }
}

/// Fails where the session has left its active worktree.
pub fn ensure_current_cwd_matches_active_worktree(
    active: &ActiveWorktree,
    current_cwd: &str,
    replies: &Vec<ToolReply>,
    at: usize,
) -> (progress: ToolProgress<()>)
    ensures
        progress.deep_view() == still_inside_step(
            active.deep_view(),
            current_cwd@,
            replies.deep_view(),
            at as int,
        ),
{
    let common_dir: &String = match &active.ownership {
        ActiveWorktreeOwnership::Adopted => {
            return ensure_inside_adopted(active, current_cwd, replies, at);
        },
        ActiveWorktreeOwnership::ManagedByCodex(common_dir) => common_dir,
    };
    let (info, at): (WorktreeInfo, usize) = match inspect_worktree_blocking(
        current_cwd,
        replies,
        at,
    ) {
        Progress::Ask(ask) => return Progress::Ask(ask),
        Progress::Failed(error, used) => return Progress::Failed(error, used),
        Progress::Done(info, used) => (info, used),
    };
    if !same_path(info.common_dir.as_str(), common_dir.as_str()) {
        return Progress::Failed(
            worktree_model_error(
                concat5(
                    "active worktree common git dir changed from `",
                    common_dir.as_str(),
                    "` to `",
                    info.common_dir.as_str(),
                    "`; refusing to exit automatically",
                ).as_str(),
            ),
            at,
        );
    }
    let (root, at): (String, usize) = match canonicalize_for_worktree_check(
        info.repo_root.as_str(),
        replies,
        at,
    ) {
        Progress::Ask(ask) => return Progress::Ask(ask),
        Progress::Failed(error, used) => return Progress::Failed(error, used),
        Progress::Done(root, used) => (root, used),
    };
    let (active_path, at): (String, usize) = match canonicalize_for_worktree_check(
        active.worktree_path.as_str(),
        replies,
        at,
    ) {
        Progress::Ask(ask) => return Progress::Ask(ask),
        Progress::Failed(error, used) => return Progress::Failed(error, used),
        Progress::Done(active_path, used) => (active_path, used),
    };
    if !same_path(root.as_str(), active_path.as_str()) {
        return Progress::Failed(
            worktree_model_error(
                concat5(
                    "current cwd `",
                    current_cwd,
                    "` is not inside active worktree `",
                    active.worktree_path.as_str(),
                    "`; refusing to exit stale worktree state",
                ).as_str(),
            ),
            at,
        );
    }
    let managed_base: String = managed_worktrees_dir(common_dir.as_str());
    if !starts_with(active.worktree_path.as_str(), managed_base.as_str()) {
        return Progress::Failed(
            worktree_model_error(
                concat5(
                    "active worktree `",
                    active.worktree_path.as_str(),
                    "` is not under the managed worktree directory for `",
                    common_dir.as_str(),
                    "`",
                ).as_str(),
            ),
            at,
        );
    }
    Progress::Done((), at)
}

/// What a request comes to whose answer says only that it was done.
pub open spec fn noted_step(
    ask: ToolAsk,
    done: ToolAnswer,
    answers: Seq<ToolAnswer>,
    at: int,
) -> ToolStep<()> {
    if 0 <= at < answers.len() && answers[at] == done {
        Step::Done((), at + 1)
    } else {
        Step::Ask(ask)
    }
}

/// Holds the lock on the settings of the thread.
pub fn acquire_settings_lock(replies: &Vec<ToolReply>, at: usize) -> (progress: ToolProgress<()>)
    ensures
        progress.deep_view() == noted_step(
            ToolAsk::LockSettings,
            ToolAnswer::Locked,
            replies.deep_view(),
            at as int,
        ),
{
    if at < replies.len() {
        assert(replies.deep_view()[at as int] == replies[at as int].deep_view());
        if let ToolReply::Locked = &replies[at] {
            return Progress::Done((), at + 1);
        }
    }
    Progress::Ask(ToolRequest::LockSettings)
}

/// Keeps the working directory with the thread.
pub fn persist_cwd_metadata(cwd: &str, replies: &Vec<ToolReply>, at: usize) -> (progress:
    ToolProgress<()>)
    ensures
        progress.deep_view() == noted_step(
            ToolAsk::PersistCwd(cwd@),
            ToolAnswer::CwdPersisted,
            replies.deep_view(),
            at as int,
        ),
{
    if at < replies.len() {
        assert(replies.deep_view()[at as int] == replies[at as int].deep_view());
        if let ToolReply::CwdPersisted = &replies[at] {
            return Progress::Done((), at + 1);
        }
    }
    Progress::Ask(ToolRequest::PersistCwd(cwd.to_owned()))
}

/// Lets the session remember its active worktree.
pub fn set_active_worktree(active: ActiveWorktree, replies: &Vec<ToolReply>, at: usize) -> (progress:
    ToolProgress<()>)
    ensures
        progress.deep_view() == noted_step(
            ToolAsk::SetActiveWorktree(active.deep_view()),
            ToolAnswer::ActiveSet,
            replies.deep_view(),
            at as int,
        ),
{
    if at < replies.len() {
        assert(replies.deep_view()[at as int] == replies[at as int].deep_view());
        if let ToolReply::ActiveSet = &replies[at] {
            return Progress::Done((), at + 1);
        }
    }
    Progress::Ask(ToolRequest::SetActiveWorktree(active))
}

/// Lets the session forget its active worktree.
pub fn clear_active_worktree(replies: &Vec<ToolReply>, at: usize) -> (progress: ToolProgress<()>)
    ensures
        progress.deep_view() == noted_step(
            ToolAsk::ClearActiveWorktree,
            ToolAnswer::ActiveCleared,
            replies.deep_view(),
            at as int,
        ),
{
    if at < replies.len() {
        assert(replies.deep_view()[at as int] == replies[at as int].deep_view());
        if let ToolReply::ActiveCleared = &replies[at] {
            return Progress::Done((), at + 1);
        }
    }
    Progress::Ask(ToolRequest::ClearActiveWorktree)
}

/// Tells the client which settings hold now.
pub fn announce_settings(replies: &Vec<ToolReply>, at: usize) -> (progress: ToolProgress<()>)
    ensures
        progress.deep_view() == noted_step(
            ToolAsk::AnnounceSettings,
            ToolAnswer::Announced,
            replies.deep_view(),
            at as int,
        ),
{
    if at < replies.len() {
        assert(replies.deep_view()[at as int] == replies[at as int].deep_view());
        if let ToolReply::Announced = &replies[at] {
            return Progress::Done((), at + 1);
        }
    }
    Progress::Ask(ToolRequest::AnnounceSettings)
}

/// What a change of the settings comes to; `failure` begins the error about one that is refused.
pub open spec fn update_step(
    update: UpdateView,
    failure: Seq<char>,
    answers: Seq<ToolAnswer>,
    at: int,
) -> ToolStep<()> {
    if 0 <= at < answers.len() && answers[at] is Updated {
        match answers[at]->Updated_0 {
            Ok(_) => Step::Done((), at + 1),
            Err(problem) => Step::Failed(model_error(failure + problem), at + 1),
        }
    } else {
        Step::Ask(ToolAsk::UpdateSettings(update))
    }
}

/// Changes the settings of the session.
pub fn update_settings(
    update: SessionSettingsUpdate,
    failure: &str,
    replies: &Vec<ToolReply>,
    at: usize,
) -> (progress: ToolProgress<()>)
    ensures
        progress.deep_view() == update_step(
            update.deep_view(),
            failure@,
            replies.deep_view(),
            at as int,
        ),
{
    if at < replies.len() {
        assert(replies.deep_view()[at as int] == replies[at as int].deep_view());
        if let ToolReply::Updated(result) = &replies[at] {
            return match result {
                Ok(_) => Progress::Done((), at + 1),
                Err(problem) => Progress::Failed(
                    worktree_model_error(concat2(failure, problem.as_str()).as_str()),
                    at + 1,
                ),
            };
        }
    }
    Progress::Ask(ToolRequest::UpdateSettings(update))
}

} // verus!
