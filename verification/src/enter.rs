//! Entering a worktree.

use vstd::prelude::*;
use vstd::string::*;

use crate::bounds::{
    bound_worktree_error, bounded_error, call_error_message, ensure_worktree_output_fits_context,
    fits_context, model_error, output_too_large, worktree_model_error, CallErrorView,
    FunctionCallError,
};
use crate::checks::{
    absolute_or_fatal, absolute_path, acquire_settings_lock, announce_settings, canonical_step,
    canonicalize_for_worktree_check, create_or_reuse_managed_worktree_blocking,
    ensure_worktree_paths_writable, inspect_optional_worktree_blocking, inspect_worktree_blocking,
    inspected_optional_step, inspected_step, managed_step, matching_step, matching_worktree_cwd,
    noted_step, persist_cwd_metadata, read_step, read_worktree_metadata_blocking,
    remove_created_managed_worktree_blocking, removed_step, resolve_candidate_path,
    set_active_worktree, update_settings, update_step, writable_step, write_step,
    write_worktree_metadata_blocking,
};
use crate::discovery::{
    active_or_derived_worktree, active_step, is_owned_by, is_owner, managed_name_step,
    managed_worktree_name, native_cwd, native_working_directory,
};
use crate::environment::{
    cwd_settings_update, entered_roots, local_primary, local_primary_environment, settings_update,
    workspace_roots_for_enter, PathUri, PrimaryWorkspaceRootsUpdate, RootsUpdateView,
    SessionSettingsUpdate, StateView, TurnEnvironment, TurnEnvironmentSnapshot, UriView,
};
use crate::json::object_text;
use crate::managed::ManagedWorktree;
use crate::metadata::{MetadataView, WorktreeMetadata};
use crate::output::{
    ensure_managed_worktree_writes_allowed, enter_members, output,
    preflight_managed_worktree_output, preflight_step, writes_allowed_step, EnterOutputView,
    WorktreeOutput,
};
use crate::paths::{is_same_path, joined_path, same_path};
use crate::progress::{Progress, Step};
use crate::session::{
    active_of, result_view, ActiveView, ActiveWorktree, ActiveWorktreeOwnership, OwnershipView,
    ToolAnswer, ToolAsk, ToolProgress, ToolReply, ToolRequest, ToolStep,
};
use crate::text::{concat2, concat3, copy_list, list1, list2, push_text};
use crate::tool_spec::{
    create_enter_worktree_tool, enter_tool, ToolSpec, ENTER_WORKTREE_TOOL_NAME,
};
use crate::worktree::{InfoView, WorktreeInfo};

verus! {

/// What a tool is called with.
pub enum ToolPayload<A> {
    /// The arguments of a function call, as far as they could be read.
    Function(Result<A, FunctionCallError>),
    /// Anything else.
    Unsupported,
}

/// What a tool is called with, in specifications.
pub enum PayloadView<A> {
    Function(Result<A, CallErrorView>),
    Unsupported,
}

impl<A: DeepView> DeepView for ToolPayload<A> {
    type V = PayloadView<A::V>;

    open spec fn deep_view(&self) -> PayloadView<A::V> {
        match self {
            ToolPayload::Function(arguments) => PayloadView::Function(result_view(*arguments)),
            ToolPayload::Unsupported => PayloadView::Unsupported,
        }
    }
}

/// Which worktree to enter.
pub struct EnterWorktreeArgs {
    pub name: Option<String>,
    pub path: Option<String>,
}

/// Which worktree to enter, in specifications.
pub struct EnterArgsView {
    pub name: Option<Seq<char>>,
    pub path: Option<Seq<char>>,
}

impl DeepView for EnterWorktreeArgs {
    type V = EnterArgsView;

    open spec fn deep_view(&self) -> EnterArgsView {
        EnterArgsView { name: self.name.deep_view(), path: self.path.deep_view() }
    }
}

/// Where a tool is called.
pub struct ToolContext {
    pub environments: TurnEnvironmentSnapshot,
    /// The primary environment may write everywhere.
    pub full_disk_write: bool,
    pub thread_id: String,
}

/// Where a tool is called, in specifications.
pub struct ContextView {
    pub environments: Seq<StateView>,
    pub full_disk_write: bool,
    pub thread_id: Seq<char>,
}

impl DeepView for ToolContext {
    type V = ContextView;

    open spec fn deep_view(&self) -> ContextView {
        ContextView {
            environments: self.environments.deep_view(),
            full_disk_write: self.full_disk_write,
            thread_id: self.thread_id@,
        }
    }
}

/// A worktree that is about to be entered.
pub struct WorktreeEntry {
    pub worktree_cwd: String,
    pub worktree_path: String,
    pub branch: Option<String>,
    pub name: Option<String>,
    pub created: Option<bool>,
    pub created_branch: Option<String>,
    pub ownership: ActiveWorktreeOwnership,
}

/// A worktree that is about to be entered, in specifications.
pub struct EntryView {
    pub worktree_cwd: Seq<char>,
    pub worktree_path: Seq<char>,
    pub branch: Option<Seq<char>>,
    pub name: Option<Seq<char>>,
    pub created: Option<bool>,
    pub created_branch: Option<Seq<char>>,
    pub ownership: OwnershipView,
}

impl DeepView for WorktreeEntry {
    type V = EntryView;

    open spec fn deep_view(&self) -> EntryView {
        EntryView {
            worktree_cwd: self.worktree_cwd@,
            worktree_path: self.worktree_path@,
            branch: self.branch.deep_view(),
            name: self.name.deep_view(),
            created: self.created,
            created_branch: self.created_branch.deep_view(),
            ownership: self.ownership.deep_view(),
        }
    }
}

/// Who owns a managed worktree that is entered by its name: the session, where it was just created
/// or the data beside it says so. Another one may be adopted, where it may be written to.
pub open spec fn managed_ownership_step(
    context: ContextView,
    original_cwd: Seq<char>,
    common_dir: Seq<char>,
    name: Seq<char>,
    created: bool,
    worktree_path: Seq<char>,
    answers: Seq<ToolAnswer>,
    at: int,
) -> ToolStep<OwnershipView> {
    if created {
        Step::Done(OwnershipView::ManagedByCodex(common_dir), at)
    } else {
        match read_step(common_dir, name, answers, at) {
            Step::Ask(ask) => Step::Ask(ask),
            Step::Failed(error, used) => Step::Failed(error, used),
            Step::Done(metadata, used) => if is_owned_by(metadata, context.thread_id) {
                Step::Done(OwnershipView::ManagedByCodex(common_dir), used)
            } else {
                match writable_step(
                    "enter_worktree"@,
                    context.full_disk_write,
                    original_cwd,
                    seq![original_cwd, worktree_path],
                    answers,
                    used,
                ) {
                    Step::Ask(ask) => Step::Ask(ask),
                    Step::Failed(error, used) => Step::Failed(error, used),
                    Step::Done(_, used) => Step::Done(OwnershipView::Adopted, used),
                }
            },
        }
    }
}

fn managed_ownership(
    context: &ToolContext,
    original_cwd: &str,
    common_dir: &str,
    name: &str,
    created: bool,
    worktree_path: &str,
    replies: &Vec<ToolReply>,
    at: usize,
) -> (progress: ToolProgress<ActiveWorktreeOwnership>)
    ensures
        progress.deep_view() == managed_ownership_step(
            context.deep_view(),
            original_cwd@,
            common_dir@,
            name@,
            created,
            worktree_path@,
            replies.deep_view(),
            at as int,
        ),
{
    if created {
        return Progress::Done(
            ActiveWorktreeOwnership::ManagedByCodex(common_dir.to_owned()),
            at,
        );
    }
    let (metadata, at): (Option<WorktreeMetadata>, usize) = match read_worktree_metadata_blocking(
        common_dir,
        name,
        replies,
        at,
    ) {
        Progress::Ask(ask) => return Progress::Ask(ask),
        Progress::Failed(error, used) => return Progress::Failed(error, used),
        Progress::Done(metadata, used) => (metadata, used),
    };
    if is_owner(&metadata, context.thread_id.as_str()) {
        return Progress::Done(
            ActiveWorktreeOwnership::ManagedByCodex(common_dir.to_owned()),
            at,
        );
    }
    match ensure_worktree_paths_writable(
        ENTER_WORKTREE_TOOL_NAME,
        context.full_disk_write,
        original_cwd,
        &list2(original_cwd, worktree_path),
        replies,
        at,
    ) {
        Progress::Ask(ask) => Progress::Ask(ask),
        Progress::Failed(error, used) => Progress::Failed(error, used),
        Progress::Done(_, used) => Progress::Done(ActiveWorktreeOwnership::Adopted, used),
    }
}

/// What preparing to enter a managed worktree by its name comes to. It is created only once its
/// name is valid, the output about it is known to fit, and the current directory may be written to.
pub open spec fn managed_entry_step(
    context: ContextView,
    original_cwd: Seq<char>,
    name: Seq<char>,
    answers: Seq<ToolAnswer>,
    at: int,
) -> ToolStep<EntryView> {
    match inspected_step(original_cwd, answers, at) {
        Step::Ask(ask) => Step::Ask(ask),
        Step::Failed(error, used) => Step::Failed(error, used),
        Step::Done(info, used) => match preflight_step(info, original_cwd, name, answers, used) {
            Step::Ask(ask) => Step::Ask(ask),
            Step::Failed(error, used) => Step::Failed(error, used),
            Step::Done(_, used) => match writes_allowed_step(
                "enter_worktree"@,
                context.full_disk_write,
                original_cwd,
                name,
                answers,
                used,
            ) {
                Step::Ask(ask) => Step::Ask(ask),
                Step::Failed(error, used) => Step::Failed(error, used),
                Step::Done(_, used) => created_entry_step(
                    context,
                    original_cwd,
                    info,
                    name,
                    answers,
                    used,
                ),
            },
        },
    }
}

/// What creating or reusing the worktree comes to that is to be entered by its name.
pub open spec fn created_entry_step(
    context: ContextView,
    original_cwd: Seq<char>,
    info: InfoView,
    name: Seq<char>,
    answers: Seq<ToolAnswer>,
    at: int,
) -> ToolStep<EntryView> {
    match managed_step(original_cwd, name, answers, at) {
        Step::Ask(ask) => Step::Ask(ask),
        Step::Failed(error, used) => Step::Failed(error, used),
        Step::Done(managed, used) => match absolute_or_fatal(
            managed.path,
            "managed worktree path"@,
        ) {
            Err(error) => Step::Failed(error, used),
            Ok(worktree_path) => match matching_step(
                info.repo_root,
                original_cwd,
                worktree_path,
                answers,
                used,
            ) {
                Step::Ask(ask) => Step::Ask(ask),
                Step::Failed(error, used) => Step::Failed(error, used),
                Step::Done(worktree_cwd, used) => match managed_ownership_step(
                    context,
                    original_cwd,
                    info.common_dir,
                    managed.name,
                    managed.created,
                    worktree_path,
                    answers,
                    used,
                ) {
                    Step::Ask(ask) => Step::Ask(ask),
                    Step::Failed(error, used) => Step::Failed(error, used),
                    Step::Done(ownership, used) => Step::Done(
                        EntryView {
                            worktree_cwd,
                            worktree_path,
                            branch: managed.info.current_branch,
                            name: Some(managed.name),
                            created: Some(managed.created),
                            created_branch: managed.created_branch,
                            ownership,
                        },
                        used,
                    ),
                },
            },
        },
    }
}

fn created_entry(
    context: &ToolContext,
    original_cwd: &str,
    info: &WorktreeInfo,
    name: &str,
    replies: &Vec<ToolReply>,
    at: usize,
) -> (progress: ToolProgress<WorktreeEntry>)
    ensures
        progress.deep_view() == created_entry_step(
            context.deep_view(),
            original_cwd@,
            info.deep_view(),
            name@,
            replies.deep_view(),
            at as int,
        ),
{
    let (managed, at): (ManagedWorktree, usize) = match create_or_reuse_managed_worktree_blocking(
        original_cwd,
        name,
        replies,
        at,
    ) {
        Progress::Ask(ask) => return Progress::Ask(ask),
        Progress::Failed(error, used) => return Progress::Failed(error, used),
        Progress::Done(managed, used) => (managed, used),
    };
    let worktree_path: String = match absolute_path(
        managed.path.as_str(),
        "managed worktree path",
    ) {
        Ok(path) => path,
        Err(error) => return Progress::Failed(error, at),
    };
    let (worktree_cwd, at): (String, usize) = match matching_worktree_cwd(
        info.repo_root.as_str(),
        original_cwd,
        worktree_path.as_str(),
        replies,
        at,
    ) {
        Progress::Ask(ask) => return Progress::Ask(ask),
        Progress::Failed(error, used) => return Progress::Failed(error, used),
        Progress::Done(cwd, used) => (cwd, used),
    };
    let (ownership, at): (ActiveWorktreeOwnership, usize) = match managed_ownership(
        context,
        original_cwd,
        info.common_dir.as_str(),
        managed.name.as_str(),
        managed.created,
        worktree_path.as_str(),
        replies,
        at,
    ) {
        Progress::Ask(ask) => return Progress::Ask(ask),
        Progress::Failed(error, used) => return Progress::Failed(error, used),
        Progress::Done(ownership, used) => (ownership, used),
    };
    Progress::Done(
        WorktreeEntry {
            worktree_cwd,
            worktree_path,
            branch: managed.info.current_branch,
            name: Some(managed.name),
            created: Some(managed.created),
            created_branch: managed.created_branch,
            ownership,
        },
        at,
    )
}

/// Prepares to enter the managed worktree `name`.
pub fn managed_entry(
    context: &ToolContext,
    original_cwd: &str,
    name: &str,
    replies: &Vec<ToolReply>,
    at: usize,
) -> (progress: ToolProgress<WorktreeEntry>)
    ensures
        progress.deep_view() == managed_entry_step(
            context.deep_view(),
            original_cwd@,
            name@,
            replies.deep_view(),
            at as int,
        ),
{
    let (info, at): (WorktreeInfo, usize) = match inspect_worktree_blocking(
        original_cwd,
        replies,
        at,
    ) {
        Progress::Ask(ask) => return Progress::Ask(ask),
        Progress::Failed(error, used) => return Progress::Failed(error, used),
        Progress::Done(info, used) => (info, used),
    };
    let at: usize = match preflight_managed_worktree_output(
        &info,
        original_cwd,
        name,
        replies,
        at,
    ) {
        Progress::Ask(ask) => return Progress::Ask(ask),
        Progress::Failed(error, used) => return Progress::Failed(error, used),
        Progress::Done(_, used) => used,
    };
    let at: usize = match ensure_managed_worktree_writes_allowed(
        ENTER_WORKTREE_TOOL_NAME,
        context.full_disk_write,
        original_cwd,
        &info,
        name,
        replies,
        at,
    ) {
        Progress::Ask(ask) => return Progress::Ask(ask),
        Progress::Failed(error, used) => return Progress::Failed(error, used),
        Progress::Done(_, used) => used,
    };
    created_entry(context, original_cwd, &info, name, replies, at)
}

/// Whether a directory is in a managed worktree that the session created in the repository it is
/// in: both have the same common directory, and the data beside the worktree names the session.
pub open spec fn same_session_step(
    context: ContextView,
    original_cwd: Seq<char>,
    candidate_info: Option<InfoView>,
    answers: Seq<ToolAnswer>,
    at: int,
) -> ToolStep<bool> {
    match candidate_info {
        None => Step::Done(false, at),
        Some(info) => match managed_name_step(info.common_dir, info.repo_root, answers, at) {
            Step::Ask(ask) => Step::Ask(ask),
            Step::Failed(error, used) => Step::Failed(error, used),
            Step::Done(None, used) => Step::Done(false, used),
            Step::Done(Some(name), used) => match inspected_optional_step(
                original_cwd,
                answers,
                used,
            ) {
                Step::Ask(ask) => Step::Ask(ask),
                Step::Failed(error, used) => Step::Failed(error, used),
                Step::Done(None, used) => Step::Done(false, used),
                Step::Done(Some(original), used) => if is_same_path(
                    original.common_dir,
                    info.common_dir,
                ) {
                    match read_step(info.common_dir, name, answers, used) {
                        Step::Ask(ask) => Step::Ask(ask),
                        Step::Failed(error, used) => Step::Failed(error, used),
                        Step::Done(metadata, used) => Step::Done(
                            is_owned_by(metadata, context.thread_id),
                            used,
                        ),
                    }
                } else {
                    Step::Done(false, used)
                },
            },
        },
    }
}

fn is_same_session_worktree(
    context: &ToolContext,
    original_cwd: &str,
    candidate_info: &Option<WorktreeInfo>,
    replies: &Vec<ToolReply>,
    at: usize,
) -> (progress: ToolProgress<bool>)
    ensures
        progress.deep_view() == same_session_step(
            context.deep_view(),
            original_cwd@,
            candidate_info.deep_view(),
            replies.deep_view(),
            at as int,
        ),
{
    let info: &WorktreeInfo = match candidate_info {
        None => return Progress::Done(false, at),
        Some(info) => info,
    };
    let (name, at): (String, usize) = match managed_worktree_name(
        info.common_dir.as_str(),
        info.repo_root.as_str(),
        replies,
        at,
    ) {
        Progress::Ask(ask) => return Progress::Ask(ask),
        Progress::Failed(error, used) => return Progress::Failed(error, used),
        Progress::Done(None, used) => return Progress::Done(false, used),
        Progress::Done(Some(name), used) => (name, used),
    };
    let (original, at): (WorktreeInfo, usize) = match inspect_optional_worktree_blocking(
        original_cwd,
        replies,
        at,
    ) {
        Progress::Ask(ask) => return Progress::Ask(ask),
        Progress::Failed(error, used) => return Progress::Failed(error, used),
        Progress::Done(None, used) => return Progress::Done(false, used),
        Progress::Done(Some(original), used) => (original, used),
    };
    if !same_path(original.common_dir.as_str(), info.common_dir.as_str()) {
        return Progress::Done(false, at);
    }
    match read_worktree_metadata_blocking(
        info.common_dir.as_str(),
        name.as_str(),
        replies,
        at,
    ) {
        Progress::Ask(ask) => Progress::Ask(ask),
        Progress::Failed(error, used) => Progress::Failed(error, used),
        Progress::Done(metadata, used) => Progress::Done(
            is_owner(&metadata, context.thread_id.as_str()),
            used,
        ),
    }
}

/// What describing a directory comes to that is entered by its path.
pub open spec fn described_entry_step(
    candidate_path: Seq<char>,
    candidate_info: Option<InfoView>,
    same_session: bool,
    answers: Seq<ToolAnswer>,
    at: int,
) -> ToolStep<EntryView> {
    match absolute_or_fatal(candidate_path, "adopted workdir cwd"@) {
        Err(error) => Step::Failed(error, at),
        Ok(worktree_cwd) => match candidate_info {
            Some(info) => match managed_name_step(
                info.common_dir,
                info.repo_root,
                answers,
                at,
            ) {
                Step::Ask(ask) => Step::Ask(ask),
                Step::Failed(error, used) => Step::Failed(error, used),
                Step::Done(name, used) => match absolute_or_fatal(
                    info.repo_root,
                    "adopted worktree path"@,
                ) {
                    Err(error) => Step::Failed(error, used),
                    Ok(worktree_path) => Step::Done(
                        EntryView {
                            worktree_cwd,
                            worktree_path,
                            branch: info.current_branch,
                            name,
                            created: None,
                            created_branch: None,
                            ownership: if same_session {
                                OwnershipView::ManagedByCodex(info.common_dir)
                            } else {
                                OwnershipView::Adopted
                            },
                        },
                        used,
                    ),
                },
            },
            None => match absolute_or_fatal(candidate_path, "adopted workdir path"@) {
                Err(error) => Step::Failed(error, at),
                Ok(worktree_path) => Step::Done(
                    EntryView {
                        worktree_cwd,
                        worktree_path,
                        branch: None,
                        name: None,
                        created: None,
                        created_branch: None,
                        ownership: OwnershipView::Adopted,
                    },
                    at,
                ),
            },
        },
    }
}

fn describe_entry(
    candidate_path: &str,
    candidate_info: Option<WorktreeInfo>,
    same_session: bool,
    replies: &Vec<ToolReply>,
    at: usize,
) -> (progress: ToolProgress<WorktreeEntry>)
    ensures
        progress.deep_view() == described_entry_step(
            candidate_path@,
            candidate_info.deep_view(),
            same_session,
            replies.deep_view(),
            at as int,
        ),
{
    let worktree_cwd: String = match absolute_path(candidate_path, "adopted workdir cwd") {
        Ok(path) => path,
        Err(error) => return Progress::Failed(error, at),
    };
    match candidate_info {
        Some(info) => {
            let (name, at): (Option<String>, usize) = match managed_worktree_name(
                info.common_dir.as_str(),
                info.repo_root.as_str(),
                replies,
                at,
            ) {
                Progress::Ask(ask) => return Progress::Ask(ask),
                Progress::Failed(error, used) => return Progress::Failed(error, used),
                Progress::Done(name, used) => (name, used),
            };
            let worktree_path: String = match absolute_path(
                info.repo_root.as_str(),
                "adopted worktree path",
            ) {
                Ok(path) => path,
                Err(error) => return Progress::Failed(error, at),
            };
            let ownership: ActiveWorktreeOwnership = if same_session {
                ActiveWorktreeOwnership::ManagedByCodex(info.common_dir)
            } else {
                ActiveWorktreeOwnership::Adopted
            };
            Progress::Done(
                WorktreeEntry {
                    worktree_cwd,
                    worktree_path,
                    branch: info.current_branch,
                    name,
                    created: None,
                    created_branch: None,
                    ownership,
                },
                at,
            )
        },
        None => match absolute_path(candidate_path, "adopted workdir path") {
            Err(error) => Progress::Failed(error, at),
            Ok(worktree_path) => Progress::Done(
                WorktreeEntry {
                    worktree_cwd,
                    worktree_path,
                    branch: None,
                    name: None,
                    created: None,
                    created_branch: None,
                    ownership: ActiveWorktreeOwnership::Adopted,
                },
                at,
            ),
        },
    }
}

/// The paths that have to be writable before a directory is entered by its path: the current
/// directory, and the other one too unless it is a managed worktree of this session.
pub open spec fn required_paths(
    original_cwd: Seq<char>,
    candidate_path: Seq<char>,
    same_session: bool,
) -> Seq<Seq<char>> {
    if same_session {
        seq![original_cwd]
    } else {
        seq![original_cwd, candidate_path]
    }
}

/// What preparing to enter an existing directory comes to.
pub open spec fn adopted_entry_step(
    context: ContextView,
    original_cwd: Seq<char>,
    path: Seq<char>,
    answers: Seq<ToolAnswer>,
    at: int,
) -> ToolStep<EntryView> {
    if path.len() == 0 {
        Step::Failed(model_error("enter_worktree `path` must not be empty"@), at)
    } else {
        match canonical_step(joined_path(original_cwd, path), answers, at) {
            Step::Ask(ask) => Step::Ask(ask),
            Step::Failed(error, used) => Step::Failed(error, used),
            Step::Done(candidate_path, used) => if 0 <= used < answers.len()
                && answers[used] is Directory {
                if answers[used]->Directory_0 {
                    existing_entry_step(
                        context,
                        original_cwd,
                        candidate_path,
                        answers,
                        used + 1,
                    )
                } else {
                    Step::Failed(
                        model_error(
                            "enter_worktree path `"@ + candidate_path
                                + "` must be an existing directory"@,
                        ),
                        used + 1,
                    )
                }
            } else {
                Step::Ask(ToolAsk::IsDirectory(candidate_path))
            },
        }
    }
}

/// What preparing to enter a directory comes to that is known to exist.
pub open spec fn existing_entry_step(
    context: ContextView,
    original_cwd: Seq<char>,
    candidate_path: Seq<char>,
    answers: Seq<ToolAnswer>,
    at: int,
) -> ToolStep<EntryView> {
    match inspected_optional_step(candidate_path, answers, at) {
        Step::Ask(ask) => Step::Ask(ask),
        Step::Failed(error, used) => Step::Failed(error, used),
        Step::Done(candidate_info, used) => match same_session_step(
            context,
            original_cwd,
            candidate_info,
            answers,
            used,
        ) {
            Step::Ask(ask) => Step::Ask(ask),
            Step::Failed(error, used) => Step::Failed(error, used),
            Step::Done(same_session, used) => match writable_step(
                "enter_worktree"@,
                context.full_disk_write,
                original_cwd,
                required_paths(original_cwd, candidate_path, same_session),
                answers,
                used,
            ) {
                Step::Ask(ask) => Step::Ask(ask),
                Step::Failed(error, used) => Step::Failed(error, used),
                Step::Done(_, used) => described_entry_step(
                    candidate_path,
                    candidate_info,
                    same_session,
                    answers,
                    used,
                ),
            },
        },
    }
}

fn existing_entry(
    context: &ToolContext,
    original_cwd: &str,
    candidate_path: &str,
    replies: &Vec<ToolReply>,
    at: usize,
) -> (progress: ToolProgress<WorktreeEntry>)
    ensures
        progress.deep_view() == existing_entry_step(
            context.deep_view(),
            original_cwd@,
            candidate_path@,
            replies.deep_view(),
            at as int,
        ),
{
    let (candidate_info, at): (Option<WorktreeInfo>, usize) =
        match inspect_optional_worktree_blocking(candidate_path, replies, at) {
        Progress::Ask(ask) => return Progress::Ask(ask),
        Progress::Failed(error, used) => return Progress::Failed(error, used),
        Progress::Done(info, used) => (info, used),
    };
    let (same_session, at): (bool, usize) = match is_same_session_worktree(
        context,
        original_cwd,
        &candidate_info,
        replies,
        at,
    ) {
        Progress::Ask(ask) => return Progress::Ask(ask),
        Progress::Failed(error, used) => return Progress::Failed(error, used),
        Progress::Done(same_session, used) => (same_session, used),
    };
    // The same repository's managed area has the internal-git authority used by name-based
    // creation. Other repositories and ordinary directories need an existing destination grant
    // before adoption can retarget workspace roots.
    let required: Vec<String> = if same_session {
        list1(original_cwd)
    } else {
        list2(original_cwd, candidate_path)
    };
    let at: usize = match ensure_worktree_paths_writable(
        ENTER_WORKTREE_TOOL_NAME,
        context.full_disk_write,
        original_cwd,
        &required,
        replies,
        at,
    ) {
        Progress::Ask(ask) => return Progress::Ask(ask),
        Progress::Failed(error, used) => return Progress::Failed(error, used),
        Progress::Done(_, used) => used,
    };
    describe_entry(candidate_path, candidate_info, same_session, replies, at)
}

/// Prepares to enter the existing directory `path`.
pub fn adopted_entry(
    context: &ToolContext,
    original_cwd: &str,
    path: &str,
    replies: &Vec<ToolReply>,
    at: usize,
) -> (progress: ToolProgress<WorktreeEntry>)
    ensures
        progress.deep_view() == adopted_entry_step(
            context.deep_view(),
            original_cwd@,
            path@,
            replies.deep_view(),
            at as int,
        ),
{
    if path.is_empty() {
        return Progress::Failed(
            worktree_model_error("enter_worktree `path` must not be empty"),
            at,
        );
    }
    let resolved: String = resolve_candidate_path(original_cwd, path);
    let (candidate_path, at): (String, usize) = match canonicalize_for_worktree_check(
        resolved.as_str(),
        replies,
        at,
    ) {
        Progress::Ask(ask) => return Progress::Ask(ask),
        Progress::Failed(error, used) => return Progress::Failed(error, used),
        Progress::Done(path, used) => (path, used),
    };
    if at < replies.len() {
        assert(replies.deep_view()[at as int] == replies[at as int].deep_view());
        if let ToolReply::Directory(is_directory) = &replies[at] {
            return if *is_directory {
                existing_entry(context, original_cwd, candidate_path.as_str(), replies, at + 1)
            } else {
                Progress::Failed(
                    worktree_model_error(
                        concat3(
                            "enter_worktree path `",
                            candidate_path.as_str(),
                            "` must be an existing directory",
                        ).as_str(),
                    ),
                    at + 1,
                )
            };
        }
    }
    Progress::Ask(ToolRequest::IsDirectory(candidate_path))
}

/// What choosing the worktree to enter comes to: either the name or the path has to be given.
pub open spec fn entry_step(
    context: ContextView,
    original_cwd: Seq<char>,
    args: EnterArgsView,
    answers: Seq<ToolAnswer>,
    at: int,
) -> ToolStep<EntryView> {
    match (args.name, args.path) {
        (Some(_), Some(_)) => Step::Failed(
            model_error("enter_worktree accepts either `name` or `path`, not both"@),
            at,
        ),
        (Some(name), None) => managed_entry_step(context, original_cwd, name, answers, at),
        (None, Some(path)) => adopted_entry_step(context, original_cwd, path, answers, at),
        (None, None) => Step::Failed(
            model_error("enter_worktree requires either `name` or `path`"@),
            at,
        ),
    }
}

/// Prepares to enter the worktree that the arguments name.
pub fn prepare_entry(
    context: &ToolContext,
    original_cwd: &str,
    args: &EnterWorktreeArgs,
    replies: &Vec<ToolReply>,
    at: usize,
) -> (progress: ToolProgress<WorktreeEntry>)
    ensures
        progress.deep_view() == entry_step(
            context.deep_view(),
            original_cwd@,
            args.deep_view(),
            replies.deep_view(),
            at as int,
        ),
{
    match (&args.name, &args.path) {
        (Some(_), Some(_)) => Progress::Failed(
            worktree_model_error("enter_worktree accepts either `name` or `path`, not both"),
            at,
        ),
        (Some(name), None) => managed_entry(context, original_cwd, name.as_str(), replies, at),
        (None, Some(path)) => adopted_entry(context, original_cwd, path.as_str(), replies, at),
        (None, None) => Progress::Failed(
            worktree_model_error("enter_worktree requires either `name` or `path`"),
            at,
        ),
    }
}

/// What taking back a new worktree comes to after an error: the error is told in any case, with
/// what went wrong on the way back.
pub open spec fn rollback_step<T>(
    original_cwd: Seq<char>,
    entry: EntryView,
    error: CallErrorView,
    answers: Seq<ToolAnswer>,
    at: int,
) -> ToolStep<T> {
    match removed_step(
        ToolAsk::RemoveCreated {
            repository_path: original_cwd,
            worktree_path: entry.worktree_path,
            created_branch: entry.created_branch,
        },
        answers,
        at,
    ) {
        Step::Ask(ask) => Step::Ask(ask),
        Step::Failed(cleanup_error, used) => Step::Failed(
            model_error(
                call_error_message(error)
                    + "; failed to roll back the newly created worktree: "@ + call_error_message(
                    cleanup_error,
                ),
            ),
            used,
        ),
        Step::Done(_, used) => Step::Failed(error, used),
    }
}

fn roll_back<T: DeepView>(
    original_cwd: &str,
    entry: &WorktreeEntry,
    error: FunctionCallError,
    replies: &Vec<ToolReply>,
    at: usize,
) -> (progress: ToolProgress<T>)
    ensures
        progress.deep_view() == rollback_step::<T::V>(
            original_cwd@,
            entry.deep_view(),
            error.deep_view(),
            replies.deep_view(),
            at as int,
        ),
{
    match remove_created_managed_worktree_blocking(
        original_cwd,
        entry.worktree_path.as_str(),
        &entry.created_branch,
        replies,
        at,
    ) {
        Progress::Ask(ask) => Progress::Ask(ask),
        Progress::Failed(cleanup_error, used) => Progress::Failed(
            worktree_model_error(
                concat3(
                    error.message().as_str(),
                    "; failed to roll back the newly created worktree: ",
                    cleanup_error.message().as_str(),
                ).as_str(),
            ),
            used,
        ),
        Progress::Done(_, used) => Progress::Failed(error, used),
    }
}

/// What entering the worktree gives back.
pub open spec fn entry_output(original_cwd: Seq<char>, entry: EntryView) -> EnterOutputView {
    EnterOutputView {
        cwd: entry.worktree_cwd,
        worktree_path: entry.worktree_path,
        original_cwd,
        branch: entry.branch,
        name: entry.name,
        created: entry.created,
    }
}

/// What entering the worktree gives back, as it is written.
pub open spec fn entry_content(original_cwd: Seq<char>, entry: EntryView) -> Seq<char> {
    object_text(enter_members(entry_output(original_cwd, entry)))
}

/// What keeping the origin of a new worktree comes to, once its output is known to fit. A new
/// worktree is taken back where its output does not fit or its origin cannot be kept.
pub open spec fn recorded_step(
    context: ContextView,
    original_cwd: Seq<char>,
    entry: EntryView,
    answers: Seq<ToolAnswer>,
    at: int,
) -> ToolStep<()> {
    if !fits_context(entry_content(original_cwd, entry)) {
        if entry.created == Some(true) {
            rollback_step(original_cwd, entry, output_too_large(), answers, at)
        } else {
            Step::Failed(output_too_large(), at)
        }
    } else if entry.created == Some(true) {
        match (entry.ownership, entry.name) {
            (OwnershipView::ManagedByCodex(common_dir), Some(name)) => match write_step(
                common_dir,
                name,
                MetadataView {
                    original_cwd,
                    owner_thread_id: Some(context.thread_id),
                },
                answers,
                at,
            ) {
                Step::Ask(ask) => Step::Ask(ask),
                Step::Failed(error, used) => rollback_step(
                    original_cwd,
                    entry,
                    error,
                    answers,
                    used,
                ),
                Step::Done(_, used) => Step::Done((), used),
            },
            _ => Step::Done((), at),
        }
    } else {
        Step::Done((), at)
    }
}

fn record_entry(
    context: &ToolContext,
    original_cwd: &str,
    entry: &WorktreeEntry,
    content: &str,
    replies: &Vec<ToolReply>,
    at: usize,
) -> (progress: ToolProgress<()>)
    requires
        content@ == entry_content(original_cwd@, entry.deep_view()),
    ensures
        progress.deep_view() == recorded_step(
            context.deep_view(),
            original_cwd@,
            entry.deep_view(),
            replies.deep_view(),
            at as int,
        ),
{
    let is_new: bool = match entry.created {
        Some(created) => created,
        None => false,
    };
    match ensure_worktree_output_fits_context(content) {
        Ok(_) => {},
        Err(error) => {
            return if is_new {
                roll_back(original_cwd, entry, error, replies, at)
            } else {
                Progress::Failed(error, at)
            };
        },
    }
    if !is_new {
        return Progress::Done((), at);
    }
    match (&entry.ownership, &entry.name) {
        (ActiveWorktreeOwnership::ManagedByCodex(common_dir), Some(name)) => {
            match write_worktree_metadata_blocking(
                common_dir.as_str(),
                name.as_str(),
                original_cwd,
                context.thread_id.as_str(),
                replies,
                at,
            ) {
                Progress::Ask(ask) => Progress::Ask(ask),
                Progress::Failed(error, used) => roll_back(
                    original_cwd,
                    entry,
                    error,
                    replies,
                    used,
                ),
                Progress::Done(_, used) => Progress::Done((), used),
            }
        },
        _ => Progress::Done((), at),
    }
}

/// The workspace root that entering adds: the root of a worktree that the session owns, and the
/// entered directory of another one.
pub open spec fn entered_root(entry: EntryView) -> Seq<char> {
    match entry.ownership {
        OwnershipView::ManagedByCodex(_) => entry.worktree_path,
        OwnershipView::Adopted => entry.worktree_cwd,
    }
}

/// The change of the settings that enters a worktree.
pub open spec fn enter_update(
    context: ContextView,
    original_cwd: Seq<char>,
    original_roots: Seq<Seq<char>>,
    entry: EntryView,
) -> Result<crate::environment::UpdateView, CallErrorView> {
    settings_update(
        "enter_worktree"@,
        original_cwd,
        entry.worktree_cwd,
        context.environments,
        RootsUpdateView::Replace(
            entered_roots(original_roots, original_cwd, entry.worktree_cwd, entered_root(entry)),
        ),
    )
}

/// The worktree that the session remembers after entering.
pub open spec fn entered_worktree(
    original_cwd: Seq<char>,
    original_roots: Seq<Seq<char>>,
    entry: EntryView,
) -> ActiveView {
    ActiveView {
        original_cwd,
        original_workspace_roots: Some(original_roots),
        worktree_path: entry.worktree_path,
        branch: entry.branch,
        name: entry.name,
        ownership: entry.ownership,
    }
}

/// What entering a prepared worktree comes to: the settings are changed, the directory is kept, the
/// worktree is remembered and the client is told, in this order.
pub open spec fn enter_prepared_step(
    context: ContextView,
    original_cwd: Seq<char>,
    original_roots: Seq<Seq<char>>,
    entry: EntryView,
    answers: Seq<ToolAnswer>,
    at: int,
) -> ToolStep<Seq<char>> {
    match recorded_step(context, original_cwd, entry, answers, at) {
        Step::Ask(ask) => Step::Ask(ask),
        Step::Failed(error, used) => Step::Failed(error, used),
        Step::Done(_, used) => match enter_update(context, original_cwd, original_roots, entry) {
            Err(error) => Step::Failed(error, used),
            Ok(update) => match update_step(
                update,
                "failed to enter worktree: "@,
                answers,
                used,
            ) {
                Step::Ask(ask) => Step::Ask(ask),
                Step::Failed(error, used) => Step::Failed(error, used),
                Step::Done(_, used) => match noted_step(
                    ToolAsk::PersistCwd(entry.worktree_cwd),
                    ToolAnswer::CwdPersisted,
                    answers,
                    used,
                ) {
                    Step::Ask(ask) => Step::Ask(ask),
                    Step::Failed(error, used) => Step::Failed(error, used),
                    Step::Done(_, used) => match noted_step(
                        ToolAsk::SetActiveWorktree(
                            entered_worktree(original_cwd, original_roots, entry),
                        ),
                        ToolAnswer::ActiveSet,
                        answers,
                        used,
                    ) {
                        Step::Ask(ask) => Step::Ask(ask),
                        Step::Failed(error, used) => Step::Failed(error, used),
                        Step::Done(_, used) => match noted_step(
                            ToolAsk::AnnounceSettings,
                            ToolAnswer::Announced,
                            answers,
                            used,
                        ) {
                            Step::Ask(ask) => Step::Ask(ask),
                            Step::Failed(error, used) => Step::Failed(error, used),
                            Step::Done(_, used) => Step::Done(
                                entry_content(original_cwd, entry),
                                used,
                            ),
                        },
                    },
                },
            },
        },
    }
}

/// Enters a prepared worktree.
pub fn enter_prepared(
    context: &ToolContext,
    original_cwd: &str,
    original_roots: &Vec<String>,
    entry: WorktreeEntry,
    replies: &Vec<ToolReply>,
    at: usize,
) -> (progress: ToolProgress<String>)
    ensures
        progress.deep_view() == enter_prepared_step(
            context.deep_view(),
            original_cwd@,
            original_roots.deep_view(),
            entry.deep_view(),
            replies.deep_view(),
            at as int,
        ),
{
    let entered: WorktreeOutput = WorktreeOutput {
        cwd: entry.worktree_cwd.clone(),
        worktree_path: entry.worktree_path.clone(),
        original_cwd: original_cwd.to_owned(),
        branch: entry.branch.clone(),
        name: entry.name.clone(),
        created: entry.created,
    };
    let content: String = entered.to_json();
    let at: usize = match record_entry(
        context,
        original_cwd,
        &entry,
        content.as_str(),
        replies,
        at,
    ) {
        Progress::Ask(ask) => return Progress::Ask(ask),
        Progress::Failed(error, used) => return Progress::Failed(error, used),
        Progress::Done(_, used) => used,
    };
    let entered_root: &String = match &entry.ownership {
        ActiveWorktreeOwnership::ManagedByCodex(_) => &entry.worktree_path,
        ActiveWorktreeOwnership::Adopted => &entry.worktree_cwd,
    };
    let roots: Vec<String> = workspace_roots_for_enter(
        original_roots,
        original_cwd,
        entry.worktree_cwd.as_str(),
        entered_root.as_str(),
    );
    let update: SessionSettingsUpdate = match cwd_settings_update(
        ENTER_WORKTREE_TOOL_NAME,
        original_cwd,
        entry.worktree_cwd.as_str(),
        &context.environments,
        &PrimaryWorkspaceRootsUpdate::Replace(roots),
    ) {
        Ok(update) => update,
        Err(error) => return Progress::Failed(error, at),
    };
    let at: usize = match update_settings(update, "failed to enter worktree: ", replies, at) {
        Progress::Ask(ask) => return Progress::Ask(ask),
        Progress::Failed(error, used) => return Progress::Failed(error, used),
        Progress::Done(_, used) => used,
    };
    let at: usize = match persist_cwd_metadata(entry.worktree_cwd.as_str(), replies, at) {
        Progress::Ask(ask) => return Progress::Ask(ask),
        Progress::Failed(error, used) => return Progress::Failed(error, used),
        Progress::Done(_, used) => used,
    };
    let active: ActiveWorktree = ActiveWorktree {
        original_cwd: original_cwd.to_owned(),
        original_workspace_roots: Some(copy_list(original_roots)),
        worktree_path: entry.worktree_path,
        branch: entry.branch,
        name: entry.name,
        ownership: entry.ownership,
    };
    let at: usize = match set_active_worktree(active, replies, at) {
        Progress::Ask(ask) => return Progress::Ask(ask),
        Progress::Failed(error, used) => return Progress::Failed(error, used),
        Progress::Done(_, used) => used,
    };
    match announce_settings(replies, at) {
        Progress::Ask(ask) => Progress::Ask(ask),
        Progress::Failed(error, used) => Progress::Failed(error, used),
        Progress::Done(_, used) => match output(content) {
            Ok(content) => Progress::Done(content, used),
            Err(error) => Progress::Failed(error, used),
        },
    }
}

/// The workspace roots of an environment, each of which has to be a path of this host.
pub open spec fn native_roots(roots: Seq<UriView>) -> Result<Seq<Seq<char>>, CallErrorView>
    decreases roots.len(),
{
    if roots.len() == 0 {
        Ok(Seq::empty())
    } else {
        match native_roots(roots.drop_last()) {
            Err(error) => Err(error),
            Ok(paths) => match roots.last() {
                UriView::Native(path) => Ok(paths.push(path)),
                UriView::Foreign { uri: _, problem } => Err(
                    model_error(
                        "enter_worktree"@
                            + " requires native local primary environment workspace roots: "@
                            + problem,
                    ),
                ),
            },
        }
    }
}

proof fn lemma_first_foreign_root(roots: Seq<UriView>, k: int)
    requires
        0 <= k <= roots.len(),
        native_roots(roots.take(k)) is Err,
    ensures
        native_roots(roots) == native_roots(roots.take(k)),
    decreases roots.len() - k,
{
    if k < roots.len() {
        assert(roots.take(k + 1).drop_last() =~= roots.take(k));
        lemma_first_foreign_root(roots, k + 1);
    } else {
        assert(roots.take(k) =~= roots);
    }
}

fn native_workspace_roots(roots: &Vec<PathUri>) -> (paths: Result<Vec<String>, FunctionCallError>)
    ensures
        result_view(paths) == native_roots(roots.deep_view()),
{
    let mut paths: Vec<String> = Vec::new();
    let mut i: usize = 0;
    let ghost all = roots.deep_view();
    assert(all.take(0) =~= Seq::<UriView>::empty());
    assert(paths.deep_view() =~= Seq::<Seq<char>>::empty());
    while i < roots.len()
        invariant
            i <= roots.len(),
            all == roots.deep_view(),
            native_roots(all.take(i as int)) == Ok::<Seq<Seq<char>>, CallErrorView>(
                paths.deep_view(),
            ),
        decreases roots.len() - i,
    {
        proof {
            assert(all.take(i + 1).drop_last() =~= all.take(i as int));
            assert(all.take(i + 1).last() == roots[i as int].deep_view());
        }
        match &roots[i] {
            PathUri::Native(path) => push_text(&mut paths, path.clone()),
            PathUri::Foreign { uri: _, problem } => {
                let error: FunctionCallError = worktree_model_error(
                    concat3(
                        ENTER_WORKTREE_TOOL_NAME,
                        " requires native local primary environment workspace roots: ",
                        problem.as_str(),
                    ).as_str(),
                );
                proof {
                    lemma_first_foreign_root(all, i + 1);
                }
                return Err(error);
            },
        }
        i += 1;
    }
    assert(all.take(all.len() as int) =~= all);
    Ok(paths)
}

/// What entering a worktree comes to from the directory of the primary environment: a session that
/// is in a worktree already has to leave it first.
pub open spec fn enter_from_step(
    context: ContextView,
    original_cwd: Seq<char>,
    original_roots: Seq<Seq<char>>,
    arguments: Result<EnterArgsView, CallErrorView>,
    answers: Seq<ToolAnswer>,
    at: int,
) -> ToolStep<Seq<char>> {
    match noted_step(ToolAsk::LockSettings, ToolAnswer::Locked, answers, at) {
        Step::Ask(ask) => Step::Ask(ask),
        Step::Failed(error, used) => Step::Failed(error, used),
        Step::Done(_, used) => match active_step(
            original_cwd,
            context.thread_id,
            answers,
            used,
        ) {
            Step::Ask(ask) => Step::Ask(ask),
            Step::Failed(error, used) => Step::Failed(error, used),
            Step::Done(Some(state), used) => Step::Failed(
                model_error(
                    "already in worktree `"@ + active_of(state).worktree_path
                        + "`; call exit_worktree before entering another worktree"@,
                ),
                used,
            ),
            Step::Done(None, used) => match arguments {
                Err(error) => Step::Failed(bounded_error(error), used),
                Ok(args) => match entry_step(context, original_cwd, args, answers, used) {
                    Step::Ask(ask) => Step::Ask(ask),
                    Step::Failed(error, used) => Step::Failed(error, used),
                    Step::Done(entry, used) => enter_prepared_step(
                        context,
                        original_cwd,
                        original_roots,
                        entry,
                        answers,
                        used,
                    ),
                },
            },
        },
    }
}

/// The directory and the workspace roots that a session enters a worktree from.
pub open spec fn starting_point(environments: Seq<StateView>) -> Result<
    (Seq<char>, Seq<Seq<char>>),
    CallErrorView,
> {
    match local_primary("enter_worktree"@, environments) {
        Err(error) => Err(error),
        Ok(primary) => match native_cwd("enter_worktree"@, primary.selection.cwd) {
            Err(error) => Err(error),
            Ok(cwd) => match native_roots(primary.selection.workspace_roots) {
                Err(error) => Err(error),
                Ok(roots) => Ok((cwd, roots)),
            },
        },
    }
}

/// What the tool that enters a worktree comes to.
pub open spec fn enter_step(
    context: ContextView,
    payload: PayloadView<EnterArgsView>,
    answers: Seq<ToolAnswer>,
    at: int,
) -> ToolStep<Seq<char>> {
    match payload {
        PayloadView::Unsupported => Step::Failed(
            model_error("enter_worktree"@ + " handler received unsupported payload"@),
            at,
        ),
        PayloadView::Function(arguments) => match starting_point(context.environments) {
            Err(error) => Step::Failed(error, at),
            Ok((original_cwd, original_roots)) => enter_from_step(
                context,
                original_cwd,
                original_roots,
                arguments,
                answers,
                at,
            ),
        },
    }
}

/// Enters the worktree that the payload names, and gives back what the model is told.
pub fn enter_worktree(
    context: &ToolContext,
    payload: &ToolPayload<EnterWorktreeArgs>,
    replies: &Vec<ToolReply>,
    at: usize,
) -> (progress: ToolProgress<String>)
    ensures
        progress.deep_view() == enter_step(
            context.deep_view(),
            payload.deep_view(),
            replies.deep_view(),
            at as int,
        ),
{
    let arguments: &Result<EnterWorktreeArgs, FunctionCallError> = match payload {
        ToolPayload::Function(arguments) => arguments,
        ToolPayload::Unsupported => {
            return Progress::Failed(
                worktree_model_error(
                    concat2(
                        ENTER_WORKTREE_TOOL_NAME,
                        " handler received unsupported payload",
                    ).as_str(),
                ),
                at,
            );
        },
    };
    let primary: &TurnEnvironment = match local_primary_environment(
        ENTER_WORKTREE_TOOL_NAME,
        &context.environments,
    ) {
        Ok(primary) => primary,
        Err(error) => return Progress::Failed(error, at),
    };
    let original_cwd: String = match native_working_directory(
        ENTER_WORKTREE_TOOL_NAME,
        &primary.selection.cwd,
    ) {
        Ok(cwd) => cwd,
        Err(error) => return Progress::Failed(error, at),
    };
    let original_roots: Vec<String> = match native_workspace_roots(
        &primary.selection.workspace_roots,
    ) {
        Ok(roots) => roots,
        Err(error) => return Progress::Failed(error, at),
    };
    let at: usize = match acquire_settings_lock(replies, at) {
        Progress::Ask(ask) => return Progress::Ask(ask),
        Progress::Failed(error, used) => return Progress::Failed(error, used),
        Progress::Done(_, used) => used,
    };
    let at: usize = match active_or_derived_worktree(
        original_cwd.as_str(),
        context.thread_id.as_str(),
        replies,
        at,
    ) {
        Progress::Ask(ask) => return Progress::Ask(ask),
        Progress::Failed(error, used) => return Progress::Failed(error, used),
        Progress::Done(Some(state), used) => {
            return Progress::Failed(
                worktree_model_error(
                    concat3(
                        "already in worktree `",
                        state.active_worktree().worktree_path.as_str(),
                        "`; call exit_worktree before entering another worktree",
                    ).as_str(),
                ),
                used,
            );
        },
        Progress::Done(None, used) => used,
    };
    let args: &EnterWorktreeArgs = match arguments {
        Ok(args) => args,
        Err(error) => {
            return Progress::Failed(bound_worktree_error(error), at);
        },
    };
    let (entry, at): (WorktreeEntry, usize) = match prepare_entry(
        context,
        original_cwd.as_str(),
        args,
        replies,
        at,
    ) {
        Progress::Ask(ask) => return Progress::Ask(ask),
        Progress::Failed(error, used) => return Progress::Failed(error, used),
        Progress::Done(entry, used) => (entry, used),
    };
    enter_prepared(context, original_cwd.as_str(), &original_roots, entry, replies, at)
}

/// The tool that enters a worktree.
pub struct EnterWorktreeHandler;

impl EnterWorktreeHandler {
    /// The name under which the model calls the tool.
    pub fn tool_name(&self) -> (name: &'static str)
        ensures
            name@ == "enter_worktree"@,
    {
        ENTER_WORKTREE_TOOL_NAME
    }

    /// What the model is told of the tool.
    pub fn spec(&self) -> (tool: ToolSpec)
        ensures
            tool.deep_view() == enter_tool(),
    {
        create_enter_worktree_tool()
    }

    /// The tool moves the session, so it runs alone.
    pub fn supports_parallel_tool_calls(&self) -> (supports: bool)
        ensures
            !supports,
    {
        false
    }

    /// Runs the tool.
    pub fn handle(
        &self,
        context: &ToolContext,
        payload: &ToolPayload<EnterWorktreeArgs>,
        replies: &Vec<ToolReply>,
        at: usize,
    ) -> (progress: ToolProgress<String>)
        ensures
            progress.deep_view() == enter_step(
                context.deep_view(),
                payload.deep_view(),
                replies.deep_view(),
                at as int,
            ),
    {
        enter_worktree(context, payload, replies, at)
    }
}

/// The roots of a session are known exactly where each of them is a path of this host: then they
/// are these paths, in their order. Otherwise the first that is none is told with why.
pub proof fn lemma_roots_have_to_be_native(roots: Seq<UriView>, i: int)
    requires
        0 <= i <= roots.len(),
        forall|j: int| 0 <= j < i ==> (#[trigger] roots[j]) is Native,
    ensures
        i == roots.len() ==> (native_roots(roots) matches Ok(paths) && paths.len() == roots.len()
            && forall|j: int| 0 <= j < paths.len() ==> roots[j] == UriView::Native(#[trigger] paths[j])),
        i < roots.len() ==> (roots[i] matches UriView::Foreign { uri: _, problem } ==> native_roots(
            roots,
        ) == Err::<Seq<Seq<char>>, CallErrorView>(
            model_error(
                "enter_worktree"@
                    + " requires native local primary environment workspace roots: "@ + problem,
            ),
        )),
    decreases roots.len(),
{
    if roots.len() > 0 {
        let fewer = roots.drop_last();
        assert forall|j: int| 0 <= j < i && j < fewer.len() implies (#[trigger] fewer[j]) is Native by {
            assert(fewer[j] == roots[j]);
        }
        if i < roots.len() {
            if i < fewer.len() {
                assert(fewer[i] == roots[i]);
            }
            lemma_roots_have_to_be_native(fewer, i);
        } else {
            lemma_roots_have_to_be_native(fewer, fewer.len() as int);
            assert(roots[roots.len() - 1] is Native);
            let paths = native_roots(fewer)->Ok_0.push(roots.last()->Native_0);
            assert forall|j: int| 0 <= j < paths.len() implies roots[j] == UriView::Native(
                #[trigger] paths[j],
            ) by {
                if j < fewer.len() {
                    assert(fewer[j] == roots[j]);
                }
            }
        }
    }
}

} // verus!
