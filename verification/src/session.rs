//! What the worktree tools know of a session, and what they ask of it.

use vstd::prelude::*;
use vstd::string::*;

use crate::bounds::{CallErrorView, FunctionCallError};
use crate::environment::{SessionSettingsUpdate, UpdateView};
use crate::errors::{GitErrorView, GitToolingError};
use crate::managed::{ManagedView, ManagedWorktree};
use crate::metadata::{MetadataView, WorktreeMetadata};
use crate::progress::{Progress, Step};
use crate::text::copy_list;
use crate::worktree::{InfoView, WorktreeInfo};

verus! {

/// Who may remove a worktree that a session works in.
pub enum ActiveWorktreeOwnership {
    /// The session created it, in the repository with this common directory.
    ManagedByCodex(String),
    /// It was there before.
    Adopted,
}

/// The worktree that a session works in.
pub struct ActiveWorktree {
    /// Where the session was before.
    pub original_cwd: String,
    /// The workspace roots that the session had before, where they are known.
    pub original_workspace_roots: Option<Vec<String>>,
    pub worktree_path: String,
    pub branch: Option<String>,
    pub name: Option<String>,
    pub ownership: ActiveWorktreeOwnership,
}

/// How a worktree came to be known as the active one.
pub enum ActiveWorktreeState {
    /// The session remembers it.
    Session(ActiveWorktree),
    /// It was found from the working directory.
    Derived(ActiveWorktree),
}

/// An ownership, in specifications.
pub enum OwnershipView {
    ManagedByCodex(Seq<char>),
    Adopted,
}

/// An active worktree, in specifications.
pub struct ActiveView {
    pub original_cwd: Seq<char>,
    pub original_workspace_roots: Option<Seq<Seq<char>>>,
    pub worktree_path: Seq<char>,
    pub branch: Option<Seq<char>>,
    pub name: Option<Seq<char>>,
    pub ownership: OwnershipView,
}

/// A known active worktree, in specifications.
pub enum ActiveStateView {
    Session(ActiveView),
    Derived(ActiveView),
}

impl DeepView for ActiveWorktreeOwnership {
    type V = OwnershipView;

    open spec fn deep_view(&self) -> OwnershipView {
        match self {
            ActiveWorktreeOwnership::ManagedByCodex(common_dir) => OwnershipView::ManagedByCodex(
                common_dir@,
            ),
            ActiveWorktreeOwnership::Adopted => OwnershipView::Adopted,
        }
    }
}

impl DeepView for ActiveWorktree {
    type V = ActiveView;

    open spec fn deep_view(&self) -> ActiveView {
        ActiveView {
            original_cwd: self.original_cwd@,
            original_workspace_roots: self.original_workspace_roots.deep_view(),
            worktree_path: self.worktree_path@,
            branch: self.branch.deep_view(),
            name: self.name.deep_view(),
            ownership: self.ownership.deep_view(),
        }
    }
}

impl DeepView for ActiveWorktreeState {
    type V = ActiveStateView;

    open spec fn deep_view(&self) -> ActiveStateView {
        match self {
            ActiveWorktreeState::Session(active) => ActiveStateView::Session(active.deep_view()),
            ActiveWorktreeState::Derived(active) => ActiveStateView::Derived(active.deep_view()),
        }
    }
}

/// The worktree itself.
pub open spec fn active_of(state: ActiveStateView) -> ActiveView {
    match state {
        ActiveStateView::Session(active) => active,
        ActiveStateView::Derived(active) => active,
    }
}

impl ActiveWorktreeState {
    /// The worktree itself.
    pub fn active_worktree(&self) -> (active: &ActiveWorktree)
        ensures
            active.deep_view() == active_of(self.deep_view()),
    {
        match self {
            ActiveWorktreeState::Session(active) => active,
            ActiveWorktreeState::Derived(active) => active,
        }
    }
}

impl ActiveWorktreeOwnership {
    /// The ownership again.
    pub fn copy(&self) -> (copy: ActiveWorktreeOwnership)
        ensures
            copy.deep_view() == self.deep_view(),
    {
        match self {
            ActiveWorktreeOwnership::ManagedByCodex(common_dir) =>
                ActiveWorktreeOwnership::ManagedByCodex(common_dir.clone()),
            ActiveWorktreeOwnership::Adopted => ActiveWorktreeOwnership::Adopted,
        }
    }
}

fn copy_optional_list(list: &Option<Vec<String>>) -> (copy: Option<Vec<String>>)
    ensures
        copy.deep_view() == list.deep_view(),
{
    match list {
        Some(list) => Some(copy_list(list)),
        None => None,
    }
}

impl ActiveWorktree {
    /// The worktree again.
    pub fn copy(&self) -> (copy: ActiveWorktree)
        ensures
            copy.deep_view() == self.deep_view(),
    {
        ActiveWorktree {
            original_cwd: self.original_cwd.clone(),
            original_workspace_roots: copy_optional_list(&self.original_workspace_roots),
            worktree_path: self.worktree_path.clone(),
            branch: self.branch.clone(),
            name: self.name.clone(),
            ownership: self.ownership.copy(),
        }
    }
}

/// How an operation ended that was handed to another task.
pub enum BlockingOutcome<T> {
    Finished(T),
    /// The task did not come back.
    JoinFailed(String),
}

/// Such an ending, in specifications.
pub enum BlockingView<V> {
    Finished(V),
    JoinFailed(Seq<char>),
}

/// What reading the data beside a managed worktree gave.
pub enum MetadataRead {
    /// There is no file.
    Missing,
    /// The file could not be read.
    Unreadable(String),
    /// The file does not hold the data.
    Malformed(String),
    Present(WorktreeMetadata),
}

/// What reading the data gave, in specifications.
pub enum MetadataReadView {
    Missing,
    Unreadable(Seq<char>),
    Malformed(Seq<char>),
    Present(MetadataView),
}

/// What a worktree tool needs done.
pub enum ToolRequest {
    /// Hold the lock on the settings of the thread until the tool ends.
    LockSettings,
    /// Say which worktree the session remembers as the active one.
    ActiveWorktree,
    /// Inspect the checkout that holds a path.
    Inspect(String),
    /// Resolve a path to its canonical, absolute form.
    Canonicalize(String),
    /// Say whether a path is a directory.
    IsDirectory(String),
    /// Say whether a canonical path is covered by one of the writable roots that the session has in
    /// the directory `cwd`.
    PathWritable { path: String, cwd: String },
    /// Read the data that is kept in a file.
    ReadMetadata(String),
    /// Write a file.
    WriteMetadata { path: String, content: String },
    /// Create or reuse a managed worktree.
    CreateManaged { repository_path: String, name: String },
    /// Take back a worktree that was just created, and its branch.
    RemoveCreated {
        repository_path: String,
        worktree_path: String,
        created_branch: Option<String>,
    },
    /// Remove a managed worktree.
    RemoveManaged { repository_path: String, worktree_path: String },
    /// Change the settings of the session.
    UpdateSettings(SessionSettingsUpdate),
    /// Keep the working directory with the thread.
    PersistCwd(String),
    /// Remember the active worktree.
    SetActiveWorktree(ActiveWorktree),
    /// Forget the active worktree.
    ClearActiveWorktree,
    /// Tell the client which settings hold now.
    AnnounceSettings,
}

/// The answer to a request.
pub enum ToolReply {
    Locked,
    Active(Option<ActiveWorktree>),
    Inspected(BlockingOutcome<Result<WorktreeInfo, GitToolingError>>),
    Canonical(Result<String, String>),
    Directory(bool),
    Writable(bool),
    MetadataRead(BlockingOutcome<MetadataRead>),
    MetadataWritten(BlockingOutcome<Result<(), String>>),
    Managed(BlockingOutcome<Result<ManagedWorktree, GitToolingError>>),
    Removed(BlockingOutcome<Result<(), GitToolingError>>),
    Updated(Result<(), String>),
    CwdPersisted,
    ActiveSet,
    ActiveCleared,
    Announced,
}

/// A request, in specifications.
pub enum ToolAsk {
    LockSettings,
    ActiveWorktree,
    Inspect(Seq<char>),
    Canonicalize(Seq<char>),
    IsDirectory(Seq<char>),
    PathWritable { path: Seq<char>, cwd: Seq<char> },
    ReadMetadata(Seq<char>),
    WriteMetadata { path: Seq<char>, content: Seq<char> },
    CreateManaged { repository_path: Seq<char>, name: Seq<char> },
    RemoveCreated {
        repository_path: Seq<char>,
        worktree_path: Seq<char>,
        created_branch: Option<Seq<char>>,
    },
    RemoveManaged { repository_path: Seq<char>, worktree_path: Seq<char> },
    UpdateSettings(UpdateView),
    PersistCwd(Seq<char>),
    SetActiveWorktree(ActiveView),
    ClearActiveWorktree,
    AnnounceSettings,
}

/// An answer, in specifications.
pub enum ToolAnswer {
    Locked,
    Active(Option<ActiveView>),
    Inspected(BlockingView<Result<InfoView, GitErrorView>>),
    Canonical(Result<Seq<char>, Seq<char>>),
    Directory(bool),
    Writable(bool),
    MetadataRead(BlockingView<MetadataReadView>),
    MetadataWritten(BlockingView<Result<(), Seq<char>>>),
    Managed(BlockingView<Result<ManagedView, GitErrorView>>),
    Removed(BlockingView<Result<(), GitErrorView>>),
    Updated(Result<(), Seq<char>>),
    CwdPersisted,
    ActiveSet,
    ActiveCleared,
    Announced,
}

impl DeepView for MetadataRead {
    type V = MetadataReadView;

    open spec fn deep_view(&self) -> MetadataReadView {
        match self {
            MetadataRead::Missing => MetadataReadView::Missing,
            MetadataRead::Unreadable(problem) => MetadataReadView::Unreadable(problem@),
            MetadataRead::Malformed(problem) => MetadataReadView::Malformed(problem@),
            MetadataRead::Present(metadata) => MetadataReadView::Present(metadata.deep_view()),
        }
    }
}

/// A result, in specifications.
pub open spec fn result_view<T: DeepView, E: DeepView>(result: Result<T, E>) -> Result<T::V, E::V> {
    match result {
        Ok(value) => Ok(value.deep_view()),
        Err(error) => Err(error.deep_view()),
    }
}

/// The ending of an operation with a result, in specifications.
pub open spec fn outcome_view<T: DeepView, E: DeepView>(
    outcome: BlockingOutcome<Result<T, E>>,
) -> BlockingView<Result<T::V, E::V>> {
    match outcome {
        BlockingOutcome::Finished(result) => BlockingView::Finished(result_view(result)),
        BlockingOutcome::JoinFailed(problem) => BlockingView::JoinFailed(problem@),
    }
}

impl DeepView for ToolRequest {
    type V = ToolAsk;

    open spec fn deep_view(&self) -> ToolAsk {
        match self {
            ToolRequest::LockSettings => ToolAsk::LockSettings,
            ToolRequest::ActiveWorktree => ToolAsk::ActiveWorktree,
            ToolRequest::Inspect(path) => ToolAsk::Inspect(path@),
            ToolRequest::Canonicalize(path) => ToolAsk::Canonicalize(path@),
            ToolRequest::IsDirectory(path) => ToolAsk::IsDirectory(path@),
            ToolRequest::PathWritable { path, cwd } => ToolAsk::PathWritable { path: path@, cwd: cwd@ },
            ToolRequest::ReadMetadata(path) => ToolAsk::ReadMetadata(path@),
            ToolRequest::WriteMetadata { path, content } => ToolAsk::WriteMetadata {
                path: path@,
                content: content@,
            },
            ToolRequest::CreateManaged { repository_path, name } => ToolAsk::CreateManaged {
                repository_path: repository_path@,
                name: name@,
            },
            ToolRequest::RemoveCreated { repository_path, worktree_path, created_branch } =>
                ToolAsk::RemoveCreated {
                repository_path: repository_path@,
                worktree_path: worktree_path@,
                created_branch: created_branch.deep_view(),
            },
            ToolRequest::RemoveManaged { repository_path, worktree_path } =>
                ToolAsk::RemoveManaged {
                repository_path: repository_path@,
                worktree_path: worktree_path@,
            },
            ToolRequest::UpdateSettings(update) => ToolAsk::UpdateSettings(update.deep_view()),
            ToolRequest::PersistCwd(path) => ToolAsk::PersistCwd(path@),
            ToolRequest::SetActiveWorktree(active) => ToolAsk::SetActiveWorktree(
                active.deep_view(),
            ),
            ToolRequest::ClearActiveWorktree => ToolAsk::ClearActiveWorktree,
            ToolRequest::AnnounceSettings => ToolAsk::AnnounceSettings,
        }
    }
}

impl DeepView for ToolReply {
    type V = ToolAnswer;

    open spec fn deep_view(&self) -> ToolAnswer {
        match self {
            ToolReply::Locked => ToolAnswer::Locked,
            ToolReply::Active(active) => ToolAnswer::Active(active.deep_view()),
            ToolReply::Inspected(outcome) => ToolAnswer::Inspected(outcome_view(*outcome)),
            ToolReply::Canonical(result) => ToolAnswer::Canonical(result_view(*result)),
            ToolReply::Directory(is) => ToolAnswer::Directory(*is),
            ToolReply::Writable(is) => ToolAnswer::Writable(*is),
            ToolReply::MetadataRead(BlockingOutcome::Finished(read)) => ToolAnswer::MetadataRead(
                BlockingView::Finished(read.deep_view()),
            ),
            ToolReply::MetadataRead(BlockingOutcome::JoinFailed(problem)) =>
                ToolAnswer::MetadataRead(BlockingView::JoinFailed(problem@)),
            ToolReply::MetadataWritten(outcome) => ToolAnswer::MetadataWritten(
                outcome_view(*outcome),
            ),
            ToolReply::Managed(outcome) => ToolAnswer::Managed(outcome_view(*outcome)),
            ToolReply::Removed(outcome) => ToolAnswer::Removed(outcome_view(*outcome)),
            ToolReply::Updated(result) => ToolAnswer::Updated(result_view(*result)),
            ToolReply::CwdPersisted => ToolAnswer::CwdPersisted,
            ToolReply::ActiveSet => ToolAnswer::ActiveSet,
            ToolReply::ActiveCleared => ToolAnswer::ActiveCleared,
            ToolReply::Announced => ToolAnswer::Announced,
        }
    }
}

/// How far a worktree tool gets.
pub type ToolProgress<T> = Progress<ToolRequest, FunctionCallError, T>;

/// How far a worktree tool gets, in specifications.
pub type ToolStep<T> = Step<ToolAsk, CallErrorView, T>;

/// The worktree of a session is the same one whether it is remembered or was found.
pub proof fn lemma_an_active_worktree_is_itself(active: ActiveView)
    ensures
        active_of(ActiveStateView::Session(active)) == active,
        active_of(ActiveStateView::Derived(active)) == active,
{
}

} // verus!
