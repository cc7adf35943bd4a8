//! Finding the worktree that a session works in.

use vstd::prelude::*;
use vstd::string::*;

use crate::bounds::{
    call_error_message, model_error, worktree_model_error, CallErrorView, FunctionCallError,
};
use crate::checks::{
    absolute_or_fatal, absolute_path, inspect_optional_worktree_blocking,
    inspect_worktree_blocking, inspected_optional_step, inspected_step,
    read_step, read_worktree_metadata_blocking, resolve_path, resolved_step, settled,
};
use crate::environment::{
    no_ready_primary, primary_of, PathUri, StateView, TurnEnvironmentSnapshot, UriView,
};
use crate::metadata::{MetadataView, WorktreeMetadata};
use crate::paths::{
    components, file_name, file_name_of, is_same_path, lemma_a_path_begins_with_its_ancestors,
    lemma_parts_of_child, parent, parent_of, path_below, path_parts, same_path, starts_with, Part,
    PathPart,
};
use crate::progress::{Progress, Step};
use crate::session::{
    result_view, ActiveStateView, ActiveView, ActiveWorktree, ActiveWorktreeOwnership,
    ActiveWorktreeState, OwnershipView, ToolAnswer, ToolAsk, ToolProgress, ToolReply, ToolRequest,
    ToolStep,
};
use crate::text::{concat2, concat3, concat5, same_optional_text, same_text};
use crate::worktree::{
    lemma_valid_name_is_component, managed_dir, managed_path, managed_worktrees_dir, name_problem,
    InfoView, WorktreeInfo,
};

verus! {

/// The checkout that a repository belongs to whose common directory is a `.git` directory.
pub open spec fn original_root(common_dir: Seq<char>) -> Option<Seq<char>> {
    if file_name_of(common_dir) == Some(".git"@) {
        parent_of(common_dir)
    } else {
        None
    }
}

/// The root of the checkout that holds the `.git` directory `common_dir`.
pub fn original_repo_root_from_common_dir(common_dir: &str) -> (root: Option<String>)
    ensures
        root.deep_view() == original_root(common_dir@),
{
    match file_name(common_dir) {
        Some(name) => {
            if same_text(name.as_str(), ".git") {
                parent(common_dir)
            } else {
                None
            }
        },
        None => None,
    }
}

/// The name of the managed worktree with a root: the root is a direct child of the base.
pub open spec fn name_below(managed_base: Seq<char>, repo_root: Seq<char>) -> Option<Seq<char>> {
    match path_below(repo_root, managed_base) {
        Some(rest) => if rest.len() == 1 {
            match rest[0] {
                Part::Normal(name) => Some(name),
                _ => None,
            }
        } else {
            None
        },
        None => None,
    }
}

/// The name of the managed worktree with the root `repo_root`.
pub fn managed_worktree_name_from_base(managed_base: &str, repo_root: &str) -> (name: Option<
    String,
>)
    ensures
        name.deep_view() == name_below(managed_base@, repo_root@),
{
    if !starts_with(repo_root, managed_base) {
        return None;
    }
    let inner: Vec<PathPart> = components(repo_root);
    let outer: Vec<PathPart> = components(managed_base);
    assert(inner.deep_view().len() == inner.len());
    assert(outer.deep_view().len() == outer.len());
    if inner.len() - outer.len() != 1 {
        return None;
    }
    assert(path_below(repo_root@, managed_base@)->0[0] == inner[outer.len() as int].deep_view());
    match &inner[outer.len()] {
        PathPart::Normal(name) => Some(name.clone()),
        _ => None,
    }
}

/// A managed worktree is found again by its name.
pub proof fn lemma_managed_name_is_found(common_dir: Seq<char>, name: Seq<char>)
    requires
        name_problem(name) is None,
    ensures
        name_below(managed_dir(common_dir), managed_path(common_dir, name)) == Some(name),
{
    lemma_valid_name_is_component(name);
    lemma_parts_of_child(managed_dir(common_dir), name);
    let base = path_parts(managed_dir(common_dir));
    let whole = path_parts(managed_path(common_dir, name));
    assert(whole.take(base.len() as int) =~= base);
    assert(whole.skip(base.len() as int) =~= seq![Part::Normal(name)]);
}

/// What finding the name of a managed worktree comes to.
pub open spec fn managed_name_step(
    common_dir: Seq<char>,
    repo_root: Seq<char>,
    answers: Seq<ToolAnswer>,
    at: int,
) -> ToolStep<Option<Seq<char>>> {
    match resolved_step(managed_dir(common_dir), answers, at) {
        Step::Ask(ask) => Step::Ask(ask),
        Step::Failed(error, used) => Step::Failed(error, used),
        Step::Done(None, used) => Step::Done(None, used),
        Step::Done(Some(base), used) => Step::Done(name_below(base, repo_root), used),
    }
}

/// Finds the name of the managed worktree with the root `repo_root`, where it is one.
pub fn managed_worktree_name(
    common_dir: &str,
    repo_root: &str,
    replies: &Vec<ToolReply>,
    at: usize,
) -> (progress: ToolProgress<Option<String>>)
    ensures
        progress.deep_view() == managed_name_step(
            common_dir@,
            repo_root@,
            replies.deep_view(),
            at as int,
        ),
{
    let base: String = managed_worktrees_dir(common_dir);
    match resolve_path(base.as_str(), replies, at) {
        Progress::Ask(ask) => Progress::Ask(ask),
        Progress::Failed(error, used) => Progress::Failed(error, used),
        Progress::Done(None, used) => Progress::Done(None, used),
        Progress::Done(Some(base), used) => Progress::Done(
            managed_worktree_name_from_base(base.as_str(), repo_root),
            used,
        ),
    }
}

/// Who owns a managed worktree: the session that the data beside it names.
pub open spec fn owner_of(
    metadata: Option<MetadataView>,
    owner_thread_id: Seq<char>,
    common_dir: Seq<char>,
) -> OwnershipView {
    if is_owned_by(metadata, owner_thread_id) {
        OwnershipView::ManagedByCodex(common_dir)
    } else {
        OwnershipView::Adopted
    }
}

/// The data beside a managed worktree names the session.
pub open spec fn is_owned_by(metadata: Option<MetadataView>, owner_thread_id: Seq<char>) -> bool {
    match metadata {
        Some(metadata) => metadata.owner_thread_id == Some(owner_thread_id),
        None => false,
    }
}

/// Whether the data beside a managed worktree names the session `owner_thread_id`.
pub fn is_owner(metadata: &Option<WorktreeMetadata>, owner_thread_id: &str) -> (is: bool)
    ensures
        is == is_owned_by(metadata.deep_view(), owner_thread_id@),
{
    match metadata {
        Some(metadata) => same_optional_text(&metadata.owner_thread_id, owner_thread_id),
        None => false,
    }
}

/// What finding the directory comes to that a derived worktree goes back to: the one in the data
/// beside it, which has to belong to the same repository, and otherwise the original checkout.
pub open spec fn derived_origin_step(
    info: InfoView,
    original_repo_root: Seq<char>,
    metadata: Option<MetadataView>,
    answers: Seq<ToolAnswer>,
    at: int,
) -> ToolStep<Seq<char>> {
    match metadata {
        None => settled(
            absolute_or_fatal(original_repo_root, "original repository root"@),
            at,
        ),
        Some(metadata) => match absolute_or_fatal(
            metadata.original_cwd,
            "managed worktree metadata original cwd"@,
        ) {
            Err(error) => Step::Failed(error, at),
            Ok(original_cwd) => match inspected_step(original_cwd, answers, at) {
                Step::Ask(ask) => Step::Ask(ask),
                Step::Failed(error, used) => Step::Failed(
                    model_error(
                        "failed to validate managed worktree metadata: "@ + call_error_message(
                            error,
                        ),
                    ),
                    used,
                ),
                Step::Done(original, used) => if is_same_path(
                    original.common_dir,
                    info.common_dir,
                ) {
                    Step::Done(original_cwd, used)
                } else {
                    Step::Failed(
                        model_error(
                            "managed worktree metadata points to git common dir `"@
                                + original.common_dir + "`, expected `"@ + info.common_dir + "`"@,
                        ),
                        used,
                    )
                },
            },
        },
    }
}

fn derived_origin(
    info: &WorktreeInfo,
    original_repo_root: &str,
    metadata: &Option<WorktreeMetadata>,
    replies: &Vec<ToolReply>,
    at: usize,
) -> (progress: ToolProgress<String>)
    ensures
        progress.deep_view() == derived_origin_step(
            info.deep_view(),
            original_repo_root@,
            metadata.deep_view(),
            replies.deep_view(),
            at as int,
        ),
{
    let metadata: &WorktreeMetadata = match metadata {
        None => {
            return match absolute_path(original_repo_root, "original repository root") {
                Ok(path) => Progress::Done(path, at),
                Err(error) => Progress::Failed(error, at),
            };
        },
        Some(metadata) => metadata,
    };
    let original_cwd: String = match absolute_path(
        metadata.original_cwd.as_str(),
        "managed worktree metadata original cwd",
    ) {
        Ok(path) => path,
        Err(error) => return Progress::Failed(error, at),
    };
    match inspect_worktree_blocking(original_cwd.as_str(), replies, at) {
        Progress::Ask(ask) => Progress::Ask(ask),
        Progress::Failed(error, used) => Progress::Failed(
            worktree_model_error(
                concat2(
                    "failed to validate managed worktree metadata: ",
                    error.message().as_str(),
                ).as_str(),
            ),
            used,
        ),
        Progress::Done(original, used) => {
            if same_path(original.common_dir.as_str(), info.common_dir.as_str()) {
                Progress::Done(original_cwd, used)
            } else {
                Progress::Failed(
                    worktree_model_error(
                        concat5(
                            "managed worktree metadata points to git common dir `",
                            original.common_dir.as_str(),
                            "`, expected `",
                            info.common_dir.as_str(),
                            "`",
                        ).as_str(),
                    ),
                    used,
                )
            }
        },
    }
}

/// What putting a derived worktree together comes to, once its name is known.
pub open spec fn derived_named_step(
    info: InfoView,
    name: Seq<char>,
    original_repo_root: Seq<char>,
    owner_thread_id: Seq<char>,
    answers: Seq<ToolAnswer>,
    at: int,
) -> ToolStep<Option<ActiveView>> {
    match read_step(info.common_dir, name, answers, at) {
        Step::Ask(ask) => Step::Ask(ask),
        Step::Failed(error, used) => Step::Failed(error, used),
        Step::Done(metadata, used) => match derived_origin_step(
            info,
            original_repo_root,
            metadata,
            answers,
            used,
        ) {
            Step::Ask(ask) => Step::Ask(ask),
            Step::Failed(error, used) => Step::Failed(error, used),
            Step::Done(original_cwd, used) => match absolute_or_fatal(
                info.repo_root,
                "worktree path"@,
            ) {
                Err(error) => Step::Failed(error, used),
                Ok(worktree_path) => Step::Done(
                    Some(
                        ActiveView {
                            original_cwd,
                            original_workspace_roots: None,
                            worktree_path,
                            branch: info.current_branch,
                            name: Some(name),
                            ownership: owner_of(metadata, owner_thread_id, info.common_dir),
                        },
                    ),
                    used,
                ),
            },
        },
    }
}

fn derive_named(
    info: WorktreeInfo,
    name: String,
    original_repo_root: &str,
    owner_thread_id: &str,
    replies: &Vec<ToolReply>,
    at: usize,
) -> (progress: ToolProgress<Option<ActiveWorktree>>)
    ensures
        progress.deep_view() == derived_named_step(
            info.deep_view(),
            name@,
            original_repo_root@,
            owner_thread_id@,
            replies.deep_view(),
            at as int,
        ),
{
    let (metadata, at): (Option<WorktreeMetadata>, usize) = match read_worktree_metadata_blocking(
        info.common_dir.as_str(),
        name.as_str(),
        replies,
        at,
    ) {
        Progress::Ask(ask) => return Progress::Ask(ask),
        Progress::Failed(error, used) => return Progress::Failed(error, used),
        Progress::Done(metadata, used) => (metadata, used),
    };
    let (original_cwd, at): (String, usize) = match derived_origin(
        &info,
        original_repo_root,
        &metadata,
        replies,
        at,
    ) {
        Progress::Ask(ask) => return Progress::Ask(ask),
        Progress::Failed(error, used) => return Progress::Failed(error, used),
        Progress::Done(original_cwd, used) => (original_cwd, used),
    };
    let worktree_path: String = match absolute_path(info.repo_root.as_str(), "worktree path") {
        Ok(path) => path,
        Err(error) => return Progress::Failed(error, at),
    };
    let ownership: ActiveWorktreeOwnership = if is_owner(&metadata, owner_thread_id) {
        ActiveWorktreeOwnership::ManagedByCodex(info.common_dir.clone())
    } else {
        ActiveWorktreeOwnership::Adopted
    };
    Progress::Done(
        Some(
            ActiveWorktree {
                original_cwd,
                original_workspace_roots: None,
                worktree_path,
                branch: info.current_branch,
                name: Some(name),
                ownership,
            },
        ),
        at,
    )
}

/// What finding a worktree from the current directory comes to: the directory has to be in a
/// checkout whose root is a direct child of the directory of the managed worktrees, and the
/// repository has to have an original checkout. Otherwise there is none.
pub open spec fn derived_step(
    current_cwd: Seq<char>,
    owner_thread_id: Seq<char>,
    answers: Seq<ToolAnswer>,
    at: int,
) -> ToolStep<Option<ActiveView>> {
    match inspected_optional_step(current_cwd, answers, at) {
        Step::Ask(ask) => Step::Ask(ask),
        Step::Failed(error, used) => Step::Failed(error, used),
        Step::Done(None, used) => Step::Done(None, used),
        Step::Done(Some(info), used) => match resolved_step(
            managed_dir(info.common_dir),
            answers,
            used,
        ) {
            Step::Ask(ask) => Step::Ask(ask),
            Step::Failed(error, used) => Step::Failed(error, used),
            Step::Done(None, used) => Step::Done(None, used),
            Step::Done(Some(base), used) => match (
                name_below(base, info.repo_root),
                original_root(info.common_dir),
            ) {
                (Some(name), Some(original_repo_root)) => derived_named_step(
                    info,
                    name,
                    original_repo_root,
                    owner_thread_id,
                    answers,
                    used,
                ),
                _ => Step::Done(None, used),
            },
        },
    }
}

/// Finds the worktree that holds the directory `current_cwd`, where it is a managed one.
pub fn derive_active_worktree_from_cwd(
    current_cwd: &str,
    owner_thread_id: &str,
    replies: &Vec<ToolReply>,
    at: usize,
) -> (progress: ToolProgress<Option<ActiveWorktree>>)
    ensures
        progress.deep_view() == derived_step(
            current_cwd@,
            owner_thread_id@,
            replies.deep_view(),
            at as int,
        ),
{
    let (info, at): (WorktreeInfo, usize) = match inspect_optional_worktree_blocking(
        current_cwd,
        replies,
        at,
    ) {
        Progress::Ask(ask) => return Progress::Ask(ask),
        Progress::Failed(error, used) => return Progress::Failed(error, used),
        Progress::Done(None, used) => return Progress::Done(None, used),
        Progress::Done(Some(info), used) => (info, used),
    };
    let unresolved: String = managed_worktrees_dir(info.common_dir.as_str());
    let (managed_base, at): (String, usize) = match resolve_path(
        unresolved.as_str(),
        replies,
        at,
    ) {
        Progress::Ask(ask) => return Progress::Ask(ask),
        Progress::Failed(error, used) => return Progress::Failed(error, used),
        Progress::Done(None, used) => return Progress::Done(None, used),
        Progress::Done(Some(base), used) => (base, used),
    };
    if !starts_with(info.repo_root.as_str(), managed_base.as_str()) {
        return Progress::Done(None, at);
    }
    let name: String = match managed_worktree_name_from_base(
        managed_base.as_str(),
        info.repo_root.as_str(),
    ) {
        Some(name) => name,
        None => return Progress::Done(None, at),
    };
    let original_repo_root: String = match original_repo_root_from_common_dir(
        info.common_dir.as_str(),
    ) {
        Some(root) => root,
        None => return Progress::Done(None, at),
    };
    derive_named(info, name, original_repo_root.as_str(), owner_thread_id, replies, at)
}

/// What asking the session for its active worktree comes to.
pub open spec fn remembered_step(answers: Seq<ToolAnswer>, at: int) -> ToolStep<
    Option<ActiveView>,
> {
    if 0 <= at < answers.len() && answers[at] is Active {
        Step::Done(answers[at]->Active_0, at + 1)
    } else {
        Step::Ask(ToolAsk::ActiveWorktree)
    }
}

fn remembered_worktree(replies: &Vec<ToolReply>, at: usize) -> (progress: ToolProgress<
    Option<ActiveWorktree>,
>)
    ensures
        progress.deep_view() == remembered_step(replies.deep_view(), at as int),
{
    if at < replies.len() {
        assert(replies.deep_view()[at as int] == replies[at as int].deep_view());
        if let ToolReply::Active(active) = &replies[at] {
            return match active {
                Some(active) => Progress::Done(Some(active.copy()), at + 1),
                None => Progress::Done(None, at + 1),
            };
        }
    }
    Progress::Ask(ToolRequest::ActiveWorktree)
}

/// What finding the active worktree comes to: the one that the session remembers, and otherwise
/// the one that the current directory is in.
pub open spec fn active_step(
    current_cwd: Seq<char>,
    owner_thread_id: Seq<char>,
    answers: Seq<ToolAnswer>,
    at: int,
) -> ToolStep<Option<ActiveStateView>> {
    match remembered_step(answers, at) {
        Step::Ask(ask) => Step::Ask(ask),
        Step::Failed(error, used) => Step::Failed(error, used),
        Step::Done(Some(active), used) => Step::Done(Some(ActiveStateView::Session(active)), used),
        Step::Done(None, used) => match derived_step(current_cwd, owner_thread_id, answers, used) {
            Step::Ask(ask) => Step::Ask(ask),
            Step::Failed(error, used) => Step::Failed(error, used),
            Step::Done(Some(active), used) => Step::Done(
                Some(ActiveStateView::Derived(active)),
                used,
            ),
            Step::Done(None, used) => Step::Done(None, used),
        },
    }
}

/// Finds the worktree that the session works in, where it works in one.
pub fn active_or_derived_worktree(
    current_cwd: &str,
    owner_thread_id: &str,
    replies: &Vec<ToolReply>,
    at: usize,
) -> (progress: ToolProgress<Option<ActiveWorktreeState>>)
    ensures
        progress.deep_view() == active_step(
            current_cwd@,
            owner_thread_id@,
            replies.deep_view(),
            at as int,
        ),
{
    let at: usize = match remembered_worktree(replies, at) {
        Progress::Ask(ask) => return Progress::Ask(ask),
        Progress::Failed(error, used) => return Progress::Failed(error, used),
        Progress::Done(Some(active), used) => {
            return Progress::Done(Some(ActiveWorktreeState::Session(active)), used);
        },
        Progress::Done(None, used) => used,
    };
    match derive_active_worktree_from_cwd(current_cwd, owner_thread_id, replies, at) {
        Progress::Ask(ask) => Progress::Ask(ask),
        Progress::Failed(error, used) => Progress::Failed(error, used),
        Progress::Done(Some(active), used) => Progress::Done(
            Some(ActiveWorktreeState::Derived(active)),
            used,
        ),
        Progress::Done(None, used) => Progress::Done(None, used),
    }
}

/// The working directory of an environment, which has to be a path of this host.
pub open spec fn native_cwd(tool_name: Seq<char>, cwd: UriView) -> Result<
    Seq<char>,
    CallErrorView,
> {
    match cwd {
        UriView::Native(path) => Ok(path),
        UriView::Foreign { uri: _, problem } => Err(
            model_error(
                tool_name + " requires a native local primary environment cwd: "@ + problem,
            ),
        ),
    }
}

/// The path of this host that the working directory `cwd` is.
pub fn native_working_directory(tool_name: &str, cwd: &PathUri) -> (path: Result<
    String,
    FunctionCallError,
>)
    ensures
        result_view(path) == native_cwd(tool_name@, cwd.deep_view()),
{
    match cwd {
        PathUri::Native(path) => Ok(path.clone()),
        PathUri::Foreign { uri: _, problem } => Err(
            worktree_model_error(
                concat3(
                    tool_name,
                    " requires a native local primary environment cwd: ",
                    problem.as_str(),
                ).as_str(),
            ),
        ),
    }
}

/// What finding the worktree to leave comes to, and the directory that is left.
pub open spec fn active_for_exit_step(
    tool_name: Seq<char>,
    environments: Seq<StateView>,
    owner_thread_id: Seq<char>,
    answers: Seq<ToolAnswer>,
    at: int,
) -> ToolStep<(ActiveStateView, Seq<char>)> {
    match primary_of(environments) {
        None => Step::Failed(no_ready_primary(tool_name), at),
        Some(primary) => match native_cwd(tool_name, primary.selection.cwd) {
            Err(error) => Step::Failed(error, at),
            Ok(current_cwd) => match active_step(current_cwd, owner_thread_id, answers, at) {
                Step::Ask(ask) => Step::Ask(ask),
                Step::Failed(error, used) => Step::Failed(error, used),
                Step::Done(None, used) => Step::Failed(
                    model_error("no active worktree to exit"@),
                    used,
                ),
                Step::Done(Some(active), used) => Step::Done((active, current_cwd), used),
            },
        },
    }
}

/// Finds the worktree that the session is to leave, and the directory that it leaves.
pub fn active_or_derived_worktree_for_exit(
    tool_name: &str,
    environments: &TurnEnvironmentSnapshot,
    owner_thread_id: &str,
    replies: &Vec<ToolReply>,
    at: usize,
) -> (progress: ToolProgress<(ActiveWorktreeState, String)>)
    ensures
        progress.deep_view() == active_for_exit_step(
            tool_name@,
            environments.deep_view(),
            owner_thread_id@,
            replies.deep_view(),
            at as int,
        ),
{
    let current_cwd: String = match environments.primary() {
        None => {
            return Progress::Failed(
                worktree_model_error(
                    concat2(
                        tool_name,
                        " requires a local primary environment that is ready",
                    ).as_str(),
                ),
                at,
            );
        },
        Some(primary) => match native_working_directory(tool_name, &primary.selection.cwd) {
            Ok(path) => path,
            Err(error) => return Progress::Failed(error, at),
        },
    };
    match active_or_derived_worktree(current_cwd.as_str(), owner_thread_id, replies, at) {
        Progress::Ask(ask) => Progress::Ask(ask),
        Progress::Failed(error, used) => Progress::Failed(error, used),
        Progress::Done(None, used) => Progress::Failed(
            worktree_model_error("no active worktree to exit"),
            used,
        ),
        Progress::Done(Some(active), used) => Progress::Done((active, current_cwd), used),
    }
}

/// A checkout is found under a name exactly where its root is a direct child of the directory of
/// the managed worktrees, and the name is that of the child.
pub proof fn lemma_a_direct_child_is_named(base: Seq<char>, root: Seq<char>, name: Seq<char>)
    ensures
        name_below(base, root) == Some(name) <==> path_parts(root) == path_parts(base).push(
            Part::Normal(name),
        ),
{
    let rest = seq![Part::Normal(name)];
    lemma_a_path_begins_with_its_ancestors(root, base, rest);
    assert(path_parts(base) + rest =~= path_parts(base).push(Part::Normal(name)));
    if name_below(base, root) == Some(name) {
        assert(path_below(root, base)->0 =~= rest);
    }
}

/// The original checkout of a repository is the directory that holds its common directory, where
/// that is named `.git`; a repository with any other common directory has none.
pub proof fn lemma_the_original_checkout_holds_the_git_directory(common_dir: Seq<char>)
    ensures
        original_root(common_dir) is Some <==> path_parts(common_dir).len() > 0 && path_parts(
            common_dir,
        ).last() == Part::Normal(seq!['.', 'g', 'i', 't']),
        original_root(common_dir) matches Some(root) ==> path_parts(common_dir) == path_parts(
            root,
        ).push(Part::Normal(seq!['.', 'g', 'i', 't'])),
{
    reveal_strlit(".git");
    assert(".git"@ =~= seq!['.', 'g', 'i', 't']);
    let parts = path_parts(common_dir);
    if let Some(root) = original_root(common_dir) {
        crate::paths::lemma_path_parts_list(common_dir);
        let shorter = parts.drop_last();
        assert forall|i: int| 0 <= i < shorter.len() implies crate::paths::is_inner_part(
            #[trigger] shorter[i],
        ) || (i == 0 && (shorter[i] is Root || shorter[i] is Current)) by {
            assert(parts[i] == shorter[i]);
        }
        crate::paths::lemma_parts_of_rendered(shorter);
        assert(shorter.push(parts.last()) =~= parts);
    }
}

/// A managed worktree belongs to the session that the data beside it names as its owner, and to
/// nobody where there is no data or it names nobody.
pub proof fn lemma_the_data_names_the_owner(data: MetadataView, session: Seq<char>)
    ensures
        is_owned_by(Some(data), session) <==> (data.owner_thread_id matches Some(owner) && owner
            == session),
        !is_owned_by(None, session),
        forall|data: Option<MetadataView>, common_dir: Seq<char>| #[trigger]
            owner_of(data, session, common_dir) == (if is_owned_by(data, session) {
                OwnershipView::ManagedByCodex(common_dir)
            } else {
                OwnershipView::Adopted
            }),
{
}

/// What is found from a directory depends on the directory only through what git reports of it:
/// wherever in a checkout the session is, the same worktree is found.
pub proof fn lemma_the_checkout_decides_the_worktree(
    a: Seq<char>,
    b: Seq<char>,
    owner_thread_id: Seq<char>,
    answers: Seq<ToolAnswer>,
    at: int,
)
    requires
        0 <= at < answers.len(),
        answers[at] is Inspected,
    ensures
        derived_step(a, owner_thread_id, answers, at) == derived_step(
            b,
            owner_thread_id,
            answers,
            at,
        ),
{
}

/// A tool works at a path of this host; another location is told with why it is none.
pub proof fn lemma_tools_work_at_a_native_path(
    tool_name: Seq<char>,
    path: Seq<char>,
    uri: Seq<char>,
    problem: Seq<char>,
)
    ensures
        native_cwd(tool_name, UriView::Native(path)) == Ok::<Seq<char>, CallErrorView>(path),
        native_cwd(tool_name, UriView::Foreign { uri, problem }) == Err::<
            Seq<char>,
            CallErrorView,
        >(
            model_error(
                tool_name + " requires a native local primary environment cwd: "@ + problem,
            ),
        ),
{
}

} // verus!
