//! Leaving a worktree.

use vstd::prelude::*;
use vstd::string::*;

use crate::bounds::{
    bound_worktree_error, bounded_error, ensure_worktree_output_fits_context, fits_context,
    model_error, output_too_large, worktree_model_error, CallErrorView,
};
use crate::checks::{
    acquire_settings_lock, announce_settings, clear_active_worktree,
    ensure_current_cwd_matches_active_worktree, noted_step, persist_cwd_metadata,
    remove_managed_worktree_blocking, removed_step, still_inside_step, update_settings,
    update_step,
};
use crate::discovery::{active_for_exit_step, active_or_derived_worktree_for_exit};
use crate::enter::{ContextView, PayloadView, ToolContext, ToolPayload};
use crate::environment::{
    cwd_settings_update, local_primary, local_primary_environment, settings_update,
    PrimaryWorkspaceRootsUpdate, RootsUpdateView, SessionSettingsUpdate, UpdateView,
};
use crate::json::object_text;
use crate::output::{exit_members, output, EnterOutputView, ExitOutputView, ExitWorktreeOutput};
use crate::progress::{Progress, Step};
use crate::session::{
    active_of, ActiveStateView, ActiveView, ActiveWorktree, ActiveWorktreeOwnership,
    ActiveWorktreeState, ToolAnswer, ToolAsk, ToolProgress, ToolReply, ToolStep,
};
use crate::text::{concat2, concat3, copy_list};
use crate::tool_spec::{
    create_exit_worktree_tool, exit_tool, ToolSpec, EXIT_WORKTREE_TOOL_NAME,
};

verus! {

/// Whether to keep the worktree that is left.
pub struct ExitWorktreeArgs {
    pub keep: bool,
}

/// The arguments of leaving, in specifications.
pub struct ExitArgsView {
    pub keep: bool,
}

impl DeepView for ExitWorktreeArgs {
    type V = ExitArgsView;

    open spec fn deep_view(&self) -> ExitArgsView {
        ExitArgsView { keep: self.keep }
    }
}

/// A worktree is kept unless the caller says otherwise.
pub fn default_keep_worktree() -> (keep: bool)
    ensures
        keep,
{
    true
}

/// What becomes of the workspace roots when a worktree is left: those of before come back, where
/// they are known. A session that was resumed does not know them, and keeps what it has, so that
/// leaving does not hand write permission to the original checkout.
pub open spec fn roots_for_exit(active: ActiveView) -> RootsUpdateView {
    match active.original_workspace_roots {
        Some(roots) => RootsUpdateView::Replace(roots),
        None => RootsUpdateView::Preserve,
    }
}

/// The change of the settings that leaves a worktree.
pub open spec fn exit_update(
    context: ContextView,
    active: ActiveView,
    current_cwd: Seq<char>,
) -> Result<UpdateView, CallErrorView> {
    settings_update(
        "exit_worktree"@,
        current_cwd,
        active.original_cwd,
        context.environments,
        roots_for_exit(active),
    )
}

/// What leaving gives back, as it is written.
pub open spec fn exit_content(active: ActiveView, keep: bool) -> Seq<char> {
    object_text(
        exit_members(
            ExitOutputView {
                entered: EnterOutputView {
                    cwd: active.original_cwd,
                    worktree_path: active.worktree_path,
                    original_cwd: active.original_cwd,
                    branch: active.branch,
                    name: active.name,
                    created: None,
                },
                keep,
                removed: !keep,
            },
        ),
    )
}

/// What removing the worktree comes to, where it is not kept.
pub open spec fn removal_step(
    active: ActiveView,
    keep: bool,
    answers: Seq<ToolAnswer>,
    at: int,
) -> ToolStep<()> {
    if keep {
        Step::Done((), at)
    } else {
        removed_step(
            ToolAsk::RemoveManaged {
                repository_path: active.original_cwd,
                worktree_path: active.worktree_path,
            },
            answers,
            at,
        )
    }
}

/// What leaving a worktree comes to that the session is known to be in. The worktree is removed
/// before the settings change, so that a refused removal leaves the session where it is.
pub open spec fn leave_step(
    context: ContextView,
    active: ActiveView,
    current_cwd: Seq<char>,
    keep: bool,
    answers: Seq<ToolAnswer>,
    at: int,
) -> ToolStep<Seq<char>> {
    match exit_update(context, active, current_cwd) {
        Err(error) => Step::Failed(error, at),
        Ok(update) => if !fits_context(exit_content(active, keep)) {
            Step::Failed(output_too_large(), at)
        } else {
            match removal_step(active, keep, answers, at) {
                Step::Ask(ask) => Step::Ask(ask),
                Step::Failed(error, used) => Step::Failed(error, used),
                Step::Done(_, used) => match update_step(
                    update,
                    "failed to exit worktree: "@,
                    answers,
                    used,
                ) {
                    Step::Ask(ask) => Step::Ask(ask),
                    Step::Failed(error, used) => Step::Failed(error, used),
                    Step::Done(_, used) => match noted_step(
                        ToolAsk::PersistCwd(active.original_cwd),
                        ToolAnswer::CwdPersisted,
                        answers,
                        used,
                    ) {
                        Step::Ask(ask) => Step::Ask(ask),
                        Step::Failed(error, used) => Step::Failed(error, used),
                        Step::Done(_, used) => match noted_step(
                            ToolAsk::ClearActiveWorktree,
                            ToolAnswer::ActiveCleared,
                            answers,
                            used,
                        ) {
                            Step::Ask(ask) => Step::Ask(ask),
                            Step::Failed(error, used) => Step::Failed(error, used),
                            Step::Done(_, used) => match noted_step(
                                ToolAsk::AnnounceSettings,
                                ToolAnswer::Announced,
                                answers,
                                used,
                            ) {
                                Step::Ask(ask) => Step::Ask(ask),
                                Step::Failed(error, used) => Step::Failed(error, used),
                                Step::Done(_, used) => Step::Done(
                                    exit_content(active, keep),
                                    used,
                                ),
                            },
                        },
                    },
                },
            }
        },
    }
}

fn leave(
    context: &ToolContext,
    active: &ActiveWorktree,
    current_cwd: &str,
    keep: bool,
    replies: &Vec<ToolReply>,
    at: usize,
) -> (progress: ToolProgress<String>)
    ensures
        progress.deep_view() == leave_step(
            context.deep_view(),
            active.deep_view(),
            current_cwd@,
            keep,
            replies.deep_view(),
            at as int,
        ),
{
    let roots: PrimaryWorkspaceRootsUpdate = match &active.original_workspace_roots {
        Some(roots) => PrimaryWorkspaceRootsUpdate::Replace(copy_list(roots)),
        None => PrimaryWorkspaceRootsUpdate::Preserve,
    };
    let update: SessionSettingsUpdate = match cwd_settings_update(
        EXIT_WORKTREE_TOOL_NAME,
        current_cwd,
        active.original_cwd.as_str(),
        &context.environments,
        &roots,
    ) {
        Ok(update) => update,
        Err(error) => return Progress::Failed(error, at),
    };
    let left: ExitWorktreeOutput = ExitWorktreeOutput {
        cwd: active.original_cwd.clone(),
        worktree_path: active.worktree_path.clone(),
        original_cwd: active.original_cwd.clone(),
        branch: active.branch.clone(),
        name: active.name.clone(),
        created: None,
        keep,
        removed: !keep,
    };
    let content: String = left.to_json();
    match ensure_worktree_output_fits_context(content.as_str()) {
        Ok(_) => {},
        Err(error) => return Progress::Failed(error, at),
    }
    let at: usize = if keep {
        at
    } else {
        match remove_managed_worktree_blocking(
            active.original_cwd.as_str(),
            active.worktree_path.as_str(),
            replies,
            at,
        ) {
            Progress::Ask(ask) => return Progress::Ask(ask),
            Progress::Failed(error, used) => return Progress::Failed(error, used),
            Progress::Done(_, used) => used,
        }
    };
    let at: usize = match update_settings(update, "failed to exit worktree: ", replies, at) {
        Progress::Ask(ask) => return Progress::Ask(ask),
        Progress::Failed(error, used) => return Progress::Failed(error, used),
        Progress::Done(_, used) => used,
    };
    let at: usize = match persist_cwd_metadata(active.original_cwd.as_str(), replies, at) {
        Progress::Ask(ask) => return Progress::Ask(ask),
        Progress::Failed(error, used) => return Progress::Failed(error, used),
        Progress::Done(_, used) => used,
    };
    let at: usize = match clear_active_worktree(replies, at) {
        Progress::Ask(ask) => return Progress::Ask(ask),
        Progress::Failed(error, used) => return Progress::Failed(error, used),
        Progress::Done(_, used) => used,
    };
    match announce_settings(replies, at) {
        Progress::Ask(ask) => Progress::Ask(ask),
        Progress::Failed(error, used) => Progress::Failed(error, used),
        Progress::Done(_, used) => match output(content) {
            Ok(content) => Progress::Done(content, used),
            Err(error) => Progress::Failed(error, used),
        },
    }
}

/// What checking comes to that the session is still in its worktree. Where it is not, and the
/// session only remembers the worktree, it forgets it.
pub open spec fn checked_step(
    state: ActiveStateView,
    current_cwd: Seq<char>,
    answers: Seq<ToolAnswer>,
    at: int,
) -> ToolStep<()> {
    match still_inside_step(active_of(state), current_cwd, answers, at) {
        Step::Ask(ask) => Step::Ask(ask),
        Step::Done(_, used) => Step::Done((), used),
        Step::Failed(error, used) => if state is Session {
            match noted_step(
                ToolAsk::ClearActiveWorktree,
                ToolAnswer::ActiveCleared,
                answers,
                used,
            ) {
                Step::Ask(ask) => Step::Ask(ask),
                Step::Failed(error, used) => Step::Failed(error, used),
                Step::Done(_, used) => Step::Failed(error, used),
            }
        } else {
            Step::Failed(error, used)
        },
    }
}

fn check_state(
    state: &ActiveWorktreeState,
    current_cwd: &str,
    replies: &Vec<ToolReply>,
    at: usize,
) -> (progress: ToolProgress<()>)
    ensures
        progress.deep_view() == checked_step(
            state.deep_view(),
            current_cwd@,
            replies.deep_view(),
            at as int,
        ),
{
    match ensure_current_cwd_matches_active_worktree(
        state.active_worktree(),
        current_cwd,
        replies,
        at,
    ) {
        Progress::Ask(ask) => Progress::Ask(ask),
        Progress::Done(_, used) => Progress::Done((), used),
        Progress::Failed(error, used) => match state {
            ActiveWorktreeState::Session(_) => match clear_active_worktree(replies, used) {
                Progress::Ask(ask) => Progress::Ask(ask),
                Progress::Failed(error, used) => Progress::Failed(error, used),
                Progress::Done(_, used) => Progress::Failed(error, used),
            },
            ActiveWorktreeState::Derived(_) => Progress::Failed(error, used),
        },
    }
}

/// What leaving a found worktree comes to. An adopted one is not removed.
pub open spec fn exit_found_step(
    context: ContextView,
    state: ActiveStateView,
    current_cwd: Seq<char>,
    keep: bool,
    answers: Seq<ToolAnswer>,
    at: int,
) -> ToolStep<Seq<char>> {
    let active = active_of(state);
    if !keep && active.ownership is Adopted {
        Step::Failed(
            model_error(
                "cannot remove an adopted workdir `"@ + active.worktree_path
                    + "`; call exit_worktree with `keep: true`"@,
            ),
            at,
        )
    } else {
        match checked_step(state, current_cwd, answers, at) {
            Step::Ask(ask) => Step::Ask(ask),
            Step::Failed(error, used) => Step::Failed(error, used),
            Step::Done(_, used) => match noted_step(
                ToolAsk::LockSettings,
                ToolAnswer::Locked,
                answers,
                used,
            ) {
                Step::Ask(ask) => Step::Ask(ask),
                Step::Failed(error, used) => Step::Failed(error, used),
                Step::Done(_, used) => leave_step(
                    context,
                    active,
                    current_cwd,
                    keep,
                    answers,
                    used,
                ),
            },
        }
    }
}

fn exit_found(
    context: &ToolContext,
    state: &ActiveWorktreeState,
    current_cwd: &str,
    keep: bool,
    replies: &Vec<ToolReply>,
    at: usize,
) -> (progress: ToolProgress<String>)
    ensures
        progress.deep_view() == exit_found_step(
            context.deep_view(),
            state.deep_view(),
            current_cwd@,
            keep,
            replies.deep_view(),
            at as int,
        ),
{
    let active: &ActiveWorktree = state.active_worktree();
    if !keep {
        if let ActiveWorktreeOwnership::Adopted = &active.ownership {
            return Progress::Failed(
                worktree_model_error(
                    concat3(
                        "cannot remove an adopted workdir `",
                        active.worktree_path.as_str(),
                        "`; call exit_worktree with `keep: true`",
                    ).as_str(),
                ),
                at,
            );
        }
    }
    let at: usize = match check_state(state, current_cwd, replies, at) {
        Progress::Ask(ask) => return Progress::Ask(ask),
        Progress::Failed(error, used) => return Progress::Failed(error, used),
        Progress::Done(_, used) => used,
    };
    let at: usize = match acquire_settings_lock(replies, at) {
        Progress::Ask(ask) => return Progress::Ask(ask),
        Progress::Failed(error, used) => return Progress::Failed(error, used),
        Progress::Done(_, used) => used,
    };
    leave(context, active, current_cwd, keep, replies, at)
}

/// What the tool that leaves a worktree comes to.
pub open spec fn exit_step(
    context: ContextView,
    payload: PayloadView<ExitArgsView>,
    answers: Seq<ToolAnswer>,
    at: int,
) -> ToolStep<Seq<char>> {
    match payload {
        PayloadView::Unsupported => Step::Failed(
            model_error("exit_worktree"@ + " handler received unsupported payload"@),
            at,
        ),
        PayloadView::Function(Err(error)) => Step::Failed(bounded_error(error), at),
        PayloadView::Function(Ok(args)) => match local_primary(
            "exit_worktree"@,
            context.environments,
        ) {
            Err(error) => Step::Failed(error, at),
            Ok(_) => match active_for_exit_step(
                "exit_worktree"@,
                context.environments,
                context.thread_id,
                answers,
                at,
            ) {
                Step::Ask(ask) => Step::Ask(ask),
                Step::Failed(error, used) => Step::Failed(error, used),
                Step::Done((state, current_cwd), used) => exit_found_step(
                    context,
                    state,
                    current_cwd,
                    args.keep,
                    answers,
                    used,
                ),
            },
        },
    }
}

/// Leaves the worktree that the session is in, and gives back what the model is told.
pub fn exit_worktree(
    context: &ToolContext,
    payload: &ToolPayload<ExitWorktreeArgs>,
    replies: &Vec<ToolReply>,
    at: usize,
) -> (progress: ToolProgress<String>)
    ensures
        progress.deep_view() == exit_step(
            context.deep_view(),
            payload.deep_view(),
            replies.deep_view(),
            at as int,
        ),
{
    let keep: bool = match payload {
        ToolPayload::Function(Ok(args)) => args.keep,
        ToolPayload::Function(Err(error)) => return Progress::Failed(bound_worktree_error(error), at),
        ToolPayload::Unsupported => {
            return Progress::Failed(
                worktree_model_error(
                    concat2(
                        EXIT_WORKTREE_TOOL_NAME,
                        " handler received unsupported payload",
                    ).as_str(),
                ),
                at,
            );
        },
    };
    match local_primary_environment(EXIT_WORKTREE_TOOL_NAME, &context.environments) {
        Ok(_) => {},
        Err(error) => return Progress::Failed(error, at),
    }
    let (state, current_cwd, at): (ActiveWorktreeState, String, usize) =
        match active_or_derived_worktree_for_exit(
        EXIT_WORKTREE_TOOL_NAME,
        &context.environments,
        context.thread_id.as_str(),
        replies,
        at,
    ) {
        Progress::Ask(ask) => return Progress::Ask(ask),
        Progress::Failed(error, used) => return Progress::Failed(error, used),
        Progress::Done((state, current_cwd), used) => (state, current_cwd, used),
    };
    exit_found(context, &state, current_cwd.as_str(), keep, replies, at)
}

/// The tool that leaves a worktree.
pub struct ExitWorktreeHandler;

impl ExitWorktreeHandler {
    /// The name under which the model calls the tool.
    pub fn tool_name(&self) -> (name: &'static str)
        ensures
            name@ == "exit_worktree"@,
    {
        EXIT_WORKTREE_TOOL_NAME
    }

    /// What the model is told of the tool.
    pub fn spec(&self) -> (tool: ToolSpec)
        ensures
            tool.deep_view() == exit_tool(),
    {
        create_exit_worktree_tool()
    }

    /// The tool moves the session, so it runs alone.
    pub fn supports_parallel_tool_calls(&self) -> (supports: bool)
        ensures
            !supports,
    {
        false
    }

    /// Runs the tool.
    pub fn handle(
        &self,
        context: &ToolContext,
        payload: &ToolPayload<ExitWorktreeArgs>,
        replies: &Vec<ToolReply>,
        at: usize,
    ) -> (progress: ToolProgress<String>)
        ensures
            progress.deep_view() == exit_step(
                context.deep_view(),
                payload.deep_view(),
                replies.deep_view(),
                at as int,
            ),
    {
        exit_worktree(context, payload, replies, at)
    }
}

} // verus!
