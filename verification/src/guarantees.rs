//! What holds of the worktree tools, whatever answers they are given.

use vstd::prelude::*;

use crate::bounds::{fits_context, model_error, CallErrorView};
use crate::checks::{inspected_step, managed_step, matching_step, read_step, write_step};
use crate::discovery::{active_for_exit_step, active_step, derived_named_step};
use crate::enter::{
    adopted_entry_step, created_entry_step, described_entry_step, enter_prepared_step, enter_step,
    enter_update, entered_worktree, entry_content, entry_step, managed_entry_step,
    managed_ownership_step, native_roots, recorded_step, same_session_step, starting_point,
    ContextView, EnterArgsView, EntryView, PayloadView,
};
use crate::environment::{
    lemma_exit_restores_the_selections, local_primary, native_uris, reselected, selection_of,
    selections_of, UpdateView, UriView,
};
use crate::exit::{checked_step, exit_step, exit_update, leave_step, removal_step, ExitArgsView};
use crate::metadata::MetadataView;
use crate::output::{preflight_step, writes_allowed_step};
use crate::paths::{is_absolute_path, is_same_path, tidied};
use crate::progress::Step;
use crate::session::{
    active_of, ActiveStateView, ActiveView, BlockingView, MetadataReadView, OwnershipView,
    ToolAnswer, ToolAsk, ToolStep,
};
use crate::worktree::{name_problem, InfoView};

verus! {

/// What a tool gives back to the model takes no more bytes than the cap.
pub proof fn lemma_outputs_fit(
    context: ContextView,
    enter: PayloadView<EnterArgsView>,
    exit: PayloadView<ExitArgsView>,
    answers: Seq<ToolAnswer>,
    at: int,
)
    ensures
        enter_step(context, enter, answers, at) matches Step::Done(content, _) ==> fits_context(
            content,
        ),
        exit_step(context, exit, answers, at) matches Step::Done(content, _) ==> fits_context(
            content,
        ),
{
    assert forall|cwd: Seq<char>, roots: Seq<Seq<char>>, entry: EntryView, from: int| (
    #[trigger] enter_prepared_step(context, cwd, roots, entry, answers, from) matches Step::Done(
        content,
        _,
    ) ==> fits_context(content)) by {
        lemma_prepared_output_fits(context, cwd, roots, entry, answers, from);
    }
    assert forall|active: ActiveView, cwd: Seq<char>, keep: bool, from: int| (
    #[trigger] leave_step(context, active, cwd, keep, answers, from) matches Step::Done(
        content,
        _,
    ) ==> fits_context(content)) by {}
}

proof fn lemma_prepared_output_fits(
    context: ContextView,
    original_cwd: Seq<char>,
    original_roots: Seq<Seq<char>>,
    entry: EntryView,
    answers: Seq<ToolAnswer>,
    at: int,
)
    ensures
        enter_prepared_step(
            context,
            original_cwd,
            original_roots,
            entry,
            answers,
            at,
        ) matches Step::Done(content, _) ==> fits_context(content),
{
}

/// A managed worktree is created only for a session that is in no worktree, that asked for it by a
/// valid name, that will be able to report it, and that may write to its current directory.
pub proof fn lemma_creation_is_checked_first(
    context: ContextView,
    payload: PayloadView<EnterArgsView>,
    answers: Seq<ToolAnswer>,
    at: int,
    repository_path: Seq<char>,
    name: Seq<char>,
)
    requires
        enter_step(context, payload, answers, at) == Step::<
            ToolAsk,
            CallErrorView,
            Seq<char>,
        >::Ask(ToolAsk::CreateManaged { repository_path, name }),
    ensures
        payload matches PayloadView::Function(Ok(args)) && args.name == Some(name) && args.path
            is None,
        starting_point(context.environments) matches Ok((cwd, _)) && cwd == repository_path,
        name_problem(name) is None,
        active_step(
            repository_path,
            context.thread_id,
            answers,
            at + 1,
        ) matches Step::Done(None, found) && inspected_step(
            repository_path,
            answers,
            found,
        ) matches Step::Done(info, inspected) && preflight_step(
            info,
            repository_path,
            name,
            answers,
            inspected,
        ) matches Step::Done(_, reported) && writes_allowed_step(
            "enter_worktree"@,
            context.full_disk_write,
            repository_path,
            name,
            answers,
            reported,
        ) is Done,
{
    let (original_cwd, original_roots) = starting_point(context.environments)->Ok_0;
    lemma_finding_creates_nothing(context, original_cwd, answers, at + 1);
    if let Step::Done(None, found) = active_step(
        original_cwd,
        context.thread_id,
        answers,
        at + 1,
    ) {
        let args = payload->Function_0->Ok_0;
        lemma_entry_creates_by_name(context, original_cwd, args, answers, found);
        if let Step::Done(entry, used) = entry_step(context, original_cwd, args, answers, found) {
            lemma_prepared_creates_nothing(
                context,
                original_cwd,
                original_roots,
                entry,
                answers,
                used,
            );
        }
    }
}

/// A step asks for no change of a repository.
pub open spec fn changes_nothing<T>(step: ToolStep<T>) -> bool {
    step matches Step::Ask(ask) ==> !(ask is CreateManaged || ask is RemoveCreated
        || ask is RemoveManaged || ask is WriteMetadata)
}

#[verifier::spinoff_prover]
proof fn lemma_finding_creates_nothing(
    context: ContextView,
    original_cwd: Seq<char>,
    answers: Seq<ToolAnswer>,
    at: int,
)
    ensures
        changes_nothing(active_step(original_cwd, context.thread_id, answers, at)),
{
}

#[verifier::spinoff_prover]
proof fn lemma_writable_creates_nothing(
    tool_name: Seq<char>,
    full_disk_write: bool,
    cwd: Seq<char>,
    paths: Seq<Seq<char>>,
    answers: Seq<ToolAnswer>,
    at: int,
)
    ensures
        changes_nothing(
            crate::checks::writable_step(tool_name, full_disk_write, cwd, paths, answers, at),
        ),
    decreases paths.len(),
{
    if paths.len() > 0 {
        if let Step::Done(_, used) = crate::checks::writable_path_step(
            tool_name,
            full_disk_write,
            cwd,
            paths[0],
            answers,
            at,
        ) {
            lemma_writable_creates_nothing(
                tool_name,
                full_disk_write,
                cwd,
                paths.drop_first(),
                answers,
                used,
            );
        }
    }
}

#[verifier::spinoff_prover]
proof fn lemma_adoption_changes_nothing(
    context: ContextView,
    original_cwd: Seq<char>,
    path: Seq<char>,
    answers: Seq<ToolAnswer>,
    at: int,
)
    ensures
        changes_nothing(adopted_entry_step(context, original_cwd, path, answers, at)),
        adopted_entry_step(context, original_cwd, path, answers, at) matches Step::Done(entry, _)
            ==> entry.created is None,
{
    assert forall|paths: Seq<Seq<char>>, from: int| changes_nothing(
        #[trigger] crate::checks::writable_step(
            "enter_worktree"@,
            context.full_disk_write,
            original_cwd,
            paths,
            answers,
            from,
        ),
    ) by {
        lemma_writable_creates_nothing(
            "enter_worktree"@,
            context.full_disk_write,
            original_cwd,
            paths,
            answers,
            from,
        );
    }
}

#[verifier::spinoff_prover]
proof fn lemma_preflight_changes_nothing(
    info: InfoView,
    original_cwd: Seq<char>,
    name: Seq<char>,
    answers: Seq<ToolAnswer>,
    at: int,
)
    ensures
        changes_nothing(preflight_step(info, original_cwd, name, answers, at)),
        preflight_step(info, original_cwd, name, answers, at) is Done ==> name_problem(name)
            is None,
{
}

#[verifier::spinoff_prover]
proof fn lemma_ownership_changes_nothing(
    context: ContextView,
    original_cwd: Seq<char>,
    common_dir: Seq<char>,
    name: Seq<char>,
    created: bool,
    worktree_path: Seq<char>,
    answers: Seq<ToolAnswer>,
    at: int,
)
    ensures
        changes_nothing(
            managed_ownership_step(
                context,
                original_cwd,
                common_dir,
                name,
                created,
                worktree_path,
                answers,
                at,
            ),
        ),
{
    if let Step::Done(_, used) = read_step(common_dir, name, answers, at) {
        lemma_writable_creates_nothing(
            "enter_worktree"@,
            context.full_disk_write,
            original_cwd,
            seq![original_cwd, worktree_path],
            answers,
            used,
        );
    }
}

#[verifier::spinoff_prover]
proof fn lemma_matching_changes_nothing(
    repo_root: Seq<char>,
    original_cwd: Seq<char>,
    worktree_path: Seq<char>,
    answers: Seq<ToolAnswer>,
    at: int,
)
    ensures
        changes_nothing(matching_step(repo_root, original_cwd, worktree_path, answers, at)),
{
}

#[verifier::spinoff_prover]
proof fn lemma_created_entry_creates_by_name(
    context: ContextView,
    original_cwd: Seq<char>,
    info: InfoView,
    name: Seq<char>,
    answers: Seq<ToolAnswer>,
    at: int,
)
    ensures
        created_entry_step(
            context,
            original_cwd,
            info,
            name,
            answers,
            at,
        ) matches Step::Ask(ToolAsk::CreateManaged { repository_path, name: asked }) ==> asked
            == name && repository_path == original_cwd,
{
    if let Step::Done(managed, used) = managed_step(original_cwd, name, answers, at) {
        if let Ok(worktree_path) = crate::checks::absolute_or_fatal(
            managed.path,
            "managed worktree path"@,
        ) {
            lemma_matching_changes_nothing(
                info.repo_root,
                original_cwd,
                worktree_path,
                answers,
                used,
            );
            if let Step::Done(_, used) = matching_step(
                info.repo_root,
                original_cwd,
                worktree_path,
                answers,
                used,
            ) {
                lemma_ownership_changes_nothing(
                    context,
                    original_cwd,
                    info.common_dir,
                    managed.name,
                    managed.created,
                    worktree_path,
                    answers,
                    used,
                );
            }
        }
    }
}

#[verifier::spinoff_prover]
proof fn lemma_entry_creates_by_name(
    context: ContextView,
    original_cwd: Seq<char>,
    args: EnterArgsView,
    answers: Seq<ToolAnswer>,
    at: int,
)
    ensures
        entry_step(context, original_cwd, args, answers, at) matches Step::Ask(
            ToolAsk::CreateManaged { repository_path, name },
        ) ==> {
            &&& repository_path == original_cwd
            &&& args.name == Some(name)
            &&& args.path is None
            &&& name_problem(name) is None
            &&& inspected_step(original_cwd, answers, at) matches Step::Done(info, inspected)
                && preflight_step(
                info,
                original_cwd,
                name,
                answers,
                inspected,
            ) matches Step::Done(_, reported) && writes_allowed_step(
                "enter_worktree"@,
                context.full_disk_write,
                original_cwd,
                name,
                answers,
                reported,
            ) is Done
        },
{
    match (args.name, args.path) {
        (None, Some(path)) => {
            lemma_adoption_changes_nothing(context, original_cwd, path, answers, at);
        },
        (Some(name), None) => {
            if let Step::Done(info, used) = inspected_step(original_cwd, answers, at) {
                lemma_preflight_changes_nothing(info, original_cwd, name, answers, used);
                if let Step::Done(_, used) = preflight_step(
                    info,
                    original_cwd,
                    name,
                    answers,
                    used,
                ) {
                    lemma_writable_creates_nothing(
                        "enter_worktree"@,
                        context.full_disk_write,
                        original_cwd,
                        seq![original_cwd],
                        answers,
                        used,
                    );
                    if let Step::Done(_, used) = writes_allowed_step(
                        "enter_worktree"@,
                        context.full_disk_write,
                        original_cwd,
                        name,
                        answers,
                        used,
                    ) {
                        lemma_created_entry_creates_by_name(
                            context,
                            original_cwd,
                            info,
                            name,
                            answers,
                            used,
                        );
                    }
                }
            }
        },
        _ => {},
    }
}

#[verifier::spinoff_prover]
proof fn lemma_prepared_creates_nothing(
    context: ContextView,
    original_cwd: Seq<char>,
    original_roots: Seq<Seq<char>>,
    entry: EntryView,
    answers: Seq<ToolAnswer>,
    at: int,
)
    ensures
        enter_prepared_step(
            context,
            original_cwd,
            original_roots,
            entry,
            answers,
            at,
        ) matches Step::Ask(ask) ==> !(ask is CreateManaged) && !(ask is RemoveManaged) && (
        ask is RemoveCreated || ask is WriteMetadata ==> entry.created == Some(true)),
{
}

/// Entering a directory by its path changes no repository: nothing is created, removed or written
/// beside a worktree.
pub proof fn lemma_entering_a_path_changes_nothing(
    context: ContextView,
    args: EnterArgsView,
    answers: Seq<ToolAnswer>,
    at: int,
)
    requires
        args.name is None,
    ensures
        changes_nothing(enter_step(context, PayloadView::Function(Ok(args)), answers, at)),
{
    if let Ok((original_cwd, original_roots)) = starting_point(context.environments) {
        lemma_finding_creates_nothing(context, original_cwd, answers, at + 1);
        if let Step::Done(None, found) = active_step(
            original_cwd,
            context.thread_id,
            answers,
            at + 1,
        ) {
            if let Some(path) = args.path {
                lemma_adoption_changes_nothing(context, original_cwd, path, answers, found);
                if let Step::Done(entry, used) = adopted_entry_step(
                    context,
                    original_cwd,
                    path,
                    answers,
                    found,
                ) {
                    lemma_prepared_creates_nothing(
                        context,
                        original_cwd,
                        original_roots,
                        entry,
                        answers,
                        used,
                    );
                }
            }
        }
    }
}

/// A new worktree that cannot be reported, or whose origin cannot be kept, is taken back: the error
/// comes only after the removal was answered. A worktree that was there before is never removed.
pub proof fn lemma_a_useless_worktree_is_taken_back(
    context: ContextView,
    original_cwd: Seq<char>,
    entry: EntryView,
    answers: Seq<ToolAnswer>,
    at: int,
)
    requires
        0 <= at,
    ensures
        recorded_step(context, original_cwd, entry, answers, at) matches Step::Failed(_, used)
            ==> entry.created == Some(true) ==> 1 <= used <= answers.len()
            && answers[used - 1] is Removed,
        recorded_step(context, original_cwd, entry, answers, at) matches Step::Ask(
            ToolAsk::RemoveCreated { repository_path, worktree_path, created_branch },
        ) ==> entry.created == Some(true) && repository_path == original_cwd && worktree_path
            == entry.worktree_path && created_branch == entry.created_branch,
{
}

/// The settings change only once the output about the worktree is known to fit, and, for a new
/// worktree, its origin has been kept.
pub proof fn lemma_settings_change_last(
    context: ContextView,
    original_cwd: Seq<char>,
    original_roots: Seq<Seq<char>>,
    entry: EntryView,
    answers: Seq<ToolAnswer>,
    at: int,
    update: UpdateView,
)
    requires
        enter_prepared_step(
            context,
            original_cwd,
            original_roots,
            entry,
            answers,
            at,
        ) == Step::<ToolAsk, CallErrorView, Seq<char>>::Ask(ToolAsk::UpdateSettings(update)),
    ensures
        fits_context(entry_content(original_cwd, entry)),
        enter_update(context, original_cwd, original_roots, entry) == Ok::<
            UpdateView,
            CallErrorView,
        >(update),
        entry.created == Some(true) ==> (entry.ownership matches OwnershipView::ManagedByCodex(
            common_dir,
        ) ==> entry.name matches Some(name) ==> write_step(
            common_dir,
            name,
            MetadataView { original_cwd, owner_thread_id: Some(context.thread_id) },
            answers,
            at,
        ) is Done),
{
}

proof fn lemma_native_roots(roots: Seq<UriView>)
    ensures
        native_roots(roots) matches Ok(paths) ==> roots == native_uris(paths),
    decreases roots.len(),
{
    if roots.len() > 0 {
        lemma_native_roots(roots.drop_last());
        if let Ok(paths) = native_roots(roots) {
            let fewer = native_roots(roots.drop_last())->Ok_0;
            let path = roots.last()->Native_0;
            assert(paths == fewer.push(path));
            assert(native_uris(paths) =~= native_uris(fewer).push(UriView::Native(path)));
            assert(roots =~= roots.drop_last().push(roots.last()));
        }
    } else {
        if let Ok(paths) = native_roots(roots) {
            assert(roots =~= native_uris(paths));
        }
    }
}

/// A session that enters a worktree and then leaves it has the settings that it began with: the
/// working directory, the workspace roots, and every other environment.
pub proof fn lemma_exit_undoes_enter(
    context: ContextView,
    after: ContextView,
    original_cwd: Seq<char>,
    original_roots: Seq<Seq<char>>,
    entry: EntryView,
)
    requires
        starting_point(context.environments) == Ok::<(Seq<char>, Seq<Seq<char>>), CallErrorView>(
            (original_cwd, original_roots),
        ),
        enter_update(context, original_cwd, original_roots, entry) matches Ok(update)
            && after.environments == reselected(context.environments, update.environments),
    ensures
        exit_update(
            after,
            entered_worktree(original_cwd, original_roots, entry),
            entry.worktree_cwd,
        ) == Ok::<UpdateView, CallErrorView>(
            UpdateView {
                cwd: original_cwd,
                environments: selections_of(context.environments),
                worktree_transition: true,
            },
        ),
{
    lemma_native_roots(selection_of(context.environments[0]).workspace_roots);
    lemma_exit_restores_the_selections(
        "enter_worktree"@,
        "exit_worktree"@,
        original_cwd,
        original_roots,
        entry.worktree_cwd,
        crate::environment::entered_roots(
            original_roots,
            original_cwd,
            entry.worktree_cwd,
            crate::enter::entered_root(entry),
        ),
        context.environments,
    );
}

/// Entering is possible wherever a session may start from: the change of its settings does not
/// fail for what its environments are.
pub proof fn lemma_entering_finds_the_primary(
    context: ContextView,
    original_cwd: Seq<char>,
    original_roots: Seq<Seq<char>>,
    entry: EntryView,
)
    requires
        starting_point(context.environments) == Ok::<(Seq<char>, Seq<Seq<char>>), CallErrorView>(
            (original_cwd, original_roots),
        ),
    ensures
        enter_update(context, original_cwd, original_roots, entry) is Ok,
{
    assert(selections_of(context.environments)[0] == selection_of(context.environments[0]));
}

/// A worktree is removed only if the caller does not want to keep it, the session created it, and
/// the session is still in it. It is the worktree that the session is in, and it is removed from the
/// repository that the session came from.
pub proof fn lemma_only_an_own_worktree_is_removed(
    context: ContextView,
    payload: PayloadView<ExitArgsView>,
    answers: Seq<ToolAnswer>,
    at: int,
    repository_path: Seq<char>,
    worktree_path: Seq<char>,
)
    requires
        exit_step(context, payload, answers, at) == Step::<
            ToolAsk,
            CallErrorView,
            Seq<char>,
        >::Ask(ToolAsk::RemoveManaged { repository_path, worktree_path }),
    ensures
        payload matches PayloadView::Function(Ok(args)) && !args.keep,
        active_for_exit_step(
            "exit_worktree"@,
            context.environments,
            context.thread_id,
            answers,
            at,
        ) matches Step::Done((state, current_cwd), found) && {
            &&& active_of(state).ownership is ManagedByCodex
            &&& active_of(state).worktree_path == worktree_path
            &&& active_of(state).original_cwd == repository_path
            &&& checked_step(state, current_cwd, answers, found) is Done
        },
{
    assert forall|cwd: Seq<char>, from: int| changes_nothing(
        #[trigger] active_step(cwd, context.thread_id, answers, from),
    ) by {
        lemma_finding_creates_nothing(context, cwd, answers, from);
    }
    if let Step::Done((state, current_cwd), found) = active_for_exit_step(
        "exit_worktree"@,
        context.environments,
        context.thread_id,
        answers,
        at,
    ) {
        lemma_checking_changes_nothing(state, current_cwd, answers, found);
    }
}

#[verifier::spinoff_prover]
proof fn lemma_checking_changes_nothing(
    state: ActiveStateView,
    current_cwd: Seq<char>,
    answers: Seq<ToolAnswer>,
    at: int,
)
    ensures
        changes_nothing(checked_step(state, current_cwd, answers, at)),
        checked_step(state, current_cwd, answers, at) matches Step::Ask(ask) ==> !(
        ask is UpdateSettings),
{
}

/// Where the worktree is not kept, the settings change only after it has been removed: a removal
/// that git refuses leaves the session in its worktree.
pub proof fn lemma_removal_comes_before_the_settings(
    context: ContextView,
    active: ActiveView,
    current_cwd: Seq<char>,
    keep: bool,
    answers: Seq<ToolAnswer>,
    at: int,
    update: UpdateView,
)
    requires
        leave_step(context, active, current_cwd, keep, answers, at) == Step::<
            ToolAsk,
            CallErrorView,
            Seq<char>,
        >::Ask(ToolAsk::UpdateSettings(update)),
    ensures
        removal_step(active, keep, answers, at) is Done,
        exit_update(context, active, current_cwd) == Ok::<UpdateView, CallErrorView>(update),
{
}

/// What a session kept beside a worktree is found again by the same session: a worktree that it
/// created is its own, and leads back to where the session came from. To another session the
/// worktree is an adopted one.
pub proof fn lemma_kept_origin_is_found_again(
    info: InfoView,
    name: Seq<char>,
    original_repo_root: Seq<char>,
    original_cwd: Seq<char>,
    owner_thread_id: Seq<char>,
    thread_id: Seq<char>,
    origin: InfoView,
    answers: Seq<ToolAnswer>,
    at: int,
)
    requires
        is_absolute_path(original_cwd),
        is_absolute_path(info.repo_root),
        0 <= at,
        at + 1 < answers.len(),
        answers[at] == ToolAnswer::MetadataRead(
            BlockingView::Finished(
                MetadataReadView::Present(
                    MetadataView { original_cwd, owner_thread_id: Some(owner_thread_id) },
                ),
            ),
        ),
        answers[at + 1] == ToolAnswer::Inspected(BlockingView::Finished(Ok(origin))),
        is_same_path(origin.common_dir, info.common_dir),
    ensures
        derived_named_step(
            info,
            name,
            original_repo_root,
            thread_id,
            answers,
            at,
        ) matches Step::Done(Some(active), _) && {
            &&& active.original_cwd == tidied(original_cwd)
            &&& active.name == Some(name)
            &&& active.ownership == if owner_thread_id == thread_id {
                OwnershipView::ManagedByCodex(info.common_dir)
            } else {
                OwnershipView::Adopted
            }
        },
{
}

/// The model is told no more than a message that was cut down; another error ends the turn.
pub open spec fn is_bounded_error(error: CallErrorView) -> bool {
    error is Fatal || exists|message: Seq<char>| error == #[trigger] model_error(message)
}

/// Where a step fails, the model is told no more than a message that was cut down.
pub open spec fn fails_bounded<T>(step: ToolStep<T>) -> bool {
    step matches Step::Failed(error, _) ==> is_bounded_error(error)
}

#[verifier::spinoff_prover]
proof fn lemma_writable_fails_bounded(
    tool_name: Seq<char>,
    full_disk_write: bool,
    cwd: Seq<char>,
    paths: Seq<Seq<char>>,
    answers: Seq<ToolAnswer>,
    at: int,
)
    ensures
        fails_bounded(
            crate::checks::writable_step(tool_name, full_disk_write, cwd, paths, answers, at),
        ),
    decreases paths.len(),
{
    if paths.len() > 0 {
        if let Step::Done(_, used) = crate::checks::writable_path_step(
            tool_name,
            full_disk_write,
            cwd,
            paths[0],
            answers,
            at,
        ) {
            lemma_writable_fails_bounded(
                tool_name,
                full_disk_write,
                cwd,
                paths.drop_first(),
                answers,
                used,
            );
        }
    }
}

#[verifier::spinoff_prover]
proof fn lemma_finding_fails_bounded(
    current_cwd: Seq<char>,
    thread_id: Seq<char>,
    answers: Seq<ToolAnswer>,
    at: int,
)
    ensures
        fails_bounded(active_step(current_cwd, thread_id, answers, at)),
{
}

#[verifier::spinoff_prover]
proof fn lemma_matching_fails_bounded(
    repo_root: Seq<char>,
    original_cwd: Seq<char>,
    worktree_path: Seq<char>,
    answers: Seq<ToolAnswer>,
    at: int,
)
    ensures
        fails_bounded(matching_step(repo_root, original_cwd, worktree_path, answers, at)),
{
}

#[verifier::spinoff_prover]
proof fn lemma_preflight_fails_bounded(
    info: InfoView,
    original_cwd: Seq<char>,
    name: Seq<char>,
    answers: Seq<ToolAnswer>,
    at: int,
)
    ensures
        fails_bounded(preflight_step(info, original_cwd, name, answers, at)),
{
}

#[verifier::spinoff_prover]
proof fn lemma_ownership_fails_bounded(
    context: ContextView,
    original_cwd: Seq<char>,
    common_dir: Seq<char>,
    name: Seq<char>,
    created: bool,
    worktree_path: Seq<char>,
    answers: Seq<ToolAnswer>,
    at: int,
)
    ensures
        fails_bounded(
            managed_ownership_step(
                context,
                original_cwd,
                common_dir,
                name,
                created,
                worktree_path,
                answers,
                at,
            ),
        ),
{
    if let Step::Done(_, used) = read_step(common_dir, name, answers, at) {
        lemma_writable_fails_bounded(
            "enter_worktree"@,
            context.full_disk_write,
            original_cwd,
            seq![original_cwd, worktree_path],
            answers,
            used,
        );
    }
}

#[verifier::spinoff_prover]
proof fn lemma_created_entry_fails_bounded(
    context: ContextView,
    original_cwd: Seq<char>,
    info: InfoView,
    name: Seq<char>,
    answers: Seq<ToolAnswer>,
    at: int,
)
    ensures
        fails_bounded(created_entry_step(context, original_cwd, info, name, answers, at)),
{
    if let Step::Done(managed, used) = managed_step(original_cwd, name, answers, at) {
        if let Ok(worktree_path) = crate::checks::absolute_or_fatal(
            managed.path,
            "managed worktree path"@,
        ) {
            lemma_matching_fails_bounded(
                info.repo_root,
                original_cwd,
                worktree_path,
                answers,
                used,
            );
            if let Step::Done(_, used) = matching_step(
                info.repo_root,
                original_cwd,
                worktree_path,
                answers,
                used,
            ) {
                lemma_ownership_fails_bounded(
                    context,
                    original_cwd,
                    info.common_dir,
                    managed.name,
                    managed.created,
                    worktree_path,
                    answers,
                    used,
                );
            }
        }
    }
}

#[verifier::spinoff_prover]
proof fn lemma_managed_entry_fails_bounded(
    context: ContextView,
    original_cwd: Seq<char>,
    name: Seq<char>,
    answers: Seq<ToolAnswer>,
    at: int,
)
    ensures
        fails_bounded(managed_entry_step(context, original_cwd, name, answers, at)),
{
    if let Step::Done(info, used) = inspected_step(original_cwd, answers, at) {
        lemma_preflight_fails_bounded(info, original_cwd, name, answers, used);
        if let Step::Done(_, used) = preflight_step(info, original_cwd, name, answers, used) {
            lemma_writable_fails_bounded(
                "enter_worktree"@,
                context.full_disk_write,
                original_cwd,
                seq![original_cwd],
                answers,
                used,
            );
            if let Step::Done(_, used) = writes_allowed_step(
                "enter_worktree"@,
                context.full_disk_write,
                original_cwd,
                name,
                answers,
                used,
            ) {
                lemma_created_entry_fails_bounded(
                    context,
                    original_cwd,
                    info,
                    name,
                    answers,
                    used,
                );
            }
        }
    }
}

#[verifier::spinoff_prover]
proof fn lemma_same_session_fails_bounded(
    context: ContextView,
    original_cwd: Seq<char>,
    candidate_info: Option<InfoView>,
    answers: Seq<ToolAnswer>,
    at: int,
)
    ensures
        fails_bounded(same_session_step(context, original_cwd, candidate_info, answers, at)),
{
}

#[verifier::spinoff_prover]
proof fn lemma_described_fails_bounded(
    candidate_path: Seq<char>,
    candidate_info: Option<InfoView>,
    same_session: bool,
    answers: Seq<ToolAnswer>,
    at: int,
)
    ensures
        fails_bounded(
            described_entry_step(candidate_path, candidate_info, same_session, answers, at),
        ),
{
}

#[verifier::spinoff_prover]
proof fn lemma_adopted_entry_fails_bounded(
    context: ContextView,
    original_cwd: Seq<char>,
    path: Seq<char>,
    answers: Seq<ToolAnswer>,
    at: int,
)
    ensures
        fails_bounded(adopted_entry_step(context, original_cwd, path, answers, at)),
{
    assert forall|paths: Seq<Seq<char>>, from: int| fails_bounded(
        #[trigger] crate::checks::writable_step(
            "enter_worktree"@,
            context.full_disk_write,
            original_cwd,
            paths,
            answers,
            from,
        ),
    ) by {
        lemma_writable_fails_bounded(
            "enter_worktree"@,
            context.full_disk_write,
            original_cwd,
            paths,
            answers,
            from,
        );
    }
    assert forall|info: Option<InfoView>, from: int| fails_bounded(
        #[trigger] same_session_step(context, original_cwd, info, answers, from),
    ) by {
        lemma_same_session_fails_bounded(context, original_cwd, info, answers, from);
    }
    assert forall|candidate: Seq<char>, info: Option<InfoView>, same: bool, from: int|
        fails_bounded(#[trigger] described_entry_step(candidate, info, same, answers, from)) by {
        lemma_described_fails_bounded(candidate, info, same, answers, from);
    }
}

#[verifier::spinoff_prover]
proof fn lemma_prepared_fails_bounded(
    context: ContextView,
    original_cwd: Seq<char>,
    original_roots: Seq<Seq<char>>,
    entry: EntryView,
    answers: Seq<ToolAnswer>,
    at: int,
)
    ensures
        fails_bounded(
            enter_prepared_step(context, original_cwd, original_roots, entry, answers, at),
        ),
{
}

#[verifier::spinoff_prover]
proof fn lemma_roots_fail_bounded(roots: Seq<UriView>)
    ensures
        native_roots(roots) matches Err(error) ==> is_bounded_error(error),
    decreases roots.len(),
{
    if roots.len() > 0 {
        lemma_roots_fail_bounded(roots.drop_last());
    }
}

#[verifier::spinoff_prover]
proof fn lemma_enter_fails_bounded(
    context: ContextView,
    payload: PayloadView<EnterArgsView>,
    answers: Seq<ToolAnswer>,
    at: int,
)
    ensures
        fails_bounded(enter_step(context, payload, answers, at)),
{
    if let Ok(primary) = local_primary("enter_worktree"@, context.environments) {
        lemma_roots_fail_bounded(primary.selection.workspace_roots);
    }
    if let Ok((original_cwd, original_roots)) = starting_point(context.environments) {
        lemma_finding_fails_bounded(original_cwd, context.thread_id, answers, at + 1);
        if let Step::Done(None, found) = active_step(
            original_cwd,
            context.thread_id,
            answers,
            at + 1,
        ) {
            if let PayloadView::Function(Ok(args)) = payload {
                match (args.name, args.path) {
                    (Some(name), None) => {
                        lemma_managed_entry_fails_bounded(
                            context,
                            original_cwd,
                            name,
                            answers,
                            found,
                        );
                    },
                    (None, Some(path)) => {
                        lemma_adopted_entry_fails_bounded(
                            context,
                            original_cwd,
                            path,
                            answers,
                            found,
                        );
                    },
                    _ => {},
                }
                if let Step::Done(entry, used) = entry_step(
                    context,
                    original_cwd,
                    args,
                    answers,
                    found,
                ) {
                    lemma_prepared_fails_bounded(
                        context,
                        original_cwd,
                        original_roots,
                        entry,
                        answers,
                        used,
                    );
                }
            }
        }
    }
}

#[verifier::spinoff_prover]
proof fn lemma_checking_fails_bounded(
    state: ActiveStateView,
    current_cwd: Seq<char>,
    answers: Seq<ToolAnswer>,
    at: int,
)
    ensures
        fails_bounded(checked_step(state, current_cwd, answers, at)),
{
}

#[verifier::spinoff_prover]
proof fn lemma_leaving_fails_bounded(
    context: ContextView,
    active: ActiveView,
    current_cwd: Seq<char>,
    keep: bool,
    answers: Seq<ToolAnswer>,
    at: int,
)
    ensures
        fails_bounded(leave_step(context, active, current_cwd, keep, answers, at)),
{
}

#[verifier::spinoff_prover]
proof fn lemma_exit_fails_bounded(
    context: ContextView,
    payload: PayloadView<ExitArgsView>,
    answers: Seq<ToolAnswer>,
    at: int,
)
    ensures
        fails_bounded(exit_step(context, payload, answers, at)),
{
    assert forall|cwd: Seq<char>, from: int| fails_bounded(
        #[trigger] active_step(cwd, context.thread_id, answers, from),
    ) by {
        lemma_finding_fails_bounded(cwd, context.thread_id, answers, from);
    }
    assert forall|state: ActiveStateView, cwd: Seq<char>, from: int| fails_bounded(
        #[trigger] checked_step(state, cwd, answers, from),
    ) by {
        lemma_checking_fails_bounded(state, cwd, answers, from);
    }
    assert forall|active: ActiveView, cwd: Seq<char>, keep: bool, from: int| fails_bounded(
        #[trigger] leave_step(context, active, cwd, keep, answers, from),
    ) by {
        lemma_leaving_fails_bounded(context, active, cwd, keep, answers, from);
    }
}

/// Whatever goes wrong in a tool, the model is told no more than a message that was cut down.
pub proof fn lemma_errors_are_bounded(
    context: ContextView,
    enter: PayloadView<EnterArgsView>,
    exit: PayloadView<ExitArgsView>,
    answers: Seq<ToolAnswer>,
    at: int,
)
    ensures
        fails_bounded(enter_step(context, enter, answers, at)),
        fails_bounded(exit_step(context, exit, answers, at)),
{
    lemma_enter_fails_bounded(context, enter, answers, at);
    lemma_exit_fails_bounded(context, exit, answers, at);
}

} // verus!
