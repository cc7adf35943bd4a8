//! Asking again with more answers: what a procedure came to stays.

use vstd::prelude::*;

use crate::checks::{
    absolute_or_fatal, inspected_optional_step, inspected_step, managed_step, matching_step,
    read_step, writable_path_step, writable_step,
};
use crate::discovery::active_step;
use crate::enter::{
    adopted_entry_step, created_entry_step, described_entry_step, enter_prepared_step, enter_step,
    entry_step, existing_entry_step, managed_entry_step, recorded_step, required_paths,
    same_session_step, starting_point, ContextView, EnterArgsView, EntryView, PayloadView,
};
use crate::exit::{checked_step, exit_step, leave_step, ExitArgsView};
use crate::managed::{
    create_step, managed_base_step, remove_created_step, remove_from_step, remove_step, target_step,
};
use crate::operations::{GitAnswer, HostKind};
use crate::output::{preflight_step, writes_allowed_step};
use crate::paths::joined_path;
use crate::progress::Step;
use crate::session::{ActiveStateView, ActiveView, ToolAnswer};
use crate::worktree::{inspect_step, managed_dir, InfoView};

verus! {

/// What a procedure came to with fewer answers is what it comes to with more; only where it asked
/// it may get further.
pub open spec fn keeps<Q, E, T>(fewer: Step<Q, E, T>, more: Step<Q, E, T>) -> bool {
    !(fewer is Ask) ==> more == fewer
}

#[verifier::spinoff_prover]
proof fn lemma_inspect_keeps(
    path: Seq<char>,
    host: HostKind,
    answers: Seq<GitAnswer>,
    later: Seq<GitAnswer>,
    at: int,
)
    ensures
        keeps(inspect_step(path, host, answers, at), inspect_step(path, host, answers + later, at)),
{
    assert forall|i: int| 0 <= i < answers.len() implies (answers + later)[i] == #[trigger] answers[i] by {}
}

#[verifier::spinoff_prover]
proof fn lemma_managed_base_keeps(
    source: InfoView,
    base: Seq<char>,
    answers: Seq<GitAnswer>,
    later: Seq<GitAnswer>,
    at: int,
)
    ensures
        keeps(
            managed_base_step(source, base, answers, at),
            managed_base_step(source, base, answers + later, at),
        ),
{
    assert forall|i: int| 0 <= i < answers.len() implies (answers + later)[i] == #[trigger] answers[i] by {}
}

#[verifier::spinoff_prover]
proof fn lemma_target_keeps(
    source: InfoView,
    base: Seq<char>,
    name: Seq<char>,
    host: HostKind,
    answers: Seq<GitAnswer>,
    later: Seq<GitAnswer>,
    at: int,
)
    ensures
        keeps(
            target_step(source, base, name, host, answers, at),
            target_step(source, base, name, host, answers + later, at),
        ),
{
    assert forall|i: int| 0 <= i < answers.len() implies (answers + later)[i] == #[trigger] answers[i] by {}
}

#[verifier::spinoff_prover]
proof fn lemma_create_keeps(
    repository_path: Seq<char>,
    name: Seq<char>,
    host: HostKind,
    answers: Seq<GitAnswer>,
    later: Seq<GitAnswer>,
    at: int,
)
    ensures
        keeps(
            create_step(repository_path, name, host, answers, at),
            create_step(repository_path, name, host, answers + later, at),
        ),
{
    lemma_inspect_keeps(repository_path, host, answers, later, at);
    if let Step::Done(source, used) = inspect_step(repository_path, host, answers, at) {
        let base = managed_dir(source.common_dir);
        lemma_managed_base_keeps(source, base, answers, later, used);
        if let Step::Done(base, used) = managed_base_step(source, base, answers, used) {
            lemma_target_keeps(source, base, name, host, answers, later, used);
            if let Step::Done(_, used) = target_step(source, base, name, host, answers, used) {
                lemma_inspect_keeps(joined_path(base, name), host, answers, later, used);
            }
        }
    }
}

#[verifier::spinoff_prover]
proof fn lemma_remove_keeps(
    repository_path: Seq<char>,
    worktree_path: Seq<char>,
    host: HostKind,
    answers: Seq<GitAnswer>,
    later: Seq<GitAnswer>,
    at: int,
)
    ensures
        keeps(
            remove_from_step(repository_path, worktree_path, host, answers, at),
            remove_from_step(repository_path, worktree_path, host, answers + later, at),
        ),
{
    assert forall|i: int| 0 <= i < answers.len() implies (answers + later)[i] == #[trigger] answers[i] by {}
    lemma_inspect_keeps(repository_path, host, answers, later, at);
    if let Step::Done(source, used) = inspect_step(repository_path, host, answers, at) {
        lemma_inspect_keeps(worktree_path, host, answers, later, used);
    }
}

/// A git procedure that has come to its end comes to the same end whatever is answered later.
pub proof fn lemma_git_procedures_keep_their_end(
    repository_path: Seq<char>,
    worktree_path: Seq<char>,
    name: Seq<char>,
    created_branch: Option<Seq<char>>,
    host: HostKind,
    answers: Seq<GitAnswer>,
    later: Seq<GitAnswer>,
    at: int,
)
    ensures
        keeps(
            inspect_step(worktree_path, host, answers, at),
            inspect_step(worktree_path, host, answers + later, at),
        ),
        keeps(
            create_step(repository_path, name, host, answers, at),
            create_step(repository_path, name, host, answers + later, at),
        ),
        keeps(
            remove_step(repository_path, worktree_path, host, answers, at),
            remove_step(repository_path, worktree_path, host, answers + later, at),
        ),
        keeps(
            remove_created_step(repository_path, worktree_path, created_branch, host, answers, at),
            remove_created_step(
                repository_path,
                worktree_path,
                created_branch,
                host,
                answers + later,
                at,
            ),
        ),
{
    assert forall|i: int| 0 <= i < answers.len() implies (answers + later)[i] == #[trigger] answers[i] by {}
    lemma_inspect_keeps(worktree_path, host, answers, later, at);
    lemma_create_keeps(repository_path, name, host, answers, later, at);
    lemma_remove_keeps(repository_path, worktree_path, host, answers, later, at);
}

#[verifier::spinoff_prover]
proof fn lemma_active_keeps(
    cwd: Seq<char>,
    thread_id: Seq<char>,
    answers: Seq<ToolAnswer>,
    later: Seq<ToolAnswer>,
    at: int,
)
    ensures
        keeps(
            active_step(cwd, thread_id, answers, at),
            active_step(cwd, thread_id, answers + later, at),
        ),
{
    assert forall|i: int| 0 <= i < answers.len() implies (answers + later)[i] == #[trigger] answers[i] by {}
}

#[verifier::spinoff_prover]
proof fn lemma_writable_keeps(
    tool_name: Seq<char>,
    full_disk_write: bool,
    cwd: Seq<char>,
    paths: Seq<Seq<char>>,
    answers: Seq<ToolAnswer>,
    later: Seq<ToolAnswer>,
    at: int,
)
    ensures
        keeps(
            writable_step(tool_name, full_disk_write, cwd, paths, answers, at),
            writable_step(tool_name, full_disk_write, cwd, paths, answers + later, at),
        ),
    decreases paths.len(),
{
    assert forall|i: int| 0 <= i < answers.len() implies (answers + later)[i] == #[trigger] answers[i] by {}
    if paths.len() > 0 {
        if let Step::Done(_, used) = writable_path_step(
            tool_name,
            full_disk_write,
            cwd,
            paths[0],
            answers,
            at,
        ) {
            lemma_writable_keeps(
                tool_name,
                full_disk_write,
                cwd,
                paths.drop_first(),
                answers,
                later,
                used,
            );
        }
    }
}

#[verifier::spinoff_prover]
proof fn lemma_preflight_keeps(
    info: InfoView,
    original_cwd: Seq<char>,
    name: Seq<char>,
    answers: Seq<ToolAnswer>,
    later: Seq<ToolAnswer>,
    at: int,
)
    ensures
        keeps(
            preflight_step(info, original_cwd, name, answers, at),
            preflight_step(info, original_cwd, name, answers + later, at),
        ),
{
    assert forall|i: int| 0 <= i < answers.len() implies (answers + later)[i] == #[trigger] answers[i] by {}
}

#[verifier::spinoff_prover]
proof fn lemma_matching_keeps(
    repo_root: Seq<char>,
    original_cwd: Seq<char>,
    worktree_path: Seq<char>,
    answers: Seq<ToolAnswer>,
    later: Seq<ToolAnswer>,
    at: int,
)
    ensures
        keeps(
            matching_step(repo_root, original_cwd, worktree_path, answers, at),
            matching_step(repo_root, original_cwd, worktree_path, answers + later, at),
        ),
{
    assert forall|i: int| 0 <= i < answers.len() implies (answers + later)[i] == #[trigger] answers[i] by {}
}

#[verifier::spinoff_prover]
proof fn lemma_created_entry_keeps(
    context: ContextView,
    original_cwd: Seq<char>,
    info: InfoView,
    name: Seq<char>,
    answers: Seq<ToolAnswer>,
    later: Seq<ToolAnswer>,
    at: int,
)
    ensures
        keeps(
            created_entry_step(context, original_cwd, info, name, answers, at),
            created_entry_step(context, original_cwd, info, name, answers + later, at),
        ),
{
    assert forall|i: int| 0 <= i < answers.len() implies (answers + later)[i] == #[trigger] answers[i] by {}
    if let Step::Done(managed, used) = managed_step(original_cwd, name, answers, at) {
        if let Ok(path) = absolute_or_fatal(managed.path, "managed worktree path"@) {
            lemma_matching_keeps(info.repo_root, original_cwd, path, answers, later, used);
            if let Step::Done(_, used) = matching_step(
                info.repo_root,
                original_cwd,
                path,
                answers,
                used,
            ) {
                if let Step::Done(_, used) = read_step(
                    info.common_dir,
                    managed.name,
                    answers,
                    used,
                ) {
                    lemma_writable_keeps(
                        "enter_worktree"@,
                        context.full_disk_write,
                        original_cwd,
                        seq![original_cwd, path],
                        answers,
                        later,
                        used,
                    );
                }
            }
        }
    }
}

#[verifier::spinoff_prover]
proof fn lemma_managed_entry_keeps(
    context: ContextView,
    original_cwd: Seq<char>,
    name: Seq<char>,
    answers: Seq<ToolAnswer>,
    later: Seq<ToolAnswer>,
    at: int,
)
    ensures
        keeps(
            managed_entry_step(context, original_cwd, name, answers, at),
            managed_entry_step(context, original_cwd, name, answers + later, at),
        ),
{
    assert forall|i: int| 0 <= i < answers.len() implies (answers + later)[i] == #[trigger] answers[i] by {}
    if let Step::Done(info, used) = inspected_step(original_cwd, answers, at) {
        lemma_preflight_keeps(info, original_cwd, name, answers, later, used);
        if let Step::Done(_, used) = preflight_step(info, original_cwd, name, answers, used) {
            lemma_writable_keeps(
                "enter_worktree"@,
                context.full_disk_write,
                original_cwd,
                seq![original_cwd],
                answers,
                later,
                used,
            );
            if let Step::Done(_, used) = writes_allowed_step(
                "enter_worktree"@,
                context.full_disk_write,
                original_cwd,
                name,
                answers,
                used,
            ) {
                lemma_created_entry_keeps(
                    context,
                    original_cwd,
                    info,
                    name,
                    answers,
                    later,
                    used,
                );
            }
        }
    }
}

#[verifier::spinoff_prover]
proof fn lemma_same_session_keeps(
    context: ContextView,
    original_cwd: Seq<char>,
    info: Option<InfoView>,
    answers: Seq<ToolAnswer>,
    later: Seq<ToolAnswer>,
    at: int,
)
    ensures
        keeps(
            same_session_step(context, original_cwd, info, answers, at),
            same_session_step(context, original_cwd, info, answers + later, at),
        ),
{
    assert forall|i: int| 0 <= i < answers.len() implies (answers + later)[i] == #[trigger] answers[i] by {}
}

#[verifier::spinoff_prover]
proof fn lemma_described_keeps(
    path: Seq<char>,
    info: Option<InfoView>,
    same_session: bool,
    answers: Seq<ToolAnswer>,
    later: Seq<ToolAnswer>,
    at: int,
)
    ensures
        keeps(
            described_entry_step(path, info, same_session, answers, at),
            described_entry_step(path, info, same_session, answers + later, at),
        ),
{
    assert forall|i: int| 0 <= i < answers.len() implies (answers + later)[i] == #[trigger] answers[i] by {}
}

#[verifier::spinoff_prover]
proof fn lemma_existing_entry_keeps(
    context: ContextView,
    original_cwd: Seq<char>,
    path: Seq<char>,
    answers: Seq<ToolAnswer>,
    later: Seq<ToolAnswer>,
    at: int,
)
    ensures
        keeps(
            existing_entry_step(context, original_cwd, path, answers, at),
            existing_entry_step(context, original_cwd, path, answers + later, at),
        ),
{
    assert forall|i: int| 0 <= i < answers.len() implies (answers + later)[i] == #[trigger] answers[i] by {}
    if let Step::Done(info, used) = inspected_optional_step(path, answers, at) {
        lemma_same_session_keeps(context, original_cwd, info, answers, later, used);
        if let Step::Done(same, used) = same_session_step(
            context,
            original_cwd,
            info,
            answers,
            used,
        ) {
            let paths = required_paths(original_cwd, path, same);
            lemma_writable_keeps(
                "enter_worktree"@,
                context.full_disk_write,
                original_cwd,
                paths,
                answers,
                later,
                used,
            );
            if let Step::Done(_, used) = writable_step(
                "enter_worktree"@,
                context.full_disk_write,
                original_cwd,
                paths,
                answers,
                used,
            ) {
                lemma_described_keeps(path, info, same, answers, later, used);
            }
        }
    }
}

#[verifier::spinoff_prover]
proof fn lemma_adopted_entry_keeps(
    context: ContextView,
    original_cwd: Seq<char>,
    path: Seq<char>,
    answers: Seq<ToolAnswer>,
    later: Seq<ToolAnswer>,
    at: int,
)
    ensures
        keeps(
            adopted_entry_step(context, original_cwd, path, answers, at),
            adopted_entry_step(context, original_cwd, path, answers + later, at),
        ),
{
    assert forall|i: int| 0 <= i < answers.len() implies (answers + later)[i] == #[trigger] answers[i] by {}
    if let Step::Done(candidate, used) = crate::checks::canonical_step(
        joined_path(original_cwd, path),
        answers,
        at,
    ) {
        lemma_existing_entry_keeps(context, original_cwd, candidate, answers, later, used + 1);
    }
}

#[verifier::spinoff_prover]
proof fn lemma_recorded_keeps(
    context: ContextView,
    original_cwd: Seq<char>,
    entry: EntryView,
    answers: Seq<ToolAnswer>,
    later: Seq<ToolAnswer>,
    at: int,
)
    ensures
        keeps(
            recorded_step(context, original_cwd, entry, answers, at),
            recorded_step(context, original_cwd, entry, answers + later, at),
        ),
{
    assert forall|i: int| 0 <= i < answers.len() implies (answers + later)[i] == #[trigger] answers[i] by {}
}

#[verifier::spinoff_prover]
proof fn lemma_prepared_keeps(
    context: ContextView,
    original_cwd: Seq<char>,
    original_roots: Seq<Seq<char>>,
    entry: EntryView,
    answers: Seq<ToolAnswer>,
    later: Seq<ToolAnswer>,
    at: int,
)
    ensures
        keeps(
            enter_prepared_step(context, original_cwd, original_roots, entry, answers, at),
            enter_prepared_step(context, original_cwd, original_roots, entry, answers + later, at),
        ),
{
    assert forall|i: int| 0 <= i < answers.len() implies (answers + later)[i] == #[trigger] answers[i] by {}
    lemma_recorded_keeps(context, original_cwd, entry, answers, later, at);
}

#[verifier::spinoff_prover]
proof fn lemma_enter_keeps(
    context: ContextView,
    payload: PayloadView<EnterArgsView>,
    answers: Seq<ToolAnswer>,
    later: Seq<ToolAnswer>,
    at: int,
)
    ensures
        keeps(
            enter_step(context, payload, answers, at),
            enter_step(context, payload, answers + later, at),
        ),
{
    assert forall|i: int| 0 <= i < answers.len() implies (answers + later)[i] == #[trigger] answers[i] by {}
    if let Ok((cwd, roots)) = starting_point(context.environments) {
        lemma_active_keeps(cwd, context.thread_id, answers, later, at + 1);
        if let Step::Done(None, found) = active_step(cwd, context.thread_id, answers, at + 1) {
            if let PayloadView::Function(Ok(args)) = payload {
                match (args.name, args.path) {
                    (Some(name), None) => {
                        lemma_managed_entry_keeps(context, cwd, name, answers, later, found);
                    },
                    (None, Some(path)) => {
                        lemma_adopted_entry_keeps(context, cwd, path, answers, later, found);
                    },
                    _ => {},
                }
                if let Step::Done(entry, used) = entry_step(context, cwd, args, answers, found) {
                    lemma_prepared_keeps(context, cwd, roots, entry, answers, later, used);
                }
            }
        }
    }
}

#[verifier::spinoff_prover]
proof fn lemma_checked_keeps(
    state: ActiveStateView,
    current_cwd: Seq<char>,
    answers: Seq<ToolAnswer>,
    later: Seq<ToolAnswer>,
    at: int,
)
    ensures
        keeps(
            checked_step(state, current_cwd, answers, at),
            checked_step(state, current_cwd, answers + later, at),
        ),
{
    assert forall|i: int| 0 <= i < answers.len() implies (answers + later)[i] == #[trigger] answers[i] by {}
}

#[verifier::spinoff_prover]
proof fn lemma_leave_keeps(
    context: ContextView,
    active: ActiveView,
    current_cwd: Seq<char>,
    keep: bool,
    answers: Seq<ToolAnswer>,
    later: Seq<ToolAnswer>,
    at: int,
)
    ensures
        keeps(
            leave_step(context, active, current_cwd, keep, answers, at),
            leave_step(context, active, current_cwd, keep, answers + later, at),
        ),
{
    assert forall|i: int| 0 <= i < answers.len() implies (answers + later)[i] == #[trigger] answers[i] by {}
}

#[verifier::spinoff_prover]
proof fn lemma_exit_keeps(
    context: ContextView,
    payload: PayloadView<ExitArgsView>,
    answers: Seq<ToolAnswer>,
    later: Seq<ToolAnswer>,
    at: int,
)
    ensures
        keeps(
            exit_step(context, payload, answers, at),
            exit_step(context, payload, answers + later, at),
        ),
{
    assert forall|i: int| 0 <= i < answers.len() implies (answers + later)[i] == #[trigger] answers[i] by {}
    assert forall|cwd: Seq<char>, from: int| keeps(
        #[trigger] active_step(cwd, context.thread_id, answers, from),
        active_step(cwd, context.thread_id, answers + later, from),
    ) by {
        lemma_active_keeps(cwd, context.thread_id, answers, later, from);
    }
    assert forall|state: ActiveStateView, cwd: Seq<char>, from: int| keeps(
        #[trigger] checked_step(state, cwd, answers, from),
        checked_step(state, cwd, answers + later, from),
    ) by {
        lemma_checked_keeps(state, cwd, answers, later, from);
    }
    assert forall|active: ActiveView, cwd: Seq<char>, keep: bool, from: int| keeps(
        #[trigger] leave_step(context, active, cwd, keep, answers, from),
        leave_step(context, active, cwd, keep, answers + later, from),
    ) by {
        lemma_leave_keeps(context, active, cwd, keep, answers, later, from);
    }
}

/// A tool that has come to its end comes to the same end whatever is answered later.
pub proof fn lemma_tools_keep_their_end(
    context: ContextView,
    enter: PayloadView<EnterArgsView>,
    exit: PayloadView<ExitArgsView>,
    answers: Seq<ToolAnswer>,
    later: Seq<ToolAnswer>,
    at: int,
)
    ensures
        keeps(
            enter_step(context, enter, answers, at),
            enter_step(context, enter, answers + later, at),
        ),
        keeps(
            exit_step(context, exit, answers, at),
            exit_step(context, exit, answers + later, at),
        ),
{
    lemma_enter_keeps(context, enter, answers, later, at);
    lemma_exit_keeps(context, exit, answers, later, at);
}

} // verus!
