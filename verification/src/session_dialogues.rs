//! What entering and leaving a worktree ask in turn, and what the answers come to.

use vstd::prelude::*;
use vstd::string::*;

use crate::bounds::{
    bounded_error, call_error_message, fits_context, git_error_view, model_error, output_too_large,
    CallErrorView,
};
use crate::checks::{
    anticipated_step, canonical_step, inspected_optional_step, inspected_step, managed_step,
    matching_step, read_step, still_inside_step, writable_step,
};
use crate::discovery::{active_step, lemma_a_direct_child_is_named, managed_name_step, name_below};
use crate::enter::{
    adopted_entry_step, created_entry_step, described_entry_step, enter_from_step,
    enter_prepared_step, enter_step, enter_update, entered_worktree, entry_content, entry_output,
    existing_entry_step, managed_entry_step, native_roots, recorded_step, same_session_step,
    ContextView, EnterArgsView, EntryView, PayloadView,
};
use crate::environment::{
    entered_roots, settings_update, EnvironmentView, RootsUpdateView, StateView, UpdateView,
    UriView,
};
use crate::errors::GitErrorView;
use crate::exit::{
    checked_step, exit_content, exit_found_step, exit_step, exit_update, leave_step, ExitArgsView,
};
use crate::git_dialogues::{goes_as, turn};
use crate::json::{object_text, optional_flag_value, optional_text_value, JsonView};
use crate::managed::ManagedView;
use crate::metadata::{metadata_path, MetadataView};
use crate::output::{
    anticipated_output, enter_members, exit_members, preflight_step, writes_allowed_step,
    EnterOutputView, ExitOutputView,
};
use crate::paths::{is_absolute_path, joined_path, path_parts, path_starts_with, tidied, Part};
use crate::progress::Step;
use crate::session::{
    active_of, ActiveStateView, ActiveView, BlockingView, OwnershipView, ToolAnswer, ToolAsk,
    ToolStep,
};
use crate::text::text_bytes;
use crate::tool_dialogues::{
    git_problem, inspected, is_path_to, lemma_a_checkout_is_inspected,
    lemma_a_managed_checkout_has_a_name, lemma_a_path_is_resolved_for_a_tool,
    lemma_every_path_has_to_be_writable, lemma_paths_have_to_be_absolute,
    lemma_settings_are_changed_in_one_step, lemma_the_data_beside_is_read,
    lemma_the_data_beside_is_written, lemma_the_place_in_the_worktree_is_the_same,
    lemma_the_same_place_is_entered_where_it_exists, lemma_worktrees_are_made_and_removed, no_data,
    read, resolved, write_questions, writing_is_allowed,
};
use crate::worktree::{managed_dir, managed_path, name_problem, InfoView};

verus! {

/// What is asked before a worktree is created by name: where the session is in its checkout, and
/// whether it may write there.
pub open spec fn questions_before_creating(
    context: ContextView,
    original_cwd: Seq<char>,
    info: InfoView,
    canonical: Seq<char>,
) -> Seq<ToolAsk> {
    seq![
        ToolAsk::Inspect(original_cwd),
        ToolAsk::Canonicalize(info.repo_root),
        ToolAsk::Canonicalize(original_cwd),
    ] + write_questions(
        context.full_disk_write,
        original_cwd,
        seq![original_cwd],
        seq![canonical],
    )
}

#[verifier::spinoff_prover]
proof fn lemma_the_answer_is_checked_before(
    original_cwd: Seq<char>,
    name: Seq<char>,
    answers: Seq<ToolAnswer>,
    at: int,
    there: int,
    info: InfoView,
    root: Seq<char>,
    cwd: Seq<char>,
    rest: Seq<Part>,
    place: Seq<char>,
)
    requires
        0 <= at,
        at + 2 <= answers.len(),
        at <= there <= answers.len(),
        name_problem(name) is None,
        is_absolute_path(managed_path(info.common_dir, name)),
        is_absolute_path(root),
        there > at ==> resolved(answers[at], root),
        there > at + 1 ==> resolved(answers[at + 1], cwd),
        is_path_to(cwd, root, rest),
        is_path_to(place, managed_path(info.common_dir, name), rest),
        place == tidied(place),
        fits_context(
            object_text(
                enter_members(
                    anticipated_output(
                        place,
                        tidied(managed_path(info.common_dir, name)),
                        original_cwd,
                        name,
                    ),
                ),
            ),
        ),
    ensures
        preflight_step(info, original_cwd, name, answers.take(there), at) == turn(
            seq![ToolAsk::Canonicalize(info.repo_root), ToolAsk::Canonicalize(original_cwd)],
            at,
            there,
            ToolStep::<()>::Done((), at + 2),
        ),
{
    let path = managed_path(info.common_dir, name);
    let worktree = tidied(path);
    lemma_paths_have_to_be_absolute(path, "managed worktree path"@);
    lemma_the_place_in_the_worktree_is_the_same(
        info.repo_root,
        original_cwd,
        worktree,
        answers,
        at,
        there,
        root,
        cwd,
        rest,
    );
    if there >= at + 2 {
        if let Step::Done(found, used) = anticipated_step(
            info.repo_root,
            original_cwd,
            worktree,
            answers.take(there),
            at,
        ) {
            assert(path_parts(found) == path_parts(place));
            assert(found == tidied(found));
            assert(found == place);
        }
    }
}

#[verifier::spinoff_prover]
proof fn lemma_the_directory_has_to_be_writable(
    full_disk_write: bool,
    original_cwd: Seq<char>,
    name: Seq<char>,
    answers: Seq<ToolAnswer>,
    at: int,
    there: int,
    canonical: Seq<char>,
)
    requires
        0 <= at,
        at + 2 <= answers.len(),
        at <= there <= answers.len(),
        name_problem(name) is None,
        there > at ==> resolved(answers[at], canonical),
        !full_disk_write && there > at + 1 ==> answers[at + 1] == ToolAnswer::Writable(true),
    ensures
        writes_allowed_step(
            "enter_worktree"@,
            full_disk_write,
            original_cwd,
            name,
            answers.take(there),
            at,
        ) == turn(
            write_questions(full_disk_write, original_cwd, seq![original_cwd], seq![canonical]),
            at,
            there,
            ToolStep::<()>::Done(
                (),
                at + write_questions(
                    full_disk_write,
                    original_cwd,
                    seq![original_cwd],
                    seq![canonical],
                ).len(),
            ),
        ),
{
    let asks = write_questions(full_disk_write, original_cwd, seq![original_cwd], seq![canonical]);
    assert forall|i: int|
        0 <= i < (if there - at < asks.len() {
            there - at
        } else {
            asks.len() as int
        }) implies #[trigger] answers[at + i] == (if full_disk_write {
        ToolAnswer::Canonical(Ok(seq![canonical][i]))
    } else if i % 2 == 0 {
        ToolAnswer::Canonical(Ok(seq![canonical][i / 2]))
    } else {
        ToolAnswer::Writable(true)
    }) by {}
    lemma_every_path_has_to_be_writable(
        "enter_worktree"@,
        full_disk_write,
        original_cwd,
        seq![original_cwd],
        seq![canonical],
        answers,
        at,
        there,
    );
}

/// A worktree is created by name only after the checkout was inspected, the answer was found to
/// be short enough and the directory of the session to be writable.
#[verifier::spinoff_prover]
pub proof fn lemma_a_worktree_is_created_after_the_checks(
    context: ContextView,
    original_cwd: Seq<char>,
    name: Seq<char>,
    answers: Seq<ToolAnswer>,
    at: int,
    there: int,
    info: InfoView,
    root: Seq<char>,
    cwd: Seq<char>,
    rest: Seq<Part>,
    place: Seq<char>,
    canonical: Seq<char>,
)
    requires
        0 <= at,
        at + 5 <= answers.len(),
        at <= there <= answers.len(),
        name_problem(name) is None,
        there > at ==> inspected(answers[at], info),
        is_absolute_path(managed_path(info.common_dir, name)),
        is_absolute_path(root),
        there > at + 1 ==> resolved(answers[at + 1], root),
        there > at + 2 ==> resolved(answers[at + 2], cwd),
        is_path_to(cwd, root, rest),
        is_path_to(place, managed_path(info.common_dir, name), rest),
        place == tidied(place),
        fits_context(
            object_text(
                enter_members(
                    anticipated_output(
                        place,
                        tidied(managed_path(info.common_dir, name)),
                        original_cwd,
                        name,
                    ),
                ),
            ),
        ),
        there > at + 3 ==> resolved(answers[at + 3], canonical),
        !context.full_disk_write && there > at + 4 ==> answers[at + 4] == ToolAnswer::Writable(
            true,
        ),
    ensures
        managed_entry_step(context, original_cwd, name, answers.take(there), at) == turn(
            questions_before_creating(context, original_cwd, info, canonical),
            at,
            there,
            created_entry_step(
                context,
                original_cwd,
                info,
                name,
                answers.take(there),
                at + questions_before_creating(context, original_cwd, info, canonical).len(),
            ),
        ),
{
    lemma_a_checkout_is_inspected(original_cwd, answers, at, there);
    if there > at {
        lemma_the_answer_is_checked_before(
            original_cwd,
            name,
            answers,
            at + 1,
            there,
            info,
            root,
            cwd,
            rest,
            place,
        );
    }
    if there >= at + 3 {
        lemma_the_directory_has_to_be_writable(
            context.full_disk_write,
            original_cwd,
            name,
            answers,
            at + 3,
            there,
            canonical,
        );
    }
}

/// The directory of a session in a worktree: the same place where that is there, and otherwise
/// the worktree itself.
pub open spec fn entered_place(
    place: Seq<char>,
    worktree: Seq<char>,
    canonical_place: Option<Seq<char>>,
    canonical_worktree: Seq<char>,
) -> Seq<char> {
    match canonical_place {
        Some(canonical) => if path_starts_with(canonical, canonical_worktree) {
            place
        } else {
            worktree
        },
        None => worktree,
    }
}

#[verifier::spinoff_prover]
proof fn lemma_the_place_is_found(
    original_cwd: Seq<char>,
    info: InfoView,
    worktree: Seq<char>,
    answers: Seq<ToolAnswer>,
    at: int,
    there: int,
    root: Seq<char>,
    cwd: Seq<char>,
    rest: Seq<Part>,
    place: Seq<char>,
    canonical_place: Seq<char>,
    canonical_worktree: Seq<char>,
)
    requires
        0 <= at,
        at + 4 <= answers.len(),
        at <= there <= answers.len(),
        is_absolute_path(worktree),
        is_absolute_path(root),
        is_path_to(cwd, root, rest),
        is_path_to(place, worktree, rest),
        place == tidied(place),
        worktree == tidied(worktree),
        there > at ==> resolved(answers[at], root),
        there > at + 1 ==> resolved(answers[at + 1], cwd),
        there > at + 2 ==> resolved(answers[at + 2], canonical_place),
        there > at + 3 ==> resolved(answers[at + 3], canonical_worktree),
    ensures
        matching_step(
            info.repo_root,
            original_cwd,
            worktree,
            answers.take(there),
            at,
        ) == turn(
            seq![
                ToolAsk::Canonicalize(info.repo_root),
                ToolAsk::Canonicalize(original_cwd),
                ToolAsk::Canonicalize(place),
                ToolAsk::Canonicalize(worktree),
            ],
            at,
            there,
            ToolStep::<Seq<char>>::Done(
                entered_place(place, worktree, Some(canonical_place), canonical_worktree),
                at + 4,
            ),
        ),
{
    lemma_the_place_in_the_worktree_is_the_same(
        info.repo_root,
        original_cwd,
        worktree,
        answers,
        at,
        there,
        root,
        cwd,
        rest,
    );
    if there >= at + 2 {
        if let Step::Done(found, used) = anticipated_step(
            info.repo_root,
            original_cwd,
            worktree,
            answers.take(there),
            at,
        ) {
            assert(path_parts(found) == path_parts(place));
            assert(found == tidied(found));
            assert(found == place);
        }
        lemma_the_same_place_is_entered_where_it_exists(
            info.repo_root,
            original_cwd,
            worktree,
            answers,
            at,
            there,
            root,
            cwd,
            rest,
            place,
        );
    }
}

/// A worktree that is created or reused by name is entered at the same place, under its own name,
/// on the branch that git reports. A new one belongs to the session. Of one that was there before,
/// the data beside it says whether it does; one of another session has to be writable, as the
/// directory of the session has, and is adopted.
#[verifier::spinoff_prover]
pub proof fn lemma_a_worktree_is_entered_by_name(
    context: ContextView,
    original_cwd: Seq<char>,
    info: InfoView,
    name: Seq<char>,
    answers: Seq<ToolAnswer>,
    at: int,
    there: int,
    managed: ManagedView,
    root: Seq<char>,
    cwd: Seq<char>,
    rest: Seq<Part>,
    place: Seq<char>,
    canonical_place: Seq<char>,
    canonical_worktree: Seq<char>,
    data: Option<MetadataView>,
)
    requires
        0 <= at,
        at + 6 <= answers.len(),
        at <= there <= answers.len(),
        is_absolute_path(managed.path),
        is_absolute_path(root),
        is_path_to(cwd, root, rest),
        is_path_to(place, managed.path, rest),
        place == tidied(place),
        there > at ==> answers[at] == ToolAnswer::Managed(BlockingView::Finished(Ok(managed))),
        there > at + 1 ==> resolved(answers[at + 1], root),
        there > at + 2 ==> resolved(answers[at + 2], cwd),
        there > at + 3 ==> resolved(answers[at + 3], canonical_place),
        there > at + 4 ==> resolved(answers[at + 4], canonical_worktree),
        !managed.created && there > at + 5 ==> (match data {
            Some(data) => read(answers[at + 5], data) && is_absolute_path(data.original_cwd),
            None => no_data(answers[at + 5]),
        }),
    ensures
        there < at + 5 ==> created_entry_step(
            context,
            original_cwd,
            info,
            name,
            answers.take(there),
            at,
        ) == ToolStep::<EntryView>::Ask(
            seq![
                ToolAsk::CreateManaged { repository_path: original_cwd, name },
                ToolAsk::Canonicalize(info.repo_root),
                ToolAsk::Canonicalize(original_cwd),
                ToolAsk::Canonicalize(place),
                ToolAsk::Canonicalize(tidied(managed.path)),
            ][there - at],
        ),
        there == at + 5 && !managed.created ==> created_entry_step(
            context,
            original_cwd,
            info,
            name,
            answers.take(there),
            at,
        ) == ToolStep::<EntryView>::Ask(
            ToolAsk::ReadMetadata(metadata_path(info.common_dir, managed.name)),
        ),
        there >= at + 5 && managed.created ==> created_entry_step(
            context,
            original_cwd,
            info,
            name,
            answers.take(there),
            at,
        ) == ToolStep::<EntryView>::Done(
            EntryView {
                worktree_cwd: entered_place(
                    place,
                    tidied(managed.path),
                    Some(canonical_place),
                    canonical_worktree,
                ),
                worktree_path: tidied(managed.path),
                branch: managed.info.current_branch,
                name: Some(managed.name),
                created: Some(true),
                created_branch: managed.created_branch,
                ownership: OwnershipView::ManagedByCodex(info.common_dir),
            },
            at + 5,
        ),
        there >= at + 6 && !managed.created && (data matches Some(data) && data.owner_thread_id
            == Some(context.thread_id)) ==> created_entry_step(
            context,
            original_cwd,
            info,
            name,
            answers.take(there),
            at,
        ) == ToolStep::<EntryView>::Done(
            EntryView {
                worktree_cwd: entered_place(
                    place,
                    tidied(managed.path),
                    Some(canonical_place),
                    canonical_worktree,
                ),
                worktree_path: tidied(managed.path),
                branch: managed.info.current_branch,
                name: Some(managed.name),
                created: Some(false),
                created_branch: managed.created_branch,
                ownership: OwnershipView::ManagedByCodex(info.common_dir),
            },
            at + 6,
        ),
        there >= at + 6 && !managed.created && !(data matches Some(data) && data.owner_thread_id
            == Some(context.thread_id)) ==> created_entry_step(
            context,
            original_cwd,
            info,
            name,
            answers.take(there),
            at,
        ) == (match writable_step(
            "enter_worktree"@,
            context.full_disk_write,
            original_cwd,
            seq![original_cwd, tidied(managed.path)],
            answers.take(there),
            at + 6,
        ) {
            Step::Ask(ask) => ToolStep::<EntryView>::Ask(ask),
            Step::Failed(error, used) => ToolStep::Failed(error, used),
            Step::Done(_, used) => ToolStep::Done(
                EntryView {
                    worktree_cwd: entered_place(
                        place,
                        tidied(managed.path),
                        Some(canonical_place),
                        canonical_worktree,
                    ),
                    worktree_path: tidied(managed.path),
                    branch: managed.info.current_branch,
                    name: Some(managed.name),
                    created: Some(false),
                    created_branch: managed.created_branch,
                    ownership: OwnershipView::Adopted,
                },
                used,
            ),
        }),
{
    let worktree = tidied(managed.path);
    lemma_worktrees_are_made_and_removed(
        original_cwd,
        name,
        ToolAsk::LockSettings,
        answers,
        at,
        there,
    );
    lemma_paths_have_to_be_absolute(managed.path, "managed worktree path"@);
    if there > at {
        lemma_the_place_is_found(
            original_cwd,
            info,
            worktree,
            answers,
            at + 1,
            there,
            root,
            cwd,
            rest,
            place,
            canonical_place,
            canonical_worktree,
        );
    }
    if there >= at + 5 && !managed.created {
        lemma_the_data_beside_is_read(info.common_dir, managed.name, answers, at + 5, there);
    }
}

/// A path is entered that is joined to the directory of the session and resolves to a directory.
/// An empty path and anything that is no directory are refused.
#[verifier::spinoff_prover]
pub proof fn lemma_a_path_is_entered_where_it_is_a_directory(
    context: ContextView,
    original_cwd: Seq<char>,
    path: Seq<char>,
    answers: Seq<ToolAnswer>,
    at: int,
    there: int,
    candidate: Seq<char>,
)
    requires
        0 <= at,
        at + 2 <= answers.len(),
        at <= there <= answers.len(),
        there > at ==> resolved(answers[at], candidate),
        there > at + 1 ==> answers[at + 1] is Directory,
    ensures
        path.len() == 0 ==> adopted_entry_step(
            context,
            original_cwd,
            path,
            answers.take(there),
            at,
        ) == ToolStep::<EntryView>::Failed(
            model_error("enter_worktree `path` must not be empty"@),
            at,
        ),
        path.len() > 0 ==> adopted_entry_step(
            context,
            original_cwd,
            path,
            answers.take(there),
            at,
        ) == turn(
            seq![
                ToolAsk::Canonicalize(joined_path(original_cwd, path)),
                ToolAsk::IsDirectory(candidate),
            ],
            at,
            there,
            if answers[at + 1]->Directory_0 {
                existing_entry_step(
                    context,
                    original_cwd,
                    candidate,
                    answers.take(there),
                    at + 2,
                )
            } else {
                ToolStep::<EntryView>::Failed(
                    model_error(
                        "enter_worktree path `"@ + candidate
                            + "` must be an existing directory"@,
                    ),
                    at + 2,
                )
            },
        ),
{
    lemma_a_path_is_resolved_for_a_tool(joined_path(original_cwd, path), answers, at, there);
    if there > at + 1 {
        assert(answers.take(there)[at + 1] == answers[at + 1]);
    }
}

/// A directory that is in no repository is adopted as it is, where it and the directory of the
/// session may be written.
#[verifier::spinoff_prover]
pub proof fn lemma_a_plain_directory_is_adopted(
    context: ContextView,
    original_cwd: Seq<char>,
    candidate: Seq<char>,
    answers: Seq<ToolAnswer>,
    at: int,
    there: int,
    canonical: Seq<Seq<char>>,
)
    requires
        0 <= at,
        canonical.len() == 2,
        at + 1 + write_questions(
            context.full_disk_write,
            original_cwd,
            seq![original_cwd, candidate],
            canonical,
        ).len() <= answers.len(),
        at <= there <= answers.len(),
        is_absolute_path(candidate),
        there > at ==> (answers[at] matches ToolAnswer::Inspected(
            BlockingView::Finished(Err(error)),
        ) && error is NotAGitRepository),
        there > at ==> writing_is_allowed(
            context.full_disk_write,
            canonical,
            answers,
            at + 1,
            if there - (at + 1) < write_questions(
                context.full_disk_write,
                original_cwd,
                seq![original_cwd, candidate],
                canonical,
            ).len() {
                there - (at + 1)
            } else {
                write_questions(
                    context.full_disk_write,
                    original_cwd,
                    seq![original_cwd, candidate],
                    canonical,
                ).len() as int
            },
        ),
    ensures
        existing_entry_step(context, original_cwd, candidate, answers.take(there), at) == turn(
            seq![ToolAsk::Inspect(candidate)] + write_questions(
                context.full_disk_write,
                original_cwd,
                seq![original_cwd, candidate],
                canonical,
            ),
            at,
            there,
            ToolStep::<EntryView>::Done(
                EntryView {
                    worktree_cwd: tidied(candidate),
                    worktree_path: tidied(candidate),
                    branch: None,
                    name: None,
                    created: None,
                    created_branch: None,
                    ownership: OwnershipView::Adopted,
                },
                at + 1 + write_questions(
                    context.full_disk_write,
                    original_cwd,
                    seq![original_cwd, candidate],
                    canonical,
                ).len(),
            ),
        ),
{
    lemma_a_checkout_is_inspected(candidate, answers, at, there);
    if there > at {
        lemma_every_path_has_to_be_writable(
            "enter_worktree"@,
            context.full_disk_write,
            original_cwd,
            seq![original_cwd, candidate],
            canonical,
            answers,
            at + 1,
            there,
        );
    }
}

/// A checkout belongs to the session where its root is a managed worktree of the repository that
/// the session is in and the data beside it names the session; in every other case it does not.
#[verifier::spinoff_prover]
pub proof fn lemma_a_checkout_belongs_to_its_session(
    context: ContextView,
    original_cwd: Seq<char>,
    info: InfoView,
    answers: Seq<ToolAnswer>,
    at: int,
    there: int,
    base: Seq<char>,
    name: Seq<char>,
    original: InfoView,
    data: Option<MetadataView>,
)
    requires
        0 <= at,
        at + 3 <= answers.len(),
        at <= there <= answers.len(),
        there > at ==> resolved(answers[at], base),
        path_parts(info.repo_root) == path_parts(base).push(Part::Normal(name)),
        there > at + 1 ==> inspected(answers[at + 1], original),
        there > at + 2 ==> (match data {
            Some(data) => read(answers[at + 2], data) && is_absolute_path(data.original_cwd),
            None => no_data(answers[at + 2]),
        }),
    ensures
        path_parts(original.common_dir) == path_parts(info.common_dir) ==> same_session_step(
            context,
            original_cwd,
            Some(info),
            answers.take(there),
            at,
        ) == turn(
            seq![
                ToolAsk::Canonicalize(managed_dir(info.common_dir)),
                ToolAsk::Inspect(original_cwd),
                ToolAsk::ReadMetadata(metadata_path(info.common_dir, name)),
            ],
            at,
            there,
            ToolStep::<bool>::Done(
                data matches Some(data) && data.owner_thread_id == Some(context.thread_id),
                at + 3,
            ),
        ),
        path_parts(original.common_dir) != path_parts(info.common_dir) && there > at + 1
            ==> same_session_step(context, original_cwd, Some(info), answers.take(there), at)
            == ToolStep::<bool>::Done(false, at + 2),
{
    lemma_a_managed_checkout_has_a_name(
        info.common_dir,
        info.repo_root,
        answers,
        at,
        there,
        name,
    );
    if there > at {
        lemma_a_checkout_is_inspected(original_cwd, answers, at + 1, there);
    }
    if there > at + 1 {
        lemma_the_data_beside_is_read(info.common_dir, name, answers, at + 2, there);
    }
}

/// No session owns a checkout whose root is no managed worktree of its repository, nor what is
/// no checkout.
#[verifier::spinoff_prover]
pub proof fn lemma_other_checkouts_belong_to_no_session(
    context: ContextView,
    original_cwd: Seq<char>,
    info: InfoView,
    answers: Seq<ToolAnswer>,
    at: int,
)
    requires
        0 <= at < answers.len(),
        answers[at] is Canonical,
        answers[at] matches ToolAnswer::Canonical(Ok(base)) ==> forall|name: Seq<char>| #[trigger]
            path_parts(base).push(Part::Normal(name)) != path_parts(info.repo_root),
    ensures
        same_session_step(context, original_cwd, Some(info), answers, at) == ToolStep::<
            bool,
        >::Done(false, at + 1),
        same_session_step(context, original_cwd, None, answers, at) == ToolStep::<bool>::Done(
            false,
            at,
        ),
{
    if let ToolAnswer::Canonical(Ok(base)) = answers[at] {
        if let Some(name) = name_below(base, info.repo_root) {
            lemma_a_direct_child_is_named(base, info.repo_root, name);
        }
    }
}

/// An existing checkout is entered at the given path. Its root is the worktree, with the branch
/// that git reports and the name that it has as a managed worktree, if it is one. It is neither
/// created nor does a branch come with it.
#[verifier::spinoff_prover]
pub proof fn lemma_an_existing_checkout_is_described(
    candidate: Seq<char>,
    info: InfoView,
    same_session: bool,
    answers: Seq<ToolAnswer>,
    at: int,
    there: int,
    name: Seq<char>,
)
    requires
        0 <= at < answers.len(),
        at <= there <= answers.len(),
        is_absolute_path(candidate),
        is_absolute_path(info.repo_root),
        there > at ==> answers[at] is Canonical,
    ensures
        there == at ==> described_entry_step(
            candidate,
            Some(info),
            same_session,
            answers.take(there),
            at,
        ) == ToolStep::<EntryView>::Ask(ToolAsk::Canonicalize(managed_dir(info.common_dir))),
        there > at ==> (described_entry_step(
            candidate,
            Some(info),
            same_session,
            answers.take(there),
            at,
        ) matches Step::Done(entry, used) && {
            &&& used == at + 1
            &&& entry.worktree_cwd == tidied(candidate)
            &&& entry.worktree_path == tidied(info.repo_root)
            &&& entry.branch == info.current_branch
            &&& entry.created is None
            &&& entry.created_branch is None
            &&& entry.ownership == (if same_session {
                OwnershipView::ManagedByCodex(info.common_dir)
            } else {
                OwnershipView::Adopted
            })
            &&& match answers[at]->Canonical_0 {
                Ok(base) => entry.name == Some(name) <==> path_parts(info.repo_root) == path_parts(
                    base,
                ).push(Part::Normal(name)),
                Err(_) => entry.name is None,
            }
        }),
{
    lemma_a_managed_checkout_has_a_name(
        info.common_dir,
        info.repo_root,
        answers,
        at,
        there,
        name,
    );
    lemma_paths_have_to_be_absolute(candidate, "adopted workdir cwd"@);
    lemma_paths_have_to_be_absolute(info.repo_root, "adopted worktree path"@);
}

/// Before an existing checkout is described, the session has to be allowed to write: in its own
/// directory, and, unless the checkout is its own, in the given path.
#[verifier::spinoff_prover]
pub proof fn lemma_a_checkout_is_entered_where_it_is_writable(
    context: ContextView,
    original_cwd: Seq<char>,
    candidate: Seq<char>,
    info: InfoView,
    same_session: bool,
    answers: Seq<ToolAnswer>,
    at: int,
    there: int,
    asked: int,
    canonical: Seq<Seq<char>>,
    paths: Seq<Seq<char>>,
)
    requires
        0 <= at < answers.len(),
        inspected(answers[at], info),
        same_session_step(context, original_cwd, Some(info), answers.take(there), at + 1)
            == ToolStep::<bool>::Done(same_session, asked),
        paths == (if same_session {
            seq![original_cwd]
        } else {
            seq![original_cwd, candidate]
        }),
        canonical.len() == paths.len(),
        at < asked <= there <= answers.len(),
        asked + write_questions(context.full_disk_write, original_cwd, paths, canonical).len()
            <= answers.len(),
        writing_is_allowed(
            context.full_disk_write,
            canonical,
            answers,
            asked,
            if there - asked < write_questions(
                context.full_disk_write,
                original_cwd,
                paths,
                canonical,
            ).len() {
                there - asked
            } else {
                write_questions(context.full_disk_write, original_cwd, paths, canonical).len() as int
            },
        ),
    ensures
        existing_entry_step(context, original_cwd, candidate, answers.take(there), at) == turn(
            write_questions(context.full_disk_write, original_cwd, paths, canonical),
            asked,
            there,
            described_entry_step(
                candidate,
                Some(info),
                same_session,
                answers.take(there),
                asked + write_questions(
                    context.full_disk_write,
                    original_cwd,
                    paths,
                    canonical,
                ).len(),
            ),
        ),
{
    lemma_a_checkout_is_inspected(candidate, answers, at, there);
    lemma_every_path_has_to_be_writable(
        "enter_worktree"@,
        context.full_disk_write,
        original_cwd,
        paths,
        canonical,
        answers,
        asked,
        there,
    );
}

/// What is told of a worktree that was entered: where the session is now, the worktree, where it
/// was before, the branch, the name and whether it is new.
pub open spec fn told_of_entering(original_cwd: Seq<char>, entry: EntryView) -> Seq<char> {
    object_text(
        seq![
            ("cwd"@, JsonView::Text(entry.worktree_cwd)),
            ("worktree_path"@, JsonView::Text(entry.worktree_path)),
            ("original_cwd"@, JsonView::Text(original_cwd)),
            ("branch"@, optional_text_value(entry.branch)),
            ("name"@, optional_text_value(entry.name)),
            ("created"@, optional_flag_value(entry.created)),
        ],
    )
}

proof fn lemma_entering_is_told(original_cwd: Seq<char>, entry: EntryView)
    ensures
        entry_content(original_cwd, entry) == told_of_entering(original_cwd, entry),
{
    assert(enter_members(entry_output(original_cwd, entry))
        =~= seq![
        ("cwd"@, JsonView::Text(entry.worktree_cwd)),
        ("worktree_path"@, JsonView::Text(entry.worktree_path)),
        ("original_cwd"@, JsonView::Text(original_cwd)),
        ("branch"@, optional_text_value(entry.branch)),
        ("name"@, optional_text_value(entry.name)),
        ("created"@, optional_flag_value(entry.created)),
    ]);
}

/// The data that is written beside a new worktree: where the session was, and that it owns it.
pub open spec fn data_of_session(context: ContextView, original_cwd: Seq<char>) -> Seq<char> {
    object_text(
        seq![
            ("original_cwd"@, JsonView::Text(original_cwd)),
            ("owner_thread_id"@, optional_text_value(Some(context.thread_id))),
        ],
    )
}

/// A new worktree is taken back with the branch that came with it.
pub open spec fn taking_back(original_cwd: Seq<char>, entry: EntryView) -> ToolAsk {
    ToolAsk::RemoveCreated {
        repository_path: original_cwd,
        worktree_path: entry.worktree_path,
        created_branch: entry.created_branch,
    }
}

/// What a session that took back a new worktree fails with: what went wrong, and where the taking
/// back failed as well, also that.
pub open spec fn after_taking_back(
    error: CallErrorView,
    removal: BlockingView<Result<(), GitErrorView>>,
) -> CallErrorView {
    match git_problem(removal) {
        None => error,
        Some(cleanup) => model_error(
            call_error_message(error) + "; failed to roll back the newly created worktree: "@
                + call_error_message(cleanup),
        ),
    }
}

/// Data is written beside a worktree exactly where the session created it. Where the writing
/// fails, the worktree is taken back.
#[verifier::spinoff_prover]
pub proof fn lemma_new_worktrees_are_recorded(
    context: ContextView,
    original_cwd: Seq<char>,
    entry: EntryView,
    common_dir: Seq<char>,
    name: Seq<char>,
    answers: Seq<ToolAnswer>,
    at: int,
    there: int,
)
    requires
        0 <= at,
        at + 2 <= answers.len(),
        at <= there <= answers.len(),
        text_bytes(told_of_entering(original_cwd, entry)) <= 512,
        entry.ownership == OwnershipView::ManagedByCodex(common_dir),
        entry.name == Some(name),
        there > at ==> answers[at] is MetadataWritten,
        there > at + 1 ==> answers[at + 1] is Removed,
    ensures
        entry.created != Some(true) ==> recorded_step(
            context,
            original_cwd,
            entry,
            answers.take(there),
            at,
        ) == ToolStep::<()>::Done((), at),
        entry.created == Some(true) && there == at ==> recorded_step(
            context,
            original_cwd,
            entry,
            answers.take(there),
            at,
        ) == ToolStep::<()>::Ask(
            ToolAsk::WriteMetadata {
                path: metadata_path(common_dir, name),
                content: data_of_session(context, original_cwd),
            },
        ),
        entry.created == Some(true) && there > at && answers[at]->MetadataWritten_0
            == BlockingView::<Result<(), Seq<char>>>::Finished(Ok(())) ==> recorded_step(
            context,
            original_cwd,
            entry,
            answers.take(there),
            at,
        ) == ToolStep::<()>::Done((), at + 1),
        entry.created == Some(true) ==> (answers[at] matches ToolAnswer::MetadataWritten(
            BlockingView::Finished(Err(problem)),
        ) ==> (there == at + 1 ==> recorded_step(
            context,
            original_cwd,
            entry,
            answers.take(there),
            at,
        ) == ToolStep::<()>::Ask(taking_back(original_cwd, entry))) && (there > at + 1
            ==> recorded_step(context, original_cwd, entry, answers.take(there), at) == ToolStep::<
            (),
        >::Failed(
            after_taking_back(
                model_error("failed to write managed worktree metadata: "@ + problem),
                answers[at + 1]->Removed_0,
            ),
            at + 2,
        ))),
{
    lemma_entering_is_told(original_cwd, entry);
    lemma_the_data_beside_is_written(
        common_dir,
        name,
        MetadataView { original_cwd, owner_thread_id: Some(context.thread_id) },
        answers,
        at,
        there,
    );
    if there > at {
        lemma_worktrees_are_made_and_removed(
            original_cwd,
            name,
            taking_back(original_cwd, entry),
            answers,
            at + 1,
            there,
        );
    }
}

/// An answer that is too long is refused; a worktree that was created for it is taken back.
#[verifier::spinoff_prover]
pub proof fn lemma_long_answers_are_refused(
    context: ContextView,
    original_cwd: Seq<char>,
    entry: EntryView,
    answers: Seq<ToolAnswer>,
    at: int,
    there: int,
)
    requires
        0 <= at < answers.len(),
        at <= there <= answers.len(),
        text_bytes(told_of_entering(original_cwd, entry)) > 512,
        there > at ==> answers[at] is Removed,
    ensures
        entry.created != Some(true) ==> recorded_step(
            context,
            original_cwd,
            entry,
            answers.take(there),
            at,
        ) == ToolStep::<()>::Failed(output_too_large(), at),
        entry.created == Some(true) ==> recorded_step(
            context,
            original_cwd,
            entry,
            answers.take(there),
            at,
        ) == turn(
            seq![taking_back(original_cwd, entry)],
            at,
            there,
            ToolStep::<()>::Failed(
                after_taking_back(output_too_large(), answers[at]->Removed_0),
                at + 1,
            ),
        ),
{
    lemma_entering_is_told(original_cwd, entry);
    lemma_worktrees_are_made_and_removed(
        original_cwd,
        Seq::empty(),
        taking_back(original_cwd, entry),
        answers,
        at,
        there,
    );
}

/// The root that a session gets with a worktree: all of its own worktree, and of another one only
/// the directory that was entered.
pub open spec fn root_of_entry(entry: EntryView) -> Seq<char> {
    if entry.ownership is Adopted {
        entry.worktree_cwd
    } else {
        entry.worktree_path
    }
}

/// Once a worktree is recorded, the settings of the session are changed to it, its directory is
/// kept, the worktree is remembered with where the session was and its roots, and the settings are
/// announced; in this order. Then the worktree is told.
#[verifier::spinoff_prover]
pub proof fn lemma_a_session_is_moved_into_the_worktree(
    context: ContextView,
    original_cwd: Seq<char>,
    original_roots: Seq<Seq<char>>,
    entry: EntryView,
    answers: Seq<ToolAnswer>,
    at: int,
    there: int,
    recorded: int,
    update: UpdateView,
)
    requires
        0 <= at <= recorded,
        recorded + 4 <= answers.len(),
        recorded <= there <= answers.len(),
        recorded_step(context, original_cwd, entry, answers.take(there), at) == ToolStep::<
            (),
        >::Done((), recorded),
        settings_update(
            "enter_worktree"@,
            original_cwd,
            entry.worktree_cwd,
            context.environments,
            RootsUpdateView::Replace(
                entered_roots(
                    original_roots,
                    original_cwd,
                    entry.worktree_cwd,
                    root_of_entry(entry),
                ),
            ),
        ) == Ok::<UpdateView, CallErrorView>(update),
        there > recorded ==> answers[recorded] == ToolAnswer::Updated(Ok(())),
        there > recorded + 1 ==> answers[recorded + 1] == ToolAnswer::CwdPersisted,
        there > recorded + 2 ==> answers[recorded + 2] == ToolAnswer::ActiveSet,
        there > recorded + 3 ==> answers[recorded + 3] == ToolAnswer::Announced,
    ensures
        enter_prepared_step(
            context,
            original_cwd,
            original_roots,
            entry,
            answers.take(there),
            at,
        ) == turn(
            seq![
                ToolAsk::UpdateSettings(update),
                ToolAsk::PersistCwd(entry.worktree_cwd),
                ToolAsk::SetActiveWorktree(
                    ActiveView {
                        original_cwd,
                        original_workspace_roots: Some(original_roots),
                        worktree_path: entry.worktree_path,
                        branch: entry.branch,
                        name: entry.name,
                        ownership: entry.ownership,
                    },
                ),
                ToolAsk::AnnounceSettings,
            ],
            recorded,
            there,
            ToolStep::<Seq<char>>::Done(told_of_entering(original_cwd, entry), recorded + 4),
        ),
{
    lemma_entering_is_told(original_cwd, entry);
    let active = ActiveView {
        original_cwd,
        original_workspace_roots: Some(original_roots),
        worktree_path: entry.worktree_path,
        branch: entry.branch,
        name: entry.name,
        ownership: entry.ownership,
    };
    assert(entered_worktree(original_cwd, original_roots, entry) == active);
    lemma_settings_are_changed_in_one_step(
        update,
        "failed to enter worktree: "@,
        ToolAsk::LockSettings,
        ToolAnswer::Locked,
        answers,
        recorded,
        there,
    );
    if there > recorded {
        lemma_settings_are_changed_in_one_step(
            update,
            Seq::empty(),
            ToolAsk::PersistCwd(entry.worktree_cwd),
            ToolAnswer::CwdPersisted,
            answers,
            recorded + 1,
            there,
        );
    }
    if there > recorded + 1 {
        lemma_settings_are_changed_in_one_step(
            update,
            Seq::empty(),
            ToolAsk::SetActiveWorktree(active),
            ToolAnswer::ActiveSet,
            answers,
            recorded + 2,
            there,
        );
    }
    if there > recorded + 2 {
        lemma_settings_are_changed_in_one_step(
            update,
            Seq::empty(),
            ToolAsk::AnnounceSettings,
            ToolAnswer::Announced,
            answers,
            recorded + 3,
            there,
        );
    }
}

/// Entering fails where the settings of the session cannot be changed, with why.
#[verifier::spinoff_prover]
pub proof fn lemma_entering_fails_with_the_settings(
    context: ContextView,
    original_cwd: Seq<char>,
    original_roots: Seq<Seq<char>>,
    entry: EntryView,
    answers: Seq<ToolAnswer>,
    at: int,
    recorded: int,
)
    requires
        0 <= at <= recorded < answers.len(),
        recorded_step(context, original_cwd, entry, answers, at) == ToolStep::<()>::Done(
            (),
            recorded,
        ),
    ensures
        settings_update(
            "enter_worktree"@,
            original_cwd,
            entry.worktree_cwd,
            context.environments,
            RootsUpdateView::Replace(
                entered_roots(
                    original_roots,
                    original_cwd,
                    entry.worktree_cwd,
                    root_of_entry(entry),
                ),
            ),
        ) matches Err(error) ==> enter_prepared_step(
            context,
            original_cwd,
            original_roots,
            entry,
            answers,
            at,
        ) == ToolStep::<Seq<char>>::Failed(error, recorded),
        answers[recorded] matches ToolAnswer::Updated(Err(problem)) ==> (enter_update(
            context,
            original_cwd,
            original_roots,
            entry,
        ) is Ok ==> enter_prepared_step(context, original_cwd, original_roots, entry, answers, at)
            == ToolStep::<Seq<char>>::Failed(
            model_error("failed to enter worktree: "@ + problem),
            recorded + 1,
        )),
{
}

/// Entering holds the lock on the settings and looks for an active worktree first. A session that
/// is in one is refused; otherwise exactly one of a name and a path has to be given.
#[verifier::spinoff_prover]
pub proof fn lemma_only_a_session_outside_enters(
    context: ContextView,
    original_cwd: Seq<char>,
    original_roots: Seq<Seq<char>>,
    arguments: Result<EnterArgsView, CallErrorView>,
    answers: Seq<ToolAnswer>,
    at: int,
)
    requires
        0 <= at < answers.len(),
        answers[at] == ToolAnswer::Locked,
    ensures
        enter_from_step(
            context,
            original_cwd,
            original_roots,
            arguments,
            answers.take(at),
            at,
        ) == ToolStep::<Seq<char>>::Ask(ToolAsk::LockSettings),
        active_step(original_cwd, context.thread_id, answers, at + 1) matches Step::Ask(ask)
            ==> enter_from_step(context, original_cwd, original_roots, arguments, answers, at)
            == ToolStep::<Seq<char>>::Ask(ask),
        active_step(original_cwd, context.thread_id, answers, at + 1) matches Step::Failed(
            error,
            used,
        ) ==> enter_from_step(context, original_cwd, original_roots, arguments, answers, at)
            == ToolStep::<Seq<char>>::Failed(error, used),
        active_step(original_cwd, context.thread_id, answers, at + 1) matches Step::Done(
            Some(state),
            used,
        ) ==> enter_from_step(context, original_cwd, original_roots, arguments, answers, at)
            == ToolStep::<Seq<char>>::Failed(
            model_error(
                "already in worktree `"@ + active_of(state).worktree_path
                    + "`; call exit_worktree before entering another worktree"@,
            ),
            used,
        ),
        active_step(original_cwd, context.thread_id, answers, at + 1) matches Step::Done(
            None,
            used,
        ) ==> {
            &&& arguments matches Err(error) ==> enter_from_step(
                context,
                original_cwd,
                original_roots,
                arguments,
                answers,
                at,
            ) == ToolStep::<Seq<char>>::Failed(bounded_error(error), used)
            &&& arguments matches Ok(args) ==> {
                &&& args.name is Some && args.path is Some ==> enter_from_step(
                    context,
                    original_cwd,
                    original_roots,
                    arguments,
                    answers,
                    at,
                ) == ToolStep::<Seq<char>>::Failed(
                    model_error("enter_worktree accepts either `name` or `path`, not both"@),
                    used,
                )
                &&& args.name is None && args.path is None ==> enter_from_step(
                    context,
                    original_cwd,
                    original_roots,
                    arguments,
                    answers,
                    at,
                ) == ToolStep::<Seq<char>>::Failed(
                    model_error("enter_worktree requires either `name` or `path`"@),
                    used,
                )
            }
        },
{
}

/// A session that is in no worktree enters the one that its name or path leads to.
#[verifier::spinoff_prover]
pub proof fn lemma_the_selected_worktree_is_entered(
    context: ContextView,
    original_cwd: Seq<char>,
    original_roots: Seq<Seq<char>>,
    args: EnterArgsView,
    answers: Seq<ToolAnswer>,
    at: int,
    found: int,
)
    requires
        0 <= at < answers.len(),
        answers[at] == ToolAnswer::Locked,
        active_step(original_cwd, context.thread_id, answers, at + 1) == ToolStep::<
            Option<ActiveStateView>,
        >::Done(None, found),
    ensures
        args.name matches Some(name) ==> args.path is None ==> {
            &&& managed_entry_step(context, original_cwd, name, answers, found) matches Step::Ask(
                ask,
            ) ==> enter_from_step(
                context,
                original_cwd,
                original_roots,
                Ok(args),
                answers,
                at,
            ) == ToolStep::<Seq<char>>::Ask(ask)
            &&& managed_entry_step(context, original_cwd, name, answers, found) matches Step::Failed(
                error,
                used,
            ) ==> enter_from_step(
                context,
                original_cwd,
                original_roots,
                Ok(args),
                answers,
                at,
            ) == ToolStep::<Seq<char>>::Failed(error, used)
            &&& managed_entry_step(context, original_cwd, name, answers, found) matches Step::Done(
                entry,
                used,
            ) ==> enter_from_step(
                context,
                original_cwd,
                original_roots,
                Ok(args),
                answers,
                at,
            ) == enter_prepared_step(context, original_cwd, original_roots, entry, answers, used)
        },
        args.path matches Some(path) ==> args.name is None ==> {
            &&& adopted_entry_step(context, original_cwd, path, answers, found) matches Step::Ask(
                ask,
            ) ==> enter_from_step(
                context,
                original_cwd,
                original_roots,
                Ok(args),
                answers,
                at,
            ) == ToolStep::<Seq<char>>::Ask(ask)
            &&& adopted_entry_step(context, original_cwd, path, answers, found) matches Step::Failed(
                error,
                used,
            ) ==> enter_from_step(
                context,
                original_cwd,
                original_roots,
                Ok(args),
                answers,
                at,
            ) == ToolStep::<Seq<char>>::Failed(error, used)
            &&& adopted_entry_step(context, original_cwd, path, answers, found) matches Step::Done(
                entry,
                used,
            ) ==> enter_from_step(
                context,
                original_cwd,
                original_roots,
                Ok(args),
                answers,
                at,
            ) == enter_prepared_step(context, original_cwd, original_roots, entry, answers, used)
        },
{
}

/// Only a function call enters or leaves. Entering starts from the directory and the roots of the
/// first environment, which has to be ready, local, and at a path of this host with such roots.
#[verifier::spinoff_prover]
pub proof fn lemma_entering_starts_from_the_primary_environment(
    context: ContextView,
    payload: PayloadView<EnterArgsView>,
    answers: Seq<ToolAnswer>,
    at: int,
    primary: EnvironmentView,
    cwd: Seq<char>,
    roots: Seq<Seq<char>>,
)
    requires
        context.environments.len() > 0,
        context.environments[0] == StateView::Ready(primary),
        primary.selection.cwd == UriView::Native(cwd),
        native_roots(primary.selection.workspace_roots) == Ok::<
            Seq<Seq<char>>,
            CallErrorView,
        >(roots),
    ensures
        payload is Unsupported ==> enter_step(context, payload, answers, at) == ToolStep::<
            Seq<char>,
        >::Failed(
            model_error("enter_worktree"@ + " handler received unsupported payload"@),
            at,
        ),
        payload matches PayloadView::Function(arguments) ==> {
            &&& primary.is_remote ==> enter_step(context, payload, answers, at) == ToolStep::<
                Seq<char>,
            >::Failed(
                model_error("enter_worktree"@ + " requires a local primary environment"@),
                at,
            )
            &&& !primary.is_remote ==> enter_step(context, payload, answers, at)
                == enter_from_step(context, cwd, roots, arguments, answers, at)
        },
{
}

/// What is told of a worktree that was left: where the session is again, the worktree, its branch
/// and name, and whether it was kept or removed.
pub open spec fn told_of_leaving(active: ActiveView, keep: bool) -> Seq<char> {
    object_text(
        seq![
            ("cwd"@, JsonView::Text(active.original_cwd)),
            ("worktree_path"@, JsonView::Text(active.worktree_path)),
            ("original_cwd"@, JsonView::Text(active.original_cwd)),
            ("branch"@, optional_text_value(active.branch)),
            ("name"@, optional_text_value(active.name)),
            ("created"@, JsonView::Null),
            ("keep"@, JsonView::Bool(keep)),
            ("removed"@, JsonView::Bool(!keep)),
        ],
    )
}

/// The questions of leaving a worktree: it is removed where it is not kept, the settings are changed
/// back, the directory is kept, the worktree forgotten and the settings announced.
pub open spec fn questions_of_leaving(active: ActiveView, keep: bool, update: UpdateView) -> Seq<
    ToolAsk,
> {
    let after = seq![
        ToolAsk::UpdateSettings(update),
        ToolAsk::PersistCwd(active.original_cwd),
        ToolAsk::ClearActiveWorktree,
        ToolAsk::AnnounceSettings,
    ];
    if keep {
        after
    } else {
        seq![
            ToolAsk::RemoveManaged {
                repository_path: active.original_cwd,
                worktree_path: active.worktree_path,
            },
        ] + after
    }
}

proof fn lemma_leaving_is_told(active: ActiveView, keep: bool)
    ensures
        exit_content(active, keep) == told_of_leaving(active, keep),
{
    let entered = EnterOutputView {
        cwd: active.original_cwd,
        worktree_path: active.worktree_path,
        original_cwd: active.original_cwd,
        branch: active.branch,
        name: active.name,
        created: None,
    };
    assert(exit_members(
        ExitOutputView { entered, keep, removed: !keep },
    ) =~= seq![
        ("cwd"@, JsonView::Text(active.original_cwd)),
        ("worktree_path"@, JsonView::Text(active.worktree_path)),
        ("original_cwd"@, JsonView::Text(active.original_cwd)),
        ("branch"@, optional_text_value(active.branch)),
        ("name"@, optional_text_value(active.name)),
        ("created"@, JsonView::Null),
        ("keep"@, JsonView::Bool(keep)),
        ("removed"@, JsonView::Bool(!keep)),
    ]);
}

/// A session that leaves goes back to where it was, with the roots that it had where they are
/// known. The worktree is removed first, where it is not kept, and what was done is told.
#[verifier::spinoff_prover]
pub proof fn lemma_a_session_is_moved_back(
    context: ContextView,
    active: ActiveView,
    current_cwd: Seq<char>,
    keep: bool,
    answers: Seq<ToolAnswer>,
    at: int,
    there: int,
    update: UpdateView,
    moved: int,
)
    requires
        0 <= at,
        moved == (if keep {
            at
        } else {
            at + 1
        }),
        moved + 4 <= answers.len(),
        at <= there <= answers.len(),
        settings_update(
            "exit_worktree"@,
            current_cwd,
            active.original_cwd,
            context.environments,
            match active.original_workspace_roots {
                Some(roots) => RootsUpdateView::Replace(roots),
                None => RootsUpdateView::Preserve,
            },
        ) == Ok::<UpdateView, CallErrorView>(update),
        text_bytes(told_of_leaving(active, keep)) <= 512,
        !keep && there > at ==> answers[at] == ToolAnswer::Removed(BlockingView::Finished(Ok(()))),
        there > moved ==> answers[moved] == ToolAnswer::Updated(Ok(())),
        there > moved + 1 ==> answers[moved + 1] == ToolAnswer::CwdPersisted,
        there > moved + 2 ==> answers[moved + 2] == ToolAnswer::ActiveCleared,
        there > moved + 3 ==> answers[moved + 3] == ToolAnswer::Announced,
    ensures
        leave_step(context, active, current_cwd, keep, answers.take(there), at) == turn(
            questions_of_leaving(active, keep, update),
            at,
            there,
            ToolStep::<Seq<char>>::Done(told_of_leaving(active, keep), moved + 4),
        ),
{
    lemma_leaving_is_told(active, keep);
    lemma_worktrees_are_made_and_removed(
        active.original_cwd,
        Seq::empty(),
        ToolAsk::RemoveManaged {
            repository_path: active.original_cwd,
            worktree_path: active.worktree_path,
        },
        answers,
        at,
        there,
    );
    if there >= moved {
        lemma_settings_are_changed_in_one_step(
            update,
            "failed to exit worktree: "@,
            ToolAsk::LockSettings,
            ToolAnswer::Locked,
            answers,
            moved,
            there,
        );
    }
    if there > moved {
        lemma_settings_are_changed_in_one_step(
            update,
            Seq::empty(),
            ToolAsk::PersistCwd(active.original_cwd),
            ToolAnswer::CwdPersisted,
            answers,
            moved + 1,
            there,
        );
    }
    if there > moved + 1 {
        lemma_settings_are_changed_in_one_step(
            update,
            Seq::empty(),
            ToolAsk::ClearActiveWorktree,
            ToolAnswer::ActiveCleared,
            answers,
            moved + 2,
            there,
        );
    }
    if there > moved + 2 {
        lemma_settings_are_changed_in_one_step(
            update,
            Seq::empty(),
            ToolAsk::AnnounceSettings,
            ToolAnswer::Announced,
            answers,
            moved + 3,
            there,
        );
    }
}

/// Leaving fails before anything is done where the settings cannot be changed back or the answer
/// would be too long; and then where the worktree cannot be removed or the change is refused.
#[verifier::spinoff_prover]
pub proof fn lemma_leaving_fails_before_it_forgets(
    context: ContextView,
    active: ActiveView,
    current_cwd: Seq<char>,
    keep: bool,
    answers: Seq<ToolAnswer>,
    at: int,
    moved: int,
)
    requires
        0 <= at,
        moved == (if keep {
            at
        } else {
            at + 1
        }),
        moved < answers.len(),
    ensures
        exit_update(context, active, current_cwd) matches Err(error) ==> leave_step(
            context,
            active,
            current_cwd,
            keep,
            answers,
            at,
        ) == ToolStep::<Seq<char>>::Failed(error, at),
        exit_update(context, active, current_cwd) is Ok && text_bytes(
            told_of_leaving(active, keep),
        ) > 512 ==> leave_step(context, active, current_cwd, keep, answers, at) == ToolStep::<
            Seq<char>,
        >::Failed(output_too_large(), at),
        exit_update(context, active, current_cwd) is Ok && text_bytes(
            told_of_leaving(active, keep),
        ) <= 512 ==> {
            &&& !keep ==> (answers[at] matches ToolAnswer::Removed(outcome) ==> (git_problem(
                outcome,
            ) matches Some(error) ==> leave_step(context, active, current_cwd, keep, answers, at)
                == ToolStep::<Seq<char>>::Failed(error, at + 1)))
            &&& keep || answers[at] == ToolAnswer::Removed(BlockingView::Finished(Ok(()))) ==> (
            answers[moved] matches ToolAnswer::Updated(Err(problem)) ==> leave_step(
                context,
                active,
                current_cwd,
                keep,
                answers,
                at,
            ) == ToolStep::<Seq<char>>::Failed(
                model_error("failed to exit worktree: "@ + problem),
                moved + 1,
            ))
        },
{
    lemma_leaving_is_told(active, keep);
}

/// A session that is no longer in its worktree does not leave it. What it remembered is forgotten
/// first; what was found from its directory is not.
#[verifier::spinoff_prover]
pub proof fn lemma_stale_worktrees_are_forgotten(
    state: ActiveStateView,
    current_cwd: Seq<char>,
    answers: Seq<ToolAnswer>,
    at: int,
    there: int,
    error: CallErrorView,
    checked: int,
)
    requires
        0 <= checked < answers.len(),
        checked <= there <= answers.len(),
        still_inside_step(active_of(state), current_cwd, answers.take(there), at)
            == ToolStep::<()>::Failed(error, checked),
        there > checked ==> answers[checked] == ToolAnswer::ActiveCleared,
    ensures
        state is Session ==> checked_step(state, current_cwd, answers.take(there), at) == turn(
            seq![ToolAsk::ClearActiveWorktree],
            checked,
            there,
            ToolStep::<()>::Failed(error, checked + 1),
        ),
        state is Derived ==> checked_step(state, current_cwd, answers.take(there), at)
            == ToolStep::<()>::Failed(error, checked),
{
}

/// An adopted worktree is never removed. Otherwise the session is checked to be in its worktree,
/// the lock on the settings is taken, and it leaves.
#[verifier::spinoff_prover]
pub proof fn lemma_leaving_is_checked_and_locked(
    context: ContextView,
    state: ActiveStateView,
    current_cwd: Seq<char>,
    keep: bool,
    answers: Seq<ToolAnswer>,
    at: int,
    there: int,
    checked: int,
)
    requires
        0 <= checked < answers.len(),
        checked <= there <= answers.len(),
        still_inside_step(active_of(state), current_cwd, answers.take(there), at)
            == ToolStep::<()>::Done((), checked),
        there > checked ==> answers[checked] == ToolAnswer::Locked,
    ensures
        !keep && active_of(state).ownership is Adopted ==> exit_found_step(
            context,
            state,
            current_cwd,
            keep,
            answers.take(there),
            at,
        ) == ToolStep::<Seq<char>>::Failed(
            model_error(
                "cannot remove an adopted workdir `"@ + active_of(state).worktree_path
                    + "`; call exit_worktree with `keep: true`"@,
            ),
            at,
        ),
        keep || active_of(state).ownership is ManagedByCodex ==> exit_found_step(
            context,
            state,
            current_cwd,
            keep,
            answers.take(there),
            at,
        ) == turn(
            seq![ToolAsk::LockSettings],
            checked,
            there,
            leave_step(
                context,
                active_of(state),
                current_cwd,
                keep,
                answers.take(there),
                checked + 1,
            ),
        ),
{
}

/// Leaving starts from the directory of the first environment, which has to be ready, local and at
/// a path of this host, and from the worktree that the session is in; without one there is nothing
/// to leave.
#[verifier::spinoff_prover]
pub proof fn lemma_leaving_starts_from_the_active_worktree(
    context: ContextView,
    payload: PayloadView<ExitArgsView>,
    answers: Seq<ToolAnswer>,
    at: int,
    primary: EnvironmentView,
    cwd: Seq<char>,
)
    requires
        context.environments.len() > 0,
        context.environments[0] == StateView::Ready(primary),
        !primary.is_remote,
        primary.selection.cwd == UriView::Native(cwd),
    ensures
        payload is Unsupported ==> exit_step(context, payload, answers, at) == ToolStep::<
            Seq<char>,
        >::Failed(model_error("exit_worktree"@ + " handler received unsupported payload"@), at),
        payload matches PayloadView::Function(Err(error)) ==> exit_step(
            context,
            payload,
            answers,
            at,
        ) == ToolStep::<Seq<char>>::Failed(bounded_error(error), at),
        payload matches PayloadView::Function(Ok(args)) ==> {
            &&& active_step(cwd, context.thread_id, answers, at) matches Step::Ask(ask)
                ==> exit_step(context, payload, answers, at) == ToolStep::<Seq<char>>::Ask(ask)
            &&& active_step(cwd, context.thread_id, answers, at) matches Step::Failed(error, used)
                ==> exit_step(context, payload, answers, at) == ToolStep::<Seq<char>>::Failed(
                error,
                used,
            )
            &&& active_step(cwd, context.thread_id, answers, at) matches Step::Done(None, used)
                ==> exit_step(context, payload, answers, at) == ToolStep::<Seq<char>>::Failed(
                model_error("no active worktree to exit"@),
                used,
            )
            &&& active_step(cwd, context.thread_id, answers, at) matches Step::Done(
                Some(state),
                used,
            ) ==> exit_step(context, payload, answers, at) == exit_found_step(
                context,
                state,
                cwd,
                args.keep,
                answers,
                used,
            )
        },
{
    reveal_with_fuel(crate::environment::primary_of, 2);
}

/// Entering by name waits and fails as each of its checks does, and nothing is created before they
/// are done; a text that is no name fails as soon as the checkout is inspected.
#[verifier::spinoff_prover]
pub proof fn lemma_entering_by_name_goes_as_its_checks(
    context: ContextView,
    original_cwd: Seq<char>,
    name: Seq<char>,
    answers: Seq<ToolAnswer>,
    at: int,
)
    ensures
        goes_as(
            managed_entry_step(context, original_cwd, name, answers, at),
            inspected_step(original_cwd, answers, at),
        ),
        inspected_step(original_cwd, answers, at) matches Step::Done(info, used) ==> {
            &&& name_problem(name) matches Some(reason) ==> managed_entry_step(
                context,
                original_cwd,
                name,
                answers,
                at,
            ) == ToolStep::<EntryView>::Failed(
                git_error_view(
                    GitErrorView::InvalidWorktreeName { name, reason },
                ),
                used,
            )
            &&& goes_as(
                managed_entry_step(context, original_cwd, name, answers, at),
                preflight_step(info, original_cwd, name, answers, used),
            )
            &&& preflight_step(info, original_cwd, name, answers, used) matches Step::Done(_, used)
                ==> goes_as(
                managed_entry_step(context, original_cwd, name, answers, at),
                writable_step(
                    "enter_worktree"@,
                    context.full_disk_write,
                    original_cwd,
                    seq![original_cwd],
                    answers,
                    used,
                ),
            )
        },
{
}

/// The check before creating fails where the place in the worktree cannot be found, and where the
/// result would be too long.
#[verifier::spinoff_prover]
pub proof fn lemma_the_check_before_creating_goes_as_the_place(
    info: InfoView,
    original_cwd: Seq<char>,
    name: Seq<char>,
    answers: Seq<ToolAnswer>,
    at: int,
)
    requires
        name_problem(name) is None,
        is_absolute_path(managed_path(info.common_dir, name)),
    ensures
        goes_as(
            preflight_step(info, original_cwd, name, answers, at),
            anticipated_step(
                info.repo_root,
                original_cwd,
                tidied(managed_path(info.common_dir, name)),
                answers,
                at,
            ),
        ),
        anticipated_step(
            info.repo_root,
            original_cwd,
            tidied(managed_path(info.common_dir, name)),
            answers,
            at,
        ) matches Step::Done(place, used) ==> (text_bytes(
            object_text(
                enter_members(
                    anticipated_output(
                        place,
                        tidied(managed_path(info.common_dir, name)),
                        original_cwd,
                        name,
                    ),
                ),
            ),
        ) > 512 ==> preflight_step(info, original_cwd, name, answers, at) == ToolStep::<()>::Failed(
            output_too_large(),
            used,
        )),
{
}

/// Entering a worktree that was created or reused fails where that failed, where the place in it
/// cannot be found, and where the data beside a reused one cannot be read.
#[verifier::spinoff_prover]
pub proof fn lemma_entering_a_made_worktree_goes_as_its_answers(
    context: ContextView,
    original_cwd: Seq<char>,
    info: InfoView,
    name: Seq<char>,
    answers: Seq<ToolAnswer>,
    at: int,
)
    ensures
        goes_as(
            created_entry_step(context, original_cwd, info, name, answers, at),
            managed_step(original_cwd, name, answers, at),
        ),
        managed_step(original_cwd, name, answers, at) matches Step::Done(managed, used) ==> (
        is_absolute_path(managed.path) ==> {
            &&& goes_as(
                created_entry_step(context, original_cwd, info, name, answers, at),
                matching_step(
                    info.repo_root,
                    original_cwd,
                    tidied(managed.path),
                    answers,
                    used,
                ),
            )
            &&& matching_step(
                info.repo_root,
                original_cwd,
                tidied(managed.path),
                answers,
                used,
            ) matches Step::Done(_, used) ==> (!managed.created ==> goes_as(
                created_entry_step(context, original_cwd, info, name, answers, at),
                read_step(info.common_dir, managed.name, answers, used),
            ))
        }),
{
}

/// Entering an existing directory waits and fails as git, the data beside the worktree and the
/// permission to write do: what cannot be found out does not count as somebody else's worktree.
#[verifier::spinoff_prover]
pub proof fn lemma_entering_a_path_goes_as_its_checks(
    context: ContextView,
    original_cwd: Seq<char>,
    candidate: Seq<char>,
    answers: Seq<ToolAnswer>,
    at: int,
)
    ensures
        goes_as(
            existing_entry_step(context, original_cwd, candidate, answers, at),
            inspected_optional_step(candidate, answers, at),
        ),
        inspected_optional_step(candidate, answers, at) matches Step::Done(info, used) ==> {
            &&& goes_as(
                existing_entry_step(context, original_cwd, candidate, answers, at),
                same_session_step(context, original_cwd, info, answers, used),
            )
            &&& same_session_step(context, original_cwd, info, answers, used) matches Step::Done(
                is_own,
                used,
            ) ==> goes_as(
                existing_entry_step(context, original_cwd, candidate, answers, at),
                writable_step(
                    "enter_worktree"@,
                    context.full_disk_write,
                    original_cwd,
                    if is_own {
                        seq![original_cwd]
                    } else {
                        seq![original_cwd, candidate]
                    },
                    answers,
                    used,
                ),
            )
            &&& info matches Some(info) ==> (managed_name_step(
                info.common_dir,
                info.repo_root,
                answers,
                used,
            ) matches Step::Done(Some(name), used_for_name) ==> {
                &&& goes_as(
                    existing_entry_step(context, original_cwd, candidate, answers, at),
                    inspected_optional_step(original_cwd, answers, used_for_name),
                )
                &&& inspected_optional_step(
                    original_cwd,
                    answers,
                    used_for_name,
                ) matches Step::Done(Some(original), used_for_origin) ==> (path_parts(
                    original.common_dir,
                ) == path_parts(info.common_dir) ==> goes_as(
                    existing_entry_step(context, original_cwd, candidate, answers, at),
                    read_step(info.common_dir, name, answers, used_for_origin),
                ))
            })
        },
{
}

/// A path that does not resolve is not entered.
pub proof fn lemma_a_path_has_to_resolve(
    context: ContextView,
    original_cwd: Seq<char>,
    path: Seq<char>,
    answers: Seq<ToolAnswer>,
    at: int,
)
    requires
        path.len() > 0,
    ensures
        goes_as(
            adopted_entry_step(context, original_cwd, path, answers, at),
            canonical_step(joined_path(original_cwd, path), answers, at),
        ),
{
}

/// What is remembered or found is only left after it was checked: while that is under way it is
/// waited for, and where it fails nothing is left.
#[verifier::spinoff_prover]
pub proof fn lemma_leaving_goes_as_its_check(
    context: ContextView,
    state: ActiveStateView,
    current_cwd: Seq<char>,
    keep: bool,
    answers: Seq<ToolAnswer>,
    at: int,
)
    requires
        keep || active_of(state).ownership is ManagedByCodex,
    ensures
        goes_as(
            exit_found_step(context, state, current_cwd, keep, answers, at),
            checked_step(state, current_cwd, answers, at),
        ),
        still_inside_step(
            active_of(state),
            current_cwd,
            answers,
            at,
        ) matches Step::Ask(ask) ==> checked_step(state, current_cwd, answers, at) == ToolStep::<
            (),
        >::Ask(ask),
{
}

} // verus!
