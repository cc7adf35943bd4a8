//! What the worktree tools ask in turn, and what the answers come to.

use vstd::prelude::*;
use vstd::string::*;

use crate::bounds::{call_error_message, model_error, CallErrorView};
use crate::checks::{
    absolute_or_fatal, anticipated_step, canonical_step, inspected_optional_step, inspected_step,
    managed_step, matching_step, noted_step, read_step, removed_step, resolved_step,
    still_inside_step, update_step, writable_step, write_step,
};
use crate::discovery::{
    active_step, derived_step, lemma_a_direct_child_is_named, managed_name_step, name_below,
    original_root,
};
use crate::environment::UpdateView;
use crate::errors::{git_error_message, GitErrorView};
use crate::git_dialogues::{goes_as, turn};
use crate::json::{object_text, optional_text_value, JsonView};
use crate::managed::ManagedView;
use crate::metadata::{metadata_path, MetadataView};
use crate::paths::{
    is_absolute_path, is_inner_part, is_same_path, joined_path, lemma_path_parts_list,
    lemma_paths_below_are_joined, lemma_tidied_is_same, path_below, path_parts, path_starts_with,
    rendered_path, tidied, Part,
};
use crate::progress::Step;
use crate::session::{
    ActiveStateView, ActiveView, BlockingView, MetadataReadView, OwnershipView, ToolAnswer, ToolAsk,
    ToolStep,
};
use crate::worktree::{managed_dir, InfoView};

verus! {

/// A checkout was inspected.
pub open spec fn inspected(answer: ToolAnswer, info: InfoView) -> bool {
    answer == ToolAnswer::Inspected(BlockingView::Finished(Ok(info)))
}

/// A path was resolved.
pub open spec fn resolved(answer: ToolAnswer, path: Seq<char>) -> bool {
    answer == ToolAnswer::Canonical(Ok(path))
}

/// There is no file with data beside a worktree.
pub open spec fn no_data(answer: ToolAnswer) -> bool {
    answer == ToolAnswer::MetadataRead(BlockingView::Finished(MetadataReadView::Missing))
}

/// The data beside a worktree was read.
pub open spec fn read(answer: ToolAnswer, data: MetadataView) -> bool {
    answer == ToolAnswer::MetadataRead(BlockingView::Finished(MetadataReadView::Present(data)))
}

/// What a failed git procedure is told as: it did not come back, or it failed with an error.
pub open spec fn git_problem<V>(outcome: BlockingView<Result<V, GitErrorView>>) -> Option<
    CallErrorView,
> {
    match outcome {
        BlockingView::JoinFailed(problem) => Some(
            model_error("worktree operation failed to join blocking task: "@ + problem),
        ),
        BlockingView::Finished(Err(error)) => Some(
            model_error("worktree operation failed: "@ + git_error_message(error)),
        ),
        BlockingView::Finished(Ok(_)) => None,
    }
}

/// A checkout is inspected in one step. It comes to what git reports, and else fails as git does;
/// where a checkout is optional, that there is no repository is no failure.
pub proof fn lemma_a_checkout_is_inspected(
    path: Seq<char>,
    answers: Seq<ToolAnswer>,
    at: int,
    there: int,
)
    requires
        0 <= at < answers.len(),
        at <= there <= answers.len(),
    ensures
        there == at ==> inspected_step(path, answers.take(there), at) == ToolStep::<InfoView>::Ask(
            ToolAsk::Inspect(path),
        ),
        there == at ==> inspected_optional_step(path, answers.take(there), at) == ToolStep::<
            Option<InfoView>,
        >::Ask(ToolAsk::Inspect(path)),
        answers[at] matches ToolAnswer::Inspected(outcome) ==> there > at ==> {
            &&& outcome matches BlockingView::Finished(Ok(info)) ==> inspected_step(
                path,
                answers.take(there),
                at,
            ) == ToolStep::<InfoView>::Done(info, at + 1) && inspected_optional_step(
                path,
                answers.take(there),
                at,
            ) == ToolStep::<Option<InfoView>>::Done(Some(info), at + 1)
            &&& git_problem(outcome) matches Some(error) ==> inspected_step(
                path,
                answers.take(there),
                at,
            ) == ToolStep::<InfoView>::Failed(error, at + 1) && inspected_optional_step(
                path,
                answers.take(there),
                at,
            ) == (if outcome matches BlockingView::Finished(Err(error)) && error
                is NotAGitRepository {
                ToolStep::<Option<InfoView>>::Done(None, at + 1)
            } else {
                ToolStep::Failed(error, at + 1)
            })
        },
{
}

/// A managed worktree is created or reused, and a worktree removed, in one step each, and they
/// fail as git does.
pub proof fn lemma_worktrees_are_made_and_removed(
    repository_path: Seq<char>,
    name: Seq<char>,
    removal: ToolAsk,
    answers: Seq<ToolAnswer>,
    at: int,
    there: int,
)
    requires
        0 <= at < answers.len(),
        at <= there <= answers.len(),
    ensures
        there == at ==> managed_step(repository_path, name, answers.take(there), at) == ToolStep::<
            ManagedView,
        >::Ask(ToolAsk::CreateManaged { repository_path, name }),
        answers[at] matches ToolAnswer::Managed(outcome) ==> there > at ==> {
            &&& outcome matches BlockingView::Finished(Ok(managed)) ==> managed_step(
                repository_path,
                name,
                answers.take(there),
                at,
            ) == ToolStep::<ManagedView>::Done(managed, at + 1)
            &&& git_problem(outcome) matches Some(error) ==> managed_step(
                repository_path,
                name,
                answers.take(there),
                at,
            ) == ToolStep::<ManagedView>::Failed(error, at + 1)
        },
        there == at ==> removed_step(removal, answers.take(there), at) == ToolStep::<()>::Ask(
            removal,
        ),
        answers[at] matches ToolAnswer::Removed(outcome) ==> there > at ==> removed_step(
            removal,
            answers.take(there),
            at,
        ) == (match git_problem(outcome) {
            None => ToolStep::<()>::Done((), at + 1),
            Some(error) => ToolStep::Failed(error, at + 1),
        }),
{
}

/// A path is resolved in one step; where it cannot be, that is told with the path, or no path comes
/// out where one is optional.
pub proof fn lemma_a_path_is_resolved_for_a_tool(
    path: Seq<char>,
    answers: Seq<ToolAnswer>,
    at: int,
    there: int,
)
    requires
        0 <= at < answers.len(),
        at <= there <= answers.len(),
    ensures
        there == at ==> canonical_step(path, answers.take(there), at) == ToolStep::<Seq<char>>::Ask(
            ToolAsk::Canonicalize(path),
        ),
        there == at ==> resolved_step(path, answers.take(there), at) == ToolStep::<
            Option<Seq<char>>,
        >::Ask(ToolAsk::Canonicalize(path)),
        answers[at] matches ToolAnswer::Canonical(Ok(canonical)) ==> there > at
            ==> canonical_step(path, answers.take(there), at) == ToolStep::<Seq<char>>::Done(
            canonical,
            at + 1,
        ) && resolved_step(path, answers.take(there), at) == ToolStep::<Option<Seq<char>>>::Done(
            Some(canonical),
            at + 1,
        ),
        answers[at] matches ToolAnswer::Canonical(Err(problem)) ==> there > at
            ==> canonical_step(path, answers.take(there), at) == ToolStep::<Seq<char>>::Failed(
            model_error("failed to canonicalize worktree path `"@ + path + "`: "@ + problem),
            at + 1,
        ) && resolved_step(path, answers.take(there), at) == ToolStep::<Option<Seq<char>>>::Done(
            None,
            at + 1,
        ),
{
}

/// A path that has to be absolute is so exactly where it begins at the root. It is then the same
/// path, without doubled or trailing separators; and otherwise the turn ends with what the path
/// was for and the path.
pub proof fn lemma_paths_have_to_be_absolute(path: Seq<char>, field: Seq<char>)
    ensures
        absolute_or_fatal(path, field) is Ok <==> path.len() > 0 && path[0] == '/',
        absolute_or_fatal(path, field) matches Ok(kept) ==> is_same_path(kept, path) && kept
            == tidied(path) && is_absolute_path(kept),
        absolute_or_fatal(path, field) matches Err(error) ==> error == CallErrorView::Fatal(
            field + " is not absolute: "@ + "path is not absolute: "@ + path,
        ),
{
    lemma_tidied_is_same(path);
    if is_absolute_path(path) {
        let kept = tidied(path);
        assert(path_parts(path)[0] is Root);
        lemma_path_parts_list(kept);
        if !is_absolute_path(kept) {
            crate::paths::lemma_relative_paths_have_no_root(kept);
        }
    }
}

/// The data beside a worktree is read from one file. It comes to nothing where the file is missing,
/// and to what it holds where it names an absolute directory; anything else fails.
pub proof fn lemma_the_data_beside_is_read(
    common_dir: Seq<char>,
    name: Seq<char>,
    answers: Seq<ToolAnswer>,
    at: int,
    there: int,
)
    requires
        0 <= at < answers.len(),
        at <= there <= answers.len(),
    ensures
        there == at ==> read_step(common_dir, name, answers.take(there), at) == ToolStep::<
            Option<MetadataView>,
        >::Ask(ToolAsk::ReadMetadata(metadata_path(common_dir, name))),
        there > at && no_data(answers[at]) ==> read_step(common_dir, name, answers.take(there), at)
            == ToolStep::<Option<MetadataView>>::Done(None, at + 1),
        answers[at] matches ToolAnswer::MetadataRead(outcome) ==> there > at ==> {
            &&& outcome matches BlockingView::Finished(MetadataReadView::Present(data))
                ==> read_step(common_dir, name, answers.take(there), at) == (if data.original_cwd.len()
                > 0 && data.original_cwd[0] == '/' {
                ToolStep::<Option<MetadataView>>::Done(Some(data), at + 1)
            } else {
                ToolStep::Failed(
                    model_error(
                        "managed worktree metadata contains invalid original cwd: "@
                            + "path is not absolute: "@ + data.original_cwd,
                    ),
                    at + 1,
                )
            })
            &&& outcome matches BlockingView::JoinFailed(problem) ==> read_step(
                common_dir,
                name,
                answers.take(there),
                at,
            ) == ToolStep::<Option<MetadataView>>::Failed(
                model_error("worktree metadata read failed to join blocking task: "@ + problem),
                at + 1,
            )
            &&& outcome matches BlockingView::Finished(MetadataReadView::Unreadable(problem))
                ==> read_step(common_dir, name, answers.take(there), at) == ToolStep::<
                Option<MetadataView>,
            >::Failed(
                model_error("failed to read managed worktree metadata: "@ + problem),
                at + 1,
            )
            &&& outcome matches BlockingView::Finished(MetadataReadView::Malformed(problem))
                ==> read_step(common_dir, name, answers.take(there), at) == ToolStep::<
                Option<MetadataView>,
            >::Failed(
                model_error(
                    "failed to parse managed worktree metadata `"@ + metadata_path(common_dir, name)
                        + "`: "@ + problem,
                ),
                at + 1,
            )
        },
{
}

/// The data beside a worktree is written to the file from which it is read, as an object with the
/// directory and the owner; and it fails as the writing does.
pub proof fn lemma_the_data_beside_is_written(
    common_dir: Seq<char>,
    name: Seq<char>,
    data: MetadataView,
    answers: Seq<ToolAnswer>,
    at: int,
    there: int,
)
    requires
        0 <= at < answers.len(),
        at <= there <= answers.len(),
    ensures
        there == at ==> write_step(common_dir, name, data, answers.take(there), at) == ToolStep::<
            (),
        >::Ask(
            ToolAsk::WriteMetadata {
                path: metadata_path(common_dir, name),
                content: object_text(
                    seq![
                        ("original_cwd"@, JsonView::Text(data.original_cwd)),
                        ("owner_thread_id"@, optional_text_value(data.owner_thread_id)),
                    ],
                ),
            },
        ),
        answers[at] matches ToolAnswer::MetadataWritten(outcome) ==> there > at ==> write_step(
            common_dir,
            name,
            data,
            answers.take(there),
            at,
        ) == (match outcome {
            BlockingView::Finished(Ok(_)) => ToolStep::<()>::Done((), at + 1),
            BlockingView::Finished(Err(problem)) => ToolStep::Failed(
                model_error("failed to write managed worktree metadata: "@ + problem),
                at + 1,
            ),
            BlockingView::JoinFailed(problem) => ToolStep::Failed(
                model_error("worktree metadata write failed to join blocking task: "@ + problem),
                at + 1,
            ),
        }),
{
}

/// A path that holds the parts of one path and behind them those of another.
pub open spec fn is_path_to(path: Seq<char>, base: Seq<char>, rest: Seq<Part>) -> bool {
    path_parts(path) == path_parts(base) + rest
}

/// The directory in a worktree that is where the session was in its checkout: the root of the
/// checkout and the directory of the session are resolved, and what leads from the one to the
/// other leads from the worktree to that directory.
#[verifier::spinoff_prover]
pub proof fn lemma_the_place_in_the_worktree_is_the_same(
    original_repo_root: Seq<char>,
    original_cwd: Seq<char>,
    worktree_path: Seq<char>,
    answers: Seq<ToolAnswer>,
    at: int,
    there: int,
    root: Seq<char>,
    cwd: Seq<char>,
    rest: Seq<Part>,
)
    requires
        0 <= at,
        at + 2 <= answers.len(),
        at <= there <= answers.len(),
        there > at ==> resolved(answers[at], root),
        there > at + 1 ==> resolved(answers[at + 1], cwd),
        is_absolute_path(root),
        is_absolute_path(worktree_path),
        is_path_to(cwd, root, rest),
    ensures
        there < at + 2 ==> anticipated_step(
            original_repo_root,
            original_cwd,
            worktree_path,
            answers.take(there),
            at,
        ) == ToolStep::<Seq<char>>::Ask(
            seq![
                ToolAsk::Canonicalize(original_repo_root),
                ToolAsk::Canonicalize(original_cwd),
            ][there - at],
        ),
        there >= at + 2 ==> (anticipated_step(
            original_repo_root,
            original_cwd,
            worktree_path,
            answers.take(there),
            at,
        ) matches Step::Done(place, used) && is_path_to(place, worktree_path, rest) && place
            == tidied(place) && used == at + 2),
{
    lemma_a_path_is_resolved_for_a_tool(original_repo_root, answers, at, there);
    if there > at {
        lemma_a_path_is_resolved_for_a_tool(original_cwd, answers, at + 1, there);
    }
    assert(path_parts(cwd).take(path_parts(root).len() as int) =~= path_parts(root));
    assert(path_parts(cwd).skip(path_parts(root).len() as int) =~= rest);
    lemma_path_parts_list(cwd);
    assert(path_parts(root)[0] is Root);
    assert forall|i: int| 0 <= i < rest.len() implies is_inner_part(#[trigger] rest[i]) by {
        assert(rest[i] == path_parts(cwd)[path_parts(root).len() + i]);
    }
    lemma_paths_below_are_joined(worktree_path, rest);
    lemma_paths_have_to_be_absolute(
        joined_path(worktree_path, rendered_path(rest)),
        "worktree cwd"@,
    );
    let joined = joined_path(worktree_path, rendered_path(rest));
    lemma_tidied_is_same(joined);
}

/// A directory of the session that is not in the checkout has no place in a worktree of it: that
/// fails with both directories.
pub proof fn lemma_a_place_outside_the_checkout_is_refused(
    original_repo_root: Seq<char>,
    original_cwd: Seq<char>,
    worktree_path: Seq<char>,
    answers: Seq<ToolAnswer>,
    at: int,
    root: Seq<char>,
    cwd: Seq<char>,
)
    requires
        0 <= at,
        at + 2 <= answers.len(),
        resolved(answers[at], root),
        resolved(answers[at + 1], cwd),
        !exists|rest: Seq<Part>| #[trigger] is_path_to(cwd, root, rest),
    ensures
        anticipated_step(original_repo_root, original_cwd, worktree_path, answers, at)
            == ToolStep::<Seq<char>>::Failed(
            model_error(
                "failed to resolve original cwd `"@ + cwd + "` relative to repository root `"@
                    + root + "`: "@ + "prefix not found"@,
            ),
            at + 2,
        ),
{
    if path_starts_with(cwd, root) {
        let rest = path_parts(cwd).skip(path_parts(root).len() as int);
        assert(path_parts(cwd) =~= path_parts(root) + rest);
        assert(is_path_to(cwd, root, rest));
    }
}

/// The directory that is entered is the same place in the worktree, where it is there and, with
/// symbolic links resolved, in the worktree; and otherwise the worktree itself.
#[verifier::spinoff_prover]
pub proof fn lemma_the_same_place_is_entered_where_it_exists(
    original_repo_root: Seq<char>,
    original_cwd: Seq<char>,
    worktree_path: Seq<char>,
    answers: Seq<ToolAnswer>,
    at: int,
    there: int,
    root: Seq<char>,
    cwd: Seq<char>,
    rest: Seq<Part>,
    place: Seq<char>,
)
    requires
        0 <= at,
        at + 4 <= answers.len(),
        at + 2 <= there <= answers.len(),
        resolved(answers[at], root),
        resolved(answers[at + 1], cwd),
        is_absolute_path(root),
        is_absolute_path(worktree_path),
        is_path_to(cwd, root, rest),
        anticipated_step(original_repo_root, original_cwd, worktree_path, answers.take(there), at)
            == ToolStep::<Seq<char>>::Done(place, at + 2),
    ensures
        there == at + 2 ==> matching_step(
            original_repo_root,
            original_cwd,
            worktree_path,
            answers.take(there),
            at,
        ) == ToolStep::<Seq<char>>::Ask(ToolAsk::Canonicalize(place)),
        there > at + 2 && (answers[at + 2] matches ToolAnswer::Canonical(Err(_))) ==> matching_step(
            original_repo_root,
            original_cwd,
            worktree_path,
            answers.take(there),
            at,
        ) == ToolStep::<Seq<char>>::Done(tidied(worktree_path), at + 3),
        there == at + 3 && (answers[at + 2] matches ToolAnswer::Canonical(Ok(_))) ==> matching_step(
            original_repo_root,
            original_cwd,
            worktree_path,
            answers.take(there),
            at,
        ) == ToolStep::<Seq<char>>::Ask(ToolAsk::Canonicalize(worktree_path)),
        there > at + 3 ==> (answers[at + 2] matches ToolAnswer::Canonical(Ok(canonical_place)) ==> (
        answers[at + 3] matches ToolAnswer::Canonical(Ok(canonical_worktree)) ==> matching_step(
            original_repo_root,
            original_cwd,
            worktree_path,
            answers.take(there),
            at,
        ) == ToolStep::<Seq<char>>::Done(
            if path_starts_with(canonical_place, canonical_worktree) {
                place
            } else {
                tidied(worktree_path)
            },
            at + 4,
        ))),
{
    lemma_the_place_in_the_worktree_is_the_same(
        original_repo_root,
        original_cwd,
        worktree_path,
        answers,
        at,
        there,
        root,
        cwd,
        rest,
    );
    lemma_a_path_is_resolved_for_a_tool(place, answers, at + 2, there);
    if there > at + 2 {
        lemma_a_path_is_resolved_for_a_tool(worktree_path, answers, at + 3, there);
    }
    lemma_paths_have_to_be_absolute(worktree_path, "worktree cwd"@);
    lemma_paths_have_to_be_absolute(
        joined_path(worktree_path, rendered_path(path_below(cwd, root)->0)),
        "worktree cwd"@,
    );
    lemma_paths_have_to_be_absolute(place, "worktree cwd"@);
}

/// The questions about the paths that a tool has to be allowed to write: each is resolved, and
/// unless everything may be written the resolved path is asked about in the directory of the
/// session.
pub open spec fn write_questions(
    full_disk_write: bool,
    cwd: Seq<char>,
    paths: Seq<Seq<char>>,
    canonical: Seq<Seq<char>>,
) -> Seq<ToolAsk> {
    if full_disk_write {
        Seq::new(paths.len(), |i: int| ToolAsk::Canonicalize(paths[i]))
    } else {
        Seq::new(
            2 * paths.len(),
            |i: int|
                if i % 2 == 0 {
                    ToolAsk::Canonicalize(paths[i / 2])
                } else {
                    ToolAsk::PathWritable { path: canonical[i / 2], cwd }
                },
        )
    }
}

/// The first answers to these questions allow the writing.
pub open spec fn writing_is_allowed(
    full_disk_write: bool,
    canonical: Seq<Seq<char>>,
    answers: Seq<ToolAnswer>,
    at: int,
    count: int,
) -> bool {
    forall|i: int|
        0 <= i < count ==> #[trigger] answers[at + i] == (if full_disk_write {
            ToolAnswer::Canonical(Ok(canonical[i]))
        } else if i % 2 == 0 {
            ToolAnswer::Canonical(Ok(canonical[i / 2]))
        } else {
            ToolAnswer::Writable(true)
        })
}

/// A tool may write what it needs exactly where every path resolves and may be written; each is
/// asked about in turn, and nothing is asked about writing where everything may be written.
#[verifier::spinoff_prover]
pub proof fn lemma_every_path_has_to_be_writable(
    tool_name: Seq<char>,
    full_disk_write: bool,
    cwd: Seq<char>,
    paths: Seq<Seq<char>>,
    canonical: Seq<Seq<char>>,
    answers: Seq<ToolAnswer>,
    at: int,
    there: int,
)
    requires
        0 <= at,
        canonical.len() == paths.len(),
        at + write_questions(full_disk_write, cwd, paths, canonical).len() <= answers.len(),
        at <= there <= answers.len(),
        writing_is_allowed(
            full_disk_write,
            canonical,
            answers,
            at,
            if there - at < write_questions(full_disk_write, cwd, paths, canonical).len() {
                there - at
            } else {
                write_questions(full_disk_write, cwd, paths, canonical).len() as int
            },
        ),
    ensures
        writable_step(tool_name, full_disk_write, cwd, paths, answers.take(there), at) == turn(
            write_questions(full_disk_write, cwd, paths, canonical),
            at,
            there,
            ToolStep::<()>::Done(
                (),
                at + write_questions(full_disk_write, cwd, paths, canonical).len(),
            ),
        ),
    decreases paths.len(),
{
    let asks = write_questions(full_disk_write, cwd, paths, canonical);
    let part = answers.take(there);
    if paths.len() > 0 {
        let fewer = paths.drop_first();
        let rest = canonical.drop_first();
        let more = write_questions(full_disk_write, cwd, fewer, rest);
        let width: int = if full_disk_write {
            1
        } else {
            2
        };
        assert(asks.len() == width + more.len());
        lemma_a_path_is_resolved_for_a_tool(paths[0], answers, at, there);
        if there > at {
            assert(answers[at + 0] == ToolAnswer::Canonical(Ok(canonical[0])));
            assert(part[at] == answers[at]);
        }
        if !full_disk_write && there > at + 1 {
            assert(answers[at + 1] == ToolAnswer::Writable(true));
            assert(part[at + 1] == answers[at + 1]);
        }
        if there >= at + width {
            assert forall|i: int|
                0 <= i < (if there - (at + width) < more.len() {
                    there - (at + width)
                } else {
                    more.len() as int
                }) implies #[trigger] answers[at + width + i] == (if full_disk_write {
                ToolAnswer::Canonical(Ok(rest[i]))
            } else if i % 2 == 0 {
                ToolAnswer::Canonical(Ok(rest[i / 2]))
            } else {
                ToolAnswer::Writable(true)
            }) by {
                assert(answers[at + (width + i)] == (if full_disk_write {
                    ToolAnswer::Canonical(Ok(canonical[width + i]))
                } else if (width + i) % 2 == 0 {
                    ToolAnswer::Canonical(Ok(canonical[(width + i) / 2]))
                } else {
                    ToolAnswer::Writable(true)
                }));
            }
            lemma_every_path_has_to_be_writable(
                tool_name,
                full_disk_write,
                cwd,
                fewer,
                rest,
                answers,
                at + width,
                there,
            );
            assert forall|i: int| 0 <= i < more.len() implies #[trigger] more[i] == asks[width
                + i] by {}
            if there < at + asks.len() {
                assert(more[there - (at + width)] == asks[there - at]);
            }
        }
    }
}

/// The first path that may not be written ends the tool, with the tool and the resolved path; and
/// the first that does not resolve, with why.
#[verifier::spinoff_prover]
pub proof fn lemma_a_path_that_is_not_writable_is_named(
    tool_name: Seq<char>,
    full_disk_write: bool,
    cwd: Seq<char>,
    paths: Seq<Seq<char>>,
    canonical: Seq<Seq<char>>,
    answers: Seq<ToolAnswer>,
    at: int,
    which: int,
)
    requires
        0 <= at,
        canonical.len() == paths.len(),
        0 <= which < paths.len(),
        at + 2 * paths.len() <= answers.len(),
        writing_is_allowed(
            full_disk_write,
            canonical,
            answers,
            at,
            if full_disk_write {
                which
            } else {
                2 * which
            },
        ),
    ensures
        !full_disk_write && resolved(answers[at + 2 * which], canonical[which]) && answers[at + 2
            * which + 1] == ToolAnswer::Writable(false) ==> writable_step(
            tool_name,
            full_disk_write,
            cwd,
            paths,
            answers,
            at,
        ) == ToolStep::<()>::Failed(
            model_error(
                tool_name + " requires filesystem write permission for `"@ + canonical[which]
                    + "` before it can change the session workdir; additional permissions or configuration are required"@,
            ),
            at + 2 * which + 2,
        ),
        answers[at + (if full_disk_write {
            which
        } else {
            2 * which
        })] matches ToolAnswer::Canonical(Err(problem)) ==> writable_step(
            tool_name,
            full_disk_write,
            cwd,
            paths,
            answers,
            at,
        ) == ToolStep::<()>::Failed(
            model_error(
                "failed to canonicalize worktree path `"@ + paths[which] + "`: "@ + problem,
            ),
            at + (if full_disk_write {
                which
            } else {
                2 * which
            }) + 1,
        ),
    decreases paths.len(),
{
    if which > 0 {
        let width: int = if full_disk_write {
            1
        } else {
            2
        };
        let rest = canonical.drop_first();
        assert(answers[at + 0] == ToolAnswer::Canonical(Ok(canonical[0])));
        if !full_disk_write {
            assert(answers[at + 1] == ToolAnswer::Writable(true));
        }
        assert forall|i: int|
            0 <= i < (if full_disk_write {
                which - 1
            } else {
                2 * (which - 1)
            }) implies #[trigger] answers[at + width + i] == (if full_disk_write {
            ToolAnswer::Canonical(Ok(rest[i]))
        } else if i % 2 == 0 {
            ToolAnswer::Canonical(Ok(rest[i / 2]))
        } else {
            ToolAnswer::Writable(true)
        }) by {
            assert(answers[at + (width + i)] == (if full_disk_write {
                ToolAnswer::Canonical(Ok(canonical[width + i]))
            } else if (width + i) % 2 == 0 {
                ToolAnswer::Canonical(Ok(canonical[(width + i) / 2]))
            } else {
                ToolAnswer::Writable(true)
            }));
        }
        lemma_a_path_that_is_not_writable_is_named(
            tool_name,
            full_disk_write,
            cwd,
            paths.drop_first(),
            rest,
            answers,
            at + width,
            which - 1,
        );
    }
}

/// A session is in an adopted worktree exactly where its resolved directory is in the resolved
/// directory of the worktree.
#[verifier::spinoff_prover]
pub proof fn lemma_a_session_is_in_what_it_adopted(
    active: ActiveView,
    current_cwd: Seq<char>,
    answers: Seq<ToolAnswer>,
    at: int,
    there: int,
    cwd: Seq<char>,
    worktree: Seq<char>,
)
    requires
        0 <= at,
        at + 2 <= answers.len(),
        at <= there <= answers.len(),
        active.ownership is Adopted,
        there > at ==> resolved(answers[at], cwd),
        there > at + 1 ==> resolved(answers[at + 1], worktree),
    ensures
        still_inside_step(active, current_cwd, answers.take(there), at) == turn(
            seq![
                ToolAsk::Canonicalize(current_cwd),
                ToolAsk::Canonicalize(active.worktree_path),
            ],
            at,
            there,
            if path_starts_with(cwd, worktree) {
                ToolStep::<()>::Done((), at + 2)
            } else {
                ToolStep::Failed(
                    model_error(
                        "current cwd `"@ + cwd + "` is not inside active adopted workdir `"@
                            + active.worktree_path + "`; refusing to exit stale worktree state"@,
                    ),
                    at + 2,
                )
            },
        ),
{
    lemma_a_path_is_resolved_for_a_tool(current_cwd, answers, at, there);
    if there > at {
        lemma_a_path_is_resolved_for_a_tool(active.worktree_path, answers, at + 1, there);
    }
}

/// A session is in the worktree that it created exactly where its directory is in a checkout of
/// the same repository, whose resolved root is the resolved worktree, and the worktree lies in the
/// directory of the managed worktrees of that repository.
#[verifier::spinoff_prover]
pub proof fn lemma_a_session_is_in_what_it_created(
    active: ActiveView,
    common_dir: Seq<char>,
    current_cwd: Seq<char>,
    answers: Seq<ToolAnswer>,
    at: int,
    there: int,
    info: InfoView,
    root: Seq<char>,
    worktree: Seq<char>,
)
    requires
        0 <= at,
        at + 3 <= answers.len(),
        at <= there <= answers.len(),
        active.ownership == OwnershipView::ManagedByCodex(common_dir),
        there > at ==> inspected(answers[at], info),
        there > at + 1 ==> resolved(answers[at + 1], root),
        there > at + 2 ==> resolved(answers[at + 2], worktree),
    ensures
        path_parts(info.common_dir) == path_parts(common_dir) ==> still_inside_step(
            active,
            current_cwd,
            answers.take(there),
            at,
        ) == turn(
            seq![
                ToolAsk::Inspect(current_cwd),
                ToolAsk::Canonicalize(info.repo_root),
                ToolAsk::Canonicalize(active.worktree_path),
            ],
            at,
            there,
            if path_parts(root) != path_parts(worktree) {
                ToolStep::<()>::Failed(
                    model_error(
                        "current cwd `"@ + current_cwd + "` is not inside active worktree `"@
                            + active.worktree_path + "`; refusing to exit stale worktree state"@,
                    ),
                    at + 3,
                )
            } else if !path_starts_with(active.worktree_path, managed_dir(common_dir)) {
                ToolStep::Failed(
                    model_error(
                        "active worktree `"@ + active.worktree_path
                            + "` is not under the managed worktree directory for `"@ + common_dir
                            + "`"@,
                    ),
                    at + 3,
                )
            } else {
                ToolStep::Done((), at + 3)
            },
        ),
        there > at && path_parts(info.common_dir) != path_parts(common_dir) ==> still_inside_step(
            active,
            current_cwd,
            answers.take(there),
            at,
        ) == ToolStep::<()>::Failed(
            model_error(
                "active worktree common git dir changed from `"@ + common_dir + "` to `"@
                    + info.common_dir + "`; refusing to exit automatically"@,
            ),
            at + 1,
        ),
{
    lemma_a_checkout_is_inspected(current_cwd, answers, at, there);
    if there > at {
        lemma_a_path_is_resolved_for_a_tool(info.repo_root, answers, at + 1, there);
    }
    if there > at + 1 {
        lemma_a_path_is_resolved_for_a_tool(active.worktree_path, answers, at + 2, there);
    }
}

/// The settings are changed in one step, and a refused change is told with what it was for. What
/// is only noted is asked for once.
pub proof fn lemma_settings_are_changed_in_one_step(
    update: UpdateView,
    purpose: Seq<char>,
    note: ToolAsk,
    noted: ToolAnswer,
    answers: Seq<ToolAnswer>,
    at: int,
    there: int,
)
    requires
        0 <= at < answers.len(),
        at <= there <= answers.len(),
    ensures
        there == at ==> update_step(update, purpose, answers.take(there), at) == ToolStep::<
            (),
        >::Ask(ToolAsk::UpdateSettings(update)),
        answers[at] matches ToolAnswer::Updated(outcome) ==> there > at ==> update_step(
            update,
            purpose,
            answers.take(there),
            at,
        ) == (match outcome {
            Ok(_) => ToolStep::<()>::Done((), at + 1),
            Err(problem) => ToolStep::Failed(model_error(purpose + problem), at + 1),
        }),
        there == at ==> noted_step(note, noted, answers.take(there), at) == ToolStep::<()>::Ask(
            note,
        ),
        there > at && answers[at] == noted ==> noted_step(note, noted, answers.take(there), at)
            == ToolStep::<()>::Done((), at + 1),
{
}

/// A directory is in no managed worktree where git knows no repository there, where the directory
/// of the managed worktrees does not resolve, where the root of the checkout is not a direct child
/// of it, and where the repository has no original checkout.
#[verifier::spinoff_prover]
pub proof fn lemma_other_directories_are_in_no_managed_worktree(
    current_cwd: Seq<char>,
    owner_thread_id: Seq<char>,
    answers: Seq<ToolAnswer>,
    at: int,
    there: int,
    info: InfoView,
)
    requires
        0 <= at,
        at + 2 <= answers.len(),
        at <= there <= answers.len(),
        there > at ==> inspected(answers[at], info) || (answers[at] matches ToolAnswer::Inspected(
            BlockingView::Finished(Err(error)),
        ) && error is NotAGitRepository),
        there > at + 1 ==> answers[at + 1] is Canonical,
        answers[at + 1] matches ToolAnswer::Canonical(Ok(base)) ==> original_root(info.common_dir)
            is None || forall|name: Seq<char>| #[trigger]
            path_parts(base).push(Part::Normal(name)) != path_parts(info.repo_root),
    ensures
        there == at ==> derived_step(current_cwd, owner_thread_id, answers.take(there), at)
            == ToolStep::<Option<ActiveView>>::Ask(ToolAsk::Inspect(current_cwd)),
        there > at && !inspected(answers[at], info) ==> derived_step(
            current_cwd,
            owner_thread_id,
            answers.take(there),
            at,
        ) == ToolStep::<Option<ActiveView>>::Done(None, at + 1),
        there == at + 1 && inspected(answers[at], info) ==> derived_step(
            current_cwd,
            owner_thread_id,
            answers.take(there),
            at,
        ) == ToolStep::<Option<ActiveView>>::Ask(
            ToolAsk::Canonicalize(managed_dir(info.common_dir)),
        ),
        there > at + 1 && inspected(answers[at], info) ==> derived_step(
            current_cwd,
            owner_thread_id,
            answers.take(there),
            at,
        ) == ToolStep::<Option<ActiveView>>::Done(None, at + 2),
{
    lemma_a_checkout_is_inspected(current_cwd, answers, at, there);
    if there > at {
        lemma_a_path_is_resolved_for_a_tool(
            managed_dir(info.common_dir),
            answers,
            at + 1,
            there,
        );
    }
    if let ToolAnswer::Canonical(Ok(base)) = answers[at + 1] {
        if let Some(name) = name_below(base, info.repo_root) {
            lemma_a_direct_child_is_named(base, info.repo_root, name);
        }
    }
}

/// A session that is anywhere in a checkout whose root is a direct child of the directory of the
/// managed worktrees is in the managed worktree of that name: the path is the root of the checkout
/// and the branch the one that git reports. It goes back to the directory that the data beside
/// names, which has to be in the same repository, and without data to the original checkout; and
/// the session owns it where the data names the session.
#[verifier::spinoff_prover]
pub proof fn lemma_the_checkout_names_the_worktree(
    current_cwd: Seq<char>,
    owner_thread_id: Seq<char>,
    answers: Seq<ToolAnswer>,
    at: int,
    there: int,
    info: InfoView,
    base: Seq<char>,
    name: Seq<char>,
    original: Seq<char>,
    data: Option<MetadataView>,
    before: InfoView,
)
    requires
        0 <= at,
        at + 4 <= answers.len(),
        at <= there <= answers.len(),
        there > at ==> inspected(answers[at], info),
        there > at + 1 ==> resolved(answers[at + 1], base),
        path_parts(info.repo_root) == path_parts(base).push(Part::Normal(name)),
        original_root(info.common_dir) == Some(original),
        is_absolute_path(original),
        is_absolute_path(info.repo_root),
        there > at + 2 ==> (match data {
            Some(data) => read(answers[at + 2], data),
            None => no_data(answers[at + 2]),
        }),
        data matches Some(data) ==> is_absolute_path(data.original_cwd) && (there > at + 3
            ==> inspected(answers[at + 3], before)) && path_parts(before.common_dir) == path_parts(
            info.common_dir,
        ),
    ensures
        derived_step(current_cwd, owner_thread_id, answers.take(there), at) == turn(
            match data {
                None => seq![
                    ToolAsk::Inspect(current_cwd),
                    ToolAsk::Canonicalize(managed_dir(info.common_dir)),
                    ToolAsk::ReadMetadata(metadata_path(info.common_dir, name)),
                ],
                Some(data) => seq![
                    ToolAsk::Inspect(current_cwd),
                    ToolAsk::Canonicalize(managed_dir(info.common_dir)),
                    ToolAsk::ReadMetadata(metadata_path(info.common_dir, name)),
                    ToolAsk::Inspect(tidied(data.original_cwd)),
                ],
            },
            at,
            there,
            ToolStep::<Option<ActiveView>>::Done(
                Some(
                    ActiveView {
                        original_cwd: match data {
                            Some(data) => tidied(data.original_cwd),
                            None => tidied(original),
                        },
                        original_workspace_roots: None,
                        worktree_path: tidied(info.repo_root),
                        branch: info.current_branch,
                        name: Some(name),
                        ownership: if data matches Some(data) && data.owner_thread_id == Some(
                            owner_thread_id,
                        ) {
                            OwnershipView::ManagedByCodex(info.common_dir)
                        } else {
                            OwnershipView::Adopted
                        },
                    },
                ),
                match data {
                    Some(_) => at + 4,
                    None => at + 3,
                },
            ),
        ),
{
    lemma_a_direct_child_is_named(base, info.repo_root, name);
    lemma_a_checkout_is_inspected(current_cwd, answers, at, there);
    if there > at {
        lemma_a_path_is_resolved_for_a_tool(
            managed_dir(info.common_dir),
            answers,
            at + 1,
            there,
        );
    }
    if there > at + 1 {
        lemma_the_data_beside_is_read(info.common_dir, name, answers, at + 2, there);
    }
    if there > at + 2 {
        if let Some(data) = data {
            lemma_a_checkout_is_inspected(tidied(data.original_cwd), answers, at + 3, there);
        }
    }
}

/// Data that names a directory of another repository is refused, with both repositories; and data
/// that names a directory that git cannot inspect, with why.
#[verifier::spinoff_prover]
pub proof fn lemma_data_of_another_repository_is_refused(
    current_cwd: Seq<char>,
    owner_thread_id: Seq<char>,
    answers: Seq<ToolAnswer>,
    at: int,
    info: InfoView,
    base: Seq<char>,
    name: Seq<char>,
    original: Seq<char>,
    data: MetadataView,
)
    requires
        0 <= at,
        at + 4 <= answers.len(),
        inspected(answers[at], info),
        resolved(answers[at + 1], base),
        path_parts(info.repo_root) == path_parts(base).push(Part::Normal(name)),
        original_root(info.common_dir) == Some(original),
        read(answers[at + 2], data),
        is_absolute_path(data.original_cwd),
    ensures
        answers[at + 3] matches ToolAnswer::Inspected(BlockingView::Finished(Ok(before))) ==> (
        path_parts(before.common_dir) != path_parts(info.common_dir) ==> derived_step(
            current_cwd,
            owner_thread_id,
            answers,
            at,
        ) == ToolStep::<Option<ActiveView>>::Failed(
            model_error(
                "managed worktree metadata points to git common dir `"@ + before.common_dir
                    + "`, expected `"@ + info.common_dir + "`"@,
            ),
            at + 4,
        )),
        answers[at + 3] matches ToolAnswer::Inspected(outcome) ==> (git_problem(outcome) matches Some(
            error,
        ) ==> derived_step(current_cwd, owner_thread_id, answers, at) == ToolStep::<
            Option<ActiveView>,
        >::Failed(
            model_error(
                "failed to validate managed worktree metadata: "@ + call_error_message(error),
            ),
            at + 4,
        )),
{
    lemma_a_direct_child_is_named(base, info.repo_root, name);
}

/// The worktree that a session remembers is its active one, and nothing more is asked. Only a
/// session that remembers none is in the one that its directory is in.
#[verifier::spinoff_prover]
pub proof fn lemma_the_remembered_worktree_comes_first(
    current_cwd: Seq<char>,
    owner_thread_id: Seq<char>,
    answers: Seq<ToolAnswer>,
    at: int,
    there: int,
)
    requires
        0 <= at < answers.len(),
        at <= there <= answers.len(),
    ensures
        there == at ==> active_step(current_cwd, owner_thread_id, answers.take(there), at)
            == ToolStep::<Option<ActiveStateView>>::Ask(ToolAsk::ActiveWorktree),
        answers[at] matches ToolAnswer::Active(Some(active)) ==> there > at ==> active_step(
            current_cwd,
            owner_thread_id,
            answers.take(there),
            at,
        ) == ToolStep::<Option<ActiveStateView>>::Done(
            Some(ActiveStateView::Session(active)),
            at + 1,
        ),
        answers[at] == ToolAnswer::Active(None) && there > at ==> active_step(
            current_cwd,
            owner_thread_id,
            answers.take(there),
            at,
        ) == (match derived_step(current_cwd, owner_thread_id, answers.take(there), at + 1) {
            Step::Ask(ask) => ToolStep::<Option<ActiveStateView>>::Ask(ask),
            Step::Failed(error, used) => ToolStep::Failed(error, used),
            Step::Done(Some(active), used) => ToolStep::Done(
                Some(ActiveStateView::Derived(active)),
                used,
            ),
            Step::Done(None, used) => ToolStep::Done(None, used),
        }),
{
}

/// The name of the worktree that a checkout is comes from its root and the resolved directory of
/// the managed worktrees; there is none where that directory does not resolve.
pub proof fn lemma_a_managed_checkout_has_a_name(
    common_dir: Seq<char>,
    root: Seq<char>,
    answers: Seq<ToolAnswer>,
    at: int,
    there: int,
    name: Seq<char>,
)
    requires
        0 <= at < answers.len(),
        at <= there <= answers.len(),
    ensures
        there == at ==> managed_name_step(common_dir, root, answers.take(there), at) == ToolStep::<
            Option<Seq<char>>,
        >::Ask(ToolAsk::Canonicalize(managed_dir(common_dir))),
        answers[at] matches ToolAnswer::Canonical(Err(_)) ==> there > at ==> managed_name_step(
            common_dir,
            root,
            answers.take(there),
            at,
        ) == ToolStep::<Option<Seq<char>>>::Done(None, at + 1),
        answers[at] matches ToolAnswer::Canonical(Ok(base)) ==> there > at ==> {
            &&& managed_name_step(common_dir, root, answers.take(there), at) matches Step::Done(
                found,
                used,
            ) && used == at + 1 && (found == Some(name) <==> path_parts(root) == path_parts(
                base,
            ).push(Part::Normal(name)))
        },
{
    if let ToolAnswer::Canonical(Ok(base)) = answers[at] {
        lemma_a_direct_child_is_named(base, root, name);
    }
}

/// Finding the place in a worktree fails where the root or the directory does not resolve, and
/// entering it also where the worktree does not.
#[verifier::spinoff_prover]
pub proof fn lemma_finding_the_place_goes_as_resolving(
    original_repo_root: Seq<char>,
    original_cwd: Seq<char>,
    worktree_path: Seq<char>,
    answers: Seq<ToolAnswer>,
    at: int,
)
    ensures
        goes_as(
            anticipated_step(original_repo_root, original_cwd, worktree_path, answers, at),
            canonical_step(original_repo_root, answers, at),
        ),
        canonical_step(original_repo_root, answers, at) matches Step::Done(_, used) ==> goes_as(
            anticipated_step(original_repo_root, original_cwd, worktree_path, answers, at),
            canonical_step(original_cwd, answers, used),
        ),
        goes_as(
            matching_step(original_repo_root, original_cwd, worktree_path, answers, at),
            anticipated_step(original_repo_root, original_cwd, worktree_path, answers, at),
        ),
        anticipated_step(
            original_repo_root,
            original_cwd,
            worktree_path,
            answers,
            at,
        ) matches Step::Done(place, used) ==> (resolved_step(place, answers, used) matches Step::Done(
            Some(_),
            used,
        ) ==> goes_as(
            matching_step(original_repo_root, original_cwd, worktree_path, answers, at),
            canonical_step(worktree_path, answers, used),
        )),
{
}

/// That a session is in its worktree cannot be found out where its directory cannot be inspected
/// or one of the directories does not resolve: that fails.
#[verifier::spinoff_prover]
pub proof fn lemma_checking_the_session_goes_as_resolving(
    active: ActiveView,
    current_cwd: Seq<char>,
    answers: Seq<ToolAnswer>,
    at: int,
)
    ensures
        active.ownership is Adopted ==> {
            &&& goes_as(
                still_inside_step(active, current_cwd, answers, at),
                canonical_step(current_cwd, answers, at),
            )
            &&& canonical_step(current_cwd, answers, at) matches Step::Done(_, used) ==> goes_as(
                still_inside_step(active, current_cwd, answers, at),
                canonical_step(active.worktree_path, answers, used),
            )
        },
        active.ownership matches OwnershipView::ManagedByCodex(common_dir) ==> {
            &&& goes_as(
                still_inside_step(active, current_cwd, answers, at),
                inspected_step(current_cwd, answers, at),
            )
            &&& inspected_step(current_cwd, answers, at) matches Step::Done(info, used) ==> (
            is_same_path(info.common_dir, common_dir) ==> {
                &&& goes_as(
                    still_inside_step(active, current_cwd, answers, at),
                    canonical_step(info.repo_root, answers, used),
                )
                &&& canonical_step(info.repo_root, answers, used) matches Step::Done(_, used)
                    ==> goes_as(
                    still_inside_step(active, current_cwd, answers, at),
                    canonical_step(active.worktree_path, answers, used),
                )
            })
        },
{
}

/// Finding the worktree of a directory fails where git fails, and where the data beside the
/// worktree cannot be read or used: no other worktree is then taken.
#[verifier::spinoff_prover]
pub proof fn lemma_finding_the_worktree_goes_as_its_answers(
    current_cwd: Seq<char>,
    owner_thread_id: Seq<char>,
    answers: Seq<ToolAnswer>,
    at: int,
    info: InfoView,
    base: Seq<char>,
    name: Seq<char>,
)
    requires
        0 <= at,
        at + 2 <= answers.len(),
    ensures
        goes_as(
            derived_step(current_cwd, owner_thread_id, answers, at),
            inspected_optional_step(current_cwd, answers, at),
        ),
        inspected(answers[at], info) && resolved(answers[at + 1], base) && path_parts(
            info.repo_root,
        ) == path_parts(base).push(Part::Normal(name)) && original_root(info.common_dir) is Some
            ==> goes_as(
            derived_step(current_cwd, owner_thread_id, answers, at),
            read_step(info.common_dir, name, answers, at + 2),
        ),
{
    lemma_a_direct_child_is_named(base, info.repo_root, name);
}

} // verus!
