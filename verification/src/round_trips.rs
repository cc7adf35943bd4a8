//! What two procedures come to, one after the other: creating a worktree again, removing a worktree
//! that was created, and reading data that was kept.

use vstd::prelude::*;
use vstd::string::*;

use crate::checks::{read_step, write_step};
use crate::errors::GitErrorView;
use crate::managed::{
    add_args, create_step, managed_base_step, remove_step, target_step, ManagedView,
};
use crate::metadata::{lemma_metadata_reads_back, metadata_text, MetadataView};
use crate::operations::{
    canonicalize_step, command_line, hook_free_args, no_env, GitAnswer, GitAsk, GitStep, HostKind,
};
use crate::paths::{
    is_absolute_path, is_same_path, joined_path, lemma_parts_of_child, path_parts,
    path_starts_with, Part,
};
use crate::progress::Step;
use crate::session::{BlockingView, MetadataReadView, ToolAnswer, ToolAsk, ToolStep};
use crate::text::trimmed;
use crate::worktree::{
    inspect_step, lemma_valid_name_is_component, managed_dir, managed_same_repository_step,
    name_problem, InfoView,
};

verus! {

/// A git command only asks: it resolves a name or a path, or reads the configuration.
pub open spec fn is_query(args: Seq<Seq<char>>) -> bool {
    args.len() > 2 && (args[2] == "rev-parse"@ || args[2] == "config"@)
}

/// Where a procedure asks for a git command, the command only asks.
pub open spec fn only_asks<T>(step: GitStep<T>) -> bool {
    step matches Step::Ask(GitAsk::RunGit { dir: _, args, env: _ }) ==> is_query(args)
}

#[verifier::spinoff_prover]
proof fn lemma_inspecting_only_asks(
    path: Seq<char>,
    host: HostKind,
    answers: Seq<GitAnswer>,
    at: int,
)
    ensures
        only_asks(inspect_step(path, host, answers, at)),
{
}

/// The worktree that creating adds: at the target of its name, under the resolved directory of the
/// managed worktrees of the repository, where nothing was found.
pub open spec fn is_the_addition(
    repository_path: Seq<char>,
    name: Seq<char>,
    host: HostKind,
    answers: Seq<GitAnswer>,
    at: int,
    dir: Seq<char>,
    args: Seq<Seq<char>>,
) -> bool {
    inspect_step(repository_path, host, answers, at) matches Step::Done(source, inspected) && {
        &&& dir == source.repo_root
        &&& managed_base_step(
            source,
            managed_dir(source.common_dir),
            answers,
            inspected,
        ) matches Step::Done(base, resolved) && {
            &&& 0 <= resolved < answers.len()
            &&& answers[resolved] is Found
            &&& answers[resolved]->Found_0 is Err
            &&& exists|branch_exists: bool|
                args == hook_free_args(
                    host,
                    #[trigger] add_args(joined_path(base, name), name, branch_exists),
                )
        }
    }
}

#[verifier::spinoff_prover]
proof fn lemma_target_adds_where_nothing_is(
    source: InfoView,
    base: Seq<char>,
    name: Seq<char>,
    host: HostKind,
    answers: Seq<GitAnswer>,
    at: int,
)
    ensures
        target_step(source, base, name, host, answers, at) matches Step::Ask(
            GitAsk::RunGit { dir, args, env: _ },
        ) ==> is_query(args) || {
            &&& dir == source.repo_root
            &&& 0 <= at < answers.len()
            &&& answers[at] is Found
            &&& answers[at]->Found_0 is Err
            &&& exists|branch_exists: bool|
                args == hook_free_args(
                    host,
                    #[trigger] add_args(joined_path(base, name), name, branch_exists),
                )
        },
{
}

/// Creating a managed worktree runs no git command that changes the repository, but for the one
/// that adds the worktree. That one runs only where nothing stands at the target: a worktree that is
/// found is reused, and the checkout it was asked for from is never touched.
pub proof fn lemma_creation_only_adds_the_worktree(
    repository_path: Seq<char>,
    name: Seq<char>,
    host: HostKind,
    answers: Seq<GitAnswer>,
    at: int,
    dir: Seq<char>,
    args: Seq<Seq<char>>,
    env: Seq<(Seq<char>, Seq<char>)>,
)
    requires
        create_step(repository_path, name, host, answers, at) == Step::<
            GitAsk,
            GitErrorView,
            ManagedView,
        >::Ask(GitAsk::RunGit { dir, args, env }),
    ensures
        is_query(args) || is_the_addition(repository_path, name, host, answers, at, dir, args),
{
    lemma_inspecting_only_asks(repository_path, host, answers, at);
    if let Step::Done(source, inspected) = inspect_step(repository_path, host, answers, at) {
        let base = managed_dir(source.common_dir);
        if let Step::Done(base, resolved) = managed_base_step(source, base, answers, inspected) {
            lemma_target_adds_where_nothing_is(source, base, name, host, answers, resolved);
            if let Step::Done(_, made) = target_step(source, base, name, host, answers, resolved) {
                lemma_inspecting_only_asks(joined_path(base, name), host, answers, made);
            }
        }
    }
}

/// Creating a managed worktree again, from any checkout of the same repository, reuses it: it is
/// not new, no branch is created, and its name, its path and its repository are the same.
///
/// The second list of answers says that the directory of the managed worktrees resolves to the same
/// place, that something is found at the target and stays there, and that git knows the target as a
/// checkout of the repository.
pub proof fn lemma_creating_again_reuses(
    first_path: Seq<char>,
    second_path: Seq<char>,
    name: Seq<char>,
    host: HostKind,
    first: Seq<GitAnswer>,
    first_at: int,
    second: Seq<GitAnswer>,
    at: int,
    managed: ManagedView,
    used: int,
    source: InfoView,
    base: Seq<char>,
    inspected: int,
    resolved: int,
    target: Seq<char>,
    found: int,
    info: InfoView,
    done: int,
)
    requires
        create_step(first_path, name, host, first, first_at) == Step::<
            GitAsk,
            GitErrorView,
            ManagedView,
        >::Done(managed, used),
        inspect_step(second_path, host, second, at) == Step::<
            GitAsk,
            GitErrorView,
            InfoView,
        >::Done(source, inspected),
        is_same_path(source.common_dir, managed.info.common_dir),
        managed_base_step(source, managed_dir(source.common_dir), second, inspected) == Step::<
            GitAsk,
            GitErrorView,
            Seq<char>,
        >::Done(base, resolved),
        joined_path(base, name) == managed.path,
        0 <= resolved < second.len(),
        second[resolved] == GitAnswer::Found(Ok(())),
        canonicalize_step(managed.path, second, resolved + 1) == Step::<
            GitAsk,
            GitErrorView,
            Seq<char>,
        >::Done(target, found),
        path_starts_with(target, base),
        inspect_step(managed.path, host, second, found) == Step::<
            GitAsk,
            GitErrorView,
            InfoView,
        >::Done(info, done),
        is_same_path(info.common_dir, managed.info.common_dir),
    ensures
        create_step(second_path, name, host, second, at) == Step::<
            GitAsk,
            GitErrorView,
            ManagedView,
        >::Done(
            ManagedView {
                name: managed.name,
                path: managed.path,
                created: false,
                created_branch: None,
                info,
            },
            done,
        ),
{
    assert(name_problem(name) is None);
    assert(managed.name == name);
    assert(is_same_path(info.common_dir, source.common_dir));
}

/// Where a worktree is found at its target, creating it adds nothing, however far it gets.
pub proof fn lemma_reusing_adds_nothing(
    repository_path: Seq<char>,
    name: Seq<char>,
    host: HostKind,
    answers: Seq<GitAnswer>,
    at: int,
    source: InfoView,
    inspected: int,
    base: Seq<char>,
    resolved: int,
)
    requires
        inspect_step(repository_path, host, answers, at) == Step::<
            GitAsk,
            GitErrorView,
            InfoView,
        >::Done(source, inspected),
        managed_base_step(source, managed_dir(source.common_dir), answers, inspected) == Step::<
            GitAsk,
            GitErrorView,
            Seq<char>,
        >::Done(base, resolved),
        0 <= resolved < answers.len(),
        answers[resolved] == GitAnswer::Found(Ok(())),
    ensures
        only_asks(create_step(repository_path, name, host, answers, at)),
        create_step(repository_path, name, host, answers, at) matches Step::Done(managed, _)
            ==> !managed.created && managed.created_branch is None,
{
    if let Step::Ask(GitAsk::RunGit { dir, args, env }) = create_step(
        repository_path,
        name,
        host,
        answers,
        at,
    ) {
        lemma_creation_only_adds_the_worktree(
            repository_path,
            name,
            host,
            answers,
            at,
            dir,
            args,
            env,
        );
    }
}

/// The command that removes a worktree. It is not forced.
pub open spec fn removal_args(host: HostKind, root: Seq<char>) -> Seq<Seq<char>> {
    hook_free_args(host, seq!["worktree"@, "remove"@, root])
}

/// Removing a managed worktree runs no git command that changes the repository, but for the
/// removal itself, which is never forced.
#[verifier::spinoff_prover]
pub proof fn lemma_removal_only_removes(
    repository_path: Seq<char>,
    worktree_path: Seq<char>,
    host: HostKind,
    answers: Seq<GitAnswer>,
    at: int,
    dir: Seq<char>,
    args: Seq<Seq<char>>,
    env: Seq<(Seq<char>, Seq<char>)>,
)
    requires
        remove_step(repository_path, worktree_path, host, answers, at) == Step::<
            GitAsk,
            GitErrorView,
            (),
        >::Ask(GitAsk::RunGit { dir, args, env }),
    ensures
        is_query(args) || exists|root: Seq<char>| args == #[trigger] removal_args(host, root),
{
    lemma_inspecting_only_asks(repository_path, host, answers, at);
    if let Step::Done(source, inspected) = inspect_step(repository_path, host, answers, at) {
        lemma_inspecting_only_asks(worktree_path, host, answers, inspected);
        if let Step::Done(candidate, checked) = managed_same_repository_step(
            source,
            worktree_path,
            host,
            answers,
            inspected,
        ) {
            assert(removal_args(host, candidate.repo_root) == hook_free_args(
                host,
                seq!["worktree"@, "remove"@, candidate.repo_root],
            ));
        }
    }
}

/// A worktree that was created or reused passes every check that comes before its removal, and what
/// becomes of the removal is what git says of the unforced command: it is asked for, it succeeds, or
/// git refuses it and its words are told.
///
/// The answers say that git knows the worktree, at its path, as a checkout of the repository, and
/// that the directory of the managed worktrees resolves to the same place as before.
pub proof fn lemma_a_created_worktree_can_be_removed(
    created_from: Seq<char>,
    removed_from: Seq<char>,
    name: Seq<char>,
    host: HostKind,
    first: Seq<GitAnswer>,
    first_at: int,
    second: Seq<GitAnswer>,
    at: int,
    managed: ManagedView,
    used: int,
    source: InfoView,
    inspected: int,
    candidate: InfoView,
    checked: int,
    base: Seq<char>,
    resolved: int,
)
    requires
        create_step(created_from, name, host, first, first_at) == Step::<
            GitAsk,
            GitErrorView,
            ManagedView,
        >::Done(managed, used),
        inspect_step(removed_from, host, second, at) == Step::<
            GitAsk,
            GitErrorView,
            InfoView,
        >::Done(source, inspected),
        is_same_path(source.common_dir, managed.info.common_dir),
        inspect_step(managed.path, host, second, inspected) == Step::<
            GitAsk,
            GitErrorView,
            InfoView,
        >::Done(candidate, checked),
        is_same_path(candidate.common_dir, managed.info.common_dir),
        is_same_path(candidate.repo_root, managed.path),
        canonicalize_step(managed_dir(source.common_dir), second, checked) == Step::<
            GitAsk,
            GitErrorView,
            Seq<char>,
        >::Done(base, resolved),
        joined_path(base, name) == managed.path,
        0 <= resolved <= second.len(),
    ensures
        resolved == second.len() ==> remove_step(
            removed_from,
            managed.path,
            host,
            second,
            at,
        ) == Step::<GitAsk, GitErrorView, ()>::Ask(
            GitAsk::RunGit {
                dir: source.repo_root,
                args: removal_args(host, candidate.repo_root),
                env: no_env(),
            },
        ),
        resolved < second.len() ==> (second[resolved] matches GitAnswer::Ran(Ok(output)) ==> {
            remove_step(removed_from, managed.path, host, second, at) == if output.success {
                Step::<GitAsk, GitErrorView, ()>::Done((), resolved + 1)
            } else {
                Step::<GitAsk, GitErrorView, ()>::Failed(
                    GitErrorView::GitCommand {
                        command: command_line(removal_args(host, candidate.repo_root)),
                        status: output.status,
                        stderr: trimmed(crate::encoding::lossy_utf8(output.stderr)),
                    },
                    resolved + 1,
                )
            }
        }),
{
    lemma_valid_name_is_component(name);
    lemma_parts_of_child(base, name);
    assert(path_parts(candidate.repo_root) == path_parts(base).push(Part::Normal(name)));
    assert(path_parts(candidate.repo_root).take(path_parts(base).len() as int) =~= path_parts(
        base,
    ));
    assert(path_starts_with(candidate.repo_root, base));
}

/// What is no managed worktree of the repository is not removed: a checkout of another repository,
/// or one outside of the directory of the managed worktrees, is an error, and no removal is asked
/// for.
pub proof fn lemma_other_worktrees_are_not_removed(
    repository_path: Seq<char>,
    worktree_path: Seq<char>,
    host: HostKind,
    answers: Seq<GitAnswer>,
    at: int,
    source: InfoView,
    inspected: int,
    candidate: InfoView,
    checked: int,
)
    requires
        inspect_step(repository_path, host, answers, at) == Step::<
            GitAsk,
            GitErrorView,
            InfoView,
        >::Done(source, inspected),
        inspect_step(worktree_path, host, answers, inspected) == Step::<
            GitAsk,
            GitErrorView,
            InfoView,
        >::Done(candidate, checked),
    ensures
        !is_same_path(candidate.common_dir, source.common_dir) ==> remove_step(
            repository_path,
            worktree_path,
            host,
            answers,
            at,
        ) == Step::<GitAsk, GitErrorView, ()>::Failed(
            GitErrorView::WorktreeRepositoryMismatch {
                path: candidate.repo_root,
                expected_common_dir: source.common_dir,
                actual_common_dir: candidate.common_dir,
            },
            checked,
        ),
        is_same_path(candidate.common_dir, source.common_dir) ==> (canonicalize_step(
            managed_dir(source.common_dir),
            answers,
            checked,
        ) matches Step::Done(base, resolved) ==> !path_starts_with(candidate.repo_root, base)
            ==> remove_step(repository_path, worktree_path, host, answers, at) == Step::<
            GitAsk,
            GitErrorView,
            (),
        >::Failed(
            GitErrorView::ManagedWorktreePathEscapes {
                path: candidate.repo_root,
                base: managed_dir(source.common_dir),
            },
            resolved,
        )),
{
}

/// What a session keeps beside a managed worktree is what is read for that worktree: the reader asks
/// for the file that was written, and where the file is read as data that is written like this, the
/// reader gives back the directory and the session that were kept.
pub proof fn lemma_kept_data_is_read_back(
    common_dir: Seq<char>,
    name: Seq<char>,
    original_cwd: Seq<char>,
    owner_thread_id: Seq<char>,
    written: Seq<ToolAnswer>,
    written_at: int,
    path: Seq<char>,
    content: Seq<char>,
    read: Seq<ToolAnswer>,
    read_at: int,
    metadata: MetadataView,
)
    requires
        is_absolute_path(original_cwd),
        write_step(
            common_dir,
            name,
            MetadataView { original_cwd, owner_thread_id: Some(owner_thread_id) },
            written,
            written_at,
        ) == ToolStep::<()>::Ask(ToolAsk::WriteMetadata { path, content }),
        0 <= read_at < read.len(),
        read[read_at] == ToolAnswer::MetadataRead(
            BlockingView::Finished(MetadataReadView::Present(metadata)),
        ),
        metadata_text(metadata) == content,
    ensures
        read_step(common_dir, name, read.take(read_at), read_at) == ToolStep::<
            Option<MetadataView>,
        >::Ask(ToolAsk::ReadMetadata(path)),
        read_step(common_dir, name, read, read_at) == ToolStep::<Option<MetadataView>>::Done(
            Some(MetadataView { original_cwd, owner_thread_id: Some(owner_thread_id) }),
            read_at + 1,
        ),
{
    lemma_metadata_reads_back(
        MetadataView { original_cwd, owner_thread_id: Some(owner_thread_id) },
        metadata,
    );
}

/// It is no error that nothing is kept beside a managed worktree.
pub proof fn lemma_nothing_kept_is_no_error(
    common_dir: Seq<char>,
    name: Seq<char>,
    read: Seq<ToolAnswer>,
    read_at: int,
)
    requires
        0 <= read_at < read.len(),
        read[read_at] == ToolAnswer::MetadataRead(
            BlockingView::Finished(MetadataReadView::Missing),
        ),
    ensures
        read_step(common_dir, name, read, read_at) == ToolStep::<Option<MetadataView>>::Done(
            None,
            read_at + 1,
        ),
{
}

} // verus!
