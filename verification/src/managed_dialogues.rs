//! What git and the file system are asked when managed worktrees are made and removed, and what
//! the answers come to.

use vstd::prelude::*;
use vstd::string::*;
use vstd::utf8::*;

use crate::errors::GitErrorView;
use crate::filters::{drivers_of, filter_env_step, filter_environment};
use crate::git_dialogues::{
    git_in, goes_as, lemma_a_path_is_resolved, lemma_git_is_run_without_hooks, prints, run_failure,
    succeeds, turn,
};
use crate::managed::{
    add_step, branch_exists_step, create_step, managed_base_step, managed_dir_step,
    remove_created_step, remove_step, target_step, ManagedView,
};
use crate::operations::{canonicalize_step, git_status_step, GitAnswer, GitAsk, GitStep, HostKind};
use crate::paths::{joined_path, parent_of, path_parts, path_starts_with, Part};
use crate::progress::Step;
use crate::text::split;
use crate::worktree::{
    inspect_step, managed_dir, managed_same_repository_step, name_problem, same_repository_step,
    InfoView,
};

verus! {

/// The parent of the directory of the managed worktrees is that of the tool in the common
/// directory of the repository.
pub proof fn lemma_managed_worktrees_are_below_the_common_directory(common_dir: Seq<char>)
    ensures
        path_parts(managed_dir(common_dir)) == path_parts(common_dir).push(
            Part::Normal("codex"@),
        ).push(Part::Normal("worktrees"@)),
        parent_of(managed_dir(common_dir)) matches Some(up) && path_parts(up) == path_parts(
            common_dir,
        ).push(Part::Normal("codex"@)),
{
    crate::worktree::lemma_managed_dir_parts(common_dir);
    let parts = path_parts(managed_dir(common_dir));
    let up = path_parts(common_dir).push(Part::Normal("codex"@));
    assert(parts.drop_last() =~= up);
    crate::paths::lemma_path_parts_list(managed_dir(common_dir));
    assert forall|i: int| 0 <= i < up.len() implies crate::paths::is_inner_part(#[trigger] up[i])
        || (i == 0 && (up[i] is Root || up[i] is Current)) by {
        assert(parts[i] == up[i]);
    }
    crate::paths::lemma_parts_of_rendered(up);
}

/// The questions about a directory that has to be there: it is looked up, created where it is
/// missing, and resolved.
pub open spec fn directory_questions(path: Seq<char>, is_there: bool) -> Seq<GitAsk> {
    if is_there {
        seq![GitAsk::LookUp(path), GitAsk::Canonicalize(path)]
    } else {
        seq![GitAsk::LookUp(path), GitAsk::CreateDir(path), GitAsk::Canonicalize(path)]
    }
}

/// The first answers to these questions.
pub open spec fn directory_answers(
    answers: Seq<GitAnswer>,
    at: int,
    count: int,
    is_there: bool,
    canonical: Seq<char>,
) -> bool {
    if is_there {
        &&& count > 0 ==> answers[at] == GitAnswer::Found(Ok(()))
        &&& count > 1 ==> answers[at + 1] == GitAnswer::Canonical(Ok(canonical))
    } else {
        &&& count > 0 ==> (answers[at] matches GitAnswer::Found(Err(failure)) && failure.not_found)
        &&& count > 1 ==> answers[at + 1] == GitAnswer::DirCreated(Ok(()))
        &&& count > 2 ==> answers[at + 2] == GitAnswer::Canonical(Ok(canonical))
    }
}

/// A directory that has to be there is created exactly where it is missing, and has to resolve to
/// a place under its parent.
#[verifier::spinoff_prover]
pub proof fn lemma_missing_directories_are_created(
    path: Seq<char>,
    canonical_parent: Seq<char>,
    answers: Seq<GitAnswer>,
    at: int,
    there: int,
    is_there: bool,
    canonical: Seq<char>,
)
    requires
        0 <= at,
        at + directory_questions(path, is_there).len() <= answers.len(),
        at <= there <= answers.len(),
        directory_answers(answers, at, there - at, is_there, canonical),
    ensures
        managed_dir_step(path, canonical_parent, answers.take(there), at) == turn(
            directory_questions(path, is_there),
            at,
            there,
            if path_starts_with(canonical, canonical_parent) {
                GitStep::<Seq<char>>::Done(
                    canonical,
                    at + directory_questions(path, is_there).len(),
                )
            } else {
                GitStep::Failed(
                    GitErrorView::ManagedWorktreePathEscapes { path: canonical, base: path },
                    at + directory_questions(path, is_there).len(),
                )
            },
        ),
{
    let part = answers.take(there);
    if there > at {
        assert(part[at] == answers[at]);
    }
    if there > at + 1 {
        assert(part[at + 1] == answers[at + 1]);
    }
    if there > at + 2 {
        assert(part[at + 2] == answers[at + 2]);
    }
}

/// A directory that can neither be looked up nor created fails as that does.
pub proof fn lemma_directories_fail_as_the_file_system_does(
    path: Seq<char>,
    canonical_parent: Seq<char>,
    answers: Seq<GitAnswer>,
    at: int,
)
    requires
        0 <= at,
        at + 2 <= answers.len(),
    ensures
        answers[at] matches GitAnswer::Found(Err(failure)) ==> {
            &&& !failure.not_found ==> managed_dir_step(path, canonical_parent, answers, at)
                == GitStep::<Seq<char>>::Failed(GitErrorView::Io(failure.text), at + 1)
            &&& failure.not_found ==> (answers[at + 1] matches GitAnswer::DirCreated(Err(problem))
                ==> managed_dir_step(path, canonical_parent, answers, at) == GitStep::<
                Seq<char>,
            >::Failed(GitErrorView::Io(problem.text), at + 2))
        },
{
}

/// The questions about the directory of the managed worktrees of a repository.
pub open spec fn base_questions(
    common_dir: Seq<char>,
    parent_is_there: bool,
    base_is_there: bool,
) -> Seq<GitAsk> {
    seq![GitAsk::Canonicalize(common_dir)] + directory_questions(
        parent_of(managed_dir(common_dir))->0,
        parent_is_there,
    ) + directory_questions(managed_dir(common_dir), base_is_there)
}

/// The directory of the managed worktrees is made, where it is missing, in the directory of the
/// tool, and that in the common directory; each has to resolve to a place under the other, and the
/// directory of the managed worktrees also to one under the common directory.
#[verifier::spinoff_prover]
pub proof fn lemma_the_base_is_made_in_the_common_directory(
    source: InfoView,
    answers: Seq<GitAnswer>,
    at: int,
    there: int,
    parent_is_there: bool,
    base_is_there: bool,
    common: Seq<char>,
    parent: Seq<char>,
    base: Seq<char>,
    middle: int,
)
    requires
        0 <= at,
        middle == at + 1 + (if parent_is_there {
            2int
        } else {
            3int
        }),
        at + base_questions(source.common_dir, parent_is_there, base_is_there).len()
            <= answers.len(),
        at <= there <= answers.len(),
        there > at ==> answers[at] == GitAnswer::Canonical(Ok(common)),
        directory_answers(answers, at + 1, there - (at + 1), parent_is_there, parent),
        directory_answers(answers, middle, there - middle, base_is_there, base),
        path_starts_with(parent, common),
        path_starts_with(base, parent),
        path_starts_with(base, common),
    ensures
        managed_base_step(source, managed_dir(source.common_dir), answers.take(there), at) == turn(
            base_questions(source.common_dir, parent_is_there, base_is_there),
            at,
            there,
            GitStep::<Seq<char>>::Done(
                base,
                at + base_questions(source.common_dir, parent_is_there, base_is_there).len(),
            ),
        ),
{
    let dir = managed_dir(source.common_dir);
    lemma_managed_worktrees_are_below_the_common_directory(source.common_dir);
    let up = parent_of(dir)->0;
    lemma_a_path_is_resolved(source.common_dir, answers, at, there);
    if there > at {
        lemma_missing_directories_are_created(
            up,
            common,
            answers,
            at + 1,
            there,
            parent_is_there,
            parent,
        );
    }
    if there >= middle {
        lemma_missing_directories_are_created(
            dir,
            parent,
            answers,
            middle,
            there,
            base_is_there,
            base,
        );
    }
}

/// The question for the filters of a repository.
pub open spec fn filter_question(repo_root: Seq<char>, host: HostKind) -> GitAsk {
    git_in(
        repo_root,
        host,
        seq![
            "config"@,
            "--null"@,
            "--name-only"@,
            "--get-regexp"@,
            r"^filter\..*\.(clean|smudge|process)$"@,
        ],
        Seq::empty(),
    )
}

/// The question for a branch.
pub open spec fn branch_question(
    repo_root: Seq<char>,
    host: HostKind,
    name: Seq<char>,
) -> GitAsk {
    git_in(
        repo_root,
        host,
        seq!["rev-parse"@, "--verify"@, "refs/heads/"@ + name],
        Seq::empty(),
    )
}

/// The answer to the question for a branch: git finds it, or ends without success.
pub open spec fn tells_branch(answer: GitAnswer, is_there: bool) -> bool {
    answer matches GitAnswer::Ran(Ok(output)) && output.success == is_there
}

/// The command that adds a worktree: for the branch where it is there, and else with a new branch
/// of that name at the head.
pub open spec fn adding(
    repo_root: Seq<char>,
    host: HostKind,
    target: Seq<char>,
    name: Seq<char>,
    branch_is_there: bool,
    env: Seq<(Seq<char>, Seq<char>)>,
) -> GitAsk {
    git_in(
        repo_root,
        host,
        if branch_is_there {
            seq!["worktree"@, "add"@, target, name]
        } else {
            seq!["worktree"@, "add"@, "-b"@, name, target, "HEAD"@]
        },
        env,
    )
}

/// The filters of a repository are those whose keys git lists, each ended by a NUL; where git ends
/// with 1 there are none, and any other failure is one.
#[verifier::spinoff_prover]
pub proof fn lemma_filters_are_listed_by_git(
    repo_root: Seq<char>,
    host: HostKind,
    answers: Seq<GitAnswer>,
    at: int,
    there: int,
    listed: Seq<char>,
)
    requires
        0 <= at < answers.len(),
        at <= there <= answers.len(),
    ensures
        there == at ==> filter_env_step(repo_root, host, answers.take(there), at) == GitStep::<
            Seq<(Seq<char>, Seq<char>)>,
        >::Ask(filter_question(repo_root, host)),
        there > at && prints(answers[at], listed) ==> filter_env_step(
            repo_root,
            host,
            answers.take(there),
            at,
        ) == GitStep::<Seq<(Seq<char>, Seq<char>)>>::Done(
            filter_environment(drivers_of(split(listed, '\0'))),
            at + 1,
        ),
        run_failure(filter_question(repo_root, host), answers[at]) matches Some(error) ==> there
            > at ==> filter_env_step(repo_root, host, answers.take(there), at) == (if error matches
        GitErrorView::GitCommand { command: _, status, stderr: _ } && status.code == Some(1i32) {
            GitStep::<Seq<(Seq<char>, Seq<char>)>>::Done(Seq::empty(), at + 1)
        } else {
            GitStep::Failed(error, at + 1)
        }),
{
    lemma_git_is_run_without_hooks(
        repo_root,
        seq![
            "config"@,
            "--null"@,
            "--name-only"@,
            "--get-regexp"@,
            r"^filter\..*\.(clean|smudge|process)$"@,
        ],
        Seq::empty(),
        host,
        answers,
        at,
        there,
    );
}

/// A branch is there exactly where git resolves it; that git cannot be run at all is a failure.
#[verifier::spinoff_prover]
pub proof fn lemma_a_branch_is_there_where_git_resolves_it(
    repo_root: Seq<char>,
    name: Seq<char>,
    host: HostKind,
    answers: Seq<GitAnswer>,
    at: int,
    there: int,
    is_there: bool,
)
    requires
        0 <= at < answers.len(),
        at <= there <= answers.len(),
    ensures
        there == at ==> branch_exists_step(repo_root, name, host, answers.take(there), at)
            == GitStep::<bool>::Ask(branch_question(repo_root, host, name)),
        there > at && tells_branch(answers[at], is_there) ==> branch_exists_step(
            repo_root,
            name,
            host,
            answers.take(there),
            at,
        ) == GitStep::<bool>::Done(is_there, at + 1),
        answers[at] matches GitAnswer::Ran(Err(failure)) ==> there > at ==> branch_exists_step(
            repo_root,
            name,
            host,
            answers.take(there),
            at,
        ) == GitStep::<bool>::Failed(GitErrorView::Io(failure.text), at + 1),
{
    lemma_git_is_run_without_hooks(
        repo_root,
        seq!["rev-parse"@, "--verify"@, "refs/heads/"@ + name],
        Seq::empty(),
        host,
        answers,
        at,
        there,
    );
}

/// A worktree is added with the filters of the repository switched off, for the branch of its name
/// where that is there, and otherwise with a new branch of its name, which is told.
#[verifier::spinoff_prover]
pub proof fn lemma_a_worktree_is_added_without_filters(
    repo_root: Seq<char>,
    target: Seq<char>,
    name: Seq<char>,
    host: HostKind,
    answers: Seq<GitAnswer>,
    at: int,
    there: int,
    env: Seq<(Seq<char>, Seq<char>)>,
    branch_is_there: bool,
)
    requires
        0 <= at,
        at + 3 <= answers.len(),
        at <= there <= answers.len(),
        there > at ==> filter_env_step(repo_root, host, answers.take(there), at) == GitStep::<
            Seq<(Seq<char>, Seq<char>)>,
        >::Done(env, at + 1),
        there > at + 1 ==> tells_branch(answers[at + 1], branch_is_there),
        there > at + 2 ==> succeeds(answers[at + 2]),
    ensures
        add_step(repo_root, target, name, host, answers.take(there), at) == turn(
            seq![
                filter_question(repo_root, host),
                branch_question(repo_root, host, name),
                adding(repo_root, host, target, name, branch_is_there, env),
            ],
            at,
            there,
            GitStep::<Option<Seq<char>>>::Done(
                if branch_is_there {
                    None
                } else {
                    Some(name)
                },
                at + 3,
            ),
        ),
{
    lemma_filters_are_listed_by_git(repo_root, host, answers, at, there, Seq::empty());
    if there > at {
        lemma_a_branch_is_there_where_git_resolves_it(
            repo_root,
            name,
            host,
            answers,
            at + 1,
            there,
            branch_is_there,
        );
    }
    if there > at + 1 {
        lemma_git_is_run_without_hooks(
            repo_root,
            crate::managed::add_args(target, name, branch_is_there),
            env,
            host,
            answers,
            at + 2,
            there,
        );
    }
}

/// What stands at the place of a managed worktree is reused where it resolves to a place under the
/// directory of the managed worktrees; where nothing stands there, the worktree is added.
#[verifier::spinoff_prover]
pub proof fn lemma_what_is_there_is_reused(
    source: InfoView,
    base: Seq<char>,
    name: Seq<char>,
    host: HostKind,
    answers: Seq<GitAnswer>,
    at: int,
    there: int,
    canonical: Seq<char>,
)
    requires
        0 <= at,
        at + 2 <= answers.len(),
        at <= there <= answers.len(),
        there > at ==> answers[at] is Found,
        answers[at] == GitAnswer::Found(Ok(())) && there > at + 1 ==> answers[at + 1]
            == GitAnswer::Canonical(Ok(canonical)),
    ensures
        there == at ==> target_step(source, base, name, host, answers.take(there), at) == GitStep::<
            (bool, Option<Seq<char>>),
        >::Ask(GitAsk::LookUp(joined_path(base, name))),
        there == at + 1 && answers[at] == GitAnswer::Found(Ok(())) ==> target_step(
            source,
            base,
            name,
            host,
            answers.take(there),
            at,
        ) == GitStep::<(bool, Option<Seq<char>>)>::Ask(
            GitAsk::Canonicalize(joined_path(base, name)),
        ),
        there > at + 1 && answers[at] == GitAnswer::Found(Ok(())) ==> target_step(
            source,
            base,
            name,
            host,
            answers.take(there),
            at,
        ) == (if path_starts_with(canonical, base) {
            GitStep::<(bool, Option<Seq<char>>)>::Done((false, None), at + 2)
        } else {
            GitStep::Failed(
                GitErrorView::ManagedWorktreePathEscapes { path: canonical, base },
                at + 2,
            )
        }),
        there > at && (answers[at] matches GitAnswer::Found(Err(_))) ==> target_step(
            source,
            base,
            name,
            host,
            answers.take(there),
            at,
        ) == (match add_step(
            source.repo_root,
            joined_path(base, name),
            name,
            host,
            answers.take(there),
            at + 1,
        ) {
            Step::Ask(ask) => GitStep::<(bool, Option<Seq<char>>)>::Ask(ask),
            Step::Failed(error, used) => GitStep::Failed(error, used),
            Step::Done(branch, used) => GitStep::Done((true, branch), used),
        }),
{
    let part = answers.take(there);
    if there > at {
        assert(part[at] == answers[at]);
        lemma_a_path_is_resolved(joined_path(base, name), answers, at + 1, there);
    }
}

/// A managed worktree is made or reused in four stages: the repository is inspected, the directory
/// of the managed worktrees made sure of, the worktree reused or added in it under its name, and
/// what then stands there inspected, which has to be of the same repository. What comes out is the
/// name and the place that were asked for, whether it and a branch are new, and what was found.
#[verifier::spinoff_prover]
pub proof fn lemma_a_managed_worktree_is_made_in_stages(
    repository_path: Seq<char>,
    name: Seq<char>,
    host: HostKind,
    answers: Seq<GitAnswer>,
    at: int,
    source: InfoView,
    inspected: int,
    base: Seq<char>,
    based: int,
    created: bool,
    created_branch: Option<Seq<char>>,
    placed: int,
    info: InfoView,
    used: int,
)
    requires
        name_problem(name) is None,
        inspect_step(repository_path, host, answers, at) == GitStep::<InfoView>::Done(
            source,
            inspected,
        ),
        managed_base_step(source, managed_dir(source.common_dir), answers, inspected) == GitStep::<
            Seq<char>,
        >::Done(base, based),
        target_step(source, base, name, host, answers, based) == GitStep::<
            (bool, Option<Seq<char>>),
        >::Done((created, created_branch), placed),
        inspect_step(joined_path(base, name), host, answers, placed) == GitStep::<InfoView>::Done(
            info,
            used,
        ),
    ensures
        path_parts(info.common_dir) == path_parts(source.common_dir) ==> create_step(
            repository_path,
            name,
            host,
            answers,
            at,
        ) == GitStep::<ManagedView>::Done(
            ManagedView { name, path: joined_path(base, name), created, created_branch, info },
            used,
        ),
        path_parts(info.common_dir) != path_parts(source.common_dir) ==> create_step(
            repository_path,
            name,
            host,
            answers,
            at,
        ) == GitStep::<ManagedView>::Failed(
            GitErrorView::WorktreeRepositoryMismatch {
                path: info.repo_root,
                expected_common_dir: source.common_dir,
                actual_common_dir: info.common_dir,
            },
            used,
        ),
{
}

/// Making a managed worktree waits and fails as the stage does that it has come to, and a text
/// that is no name is refused before anything is asked.
#[verifier::spinoff_prover]
pub proof fn lemma_making_a_worktree_goes_as_its_stages(
    repository_path: Seq<char>,
    name: Seq<char>,
    host: HostKind,
    answers: Seq<GitAnswer>,
    at: int,
)
    ensures
        name_problem(name) matches Some(reason) ==> create_step(
            repository_path,
            name,
            host,
            answers,
            at,
        ) == GitStep::<ManagedView>::Failed(GitErrorView::InvalidWorktreeName { name, reason }, at),
        name_problem(name) is None ==> {
            let first = inspect_step(repository_path, host, answers, at);
            &&& first matches Step::Ask(ask) ==> create_step(
                repository_path,
                name,
                host,
                answers,
                at,
            ) == GitStep::<ManagedView>::Ask(ask)
            &&& first matches Step::Failed(error, used) ==> create_step(
                repository_path,
                name,
                host,
                answers,
                at,
            ) == GitStep::<ManagedView>::Failed(error, used)
            &&& first matches Step::Done(source, used) ==> {
                let second = managed_base_step(
                    source,
                    managed_dir(source.common_dir),
                    answers,
                    used,
                );
                &&& second matches Step::Ask(ask) ==> create_step(
                    repository_path,
                    name,
                    host,
                    answers,
                    at,
                ) == GitStep::<ManagedView>::Ask(ask)
                &&& second matches Step::Failed(error, used) ==> create_step(
                    repository_path,
                    name,
                    host,
                    answers,
                    at,
                ) == GitStep::<ManagedView>::Failed(error, used)
                &&& second matches Step::Done(base, used) ==> {
                    let third = target_step(source, base, name, host, answers, used);
                    &&& third matches Step::Ask(ask) ==> create_step(
                        repository_path,
                        name,
                        host,
                        answers,
                        at,
                    ) == GitStep::<ManagedView>::Ask(ask)
                    &&& third matches Step::Failed(error, used) ==> create_step(
                        repository_path,
                        name,
                        host,
                        answers,
                        at,
                    ) == GitStep::<ManagedView>::Failed(error, used)
                    &&& third matches Step::Done(_, used) ==> {
                        let fourth = inspect_step(joined_path(base, name), host, answers, used);
                        &&& fourth matches Step::Ask(ask) ==> create_step(
                            repository_path,
                            name,
                            host,
                            answers,
                            at,
                        ) == GitStep::<ManagedView>::Ask(ask)
                        &&& fourth matches Step::Failed(error, used) ==> create_step(
                            repository_path,
                            name,
                            host,
                            answers,
                            at,
                        ) == GitStep::<ManagedView>::Failed(error, used)
                    }
                }
            }
        },
{
}

/// A checkout is a managed worktree of a repository where it belongs to it and its root lies under
/// the resolved directory of the managed worktrees of that repository; another root is told with
/// that directory.
#[verifier::spinoff_prover]
pub proof fn lemma_a_managed_worktree_lies_in_the_managed_directory(
    expected: InfoView,
    candidate_path: Seq<char>,
    host: HostKind,
    answers: Seq<GitAnswer>,
    at: int,
    there: int,
    candidate: InfoView,
    checked: int,
    base: Seq<char>,
)
    requires
        0 <= checked < answers.len(),
        checked <= there <= answers.len(),
        same_repository_step(expected, candidate_path, host, answers.take(there), at)
            == GitStep::<InfoView>::Done(candidate, checked),
        there > checked ==> answers[checked] == GitAnswer::Canonical(Ok(base)),
    ensures
        managed_same_repository_step(expected, candidate_path, host, answers.take(there), at)
            == turn(
            seq![GitAsk::Canonicalize(managed_dir(expected.common_dir))],
            checked,
            there,
            if path_starts_with(candidate.repo_root, base) {
                GitStep::<InfoView>::Done(candidate, checked + 1)
            } else {
                GitStep::Failed(
                    GitErrorView::ManagedWorktreePathEscapes {
                        path: candidate.repo_root,
                        base: managed_dir(expected.common_dir),
                    },
                    checked + 1,
                )
            },
        ),
{
    lemma_a_path_is_resolved(managed_dir(expected.common_dir), answers, checked, there);
}

/// A worktree is removed from the root of the repository that was asked for, by the root of the
/// worktree and without force. Where it was just made, the branch that came with it is deleted
/// after it, and no other.
#[verifier::spinoff_prover]
pub proof fn lemma_a_worktree_is_removed_with_its_branch(
    repository_path: Seq<char>,
    worktree_path: Seq<char>,
    created_branch: Option<Seq<char>>,
    host: HostKind,
    answers: Seq<GitAnswer>,
    at: int,
    there: int,
    source: InfoView,
    inspected: int,
    candidate: InfoView,
    checked: int,
)
    requires
        0 <= checked,
        checked + 2 <= answers.len(),
        checked <= there <= answers.len(),
        inspect_step(repository_path, host, answers.take(there), at) == GitStep::<InfoView>::Done(
            source,
            inspected,
        ),
        managed_same_repository_step(source, worktree_path, host, answers.take(there), inspected)
            == GitStep::<InfoView>::Done(candidate, checked),
        there > checked ==> succeeds(answers[checked]),
        there > checked + 1 ==> succeeds(answers[checked + 1]),
    ensures
        remove_step(repository_path, worktree_path, host, answers.take(there), at) == turn(
            seq![
                git_in(
                    source.repo_root,
                    host,
                    seq!["worktree"@, "remove"@, candidate.repo_root],
                    Seq::empty(),
                ),
            ],
            checked,
            there,
            GitStep::<()>::Done((), checked + 1),
        ),
        remove_created_step(
            repository_path,
            worktree_path,
            created_branch,
            host,
            answers.take(there),
            at,
        ) == turn(
            match created_branch {
                Some(branch) => seq![
                    git_in(
                        source.repo_root,
                        host,
                        seq!["worktree"@, "remove"@, candidate.repo_root],
                        Seq::empty(),
                    ),
                    git_in(source.repo_root, host, seq!["branch"@, "-D"@, branch], Seq::empty()),
                ],
                None => seq![
                    git_in(
                        source.repo_root,
                        host,
                        seq!["worktree"@, "remove"@, candidate.repo_root],
                        Seq::empty(),
                    ),
                ],
            },
            checked,
            there,
            GitStep::<()>::Done(
                (),
                match created_branch {
                    Some(_) => checked + 2,
                    None => checked + 1,
                },
            ),
        ),
{
    lemma_git_is_run_without_hooks(
        source.repo_root,
        seq!["worktree"@, "remove"@, candidate.repo_root],
        Seq::empty(),
        host,
        answers,
        checked,
        there,
    );
    if there > checked {
        if let Some(branch) = created_branch {
            lemma_git_is_run_without_hooks(
                source.repo_root,
                seq!["branch"@, "-D"@, branch],
                Seq::empty(),
                host,
                answers,
                checked + 1,
                there,
            );
        }
    }
}

/// Removing waits and fails as the checks before it do, and where git refuses to remove the
/// worktree, as git does: then no branch is deleted.
#[verifier::spinoff_prover]
pub proof fn lemma_removing_goes_as_its_checks(
    repository_path: Seq<char>,
    worktree_path: Seq<char>,
    created_branch: Option<Seq<char>>,
    host: HostKind,
    answers: Seq<GitAnswer>,
    at: int,
)
    ensures
        inspect_step(repository_path, host, answers, at) matches Step::Ask(ask) ==> remove_step(
            repository_path,
            worktree_path,
            host,
            answers,
            at,
        ) == GitStep::<()>::Ask(ask) && remove_created_step(
            repository_path,
            worktree_path,
            created_branch,
            host,
            answers,
            at,
        ) == GitStep::<()>::Ask(ask),
        inspect_step(repository_path, host, answers, at) matches Step::Failed(error, used)
            ==> remove_step(repository_path, worktree_path, host, answers, at) == GitStep::<
            (),
        >::Failed(error, used) && remove_created_step(
            repository_path,
            worktree_path,
            created_branch,
            host,
            answers,
            at,
        ) == GitStep::<()>::Failed(error, used),
        inspect_step(repository_path, host, answers, at) matches Step::Done(source, used) ==> {
            let check = managed_same_repository_step(source, worktree_path, host, answers, used);
            &&& check matches Step::Ask(ask) ==> remove_step(
                repository_path,
                worktree_path,
                host,
                answers,
                at,
            ) == GitStep::<()>::Ask(ask) && remove_created_step(
                repository_path,
                worktree_path,
                created_branch,
                host,
                answers,
                at,
            ) == GitStep::<()>::Ask(ask)
            &&& check matches Step::Failed(error, used) ==> remove_step(
                repository_path,
                worktree_path,
                host,
                answers,
                at,
            ) == GitStep::<()>::Failed(error, used) && remove_created_step(
                repository_path,
                worktree_path,
                created_branch,
                host,
                answers,
                at,
            ) == GitStep::<()>::Failed(error, used)
            &&& check matches Step::Done(candidate, used) ==> (0 <= used < answers.len() ==> (
            run_failure(
                git_in(
                    source.repo_root,
                    host,
                    seq!["worktree"@, "remove"@, candidate.repo_root],
                    Seq::empty(),
                ),
                answers[used],
            ) matches Some(error) ==> remove_step(
                repository_path,
                worktree_path,
                host,
                answers,
                at,
            ) == GitStep::<()>::Failed(error, used + 1) && remove_created_step(
                repository_path,
                worktree_path,
                created_branch,
                host,
                answers,
                at,
            ) == GitStep::<()>::Failed(error, used + 1)))
        },
{
    if let Step::Done(source, used) = inspect_step(repository_path, host, answers, at) {
        if let Step::Done(candidate, used) = managed_same_repository_step(
            source,
            worktree_path,
            host,
            answers,
            used,
        ) {
            if 0 <= used < answers.len() {
                assert(answers.take(answers.len() as int) =~= answers);
                lemma_git_is_run_without_hooks(
                    source.repo_root,
                    seq!["worktree"@, "remove"@, candidate.repo_root],
                    Seq::empty(),
                    host,
                    answers,
                    used,
                    answers.len() as int,
                );
            }
        }
    }
}

/// Making sure of the directory of the managed worktrees waits and fails as each of its steps does;
/// and it fails where that directory does not resolve to a place under the common directory.
#[verifier::spinoff_prover]
pub proof fn lemma_making_the_base_goes_as_its_steps(
    source: InfoView,
    answers: Seq<GitAnswer>,
    at: int,
)
    ensures
        goes_as(
            managed_base_step(source, managed_dir(source.common_dir), answers, at),
            canonicalize_step(source.common_dir, answers, at),
        ),
        canonicalize_step(source.common_dir, answers, at) matches Step::Done(common, used) ==> {
            let dir = managed_dir(source.common_dir);
            let upper = managed_dir_step(parent_of(dir)->0, common, answers, used);
            &&& goes_as(managed_base_step(source, dir, answers, at), upper)
            &&& upper matches Step::Done(parent, used) ==> {
                let lower = managed_dir_step(dir, parent, answers, used);
                &&& goes_as(managed_base_step(source, dir, answers, at), lower)
                &&& lower matches Step::Done(base, used) ==> (!path_starts_with(base, common)
                    ==> managed_base_step(source, dir, answers, at) == GitStep::<Seq<char>>::Failed(
                    GitErrorView::ManagedWorktreePathEscapes { path: base, base: dir },
                    used,
                ))
            }
        },
{
    lemma_managed_worktrees_are_below_the_common_directory(source.common_dir);
}

/// Adding a worktree waits and fails as looking for its filters and its branch does, and as git
/// does that adds it; and checking a checkout as its inspection.
#[verifier::spinoff_prover]
pub proof fn lemma_adding_goes_as_its_steps(
    repo_root: Seq<char>,
    target: Seq<char>,
    name: Seq<char>,
    host: HostKind,
    answers: Seq<GitAnswer>,
    at: int,
    expected: InfoView,
)
    ensures
        goes_as(
            add_step(repo_root, target, name, host, answers, at),
            filter_env_step(repo_root, host, answers, at),
        ),
        filter_env_step(repo_root, host, answers, at) matches Step::Done(env, used) ==> {
            &&& goes_as(
                add_step(repo_root, target, name, host, answers, at),
                branch_exists_step(repo_root, name, host, answers, used),
            )
            &&& branch_exists_step(repo_root, name, host, answers, used) matches Step::Done(
                is_there,
                used,
            ) ==> goes_as(
                add_step(repo_root, target, name, host, answers, at),
                git_status_step(
                    repo_root,
                    if is_there {
                        seq!["worktree"@, "add"@, target, name]
                    } else {
                        seq!["worktree"@, "add"@, "-b"@, name, target, "HEAD"@]
                    },
                    env,
                    host,
                    answers,
                    used,
                ),
            )
        },
        goes_as(
            same_repository_step(expected, target, host, answers, at),
            inspect_step(target, host, answers, at),
        ),
        goes_as(
            managed_same_repository_step(expected, target, host, answers, at),
            same_repository_step(expected, target, host, answers, at),
        ),
        same_repository_step(expected, target, host, answers, at) matches Step::Done(_, used)
            ==> goes_as(
            managed_same_repository_step(expected, target, host, answers, at),
            canonicalize_step(managed_dir(expected.common_dir), answers, used),
        ),
{
}

} // verus!
