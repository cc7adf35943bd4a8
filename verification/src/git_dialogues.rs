//! What git is asked in turn, and what its answers come to.

use vstd::prelude::*;
use vstd::string::*;
use vstd::utf8::*;

use crate::encoding::lossy_utf8;
use crate::errors::GitErrorView;
use crate::operations::{
    canonicalize_step, ensure_git_repository_step, git_status_step, git_stdout_step, hook_free_args,
    resolve_head_step, run_git_step, GitAnswer, GitAsk, GitStep, HostKind, RunView,
};
use crate::paths::{is_same_path, joined_path};
use crate::progress::Step;
use crate::text::trimmed;
use crate::worktree::{
    current_branch_step, git_dir_step, inspect_step, root_step, same_repository_step, InfoView,
};

verus! {

/// The next step of a procedure that asks in turn from a given place on, when so many answers are
/// there: the next question, and once all are answered the end.
pub open spec fn turn<Q, E, T>(
    asks: Seq<Q>,
    at: int,
    there: int,
    end: Step<Q, E, T>,
) -> Step<Q, E, T> {
    if there < at + asks.len() {
        Step::Ask(asks[there - at])
    } else {
        end
    }
}

/// A procedure waits for what a part of it waits for, and fails as that does.
pub open spec fn goes_as<Q, E, S, T>(whole: Step<Q, E, T>, part: Step<Q, E, S>) -> bool {
    &&& part matches Step::Ask(ask) ==> whole == Step::<Q, E, T>::Ask(ask)
    &&& part matches Step::Failed(error, used) ==> whole == Step::<Q, E, T>::Failed(error, used)
}

/// A git command in a directory. Git is told to look for hooks at the null device of the host.
pub open spec fn git_in(
    dir: Seq<char>,
    host: HostKind,
    args: Seq<Seq<char>>,
    env: Seq<(Seq<char>, Seq<char>)>,
) -> GitAsk {
    GitAsk::RunGit {
        dir,
        args: seq![
            "-c"@,
            if host is Windows {
                "core.hooksPath=NUL"@
            } else {
                "core.hooksPath=/dev/null"@
            },
        ] + args,
        env,
    }
}

/// The words of a command line, with a space between each two of them.
pub open spec fn with_spaces(first: Seq<char>, rest: Seq<Seq<char>>) -> Seq<char>
    decreases rest.len(),
{
    if rest.len() == 0 {
        first
    } else {
        with_spaces(first, rest.drop_last()) + seq![' '] + rest.last()
    }
}

/// The command line that a message shows of a question to git.
pub open spec fn shown(ask: GitAsk) -> Seq<char> {
    with_spaces("git"@, ask->args)
}

/// Git ended with success.
pub open spec fn succeeds(answer: GitAnswer) -> bool {
    answer matches GitAnswer::Ran(Ok(output)) && output.success
}

/// Git ended with success and printed a text.
pub open spec fn prints(answer: GitAnswer, text: Seq<char>) -> bool {
    answer matches GitAnswer::Ran(Ok(output)) && output.success && valid_utf8(output.stdout)
        && decode_utf8(output.stdout) == text
}

/// What an answer says is wrong, where git could not be run or ended without success.
pub open spec fn run_failure(ask: GitAsk, answer: GitAnswer) -> Option<GitErrorView> {
    match answer {
        GitAnswer::Ran(Ok(output)) => if output.success {
            None
        } else {
            Some(
                GitErrorView::GitCommand {
                    command: shown(ask),
                    status: output.status,
                    stderr: trimmed(lossy_utf8(output.stderr)),
                },
            )
        },
        GitAnswer::Ran(Err(failure)) => Some(GitErrorView::Io(failure.text)),
        _ => None,
    }
}

/// What an answer says is wrong, where the output of git is read: it has to be a text.
pub open spec fn read_failure(ask: GitAsk, answer: GitAnswer) -> Option<GitErrorView> {
    match answer {
        GitAnswer::Ran(Ok(output)) => if output.success && !valid_utf8(output.stdout) {
            Some(GitErrorView::GitOutputUtf8 { command: shown(ask) })
        } else {
            run_failure(ask, answer)
        },
        _ => run_failure(ask, answer),
    }
}

proof fn lemma_command_lines(first: Seq<char>, rest: Seq<Seq<char>>)
    ensures
        with_spaces(first, rest) == first + crate::operations::spaced(rest),
    decreases rest.len(),
{
    reveal_strlit(" ");
    assert(" "@ =~= seq![' ']);
    if rest.len() == 0 {
        assert(first + Seq::<char>::empty() =~= first);
    } else {
        lemma_command_lines(first, rest.drop_last());
        assert(with_spaces(first, rest) =~= first + crate::operations::spaced(rest));
    }
}

/// A git command is asked for once, with no hooks. Its output is what it comes to where it ended
/// with success, and otherwise it fails with what the answer says.
pub proof fn lemma_git_is_run_without_hooks(
    dir: Seq<char>,
    args: Seq<Seq<char>>,
    env: Seq<(Seq<char>, Seq<char>)>,
    host: HostKind,
    answers: Seq<GitAnswer>,
    at: int,
    there: int,
)
    requires
        0 <= at < answers.len(),
        at <= there <= answers.len(),
    ensures
        there == at ==> run_git_step(dir, args, env, host, answers.take(there), at) == GitStep::<
            RunView,
        >::Ask(git_in(dir, host, args, env)),
        there > at && succeeds(answers[at]) ==> (run_git_step(
            dir,
            args,
            env,
            host,
            answers.take(there),
            at,
        ) matches Step::Done(run, used) && run.command == shown(git_in(dir, host, args, env))
            && run.stdout == answers[at]->Ran_0->Ok_0.stdout && used == at + 1),
        there > at && succeeds(answers[at]) ==> git_status_step(
            dir,
            args,
            env,
            host,
            answers.take(there),
            at,
        ) == GitStep::<()>::Done((), at + 1),
        run_failure(git_in(dir, host, args, env), answers[at]) matches Some(error) ==> there > at
            ==> git_status_step(dir, args, env, host, answers.take(there), at)
                == GitStep::<()>::Failed(error, at + 1) && (run_git_step(
            dir,
            args,
            env,
            host,
            answers.take(there),
            at,
        ) matches Step::Failed(failed, used) && failed == error && used == at + 1),
{
    let ask = git_in(dir, host, args, env);
    assert(ask->args == hook_free_args(host, args));
    lemma_command_lines("git"@, ask->args);
}

/// Where the output of git is read it comes to the printed text without the blanks around it.
pub proof fn lemma_git_is_read(
    dir: Seq<char>,
    args: Seq<Seq<char>>,
    host: HostKind,
    answers: Seq<GitAnswer>,
    at: int,
    there: int,
    text: Seq<char>,
)
    requires
        0 <= at < answers.len(),
        at <= there <= answers.len(),
    ensures
        there == at
            ==> git_stdout_step(dir, args, host, answers.take(there), at) == GitStep::<Seq<char>>::Ask(git_in(dir, host, args, Seq::empty())),
        there > at && prints(answers[at], text) ==> git_stdout_step(
            dir,
            args,
            host,
            answers.take(there),
            at,
        ) == GitStep::<Seq<char>>::Done(trimmed(text), at + 1),
        read_failure(git_in(dir, host, args, Seq::empty()), answers[at]) matches Some(error)
            ==> there > at
                ==> git_stdout_step(dir, args, host, answers.take(there), at) == GitStep::<Seq<char>>::Failed(error, at + 1),
{
    lemma_git_is_run_without_hooks(dir, args, Seq::empty(), host, answers, at, there);
}

/// A path is resolved in one step, and fails as the resolving does.
pub proof fn lemma_a_path_is_resolved(
    path: Seq<char>,
    answers: Seq<GitAnswer>,
    at: int,
    there: int,
)
    requires
        0 <= at < answers.len(),
        at <= there <= answers.len(),
    ensures
        there == at
            ==> canonicalize_step(path, answers.take(there), at) == GitStep::<Seq<char>>::Ask(GitAsk::Canonicalize(path)),
        answers[at] matches GitAnswer::Canonical(Ok(canonical)) ==> there > at
            ==> canonicalize_step(path, answers.take(there), at)
                == GitStep::<Seq<char>>::Done(canonical, at + 1),
        answers[at] matches GitAnswer::Canonical(Err(failure)) ==> there > at
            ==> canonicalize_step(path, answers.take(there), at)
                == GitStep::<Seq<char>>::Failed(GitErrorView::Io(failure.text), at + 1),
{
}

/// What git prints when a checkout is inspected.
pub struct Printed {
    pub inside: Seq<char>,
    pub root: Seq<char>,
    pub git_dir: Seq<char>,
    pub common_dir: Seq<char>,
    pub branch: Seq<char>,
}

/// The questions of an inspection, in turn.
pub open spec fn inspection(path: Seq<char>, host: HostKind, printed: Printed) -> Seq<GitAsk> {
    let none = Seq::<(Seq<char>, Seq<char>)>::empty();
    seq![
        git_in(path, host, seq!["rev-parse"@, "--is-inside-work-tree"@], none),
        git_in(path, host, seq!["rev-parse"@, "--show-toplevel"@], none),
        GitAsk::Canonicalize(joined_path(path, trimmed(printed.root))),
        git_in(path, host, seq!["rev-parse"@, "--path-format=absolute"@, "--git-dir"@], none),
        GitAsk::Canonicalize(joined_path(path, trimmed(printed.git_dir))),
        git_in(path, host, seq!["rev-parse"@, "--path-format=absolute"@, "--git-common-dir"@], none),
        GitAsk::Canonicalize(joined_path(path, trimmed(printed.common_dir))),
        git_in(path, host, seq!["rev-parse"@, "--abbrev-ref"@, "HEAD"@], none),
    ]
}

/// The first answers of an inspection are successes that print these texts and resolve to these
/// paths.
pub open spec fn inspection_goes_well(
    answers: Seq<GitAnswer>,
    at: int,
    count: int,
    printed: Printed,
    info: InfoView,
) -> bool {
    &&& count > 0 ==> prints(answers[at], printed.inside) && trimmed(printed.inside) == "true"@
    &&& count > 1 ==> prints(answers[at + 1], printed.root)
    &&& count > 2 ==> answers[at + 2] == GitAnswer::Canonical(Ok(info.repo_root))
    &&& count > 3 ==> prints(answers[at + 3], printed.git_dir)
    &&& count > 4 ==> answers[at + 4] == GitAnswer::Canonical(Ok(info.git_dir))
    &&& count > 5 ==> prints(answers[at + 5], printed.common_dir)
    &&& count > 6 ==> answers[at + 6] == GitAnswer::Canonical(Ok(info.common_dir))
    &&& count > 7 ==> prints(answers[at + 7], printed.branch)
}

/// The branch that an inspection reports: the one that git prints, as it prints it, and none where
/// git prints nothing or says that no branch is checked out.
pub open spec fn reported_branch(printed: Seq<char>) -> Option<Seq<char>> {
    if trimmed(printed) == "HEAD"@ || trimmed(printed) == Seq::<char>::empty() {
        None
    } else {
        Some(trimmed(printed))
    }
}

proof fn lemma_trimmed_twice(text: Seq<char>)
    ensures
        trimmed(trimmed(text)) == trimmed(text),
{
    crate::text::lemma_trimming_takes_off_the_blanks(text);
    crate::text::lemma_trimming_leaves_the_text(Seq::empty(), trimmed(text), Seq::empty());
    assert(Seq::<char>::empty() + trimmed(text) + Seq::<char>::empty() =~= trimmed(text));
}

#[verifier::spinoff_prover]
proof fn lemma_inspection_begins(
    path: Seq<char>,
    host: HostKind,
    answers: Seq<GitAnswer>,
    at: int,
    there: int,
    printed: Seq<char>,
)
    requires
        0 <= at < answers.len(),
        at <= there <= answers.len(),
    ensures
        there == at
            ==> ensure_git_repository_step(path, host, answers.take(there), at) == GitStep::<()>::Ask(
            git_in(path, host, seq!["rev-parse"@, "--is-inside-work-tree"@], Seq::empty()),
        ),
        there > at && prints(answers[at], printed) && trimmed(printed) == "true"@
            ==> ensure_git_repository_step(path, host, answers.take(there), at)
                == GitStep::<()>::Done((), at + 1),
        there > at && prints(answers[at], printed) && trimmed(printed) != "true"@
            ==> ensure_git_repository_step(path, host, answers.take(there), at)
                == GitStep::<()>::Failed(GitErrorView::NotAGitRepository { path }, at + 1),
        read_failure(
            git_in(path, host, seq!["rev-parse"@, "--is-inside-work-tree"@], Seq::empty()),
            answers[at],
        ) matches Some(error) ==> there > at ==> ensure_git_repository_step(
            path,
            host,
            answers.take(there),
            at,
        ) == GitStep::<()>::Failed(
            if error matches GitErrorView::GitCommand { command: _, status, stderr: _ }
                && status.code == Some(128i32) {
                GitErrorView::NotAGitRepository { path }
            } else {
                error
            },
            at + 1,
        ),
{
    let args = seq!["rev-parse"@, "--is-inside-work-tree"@];
    lemma_git_is_read(path, args, host, answers, at, there, printed);
    lemma_trimmed_twice(printed);
}

#[verifier::spinoff_prover]
proof fn lemma_root_is_found(
    path: Seq<char>,
    host: HostKind,
    answers: Seq<GitAnswer>,
    at: int,
    there: int,
    printed: Seq<char>,
    root: Seq<char>,
)
    requires
        0 <= at,
        at + 1 < answers.len(),
        at <= there <= answers.len(),
        there > at ==> prints(answers[at], printed),
        there > at + 1 ==> answers[at + 1] == GitAnswer::Canonical(Ok(root)),
    ensures
        root_step(path, host, answers.take(there), at) == turn(
            seq![
                git_in(path, host, seq!["rev-parse"@, "--show-toplevel"@], Seq::empty()),
                GitAsk::Canonicalize(joined_path(path, trimmed(printed))),
            ],
            at,
            there,
            GitStep::<Seq<char>>::Done(root, at + 2),
        ),
{
    let args = seq!["rev-parse"@, "--show-toplevel"@];
    lemma_git_is_read(path, args, host, answers, at, there, printed);
    if there > at {
        lemma_a_path_is_resolved(joined_path(path, trimmed(printed)), answers, at + 1, there);
    }
}

#[verifier::spinoff_prover]
proof fn lemma_git_directory_is_found(
    path: Seq<char>,
    which: Seq<char>,
    host: HostKind,
    answers: Seq<GitAnswer>,
    at: int,
    there: int,
    printed: Seq<char>,
    dir: Seq<char>,
)
    requires
        0 <= at,
        at + 1 < answers.len(),
        at <= there <= answers.len(),
        there > at ==> prints(answers[at], printed),
        there > at + 1 ==> answers[at + 1] == GitAnswer::Canonical(Ok(dir)),
    ensures
        git_dir_step(path, which, host, answers.take(there), at) == turn(
            seq![
                git_in(
                    path,
                    host,
                    seq!["rev-parse"@, "--path-format=absolute"@, which],
                    Seq::empty(),
                ),
                GitAsk::Canonicalize(joined_path(path, trimmed(printed))),
            ],
            at,
            there,
            GitStep::<Seq<char>>::Done(dir, at + 2),
        ),
{
    let args = seq!["rev-parse"@, "--path-format=absolute"@, which];
    lemma_git_is_read(path, args, host, answers, at, there, printed);
    if there > at {
        lemma_a_path_is_resolved(joined_path(path, trimmed(printed)), answers, at + 1, there);
    }
}

#[verifier::spinoff_prover]
proof fn lemma_branch_is_found(
    path: Seq<char>,
    host: HostKind,
    answers: Seq<GitAnswer>,
    at: int,
    there: int,
    printed: Seq<char>,
)
    requires
        0 <= at < answers.len(),
        at <= there <= answers.len(),
        there > at ==> prints(answers[at], printed),
    ensures
        current_branch_step(path, host, answers.take(there), at) == turn(
            seq![
                git_in(
                    path,
                    host,
                    seq!["rev-parse"@, "--abbrev-ref"@, "HEAD"@],
                    Seq::empty(),
                ),
            ],
            at,
            there,
            GitStep::<Option<Seq<char>>>::Done(
                reported_branch(printed),
                at + 1,
            ),
        ),
{
    let args = seq!["rev-parse"@, "--abbrev-ref"@, "HEAD"@];
    lemma_git_is_read(path, args, host, answers, at, there, printed);
    assert(trimmed(printed).len() == 0 <==> trimmed(printed) =~= Seq::<char>::empty());
}

/// An inspection asks git, in turn, whether the directory is in a work tree, for the root, for the
/// git directory, for the common directory and for the branch, and has each path resolved. What it
/// reports is what git prints: the resolved paths, and the whole name of the branch.
#[verifier::spinoff_prover]
pub proof fn lemma_an_inspection_reports_what_git_prints(
    path: Seq<char>,
    host: HostKind,
    answers: Seq<GitAnswer>,
    at: int,
    there: int,
    printed: Printed,
    info: InfoView,
)
    requires
        0 <= at,
        at + 8 <= answers.len(),
        at <= there <= answers.len(),
        inspection_goes_well(answers, at, there - at, printed, info),
        info.current_branch == reported_branch(printed.branch),
    ensures
        inspect_step(path, host, answers.take(there), at) == turn(
            inspection(path, host, printed),
            at,
            there,
            GitStep::<InfoView>::Done(info, at + 8),
        ),
{
    lemma_inspection_begins(path, host, answers, at, there, printed.inside);
    if there > at {
        lemma_root_is_found(path, host, answers, at + 1, there, printed.root, info.repo_root);
    }
    if there > at + 2 {
        lemma_git_directory_is_found(
            path,
            "--git-dir"@,
            host,
            answers,
            at + 3,
            there,
            printed.git_dir,
            info.git_dir,
        );
    }
    if there > at + 4 {
        lemma_git_directory_is_found(
            path,
            "--git-common-dir"@,
            host,
            answers,
            at + 5,
            there,
            printed.common_dir,
            info.common_dir,
        );
    }
    if there > at + 6 {
        lemma_branch_is_found(path, host, answers, at + 7, there, printed.branch);
    }
}

/// What an answer to a question of an inspection says is wrong.
pub open spec fn inspection_failure(
    path: Seq<char>,
    ask: GitAsk,
    answer: GitAnswer,
    is_first: bool,
) -> Option<GitErrorView> {
    match answer {
        GitAnswer::Canonical(Err(failure)) => Some(GitErrorView::Io(failure.text)),
        GitAnswer::Canonical(Ok(_)) => None,
        _ => match read_failure(ask, answer) {
            Some(error) => if is_first && (error matches GitErrorView::GitCommand {
                command: _,
                status,
                stderr: _,
            } && status.code == Some(128i32)) {
                Some(GitErrorView::NotAGitRepository { path })
            } else {
                Some(error)
            },
            None => if is_first && answer is Ran && trimmed(
                decode_utf8(answer->Ran_0->Ok_0.stdout),
            ) != "true"@ {
                Some(GitErrorView::NotAGitRepository { path })
            } else {
                None
            },
        },
    }
}

/// An inspection ends at the first answer that is no success, with what that answer says: the
/// directory is in no repository where git ends the first question with 128 or does not print
/// that it is.
#[verifier::spinoff_prover]
pub proof fn lemma_an_inspection_ends_at_a_failure(
    path: Seq<char>,
    host: HostKind,
    answers: Seq<GitAnswer>,
    at: int,
    count: int,
    printed: Printed,
    info: InfoView,
    error: GitErrorView,
)
    requires
        0 <= at,
        0 <= count < 8,
        at + 8 <= answers.len(),
        inspection_goes_well(answers, at, count, printed, info),
        inspection(path, host, printed)[count] is Canonicalize <==> answers[at + count] is Canonical,
        inspection(path, host, printed)[count] is RunGit <==> answers[at + count] is Ran,
        inspection_failure(
            path,
            inspection(path, host, printed)[count],
            answers[at + count],
            count == 0,
        ) == Some(error),
    ensures
        inspect_step(path, host, answers, at) == GitStep::<InfoView>::Failed(
            error,
            at + count + 1,
        ),
{
    let there = answers.len() as int;
    assert(answers.take(there) =~= answers);
    let none = Seq::<(Seq<char>, Seq<char>)>::empty();
    let first = answers[at];
    lemma_inspection_begins(
        path,
        host,
        answers,
        at,
        there,
        decode_utf8(first->Ran_0->Ok_0.stdout),
    );
    if count >= 1 {
        lemma_inspection_begins(path, host, answers, at, there, printed.inside);
        let args = seq!["rev-parse"@, "--show-toplevel"@];
        lemma_git_is_read(path, args, host, answers, at + 1, there, printed.root);
    }
    if count >= 2 {
        lemma_a_path_is_resolved(
            joined_path(path, trimmed(printed.root)),
            answers,
            at + 2,
            there,
        );
    }
    let args = seq!["rev-parse"@, "--path-format=absolute"@, "--git-dir"@];
    if count >= 3 {
        lemma_git_is_read(path, args, host, answers, at + 3, there, printed.git_dir);
    }
    if count >= 4 {
        lemma_a_path_is_resolved(
            joined_path(path, trimmed(printed.git_dir)),
            answers,
            at + 4,
            there,
        );
    }
    let args = seq!["rev-parse"@, "--path-format=absolute"@, "--git-common-dir"@];
    if count >= 5 {
        lemma_git_is_read(path, args, host, answers, at + 5, there, printed.common_dir);
    }
    if count >= 6 {
        lemma_a_path_is_resolved(
            joined_path(path, trimmed(printed.common_dir)),
            answers,
            at + 6,
            there,
        );
    }
    let args = seq!["rev-parse"@, "--abbrev-ref"@, "HEAD"@];
    if count >= 7 {
        lemma_git_is_read(path, args, host, answers, at + 7, there, printed.branch);
    }
}

/// The commit that is checked out is what git prints for it; where git ends with 128 there is none,
/// and it fails with any other failure.
pub proof fn lemma_the_head_is_what_git_prints(
    path: Seq<char>,
    host: HostKind,
    answers: Seq<GitAnswer>,
    at: int,
    there: int,
    printed: Seq<char>,
)
    requires
        0 <= at < answers.len(),
        at <= there <= answers.len(),
    ensures
        there == at ==> resolve_head_step(path, host, answers.take(there), at) == GitStep::<Option<Seq<char>>>::Ask(git_in(path, host, seq!["rev-parse"@, "--verify"@, "HEAD"@], Seq::empty())),
        there > at && prints(answers[at], printed) ==> resolve_head_step(
            path,
            host,
            answers.take(there),
            at,
        ) == GitStep::<Option<Seq<char>>>::Done(
            Some(trimmed(printed)),
            at + 1,
        ),
        read_failure(
            git_in(path, host, seq!["rev-parse"@, "--verify"@, "HEAD"@], Seq::empty()),
            answers[at],
        ) matches Some(error) ==> there > at ==> resolve_head_step(
            path,
            host,
            answers.take(there),
            at,
        ) == (if error matches GitErrorView::GitCommand { command: _, status, stderr: _ }
            && status.code == Some(128i32) {
            GitStep::<Option<Seq<char>>>::Done(None, at + 1)
        } else {
            Step::Failed(error, at + 1)
        }),
{
    lemma_git_is_read(
        path,
        seq!["rev-parse"@, "--verify"@, "HEAD"@],
        host,
        answers,
        at,
        there,
        printed,
    );
}

/// A checkout belongs to a repository exactly where its common directory is the one of the
/// repository; and otherwise it fails with the root of the checkout and both directories.
pub proof fn lemma_a_checkout_belongs_by_its_common_directory(
    expected: InfoView,
    candidate_path: Seq<char>,
    host: HostKind,
    answers: Seq<GitAnswer>,
    at: int,
    info: InfoView,
    used: int,
)
    requires
        inspect_step(candidate_path, host, answers, at) == GitStep::<InfoView>::Done(info, used),
    ensures
        is_same_path(info.common_dir, expected.common_dir) ==> same_repository_step(
            expected,
            candidate_path,
            host,
            answers,
            at,
        ) == GitStep::<InfoView>::Done(info, used),
        !is_same_path(info.common_dir, expected.common_dir) ==> same_repository_step(
            expected,
            candidate_path,
            host,
            answers,
            at,
        ) == GitStep::<InfoView>::Failed(
            GitErrorView::WorktreeRepositoryMismatch {
                path: info.repo_root,
                expected_common_dir: expected.common_dir,
                actual_common_dir: info.common_dir,
            },
            used,
        ),
{
}

} // verus!
