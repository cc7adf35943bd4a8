//! Git commands: how they are put together and what their results mean.

use vstd::prelude::*;
use vstd::string::*;
use vstd::utf8::*;

use crate::encoding::{lossy_text, lossy_utf8, utf8_text};
use crate::errors::{
    io_error, ExitStatus, GitErrorView, GitToolingError, IoFailure, IoFailureView, StatusView,
};
use crate::progress::{Progress, Step};
use crate::text::{
    concat3, list2, list3, push_text, same_text, trim, trimmed,
};

verus! {

/// What a finished git process left behind.
pub struct GitOutput {
    /// The process ended with success.
    pub success: bool,
    pub status: ExitStatus,
    pub stdout: Vec<u8>,
    pub stderr: Vec<u8>,
}

/// What a git procedure needs done.
pub enum GitRequest {
    /// Run `git` with these arguments in a directory, with these variables added to its environment.
    RunGit { dir: String, args: Vec<String>, env: Vec<(String, String)> },
    /// Resolve a path to its canonical, absolute form.
    Canonicalize(String),
    /// Look whether something stands at a path, without following a symbolic link there.
    LookUp(String),
    /// Create a directory.
    CreateDir(String),
}

/// The answer to a request.
pub enum GitReply {
    Ran(Result<GitOutput, IoFailure>),
    Canonical(Result<String, IoFailure>),
    Found(Result<(), IoFailure>),
    DirCreated(Result<(), IoFailure>),
}

/// A finished git process, in specifications.
pub struct OutputView {
    pub success: bool,
    pub status: StatusView,
    pub stdout: Seq<u8>,
    pub stderr: Seq<u8>,
}

/// A request, in specifications.
pub enum GitAsk {
    RunGit { dir: Seq<char>, args: Seq<Seq<char>>, env: Seq<(Seq<char>, Seq<char>)> },
    Canonicalize(Seq<char>),
    LookUp(Seq<char>),
    CreateDir(Seq<char>),
}

/// An answer, in specifications.
pub enum GitAnswer {
    Ran(Result<OutputView, IoFailureView>),
    Canonical(Result<Seq<char>, IoFailureView>),
    Found(Result<(), IoFailureView>),
    DirCreated(Result<(), IoFailureView>),
}

impl DeepView for GitOutput {
    type V = OutputView;

    open spec fn deep_view(&self) -> OutputView {
        OutputView {
            success: self.success,
            status: self.status.deep_view(),
            stdout: self.stdout@,
            stderr: self.stderr@,
        }
    }
}

impl DeepView for GitRequest {
    type V = GitAsk;

    open spec fn deep_view(&self) -> GitAsk {
        match self {
            GitRequest::RunGit { dir, args, env } => GitAsk::RunGit {
                dir: dir@,
                args: args.deep_view(),
                env: env.deep_view(),
            },
            GitRequest::Canonicalize(path) => GitAsk::Canonicalize(path@),
            GitRequest::LookUp(path) => GitAsk::LookUp(path@),
            GitRequest::CreateDir(path) => GitAsk::CreateDir(path@),
        }
    }
}

impl DeepView for GitReply {
    type V = GitAnswer;

    open spec fn deep_view(&self) -> GitAnswer {
        match self {
            GitReply::Ran(Ok(output)) => GitAnswer::Ran(Ok(output.deep_view())),
            GitReply::Ran(Err(failure)) => GitAnswer::Ran(Err(failure.deep_view())),
            GitReply::Canonical(Ok(path)) => GitAnswer::Canonical(Ok(path@)),
            GitReply::Canonical(Err(failure)) => GitAnswer::Canonical(Err(failure.deep_view())),
            GitReply::Found(Ok(_)) => GitAnswer::Found(Ok(())),
            GitReply::Found(Err(failure)) => GitAnswer::Found(Err(failure.deep_view())),
            GitReply::DirCreated(Ok(_)) => GitAnswer::DirCreated(Ok(())),
            GitReply::DirCreated(Err(failure)) => GitAnswer::DirCreated(Err(failure.deep_view())),
        }
    }
}

/// How far a git procedure gets.
pub type GitProgress<T> = Progress<GitRequest, GitToolingError, T>;

/// How far a git procedure gets, in specifications.
pub type GitStep<T> = Step<GitAsk, GitErrorView, T>;

/// A git command that ended with success.
pub struct GitRun {
    /// The command line, for messages.
    pub command: String,
    pub stdout: Vec<u8>,
}

/// A successful command, in specifications.
pub struct RunView {
    pub command: Seq<char>,
    pub stdout: Seq<u8>,
}

impl DeepView for GitRun {
    type V = RunView;

    open spec fn deep_view(&self) -> RunView {
        RunView { command: self.command@, stdout: self.stdout@ }
    }
}

/// The kind of system that git runs on. It decides where git finds no hooks, and nothing else: paths
/// are taken as Unix writes them on either.
#[derive(Debug, Clone, Copy, PartialEq, Eq, Structural)]
pub enum HostKind {
    Unix,
    Windows,
}

/// The setting that makes git look for hooks where there are none: at the null device of the host.
pub open spec fn no_hooks_setting(host: HostKind) -> Seq<char> {
    match host {
        HostKind::Unix => "core.hooksPath=/dev/null"@,
        HostKind::Windows => "core.hooksPath=NUL"@,
    }
}

fn disabled_hooks_setting(host: HostKind) -> (setting: &'static str)
    ensures
        setting@ == no_hooks_setting(host),
{
    match host {
        HostKind::Unix => "core.hooksPath=/dev/null",
        HostKind::Windows => "core.hooksPath=NUL",
    }
}

/// The arguments that every command begins with: no hook of the repository is run.
pub open spec fn hook_free_args(host: HostKind, args: Seq<Seq<char>>) -> Seq<Seq<char>> {
    seq!["-c"@, no_hooks_setting(host)] + args
}

/// Texts, one after the other, with a space in front of each.
pub open spec fn spaced(args: Seq<Seq<char>>) -> Seq<char>
    decreases args.len(),
{
    if args.len() == 0 {
        Seq::empty()
    } else {
        spaced(args.drop_last()) + " "@ + args.last()
    }
}

/// The command line of `git` with arguments, for messages.
pub open spec fn command_line(args: Seq<Seq<char>>) -> Seq<char> {
    "git"@ + spaced(args)
}

/// The command line of `git` with `args`.
pub fn build_command_string(args: &Vec<String>) -> (command: String)
    ensures
        command@ == command_line(args.deep_view()),
{
    let mut command: String = "git".to_owned();
    let mut i: usize = 0;
    assert(args.deep_view().take(0) =~= Seq::<Seq<char>>::empty());
    assert("git"@ + Seq::<char>::empty() =~= "git"@);
    while i < args.len()
        invariant
            i <= args.len(),
            command@ == "git"@ + spaced(args.deep_view().take(i as int)),
        decreases args.len() - i,
    {
        proof {
            let next = args.deep_view().take(i + 1);
            assert(next.drop_last() =~= args.deep_view().take(i as int));
            assert(next.last() == args[i as int]@);
            assert("git"@ + (spaced(args.deep_view().take(i as int)) + " "@ + args[i as int]@)
                =~= "git"@ + spaced(args.deep_view().take(i as int)) + " "@ + args[i as int]@);
        }
        command = concat3(command.as_str(), " ", args[i].as_str());
        i += 1;
    }
    assert(args.deep_view().take(args.len() as int) =~= args.deep_view());
    command
}

/// The bytes again.
fn copy_bytes(bytes: &Vec<u8>) -> (copy: Vec<u8>)
    ensures
        copy@ == bytes@,
{
    let copy: Vec<u8> = bytes.clone();
    assert(copy@ =~= bytes@);
    copy
}

/// A copy of an exit status.
fn copy_status(status: &ExitStatus) -> (copy: ExitStatus)
    ensures
        copy.deep_view() == status.deep_view(),
{
    ExitStatus { code: status.code, text: status.text.clone() }
}

/// What a git command comes to: its output where it ended with success, and otherwise the error
/// with what it wrote on its error stream.
pub open spec fn run_git_step(
    dir: Seq<char>,
    args: Seq<Seq<char>>,
    env: Seq<(Seq<char>, Seq<char>)>,
    host: HostKind,
    answers: Seq<GitAnswer>,
    at: int,
) -> GitStep<RunView> {
    let command = command_line(hook_free_args(host, args));
    if 0 <= at < answers.len() && answers[at] is Ran {
        match answers[at]->Ran_0 {
            Ok(output) => if output.success {
                Step::Done(RunView { command, stdout: output.stdout }, at + 1)
            } else {
                Step::Failed(
                    GitErrorView::GitCommand {
                        command,
                        status: output.status,
                        stderr: trimmed(lossy_utf8(output.stderr)),
                    },
                    at + 1,
                )
            },
            Err(failure) => Step::Failed(GitErrorView::Io(failure.text), at + 1),
        }
    } else {
        Step::Ask(GitAsk::RunGit { dir, args: hook_free_args(host, args), env })
    }
}

/// Runs `git` in `dir`, with the hooks of the repository disabled.
pub fn run_git(
    dir: &str,
    args: Vec<String>,
    env: Vec<(String, String)>,
    host: HostKind,
    replies: &Vec<GitReply>,
    at: usize,
) -> (progress: GitProgress<GitRun>)
    ensures
        progress.deep_view() == run_git_step(
            dir@,
            args.deep_view(),
            env.deep_view(),
            host,
            replies.deep_view(),
            at as int,
        ),
{
    let mut all: Vec<String> = list2("-c", disabled_hooks_setting(host));
    let mut i: usize = 0;
    let ghost head = all.deep_view();
    assert(head + args.deep_view().take(0) =~= head);
    while i < args.len()
        invariant
            i <= args.len(),
            head == seq!["-c"@, no_hooks_setting(host)],
            all.deep_view() == head + args.deep_view().take(i as int),
        decreases args.len() - i,
    {
        push_text(&mut all, args[i].clone());
        assert((head + args.deep_view().take(i as int)).push(args[i as int]@) =~= head
            + args.deep_view().take(i + 1));
        i += 1;
    }
    assert(args.deep_view().take(args.len() as int) =~= args.deep_view());
    assert(all.deep_view() == hook_free_args(host, args.deep_view()));
    if at < replies.len() {
        assert(replies.deep_view()[at as int] == replies[at as int].deep_view());
        if let GitReply::Ran(result) = &replies[at] {
            let command: String = build_command_string(&all);
            return match result {
                Ok(output) => {
                    if output.success {
                        Progress::Done(
                            GitRun { command, stdout: copy_bytes(&output.stdout) },
                            at + 1,
                        )
                    } else {
                        let stderr: String = lossy_text(&output.stderr);
                        Progress::Failed(
                            GitToolingError::GitCommand {
                                command,
                                status: copy_status(&output.status),
                                stderr: trim(stderr.as_str()),
                            },
                            at + 1,
                        )
                    }
                },
                Err(failure) => Progress::Failed(io_error(failure), at + 1),
            };
        }
    }
    Progress::Ask(GitRequest::RunGit { dir: dir.to_owned(), args: all, env })
}

/// What a git command comes to of which only the success counts.
pub open spec fn git_status_step(
    dir: Seq<char>,
    args: Seq<Seq<char>>,
    env: Seq<(Seq<char>, Seq<char>)>,
    host: HostKind,
    answers: Seq<GitAnswer>,
    at: int,
) -> GitStep<()> {
    match run_git_step(dir, args, env, host, answers, at) {
        Step::Ask(ask) => Step::Ask(ask),
        Step::Failed(error, used) => Step::Failed(error, used),
        Step::Done(_, used) => Step::Done((), used),
    }
}

/// Runs `git` for its success.
pub fn run_git_for_status(
    dir: &str,
    args: Vec<String>,
    env: Vec<(String, String)>,
    host: HostKind,
    replies: &Vec<GitReply>,
    at: usize,
) -> (progress: GitProgress<()>)
    ensures
        progress.deep_view() == git_status_step(
            dir@,
            args.deep_view(),
            env.deep_view(),
            host,
            replies.deep_view(),
            at as int,
        ),
{
    match run_git(dir, args, env, host, replies, at) {
        Progress::Ask(ask) => Progress::Ask(ask),
        Progress::Failed(error, used) => Progress::Failed(error, used),
        Progress::Done(_, used) => Progress::Done((), used),
    }
}

/// No additions to the environment.
pub open spec fn no_env() -> Seq<(Seq<char>, Seq<char>)> {
    Seq::empty()
}

fn empty_env() -> (env: Vec<(String, String)>)
    ensures
        env.deep_view() == no_env(),
{
    let env: Vec<(String, String)> = Vec::new();
    assert(env.deep_view() =~= no_env());
    env
}

/// What a git command comes to of which the output counts: the output as text, without the white
/// space around it.
pub open spec fn git_stdout_step(
    dir: Seq<char>,
    args: Seq<Seq<char>>,
    host: HostKind,
    answers: Seq<GitAnswer>,
    at: int,
) -> GitStep<Seq<char>> {
    match run_git_step(dir, args, no_env(), host, answers, at) {
        Step::Ask(ask) => Step::Ask(ask),
        Step::Failed(error, used) => Step::Failed(error, used),
        Step::Done(run, used) => if valid_utf8(run.stdout) {
            Step::Done(trimmed(decode_utf8(run.stdout)), used)
        } else {
            Step::Failed(GitErrorView::GitOutputUtf8 { command: run.command }, used)
        },
    }
}

/// Runs `git` for its output.
pub fn run_git_for_stdout(
    dir: &str,
    args: Vec<String>,
    host: HostKind,
    replies: &Vec<GitReply>,
    at: usize,
) -> (progress: GitProgress<String>)
    ensures
        progress.deep_view() == git_stdout_step(
            dir@,
            args.deep_view(),
            host,
            replies.deep_view(),
            at as int,
        ),
{
    match run_git(dir, args, empty_env(), host, replies, at) {
        Progress::Ask(ask) => Progress::Ask(ask),
        Progress::Failed(error, used) => Progress::Failed(error, used),
        Progress::Done(run, used) => {
            let GitRun { command, stdout } = run;
            match utf8_text(stdout) {
                Some(text) => Progress::Done(trim(text.as_str()), used),
                None => Progress::Failed(GitToolingError::GitOutputUtf8 { command }, used),
            }
        },
    }
}

/// The error says that git ended with the given exit code.
pub open spec fn exited_with(error: GitErrorView, code: i32) -> bool {
    match error {
        GitErrorView::GitCommand { command: _, status, stderr: _ } => status.code == Some(code),
        _ => false,
    }
}

/// Whether git ended with the given exit code.
pub(crate) fn has_exit_code(error: &GitToolingError, code: i32) -> (is: bool)
    ensures
        is == exited_with(error.deep_view(), code),
{
    match error {
        GitToolingError::GitCommand { command: _, status, stderr: _ } => match status.code {
            Some(actual) => actual == code,
            None => false,
        },
        _ => false,
    }
}

/// Whether a directory is in a work tree: git has to say `true`; the exit code 128 and any other
/// output mean that it is in no repository.
pub open spec fn ensure_git_repository_step(
    path: Seq<char>,
    host: HostKind,
    answers: Seq<GitAnswer>,
    at: int,
) -> GitStep<()> {
    match git_stdout_step(path, seq!["rev-parse"@, "--is-inside-work-tree"@], host, answers, at) {
        Step::Ask(ask) => Step::Ask(ask),
        Step::Failed(error, used) => if exited_with(error, 128) {
            Step::Failed(GitErrorView::NotAGitRepository { path }, used)
        } else {
            Step::Failed(error, used)
        },
        Step::Done(output, used) => if trimmed(output) == "true"@ {
            Step::Done((), used)
        } else {
            Step::Failed(GitErrorView::NotAGitRepository { path }, used)
        },
    }
}

/// Fails where `path` is in no git work tree.
pub fn ensure_git_repository(
    path: &str,
    host: HostKind,
    replies: &Vec<GitReply>,
    at: usize,
) -> (progress: GitProgress<()>)
    ensures
        progress.deep_view() == ensure_git_repository_step(
            path@,
            host,
            replies.deep_view(),
            at as int,
        ),
{
    match run_git_for_stdout(path, list2("rev-parse", "--is-inside-work-tree"), host, replies, at) {
        Progress::Ask(ask) => Progress::Ask(ask),
        Progress::Failed(error, used) => {
            if has_exit_code(&error, 128) {
                Progress::Failed(
                    GitToolingError::NotAGitRepository { path: path.to_owned() },
                    used,
                )
            } else {
                Progress::Failed(error, used)
            }
        },
        Progress::Done(output, used) => {
            if same_text(trim(output.as_str()).as_str(), "true") {
                Progress::Done((), used)
            } else {
                Progress::Failed(
                    GitToolingError::NotAGitRepository { path: path.to_owned() },
                    used,
                )
            }
        },
    }
}

/// The commit that `HEAD` names; the exit code 128 means that there is none.
pub open spec fn resolve_head_step(
    path: Seq<char>,
    host: HostKind,
    answers: Seq<GitAnswer>,
    at: int,
) -> GitStep<Option<Seq<char>>> {
    match git_stdout_step(path, seq!["rev-parse"@, "--verify"@, "HEAD"@], host, answers, at) {
        Step::Ask(ask) => Step::Ask(ask),
        Step::Failed(error, used) => if exited_with(error, 128) {
            Step::Done(None, used)
        } else {
            Step::Failed(error, used)
        },
        Step::Done(sha, used) => Step::Done(Some(sha), used),
    }
}

/// Finds the commit that `HEAD` names in `path`.
pub fn resolve_head(
    path: &str,
    host: HostKind,
    replies: &Vec<GitReply>,
    at: usize,
) -> (progress: GitProgress<Option<String>>)
    ensures
        progress.deep_view() == resolve_head_step(path@, host, replies.deep_view(), at as int),
{
    match run_git_for_stdout(path, list3("rev-parse", "--verify", "HEAD"), host, replies, at) {
        Progress::Ask(ask) => Progress::Ask(ask),
        Progress::Failed(error, used) => {
            if has_exit_code(&error, 128) {
                Progress::Done(None, used)
            } else {
                Progress::Failed(error, used)
            }
        },
        Progress::Done(sha, used) => Progress::Done(Some(sha), used),
    }
}

/// The root of the work tree that holds a directory.
pub open spec fn repository_root_step(
    path: Seq<char>,
    host: HostKind,
    answers: Seq<GitAnswer>,
    at: int,
) -> GitStep<Seq<char>> {
    git_stdout_step(path, seq!["rev-parse"@, "--show-toplevel"@], host, answers, at)
}

/// Finds the root of the work tree that holds `path`.
pub fn resolve_repository_root(
    path: &str,
    host: HostKind,
    replies: &Vec<GitReply>,
    at: usize,
) -> (progress: GitProgress<String>)
    ensures
        progress.deep_view() == repository_root_step(path@, host, replies.deep_view(), at as int),
{
    run_git_for_stdout(path, list2("rev-parse", "--show-toplevel"), host, replies, at)
}

/// What resolving a path comes to.
pub open spec fn canonicalize_step(path: Seq<char>, answers: Seq<GitAnswer>, at: int) -> GitStep<
    Seq<char>,
> {
    if 0 <= at < answers.len() && answers[at] is Canonical {
        match answers[at]->Canonical_0 {
            Ok(canonical) => Step::Done(canonical, at + 1),
            Err(failure) => Step::Failed(GitErrorView::Io(failure.text), at + 1),
        }
    } else {
        Step::Ask(GitAsk::Canonicalize(path))
    }
}

/// Resolves `path` to its canonical form.
pub fn canonicalize(path: &str, replies: &Vec<GitReply>, at: usize) -> (progress: GitProgress<
    String,
>)
    ensures
        progress.deep_view() == canonicalize_step(path@, replies.deep_view(), at as int),
{
    if at < replies.len() {
        assert(replies.deep_view()[at as int] == replies[at as int].deep_view());
        if let GitReply::Canonical(result) = &replies[at] {
            return match result {
                Ok(canonical) => Progress::Done(canonical.clone(), at + 1),
                Err(failure) => Progress::Failed(io_error(failure), at + 1),
            };
        }
    }
    Progress::Ask(GitRequest::Canonicalize(path.to_owned()))
}

} // verus!
