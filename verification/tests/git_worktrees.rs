//! Managed worktrees, run against a repository that is kept in memory.

use codex_worktree::errors::{ExitStatus, GitToolingError, IoFailure};
use codex_worktree::filters::{checkout_filter_config_env_overrides, environment_without_filters};
use codex_worktree::managed::{
    create_or_reuse_managed_worktree, remove_created_managed_worktree, remove_managed_worktree,
    ManagedWorktree,
};
use codex_worktree::operations::{
    build_command_string, ensure_git_repository, resolve_head, run_git_for_stdout, GitOutput,
    GitReply, GitRequest, HostKind,
};
use codex_worktree::progress::Progress;
use codex_worktree::worktree::{
    inspect_worktree, managed_worktree_path, managed_worktrees_dir,
    validate_managed_same_repository_worktree_with_info,
    validate_same_repository_worktree_with_info, WorktreeInfo,
};

const REPO: &str = "/work/repo";

struct Checkout {
    root: String,
    git_dir: String,
    common_dir: String,
    branch: String,
    dirty: bool,
}

struct World {
    dirs: Vec<String>,
    links: Vec<(String, String)>,
    checkouts: Vec<Checkout>,
    branches: Vec<(String, String)>,
    filter_keys: Vec<String>,
    commands: Vec<(String, Vec<String>, Vec<(String, String)>)>,
    created_dirs: Vec<String>,
}

fn text(value: &str) -> String {
    value.to_string()
}

fn below(path: &str, base: &str) -> bool {
    path == base || path.starts_with(&format!("{base}/"))
}

fn ok_output(stdout: &str) -> GitReply {
    GitReply::Ran(Ok(GitOutput {
        success: true,
        status: ExitStatus { code: Some(0), text: text("exit status: 0") },
        stdout: stdout.as_bytes().to_vec(),
        stderr: Vec::new(),
    }))
}

fn failed_output(code: i32, stderr: &str) -> GitReply {
    GitReply::Ran(Ok(GitOutput {
        success: false,
        status: ExitStatus { code: Some(code), text: format!("exit status: {code}") },
        stdout: Vec::new(),
        stderr: stderr.as_bytes().to_vec(),
    }))
}

fn missing() -> IoFailure {
    IoFailure { not_found: true, text: text("No such file or directory (os error 2)") }
}

impl World {
    fn new() -> World {
        let mut world = World {
            dirs: vec![text("/work")],
            links: Vec::new(),
            checkouts: Vec::new(),
            branches: Vec::new(),
            filter_keys: Vec::new(),
            commands: Vec::new(),
            created_dirs: Vec::new(),
        };
        world.init_repo(REPO);
        world
    }

    fn init_repo(&mut self, root: &str) {
        let git_dir = format!("{root}/.git");
        self.dirs.push(text(root));
        self.dirs.push(git_dir.clone());
        self.branches.push((git_dir.clone(), text("main")));
        self.checkouts.push(Checkout {
            root: text(root),
            git_dir: git_dir.clone(),
            common_dir: git_dir,
            branch: text("main"),
            dirty: false,
        });
    }

    fn resolve(&self, path: &str) -> String {
        let mut current = path.trim_end_matches('/').to_string();
        loop {
            let next = self
                .links
                .iter()
                .find(|(from, _)| below(&current, from))
                .map(|(from, to)| format!("{to}{}", &current[from.len()..]));
            match next {
                Some(next) => current = next,
                None => return current,
            }
        }
    }

    fn has_dir(&self, path: &str) -> bool {
        self.dirs.contains(&self.resolve(path))
    }

    fn is_there(&self, path: &str) -> bool {
        self.links.iter().any(|(from, _)| from == path) || self.has_dir(path)
    }

    fn checkout_of(&self, dir: &str) -> Option<usize> {
        let dir = self.resolve(dir);
        let mut best: Option<usize> = None;
        for (i, checkout) in self.checkouts.iter().enumerate() {
            if below(&dir, &checkout.root) {
                let longer = match best {
                    Some(j) => checkout.root.len() > self.checkouts[j].root.len(),
                    None => true,
                };
                if longer {
                    best = Some(i);
                }
            }
        }
        best
    }

    fn run(&mut self, dir: &str, args: &[String], env: Vec<(String, String)>) -> GitReply {
        self.commands.push((dir.to_string(), args.to_vec(), env));
        assert_eq!(args[0], "-c");
        assert_eq!(args[1], "core.hooksPath=/dev/null");
        let args: Vec<&str> = args[2..].iter().map(|arg| arg.as_str()).collect();
        let Some(at) = self.checkout_of(dir) else {
            return failed_output(128, "fatal: not a git repository\n");
        };
        let common_dir = self.checkouts[at].common_dir.clone();
        match args.as_slice() {
            ["rev-parse", "--is-inside-work-tree"] => ok_output("true\n"),
            ["rev-parse", "--show-toplevel"] => ok_output(&format!("{}\n", self.checkouts[at].root)),
            ["rev-parse", "--path-format=absolute", "--git-dir"] => {
                ok_output(&format!("{}\n", self.checkouts[at].git_dir))
            }
            ["rev-parse", "--path-format=absolute", "--git-common-dir"] => {
                ok_output(&format!("{common_dir}\n"))
            }
            ["rev-parse", "--abbrev-ref", "HEAD"] => {
                ok_output(&format!("{}\n", self.checkouts[at].branch))
            }
            ["rev-parse", "--verify", reference] => {
                let name = reference.trim_start_matches("refs/heads/").to_string();
                if self.branches.contains(&(common_dir, name)) {
                    ok_output("0123456789abcdef\n")
                } else {
                    failed_output(128, "fatal: Needed a single revision\n")
                }
            }
            ["config", "--null", "--name-only", "--get-regexp", pattern] => {
                assert_eq!(*pattern, r"^filter\..*\.(clean|smudge|process)$");
                if self.filter_keys.is_empty() {
                    failed_output(1, "")
                } else {
                    let keys: String = self.filter_keys.iter().map(|key| format!("{key}\0")).collect();
                    ok_output(&keys)
                }
            }
            ["worktree", "add", "-b", name, target, "HEAD"] => {
                self.branches.push((common_dir.clone(), name.to_string()));
                self.add_checkout(&common_dir, target, name)
            }
            ["worktree", "add", target, name] => self.add_checkout(&common_dir, target, name),
            ["worktree", "remove", root] => {
                let Some(i) = self.checkouts.iter().position(|checkout| checkout.root == *root) else {
                    return failed_output(128, "fatal: not a working tree\n");
                };
                if self.checkouts[i].dirty {
                    return failed_output(128, "fatal: contains modified or untracked files\n");
                }
                self.checkouts.remove(i);
                self.dirs.retain(|dir| dir != root);
                ok_output("")
            }
            ["branch", "-D", name] => {
                self.branches.retain(|(dir, branch)| *dir != common_dir || branch != name);
                ok_output("")
            }
            other => panic!("unexpected command {other:?}"),
        }
    }

    fn add_checkout(&mut self, common_dir: &str, target: &str, name: &str) -> GitReply {
        self.dirs.push(target.to_string());
        let git_dir = format!("{common_dir}/worktrees/{name}");
        self.dirs.push(git_dir.clone());
        self.checkouts.push(Checkout {
            root: target.to_string(),
            git_dir,
            common_dir: common_dir.to_string(),
            branch: name.to_string(),
            dirty: false,
        });
        ok_output("")
    }

    fn answer(&mut self, request: GitRequest) -> GitReply {
        match request {
            GitRequest::RunGit { dir, args, env } => self.run(&dir, &args, env),
            GitRequest::Canonicalize(path) => {
                if self.has_dir(&path) {
                    GitReply::Canonical(Ok(self.resolve(&path)))
                } else {
                    GitReply::Canonical(Err(missing()))
                }
            }
            GitRequest::LookUp(path) => {
                if self.is_there(&path) {
                    GitReply::Found(Ok(()))
                } else {
                    GitReply::Found(Err(missing()))
                }
            }
            GitRequest::CreateDir(path) => {
                self.created_dirs.push(path.clone());
                let resolved = self.resolve(&path);
                self.dirs.push(resolved);
                GitReply::DirCreated(Ok(()))
            }
        }
    }

    fn drive<T>(
        &mut self,
        step: impl Fn(&Vec<GitReply>) -> Progress<GitRequest, GitToolingError, T>,
    ) -> Result<T, GitToolingError> {
        let mut replies: Vec<GitReply> = Vec::new();
        loop {
            match step(&replies) {
                Progress::Ask(request) => {
                    let reply = self.answer(request);
                    replies.push(reply);
                }
                Progress::Failed(error, used) => {
                    assert_eq!(used, replies.len());
                    return Err(error);
                }
                Progress::Done(value, used) => {
                    assert_eq!(used, replies.len());
                    return Ok(value);
                }
            }
        }
    }

    fn inspect(&mut self, path: &str) -> Result<WorktreeInfo, GitToolingError> {
        self.drive(|replies| inspect_worktree(path, HostKind::Unix, replies, 0))
    }

    fn create(&mut self, path: &str, name: &str) -> Result<ManagedWorktree, GitToolingError> {
        self.drive(|replies| {
            create_or_reuse_managed_worktree(path, name, HostKind::Unix, replies, 0)
        })
    }

    fn remove(&mut self, path: &str, worktree: &str) -> Result<(), GitToolingError> {
        self.drive(|replies| remove_managed_worktree(path, worktree, HostKind::Unix, replies, 0))
    }

    fn has_branch(&self, name: &str) -> bool {
        self.branches.contains(&(format!("{REPO}/.git"), name.to_string()))
    }
}

fn done<T>(result: Result<T, GitToolingError>) -> T {
    match result {
        Ok(value) => value,
        Err(error) => panic!("unexpected error: {}", error.message()),
    }
}

fn refused<T>(result: Result<T, GitToolingError>) -> GitToolingError {
    match result {
        Ok(_) => panic!("an error was expected"),
        Err(error) => error,
    }
}

#[test]
fn inspect_worktree_returns_repository_paths_and_branch() {
    let mut world = World::new();
    world.dirs.push(format!("{REPO}/subdir"));
    let info = done(world.inspect("/work/repo/subdir"));
    assert_eq!(info.repo_root, "/work/repo");
    assert_eq!(info.git_dir, "/work/repo/.git");
    assert_eq!(info.common_dir, "/work/repo/.git");
    assert_eq!(info.current_branch, Some(text("main")));
}

#[test]
fn inspecting_a_detached_checkout_gives_no_branch() {
    let mut world = World::new();
    world.checkouts[0].branch = text("HEAD");
    assert_eq!(done(world.inspect(REPO)).current_branch, None);
}

#[test]
fn a_directory_outside_of_every_repository_is_refused() {
    let mut world = World::new();
    let error = refused(world.inspect("/work"));
    assert!(matches!(&error, GitToolingError::NotAGitRepository { path } if path == "/work"));
    assert_eq!(error.message(), "\"/work\" is not a git repository");
}

#[test]
fn create_or_reuse_managed_worktree_under_codex_dir() {
    let mut world = World::new();
    let created = done(world.create(REPO, "codex-test"));
    let source = done(world.inspect(REPO));
    let expected_path = format!("{}/codex/worktrees/codex-test", source.common_dir);
    assert_eq!(created.name, "codex-test");
    assert_eq!(created.path, expected_path);
    assert!(created.created);
    assert_eq!(created.created_branch, Some(text("codex-test")));
    assert_eq!(created.info.repo_root, expected_path);
    assert_eq!(created.info.current_branch, Some(text("codex-test")));

    let reused = done(world.create(REPO, "codex-test"));
    assert_eq!(reused.name, "codex-test");
    assert_eq!(reused.path, expected_path);
    assert!(!reused.created);
    assert_eq!(reused.created_branch, None);
    assert_eq!(reused.info.common_dir, created.info.common_dir);
}

#[test]
fn creating_makes_only_the_managed_directory_and_its_parent() {
    let mut world = World::new();
    done(world.create(REPO, "codex-dirs"));
    assert_eq!(
        world.created_dirs,
        vec![text("/work/repo/.git/codex"), text("/work/repo/.git/codex/worktrees")]
    );
}

#[test]
fn remove_managed_worktree_removes_clean_worktree() {
    let mut world = World::new();
    let managed = done(world.create(REPO, "codex-remove"));
    done(world.remove(REPO, &managed.path));
    assert!(!world.has_dir(&managed.path));
    assert!(world.checkouts.iter().all(|checkout| checkout.root != managed.path));
    assert!(world.has_branch("codex-remove"));
}

#[test]
fn remove_created_managed_worktree_removes_new_branch() {
    let mut world = World::new();
    let managed = done(world.create(REPO, "codex-rollback"));
    done(world.drive(|replies| {
        remove_created_managed_worktree(
            REPO,
            &managed.path,
            &managed.created_branch,
            HostKind::Unix,
            replies,
            0,
        )
    }));
    assert!(!world.has_dir(&managed.path));
    assert!(!world.has_branch("codex-rollback"));
}

#[test]
fn remove_created_managed_worktree_preserves_reused_branch() {
    let mut world = World::new();
    world.branches.push((format!("{REPO}/.git"), text("codex-existing-rollback")));
    let managed = done(world.create(REPO, "codex-existing-rollback"));
    assert!(managed.created);
    assert_eq!(managed.created_branch, None);
    done(world.drive(|replies| {
        remove_created_managed_worktree(
            REPO,
            &managed.path,
            &None,
            HostKind::Unix,
            replies,
            0,
        )
    }));
    assert!(!world.has_dir(&managed.path));
    assert!(world.has_branch("codex-existing-rollback"));
}

#[test]
fn remove_managed_worktree_rejects_dirty_worktree() {
    let mut world = World::new();
    let managed = done(world.create(REPO, "codex-dirty"));
    world.checkouts[1].dirty = true;
    let error = refused(world.remove(REPO, &managed.path));
    assert!(matches!(error, GitToolingError::GitCommand { .. }));
    assert_eq!(
        error.message(),
        "git command `git -c core.hooksPath=/dev/null worktree remove \
         /work/repo/.git/codex/worktrees/codex-dirty` failed with status exit status: 128: fatal: \
         contains modified or untracked files"
    );
    assert!(world.has_dir(&managed.path));
}

#[test]
fn removing_the_checkout_itself_is_refused() {
    let mut world = World::new();
    done(world.create(REPO, "codex-other"));
    let error = refused(world.remove(REPO, REPO));
    assert!(matches!(
        &error,
        GitToolingError::ManagedWorktreePathEscapes { path, base }
            if path == REPO && base == "/work/repo/.git/codex/worktrees"
    ));
    assert_eq!(
        error.message(),
        "path \"/work/repo\" escapes managed worktree directory \"/work/repo/.git/codex/worktrees\""
    );
}

#[test]
fn create_managed_worktree_disables_checkout_filter_helpers() {
    let mut world = World::new();
    world.filter_keys = vec![text("filter.evil.smudge"), text("filter.evil.process")];
    let created = done(world.create(REPO, "codex-filtered"));
    assert!(created.created);
    let (_, _, env) = world
        .commands
        .iter()
        .find(|(_, args, _)| args[2] == "worktree")
        .expect("the worktree was added");
    let expected: Vec<(String, String)> = [
        ("GIT_CONFIG_COUNT", "4"),
        ("GIT_CONFIG_KEY_0", "filter.evil.clean"),
        ("GIT_CONFIG_VALUE_0", ""),
        ("GIT_CONFIG_KEY_1", "filter.evil.smudge"),
        ("GIT_CONFIG_VALUE_1", ""),
        ("GIT_CONFIG_KEY_2", "filter.evil.process"),
        ("GIT_CONFIG_VALUE_2", ""),
        ("GIT_CONFIG_KEY_3", "filter.evil.required"),
        ("GIT_CONFIG_VALUE_3", "false"),
    ]
    .iter()
    .map(|(key, value)| (text(key), text(value)))
    .collect();
    assert_eq!(*env, expected);
}

#[test]
fn drivers_are_switched_off_in_order_and_once() {
    let mut world = World::new();
    world.filter_keys = vec![
        text("filter.zip.clean"),
        text("filter.lfs.smudge"),
        text("filter.zip.smudge"),
        text("filter.lfs.clean"),
    ];
    let env = done(
        world.drive(|replies| checkout_filter_config_env_overrides(REPO, HostKind::Unix, replies, 0)),
    );
    assert_eq!(env, environment_without_filters(&vec![text("filter.lfs"), text("filter.zip")]));
    assert_eq!(env[0], (text("GIT_CONFIG_COUNT"), text("8")));
    assert_eq!(env[1], (text("GIT_CONFIG_KEY_0"), text("filter.lfs.clean")));
    assert_eq!(env[9], (text("GIT_CONFIG_KEY_4"), text("filter.zip.clean")));
}

#[test]
fn a_repository_without_filters_needs_no_environment() {
    let mut world = World::new();
    let env = done(
        world.drive(|replies| checkout_filter_config_env_overrides(REPO, HostKind::Unix, replies, 0)),
    );
    assert_eq!(env, Vec::<(String, String)>::new());
}

#[test]
fn every_command_runs_without_hooks() {
    let mut world = World::new();
    let managed = done(world.create(REPO, "codex-hooks"));
    done(world.remove(REPO, &managed.path));
    assert!(world.commands.len() > 10);
    for (_, args, _) in &world.commands {
        assert_eq!(args[0], "-c");
        assert_eq!(args[1], "core.hooksPath=/dev/null");
    }
}

fn validate_same_repository_worktree(
    world: &mut World,
    repository_path: &str,
    candidate_path: &str,
) -> Result<WorktreeInfo, GitToolingError> {
    let expected = world.inspect(repository_path)?;
    world.drive(|replies| {
        validate_same_repository_worktree_with_info(
            &expected,
            candidate_path,
            HostKind::Unix,
            replies,
            0,
        )
    })
}

#[test]
fn validate_same_repository_rejects_cross_repo_worktree() {
    let mut world = World::new();
    world.init_repo("/work/other");
    let error = refused(validate_same_repository_worktree(&mut world, REPO, "/work/other"));
    assert!(matches!(error, GitToolingError::WorktreeRepositoryMismatch { .. }));
    assert_eq!(
        error.message(),
        "worktree \"/work/other\" belongs to git common dir \"/work/other/.git\", expected \
         \"/work/repo/.git\""
    );
}

#[test]
fn validate_managed_same_repository_rejects_unmanaged_worktree() {
    let mut world = World::new();
    world.dirs.push(text("/work/repo/.git/codex/worktrees"));
    world.add_checkout("/work/repo/.git", "/work/repo-unmanaged", "unmanaged-branch");
    let expected = done(world.inspect(REPO));
    let error = refused(world.drive(|replies| {
        validate_managed_same_repository_worktree_with_info(
            &expected,
            "/work/repo-unmanaged",
            HostKind::Unix,
            replies,
            0,
        )
    }));
    assert!(matches!(error, GitToolingError::ManagedWorktreePathEscapes { .. }));
}

#[test]
fn create_managed_worktree_rejects_invalid_names() {
    let mut world = World::new();
    for name in ["", "..", "feature/name", "feature\\name", "-flag", "has space"] {
        let error = refused(world.create(REPO, name));
        assert!(
            matches!(error, GitToolingError::InvalidWorktreeName { .. }),
            "name: {name}, error: {}",
            error.message()
        );
    }
    assert!(world.commands.is_empty());
}

#[test]
fn create_managed_worktree_rejects_symlink_escape() {
    let mut world = World::new();
    world.dirs.push(text("/work/repo/.git/codex"));
    world.dirs.push(text("/work/repo/.git/codex/worktrees"));
    world.dirs.push(text("/work/repo/outside"));
    world.links.push((text("/work/repo/.git/codex/worktrees/escape"), text("/work/repo/outside")));
    let error = refused(world.create(REPO, "escape"));
    assert!(matches!(error, GitToolingError::ManagedWorktreePathEscapes { .. }));
}

#[test]
fn create_managed_worktree_rejects_symlinked_managed_parent() {
    let mut world = World::new();
    world.dirs.push(text("/work/repo/outside"));
    world.links.push((text("/work/repo/.git/codex"), text("/work/repo/outside")));
    let error = refused(world.create(REPO, "escape"));
    assert!(matches!(error, GitToolingError::ManagedWorktreePathEscapes { .. }));
    assert!(!world.has_dir("/work/repo/outside/worktrees"));
    assert!(world.created_dirs.is_empty());
}

#[test]
fn managed_worktree_path_validates_name() {
    let mut world = World::new();
    let source = done(world.inspect(REPO));
    assert_eq!(
        done(managed_worktree_path(&source.common_dir, "codex-test")),
        "/work/repo/.git/codex/worktrees/codex-test"
    );
    assert_eq!(managed_worktrees_dir(&source.common_dir), "/work/repo/.git/codex/worktrees");
    let error = refused(managed_worktree_path(&source.common_dir, "../escape"));
    assert!(matches!(&error, GitToolingError::InvalidWorktreeName { .. }));
    assert!(error.message().starts_with("invalid managed worktree name \"../escape\": "));
}

#[test]
fn a_failed_directory_creation_is_an_io_error() {
    let mut world = World::new();
    let mut replies: Vec<GitReply> = Vec::new();
    let error = loop {
        match create_or_reuse_managed_worktree(REPO, "codex-io", HostKind::Unix, &replies, 0) {
            Progress::Ask(GitRequest::CreateDir(_)) => {
                replies.push(GitReply::DirCreated(Err(IoFailure {
                    not_found: false,
                    text: text("Permission denied (os error 13)"),
                })));
            }
            Progress::Ask(request) => {
                let reply = world.answer(request);
                replies.push(reply);
            }
            Progress::Failed(error, _) => break error,
            Progress::Done(_, _) => panic!("an error was expected"),
        }
    };
    assert!(matches!(&error, GitToolingError::Io(_)));
    assert_eq!(error.message(), "Permission denied (os error 13)");
}

#[test]
fn output_that_is_no_text_is_refused() {
    let replies = vec![GitReply::Ran(Ok(GitOutput {
        success: true,
        status: ExitStatus { code: Some(0), text: text("exit status: 0") },
        stdout: vec![0xff, 0xfe],
        stderr: Vec::new(),
    }))];
    match run_git_for_stdout(REPO, vec![text("status")], HostKind::Unix, &replies, 0) {
        Progress::Failed(error, used) => {
            assert_eq!(used, 1);
            assert!(matches!(&error, GitToolingError::GitOutputUtf8 { .. }));
            assert_eq!(
                error.message(),
                "git command `git -c core.hooksPath=/dev/null status` produced non-UTF-8 output"
            );
        }
        _ => panic!("an error was expected"),
    }
}

#[test]
fn output_is_decoded_and_trimmed() {
    let replies = vec![ok_output("  wörktree \n")];
    match run_git_for_stdout(REPO, vec![text("status")], HostKind::Unix, &replies, 0) {
        Progress::Done(value, 1) => assert_eq!(value, "wörktree"),
        _ => panic!("a value was expected"),
    }
}

#[test]
fn an_error_stream_that_is_no_text_is_still_told() {
    let replies = vec![GitReply::Ran(Ok(GitOutput {
        success: false,
        status: ExitStatus { code: Some(2), text: text("exit status: 2") },
        stdout: Vec::new(),
        stderr: vec![b'b', b'a', b'd', b' ', 0xff, b'\n'],
    }))];
    match run_git_for_stdout(REPO, vec![text("status")], HostKind::Unix, &replies, 0) {
        Progress::Failed(GitToolingError::GitCommand { stderr, .. }, _) => {
            assert_eq!(stderr, "bad \u{fffd}");
        }
        _ => panic!("an error was expected"),
    }
}

#[test]
fn a_repository_without_commits_has_no_head() {
    let mut world = World::new();
    assert_eq!(done(world.drive(|replies| resolve_head(REPO, HostKind::Unix, replies, 0))), None);
    world.branches.push((format!("{REPO}/.git"), text("HEAD")));
    assert_eq!(
        done(world.drive(|replies| resolve_head(REPO, HostKind::Unix, replies, 0))),
        Some(text("0123456789abcdef"))
    );
}

#[test]
fn other_failures_than_128_are_no_statement_about_the_repository() {
    let replies = vec![failed_output(1, "broken")];
    assert!(matches!(
        ensure_git_repository(REPO, HostKind::Unix, &replies, 0),
        Progress::Failed(GitToolingError::GitCommand { .. }, 1)
    ));
    let replies = vec![ok_output("false\n")];
    assert!(matches!(
        ensure_git_repository(REPO, HostKind::Unix, &replies, 0),
        Progress::Failed(GitToolingError::NotAGitRepository { .. }, 1)
    ));
}

#[test]
fn a_reply_of_another_kind_is_asked_for_again() {
    let replies = vec![GitReply::Found(Ok(()))];
    assert!(matches!(
        ensure_git_repository(REPO, HostKind::Unix, &replies, 0),
        Progress::Ask(GitRequest::RunGit { .. })
    ));
}

#[test]
fn command_lines_are_written_with_spaces() {
    assert_eq!(build_command_string(&vec![text("a"), text("b c")]), "git a b c");
    assert_eq!(build_command_string(&Vec::new()), "git");
}

#[test]
fn every_git_error_has_its_words() {
    let cases = vec![
        (
            GitToolingError::NonRelativePath { path: text("/x") },
            "path \"/x\" must be relative to the repository root",
        ),
        (
            GitToolingError::PathEscapesRepository { path: text("../x") },
            "path \"../x\" escapes the repository root",
        ),
        (GitToolingError::PathPrefix, "failed to process path inside worktree"),
        (GitToolingError::Walkdir(text("walk")), "walk"),
        (GitToolingError::Io(text("io")), "io"),
        (
            GitToolingError::InvalidWorktreeName { name: text("a\"b"), reason: text("bad") },
            "invalid managed worktree name \"a\\\"b\": bad",
        ),
    ];
    for (error, message) in cases {
        assert_eq!(error.message(), message);
    }
}

fn is_query(args: &[String]) -> bool {
    args[2] == "rev-parse" || args[2] == "config"
}

#[test]
fn create_managed_worktree_leaves_source_repo_clean() {
    let mut world = World::new();
    done(world.create(REPO, "codex-clean"));

    let changing: Vec<&[String]> = world
        .commands
        .iter()
        .map(|(_, args, _)| args.as_slice())
        .filter(|args| !is_query(args))
        .collect();
    assert_eq!(changing.len(), 1);
    assert_eq!(
        changing[0][2..],
        [
            text("worktree"),
            text("add"),
            text("-b"),
            text("codex-clean"),
            text("/work/repo/.git/codex/worktrees/codex-clean"),
            text("HEAD"),
        ]
    );
    assert!(!world.checkouts[0].dirty);
    assert_eq!(world.checkouts[0].branch, "main");
}

#[test]
fn managed_worktree_from_linked_checkout_preserves_sibling_identity() {
    let mut world = World::new();
    let sibling = "/work/siblings/checkout";
    world.add_checkout("/work/repo/.git", sibling, "sibling-branch");
    let sibling_cwd = format!("{sibling}/nested");
    world.dirs.push(sibling_cwd.clone());

    let created = done(world.create(&sibling_cwd, "codex-linked"));
    assert!(created.created);
    assert_eq!(created.path, "/work/repo/.git/codex/worktrees/codex-linked");
    let sibling_info = done(world.inspect(&sibling_cwd));
    assert_eq!(created.info.common_dir, sibling_info.common_dir);

    let before = world.commands.len();
    let adopted = done(world.create(REPO, "codex-linked"));
    assert!(!adopted.created);
    assert_eq!(adopted.created_branch, None);
    assert_eq!(adopted.path, created.path);
    assert_eq!(adopted.info.common_dir, created.info.common_dir);
    assert!(world.commands[before..].iter().all(|(_, args, _)| is_query(args)));

    done(world.drive(|replies| {
        remove_created_managed_worktree(
            REPO,
            &created.path,
            &created.created_branch,
            HostKind::Unix,
            replies,
            0,
        )
    }));
    assert!(world.has_dir(&sibling_cwd));
    let after = done(world.inspect(&sibling_cwd));
    assert_eq!(after.common_dir, sibling_info.common_dir);
    assert_eq!(after.repo_root, sibling_info.repo_root);
}

#[test]
fn hooks_are_disabled_at_the_null_device_of_the_host() {
    let replies: Vec<GitReply> = Vec::new();
    for (host, setting) in [
        (HostKind::Unix, "core.hooksPath=/dev/null"),
        (HostKind::Windows, "core.hooksPath=NUL"),
    ] {
        match inspect_worktree(REPO, host, &replies, 0) {
            Progress::Ask(GitRequest::RunGit { dir, args, .. }) => {
                assert_eq!(dir, REPO);
                assert_eq!(args, ["-c", setting, "rev-parse", "--is-inside-work-tree"]);
            }
            _ => panic!("a git command was expected"),
        }
    }
}
