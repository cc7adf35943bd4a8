//! The worktree tools, run against a session that is kept in memory.

use codex_worktree::bounds::{
    worktree_model_error, FunctionCallError, WORKTREE_OUTPUT_MAX_BYTES,
};
use codex_worktree::checks::{
    absolute_path, anticipated_worktree_cwd, ensure_worktree_paths_writable,
    read_worktree_metadata_blocking,
};
use codex_worktree::discovery::{
    managed_worktree_name_from_base, original_repo_root_from_common_dir,
};
use codex_worktree::enter::{
    enter_worktree, EnterWorktreeArgs, EnterWorktreeHandler, ToolContext, ToolPayload,
};
use codex_worktree::environment::{
    workspace_roots_for_enter, PathUri, TurnEnvironment, TurnEnvironmentSelection,
    TurnEnvironmentSnapshot, TurnEnvironmentState,
};
use codex_worktree::errors::GitToolingError;
use codex_worktree::exit::{
    default_keep_worktree, exit_worktree, ExitWorktreeArgs, ExitWorktreeHandler,
};
use codex_worktree::managed::ManagedWorktree;
use codex_worktree::metadata::{metadata_content, WorktreeMetadata};
use codex_worktree::output::preflight_managed_worktree_output;
use codex_worktree::progress::Progress;
use codex_worktree::session::{
    ActiveWorktree, ActiveWorktreeOwnership, BlockingOutcome, MetadataRead, ToolReply, ToolRequest,
};
use codex_worktree::tool_spec::ENTER_WORKTREE_TOOL_NAME;
use codex_worktree::worktree::{managed_worktree_path, WorktreeInfo};

const REPO: &str = "/work/repo";
const COMMON: &str = "/work/repo/.git";

fn text(value: &str) -> String {
    value.to_string()
}

struct Checkout {
    root: String,
    common_dir: String,
    branch: String,
    dirty: bool,
}

struct Session {
    thread_id: String,
    dirs: Vec<String>,
    files: Vec<String>,
    links: Vec<(String, String)>,
    checkouts: Vec<Checkout>,
    branches: Vec<String>,
    metadata: Vec<(String, String)>,
    writable: Vec<String>,
    full_disk_write: bool,
    environments: Vec<TurnEnvironmentState>,
    active: Option<ActiveWorktree>,
    persisted_cwd: Option<String>,
    announced: usize,
    refuse_settings: bool,
    refuse_metadata: bool,
    refuse_removal: bool,
    locked: bool,
    log: Vec<&'static str>,
}

fn native(path: &str) -> PathUri {
    PathUri::Native(text(path))
}

fn selection(id: &str, cwd: &str) -> TurnEnvironmentSelection {
    TurnEnvironmentSelection {
        environment_id: text(id),
        cwd: native(cwd),
        workspace_roots: vec![native(cwd)],
        config: 7,
    }
}

fn below(path: &str, base: &str) -> bool {
    path == base || path.starts_with(&format!("{base}/"))
}

fn native_text(uri: &PathUri) -> &str {
    match uri {
        PathUri::Native(path) => path,
        PathUri::Foreign { .. } => panic!("a path of this host was expected"),
    }
}

impl Session {
    fn new(cwd: &str) -> Session {
        Session {
            thread_id: text("thread-1"),
            dirs: vec![text("/work"), text(REPO), text(COMMON)],
            files: Vec::new(),
            links: Vec::new(),
            checkouts: vec![Checkout {
                root: text(REPO),
                common_dir: text(COMMON),
                branch: text("main"),
                dirty: false,
            }],
            branches: vec![text("main")],
            metadata: Vec::new(),
            writable: vec![text(cwd), text(REPO)],
            full_disk_write: false,
            environments: vec![
                TurnEnvironmentState::Ready(TurnEnvironment {
                    selection: selection("local", cwd),
                    is_remote: false,
                }),
                TurnEnvironmentState::Ready(TurnEnvironment {
                    selection: selection("remote", cwd),
                    is_remote: true,
                }),
            ],
            active: None,
            persisted_cwd: None,
            announced: 0,
            refuse_settings: false,
            refuse_metadata: false,
            refuse_removal: false,
            locked: false,
            log: Vec::new(),
        }
    }

    fn resolve(&self, path: &str) -> Option<String> {
        let mut parts: Vec<&str> = Vec::new();
        for part in path.split('/') {
            match part {
                "" | "." => {}
                ".." => {
                    parts.pop();
                }
                part => parts.push(part),
            }
        }
        let mut current = format!("/{}", parts.join("/"));
        loop {
            let next = self
                .links
                .iter()
                .find(|(from, _)| below(&current, from))
                .map(|(from, to)| format!("{to}{}", &current[from.len()..]));
            match next {
                Some(next) => current = next,
                None => break,
            }
        }
        if self.dirs.contains(&current) || self.files.contains(&current) {
            Some(current)
        } else {
            None
        }
    }

    fn info(&self, path: &str) -> Option<WorktreeInfo> {
        let path = self.resolve(path)?;
        let checkout = self
            .checkouts
            .iter()
            .filter(|checkout| below(&path, &checkout.root))
            .max_by_key(|checkout| checkout.root.len())?;
        Some(WorktreeInfo {
            repo_root: checkout.root.clone(),
            git_dir: checkout.common_dir.clone(),
            common_dir: checkout.common_dir.clone(),
            current_branch: Some(checkout.branch.clone()),
        })
    }

    fn add_managed(&mut self, common_dir: &str, name: &str) -> String {
        let base = format!("{common_dir}/codex/worktrees");
        let root = format!("{base}/{name}");
        self.dirs.push(base);
        self.dirs.push(root.clone());
        self.checkouts.push(Checkout {
            root: root.clone(),
            common_dir: text(common_dir),
            branch: text(name),
            dirty: false,
        });
        root
    }

    fn remove_checkout(&mut self, root: &str) -> Result<(), GitToolingError> {
        if self.refuse_removal {
            return Err(GitToolingError::Io(text("removal refused")));
        }
        let i = self.checkouts.iter().position(|checkout| checkout.root == root).expect("checkout");
        if self.checkouts[i].dirty {
            return Err(GitToolingError::Io(text("contains modified or untracked files")));
        }
        self.checkouts.remove(i);
        self.dirs.retain(|dir| !below(dir, root));
        Ok(())
    }

    fn answer(&mut self, request: ToolRequest) -> ToolReply {
        match request {
            ToolRequest::LockSettings => {
                self.locked = true;
                ToolReply::Locked
            }
            ToolRequest::ActiveWorktree => ToolReply::Active(self.active.as_ref().map(|a| a.copy())),
            ToolRequest::Inspect(path) => ToolReply::Inspected(BlockingOutcome::Finished(
                match self.info(&path) {
                    Some(info) => Ok(info),
                    None => Err(GitToolingError::NotAGitRepository { path }),
                },
            )),
            ToolRequest::Canonicalize(path) => ToolReply::Canonical(match self.resolve(&path) {
                Some(path) => Ok(path),
                None => Err(text("No such file or directory (os error 2)")),
            }),
            ToolRequest::IsDirectory(path) => ToolReply::Directory(self.dirs.contains(&path)),
            ToolRequest::PathWritable { path, cwd } => {
                assert_eq!(cwd, self.cwd());
                ToolReply::Writable(self.writable.iter().any(|root| below(&path, root)))
            }
            ToolRequest::ReadMetadata(path) => ToolReply::MetadataRead(BlockingOutcome::Finished(
                match self.metadata.iter().find(|(kept, _)| *kept == path) {
                    None => MetadataRead::Missing,
                    Some((_, content)) => {
                        let value: serde_json::Value =
                            serde_json::from_str(content).expect("valid metadata");
                        MetadataRead::Present(WorktreeMetadata {
                            original_cwd: text(value["original_cwd"].as_str().expect("origin")),
                            owner_thread_id: value["owner_thread_id"].as_str().map(text),
                        })
                    }
                },
            )),
            ToolRequest::WriteMetadata { path, content } => {
                self.log.push("write");
                if self.refuse_metadata {
                    return ToolReply::MetadataWritten(BlockingOutcome::Finished(Err(text(
                        "disk full",
                    ))));
                }
                self.metadata.push((path, content));
                ToolReply::MetadataWritten(BlockingOutcome::Finished(Ok(())))
            }
            ToolRequest::CreateManaged { repository_path, name } => {
                self.log.push("create");
                let source = self.info(&repository_path).expect("repository");
                let path = format!("{}/codex/worktrees/{name}", source.common_dir);
                let created = !self.dirs.contains(&path);
                let created_branch =
                    if created && !self.branches.contains(&name) { Some(name.clone()) } else { None };
                if created {
                    self.add_managed(&source.common_dir, &name);
                    self.branches.push(name.clone());
                }
                let info = self.info(&path).expect("created checkout");
                ToolReply::Managed(BlockingOutcome::Finished(Ok(ManagedWorktree {
                    name,
                    path,
                    created,
                    created_branch,
                    info,
                })))
            }
            ToolRequest::RemoveCreated { worktree_path, created_branch, .. } => {
                self.log.push("take back");
                let removed = self.remove_checkout(&worktree_path);
                if removed.is_ok() {
                    self.branches.retain(|branch| Some(branch) != created_branch.as_ref());
                }
                ToolReply::Removed(BlockingOutcome::Finished(removed))
            }
            ToolRequest::RemoveManaged { repository_path, worktree_path } => {
                self.log.push("remove");
                assert!(self.info(&repository_path).is_some());
                ToolReply::Removed(BlockingOutcome::Finished(self.remove_checkout(&worktree_path)))
            }
            ToolRequest::UpdateSettings(update) => {
                self.log.push("settings");
                assert!(self.locked);
                assert!(update.worktree_transition);
                if self.refuse_settings {
                    return ToolReply::Updated(Err(text("settings refused")));
                }
                let mut environments = update.environments.environments.into_iter();
                for state in self.environments.iter_mut() {
                    let selection = environments.next().expect("one selection for each");
                    match state {
                        TurnEnvironmentState::Ready(ready) => ready.selection = selection,
                        TurnEnvironmentState::Starting(starting) => *starting = selection,
                    }
                }
                assert!(environments.next().is_none());
                assert_eq!(update.environments.cwd, self.cwd());
                ToolReply::Updated(Ok(()))
            }
            ToolRequest::PersistCwd(cwd) => {
                self.log.push("persist");
                self.persisted_cwd = Some(cwd);
                ToolReply::CwdPersisted
            }
            ToolRequest::SetActiveWorktree(active) => {
                self.log.push("set active");
                self.active = Some(active);
                ToolReply::ActiveSet
            }
            ToolRequest::ClearActiveWorktree => {
                self.log.push("clear active");
                self.active = None;
                ToolReply::ActiveCleared
            }
            ToolRequest::AnnounceSettings => {
                self.log.push("announce");
                self.announced += 1;
                ToolReply::Announced
            }
        }
    }

    fn context(&self) -> ToolContext {
        ToolContext {
            environments: TurnEnvironmentSnapshot {
                environments: self
                    .environments
                    .iter()
                    .map(|state| match state {
                        TurnEnvironmentState::Ready(ready) => {
                            TurnEnvironmentState::Ready(TurnEnvironment {
                                selection: ready.selection.copy(),
                                is_remote: ready.is_remote,
                            })
                        }
                        TurnEnvironmentState::Starting(starting) => {
                            TurnEnvironmentState::Starting(starting.copy())
                        }
                    })
                    .collect(),
            },
            full_disk_write: self.full_disk_write,
            thread_id: self.thread_id.clone(),
        }
    }

    fn drive<T>(
        &mut self,
        step: impl Fn(&Vec<ToolReply>) -> Progress<ToolRequest, FunctionCallError, T>,
    ) -> Result<T, FunctionCallError> {
        let mut replies: Vec<ToolReply> = Vec::new();
        loop {
            match step(&replies) {
                Progress::Ask(request) => {
                    let reply = self.answer(request);
                    replies.push(reply);
                }
                Progress::Failed(error, used) => {
                    assert_eq!(used, replies.len());
                    self.locked = false;
                    return Err(error);
                }
                Progress::Done(value, used) => {
                    assert_eq!(used, replies.len());
                    self.locked = false;
                    return Ok(value);
                }
            }
        }
    }

    fn enter(&mut self, name: Option<&str>, path: Option<&str>) -> Result<String, FunctionCallError> {
        let context = self.context();
        let payload = ToolPayload::Function(Ok(EnterWorktreeArgs {
            name: name.map(text),
            path: path.map(text),
        }));
        self.drive(|replies| enter_worktree(&context, &payload, replies, 0))
    }

    fn exit(&mut self, keep: bool) -> Result<String, FunctionCallError> {
        let context = self.context();
        let payload = ToolPayload::Function(Ok(ExitWorktreeArgs { keep }));
        self.drive(|replies| exit_worktree(&context, &payload, replies, 0))
    }

    fn primary(&self) -> &TurnEnvironmentSelection {
        match &self.environments[0] {
            TurnEnvironmentState::Ready(ready) => &ready.selection,
            TurnEnvironmentState::Starting(starting) => starting,
        }
    }

    fn cwd(&self) -> String {
        text(native_text(&self.primary().cwd))
    }

    fn roots(&self) -> Vec<String> {
        self.primary().workspace_roots.iter().map(|root| text(native_text(root))).collect()
    }

    fn ownership(&self) -> &ActiveWorktreeOwnership {
        &self.active.as_ref().expect("an active worktree").ownership
    }
}

fn done(result: Result<String, FunctionCallError>) -> String {
    match result {
        Ok(output) => output,
        Err(error) => panic!("unexpected error: {}", error.message()),
    }
}

fn assert_respond_to_model<T>(result: Result<T, FunctionCallError>, expected: &str) {
    let Err(FunctionCallError::RespondToModel(output)) = result else {
        panic!("expected worktree tool to respond to model with an error");
    };
    assert!(output.contains(expected), "expected output to contain {expected:?}, got {output:?}");
}

#[test]
fn entering_by_name_creates_and_remembers_a_worktree() {
    let mut session = Session::new(REPO);
    let output = done(session.enter(Some("codex-new"), None));
    assert_eq!(
        output,
        "{\"cwd\":\"/work/repo/.git/codex/worktrees/codex-new\",\
         \"worktree_path\":\"/work/repo/.git/codex/worktrees/codex-new\",\
         \"original_cwd\":\"/work/repo\",\"branch\":\"codex-new\",\"name\":\"codex-new\",\
         \"created\":true}"
    );
    assert_eq!(
        session.log,
        vec!["create", "write", "settings", "persist", "set active", "announce"]
    );
    let active = session.active.as_ref().expect("active worktree");
    assert_eq!(active.original_cwd, REPO);
    assert_eq!(active.original_workspace_roots, Some(vec![text(REPO)]));
    assert!(matches!(
        session.ownership(),
        ActiveWorktreeOwnership::ManagedByCodex(common_dir) if common_dir == COMMON
    ));
    assert_eq!(session.roots(), vec![text("/work/repo/.git/codex/worktrees/codex-new")]);
    assert_eq!(
        session.metadata,
        vec![(
            text("/work/repo/.git/codex/worktrees/codex-new.codex.json"),
            metadata_content(&WorktreeMetadata {
                original_cwd: text(REPO),
                owner_thread_id: Some(text("thread-1")),
            })
        )]
    );
}

#[test]
fn exit_worktree_keep_true_keeps_managed_worktree() {
    let mut session = Session::new(REPO);
    done(session.enter(Some("codex-keep"), None));
    let output = done(session.exit(default_keep_worktree()));
    assert_eq!(
        output,
        "{\"cwd\":\"/work/repo\",\
         \"worktree_path\":\"/work/repo/.git/codex/worktrees/codex-keep\",\
         \"original_cwd\":\"/work/repo\",\"branch\":\"codex-keep\",\"name\":\"codex-keep\",\
         \"created\":null,\"keep\":true,\"removed\":false}"
    );
    assert!(session.dirs.contains(&text("/work/repo/.git/codex/worktrees/codex-keep")));
    assert_eq!(session.cwd(), REPO);
    assert_eq!(session.roots(), vec![text(REPO)]);
    assert!(session.active.is_none());
    assert_eq!(session.persisted_cwd, Some(text(REPO)));
    assert_eq!(session.announced, 2);
}

#[test]
fn exit_worktree_keep_false_removes_clean_managed_worktree() {
    let mut session = Session::new(REPO);
    done(session.enter(Some("codex-drop"), None));
    session.log.clear();
    let output = done(session.exit(false));
    assert!(output.ends_with("\"keep\":false,\"removed\":true}"));
    assert!(!session.dirs.contains(&text("/work/repo/.git/codex/worktrees/codex-drop")));
    assert_eq!(session.log, vec!["remove", "settings", "persist", "clear active", "announce"]);
    assert_eq!(session.cwd(), REPO);
}

#[test]
fn exit_worktree_keep_false_preserves_session_when_removal_fails() {
    let mut session = Session::new(REPO);
    done(session.enter(Some("codex-dirty-exit"), None));
    session.checkouts[1].dirty = true;
    session.log.clear();
    let result = session.exit(false);
    assert_respond_to_model(result, "worktree operation failed: contains modified or untracked files");
    assert_eq!(session.log, vec!["remove"]);
    assert!(session.active.is_some());
    assert_eq!(session.cwd(), "/work/repo/.git/codex/worktrees/codex-dirty-exit");
}

#[test]
fn enter_worktree_retargets_only_local_primary_and_preserves_remote_secondary() {
    let mut session = Session::new(REPO);
    done(session.enter(Some("codex-local-primary"), None));
    assert_eq!(session.environments.len(), 2);
    assert_eq!(session.primary().environment_id, "local");
    assert_eq!(session.primary().config, 7);
    assert_eq!(session.cwd(), "/work/repo/.git/codex/worktrees/codex-local-primary");
    match &session.environments[1] {
        TurnEnvironmentState::Ready(ready) => {
            assert_eq!(ready.selection.environment_id, "remote");
            assert_eq!(native_text(&ready.selection.cwd), REPO);
        }
        TurnEnvironmentState::Starting(_) => panic!("the environment is ready"),
    }
}

#[test]
fn enter_worktree_retargets_local_primary_and_preserves_starting_secondary() {
    let mut session = Session::new(REPO);
    session.environments[1] = TurnEnvironmentState::Starting(selection("remote", REPO));
    session.environments.reverse();
    assert_respond_to_model(
        session.enter(Some("codex-starting-primary"), None),
        "requires a local primary environment that is ready",
    );
    assert_respond_to_model(
        session.exit(true),
        "requires a local primary environment that is ready",
    );
    session.environments.reverse();
    done(session.enter(Some("codex-starting-secondary"), None));
    assert_eq!(session.cwd(), "/work/repo/.git/codex/worktrees/codex-starting-secondary");
    match &session.environments[1] {
        TurnEnvironmentState::Starting(starting) => {
            assert_eq!(starting.environment_id, "remote");
            assert_eq!(native_text(&starting.cwd), REPO);
        }
        TurnEnvironmentState::Ready(_) => panic!("the environment is starting"),
    }
}

#[test]
fn enter_worktree_rejects_starting_only_environment_selections() {
    let mut session = Session::new(REPO);
    session.environments = vec![
        TurnEnvironmentState::Starting(selection("local", REPO)),
        TurnEnvironmentState::Starting(selection("remote", REPO)),
    ];
    assert_respond_to_model(
        session.enter(Some("codex-preserve-starting"), None),
        "requires a local primary environment that is ready",
    );
    assert!(session.log.is_empty());
}

#[test]
fn enter_worktree_rejects_remote_primary_environment() {
    let mut session = Session::new(REPO);
    session.environments.remove(0);
    assert_respond_to_model(
        session.enter(Some("codex-remote-primary"), None),
        "enter_worktree requires a local primary environment",
    );
}

#[test]
fn foreign_locations_are_refused() {
    let mut session = Session::new(REPO);
    session.environments[0] = TurnEnvironmentState::Ready(TurnEnvironment {
        selection: TurnEnvironmentSelection {
            cwd: PathUri::Foreign { uri: text("vscode://x"), problem: text("no file URI") },
            ..selection("local", REPO)
        },
        is_remote: false,
    });
    assert_respond_to_model(
        session.enter(Some("codex-foreign"), None),
        "enter_worktree requires a native local primary environment cwd: no file URI",
    );
    assert_respond_to_model(
        session.exit(true),
        "exit_worktree requires a native local primary environment cwd: no file URI",
    );
    session.environments[0] = TurnEnvironmentState::Ready(TurnEnvironment {
        selection: TurnEnvironmentSelection {
            workspace_roots: vec![
                native(REPO),
                PathUri::Foreign { uri: text("vscode://x"), problem: text("no file URI") },
            ],
            ..selection("local", REPO)
        },
        is_remote: false,
    });
    assert_respond_to_model(
        session.enter(Some("codex-foreign"), None),
        "enter_worktree requires native local primary environment workspace roots: no file URI",
    );
}

#[test]
fn enter_worktree_without_args_requires_explicit_name_or_path() {
    let mut session = Session::new(REPO);
    assert_respond_to_model(
        session.enter(None, None),
        "enter_worktree requires either `name` or `path`",
    );
    assert!(session.active.is_none());
}

#[test]
fn enter_worktree_rejects_name_and_path_together() {
    let mut session = Session::new(REPO);
    assert_respond_to_model(
        session.enter(Some("codex-test"), Some(".")),
        "enter_worktree accepts either `name` or `path`, not both",
    );
}

#[test]
fn exit_worktree_without_active_worktree_fails_clearly() {
    let mut session = Session::new(REPO);
    assert_respond_to_model(session.exit(true), "no active worktree to exit");
}

#[test]
fn enter_worktree_rejects_managed_creation_without_write_permission() {
    let mut session = Session::new(REPO);
    session.writable.clear();
    assert_respond_to_model(
        session.enter(Some("codex-read-only"), None),
        "enter_worktree requires filesystem write permission for `/work/repo` before it can change \
         the session workdir; additional permissions or configuration are required",
    );
    assert!(session.log.is_empty());
    session.full_disk_write = true;
    done(session.enter(Some("codex-read-only"), None));
}

#[test]
fn unsupported_payloads_and_arguments_are_refused() {
    let mut session = Session::new(REPO);
    let context = session.context();
    let unsupported: ToolPayload<EnterWorktreeArgs> = ToolPayload::Unsupported;
    assert_respond_to_model(
        session.drive(|replies| enter_worktree(&context, &unsupported, replies, 0)),
        "enter_worktree handler received unsupported payload",
    );
    let unsupported: ToolPayload<ExitWorktreeArgs> = ToolPayload::Unsupported;
    assert_respond_to_model(
        session.drive(|replies| exit_worktree(&context, &unsupported, replies, 0)),
        "exit_worktree handler received unsupported payload",
    );
    let unknown: ToolPayload<EnterWorktreeArgs> =
        ToolPayload::Function(Err(worktree_model_error("unknown field `remove`")));
    assert_respond_to_model(
        session.drive(|replies| enter_worktree(&context, &unknown, replies, 0)),
        "unknown field `remove`",
    );
    assert!(session.log.is_empty());
}

#[test]
fn exit_worktree_rejects_unknown_args() {
    let mut session = Session::new(REPO);
    let context = session.context();
    let unknown: ToolPayload<ExitWorktreeArgs> =
        ToolPayload::Function(Err(FunctionCallError::RespondToModel(text(
            "failed to parse function arguments: unknown field `remove`, expected `keep`",
        ))));
    assert_respond_to_model(
        session.drive(|replies| exit_worktree(&context, &unknown, replies, 0)),
        "unknown field `remove`",
    );
}

#[test]
fn enter_worktree_preserves_relative_subdirectory_cwd() {
    let cwd = "/work/repo/codex-rs";
    let mut session = Session::new(cwd);
    session.dirs.push(text(cwd));
    session.dirs.push(text("/work/repo/.git/codex/worktrees/codex-sub/codex-rs"));
    let output = done(session.enter(Some("codex-sub"), None));
    assert!(output.starts_with("{\"cwd\":\"/work/repo/.git/codex/worktrees/codex-sub/codex-rs\","));
    assert_eq!(
        session.roots(),
        vec![
            text("/work/repo/.git/codex/worktrees/codex-sub/codex-rs"),
            text("/work/repo/.git/codex/worktrees/codex-sub"),
        ]
    );
    done(session.exit(true));
    assert_eq!(session.cwd(), cwd);
    assert_eq!(session.roots(), vec![text(cwd)]);
}

#[test]
fn a_subdirectory_that_is_missing_or_leads_outside_is_not_entered() {
    let cwd = "/work/repo/codex-rs";
    let mut session = Session::new(cwd);
    session.dirs.push(text(cwd));
    done(session.enter(Some("codex-none"), None));
    assert_eq!(session.cwd(), "/work/repo/.git/codex/worktrees/codex-none");

    let mut session = Session::new(cwd);
    session.dirs.push(text(cwd));
    session.dirs.push(text("/work/outside"));
    session.links.push((
        text("/work/repo/.git/codex/worktrees/codex-link/codex-rs"),
        text("/work/outside"),
    ));
    done(session.enter(Some("codex-link"), None));
    assert_eq!(session.cwd(), "/work/repo/.git/codex/worktrees/codex-link");
}

#[test]
fn enter_worktree_path_adopts_plain_directory_from_plain_directory() {
    let mut session = Session::new("/work/original");
    session.dirs.push(text("/work/original"));
    session.dirs.push(text("/work/adopted"));
    session.writable.push(text("/work/adopted"));
    let output = done(session.enter(None, Some("/work/adopted")));
    assert_eq!(
        output,
        "{\"cwd\":\"/work/adopted\",\"worktree_path\":\"/work/adopted\",\
         \"original_cwd\":\"/work/original\",\"branch\":null,\"name\":null,\"created\":null}"
    );
    let active = session.active.as_ref().expect("adopted directory should be active");
    assert_eq!(active.worktree_path, "/work/adopted");
    assert_eq!(active.branch, None);
    assert_eq!(active.name, None);
    assert!(matches!(session.ownership(), ActiveWorktreeOwnership::Adopted));
    assert_eq!(session.cwd(), "/work/adopted");
    assert_eq!(session.log, vec!["settings", "persist", "set active", "announce"]);
}

#[test]
fn enter_worktree_path_resolves_existing_relative_directory() {
    let mut session = Session::new(REPO);
    session.dirs.push(text("/work/adopted"));
    session.writable.push(text("/work/adopted"));
    done(session.enter(None, Some("../adopted")));
    assert_eq!(session.cwd(), "/work/adopted");
}

#[test]
fn enter_worktree_path_rejects_invalid_target_without_state_change() {
    let mut session = Session::new(REPO);
    session.files.push(text("/work/file.txt"));
    assert_respond_to_model(
        session.enter(None, Some("/work/missing")),
        "failed to canonicalize worktree path `/work/missing`: No such file or directory",
    );
    assert_respond_to_model(
        session.enter(None, Some("/work/file.txt")),
        "enter_worktree path `/work/file.txt` must be an existing directory",
    );
    assert_respond_to_model(
        session.enter(None, Some("")),
        "enter_worktree `path` must not be empty",
    );
    assert_eq!(session.cwd(), REPO);
    assert_eq!(session.roots(), vec![text(REPO)]);
    assert!(session.active.is_none());
    assert!(session.log.is_empty());
}

#[test]
fn exit_worktree_keep_false_rejects_adopted_directory_without_state_change() {
    let mut session = Session::new(REPO);
    session.dirs.push(text("/work/adopted"));
    session.writable.push(text("/work/adopted"));
    done(session.enter(None, Some("/work/adopted")));
    session.log.clear();
    assert_respond_to_model(
        session.exit(false),
        "cannot remove an adopted workdir `/work/adopted`; call exit_worktree with `keep: true`",
    );
    assert!(session.log.is_empty());
    assert!(session.active.is_some());
    assert_eq!(session.cwd(), "/work/adopted");
    done(session.exit(true));
    assert_eq!(session.cwd(), REPO);
    assert_eq!(session.roots(), vec![text(REPO)]);
    assert!(session.active.is_none());
    assert!(session.dirs.contains(&text("/work/adopted")));
}

#[test]
fn enter_worktree_path_adopts_another_repository_subdirectory() {
    let mut session = Session::new(REPO);
    for dir in ["/work/other-repo", "/work/other-repo/.git", "/work/other-repo/nested"] {
        session.dirs.push(text(dir));
    }
    session.checkouts.push(Checkout {
        root: text("/work/other-repo"),
        common_dir: text("/work/other-repo/.git"),
        branch: text("main"),
        dirty: false,
    });
    session.writable.push(text("/work/other-repo"));
    done(session.enter(None, Some("/work/other-repo/nested")));
    let active = session.active.as_ref().expect("adopted repository should be active");
    assert_eq!(active.worktree_path, "/work/other-repo");
    assert_eq!(active.branch, Some(text("main")));
    assert_eq!(active.name, None);
    assert_eq!(session.cwd(), "/work/other-repo/nested");
    assert_eq!(session.roots(), vec![text("/work/other-repo/nested")]);
}

#[test]
fn enter_worktree_path_accepts_granted_existing_managed_worktree() {
    let mut session = Session::new("/work/repo/src");
    session.dirs.push(text("/work/repo/src"));
    session.writable = vec![text("/work/repo/src")];
    let managed = session.add_managed(COMMON, "codex-existing");
    for dir in ["/work/other-repo", "/work/other-repo/.git"] {
        session.dirs.push(text(dir));
    }
    session.checkouts.push(Checkout {
        root: text("/work/other-repo"),
        common_dir: text("/work/other-repo/.git"),
        branch: text("main"),
        dirty: false,
    });
    let foreign = session.add_managed("/work/other-repo/.git", "foreign");
    assert_respond_to_model(
        session.enter(None, Some(&foreign)),
        "requires filesystem write permission",
    );
    assert!(session.active.is_none());
    assert_respond_to_model(
        session.enter(None, Some(&managed)),
        "requires filesystem write permission",
    );
    assert!(session.active.is_none());
    session.writable.push(managed.clone());
    done(session.enter(None, Some(&managed)));
    assert_eq!(session.cwd(), managed);
    let active = session.active.as_ref().expect("active worktree");
    assert_eq!(active.worktree_path, managed);
    assert_eq!(active.name, Some(text("codex-existing")));
    assert!(matches!(session.ownership(), ActiveWorktreeOwnership::Adopted));
}

#[test]
fn reused_managed_worktree_is_adopted_by_a_different_session() {
    let mut session = Session::new("/work/repo/src");
    session.dirs.push(text("/work/repo/src"));
    session.writable = vec![text("/work/repo/src")];
    done(session.enter(Some("codex-owned"), None));
    assert!(matches!(session.ownership(), ActiveWorktreeOwnership::ManagedByCodex(_)));
    done(session.exit(true));

    session.thread_id = text("thread-2");
    assert_respond_to_model(
        session.enter(Some("codex-owned"), None),
        "requires filesystem write permission",
    );
    assert!(session.active.is_none());
    session.writable.push(text("/work/repo/.git/codex/worktrees/codex-owned"));
    done(session.enter(Some("codex-owned"), None));
    assert!(matches!(session.ownership(), ActiveWorktreeOwnership::Adopted));
    assert_respond_to_model(session.exit(false), "cannot remove an adopted workdir");
    done(session.exit(true));

    session.thread_id = text("thread-1");
    session.writable.pop();
    done(session.enter(Some("codex-owned"), None));
    assert!(matches!(session.ownership(), ActiveWorktreeOwnership::ManagedByCodex(_)));
    done(session.exit(true));
    done(session.enter(None, Some("/work/repo/.git/codex/worktrees/codex-owned")));
    assert!(matches!(session.ownership(), ActiveWorktreeOwnership::ManagedByCodex(_)));
}

#[test]
fn enter_worktree_rejects_derived_active_managed_worktree() {
    let mut session = Session::new(REPO);
    let managed = session.add_managed(COMMON, "codex-active");
    session.environments[0] = TurnEnvironmentState::Ready(TurnEnvironment {
        selection: selection("local", &managed),
        is_remote: false,
    });
    assert_respond_to_model(
        session.enter(Some("codex-nested"), None),
        "already in worktree `/work/repo/.git/codex/worktrees/codex-active`; call exit_worktree \
         before entering another worktree",
    );
    assert!(session.log.is_empty());
}

#[test]
fn exit_worktree_derived_state_restores_metadata_original_subdirectory() {
    let cwd = "/work/repo/subdir";
    let mut session = Session::new(cwd);
    session.dirs.push(text(cwd));
    done(session.enter(Some("codex-subdir"), None));
    session.active = None;
    done(session.exit(true));
    assert_eq!(session.cwd(), cwd);
}

#[test]
fn exit_worktree_derives_managed_cwd_without_rebinding_workspace_roots() {
    let mut session = Session::new(REPO);
    let managed = session.add_managed(COMMON, "codex-restore");
    session.environments[0] = TurnEnvironmentState::Ready(TurnEnvironment {
        selection: selection("local", &managed),
        is_remote: false,
    });
    done(session.exit(true));
    assert_eq!(session.cwd(), REPO);
    assert_eq!(session.roots(), vec![managed]);
}

#[test]
fn a_derived_worktree_of_the_same_session_may_be_removed() {
    let mut session = Session::new(REPO);
    done(session.enter(Some("codex-again"), None));
    session.active = None;
    done(session.exit(false));
    assert!(!session.dirs.contains(&text("/work/repo/.git/codex/worktrees/codex-again")));
}

#[test]
fn metadata_that_points_elsewhere_is_refused() {
    let mut session = Session::new(REPO);
    let managed = session.add_managed(COMMON, "codex-moved");
    session.dirs.push(text("/work/other"));
    session.dirs.push(text("/work/other/.git"));
    session.checkouts.push(Checkout {
        root: text("/work/other"),
        common_dir: text("/work/other/.git"),
        branch: text("main"),
        dirty: false,
    });
    session.environments[0] = TurnEnvironmentState::Ready(TurnEnvironment {
        selection: selection("local", &managed),
        is_remote: false,
    });
    let file = text("/work/repo/.git/codex/worktrees/codex-moved.codex.json");
    session.metadata = vec![(file.clone(), text("{\"original_cwd\":\"/work/other\"}"))];
    assert_respond_to_model(
        session.exit(true),
        "managed worktree metadata points to git common dir `/work/other/.git`, expected \
         `/work/repo/.git`",
    );
    session.metadata = vec![(file.clone(), text("{\"original_cwd\":\"/nowhere\"}"))];
    assert_respond_to_model(
        session.exit(true),
        "failed to validate managed worktree metadata: worktree operation failed: \"/nowhere\" is \
         not a git repository",
    );
    session.metadata = vec![(file, text("{\"original_cwd\":\"relative\"}"))];
    assert_respond_to_model(
        session.exit(true),
        "managed worktree metadata contains invalid original cwd: path is not absolute: relative",
    );
}

#[test]
fn exit_worktree_rejects_stale_active_state_from_original_checkout() {
    let mut session = Session::new(REPO);
    let managed = session.add_managed(COMMON, "codex-stale");
    session.active = Some(ActiveWorktree {
        original_cwd: text(REPO),
        original_workspace_roots: None,
        worktree_path: managed,
        branch: Some(text("codex-stale")),
        name: Some(text("codex-stale")),
        ownership: ActiveWorktreeOwnership::ManagedByCodex(text(COMMON)),
    });
    assert_respond_to_model(session.exit(true), "not inside active worktree");
    assert!(session.active.is_none());
    assert_eq!(session.log, vec!["clear active"]);
}

#[test]
fn a_stale_adopted_directory_is_forgotten() {
    let mut session = Session::new(REPO);
    session.dirs.push(text("/work/adopted"));
    session.active = Some(ActiveWorktree {
        original_cwd: text("/work"),
        original_workspace_roots: None,
        worktree_path: text("/work/adopted"),
        branch: None,
        name: None,
        ownership: ActiveWorktreeOwnership::Adopted,
    });
    assert_respond_to_model(
        session.exit(true),
        "current cwd `/work/repo` is not inside active adopted workdir `/work/adopted`; refusing to \
         exit stale worktree state",
    );
    assert!(session.active.is_none());
}

#[test]
fn a_changed_repository_is_not_left_automatically() {
    let mut session = Session::new(REPO);
    session.active = Some(ActiveWorktree {
        original_cwd: text("/work"),
        original_workspace_roots: None,
        worktree_path: text(REPO),
        branch: None,
        name: None,
        ownership: ActiveWorktreeOwnership::ManagedByCodex(text("/gone/.git")),
    });
    assert_respond_to_model(
        session.exit(false),
        "active worktree common git dir changed from `/gone/.git` to `/work/repo/.git`; refusing to \
         exit automatically",
    );
    session.active = Some(ActiveWorktree {
        original_cwd: text("/work"),
        original_workspace_roots: None,
        worktree_path: text(REPO),
        branch: None,
        name: None,
        ownership: ActiveWorktreeOwnership::ManagedByCodex(text(COMMON)),
    });
    assert_respond_to_model(
        session.exit(false),
        "active worktree `/work/repo` is not under the managed worktree directory for \
         `/work/repo/.git`",
    );
}

#[test]
fn a_new_worktree_is_taken_back_when_its_origin_cannot_be_kept() {
    let mut session = Session::new(REPO);
    session.refuse_metadata = true;
    assert_respond_to_model(
        session.enter(Some("codex-lost"), None),
        "failed to write managed worktree metadata: disk full",
    );
    assert_eq!(session.log, vec!["create", "write", "take back"]);
    assert_eq!(session.branches, vec![text("main")]);
    assert_eq!(session.cwd(), REPO);

    session.refuse_removal = true;
    assert_respond_to_model(
        session.enter(Some("codex-lost"), None),
        "failed to write managed worktree metadata: disk full; failed to roll back the newly \
         created worktree: worktree operation failed: removal refused",
    );
}

#[test]
fn refused_settings_leave_the_session_where_it_is() {
    let mut session = Session::new(REPO);
    session.refuse_settings = true;
    assert_respond_to_model(
        session.enter(Some("codex-refused"), None),
        "failed to enter worktree: settings refused",
    );
    assert!(session.active.is_none());
    session.refuse_settings = false;
    done(session.enter(Some("codex-refused"), None));
    session.refuse_settings = true;
    assert_respond_to_model(session.exit(true), "failed to exit worktree: settings refused");
    assert!(session.active.is_some());
}

#[test]
fn tasks_that_do_not_come_back_are_told() {
    let context = Session::new(REPO).context();
    let payload = ToolPayload::Function(Ok(ExitWorktreeArgs { keep: true }));
    let replies = vec![
        ToolReply::Active(None),
        ToolReply::Inspected(BlockingOutcome::JoinFailed(text("task panicked"))),
    ];
    match exit_worktree(&context, &payload, &replies, 0) {
        Progress::Failed(error, 2) => assert_eq!(
            error.message(),
            "worktree operation failed to join blocking task: task panicked"
        ),
        _ => panic!("an error was expected"),
    }
}

#[test]
fn managed_worktree_output_is_preflighted_before_creation() {
    let mut session = Session::new("/work/repo/src/app");
    session.dirs.push(text("/work/repo/src/app"));
    let original_info = WorktreeInfo {
        repo_root: text(REPO),
        git_dir: text(COMMON),
        common_dir: text(COMMON),
        current_branch: Some("main".to_string()),
    };
    let name = "x".repeat(WORKTREE_OUTPUT_MAX_BYTES);
    let managed_path = match managed_worktree_path(&original_info.common_dir, &name) {
        Ok(path) => path,
        Err(_) => panic!("the synthetic name should be valid"),
    };
    let anticipated_cwd = done(session.drive(|replies| {
        anticipated_worktree_cwd(
            &original_info.repo_root,
            "/work/repo/src/app",
            &managed_path,
            replies,
            0,
        )
    }));
    assert_eq!(anticipated_cwd, format!("{managed_path}/src/app"));

    let result = session.drive(|replies| {
        preflight_managed_worktree_output(
            &original_info,
            "/work/repo/src/app",
            &name,
            replies,
            0,
        )
    });
    assert_respond_to_model(result, "exceeds");
    assert_respond_to_model(session.enter(Some(&name), None), "exceeds");
    assert!(session.log.is_empty());
}

#[test]
fn entering_worktree_does_not_grant_git_common_dir_write_access() {
    let workspace_roots =
        workspace_roots_for_enter(&vec![text(REPO)], REPO, "/work/worktree", "/work/worktree");
    assert_eq!(workspace_roots, vec![text("/work/worktree")]);
    assert!(!workspace_roots.contains(&text(COMMON)));
    assert!(!workspace_roots.iter().any(|root| below("/work/repo/.git/config", root)));
}

#[test]
fn workspace_roots_are_moved_once() {
    assert_eq!(
        workspace_roots_for_enter(
            &vec![text("/a"), text("/a/"), text("/b"), text("/w")],
            "/a",
            "/w",
            "/w/root",
        ),
        vec![text("/w"), text("/b"), text("/w/root")]
    );
}

#[test]
fn write_permission_error_output_is_bounded() {
    let mut session = Session::new("/workspace");
    session.writable.clear();
    let long_path = format!("/blocked/{}", "x".repeat(WORKTREE_OUTPUT_MAX_BYTES * 2));
    session.dirs.push(long_path.clone());

    let result = session.drive(|replies| {
        ensure_worktree_paths_writable(
            ENTER_WORKTREE_TOOL_NAME,
            false,
            "/workspace",
            &vec![long_path.clone()],
            replies,
            0,
        )
    });
    let Err(FunctionCallError::RespondToModel(message)) = result else {
        panic!("permission errors should be reported to the model");
    };

    assert!(message.len() < WORKTREE_OUTPUT_MAX_BYTES + 512);
    assert!(message.contains("truncated"));
}

#[test]
fn managed_names_are_direct_children() {
    let base = "/work/repo/.git/codex/worktrees";
    assert_eq!(
        managed_worktree_name_from_base(base, &format!("{base}/codex-a")),
        Some(text("codex-a"))
    );
    assert_eq!(managed_worktree_name_from_base(base, &format!("{base}/codex-a/b")), None);
    assert_eq!(managed_worktree_name_from_base(base, base), None);
    assert_eq!(managed_worktree_name_from_base(base, "/work/repo"), None);
    assert_eq!(original_repo_root_from_common_dir(COMMON), Some(text(REPO)));
    assert_eq!(original_repo_root_from_common_dir("/work/bare.git"), None);
}

#[test]
fn relative_paths_where_absolute_ones_belong_end_the_turn() {
    match absolute_path("a/b", "worktree path") {
        Err(FunctionCallError::Fatal(message)) => {
            assert_eq!(message, "worktree path is not absolute: path is not absolute: a/b");
        }
        _ => panic!("a fatal error was expected"),
    }
}

#[test]
fn enter_existing_worktree_uses_requested_root_from_subdirectory() {
    let cwd = "/work/repo/codex-rs";
    let mut session = Session::new(cwd);
    session.dirs.push(text(cwd));
    let managed = session.add_managed(COMMON, "codex-existing-subdir");
    session.dirs.push(format!("{managed}/codex-rs"));
    let output = done(session.enter(None, Some(&managed)));
    let output: serde_json::Value = serde_json::from_str(&output).expect("JSON output");
    assert_eq!(output["cwd"], managed.as_str());
    assert_eq!(output["worktree_path"], managed.as_str());
}

#[test]
fn enter_symlinked_directory_uses_canonical_target() {
    let cwd = "/work/repo/codex-rs";
    let mut session = Session::new(cwd);
    session.dirs.push(text(cwd));
    session.dirs.push(text("/work/outside"));
    session.writable.push(text("/work/outside"));
    let managed = session.add_managed(COMMON, "codex-symlink-subdir");
    let link = format!("{managed}/codex-rs");
    session.links.push((link.clone(), text("/work/outside")));
    let output = done(session.enter(None, Some(&link)));
    let output: serde_json::Value = serde_json::from_str(&output).expect("JSON output");
    assert_eq!(output["cwd"], "/work/outside");
    assert_eq!(output["worktree_path"], "/work/outside");
}

#[test]
fn enter_worktree_without_args_returns_error_and_preserves_cwd() {
    let mut session = Session::new(REPO);
    assert_respond_to_model(
        session.enter(None, None),
        "enter_worktree requires either `name` or `path`",
    );
    assert_eq!(session.cwd(), REPO);
    assert!(!session.dirs.contains(&text("/work/repo/.git/codex/worktrees")));
    assert!(session.log.is_empty());
}

#[test]
fn enter_worktree_rejects_unwritable_adopted_path_without_changing_authority() {
    let mut session = Session::new(REPO);
    session.dirs.push(text("/srv/outside"));
    session.links.push((text("/work/repo/outside-link"), text("/srv/outside")));
    assert_respond_to_model(
        session.enter(None, Some("/work/repo/outside-link")),
        "filesystem write permission",
    );
    assert_eq!(session.cwd(), REPO);
    assert_eq!(session.roots(), vec![text(REPO)]);
    assert!(session.log.is_empty());

    session.dirs.push(text("/work/repo/authorized-adopted"));
    done(session.enter(None, Some("/work/repo/authorized-adopted")));
    assert_eq!(session.roots(), vec![text("/work/repo/authorized-adopted")]);
    let output = done(session.exit(true));
    assert!(output.contains(REPO));
    assert_eq!(session.cwd(), REPO);
}

#[test]
fn exit_worktree_keep_false_rejects_dirty_managed_worktree() {
    let mut session = Session::new(REPO);
    done(session.enter(Some("codex-remove-dirty"), None));
    let managed = session.cwd();
    session.checkouts.iter_mut().find(|checkout| checkout.root == managed).expect("checkout").dirty =
        true;
    let Err(FunctionCallError::RespondToModel(output)) = session.exit(false) else {
        panic!("a dirty worktree must not be removed");
    };
    assert!(output.contains("worktree operation failed"));
    assert!(output.contains("contains modified or untracked files"));
    assert!(session.dirs.contains(&managed));
    assert_eq!(session.cwd(), managed);
    assert!(session.active.is_some());
}

#[test]
fn enter_worktree_allows_linked_worktree_with_external_common_git_dir() {
    let linked = "/work/linked";
    let mut session = Session::new(linked);
    session.writable = vec![text(linked)];
    session.dirs.push(text(linked));
    session.checkouts.push(Checkout {
        root: text(linked),
        common_dir: text(COMMON),
        branch: text("linked"),
        dirty: false,
    });
    done(session.enter(Some("codex-linked-flow"), None));
    assert_eq!(session.cwd(), "/work/repo/.git/codex/worktrees/codex-linked-flow");
    assert!(matches!(session.ownership(), ActiveWorktreeOwnership::ManagedByCodex(_)));
    done(session.exit(true));
    assert_eq!(session.cwd(), linked);
}

#[test]
fn enter_worktree_allows_writable_repo_subdirectory_cwd() {
    let cwd = "/work/repo/codex-rs";
    let mut session = Session::new(cwd);
    session.dirs.push(text(cwd));
    session.writable = vec![text(cwd)];
    done(session.enter(Some("codex-subdir-flow"), None));
    let active = session.active.as_ref().expect("active worktree");
    assert_eq!(active.worktree_path, "/work/repo/.git/codex/worktrees/codex-subdir-flow");
    assert!(session.dirs.contains(&active.worktree_path));
}

#[test]
fn enter_worktree_path_adopts_unmanaged_same_repo_worktree() {
    let mut session = Session::new(REPO);
    session.dirs.push(text("/work/repo/.git/codex/worktrees"));
    session.dirs.push(text("/work/unmanaged"));
    session.writable.push(text("/work/unmanaged"));
    session.checkouts.push(Checkout {
        root: text("/work/unmanaged"),
        common_dir: text(COMMON),
        branch: text("unmanaged"),
        dirty: false,
    });
    done(session.enter(None, Some("/work/unmanaged")));
    let active = session.active.as_ref().expect("adopted worktree should be active");
    assert_eq!(active.worktree_path, "/work/unmanaged");
    assert!(matches!(session.ownership(), ActiveWorktreeOwnership::Adopted));
}

#[test]
fn enter_worktree_path_rejects_environment_read_only_profile() {
    let mut session = Session::new(REPO);
    let managed = session.add_managed(COMMON, "codex-env-read-only");
    session.writable.clear();
    assert_respond_to_model(
        session.enter(None, Some(&managed)),
        "requires filesystem write permission",
    );
}

#[test]
fn worktree_transitions_persist_thread_metadata_cwd() {
    let mut session = Session::new(REPO);
    done(session.enter(Some("codex-metadata"), None));
    assert_eq!(session.persisted_cwd, Some(session.cwd()));
    done(session.exit(true));
    assert_eq!(session.persisted_cwd, Some(text(REPO)));
}

#[test]
fn worktree_tools_emit_thread_settings_applied_events() {
    let mut session = Session::new(REPO);
    done(session.enter(Some("codex-events"), None));
    assert_eq!(session.announced, 1);
    done(session.exit(true));
    assert_eq!(session.announced, 2);
}

#[test]
fn the_handlers_offer_the_tools() {
    let mut session = Session::new(REPO);
    assert_eq!(EnterWorktreeHandler.tool_name(), "enter_worktree");
    assert_eq!(EnterWorktreeHandler.spec().name, "enter_worktree");
    assert!(!EnterWorktreeHandler.supports_parallel_tool_calls());
    assert_eq!(ExitWorktreeHandler.tool_name(), "exit_worktree");
    assert_eq!(ExitWorktreeHandler.spec().name, "exit_worktree");
    assert!(!ExitWorktreeHandler.supports_parallel_tool_calls());

    let context = session.context();
    let payload = ToolPayload::Function(Ok(EnterWorktreeArgs {
        name: Some(text("codex-handled")),
        path: None,
    }));
    done(session.drive(|replies| EnterWorktreeHandler.handle(&context, &payload, replies, 0)));
    assert_eq!(session.cwd(), "/work/repo/.git/codex/worktrees/codex-handled");
    let context = session.context();
    let payload = ToolPayload::Function(Ok(ExitWorktreeArgs { keep: true }));
    done(session.drive(|replies| ExitWorktreeHandler.handle(&context, &payload, replies, 0)));
    assert_eq!(session.cwd(), REPO);
}

#[test]
fn entering_and_leaving_leaves_the_session_as_it_was() {
    for keep in [true, false] {
        let mut session = Session::new(REPO);
        done(session.enter(Some("codex-there-and-back"), None));
        let managed = session.cwd();
        assert_eq!(session.persisted_cwd, Some(managed.clone()));
        let output = done(session.exit(keep));
        let output: serde_json::Value = serde_json::from_str(&output).expect("JSON output");
        assert_eq!(output["cwd"], REPO);
        assert_eq!(output["original_cwd"], REPO);
        assert_eq!(output["worktree_path"], managed.as_str());
        assert_eq!(output["keep"], keep);
        assert_eq!(output["removed"], !keep);
        assert!(output["created"].is_null());
        assert_eq!(session.cwd(), REPO);
        assert_eq!(session.roots(), vec![text(REPO)]);
        assert_eq!(session.persisted_cwd, Some(text(REPO)));
        assert!(session.active.is_none());
        assert_eq!(session.dirs.contains(&managed), keep);
    }
}

#[test]
fn kept_data_is_read_back() {
    let mut session = Session::new(REPO);
    done(session.enter(Some("codex-kept"), None));
    let path = text("/work/repo/.git/codex/worktrees/codex-kept.codex.json");
    assert_eq!(session.metadata[0].0, path);
    let read = session.drive(|replies| {
        read_worktree_metadata_blocking(COMMON, "codex-kept", replies, 0)
    });
    let Ok(Some(metadata)) = read else {
        panic!("the kept data should be read");
    };
    assert_eq!(metadata.original_cwd, REPO);
    assert_eq!(metadata.owner_thread_id, Some(text("thread-1")));
    let missing = session.drive(|replies| {
        read_worktree_metadata_blocking(COMMON, "codex-other", replies, 0)
    });
    assert!(matches!(missing, Ok(None)));
}
