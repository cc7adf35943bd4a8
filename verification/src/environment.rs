//! The environments of a turn, and how a change of the working directory is written into them.

use vstd::prelude::*;
use vstd::string::*;

use crate::bounds::{model_error, worktree_model_error, CallErrorView, FunctionCallError};
use crate::paths::{is_same_path, path_parts, same_path};
use crate::text::{concat2, push_text, same_text};

verus! {

/// Where something lies, as an environment names it.
pub enum PathUri {
    /// An absolute path of this host.
    Native(String),
    /// A location that is no path of this host, and why.
    Foreign { uri: String, problem: String },
}

/// What an environment was selected with.
pub struct TurnEnvironmentSelection {
    pub environment_id: String,
    pub cwd: PathUri,
    pub workspace_roots: Vec<PathUri>,
    /// The number under which the configuration of the environment is kept.
    pub config: u64,
}

/// An environment that is ready for use.
pub struct TurnEnvironment {
    pub selection: TurnEnvironmentSelection,
    pub is_remote: bool,
}

/// An environment of a turn.
pub enum TurnEnvironmentState {
    Ready(TurnEnvironment),
    Starting(TurnEnvironmentSelection),
}

/// The environments of a turn, the primary one first.
pub struct TurnEnvironmentSnapshot {
    pub environments: Vec<TurnEnvironmentState>,
}

/// A working directory and the selections that go with it.
pub struct TurnEnvironmentSelections {
    pub cwd: String,
    pub environments: Vec<TurnEnvironmentSelection>,
}

/// A change of the settings of a session.
pub struct SessionSettingsUpdate {
    pub environments: TurnEnvironmentSelections,
    /// The change enters or leaves a worktree.
    pub worktree_transition: bool,
}

/// What becomes of the workspace roots of the primary environment.
pub enum PrimaryWorkspaceRootsUpdate {
    Preserve,
    Replace(Vec<String>),
}

/// A location, in specifications.
pub enum UriView {
    Native(Seq<char>),
    Foreign { uri: Seq<char>, problem: Seq<char> },
}

/// A selection, in specifications.
#[verifier::ext_equal]
pub struct SelectionView {
    pub environment_id: Seq<char>,
    pub cwd: UriView,
    pub workspace_roots: Seq<UriView>,
    pub config: u64,
}

/// A ready environment, in specifications.
pub struct EnvironmentView {
    pub selection: SelectionView,
    pub is_remote: bool,
}

/// An environment, in specifications.
pub enum StateView {
    Ready(EnvironmentView),
    Starting(SelectionView),
}

/// A change of the settings, in specifications.
#[verifier::ext_equal]
pub struct UpdateView {
    pub cwd: Seq<char>,
    pub environments: Seq<SelectionView>,
    pub worktree_transition: bool,
}

/// What becomes of the workspace roots, in specifications.
pub enum RootsUpdateView {
    Preserve,
    Replace(Seq<Seq<char>>),
}

impl DeepView for PathUri {
    type V = UriView;

    open spec fn deep_view(&self) -> UriView {
        match self {
            PathUri::Native(path) => UriView::Native(path@),
            PathUri::Foreign { uri, problem } => UriView::Foreign { uri: uri@, problem: problem@ },
        }
    }
}

impl DeepView for TurnEnvironmentSelection {
    type V = SelectionView;

    open spec fn deep_view(&self) -> SelectionView {
        SelectionView {
            environment_id: self.environment_id@,
            cwd: self.cwd.deep_view(),
            workspace_roots: self.workspace_roots.deep_view(),
            config: self.config,
        }
    }
}

impl DeepView for TurnEnvironment {
    type V = EnvironmentView;

    open spec fn deep_view(&self) -> EnvironmentView {
        EnvironmentView { selection: self.selection.deep_view(), is_remote: self.is_remote }
    }
}

impl DeepView for TurnEnvironmentState {
    type V = StateView;

    open spec fn deep_view(&self) -> StateView {
        match self {
            TurnEnvironmentState::Ready(environment) => StateView::Ready(environment.deep_view()),
            TurnEnvironmentState::Starting(selection) => StateView::Starting(
                selection.deep_view(),
            ),
        }
    }
}

impl DeepView for TurnEnvironmentSnapshot {
    type V = Seq<StateView>;

    open spec fn deep_view(&self) -> Seq<StateView> {
        self.environments.deep_view()
    }
}

impl DeepView for SessionSettingsUpdate {
    type V = UpdateView;

    open spec fn deep_view(&self) -> UpdateView {
        UpdateView {
            cwd: self.environments.cwd@,
            environments: self.environments.environments.deep_view(),
            worktree_transition: self.worktree_transition,
        }
    }
}

impl DeepView for PrimaryWorkspaceRootsUpdate {
    type V = RootsUpdateView;

    open spec fn deep_view(&self) -> RootsUpdateView {
        match self {
            PrimaryWorkspaceRootsUpdate::Preserve => RootsUpdateView::Preserve,
            PrimaryWorkspaceRootsUpdate::Replace(roots) => RootsUpdateView::Replace(
                roots.deep_view(),
            ),
        }
    }
}

impl PathUri {
    /// The location again.
    pub fn copy(&self) -> (copy: PathUri)
        ensures
            copy.deep_view() == self.deep_view(),
    {
        match self {
            PathUri::Native(path) => PathUri::Native(path.clone()),
            PathUri::Foreign { uri, problem } => PathUri::Foreign {
                uri: uri.clone(),
                problem: problem.clone(),
            },
        }
    }
}

/// The locations of paths of this host.
pub open spec fn native_uris(paths: Seq<Seq<char>>) -> Seq<UriView> {
    paths.map_values(|path: Seq<char>| UriView::Native(path))
}

fn push_uri(list: &mut Vec<PathUri>, uri: PathUri)
    ensures
        final(list).deep_view() == old(list).deep_view().push(uri.deep_view()),
{
    let ghost before = list.deep_view();
    list.push(uri);
    assert(list.deep_view() =~= before.push(uri.deep_view()));
}

fn uris_of(paths: &Vec<String>) -> (uris: Vec<PathUri>)
    ensures
        uris.deep_view() == native_uris(paths.deep_view()),
{
    let mut uris: Vec<PathUri> = Vec::new();
    let mut i: usize = 0;
    assert(uris.deep_view() =~= native_uris(paths.deep_view().take(0)));
    while i < paths.len()
        invariant
            i <= paths.len(),
            uris.deep_view() == native_uris(paths.deep_view().take(i as int)),
        decreases paths.len() - i,
    {
        push_uri(&mut uris, PathUri::Native(paths[i].clone()));
        assert(native_uris(paths.deep_view().take(i as int)).push(
            UriView::Native(paths[i as int]@),
        ) =~= native_uris(paths.deep_view().take(i + 1)));
        i += 1;
    }
    assert(paths.deep_view().take(paths.len() as int) =~= paths.deep_view());
    uris
}

fn copy_uris(uris: &Vec<PathUri>) -> (copy: Vec<PathUri>)
    ensures
        copy.deep_view() == uris.deep_view(),
{
    let mut copy: Vec<PathUri> = Vec::new();
    let mut i: usize = 0;
    assert(copy.deep_view() =~= uris.deep_view().take(0));
    while i < uris.len()
        invariant
            i <= uris.len(),
            copy.deep_view() == uris.deep_view().take(i as int),
        decreases uris.len() - i,
    {
        push_uri(&mut copy, uris[i].copy());
        assert(uris.deep_view().take(i as int).push(uris[i as int].deep_view())
            =~= uris.deep_view().take(i + 1));
        i += 1;
    }
    assert(uris.deep_view().take(uris.len() as int) =~= uris.deep_view());
    copy
}

impl TurnEnvironmentSelection {
    /// The selection again.
    pub fn copy(&self) -> (copy: TurnEnvironmentSelection)
        ensures
            copy.deep_view() == self.deep_view(),
    {
        TurnEnvironmentSelection {
            environment_id: self.environment_id.clone(),
            cwd: self.cwd.copy(),
            workspace_roots: copy_uris(&self.workspace_roots),
            config: self.config,
        }
    }
}

/// The first environment that is ready.
pub open spec fn primary_of(environments: Seq<StateView>) -> Option<EnvironmentView>
    decreases environments.len(),
{
    if environments.len() == 0 {
        None
    } else {
        match environments[0] {
            StateView::Ready(environment) => Some(environment),
            StateView::Starting(_) => primary_of(environments.drop_first()),
        }
    }
}

/// What an environment was selected with, whether or not it is ready.
pub open spec fn selection_of(state: StateView) -> SelectionView {
    match state {
        StateView::Ready(environment) => environment.selection,
        StateView::Starting(selection) => selection,
    }
}

/// The selections of all environments, in their order.
pub open spec fn selections_of(environments: Seq<StateView>) -> Seq<SelectionView> {
    environments.map_values(|state: StateView| selection_of(state))
}

impl TurnEnvironmentSnapshot {
    /// The first environment that is ready.
    pub fn primary(&self) -> (primary: Option<&TurnEnvironment>)
        ensures
            match primary {
                Some(environment) => primary_of(self.deep_view()) == Some(environment.deep_view()),
                None => primary_of(self.deep_view()) is None,
            },
    {
        let mut i: usize = 0;
        assert(self.deep_view().skip(0) =~= self.deep_view());
        while i < self.environments.len()
            invariant
                i <= self.environments.len(),
                primary_of(self.deep_view()) == primary_of(self.deep_view().skip(i as int)),
            decreases self.environments.len() - i,
        {
            proof {
                let rest = self.deep_view().skip(i as int);
                assert(rest[0] == self.environments[i as int].deep_view());
                assert(rest.drop_first() =~= self.deep_view().skip(i + 1));
            }
            if let TurnEnvironmentState::Ready(environment) = &self.environments[i] {
                return Some(environment);
            }
            i += 1;
        }
        None
    }

    /// The selections of all environments, with those that are starting.
    pub fn selections_including_starting(&self) -> (selections: Vec<TurnEnvironmentSelection>)
        ensures
            selections.deep_view() == selections_of(self.deep_view()),
    {
        let mut selections: Vec<TurnEnvironmentSelection> = Vec::new();
        let mut i: usize = 0;
        assert(selections.deep_view() =~= selections_of(self.deep_view()).take(0));
        while i < self.environments.len()
            invariant
                i <= self.environments.len(),
                selections.deep_view() == selections_of(self.deep_view()).take(i as int),
            decreases self.environments.len() - i,
        {
            let selection: TurnEnvironmentSelection = match &self.environments[i] {
                TurnEnvironmentState::Ready(environment) => environment.selection.copy(),
                TurnEnvironmentState::Starting(selection) => selection.copy(),
            };
            let ghost before = selections.deep_view();
            selections.push(selection);
            assert(selections.deep_view() =~= before.push(selection.deep_view()));
            assert(selections_of(self.deep_view())[i as int] == selection_of(
                self.environments[i as int].deep_view(),
            ));
            assert(before.push(selection.deep_view()) =~= selections_of(self.deep_view()).take(
                i + 1,
            ));
            i += 1;
        }
        assert(selections_of(self.deep_view()).take(self.environments.len() as int)
            =~= selections_of(self.deep_view()));
        selections
    }
}

/// The error of a tool that needs the primary environment to be ready.
pub open spec fn no_ready_primary(tool_name: Seq<char>) -> CallErrorView {
    model_error(tool_name + " requires a local primary environment that is ready"@)
}

/// The primary environment, which has to be the first one, ready, and of this host.
pub open spec fn local_primary(tool_name: Seq<char>, environments: Seq<StateView>) -> Result<
    EnvironmentView,
    CallErrorView,
> {
    if environments.len() > 0 && environments[0] is Ready {
        let primary = environments[0]->Ready_0;
        if primary.is_remote {
            Err(model_error(tool_name + " requires a local primary environment"@))
        } else {
            Ok(primary)
        }
    } else {
        Err(no_ready_primary(tool_name))
    }
}

/// Finds the primary environment, for a tool that changes directories of this host.
pub fn local_primary_environment<'a>(
    tool_name: &str,
    environments: &'a TurnEnvironmentSnapshot,
) -> (primary: Result<&'a TurnEnvironment, FunctionCallError>)
    ensures
        match primary {
            Ok(environment) => local_primary(tool_name@, environments.deep_view()) == Ok::<
                EnvironmentView,
                CallErrorView,
            >(environment.deep_view()),
            Err(error) => local_primary(tool_name@, environments.deep_view()) == Err::<
                EnvironmentView,
                CallErrorView,
            >(error.deep_view()),
        },
{
    if environments.environments.len() > 0 {
        assert(environments.deep_view()[0] == environments.environments[0].deep_view());
        if let TurnEnvironmentState::Ready(primary) = &environments.environments[0] {
            if primary.is_remote {
                return Err(
                    worktree_model_error(
                        concat2(tool_name, " requires a local primary environment").as_str(),
                    ),
                );
            }
            return Ok(primary);
        }
    }
    Err(
        worktree_model_error(
            concat2(tool_name, " requires a local primary environment that is ready").as_str(),
        ),
    )
}

/// The selections with the working directory of the first one changed; nothing else changes. The
/// first one has to be the primary environment, in the directory that is to be left.
pub open spec fn retargeted(
    tool_name: Seq<char>,
    current_cwd: Seq<char>,
    next_cwd: Seq<char>,
    environments: Seq<StateView>,
) -> Result<Seq<SelectionView>, CallErrorView> {
    let selections = selections_of(environments);
    match primary_of(environments) {
        None => Err(no_ready_primary(tool_name)),
        Some(primary) => if selections.len() > 0 && selections[0].environment_id
            == primary.selection.environment_id && selections[0].cwd == UriView::Native(
            current_cwd,
        ) {
            Ok(
                selections.update(
                    0,
                    SelectionView { cwd: UriView::Native(next_cwd), ..selections[0] },
                ),
            )
        } else {
            Err(
                model_error(
                    tool_name
                        + " requires the local primary environment cwd to match the session cwd"@,
                ),
            )
        },
    }
}

/// Moves the primary environment from `current_cwd` to `next_cwd`.
pub fn retarget_environment_cwds(
    tool_name: &str,
    current_cwd: &str,
    next_cwd: &str,
    environments: &TurnEnvironmentSnapshot,
) -> (selections: Result<Vec<TurnEnvironmentSelection>, FunctionCallError>)
    ensures
        match selections {
            Ok(list) => retargeted(tool_name@, current_cwd@, next_cwd@, environments.deep_view())
                == Ok::<Seq<SelectionView>, CallErrorView>(list.deep_view()),
            Err(error) => retargeted(tool_name@, current_cwd@, next_cwd@, environments.deep_view())
                == Err::<Seq<SelectionView>, CallErrorView>(error.deep_view()),
        },
{
    let mut selections: Vec<TurnEnvironmentSelection> =
        environments.selections_including_starting();
    let primary: &TurnEnvironment = match environments.primary() {
        Some(primary) => primary,
        None => {
            return Err(
                worktree_model_error(
                    concat2(
                        tool_name,
                        " requires a local primary environment that is ready",
                    ).as_str(),
                ),
            );
        },
    };
    if selections.len() > 0 {
        let ghost before = selections.deep_view();
        assert(before[0] == selections[0].deep_view());
        let is_there: bool = match &selections[0].cwd {
            PathUri::Native(path) => same_text(path.as_str(), current_cwd),
            PathUri::Foreign { .. } => false,
        };
        if is_there && same_text(
            selections[0].environment_id.as_str(),
            primary.selection.environment_id.as_str(),
        ) {
            let mut moved: TurnEnvironmentSelection = selections[0].copy();
            moved.cwd = PathUri::Native(next_cwd.to_owned());
            selections.set(0, moved);
            assert(selections.deep_view() =~= before.update(
                0,
                SelectionView { cwd: UriView::Native(next_cwd@), ..before[0] },
            ));
            return Ok(selections);
        }
    }
    Err(
        worktree_model_error(
            concat2(
                tool_name,
                " requires the local primary environment cwd to match the session cwd",
            ).as_str(),
        ),
    )
}

/// Selections with other workspace roots for the first one, where they are to be replaced.
pub open spec fn with_roots(selections: Seq<SelectionView>, roots: RootsUpdateView) -> Seq<
    SelectionView,
> {
    match roots {
        RootsUpdateView::Preserve => selections,
        RootsUpdateView::Replace(paths) => selections.update(
            0,
            SelectionView { workspace_roots: native_uris(paths), ..selections[0] },
        ),
    }
}

/// The change of the settings that moves the primary environment to another directory.
pub open spec fn settings_update(
    tool_name: Seq<char>,
    current_cwd: Seq<char>,
    next_cwd: Seq<char>,
    environments: Seq<StateView>,
    roots: RootsUpdateView,
) -> Result<UpdateView, CallErrorView> {
    match retargeted(tool_name, current_cwd, next_cwd, environments) {
        Err(error) => Err(error),
        Ok(selections) => Ok(
            UpdateView {
                cwd: next_cwd,
                environments: with_roots(selections, roots),
                worktree_transition: true,
            },
        ),
    }
}

/// Puts together the change of the settings that moves the primary environment to `next_cwd`.
pub fn cwd_settings_update(
    tool_name: &str,
    current_cwd: &str,
    next_cwd: &str,
    environments: &TurnEnvironmentSnapshot,
    workspace_roots_update: &PrimaryWorkspaceRootsUpdate,
) -> (update: Result<SessionSettingsUpdate, FunctionCallError>)
    ensures
        match update {
            Ok(update) => settings_update(
                tool_name@,
                current_cwd@,
                next_cwd@,
                environments.deep_view(),
                workspace_roots_update.deep_view(),
            ) == Ok::<UpdateView, CallErrorView>(update.deep_view()),
            Err(error) => settings_update(
                tool_name@,
                current_cwd@,
                next_cwd@,
                environments.deep_view(),
                workspace_roots_update.deep_view(),
            ) == Err::<UpdateView, CallErrorView>(error.deep_view()),
        },
{
    let mut selections: Vec<TurnEnvironmentSelection> = match retarget_environment_cwds(
        tool_name,
        current_cwd,
        next_cwd,
        environments,
    ) {
        Ok(selections) => selections,
        Err(error) => return Err(error),
    };
    if let PrimaryWorkspaceRootsUpdate::Replace(roots) = workspace_roots_update {
        let ghost before = selections.deep_view();
        assert(before.len() > 0);
        let mut primary: TurnEnvironmentSelection = selections[0].copy();
        primary.workspace_roots = uris_of(roots);
        selections.set(0, primary);
        assert(selections.deep_view() =~= with_roots(before, workspace_roots_update.deep_view()));
    }
    Ok(
        SessionSettingsUpdate {
            environments: TurnEnvironmentSelections {
                cwd: next_cwd.to_owned(),
                environments: selections,
            },
            worktree_transition: true,
        },
    )
}

/// A path of the list is the given one.
pub open spec fn has_path(list: Seq<Seq<char>>, path: Seq<char>) -> bool {
    exists|i: int| 0 <= i < list.len() && is_same_path(#[trigger] list[i], path)
}

/// A list with one more path, unless it is there already.
pub open spec fn with_path(list: Seq<Seq<char>>, path: Seq<char>) -> Seq<Seq<char>> {
    if has_path(list, path) {
        list
    } else {
        list.push(path)
    }
}

/// Workspace roots, each once, with the left directory replaced by the entered one.
pub open spec fn moved_roots(
    roots: Seq<Seq<char>>,
    original_cwd: Seq<char>,
    worktree_cwd: Seq<char>,
) -> Seq<Seq<char>>
    decreases roots.len(),
{
    if roots.len() == 0 {
        Seq::empty()
    } else {
        with_path(
            moved_roots(roots.drop_last(), original_cwd, worktree_cwd),
            if is_same_path(roots.last(), original_cwd) {
                worktree_cwd
            } else {
                roots.last()
            },
        )
    }
}

/// The workspace roots after entering a worktree: the moved ones, and the root that was entered.
pub open spec fn entered_roots(
    roots: Seq<Seq<char>>,
    original_cwd: Seq<char>,
    worktree_cwd: Seq<char>,
    entered: Seq<char>,
) -> Seq<Seq<char>> {
    with_path(moved_roots(roots, original_cwd, worktree_cwd), entered)
}

/// Adds `workspace_root` to the list, unless it is there already.
pub fn push_unique_workspace_root(workspace_roots: &mut Vec<String>, workspace_root: String)
    ensures
        final(workspace_roots).deep_view() == with_path(
            old(workspace_roots).deep_view(),
            workspace_root@,
        ),
{
    let mut i: usize = 0;
    while i < workspace_roots.len()
        invariant
            i <= workspace_roots.len(),
            workspace_roots.deep_view() == old(workspace_roots).deep_view(),
            forall|j: int|
                0 <= j < i ==> !is_same_path(
                    #[trigger] workspace_roots.deep_view()[j],
                    workspace_root@,
                ),
        decreases workspace_roots.len() - i,
    {
        assert(workspace_roots.deep_view()[i as int] == workspace_roots[i as int]@);
        if same_path(workspace_roots[i].as_str(), workspace_root.as_str()) {
            return;
        }
        i += 1;
    }
    push_text(workspace_roots, workspace_root);
}

/// The workspace roots of a session that enters a worktree.
pub fn workspace_roots_for_enter(
    current_workspace_roots: &Vec<String>,
    original_cwd: &str,
    worktree_cwd: &str,
    entered_workspace_root: &str,
) -> (roots: Vec<String>)
    ensures
        roots.deep_view() == entered_roots(
            current_workspace_roots.deep_view(),
            original_cwd@,
            worktree_cwd@,
            entered_workspace_root@,
        ),
{
    let mut roots: Vec<String> = Vec::new();
    let mut i: usize = 0;
    assert(current_workspace_roots.deep_view().take(0) =~= Seq::<Seq<char>>::empty());
    assert(roots.deep_view() =~= Seq::<Seq<char>>::empty());
    while i < current_workspace_roots.len()
        invariant
            i <= current_workspace_roots.len(),
            roots.deep_view() == moved_roots(
                current_workspace_roots.deep_view().take(i as int),
                original_cwd@,
                worktree_cwd@,
            ),
        decreases current_workspace_roots.len() - i,
    {
        proof {
            let next = current_workspace_roots.deep_view().take(i + 1);
            assert(next.drop_last() =~= current_workspace_roots.deep_view().take(i as int));
            assert(next.last() == current_workspace_roots[i as int]@);
        }
        let root: String = if same_path(current_workspace_roots[i].as_str(), original_cwd) {
            worktree_cwd.to_owned()
        } else {
            current_workspace_roots[i].clone()
        };
        push_unique_workspace_root(&mut roots, root);
        i += 1;
    }
    assert(current_workspace_roots.deep_view().take(current_workspace_roots.len() as int)
        =~= current_workspace_roots.deep_view());
    push_unique_workspace_root(&mut roots, entered_workspace_root.to_owned());
    roots
}

/// No path of the list occurs twice.
pub open spec fn has_distinct_paths(list: Seq<Seq<char>>) -> bool {
    forall|i: int, j: int|
        0 <= i < j < list.len() ==> !is_same_path(#[trigger] list[i], #[trigger] list[j])
}

/// Where a workspace root of an entered worktree comes from.
pub open spec fn is_entered_root(
    path: Seq<char>,
    roots: Seq<Seq<char>>,
    original_cwd: Seq<char>,
    worktree_cwd: Seq<char>,
) -> bool {
    ||| path == worktree_cwd
    ||| roots.contains(path) && !is_same_path(path, original_cwd)
}

proof fn lemma_moved_roots(
    roots: Seq<Seq<char>>,
    original_cwd: Seq<char>,
    worktree_cwd: Seq<char>,
)
    ensures
        has_distinct_paths(moved_roots(roots, original_cwd, worktree_cwd)),
        forall|i: int|
            0 <= i < moved_roots(roots, original_cwd, worktree_cwd).len() ==> is_entered_root(
                #[trigger] moved_roots(roots, original_cwd, worktree_cwd)[i],
                roots,
                original_cwd,
                worktree_cwd,
            ),
    decreases roots.len(),
{
    if roots.len() > 0 {
        let fewer = roots.drop_last();
        lemma_moved_roots(fewer, original_cwd, worktree_cwd);
        let before = moved_roots(fewer, original_cwd, worktree_cwd);
        let after = moved_roots(roots, original_cwd, worktree_cwd);
        assert(roots[roots.len() - 1] == roots.last());
        assert forall|i: int| 0 <= i < after.len() implies is_entered_root(
            #[trigger] after[i],
            roots,
            original_cwd,
            worktree_cwd,
        ) by {
            if i < before.len() {
                assert(after[i] == before[i]);
                if before[i] != worktree_cwd {
                    let k = choose|k: int| 0 <= k < fewer.len() && fewer[k] == before[i];
                    assert(roots[k] == before[i]);
                }
            }
        }
    }
}

/// Entering a worktree grants no other root than before: each workspace root is the entered
/// directory, the entered root, or a root that was there before and is not the directory that was
/// left. None is there twice.
pub proof fn lemma_entering_grants_only_the_worktree(
    roots: Seq<Seq<char>>,
    original_cwd: Seq<char>,
    worktree_cwd: Seq<char>,
    entered: Seq<char>,
)
    ensures
        has_distinct_paths(entered_roots(roots, original_cwd, worktree_cwd, entered)),
        has_path(entered_roots(roots, original_cwd, worktree_cwd, entered), entered),
        forall|i: int|
            #![trigger entered_roots(roots, original_cwd, worktree_cwd, entered)[i]]
            0 <= i < entered_roots(roots, original_cwd, worktree_cwd, entered).len()
                ==> entered_roots(roots, original_cwd, worktree_cwd, entered)[i] == entered
                || is_entered_root(
                entered_roots(roots, original_cwd, worktree_cwd, entered)[i],
                roots,
                original_cwd,
                worktree_cwd,
            ),
{
    lemma_moved_roots(roots, original_cwd, worktree_cwd);
    let moved = moved_roots(roots, original_cwd, worktree_cwd);
    let all = entered_roots(roots, original_cwd, worktree_cwd, entered);
    if !has_path(moved, entered) {
        assert(all[moved.len() as int] == entered);
        assert(is_same_path(all[moved.len() as int], entered));
    }
    assert forall|i: int| 0 <= i < all.len() implies #[trigger] all[i] == entered
        || is_entered_root(all[i], roots, original_cwd, worktree_cwd) by {
        if i < moved.len() {
            assert(all[i] == moved[i]);
        }
    }
}

/// The environments of a turn after its settings changed: each has the selection of its place.
pub open spec fn reselected(environments: Seq<StateView>, selections: Seq<SelectionView>) -> Seq<
    StateView,
> {
    Seq::new(
        environments.len(),
        |i: int|
            match environments[i] {
                StateView::Ready(environment) => StateView::Ready(
                    EnvironmentView { selection: selections[i], ..environment },
                ),
                StateView::Starting(_) => StateView::Starting(selections[i]),
            },
    )
}

/// Only the primary environment is moved: every other selection stays as it is, and of the
/// primary one nothing but the directory and, where they are replaced, the workspace roots.
pub proof fn lemma_only_the_primary_is_moved(
    tool_name: Seq<char>,
    current_cwd: Seq<char>,
    next_cwd: Seq<char>,
    environments: Seq<StateView>,
    roots: RootsUpdateView,
    update: UpdateView,
)
    requires
        settings_update(tool_name, current_cwd, next_cwd, environments, roots) == Ok::<
            UpdateView,
            CallErrorView,
        >(update),
    ensures
        update.cwd == next_cwd,
        update.environments.len() == environments.len() >= 1,
        update.environments[0].cwd == UriView::Native(next_cwd),
        update.environments[0].environment_id == selection_of(environments[0]).environment_id,
        update.environments[0].config == selection_of(environments[0]).config,
        roots is Preserve ==> update.environments[0].workspace_roots == selection_of(
            environments[0],
        ).workspace_roots,
        forall|i: int|
            1 <= i < environments.len() ==> update.environments[i] == selection_of(
                #[trigger] environments[i],
            ),
{
}

/// Entering a worktree and leaving it again gives every environment back the selection that it
/// had, the working directory and the workspace roots of the primary one included.
pub proof fn lemma_exit_restores_the_selections(
    enter_tool: Seq<char>,
    exit_tool: Seq<char>,
    original_cwd: Seq<char>,
    original_roots: Seq<Seq<char>>,
    worktree_cwd: Seq<char>,
    entered: Seq<Seq<char>>,
    environments: Seq<StateView>,
)
    requires
        local_primary(enter_tool, environments) is Ok,
        selection_of(environments[0]).cwd == UriView::Native(original_cwd),
        selection_of(environments[0]).workspace_roots == native_uris(original_roots),
    ensures
        settings_update(
            enter_tool,
            original_cwd,
            worktree_cwd,
            environments,
            RootsUpdateView::Replace(entered),
        ) matches Ok(enter) && settings_update(
            exit_tool,
            worktree_cwd,
            original_cwd,
            reselected(environments, enter.environments),
            RootsUpdateView::Replace(original_roots),
        ) == Ok::<UpdateView, CallErrorView>(
            UpdateView {
                cwd: original_cwd,
                environments: selections_of(environments),
                worktree_transition: true,
            },
        ),
{
    let selections = selections_of(environments);
    assert(selections[0] == selection_of(environments[0]));
    let enter = settings_update(
        enter_tool,
        original_cwd,
        worktree_cwd,
        environments,
        RootsUpdateView::Replace(entered),
    )->Ok_0;
    let changed = reselected(environments, enter.environments);
    assert(changed[0] is Ready);
    assert(selections_of(changed) =~= enter.environments);
    let leave = settings_update(
        exit_tool,
        worktree_cwd,
        original_cwd,
        changed,
        RootsUpdateView::Replace(original_roots),
    )->Ok_0;
    assert(leave.environments =~= selections) by {
        assert forall|i: int| 0 <= i < selections.len() implies leave.environments[i]
            == selections[i] by {
            if i > 0 {
                assert(enter.environments[i] == selections[i]);
            }
        }
    }
}

/// A workspace root as it is after entering: the directory that is left becomes the entered one.
pub open spec fn root_after(
    root: Seq<char>,
    original_cwd: Seq<char>,
    worktree_cwd: Seq<char>,
) -> Seq<char> {
    if path_parts(root) == path_parts(original_cwd) {
        worktree_cwd
    } else {
        root
    }
}

/// No path before this place is the same.
pub open spec fn is_first(list: Seq<Seq<char>>, i: int) -> bool {
    forall|j: int| 0 <= j < i ==> path_parts(#[trigger] list[j]) != path_parts(list[i])
}

/// How many of the first places hold a path for the first time.
pub open spec fn firsts(list: Seq<Seq<char>>, n: int) -> int
    decreases n,
{
    if n <= 0 {
        0
    } else {
        firsts(list, n - 1) + (if is_first(list, n - 1) {
            1int
        } else {
            0int
        })
    }
}

/// The list holds every path of another list once, at the place of its first occurrence.
#[verifier::opaque]
pub open spec fn holds_each_once(kept: Seq<Seq<char>>, all: Seq<Seq<char>>) -> bool {
    &&& kept.len() == firsts(all, all.len() as int)
    &&& forall|i: int|
        #![trigger is_first(all, i)]
        0 <= i < all.len() && is_first(all, i) ==> 0 <= firsts(all, i) < kept.len()
            && kept[firsts(all, i)] == all[i]
    &&& forall|i: int| 0 <= i < all.len() ==> has_path(kept, #[trigger] all[i])
    &&& forall|k: int| 0 <= k < kept.len() ==> all.contains(#[trigger] kept[k])
}

proof fn lemma_firsts_of_longer(list: Seq<Seq<char>>, path: Seq<char>, n: int)
    requires
        0 <= n <= list.len(),
    ensures
        firsts(list.push(path), n) == firsts(list, n),
        0 <= firsts(list, n) <= n,
        n < list.len() ==> is_first(list.push(path), n) == is_first(list, n),
    decreases n,
{
    if n < list.len() {
        let longer = list.push(path);
        if is_first(list, n) {
            assert forall|j: int| 0 <= j < n implies path_parts(#[trigger] longer[j]) != path_parts(
                longer[n],
            ) by {
                assert(longer[j] == list[j]);
            }
        }
        if is_first(longer, n) {
            assert forall|j: int| 0 <= j < n implies path_parts(#[trigger] list[j]) != path_parts(
                list[n],
            ) by {
                assert(longer[j] == list[j]);
            }
        }
    }
    if n > 0 {
        lemma_firsts_of_longer(list, path, n - 1);
    }
}

#[verifier::spinoff_prover]
proof fn lemma_one_more_path(kept: Seq<Seq<char>>, all: Seq<Seq<char>>, path: Seq<char>)
    requires
        holds_each_once(kept, all),
    ensures
        holds_each_once(with_path(kept, path), all.push(path)),
{
    reveal(holds_each_once);
    let n = all.len() as int;
    let more = all.push(path);
    let after = with_path(kept, path);
    assert forall|i: int| 0 <= i <= n implies firsts(more, i) == firsts(all, i) && 0 <= firsts(
        all,
        i,
    ) && (i < n ==> #[trigger] is_first(more, i) == is_first(all, i)) by {
        lemma_firsts_of_longer(all, path, i);
    }
    lemma_firsts_of_longer(all, path, n);
    assert(is_first(more, n) <==> !has_path(kept, path)) by {
        if has_path(kept, path) {
            let k = choose|k: int| 0 <= k < kept.len() && is_same_path(#[trigger] kept[k], path);
            assert(all.contains(kept[k]));
            let j = choose|j: int| 0 <= j < all.len() && all[j] == kept[k];
            assert(more[j] == all[j]);
        } else {
            assert forall|j: int| 0 <= j < n implies path_parts(#[trigger] more[j]) != path_parts(
                more[n],
            ) by {
                assert(has_path(kept, all[j]));
                let k = choose|k: int|
                    0 <= k < kept.len() && is_same_path(#[trigger] kept[k], all[j]);
                assert(!is_same_path(kept[k], path));
            }
        }
    }
    assert(after.len() == firsts(more, n + 1));
    assert forall|i: int| 0 <= i < more.len() && #[trigger] is_first(more, i) implies 0 <= firsts(
        more,
        i,
    ) < after.len() && after[firsts(more, i)] == more[i] by {
        if i < n {
            assert(is_first(all, i));
        }
    }
    assert forall|i: int| 0 <= i < more.len() implies has_path(after, #[trigger] more[i]) by {
        if i < n {
            assert(has_path(kept, all[i]));
            let k = choose|k: int| 0 <= k < kept.len() && is_same_path(#[trigger] kept[k], all[i]);
            assert(is_same_path(after[k], more[i]));
        } else if !has_path(kept, path) {
            assert(is_same_path(after[kept.len() as int], more[i]));
        }
    }
    assert forall|k: int| 0 <= k < after.len() implies more.contains(#[trigger] after[k]) by {
        if k < kept.len() {
            assert(all.contains(kept[k]));
            let j = choose|j: int| 0 <= j < all.len() && all[j] == kept[k];
            assert(more[j] == after[k]);
        } else {
            assert(more[n] == after[k]);
        }
    }
}

proof fn lemma_moved_roots_hold_each_once(
    roots: Seq<Seq<char>>,
    original_cwd: Seq<char>,
    worktree_cwd: Seq<char>,
)
    ensures
        holds_each_once(
            moved_roots(roots, original_cwd, worktree_cwd),
            roots.map_values(|root: Seq<char>| root_after(root, original_cwd, worktree_cwd)),
        ),
    decreases roots.len(),
{
    let moved = roots.map_values(|root: Seq<char>| root_after(root, original_cwd, worktree_cwd));
    if roots.len() == 0 {
        reveal(holds_each_once);
    } else {
        let fewer = roots.drop_last();
        let before = fewer.map_values(
            |root: Seq<char>| root_after(root, original_cwd, worktree_cwd),
        );
        lemma_moved_roots_hold_each_once(fewer, original_cwd, worktree_cwd);
        let last = root_after(roots.last(), original_cwd, worktree_cwd);
        lemma_one_more_path(moved_roots(fewer, original_cwd, worktree_cwd), before, last);
        assert(moved =~= before.push(last));
    }
}

/// The workspace roots after entering are exactly those of before, with the directory that is left
/// replaced by the entered one, and the entered root behind them; a path that comes again is left
/// out. So no other root is lost, none is added, and their order stays.
pub proof fn lemma_entering_moves_one_root(
    roots: Seq<Seq<char>>,
    original_cwd: Seq<char>,
    worktree_cwd: Seq<char>,
    entered: Seq<char>,
)
    ensures
        holds_each_once(
            entered_roots(roots, original_cwd, worktree_cwd, entered),
            roots.map_values(
                |root: Seq<char>| root_after(root, original_cwd, worktree_cwd),
            ).push(entered),
        ),
        forall|i: int|
            0 <= i < roots.len() && !is_same_path(#[trigger] roots[i], original_cwd) ==> has_path(
                entered_roots(roots, original_cwd, worktree_cwd, entered),
                roots[i],
            ),
        has_path(roots, original_cwd) ==> has_path(
            entered_roots(roots, original_cwd, worktree_cwd, entered),
            worktree_cwd,
        ),
        has_path(entered_roots(roots, original_cwd, worktree_cwd, entered), entered),
{
    let moved = roots.map_values(|root: Seq<char>| root_after(root, original_cwd, worktree_cwd));
    let after = entered_roots(roots, original_cwd, worktree_cwd, entered);
    lemma_moved_roots_hold_each_once(roots, original_cwd, worktree_cwd);
    lemma_one_more_path(moved_roots(roots, original_cwd, worktree_cwd), moved, entered);
    reveal(holds_each_once);
    assert forall|i: int| 0 <= i < roots.len() implies has_path(
        after,
        root_after(#[trigger] roots[i], original_cwd, worktree_cwd),
    ) by {
        assert(moved.push(entered)[i] == root_after(roots[i], original_cwd, worktree_cwd));
    }
    assert(moved.push(entered)[roots.len() as int] == entered);
    if has_path(roots, original_cwd) {
        let i = choose|i: int| 0 <= i < roots.len() && is_same_path(#[trigger] roots[i], original_cwd);
        assert(has_path(after, root_after(roots[i], original_cwd, worktree_cwd)));
    }
}

/// The primary environment is the first that is ready, and there is none where all are starting.
pub proof fn lemma_the_first_ready_environment_is_primary(environments: Seq<StateView>, i: int)
    requires
        0 <= i <= environments.len(),
        forall|j: int| 0 <= j < i ==> (#[trigger] environments[j]) is Starting,
    ensures
        i == environments.len() ==> primary_of(environments) is None,
        i < environments.len() ==> (environments[i] matches StateView::Ready(primary)
            ==> primary_of(environments) == Some(primary)),
    decreases environments.len(),
{
    if i > 0 {
        let rest = environments.drop_first();
        assert(environments[0] is Starting);
        assert forall|j: int| 0 <= j < i - 1 implies (#[trigger] rest[j]) is Starting by {
            assert(rest[j] == environments[j + 1]);
        }
        lemma_the_first_ready_environment_is_primary(rest, i - 1);
        if i < environments.len() {
            assert(rest[i - 1] == environments[i]);
        }
    }
}

/// A tool works in the first environment, which has to be ready and local.
pub proof fn lemma_tools_work_in_a_local_environment(
    tool_name: Seq<char>,
    environments: Seq<StateView>,
)
    ensures
        local_primary(tool_name, environments) is Ok <==> environments.len() > 0 && (
        environments[0] matches StateView::Ready(primary) && !primary.is_remote),
        local_primary(tool_name, environments) matches Ok(primary) ==> environments[0]
            == StateView::Ready(primary),
        local_primary(tool_name, environments) matches Err(error) ==> error == (if environments.len()
            > 0 && environments[0] is Ready {
            model_error(tool_name + " requires a local primary environment"@)
        } else {
            model_error(tool_name + " requires a local primary environment that is ready"@)
        }),
{
}

/// The settings change exactly where the first environment is the primary one and at the directory
/// of the session. Its directory becomes the next one and its roots the given ones, or stay; it
/// keeps its name and configuration. All other environments stay as they are.
#[verifier::spinoff_prover]
pub proof fn lemma_settings_move_the_first_environment(
    tool_name: Seq<char>,
    current_cwd: Seq<char>,
    next_cwd: Seq<char>,
    environments: Seq<StateView>,
    roots: RootsUpdateView,
    primary: EnvironmentView,
    i: int,
)
    requires
        primary_of(environments) == Some(primary),
        0 <= i < environments.len(),
    ensures
        settings_update(tool_name, current_cwd, next_cwd, environments, roots) is Ok
            <==> selection_of(environments[0]).environment_id == primary.selection.environment_id
            && selection_of(environments[0]).cwd == UriView::Native(current_cwd),
        settings_update(tool_name, current_cwd, next_cwd, environments, roots) matches Err(error)
            ==> error == model_error(
            tool_name + " requires the local primary environment cwd to match the session cwd"@,
        ),
        settings_update(tool_name, current_cwd, next_cwd, environments, roots) matches Ok(update)
            ==> {
            &&& update.cwd == next_cwd
            &&& update.worktree_transition
            &&& update.environments.len() == environments.len()
            &&& update.environments[i].environment_id == selection_of(
                environments[i],
            ).environment_id
            &&& update.environments[i].config == selection_of(environments[i]).config
            &&& update.environments[i].cwd == (if i == 0 {
                UriView::Native(next_cwd)
            } else {
                selection_of(environments[i]).cwd
            })
            &&& i > 0 || roots is Preserve ==> update.environments[i].workspace_roots
                == selection_of(environments[i]).workspace_roots
            &&& i == 0 ==> (roots matches RootsUpdateView::Replace(paths) ==> {
                &&& update.environments[0].workspace_roots.len() == paths.len()
                &&& forall|k: int|
                    0 <= k < paths.len() ==> #[trigger] update.environments[0].workspace_roots[k]
                        == UriView::Native(paths[k])
            })
        },
{
}

/// The environment that is ready or starting is selected under its own selection.
pub proof fn lemma_every_environment_has_its_selection(state: StateView)
    ensures
        state matches StateView::Ready(environment) ==> selection_of(state)
            == environment.selection,
        state matches StateView::Starting(selection) ==> selection_of(state) == selection,
{
}

} // verus!
